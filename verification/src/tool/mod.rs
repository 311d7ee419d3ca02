//! The tools that a model may call.
use crate::runtime::message::{ImageContent, ImageView};
use vstd::prelude::*;
use vstd::string::*;

pub mod builtin;
pub mod external;
pub mod file_law;
pub mod headless;
pub mod offered;
pub mod offered_law;
pub mod org_law;
pub mod org_outline;
pub mod registry;
pub mod shell;
pub mod shell_law;
pub mod web_browser;
pub mod web_law;
pub mod web_search;

verus! {

/// Whether a tool runs, asks first, or is refused.
#[derive(Clone, Copy, Debug, PartialEq, Eq, Structural)]
pub enum Approval {
    Allow,
    Ask,
    Deny,
}

#[derive(Clone, Copy, Debug, PartialEq, Eq, Structural)]
pub enum PlanStatus {
    Pending,
    InProgress,
    Completed,
}

impl DeepView for PlanStatus {
    type V = PlanStatus;

    open spec fn deep_view(&self) -> PlanStatus {
        *self
    }
}

#[derive(Debug, PartialEq)]
pub struct PlanStep {
    pub step: String,
    pub status: PlanStatus,
}

pub struct PlanStepView {
    pub step: Seq<char>,
    pub status: PlanStatus,
}

impl DeepView for PlanStep {
    type V = PlanStepView;

    open spec fn deep_view(&self) -> PlanStepView {
        PlanStepView { step: self.step@, status: self.status }
    }
}

impl Clone for PlanStep {
    fn clone(&self) -> (result: Self)
        ensures
            result.deep_view() == self.deep_view(),
    {
        PlanStep { step: self.step.clone(), status: self.status }
    }
}

/// The steps of a task, and why they were last changed.
#[derive(Debug, PartialEq)]
pub struct ExecutionPlan {
    pub explanation: Option<String>,
    pub plan: Vec<PlanStep>,
}

pub struct PlanView {
    pub explanation: Option<Seq<char>>,
    pub plan: Seq<PlanStepView>,
}

impl DeepView for ExecutionPlan {
    type V = PlanView;

    open spec fn deep_view(&self) -> PlanView {
        PlanView { explanation: self.explanation.deep_view(), plan: self.plan.deep_view() }
    }
}

impl Clone for ExecutionPlan {
    fn clone(&self) -> (result: Self)
        ensures
            result.deep_view() == self.deep_view(),
    {
        let plan = self.plan.clone();
        assert(plan.deep_view() =~= self.plan.deep_view());
        ExecutionPlan { explanation: self.explanation.clone(), plan }
    }
}

/// What a tool gave back.
#[derive(Debug, PartialEq)]
pub struct ToolResult {
    pub output: String,
    pub image: Option<ImageContent>,
    pub diff: Option<String>,
}

pub struct ToolResultView {
    pub output: Seq<char>,
    pub image: Option<ImageView>,
    pub diff: Option<Seq<char>>,
}

impl DeepView for ToolResult {
    type V = ToolResultView;

    open spec fn deep_view(&self) -> ToolResultView {
        ToolResultView {
            output: self.output@,
            image: self.image.deep_view(),
            diff: self.diff.deep_view(),
        }
    }
}

impl Clone for ToolResult {
    fn clone(&self) -> (result: Self)
        ensures
            result.deep_view() == self.deep_view(),
    {
        ToolResult {
            output: self.output.clone(),
            image: self.image.clone(),
            diff: self.diff.clone(),
        }
    }
}

} // verus!
