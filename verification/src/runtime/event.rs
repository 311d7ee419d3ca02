//! What a session tells those who watch it.
use super::message::{ImageContent, Message, ToolCall};
use super::ReasoningEffort;
use crate::project::ProjectState;
use crate::tool::ExecutionPlan;
use vstd::prelude::*;

verus! {

/// The answer to a request to run a tool.
#[derive(Clone, Copy, Debug, PartialEq, Eq, Structural)]
pub enum ApprovalDecision {
    AllowOnce,
    AllowSession,
    Deny,
}

/// One thing that happened in a session. Times are in milliseconds, a cost is the
/// bit pattern of a double.
#[derive(Debug, PartialEq)]
pub enum Event {
    History(Vec<Message>),
    MessageAccepted(Message),
    OperationStarted { id: String, compacting: bool },
    SessionChanged(String),
    UsageChanged { total_tokens: u64, total_cost: Option<u64> },
    ContextChanged { tokens: u64, max_tokens: u64 },
    SettingsChanged { model: String, reasoning_effort: Option<ReasoningEffort> },
    SettingsRevision(u64),
    ProjectChanged(ProjectState),
    PlanChanged(Option<ExecutionPlan>),
    GenerationStarted,
    ModelRequestStarted(String),
    ResponseHeadersReceived,
    ResponseStarted,
    ModelResponseFinished { output_tokens: u64, duration_ms: u64 },
    ReasoningDelta(String),
    TextDelta(String),
    ToolCallDelta { index: usize, name: Option<String>, arguments: String },
    ToolCallFinished { index: usize, call: ToolCall },
    ApprovalRequested { approval_id: String, call: ToolCall },
    ApprovalResolved { approval_id: String, tool: String, decision: ApprovalDecision },
    ToolStarted { call_id: String },
    ToolOutputDelta { call_id: String, delta: String },
    ToolResult { call_id: String, output: String, success: bool, diff: Option<String> },
    ToolImage { call_id: String, image: ImageContent },
    SteersDelivered(usize),
    Retrying { seconds: u64 },
    CompactionStarted,
    ContextCompacted { summary: String },
    GenerationFinished,
    GenerationCancelled,
    Error(String),
    Notice(String),
    Ready,
    Barrier,
    RefreshProject,
    PromptRejected(String),
    Saved,
}

} // verus!
