//! What a client sees of a session: blocks of text and tool calls, and the state
//! of the running turn.
use crate::project::{ProjectState, ProjectView};
use crate::runtime::message::{ImageContent, ImageView, ToolCall, ToolCallView};
use crate::runtime::ReasoningEffort;
use crate::tool::{ExecutionPlan, PlanView};
use vstd::prelude::*;
use vstd::string::*;

verus! {

// ---------------------------------------------------------------------------
// Timers
// ---------------------------------------------------------------------------

/// A stopwatch. Times are nanoseconds of a clock that does not go back.
#[derive(Clone, Copy, Debug, PartialEq, Eq, Structural)]
pub struct Timer {
    pub elapsed: u64,
    pub started: Option<u64>,
}

/// The sum of `a` and `b`, or the greatest number where it is greater.
pub open spec fn saturating_sum(a: u64, b: u64) -> u64 {
    if a + b > u64::MAX {
        u64::MAX
    } else {
        (a + b) as u64
    }
}

impl Timer {
    /// The time that the stopwatch has run until `now`.
    pub open spec fn spec_value(self, now: u64) -> u64 {
        match self.started {
            Some(start) if now > start => saturating_sum(self.elapsed, (now - start) as u64),
            _ => self.elapsed,
        }
    }

    pub open spec fn resumed(self, now: u64) -> Timer {
        match self.started {
            Some(_) => self,
            None => Timer { elapsed: self.elapsed, started: Some(now) },
        }
    }

    pub open spec fn paused(self, now: u64) -> Timer {
        Timer { elapsed: self.spec_value(now), started: None }
    }

    /// The time that the stopwatch has run until `now`.
    pub fn value(&self, now: u64) -> (result: u64)
        ensures
            result == self.spec_value(now),
    {
        match self.started {
            Some(start) => if now > start {
                self.elapsed.saturating_add(now - start)
            } else {
                self.elapsed
            },
            None => self.elapsed,
        }
    }

    pub fn running(&self) -> (result: bool)
        ensures
            result == (self.started is Some),
    {
        self.started.is_some()
    }

    pub(crate) fn resume(&mut self, now: u64)
        ensures
            *final(self) == old(self).resumed(now),
    {
        if self.started.is_none() {
            self.started = Some(now);
        }
    }

    pub(crate) fn pause(&mut self, now: u64)
        ensures
            *final(self) == old(self).paused(now),
    {
        self.elapsed = self.value(now);
        self.started = None;
    }
}

impl Default for Timer {
    fn default() -> (result: Self)
        ensures
            result == (Timer { elapsed: 0, started: None }),
    {
        Timer { elapsed: 0, started: None }
    }
}

/// A stopwatch that was stopped keeps its time, and one that runs shows the time
/// since it was resumed on top of what it had.
pub proof fn timer_law(timer: Timer, start: u64, end: u64)
    requires
        timer.started is None,
        start <= end,
        timer.elapsed + (end - start) <= u64::MAX,
    ensures
        timer.spec_value(end) == timer.elapsed,
        timer.resumed(start).spec_value(end) == timer.elapsed + (end - start),
        timer.resumed(start).paused(end).spec_value(u64::MAX) == timer.elapsed + (end - start),
        timer.resumed(start).resumed(end) == timer.resumed(start),
{
}

// ---------------------------------------------------------------------------
// Blocks
// ---------------------------------------------------------------------------

#[derive(Clone, Copy, Debug, PartialEq, Eq, Structural)]
pub enum BlockKind {
    User,
    Steer,
    Assistant,
    Status,
    System,
    Error,
    Thinking,
    Tool,
}

#[derive(Clone, Copy, Debug, PartialEq, Eq, Structural)]
pub enum ToolStatus {
    Streaming,
    Pending,
    WaitingApproval,
    Running,
    Done,
    Failed,
}

/// A tool call as a client sees it.
#[derive(Debug, PartialEq)]
pub struct ToolView {
    pub call_id: Option<String>,
    pub name: String,
    pub arguments: String,
    pub output: Option<String>,
    pub diff: Option<String>,
    pub status: ToolStatus,
}

pub struct ToolModel {
    pub call_id: Option<Seq<char>>,
    pub name: Seq<char>,
    pub arguments: Seq<char>,
    pub output: Option<Seq<char>>,
    pub diff: Option<Seq<char>>,
    pub status: ToolStatus,
}

impl DeepView for ToolView {
    type V = ToolModel;

    open spec fn deep_view(&self) -> ToolModel {
        ToolModel {
            call_id: self.call_id.deep_view(),
            name: self.name@,
            arguments: self.arguments@,
            output: self.output.deep_view(),
            diff: self.diff.deep_view(),
            status: self.status,
        }
    }
}

impl Clone for ToolView {
    fn clone(&self) -> (result: Self)
        ensures
            result.deep_view() == self.deep_view(),
    {
        ToolView {
            call_id: self.call_id.clone(),
            name: self.name.clone(),
            arguments: self.arguments.clone(),
            output: self.output.clone(),
            diff: self.diff.clone(),
            status: self.status,
        }
    }
}

/// One entry of the transcript.
#[derive(Debug, PartialEq)]
pub struct Block {
    pub id: String,
    pub kind: BlockKind,
    pub content: String,
    pub model: String,
    pub images: Vec<ImageContent>,
    pub summary: Option<String>,
    pub tool: Option<ToolView>,
    pub timer: Timer,
    pub queued: bool,
}

pub struct BlockView {
    pub id: Seq<char>,
    pub kind: BlockKind,
    pub content: Seq<char>,
    pub model: Seq<char>,
    pub images: Seq<ImageView>,
    pub summary: Option<Seq<char>>,
    pub tool: Option<ToolModel>,
    pub timer: Timer,
    pub queued: bool,
}

impl DeepView for Block {
    type V = BlockView;

    open spec fn deep_view(&self) -> BlockView {
        BlockView {
            id: self.id@,
            kind: self.kind,
            content: self.content@,
            model: self.model@,
            images: self.images.deep_view(),
            summary: self.summary.deep_view(),
            tool: self.tool.deep_view(),
            timer: self.timer,
            queued: self.queued,
        }
    }
}

impl Clone for Block {
    fn clone(&self) -> (result: Self)
        ensures
            result.deep_view() == self.deep_view(),
    {
        let images = self.images.clone();
        assert(images.deep_view() =~= self.images.deep_view());
        Block {
            id: self.id.clone(),
            kind: self.kind,
            content: self.content.clone(),
            model: self.model.clone(),
            images,
            summary: self.summary.clone(),
            tool: self.tool.clone(),
            timer: self.timer,
            queued: self.queued,
        }
    }
}

// ---------------------------------------------------------------------------
// The state of a session
// ---------------------------------------------------------------------------

/// A tool call that waits for the user.
#[derive(Debug, PartialEq)]
pub struct Approval {
    pub id: String,
    pub call: ToolCall,
}

pub struct ApprovalView {
    pub id: Seq<char>,
    pub call: ToolCallView,
}

impl DeepView for Approval {
    type V = ApprovalView;

    open spec fn deep_view(&self) -> ApprovalView {
        ApprovalView { id: self.id@, call: self.call.deep_view() }
    }
}

impl Clone for Approval {
    fn clone(&self) -> (result: Self)
        ensures
            result.deep_view() == self.deep_view(),
    {
        Approval { id: self.id.clone(), call: self.call.clone() }
    }
}

/// The state of a session beside its transcript. `total_cost` is the bit pattern
/// of a double.
#[derive(Debug, PartialEq)]
pub struct SessionState {
    pub title: String,
    pub turn_id: Option<String>,
    pub compacting: bool,
    pub phase: String,
    pub model: String,
    pub response_model: String,
    pub reasoning_effort: Option<ReasoningEffort>,
    pub settings_revision: u64,
    pub total_tokens: u64,
    pub total_cost: Option<u64>,
    pub context_tokens: u64,
    pub max_context_tokens: u64,
    pub approval: Option<Approval>,
    pub queued_steers: usize,
    pub error: Option<String>,
    pub notice: Option<String>,
    pub output_tokens: u64,
    pub generation_ms: u64,
}

pub struct StateView {
    pub title: Seq<char>,
    pub turn_id: Option<Seq<char>>,
    pub compacting: bool,
    pub phase: Seq<char>,
    pub model: Seq<char>,
    pub response_model: Seq<char>,
    pub reasoning_effort: Option<ReasoningEffort>,
    pub settings_revision: u64,
    pub total_tokens: u64,
    pub total_cost: Option<u64>,
    pub context_tokens: u64,
    pub max_context_tokens: u64,
    pub approval: Option<ApprovalView>,
    pub queued_steers: usize,
    pub error: Option<Seq<char>>,
    pub notice: Option<Seq<char>>,
    pub output_tokens: u64,
    pub generation_ms: u64,
}

impl DeepView for SessionState {
    type V = StateView;

    open spec fn deep_view(&self) -> StateView {
        StateView {
            title: self.title@,
            turn_id: self.turn_id.deep_view(),
            compacting: self.compacting,
            phase: self.phase@,
            model: self.model@,
            response_model: self.response_model@,
            reasoning_effort: self.reasoning_effort,
            settings_revision: self.settings_revision,
            total_tokens: self.total_tokens,
            total_cost: self.total_cost,
            context_tokens: self.context_tokens,
            max_context_tokens: self.max_context_tokens,
            approval: self.approval.deep_view(),
            queued_steers: self.queued_steers,
            error: self.error.deep_view(),
            notice: self.notice.deep_view(),
            output_tokens: self.output_tokens,
            generation_ms: self.generation_ms,
        }
    }
}

impl Clone for SessionState {
    fn clone(&self) -> (result: Self)
        ensures
            result.deep_view() == self.deep_view(),
    {
        SessionState {
            title: self.title.clone(),
            turn_id: self.turn_id.clone(),
            compacting: self.compacting,
            phase: self.phase.clone(),
            model: self.model.clone(),
            response_model: self.response_model.clone(),
            reasoning_effort: self.reasoning_effort,
            settings_revision: self.settings_revision,
            total_tokens: self.total_tokens,
            total_cost: self.total_cost,
            context_tokens: self.context_tokens,
            max_context_tokens: self.max_context_tokens,
            approval: self.approval.clone(),
            queued_steers: self.queued_steers,
            error: self.error.clone(),
            notice: self.notice.clone(),
            output_tokens: self.output_tokens,
            generation_ms: self.generation_ms,
        }
    }
}

/// A state of which nothing is known.
pub open spec fn empty_state() -> StateView {
    StateView {
        title: Seq::empty(),
        turn_id: None,
        compacting: false,
        phase: Seq::empty(),
        model: Seq::empty(),
        response_model: Seq::empty(),
        reasoning_effort: None,
        settings_revision: 0,
        total_tokens: 0,
        total_cost: None,
        context_tokens: 0,
        max_context_tokens: 0,
        approval: None,
        queued_steers: 0,
        error: None,
        notice: None,
        output_tokens: 0,
        generation_ms: 0,
    }
}

impl Default for SessionState {
    fn default() -> (result: Self)
        ensures
            result.deep_view() == empty_state(),
    {
        SessionState {
            title: String::new(),
            turn_id: None,
            compacting: false,
            phase: String::new(),
            model: String::new(),
            response_model: String::new(),
            reasoning_effort: None,
            settings_revision: 0,
            total_tokens: 0,
            total_cost: None,
            context_tokens: 0,
            max_context_tokens: 0,
            approval: None,
            queued_steers: 0,
            error: None,
            notice: None,
            output_tokens: 0,
            generation_ms: 0,
        }
    }
}

/// All that a client needs to show a session.
#[derive(Debug, PartialEq)]
pub struct Snapshot {
    pub session_id: String,
    pub seq: u64,
    pub blocks: Vec<Block>,
    pub state: SessionState,
    pub plan: Option<ExecutionPlan>,
    pub project: ProjectState,
    pub assistant_id: Option<String>,
    pub reasoning_id: Option<String>,
    pub drafts: Vec<(usize, String)>,
}

/// The part of a snapshot that changes describe.
pub struct SnapshotView {
    pub session_id: Seq<char>,
    pub seq: u64,
    pub blocks: Seq<BlockView>,
    pub state: StateView,
    pub plan: Option<PlanView>,
    pub project: ProjectView,
}

impl DeepView for Snapshot {
    type V = SnapshotView;

    open spec fn deep_view(&self) -> SnapshotView {
        SnapshotView {
            session_id: self.session_id@,
            seq: self.seq,
            blocks: self.blocks.deep_view(),
            state: self.state.deep_view(),
            plan: self.plan.deep_view(),
            project: self.project.deep_view(),
        }
    }
}

/// One difference between two snapshots.
#[derive(Debug, PartialEq)]
pub enum Change {
    Insert { before: Option<String>, block: Block },
    Replace { block: Block },
    Append { block_id: String, field: String, text: String },
    State { state: SessionState },
    Plan { plan: Option<ExecutionPlan> },
    Project { project: ProjectState },
}

pub enum ChangeView {
    Insert { before: Option<Seq<char>>, block: BlockView },
    Replace { block: BlockView },
    Append { block_id: Seq<char>, field: Seq<char>, text: Seq<char> },
    State { state: StateView },
    Plan { plan: Option<PlanView> },
    Project { project: ProjectView },
}

impl DeepView for Change {
    type V = ChangeView;

    open spec fn deep_view(&self) -> ChangeView {
        match *self {
            Change::Insert { before, block } => ChangeView::Insert {
                before: before.deep_view(),
                block: block.deep_view(),
            },
            Change::Replace { block } => ChangeView::Replace { block: block.deep_view() },
            Change::Append { block_id, field, text } => ChangeView::Append {
                block_id: block_id@,
                field: field@,
                text: text@,
            },
            Change::State { state } => ChangeView::State { state: state.deep_view() },
            Change::Plan { plan } => ChangeView::Plan { plan: plan.deep_view() },
            Change::Project { project } => ChangeView::Project { project: project.deep_view() },
        }
    }
}

} // verus!
