//! The turns of a conversation: its messages, the context that a request carries,
//! and the rules by which a turn goes on.
use crate::text;
use vstd::prelude::*;
use vstd::string::*;

pub mod actor;
pub mod actor_law;
pub mod agent;
pub mod announce;
pub mod budget;
pub mod collect;
pub mod context;
pub mod context_law;
pub mod event;
pub mod message;
pub mod turn;
pub mod turn_law;

verus! {

/// What a message begins with that stands for the history before it.
pub const COMPACTION_MARKER: &'static str = "Context compacted";

/// What a cancelled tool or turn says of itself.
pub const CANCELLED_BY_USER: &'static str = "cancelled by user";

/// How much a model is asked to think before it answers.
#[derive(Clone, Copy, Debug, PartialEq, Eq, Structural)]
pub enum ReasoningEffort {
    /// No reasoning at all; written `none`.
    Off,
    Minimal,
    Low,
    Medium,
    High,
    XHigh,
    Max,
}

impl DeepView for ReasoningEffort {
    type V = ReasoningEffort;

    open spec fn deep_view(&self) -> ReasoningEffort {
        *self
    }
}

/// The name of an effort.
pub open spec fn effort_name(effort: ReasoningEffort) -> Seq<char> {
    match effort {
        ReasoningEffort::Off => "none"@,
        ReasoningEffort::Minimal => "minimal"@,
        ReasoningEffort::Low => "low"@,
        ReasoningEffort::Medium => "medium"@,
        ReasoningEffort::High => "high"@,
        ReasoningEffort::XHigh => "xhigh"@,
        ReasoningEffort::Max => "max"@,
    }
}

/// Whether a name is that of an effort.
pub open spec fn is_effort_name(name: Seq<char>) -> bool {
    exists|effort: ReasoningEffort| #[trigger] effort_name(effort) == name
}

impl ReasoningEffort {
    /// The name of the effort.
    pub fn name(&self) -> (name: &'static str)
        ensures
            name@ == effort_name(*self),
    {
        match self {
            ReasoningEffort::Off => "none",
            ReasoningEffort::Minimal => "minimal",
            ReasoningEffort::Low => "low",
            ReasoningEffort::Medium => "medium",
            ReasoningEffort::High => "high",
            ReasoningEffort::XHigh => "xhigh",
            ReasoningEffort::Max => "max",
        }
    }

    /// The effort that goes by `value`.
    pub fn parse(value: &str) -> (result: Result<ReasoningEffort, String>)
        ensures
            match result {
                Ok(effort) => effort_name(effort) == value@,
                Err(error) => !is_effort_name(value@) && error@
                    == "reasoning effort must be none, minimal, low, medium, high, xhigh, or max"@,
            },
    {
        if text::same(value, "none") {
            Ok(ReasoningEffort::Off)
        } else if text::same(value, "minimal") {
            Ok(ReasoningEffort::Minimal)
        } else if text::same(value, "low") {
            Ok(ReasoningEffort::Low)
        } else if text::same(value, "medium") {
            Ok(ReasoningEffort::Medium)
        } else if text::same(value, "high") {
            Ok(ReasoningEffort::High)
        } else if text::same(value, "xhigh") {
            Ok(ReasoningEffort::XHigh)
        } else if text::same(value, "max") {
            Ok(ReasoningEffort::Max)
        } else {
            Err("reasoning effort must be none, minimal, low, medium, high, xhigh, or max".to_owned())
        }
    }
}

/// No two efforts have one name, so a name that is written is read back.
pub proof fn effort_name_law(a: ReasoningEffort, b: ReasoningEffort)
    ensures
        effort_name(a) == effort_name(b) <==> a == b,
        is_effort_name(effort_name(a)),
{
    reveal_strlit("none");
    reveal_strlit("minimal");
    reveal_strlit("low");
    reveal_strlit("medium");
    reveal_strlit("high");
    reveal_strlit("xhigh");
    reveal_strlit("max");
    let x = effort_name(a);
    let y = effort_name(b);
    if a != b && x == y {
        assert(x.len() == y.len());
        assert(x[0] == y[0]);
        assert(x[1] == y[1]);
    }
}

// ---------------------------------------------------------------------------
// Work on the project
// ---------------------------------------------------------------------------

/// Work on the project that takes a while.
#[derive(Debug, PartialEq)]
pub enum ProjectRequest {
    Refresh,
    Diff(Option<String>),
}

pub enum ProjectRequestView {
    Refresh,
    Diff(Option<Seq<char>>),
}

impl DeepView for ProjectRequest {
    type V = ProjectRequestView;

    open spec fn deep_view(&self) -> ProjectRequestView {
        match *self {
            ProjectRequest::Refresh => ProjectRequestView::Refresh,
            ProjectRequest::Diff(path) => ProjectRequestView::Diff(path.deep_view()),
        }
    }
}

/// Work on the project, one piece at a time. What is asked for meanwhile waits, and
/// the last of it takes the place of what was asked for before.
#[derive(Debug, PartialEq)]
pub struct ProjectRequests {
    in_flight: bool,
    pending: Option<ProjectRequest>,
}

pub struct ProjectRequestsView {
    pub in_flight: bool,
    pub pending: Option<ProjectRequestView>,
}

impl View for ProjectRequests {
    type V = ProjectRequestsView;

    closed spec fn view(&self) -> ProjectRequestsView {
        ProjectRequestsView { in_flight: self.in_flight, pending: self.pending.deep_view() }
    }
}

impl ProjectRequestsView {
    /// What waits, waits for work that runs.
    pub open spec fn wf(self) -> bool {
        self.pending is Some ==> self.in_flight
    }

    /// What stands after a request: one that comes while work runs takes the place of
    /// what waited.
    pub open spec fn requested(self, request: ProjectRequestView) -> ProjectRequestsView {
        ProjectRequestsView {
            in_flight: true,
            pending: if self.in_flight {
                Some(request)
            } else {
                self.pending
            },
        }
    }

    /// What stands when the work is done: what waited runs now.
    pub open spec fn done(self) -> ProjectRequestsView {
        ProjectRequestsView { in_flight: self.pending is Some, pending: None }
    }
}

/// At most one piece of work runs at a time. A request is handed out only where nothing
/// runs; what waited is handed out when the work before it is done, and a request that
/// comes after that waits in its turn.
pub proof fn one_task_law(requests: ProjectRequestsView, a: ProjectRequestView, b: ProjectRequestView)
    requires
        requests.wf(),
    ensures
        requests.requested(a).wf(),
        requests.done().wf(),
        requests.requested(a).in_flight,
        requests.requested(a).requested(b) == (ProjectRequestsView {
            in_flight: true,
            pending: Some(b),
        }),
        requests.requested(a).requested(b).done() == (ProjectRequestsView {
            in_flight: true,
            pending: None,
        }),
        requests.done().in_flight <==> requests.pending is Some,
        !requests.done().done().in_flight,
{
}

impl ProjectRequests {
    pub fn new() -> (result: Self)
        ensures
            result@ == (ProjectRequestsView { in_flight: false, pending: None }),
    {
        ProjectRequests { in_flight: false, pending: None }
    }

    /// The request to run now; none where it has to wait.
    pub fn request(&mut self, request: ProjectRequest) -> (run: Option<ProjectRequest>)
        ensures
            final(self)@ == old(self)@.requested(request.deep_view()),
            run.deep_view() == if old(self)@.in_flight {
                None
            } else {
                Some(request.deep_view())
            },
    {
        if self.in_flight {
            self.pending = Some(request);
            None
        } else {
            self.in_flight = true;
            Some(request)
        }
    }

    /// The work is done: the request that waited, if one did, is to run now.
    pub fn completed(&mut self) -> (next: Option<ProjectRequest>)
        ensures
            final(self)@ == old(self)@.done(),
            next.deep_view() == old(self)@.pending,
    {
        let next = self.pending.take();
        self.in_flight = next.is_some();
        next
    }
}

impl Default for ProjectRequests {
    fn default() -> (result: Self)
        ensures
            result@ == (ProjectRequestsView { in_flight: false, pending: None }),
    {
        ProjectRequests::new()
    }
}

} // verus!
