//! What a session tells those who watch it about its steps.
use super::actor::{Actor, ActorView, Approving, Finished};
use super::context::clone_messages;
use super::event::{ApprovalDecision, Event};
use super::message::MessageView;
use crate::config::{active, others};
use crate::project::{ProjectState, ProjectView};
use crate::protocol::{Error, ErrorView};
use crate::session::{known_cost, shown_name, MetaView};
use crate::text;
use crate::tool::PlanView;
use vstd::prelude::*;
use vstd::string::*;

verus! {

// ---------------------------------------------------------------------------
// Events
// ---------------------------------------------------------------------------

pub open spec fn tells_history(event: Event, messages: Seq<MessageView>) -> bool {
    event matches Event::History(told) && told.deep_view() == messages
}

pub open spec fn tells_name(event: Event, meta: MetaView) -> bool {
    event matches Event::SessionChanged(name) && name@ == shown_name(meta.title, meta.name)
}

pub open spec fn tells_usage(event: Event, meta: MetaView) -> bool {
    event == (Event::UsageChanged {
        total_tokens: meta.total_tokens,
        total_cost: known_cost(meta),
    })
}

pub open spec fn tells_settings(event: Event, actor: ActorView) -> bool {
    event matches Event::SettingsChanged { model, reasoning_effort } && model@ == active(
        actor.config,
    ).name && reasoning_effort == match actor.config.reasoning_effort {
        Some(effort) if active(actor.config).reasoning_efforts.contains(effort) => Some(effort),
        _ => None,
    }
}

pub open spec fn tells_context(event: Event, actor: ActorView) -> bool {
    event == (Event::ContextChanged {
        tokens: actor.meta.context_tokens,
        max_tokens: active(actor.config).max_context_tokens,
    })
}

pub open spec fn tells_project(event: Event, project: ProjectView) -> bool {
    event matches Event::ProjectChanged(told) && told.deep_view() == project
}

pub open spec fn tells_plan(event: Event, plan: Option<PlanView>) -> bool {
    event matches Event::PlanChanged(told) && told.deep_view() == plan
}

pub open spec fn tells_error(event: Event, error: Seq<char>) -> bool {
    event matches Event::Error(told) && told@ == error
}

pub open spec fn tells_notice(event: Event, notice: Seq<char>) -> bool {
    event matches Event::Notice(told) && told@ == notice
}

// ---------------------------------------------------------------------------
// Steps
// ---------------------------------------------------------------------------

impl Actor {
    fn name_event(&self) -> (event: Event)
        ensures
            tells_name(event, self@.meta),
    {
        Event::SessionChanged(self.session.display_name().to_owned())
    }

    /// What the session used.
    pub fn usage_event(&self) -> (event: Event)
        ensures
            tells_usage(event, self@.meta),
    {
        Event::UsageChanged {
            total_tokens: self.session.meta.total_tokens,
            total_cost: self.session.total_cost(),
        }
    }

    /// The model and the effort in use.
    pub fn settings_event(&self) -> (event: Event)
        requires
            self.wf(),
        ensures
            tells_settings(event, self@),
    {
        Event::SettingsChanged {
            model: self.config.model_name().to_owned(),
            reasoning_effort: self.config.effective_reasoning_effort(),
        }
    }

    /// How much of the context is used.
    pub fn context_event(&self) -> (event: Event)
        requires
            self.wf(),
        ensures
            tells_context(event, self@),
    {
        Event::ContextChanged {
            tokens: self.session.meta.context_tokens,
            max_tokens: self.config.active_model().max_context_tokens,
        }
    }

    /// What is told when the session is opened: its history, its name, what it used,
    /// its settings, its context, the project and the plan, and that it is ready. A
    /// notice on its settings comes first.
    pub fn opening(&self, notice: Option<String>, project: &ProjectState) -> (events: Vec<Event>)
        requires
            self.wf(),
        ensures
            ({
                let skipped = if notice is Some {
                    1int
                } else {
                    0
                };
                &&& events@.len() == skipped + 8
                &&& notice matches Some(notice) ==> tells_notice(events@[0], notice@)
                &&& tells_history(events@[skipped], self@.messages)
                &&& tells_name(events@[skipped + 1], self@.meta)
                &&& tells_usage(events@[skipped + 2], self@.meta)
                &&& tells_settings(events@[skipped + 3], self@)
                &&& tells_context(events@[skipped + 4], self@)
                &&& tells_project(events@[skipped + 5], project.deep_view())
                &&& tells_plan(events@[skipped + 6], self@.meta.plan)
                &&& events@[skipped + 7] == Event::Ready
            }),
    {
        let mut events: Vec<Event> = Vec::new();
        match notice {
            Some(notice) => events.push(Event::Notice(notice)),
            None => {},
        }
        events.push(Event::History(clone_messages(&self.messages)));
        events.push(self.name_event());
        events.push(self.usage_event());
        events.push(self.settings_event());
        events.push(self.context_event());
        events.push(Event::ProjectChanged(project.clone()));
        events.push(Event::PlanChanged(self.session.meta.plan.clone()));
        events.push(Event::Ready);
        events
    }

    /// What is told when another session took the place of this one: its history, its
    /// name, what it used, its plan and its context.
    pub fn session_told(&self) -> (events: Vec<Event>)
        requires
            self.wf(),
        ensures
            events@.len() == 5,
            tells_history(events@[0], self@.messages),
            tells_name(events@[1], self@.meta),
            tells_usage(events@[2], self@.meta),
            tells_plan(events@[3], self@.meta.plan),
            tells_context(events@[4], self@),
    {
        vec![
            Event::History(clone_messages(&self.messages)),
            self.name_event(),
            self.usage_event(),
            Event::PlanChanged(self.session.meta.plan.clone()),
            self.context_event(),
        ]
    }

    /// What is told when settings were changed and saved.
    pub fn settings_told(&self) -> (events: Vec<Event>)
        requires
            self.wf(),
        ensures
            events@.len() == 3,
            events@[0] == Event::SettingsRevision(self@.revision),
            tells_settings(events@[1], self@),
            tells_context(events@[2], self@),
    {
        vec![
            Event::SettingsRevision(self.revision),
            self.settings_event(),
            self.context_event(),
        ]
    }

    /// What is told when the model told the tokens of a request.
    pub fn usage_told(&self, side_task: bool) -> (events: Vec<Event>)
        requires
            self.wf(),
        ensures
            events@.len() == if side_task {
                1int
            } else {
                2
            },
            tells_usage(events@[0], self@.meta),
            !side_task ==> tells_context(events@[1], self@),
    {
        let mut events: Vec<Event> = Vec::new();
        events.push(self.usage_event());
        if !side_task {
            events.push(self.context_event());
        }
        events
    }

    /// What is told when a turn is done, with what went wrong when the session was
    /// saved: another name and another size of the context where there is one, the end
    /// or the error, and that the project is to be looked at again.
    pub fn turn_told(&self, done: &Finished, unsaved: Option<&str>) -> (events: Vec<Event>)
        requires
            self.wf(),
        ensures
            ({
                let named = if done.renamed {
                    1int
                } else {
                    0
                };
                let measured = if done.measured {
                    1int
                } else {
                    0
                };
                &&& events@.len() == named + measured + 2
                &&& done.renamed ==> tells_name(events@[0], self@.meta)
                &&& done.measured ==> tells_context(events@[named], self@)
                &&& match unsaved {
                    Some(failure) => tells_error(
                        events@[named + measured],
                        "save session: "@ + failure@,
                    ),
                    None => events@[named + measured] == Event::GenerationFinished,
                }
                &&& events@[named + measured + 1] == Event::RefreshProject
            }),
    {
        let mut events: Vec<Event> = Vec::new();
        if done.renamed {
            events.push(self.name_event());
        }
        if done.measured {
            events.push(self.context_event());
        }
        match unsaved {
            Some(failure) => events.push(Event::Error(text::join_two("save session: ", failure))),
            None => events.push(Event::GenerationFinished),
        }
        events.push(Event::RefreshProject);
        events
    }

    /// What is told when the history was summarized: the summary, the context and the
    /// end, or what went wrong.
    pub fn compaction_told(&self, result: Result<String, String>) -> (events: Vec<Event>)
        requires
            self.wf(),
        ensures
            match result {
                Ok(summary) => {
                    &&& events@.len() == 3
                    &&& events@[0] matches Event::ContextCompacted { summary: told } && told@
                        == summary@
                    &&& tells_context(events@[1], self@)
                    &&& events@[2] == Event::GenerationFinished
                },
                Err(error) => events@.len() == 1 && tells_error(events@[0], error@),
            },
    {
        match result {
            Ok(summary) => vec![
                Event::ContextCompacted { summary },
                self.context_event(),
                Event::GenerationFinished,
            ],
            Err(error) => vec![Event::Error(error)],
        }
    }
}

/// What is told when a turn failed, with what went wrong when it was saved.
pub fn failure_told(error: String, unsaved: Option<&str>) -> (events: Vec<Event>)
    ensures
        ({
            let skipped = if unsaved is Some {
                1int
            } else {
                0
            };
            &&& events@.len() == skipped + 2
            &&& unsaved matches Some(failure) ==> tells_notice(
                events@[0],
                "save failed turn: "@ + failure@,
            )
            &&& tells_error(events@[skipped], error@)
            &&& events@[skipped + 1] == Event::RefreshProject
        }),
{
    let mut events: Vec<Event> = Vec::new();
    match unsaved {
        Some(failure) => events.push(Event::Notice(text::join_two("save failed turn: ", failure))),
        None => {},
    }
    events.push(Event::Error(error));
    events.push(Event::RefreshProject);
    events
}

/// What is told when a turn or a compaction was cancelled.
pub fn cancelled_told() -> (events: Vec<Event>)
    ensures
        events@ == seq![Event::GenerationCancelled, Event::RefreshProject],
{
    let events = vec![Event::GenerationCancelled, Event::RefreshProject];
    assert(events@ =~= seq![Event::GenerationCancelled, Event::RefreshProject]);
    events
}

// ---------------------------------------------------------------------------
// What could not be saved
// ---------------------------------------------------------------------------

/// The answer to a request whose outcome could not be saved.
pub open spec fn unsaved_error(what: Seq<char>, failure: Seq<char>) -> ErrorView {
    ErrorView { code: "persistence"@, message: what + ": "@ + failure }
}

/// The answer to a request whose outcome could not be saved.
pub fn unsaved(what: &str, failure: &str) -> (error: Error)
    ensures
        error.code@ == "persistence"@,
        error.message@ == what@ + ": "@ + failure@,
        error.deep_view() == unsaved_error(what@, failure@),
{
    let message = text::join_three(what, ": ", failure);
    Error::new("persistence", message.as_str())
}

/// What comes of a save: nothing to say where it went well.
pub fn save_result(what: &str, failure: Option<&str>) -> (result: Result<(), Error>)
    ensures
        match failure {
            Some(failure) => result matches Err(error) && error.deep_view() == unsaved_error(
                what@,
                failure@,
            ),
            None => result is Ok,
        },
{
    match failure {
        Some(failure) => Err(unsaved(what, failure)),
        None => Ok(()),
    }
}

/// What is left to tell of a session that is closed: that it could not be saved, else that
/// the turn which it stopped could not be.
pub fn closing_error(unsaved_session: Option<&str>, unsaved_turn: Option<&str>) -> (error: Option<
    Error,
>)
    ensures
        error.deep_view() == match (unsaved_session, unsaved_turn) {
            (Some(failure), _) => Some(unsaved_error("save session"@, failure@)),
            (None, Some(failure)) => Some(unsaved_error("save interrupted turn"@, failure@)),
            (None, None) => None,
        },
{
    match (unsaved_session, unsaved_turn) {
        (Some(failure), _) => Some(unsaved("save session", failure)),
        (None, Some(failure)) => Some(unsaved("save interrupted turn", failure)),
        (None, None) => None,
    }
}

/// An approval that was resolved.
#[derive(Debug, PartialEq)]
pub struct Resolved {
    /// What those who watch the session are told.
    pub event: Event,
    /// What the tool call that waits gets.
    pub decision: ApprovalDecision,
    /// What the one who decided gets, where it is an error.
    pub error: Option<Error>,
}

impl Actor {
    /// Resolves an approval, once the session was saved or could not be. What could not be
    /// kept is denied: the tool call that waits gets that decision, those who watch the
    /// session are told of it, and the one who decided gets the failure.
    pub fn resolve_approval(&mut self, approving: Approving, failure: Option<&str>) -> (resolved:
        Resolved)
        requires
            old(self).wf(),
        ensures
            final(self).wf(),
            resolved.event matches Event::ApprovalResolved { approval_id, tool, decision }
                && approval_id@ == approving.id@ && tool@ == approving.tool@ && decision
                == resolved.decision,
            ({
                let lost = approving.save && failure is Some;
                &&& resolved.decision == if lost {
                    ApprovalDecision::Deny
                } else {
                    approving.decision
                }
                &&& resolved.error.deep_view() == if lost {
                    Some(unsaved_error("save approval"@, failure->0@))
                } else {
                    None
                }
                &&& final(self)@ == if lost {
                    ActorView {
                        meta: MetaView {
                            approved_tools: others(
                                old(self)@.meta.approved_tools,
                                approving.tool@,
                            ),
                            ..old(self)@.meta
                        },
                        ..old(self)@
                    }
                } else {
                    old(self)@
                }
            }),
    {
        let decision = self.settle_approval(&approving, failure.is_none());
        let error = match failure {
            Some(failure) => if approving.save {
                Some(unsaved("save approval", failure))
            } else {
                None
            },
            None => None,
        };
        let event = Event::ApprovalResolved {
            approval_id: approving.id,
            tool: approving.tool,
            decision,
        };
        Resolved { event, decision, error }
    }
}

/// An approval for the session that could not be saved leaves no trace: the tools that
/// were approved before are approved, and no other.
pub proof fn unsaved_approval_law(approved: Seq<Seq<char>>, tool: Seq<char>)
    requires
        !approved.contains(tool),
    ensures
        others(approved.push(tool), tool) == approved,
        !others(approved.push(tool), tool).contains(tool),
{
    others_of_lacking(approved, tool);
    assert(approved.push(tool).drop_last() =~= approved);
    reveal(Seq::filter);
}

proof fn others_of_lacking(names: Seq<Seq<char>>, name: Seq<char>)
    requires
        !names.contains(name),
    ensures
        others(names, name) == names,
    decreases names.len(),
{
    reveal(Seq::filter);
    if names.len() > 0 {
        assert(names.last() != name) by {
            assert(names[names.len() - 1] != name);
        }
        let rest = names.drop_last();
        assert(!rest.contains(name)) by {
            if rest.contains(name) {
                let i = choose|i: int| 0 <= i < rest.len() && rest[i] == name;
                assert(names[i] == name);
            }
        }
        others_of_lacking(rest, name);
        assert(rest.push(names.last()) =~= names);
    } else {
        assert(others(names, name) =~= names);
    }
}

// ---------------------------------------------------------------------------
// The end
// ---------------------------------------------------------------------------

/// What is left to tell of a session that ended. A cost is the bit pattern of a double.
#[derive(Debug, PartialEq)]
pub struct SessionSummary {
    pub name: String,
    pub total_tokens: u64,
    pub total_cost: Option<u64>,
    pub error: Option<String>,
}

impl Actor {
    /// What is left to tell of the session, with what went wrong at its end.
    pub fn summary(&self, error: Option<String>) -> (summary: SessionSummary)
        ensures
            summary.name@ == self@.meta.name,
            summary.total_tokens == self@.meta.total_tokens,
            summary.total_cost == known_cost(self@.meta),
            summary.error == error,
    {
        SessionSummary {
            name: self.session.meta.name.clone(),
            total_tokens: self.session.meta.total_tokens,
            total_cost: self.session.total_cost(),
            error,
        }
    }
}

} // verus!
