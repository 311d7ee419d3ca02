//! A session at work: which commands it takes up, and what becomes of its turns.
use super::agent::{Compaction, CompactionView};
use super::budget::{capped, estimate_tokens, tokens_of};
use super::context::{
    clone_messages, context_of, is_ejected_web_result, is_marker, request_context,
};
use super::event::ApprovalDecision;
use super::message::{
    clone_images, ImageContent, ImageView, Message, MessageView,
};
use super::{ReasoningEffort, COMPACTION_MARKER};
use crate::config::{active, find_model, offers, others, without_name, Config, ConfigView};
use crate::protocol::{Accepted, AcceptedView, Action, Error, ErrorView};
use crate::session::{
    auto_named, with_usage, MetaView, Session, SessionSettings, SessionSettingsView,
};
use crate::text;
use crate::text::trim;
use crate::tool::ExecutionPlan;
use vstd::prelude::*;
use vstd::string::*;

verus! {

/// What the user sends.
#[derive(Debug, PartialEq)]
pub struct UserPrompt {
    pub content: String,
    pub images: Vec<ImageContent>,
}

pub struct PromptView {
    pub content: Seq<char>,
    pub images: Seq<ImageView>,
}

impl DeepView for UserPrompt {
    type V = PromptView;

    open spec fn deep_view(&self) -> PromptView {
        PromptView { content: self.content@, images: self.images.deep_view() }
    }
}

/// A prompt that begins a turn.
pub open spec fn user_message(prompt: PromptView) -> MessageView {
    MessageView::User { content: prompt.content, images: prompt.images }
}

/// A prompt that came during a turn.
pub open spec fn steer_message(prompt: PromptView) -> MessageView {
    MessageView::Steer { content: prompt.content, images: prompt.images }
}

impl UserPrompt {
    /// The prompt as a message that came during a turn.
    pub fn as_steer(&self) -> (message: Message)
        ensures
            message.deep_view() == steer_message(self.deep_view()),
    {
        Message::Steer { content: self.content.clone(), images: clone_images(&self.images) }
    }
}

/// A command that a session takes up.
#[derive(Debug, PartialEq)]
pub enum Command {
    Submit(UserPrompt),
    Cancel,
    Approve(ApprovalDecision),
    SelectModel(String),
    SetReasoning(Option<ReasoningEffort>),
    Compact,
    Shutdown,
}

/// A tool call that waits for the user.
#[derive(Debug, PartialEq)]
pub struct PendingApproval {
    pub id: String,
    pub tool: String,
}

pub struct PendingView {
    pub id: Seq<char>,
    pub tool: Seq<char>,
}

impl DeepView for PendingApproval {
    type V = PendingView;

    open spec fn deep_view(&self) -> PendingView {
        PendingView { id: self.id@, tool: self.tool@ }
    }
}

// ---------------------------------------------------------------------------
// Which commands are taken up
// ---------------------------------------------------------------------------

pub open spec fn refused(code: Seq<char>, message: Seq<char>) -> Option<ErrorView> {
    Some(ErrorView { code, message })
}

/// Why something that needs an idle session is refused.
pub open spec fn not_idle(operation: Option<Seq<char>>) -> Option<ErrorView> {
    if operation is Some {
        refused("busy"@, "an operation is running"@)
    } else {
        None
    }
}

/// Why something about another operation than the running one is refused.
pub open spec fn other_turn(operation: Option<Seq<char>>, turn_id: Seq<char>) -> Option<ErrorView> {
    if operation != Some(turn_id) {
        refused("stale_turn"@, "the operation is no longer active"@)
    } else {
        None
    }
}

/// Why something about settings that have changed since is refused.
pub open spec fn other_settings(expected: u64, revision: u64) -> Option<ErrorView> {
    if expected != revision {
        refused("stale_settings"@, "session settings changed; refresh and try again"@)
    } else {
        None
    }
}

/// The first refusal.
pub open spec fn first_refusal(a: Option<ErrorView>, b: Option<ErrorView>) -> Option<ErrorView> {
    match a {
        Some(error) => Some(error),
        None => b,
    }
}

/// Whether it depends on the model in use what becomes of an action.
pub open spec fn asks_model(action: Action, images: Seq<ImageView>) -> bool {
    match action {
        Action::SendMessage { .. } => images.len() > 0,
        Action::SetReasoning { effort, .. } => effort is Some,
        _ => false,
    }
}

/// Why an action is refused, where it is.
pub open spec fn refusal(
    action: Action,
    images: Seq<ImageView>,
    operation: Option<Seq<char>>,
    compacting: bool,
    approval: Option<PendingView>,
    revision: u64,
    config: ConfigView,
) -> Option<ErrorView> {
    match action {
        Action::SendMessage { content, .. } => if compacting {
            refused("busy"@, "manual compaction is running"@)
        } else if trim(content@).len() == 0 && images.len() == 0 {
            refused("empty"@, "message is empty"@)
        } else if images.len() > 0 && !active(config).vision {
            refused("unsupported"@, "the selected model does not support images"@)
        } else {
            None
        },
        Action::Cancel { turn_id } => other_turn(operation, turn_id@),
        Action::Approve { turn_id, approval_id, .. } => first_refusal(
            other_turn(operation, turn_id@),
            match approval {
                Some(pending) if pending.id == approval_id@ => None,
                _ => refused(
                    "stale_approval"@,
                    "the approval was already resolved or replaced"@,
                ),
            },
        ),
        Action::SetModel { revision: expected, .. } => first_refusal(
            not_idle(operation),
            other_settings(expected, revision),
        ),
        Action::SetReasoning { effort, revision: expected } => first_refusal(
            first_refusal(not_idle(operation), other_settings(expected, revision)),
            match effort {
                Some(effort) if !active(config).reasoning_efforts.contains(effort) => refused(
                    "invalid_settings"@,
                    "unsupported reasoning effort"@,
                ),
                _ => None,
            },
        ),
        Action::Compact => not_idle(operation),
    }
}

/// Whether a command is what an action asks for.
pub open spec fn is_command(action: Action, images: Seq<ImageView>, command: Command) -> bool {
    match action {
        Action::SendMessage { content, .. } => command matches Command::Submit(prompt)
            && prompt.deep_view() == (PromptView { content: content@, images }),
        Action::Cancel { .. } => command is Cancel,
        Action::Approve { decision, .. } => command == Command::Approve(decision),
        Action::SetModel { model, .. } => command matches Command::SelectModel(name) && name@
            == model@,
        Action::SetReasoning { effort, .. } => command == Command::SetReasoning(effort),
        Action::Compact => command is Compact,
    }
}

fn check_turn(operation: Option<&str>, turn_id: &str) -> (result: Result<(), Error>)
    ensures
        match result {
            Ok(_) => other_turn(operation.deep_view(), turn_id@) is None,
            Err(error) => other_turn(operation.deep_view(), turn_id@) == Some(error.deep_view()),
        },
{
    let same = match operation {
        Some(id) => text::same(id, turn_id),
        None => false,
    };
    if same {
        Ok(())
    } else {
        Err(Error::new("stale_turn", "the operation is no longer active"))
    }
}

fn check_change(operation: Option<&str>, expected: u64, revision: u64) -> (result: Result<(), Error>)
    ensures
        ({
            let fault = first_refusal(
                not_idle(operation.deep_view()),
                other_settings(expected, revision),
            );
            match result {
                Ok(_) => fault is None,
                Err(error) => fault == Some(error.deep_view()),
            }
        }),
{
    if operation.is_some() {
        Err(Error::new("busy", "an operation is running"))
    } else if expected != revision {
        Err(Error::new("stale_settings", "session settings changed; refresh and try again"))
    } else {
        Ok(())
    }
}

/// The command that an action asks for, or why it is refused. `operation` is the id of
/// what runs, be it a turn or a compaction.
pub fn validate(
    action: Action,
    images: Vec<ImageContent>,
    operation: Option<&str>,
    compacting: bool,
    approval: &Option<PendingApproval>,
    revision: u64,
    config: &Config,
) -> (result: Result<Command, Error>)
    requires
        asks_model(action, images.deep_view()) ==> config.models@.len() > 0,
    ensures
        ({
            let fault = refusal(
                action,
                images.deep_view(),
                operation.deep_view(),
                compacting,
                approval.deep_view(),
                revision,
                config.deep_view(),
            );
            match result {
                Ok(command) => fault is None && is_command(action, images.deep_view(), command),
                Err(error) => fault == Some(error.deep_view()),
            }
        }),
{
    match action {
        Action::SendMessage { content, .. } => {
            if compacting {
                return Err(Error::new("busy", "manual compaction is running"));
            }
            let said = text::trimmed(content.as_str());
            if said.as_str().is_empty() && images.len() == 0 {
                return Err(Error::new("empty", "message is empty"));
            }
            if images.len() > 0 && !config.active_model().vision {
                return Err(
                    Error::new("unsupported", "the selected model does not support images"),
                );
            }
            Ok(Command::Submit(UserPrompt { content, images }))
        },
        Action::Cancel { turn_id } => match check_turn(operation, turn_id.as_str()) {
            Ok(_) => Ok(Command::Cancel),
            Err(error) => Err(error),
        },
        Action::Approve { turn_id, approval_id, decision } => {
            match check_turn(operation, turn_id.as_str()) {
                Ok(_) => {},
                Err(error) => {
                    return Err(error);
                },
            }
            let current = match approval {
                Some(pending) => text::same(pending.id.as_str(), approval_id.as_str()),
                None => false,
            };
            if !current {
                return Err(
                    Error::new("stale_approval", "the approval was already resolved or replaced"),
                );
            }
            Ok(Command::Approve(decision))
        },
        Action::SetModel { model, revision: expected } => match check_change(
            operation,
            expected,
            revision,
        ) {
            Ok(_) => Ok(Command::SelectModel(model)),
            Err(error) => Err(error),
        },
        Action::SetReasoning { effort, revision: expected } => {
            match check_change(operation, expected, revision) {
                Ok(_) => {},
                Err(error) => {
                    return Err(error);
                },
            }
            match effort {
                Some(wanted) => if !offers(config.active_model(), wanted) {
                    return Err(Error::new("invalid_settings", "unsupported reasoning effort"));
                },
                None => {},
            }
            Ok(Command::SetReasoning(effort))
        },
        Action::Compact => if operation.is_some() {
            Err(Error::new("busy", "an operation is running"))
        } else {
            Ok(Command::Compact)
        },
    }
}

// ---------------------------------------------------------------------------
// The session
// ---------------------------------------------------------------------------

/// A session at work.
#[derive(Debug, PartialEq)]
pub struct Actor {
    pub config: Config,
    pub session: Session,
    pub messages: Vec<Message>,
    /// The id of the turn that runs.
    pub generation: Option<String>,
    /// The id of the compaction that runs.
    pub compacting: Option<String>,
    pub approval: Option<PendingApproval>,
    /// The prompts that came during the turn.
    pub prompts: Vec<UserPrompt>,
    /// The number of changes of the settings.
    pub revision: u64,
}

pub struct ActorView {
    pub config: ConfigView,
    pub root: Seq<char>,
    pub meta: MetaView,
    pub messages: Seq<MessageView>,
    pub generation: Option<Seq<char>>,
    pub compacting: Option<Seq<char>>,
    pub approval: Option<PendingView>,
    pub prompts: Seq<PromptView>,
    pub revision: u64,
}

impl View for Actor {
    type V = ActorView;

    open spec fn view(&self) -> ActorView {
        ActorView {
            config: self.config.deep_view(),
            root: self.session.root@,
            meta: self.session.meta.deep_view(),
            messages: self.messages.deep_view(),
            generation: self.generation.deep_view(),
            compacting: self.compacting.deep_view(),
            approval: self.approval.deep_view(),
            prompts: self.prompts.deep_view(),
            revision: self.revision,
        }
    }
}

impl ActorView {
    /// The invariant: there is a model, one operation runs at most, a turn has the
    /// message that began it, and only a turn waits for an approval.
    pub open spec fn wf(self) -> bool {
        &&& self.config.models.len() > 0
        &&& !(self.generation is Some && self.compacting is Some)
        &&& self.generation is Some ==> self.messages.len() > 0
        &&& self.approval is Some ==> self.generation is Some
    }

    /// The id of what runs.
    pub open spec fn operation(self) -> Option<Seq<char>> {
        match self.generation {
            Some(id) => Some(id),
            None => self.compacting,
        }
    }
}

/// What a prompt leads to.
#[derive(Debug, PartialEq)]
pub enum Submitted {
    /// The prompt is refused.
    Busy(Error),
    /// The prompt waits until the turn takes it up; this is how it is shown.
    Queued(Message),
    /// The prompt begins a turn with this message.
    Start(Message),
}

/// A turn that begins.
#[derive(Debug, PartialEq)]
pub struct TurnStart {
    /// The conversation as the request carries it.
    pub messages: Vec<Message>,
    /// The index of the message that begins the turn, in the whole conversation.
    pub visible_through: usize,
    pub context_tokens: u64,
    pub generate_title: bool,
    pub plan: Option<ExecutionPlan>,
}

/// An approval that is being resolved.
#[derive(Debug, PartialEq)]
pub struct Approving {
    pub id: String,
    pub tool: String,
    pub decision: ApprovalDecision,
    /// The session has to be saved first.
    pub save: bool,
}

/// What changes of the settings.
#[derive(Debug, PartialEq)]
pub enum Change {
    Model(String),
    Reasoning(Option<ReasoningEffort>),
}

/// The settings before a change, until it is saved.
#[derive(Debug, PartialEq)]
pub struct Undo {
    pub config: Config,
    pub settings: Option<SessionSettings>,
}

/// The settings behind a change.
pub open spec fn changed(config: ConfigView, change: Change) -> ConfigView {
    match change {
        Change::Model(model) => {
            let chosen = ConfigView {
                model: config.models[find_model(config.models, model@, 0)].name,
                ..config
            };
            ConfigView { reasoning_effort: active(chosen).reasoning_effort, ..chosen }
        },
        Change::Reasoning(effort) => ConfigView { reasoning_effort: effort, ..config },
    }
}

/// The settings as a session keeps them.
pub open spec fn kept_settings(config: ConfigView) -> SessionSettingsView {
    let model = active(config);
    SessionSettingsView {
        model: model.name,
        reasoning_effort: match config.reasoning_effort {
            Some(effort) if model.reasoning_efforts.contains(effort) => Some(effort),
            _ => None,
        },
    }
}

/// The message that stands for the history before it.
pub open spec fn compaction_message(summary: Seq<char>) -> MessageView {
    MessageView::System { content: COMPACTION_MARKER@ + "\n"@ + summary }
}

/// The message that stands for the history before it.
pub fn compaction_marker(summary: &str) -> (message: Message)
    ensures
        message.deep_view() == compaction_message(summary@),
{
    Message::system(text::join_three(COMPACTION_MARKER, "\n", summary))
}

/// The prompts as messages that came during a turn.
pub open spec fn steers(prompts: Seq<PromptView>) -> Seq<MessageView> {
    prompts.map_values(|p: PromptView| steer_message(p))
}

/// A session whose turn ended early: what it made so far, the prompts that came
/// meanwhile and a note on the end are part of the conversation.
pub open spec fn interrupted(
    actor: ActorView,
    progress: Seq<MessageView>,
    note: Seq<char>,
) -> ActorView {
    ActorView {
        messages: actor.messages + progress + steers(actor.prompts) + seq![
            MessageView::System { content: note },
        ],
        generation: None,
        approval: None,
        prompts: Seq::empty(),
        ..actor
    }
}

/// What a turn made.
#[derive(Debug, PartialEq)]
pub struct TurnResult {
    /// The messages of the turn, from the one that began it.
    pub completed: Vec<Message>,
    pub compaction: Option<Compaction>,
    pub title: Option<String>,
}

pub struct TurnResultView {
    pub completed: Seq<MessageView>,
    pub compaction: Option<CompactionView>,
    pub title: Option<Seq<char>>,
}

impl DeepView for TurnResult {
    type V = TurnResultView;

    open spec fn deep_view(&self) -> TurnResultView {
        TurnResultView {
            completed: self.completed.deep_view(),
            compaction: self.compaction.deep_view(),
            title: self.title.deep_view(),
        }
    }
}

/// The messages that a turn adds to what is kept.
pub open spec fn turn_messages(result: TurnResultView) -> Seq<MessageView> {
    match result.compaction {
        Some(compaction) => seq![compaction_message(compaction.summary)] + result.completed,
        None => result.completed,
    }
}

/// Whether a conversation holds pages that were used.
pub open spec fn has_marker(messages: Seq<MessageView>) -> bool {
    exists|i: int| 0 <= i < messages.len() && is_marker(#[trigger] messages[i])
}

/// What is kept of a session whose turn is done, before the context is measured.
pub open spec fn meta_after_turn(meta: MetaView, result: TurnResultView) -> MetaView {
    let titled = match result.title {
        Some(title) => MetaView { title: Some(title), ..meta },
        None => meta,
    };
    match result.compaction {
        Some(compaction) => MetaView {
            compaction_summary: Some(compaction.summary),
            compacted_through: compaction.through,
            ..titled
        },
        None => titled,
    }
}

/// A session whose turn is done. The message that began the turn is in its result.
pub open spec fn finished(actor: ActorView, result: TurnResultView) -> ActorView {
    let messages = actor.messages.drop_last() + turn_messages(result);
    let meta = meta_after_turn(actor.meta, result);
    let context = context_of(messages, meta);
    ActorView {
        messages,
        meta: if has_marker(context) {
            MetaView { context_tokens: capped(tokens_of(context)), ..meta }
        } else {
            meta
        },
        generation: None,
        approval: None,
        ..actor
    }
}

/// What is to be done when a turn is done.
#[derive(Debug, PartialEq)]
pub struct Finished {
    /// The messages to add to the file of the session.
    pub persisted: Vec<Message>,
    /// The session has another name to show.
    pub renamed: bool,
    /// The context has another size.
    pub measured: bool,
}

/// What becomes of a request to run a tool.
#[derive(Debug, PartialEq)]
pub enum ApprovalAnswer {
    Reply(ApprovalDecision),
    /// The user is asked, under this id.
    Ask(String),
}

/// Whether a tool was approved for the session.
pub open spec fn is_approved(meta: MetaView, tool: Seq<char>) -> bool {
    meta.approved_tools.contains(tool)
}

/// The form of a random id: small hexadecimal digits in five groups with hyphens between,
/// and the version in its place.
pub open spec fn is_uuid(id: Seq<char>) -> bool {
    &&& id.len() == 36
    &&& id[14] == '4'
    &&& forall|i: int|
        0 <= i < 36 ==> if i == 8 || i == 13 || i == 18 || i == 23 {
            #[trigger] id[i] == '-'
        } else {
            '0' <= id[i] <= '9' || 'a' <= id[i] <= 'f'
        }
}

/// `uuid::Uuid::new_v4`, as a text: it has the form of such an id. Which one it is, is left
/// to chance.
#[verifier::external_body]
pub(crate) fn fresh_id() -> (id: String)
    ensures
        is_uuid(id@),
{
    uuid::Uuid::new_v4().to_string()
}

impl Actor {
    pub open spec fn wf(&self) -> bool {
        self@.wf()
    }

    /// A session that is at rest.
    pub fn new(config: Config, session: Session, messages: Vec<Message>) -> (actor: Actor)
        requires
            config.models@.len() > 0,
        ensures
            actor.wf(),
            actor@ == (ActorView {
                config: config.deep_view(),
                root: session.root@,
                meta: session.meta.deep_view(),
                messages: messages.deep_view(),
                generation: None,
                compacting: None,
                approval: None,
                prompts: Seq::empty(),
                revision: 0,
            }),
    {
        let prompts: Vec<UserPrompt> = Vec::new();
        assert(prompts.deep_view() =~= Seq::empty());
        Actor {
            config,
            session,
            messages,
            generation: None,
            compacting: None,
            approval: None,
            prompts,
            revision: 0,
        }
    }

    /// Takes over the settings that the session keeps. There is a notice where its
    /// model is not there any more.
    pub fn restore_settings(&mut self) -> (notice: Option<String>)
        requires
            old(self).wf(),
        ensures
            final(self).wf(),
            match old(self)@.meta.settings {
                None => notice is None && final(self)@ == old(self)@,
                Some(settings) => {
                    let config = old(self)@.config;
                    let i = find_model(config.models, settings.model, 0);
                    if i < config.models.len() {
                        &&& notice is None
                        &&& final(self)@ == (ActorView {
                            config: ConfigView {
                                model: config.models[i].name,
                                reasoning_effort: settings.reasoning_effort,
                                ..config
                            },
                            ..old(self)@
                        })
                    } else {
                        &&& notice.deep_view() == Some(
                            "saved model '"@ + settings.model + "' is unavailable; using '"@
                                + active(config).name + "'"@,
                        )
                        &&& final(self)@ == old(self)@
                    }
                },
            },
    {
        let settings = match &self.session.meta.settings {
            Some(settings) => settings.clone(),
            None => {
                return None;
            },
        };
        match self.config.select_model(settings.model.as_str()) {
            Ok(_) => {
                self.config.reasoning_effort = settings.reasoning_effort;
                None
            },
            Err(_) => {
                let mut notice = text::join_three(
                    "saved model '",
                    settings.model.as_str(),
                    "' is unavailable; using '",
                );
                notice.append(self.config.model_name());
                notice.append("'");
                Some(notice)
            },
        }
    }

    /// Another session takes the place of this one, which is at rest. It has no messages
    /// yet.
    pub fn new_session(&mut self, session: Session)
        requires
            old(self).wf(),
            old(self)@.operation() is None,
        ensures
            final(self).wf(),
            final(self)@ == (ActorView {
                root: session.root@,
                meta: session.meta.deep_view(),
                messages: Seq::empty(),
                ..old(self)@
            }),
    {
        self.session = session;
        self.messages = Vec::new();
        assert(self.messages.deep_view() =~= Seq::empty());
    }

    /// A prompt came.
    pub fn submit(&mut self, prompt: UserPrompt) -> (result: Submitted)
        requires
            old(self).wf(),
        ensures
            final(self).wf(),
            match result {
                Submitted::Busy(error) => {
                    &&& old(self)@.compacting is Some
                    &&& error.deep_view() == (ErrorView {
                        code: "busy"@,
                        message: "manual compaction is running"@,
                    })
                    &&& final(self)@ == old(self)@
                },
                Submitted::Queued(message) => {
                    &&& old(self)@.generation is Some
                    &&& message.deep_view() == steer_message(prompt.deep_view())
                    &&& final(self)@ == (ActorView {
                        prompts: old(self)@.prompts.push(prompt.deep_view()),
                        ..old(self)@
                    })
                },
                Submitted::Start(message) => {
                    &&& old(self)@.operation() is None
                    &&& message.deep_view() == user_message(prompt.deep_view())
                    &&& final(self)@ == old(self)@
                },
            },
    {
        if self.compacting.is_some() {
            Submitted::Busy(Error::new("busy", "manual compaction is running"))
        } else if self.generation.is_some() {
            let message = prompt.as_steer();
            let ghost before = self.prompts.deep_view();
            let ghost view = prompt.deep_view();
            self.prompts.push(prompt);
            assert(self.prompts.deep_view() =~= before.push(view));
            Submitted::Queued(message)
        } else {
            Submitted::Start(Message::user_with_images(prompt.content, prompt.images))
        }
    }

    /// A turn begins with the message `first`.
    pub fn begin_turn(&mut self, id: String, first: Message) -> (start: TurnStart)
        requires
            old(self).wf(),
            old(self)@.operation() is None,
        ensures
            final(self).wf(),
            final(self)@ == (ActorView {
                messages: old(self)@.messages.push(first.deep_view()),
                generation: Some(id@),
                ..old(self)@
            }),
            start.messages.deep_view() == context_of(final(self)@.messages, old(self)@.meta),
            start.visible_through == old(self)@.messages.len(),
            start.context_tokens == old(self)@.meta.context_tokens,
            start.generate_title == (old(self)@.meta.title is None && auto_named(
                old(self)@.meta.name,
            )),
            start.plan.deep_view() == old(self)@.meta.plan,
    {
        let visible_through: usize = self.messages.len();
        let ghost before = self.messages.deep_view();
        let ghost view = first.deep_view();
        self.messages.push(first);
        assert(self.messages.deep_view() =~= before.push(view));
        self.generation = Some(id);
        TurnStart {
            messages: request_context(&self.messages, &self.session.meta),
            visible_through,
            context_tokens: self.session.meta.context_tokens,
            generate_title: self.session.needs_title(),
            plan: self.session.meta.plan.clone(),
        }
    }

    /// The prompts that wait are given to the turn that runs, before its next request.
    pub fn deliver_steers(&mut self) -> (messages: Vec<Message>)
        requires
            old(self).wf(),
        ensures
            final(self).wf(),
            messages.deep_view() == steers(old(self)@.prompts),
            final(self)@ == (ActorView { prompts: Seq::empty(), ..old(self)@ }),
    {
        let ghost before = self.prompts.deep_view();
        let mut messages: Vec<Message> = Vec::new();
        let mut i: usize = 0;
        while i < self.prompts.len()
            invariant
                before == self.prompts.deep_view(),
                i <= self.prompts@.len(),
                messages@.len() == i,
                forall|k: int|
                    0 <= k < i ==> (#[trigger] messages@[k]).deep_view() == steer_message(before[k]),
            decreases self.prompts@.len() - i,
        {
            assert(before[i as int] == self.prompts@[i as int].deep_view());
            messages.push(self.prompts[i].as_steer());
            i += 1;
        }
        assert(messages.deep_view() =~= steers(before));
        self.prompts = Vec::new();
        assert(self.prompts.deep_view() =~= Seq::empty());
        messages
    }

    /// The turn is stopped, with what it made so far. The messages to add to the file
    /// of the session are given back.
    pub fn interrupt(&mut self, progress: Vec<Message>, note: &str) -> (persisted: Vec<Message>)
        requires
            old(self).wf(),
            old(self)@.generation is Some,
        ensures
            final(self).wf(),
            final(self)@ == interrupted(old(self)@, progress.deep_view(), note@),
            persisted.deep_view() == final(self)@.messages.skip(old(self)@.messages.len() - 1),
    {
        let ghost before = self@;
        let ghost made = progress.deep_view();
        let from: usize = self.messages.len() - 1;
        let mut progress = progress;
        self.messages.append(&mut progress);
        assert(self.messages.deep_view() =~= before.messages + made);
        let ghost so_far = before.messages + made;
        let ghost wanted = steers(before.prompts);
        let mut i: usize = 0;
        assert(so_far + wanted.take(0) =~= so_far);
        while i < self.prompts.len()
            invariant
                before.prompts == self.prompts.deep_view(),
                wanted == steers(before.prompts),
                i <= self.prompts@.len(),
                self.messages.deep_view() == so_far + wanted.take(i as int),
                self@ == (ActorView { messages: self.messages.deep_view(), ..before }),
            decreases self.prompts@.len() - i,
        {
            let ghost now = self.messages.deep_view();
            let message = self.prompts[i].as_steer();
            let ghost view = message.deep_view();
            assert(before.prompts[i as int] == self.prompts@[i as int].deep_view());
            self.messages.push(message);
            proof {
                assert(self.messages.deep_view() =~= now.push(view));
                assert(so_far + wanted.take(i + 1) =~= (so_far + wanted.take(i as int)).push(
                    view,
                ));
            }
            i += 1;
        }
        assert(wanted.take(i as int) =~= wanted);
        let ghost now = self.messages.deep_view();
        self.messages.push(Message::system(note.to_owned()));
        assert(self.messages.deep_view() =~= now + seq![MessageView::System { content: note@ }]);
        self.generation = None;
        self.approval = None;
        self.prompts = Vec::new();
        assert(self.prompts.deep_view() =~= Seq::empty());
        tail(&self.messages, from)
    }

    /// The compaction is stopped or done: whether one ran.
    pub fn end_compaction(&mut self) -> (ran: bool)
        requires
            old(self).wf(),
        ensures
            final(self).wf(),
            ran == (old(self)@.compacting is Some),
            final(self)@ == (ActorView { compacting: None, ..old(self)@ }),
    {
        let ran = self.compacting.is_some();
        self.compacting = None;
        ran
    }

    /// The user answered: what is to be resolved, where anything waits.
    pub fn take_approval(&mut self, decision: ApprovalDecision) -> (result: Option<Approving>)
        requires
            old(self).wf(),
        ensures
            final(self).wf(),
            match old(self)@.approval {
                Some(pending) => {
                    let new_tool = decision == ApprovalDecision::AllowSession && !is_approved(
                        old(self)@.meta,
                        pending.tool,
                    );
                    &&& result matches Some(approving) && approving.id@ == pending.id
                        && approving.tool@ == pending.tool && approving.decision == decision
                        && approving.save == new_tool
                    &&& final(self)@ == (ActorView {
                        approval: None,
                        meta: if new_tool {
                            MetaView {
                                approved_tools: old(self)@.meta.approved_tools.push(pending.tool),
                                ..old(self)@.meta
                            }
                        } else {
                            old(self)@.meta
                        },
                        ..old(self)@
                    })
                },
                None => result is None && final(self)@ == old(self)@,
            },
    {
        let ghost before = self@;
        let pending = match self.approval.take() {
            Some(pending) => pending,
            None => {
                return None;
            },
        };
        let mut save = false;
        if decision == ApprovalDecision::AllowSession && !text::holds(
            &self.session.meta.approved_tools,
            pending.tool.as_str(),
        ) {
            let ghost tools = self.session.meta.approved_tools.deep_view();
            self.session.meta.approved_tools.push(pending.tool.clone());
            assert(self.session.meta.approved_tools.deep_view() =~= tools.push(pending.tool@));
            save = true;
        }
        Some(Approving { id: pending.id, tool: pending.tool, decision, save })
    }

    /// The decision that holds, once the session was saved or could not be: what could
    /// not be kept is denied.
    pub fn settle_approval(&mut self, approving: &Approving, saved: bool) -> (decision: ApprovalDecision)
        requires
            old(self).wf(),
        ensures
            final(self).wf(),
            approving.save && !saved ==> decision == ApprovalDecision::Deny && final(self)@ == (
            ActorView {
                meta: MetaView {
                    approved_tools: others(
                        old(self)@.meta.approved_tools,
                        approving.tool@,
                    ),
                    ..old(self)@.meta
                },
                ..old(self)@
            }),
            !(approving.save && !saved) ==> decision == approving.decision && final(self)@ == old(
                self,
            )@,
    {
        if approving.save && !saved {
            let kept = without_name(
                &self.session.meta.approved_tools,
                approving.tool.as_str(),
            );
            self.session.meta.approved_tools = kept;
            ApprovalDecision::Deny
        } else {
            approving.decision
        }
    }

    /// Changes the settings, and what the session keeps of them. What was before is
    /// given back until the session is saved.
    pub fn change_settings(&mut self, change: Change) -> (result: Result<Undo, Error>)
        requires
            old(self).wf(),
        ensures
            final(self).wf(),
            match result {
                Ok(undo) => {
                    &&& old(self)@.operation() is None
                    &&& change matches Change::Model(model) ==> find_model(
                        old(self)@.config.models,
                        model@,
                        0,
                    ) < old(self)@.config.models.len()
                    &&& undo.config.deep_view() == old(self)@.config
                    &&& undo.settings.deep_view() == old(self)@.meta.settings
                    &&& final(self)@ == (ActorView {
                        config: changed(old(self)@.config, change),
                        meta: MetaView {
                            settings: Some(kept_settings(changed(old(self)@.config, change))),
                            ..old(self)@.meta
                        },
                        ..old(self)@
                    })
                },
                Err(error) => {
                    &&& final(self)@ == old(self)@
                    &&& if old(self)@.operation() is Some {
                        error.deep_view() == (ErrorView {
                            code: "busy"@,
                            message: "finish or cancel the active operation before changing settings"@,
                        })
                    } else {
                        change matches Change::Model(model) && find_model(
                            old(self)@.config.models,
                            model@,
                            0,
                        ) == old(self)@.config.models.len() && error.deep_view() == (ErrorView {
                            code: "invalid_settings"@,
                            message: "unknown model: "@ + model@,
                        })
                    }
                },
            },
    {
        if self.generation.is_some() || self.compacting.is_some() {
            return Err(
                Error::new(
                    "busy",
                    "finish or cancel the active operation before changing settings",
                ),
            );
        }
        let undo = Undo {
            config: self.config.clone(),
            settings: self.session.meta.settings.clone(),
        };
        match change {
            Change::Model(model) => match self.config.select_model(model.as_str()) {
                Ok(_) => {
                    let effort = self.config.active_model().reasoning_effort;
                    self.config.reasoning_effort = effort;
                },
                Err(error) => {
                    return Err(Error::new("invalid_settings", error.as_str()));
                },
            },
            Change::Reasoning(effort) => {
                self.config.reasoning_effort = effort;
            },
        }
        self.session.meta.settings = Some(
            SessionSettings {
                model: self.config.model_name().to_owned(),
                reasoning_effort: self.config.effective_reasoning_effort(),
            },
        );
        Ok(undo)
    }

    /// The change holds once the session was saved; what could not be saved is undone.
    pub fn settle_settings(&mut self, undo: Undo, saved: bool) -> (kept: bool)
        requires
            old(self).wf(),
            undo.config.models@.len() > 0,
            old(self)@.revision < u64::MAX,
        ensures
            final(self).wf(),
            kept == saved,
            final(self)@ == if saved {
                ActorView { revision: (old(self)@.revision + 1) as u64, ..old(self)@ }
            } else {
                ActorView {
                    config: undo.config.deep_view(),
                    meta: MetaView {
                        settings: undo.settings.deep_view(),
                        ..old(self)@.meta
                    },
                    ..old(self)@
                }
            },
    {
        if saved {
            self.revision = self.revision + 1;
        } else {
            self.config = undo.config;
            self.session.meta.settings = undo.settings;
        }
        saved
    }

    /// A compaction begins under the id `id`: the conversation to summarize.
    pub fn compact(&mut self, id: String) -> (result: Result<Vec<Message>, Error>)
        requires
            old(self).wf(),
        ensures
            final(self).wf(),
            ({
                let context = context_of(old(self)@.messages, old(self)@.meta);
                match result {
                    Ok(messages) => {
                        &&& old(self)@.operation() is None
                        &&& context.len() > 1
                        &&& messages.deep_view() == context
                        &&& final(self)@ == (ActorView { compacting: Some(id@), ..old(self)@ })
                    },
                    Err(error) => {
                        &&& final(self)@ == old(self)@
                        &&& error.deep_view() == if old(self)@.operation() is Some {
                            ErrorView { code: "busy"@, message: "an operation is running"@ }
                        } else {
                            ErrorView { code: "empty"@, message: "nothing to compact yet"@ }
                        }
                        &&& old(self)@.operation() is None ==> context.len() <= 1
                    },
                }
            }),
    {
        if self.generation.is_some() || self.compacting.is_some() {
            return Err(Error::new("busy", "an operation is running"));
        }
        let context = request_context(&self.messages, &self.session.meta);
        let ghost view = context.deep_view();
        assert(context@.len() == view.len());
        if context.len() <= 1 {
            return Err(Error::new("empty", "nothing to compact yet"));
        }
        self.compacting = Some(id);
        Ok(context)
    }

    /// A compaction begins under an id of its own: the id, and the conversation to
    /// summarize.
    pub fn start_compaction(&mut self) -> (result: Result<(String, Vec<Message>), Error>)
        requires
            old(self).wf(),
        ensures
            final(self).wf(),
            ({
                let context = context_of(old(self)@.messages, old(self)@.meta);
                match result {
                    Ok(started) => {
                        &&& old(self)@.operation() is None
                        &&& context.len() > 1
                        &&& started.1.deep_view() == context
                        &&& is_uuid(started.0@)
                        &&& final(self)@ == (ActorView {
                            compacting: Some(started.0@),
                            ..old(self)@
                        })
                    },
                    Err(error) => {
                        &&& final(self)@ == old(self)@
                        &&& error.deep_view() == if old(self)@.operation() is Some {
                            ErrorView { code: "busy"@, message: "an operation is running"@ }
                        } else {
                            ErrorView { code: "empty"@, message: "nothing to compact yet"@ }
                        }
                        &&& old(self)@.operation() is None ==> context.len() <= 1
                    },
                }
            }),
    {
        let id = fresh_id();
        match self.compact(id.clone()) {
            Ok(context) => Ok((id, context)),
            Err(error) => Err(error),
        }
    }

    /// The summary of the conversation was written to the file of the session.
    pub fn note_summary(&mut self, summary: String)
        requires
            old(self).wf(),
        ensures
            final(self).wf(),
            ({
                let messages = old(self)@.messages.push(compaction_message(summary@));
                let meta = MetaView {
                    compaction_summary: Some(summary@),
                    compacted_through: old(self)@.messages.len() as usize,
                    ..old(self)@.meta
                };
                final(self)@ == (ActorView {
                    messages,
                    meta: MetaView {
                        context_tokens: capped(tokens_of(context_of(messages, meta))),
                        ..meta
                    },
                    ..old(self)@
                })
            }),
    {
        let ghost before = self@;
        let marker = compaction_marker(summary.as_str());
        let ghost view = marker.deep_view();
        self.session.meta.compacted_through = self.messages.len();
        self.session.meta.compaction_summary = Some(summary);
        self.messages.push(marker);
        assert(self.messages.deep_view() =~= before.messages.push(view));
        let context = request_context(&self.messages, &self.session.meta);
        let tokens: u64 = estimate_tokens(&context);
        self.session.meta.context_tokens = tokens;
    }

    /// The turn is done.
    pub fn finish_turn(&mut self, result: TurnResult) -> (done: Finished)
        requires
            old(self).wf(),
            old(self)@.generation is Some,
        ensures
            final(self).wf(),
            final(self)@ == finished(old(self)@, result.deep_view()),
            done.persisted.deep_view() == turn_messages(result.deep_view()),
            done.renamed == (result.title is Some),
            done.measured == has_marker(
                context_of(
                    final(self)@.messages,
                    meta_after_turn(old(self)@.meta, result.deep_view()),
                ),
            ),
    {
        let ghost before = self@;
        let ghost made = result.deep_view();
        self.generation = None;
        self.approval = None;
        let first = self.messages.pop();
        assert(self.messages.deep_view() =~= before.messages.drop_last());
        let renamed = result.title.is_some();
        match result.title {
            Some(title) => self.session.set_title(title),
            None => {},
        }
        let mut persisted: Vec<Message> = Vec::new();
        match result.compaction {
            Some(compaction) => {
                persisted.push(compaction_marker(compaction.summary.as_str()));
                self.session.meta.compaction_summary = Some(compaction.summary);
                self.session.meta.compacted_through = compaction.through;
            },
            None => {},
        }
        let mut completed = result.completed;
        persisted.append(&mut completed);
        assert(persisted.deep_view() =~= turn_messages(made));
        let mut copy = clone_messages(&persisted);
        let ghost kept = self.messages.deep_view();
        self.messages.append(&mut copy);
        assert(self.messages.deep_view() =~= kept + turn_messages(made));
        let context = request_context(&self.messages, &self.session.meta);
        let ghost seen = context.deep_view();
        let mut measured = false;
        let mut i: usize = 0;
        while i < context.len() && !measured
            invariant
                seen == context.deep_view(),
                i <= context@.len(),
                measured ==> has_marker(seen),
                !measured ==> forall|k: int| 0 <= k < i ==> !is_marker(#[trigger] seen[k]),
            decreases context@.len() - i,
        {
            assert(seen[i as int] == context@[i as int].deep_view());
            if is_ejected_web_result(&context[i]) {
                measured = true;
            }
            i += 1;
        }
        if measured {
            let tokens: u64 = estimate_tokens(&context);
            self.session.meta.context_tokens = tokens;
        }
        Finished { persisted, renamed, measured }
    }

    /// The next prompt that waits begins a turn; the others go on waiting.
    pub fn next_turn(&mut self, id: String) -> (start: Option<TurnStart>)
        requires
            old(self).wf(),
            old(self)@.operation() is None,
        ensures
            final(self).wf(),
            match start {
                Some(start) => {
                    &&& old(self)@.prompts.len() > 0
                    &&& final(self)@ == (ActorView {
                        messages: old(self)@.messages.push(steer_message(old(self)@.prompts[0])),
                        generation: Some(id@),
                        prompts: old(self)@.prompts.skip(1),
                        ..old(self)@
                    })
                    &&& start.messages.deep_view() == context_of(
                        final(self)@.messages,
                        old(self)@.meta,
                    )
                    &&& start.visible_through == old(self)@.messages.len()
                    &&& start.context_tokens == old(self)@.meta.context_tokens
                    &&& start.generate_title == (old(self)@.meta.title is None && auto_named(
                        old(self)@.meta.name,
                    ))
                    &&& start.plan.deep_view() == old(self)@.meta.plan
                },
                None => old(self)@.prompts.len() == 0 && final(self)@ == old(self)@,
            },
    {
        if self.prompts.len() == 0 {
            return None;
        }
        let ghost before = self.prompts.deep_view();
        let first = self.prompts.remove(0);
        proof {
            assert(before[0] == first.deep_view());
            assert(self.prompts.deep_view() =~= before.skip(1));
        }
        let message = first.as_steer();
        Some(self.begin_turn(id, message))
    }

    /// The model told the tokens of a request. `charged` is the cost of the session with
    /// it, where the model has a price. What a side task used says nothing of the
    /// context of the conversation, nor does a compaction.
    pub fn record(&mut self, total_tokens: u64, charged: Option<u64>, side_task: bool)
        requires
            old(self).wf(),
            old(self)@.meta.total_tokens + total_tokens <= u64::MAX,
        ensures
            final(self).wf(),
            ({
                let meta = with_usage(old(self)@.meta, total_tokens, charged);
                final(self)@ == (ActorView {
                    meta: if side_task || old(self)@.compacting is Some {
                        meta
                    } else {
                        MetaView { context_tokens: total_tokens, ..meta }
                    },
                    ..old(self)@
                })
            }),
    {
        self.session.record_usage(total_tokens, charged);
        if !side_task && self.compacting.is_none() {
            self.session.meta.context_tokens = total_tokens;
        }
    }

    /// A plan was stored: whether it is taken over, which only a running turn can ask.
    pub fn store_plan(&mut self, plan: ExecutionPlan) -> (taken: bool)
        requires
            old(self).wf(),
        ensures
            final(self).wf(),
            taken == (old(self)@.generation is Some),
            final(self)@ == if taken {
                ActorView {
                    meta: MetaView { plan: Some(plan.deep_view()), ..old(self)@.meta },
                    ..old(self)@
                }
            } else {
                old(self)@
            },
    {
        if self.generation.is_some() {
            self.session.meta.plan = Some(plan);
            true
        } else {
            false
        }
    }

    /// A tool wants to run: what was approved for the session runs, and nothing runs
    /// outside a turn or while another tool waits.
    pub fn ask(&mut self, tool: &str) -> (answer: ApprovalAnswer)
        requires
            old(self).wf(),
        ensures
            final(self).wf(),
            match answer {
                ApprovalAnswer::Reply(decision) => {
                    &&& final(self)@ == old(self)@
                    &&& if old(self)@.generation is None || old(self)@.approval is Some {
                        decision == ApprovalDecision::Deny
                    } else {
                        is_approved(old(self)@.meta, tool@) && decision
                            == ApprovalDecision::AllowSession
                    }
                },
                ApprovalAnswer::Ask(id) => {
                    &&& old(self)@.generation is Some
                    &&& old(self)@.approval is None
                    &&& !is_approved(old(self)@.meta, tool@)
                    &&& is_uuid(id@)
                    &&& final(self)@ == (ActorView {
                        approval: Some(PendingView { id: id@, tool: tool@ }),
                        ..old(self)@
                    })
                },
            },
    {
        if self.generation.is_none() || self.approval.is_some() {
            ApprovalAnswer::Reply(ApprovalDecision::Deny)
        } else if text::holds(&self.session.meta.approved_tools, tool) {
            ApprovalAnswer::Reply(ApprovalDecision::AllowSession)
        } else {
            let id = fresh_id();
            self.approval = Some(PendingApproval { id: id.clone(), tool: tool.to_owned() });
            ApprovalAnswer::Ask(id)
        }
    }

    /// Whether something that belongs to the operation `id` is still of interest.
    pub fn is_current(&self, id: &str) -> (result: bool)
        ensures
            result == (self@.generation == Some(id@) || self@.compacting == Some(id@)),
    {
        let turn = match &self.generation {
            Some(active) => text::same(active.as_str(), id),
            None => false,
        };
        let compaction = match &self.compacting {
            Some(active) => text::same(active.as_str(), id),
            None => false,
        };
        turn || compaction
    }

    /// What a client is told of a command that was taken up.
    pub fn accepted(&self) -> (result: Accepted)
        ensures
            result.deep_view() == (AcceptedView {
                turn_id: self@.operation(),
                settings_revision: self@.revision,
            }),
    {
        let turn_id = match &self.generation {
            Some(id) => Some(id.clone()),
            None => match &self.compacting {
                Some(id) => Some(id.clone()),
                None => None,
            },
        };
        Accepted { turn_id, settings_revision: self.revision }
    }
}

/// The messages from `from` on.
fn tail(messages: &Vec<Message>, from: usize) -> (result: Vec<Message>)
    requires
        from <= messages@.len(),
    ensures
        result.deep_view() == messages.deep_view().skip(from as int),
{
    let mut result: Vec<Message> = Vec::new();
    let mut i: usize = from;
    while i < messages.len()
        invariant
            from <= i <= messages@.len(),
            result@.len() == i - from,
            forall|k: int|
                0 <= k < i - from ==> (#[trigger] result@[k]).deep_view() == messages@[from
                    + k].deep_view(),
        decreases messages@.len() - i,
    {
        result.push(messages[i].clone());
        i += 1;
    }
    assert(result.deep_view() =~= messages.deep_view().skip(from as int));
    result
}

// ---------------------------------------------------------------------------
// Laws
// ---------------------------------------------------------------------------

/// A refused action says why with a code of its own for each reason, and the same
/// action on the same session is refused again: a refusal changes nothing. An action
/// on a turn is taken up only while that turn runs.
pub proof fn stale_action_law(
    turn_id: String,
    images: Seq<ImageView>,
    actor: ActorView,
)
    requires
        actor.wf(),
    ensures
        refusal(
            Action::Cancel { turn_id },
            images,
            actor.operation(),
            actor.compacting is Some,
            actor.approval,
            actor.revision,
            actor.config,
        ) is None <==> actor.operation() == Some(turn_id@),
{
}

/// A setting is taken up only where nothing runs and the client has seen the last
/// change.
pub proof fn stale_settings_law(
    model: String,
    expected: u64,
    images: Seq<ImageView>,
    actor: ActorView,
)
    requires
        actor.wf(),
    ensures
        refusal(
            Action::SetModel { model, revision: expected },
            images,
            actor.operation(),
            actor.compacting is Some,
            actor.approval,
            actor.revision,
            actor.config,
        ) is None <==> actor.operation() is None && expected == actor.revision,
{
}

/// A turn that is done leaves the conversation with what it made in the place of the
/// message that began it; what was before stays.
pub proof fn finished_law(actor: ActorView, result: TurnResultView)
    requires
        actor.wf(),
        actor.generation is Some,
    ensures
        ({
            let done = finished(actor, result);
            let before = actor.messages.drop_last();
            &&& done.messages.take(before.len() as int) == before
            &&& done.messages.skip(before.len() as int) == turn_messages(result)
            &&& done.operation() is None
            &&& done.approval is None
        }),
{
    let done = finished(actor, result);
    let before = actor.messages.drop_last();
    assert(done.messages.take(before.len() as int) =~= before);
    assert(done.messages.skip(before.len() as int) =~= turn_messages(result));
}

/// A turn that is stopped leaves all that was said: what was before, what the turn made,
/// every prompt that waited, and a note on the end.
pub proof fn interrupted_law(actor: ActorView, progress: Seq<MessageView>, note: Seq<char>)
    requires
        actor.wf(),
    ensures
        ({
            let done = interrupted(actor, progress, note);
            let size = actor.messages.len() as int;
            &&& done.messages.take(size) == actor.messages
            &&& done.messages.skip(size) == progress + steers(actor.prompts) + seq![
                MessageView::System { content: note },
            ]
            &&& done.prompts.len() == 0
            &&& done.generation is None
            &&& done.approval is None
        }),
{
    let done = interrupted(actor, progress, note);
    let size = actor.messages.len() as int;
    assert(done.messages.take(size) =~= actor.messages);
    assert(done.messages.skip(size) =~= progress + steers(actor.prompts) + seq![
        MessageView::System { content: note },
    ]);
}

} // verus!
