use rope::config::Config;
use rope::model_catalog::model_config;
use rope::project::ProjectState;
use rope::protocol::Action;
use rope::runtime::actor::{
    compaction_marker, validate, Actor, ApprovalAnswer, Change, Command, Submitted, TurnResult,
    UserPrompt,
};
use rope::runtime::agent::Compaction;
use rope::runtime::announce::{
    cancelled_told, closing_error, failure_told, save_result, unsaved,
};
use rope::runtime::event::{ApprovalDecision, Event};
use rope::runtime::message::{ImageContent, Message};
use rope::runtime::{ReasoningEffort, CANCELLED_BY_USER};
use rope::session::{Session, SessionMeta, SessionSettings};
use rope::tool::{ExecutionPlan, PlanStatus, PlanStep};

fn actor() -> Actor {
    let config = Config {
        models: vec![model_config("gpt-5".into()), model_config("gpt-oss".into())],
        model: "gpt-5".into(),
        reasoning_effort: Some(ReasoningEffort::Medium),
        ..Config::default()
    };
    let session = Session {
        root: "/sessions".into(),
        meta: SessionMeta::new("session-1".into(), 1),
    };
    Actor::new(config, session, Vec::new())
}

fn prompt(content: &str) -> UserPrompt {
    UserPrompt {
        content: content.into(),
        images: Vec::new(),
    }
}

fn say(content: &str) -> Action {
    Action::SendMessage {
        content: content.into(),
        attachments: Vec::new(),
    }
}

fn code(action: Action, actor: &Actor) -> Result<Command, String> {
    let operation = actor.generation.as_deref().or(actor.compacting.as_deref());
    validate(
        action,
        Vec::new(),
        operation,
        actor.compacting.is_some(),
        &actor.approval,
        actor.revision,
        &actor.config,
    )
    .map_err(|error| error.code)
}

fn begin(actor: &mut Actor, content: &str) {
    let Submitted::Start(first) = actor.submit(prompt(content)) else {
        panic!("the session is idle");
    };
    actor.begin_turn("turn".into(), first);
}

#[test]
fn actions_are_checked() {
    let mut actor = actor();
    assert!(matches!(code(say("hi"), &actor), Ok(Command::Submit(_))));
    assert_eq!(code(say("  "), &actor).unwrap_err(), "empty");
    assert_eq!(
        code(Action::Cancel { turn_id: "turn".into() }, &actor).unwrap_err(),
        "stale_turn"
    );
    assert_eq!(
        code(Action::SetModel { model: "gpt-oss".into(), revision: 3 }, &actor).unwrap_err(),
        "stale_settings"
    );
    assert!(matches!(
        code(Action::SetModel { model: "gpt-oss".into(), revision: 0 }, &actor),
        Ok(Command::SelectModel(model)) if model == "gpt-oss"
    ));
    assert_eq!(code(Action::Compact, &actor), Ok(Command::Compact));
    begin(&mut actor, "hi");
    assert_eq!(code(Action::Cancel { turn_id: "turn".into() }, &actor), Ok(Command::Cancel));
    assert_eq!(code(Action::Compact, &actor).unwrap_err(), "busy");
    assert!(matches!(code(say("more"), &actor), Ok(Command::Submit(_))));
    assert_eq!(
        code(
            Action::Approve {
                turn_id: "turn".into(),
                approval_id: "none".into(),
                decision: ApprovalDecision::Deny
            },
            &actor
        )
        .unwrap_err(),
        "stale_approval"
    );
}

#[test]
fn images_need_a_model_that_sees() {
    let mut actor = actor();
    let image = || ImageContent {
        mime_type: "image/png".into(),
        data: "eA==".into(),
        path: None,
        width: 1,
        height: 1,
    };
    let check = |actor: &Actor| {
        validate(say(""), vec![image()], None, false, &None, 0, &actor.config).map(|_| ())
    };
    assert_eq!(check(&actor), Ok(()));
    actor.config.model = "gpt-oss".into();
    assert!(check(&actor).is_err());
}

#[test]
fn a_turn_ends_with_its_messages() {
    let mut actor = actor();
    begin(&mut actor, "hello");
    assert!(actor.is_current("turn"));
    assert!(!actor.is_current("other"));
    assert_eq!(actor.accepted().turn_id.as_deref(), Some("turn"));
    let answer = Message::assistant("hi".into(), "gpt-5".into(), String::new(), Vec::new());
    let done = actor.finish_turn(TurnResult {
        completed: vec![Message::user("hello".into()), answer.clone()],
        compaction: None,
        title: Some("Greeting".into()),
    });
    assert_eq!(done.persisted, [Message::user("hello".into()), answer.clone()]);
    assert!(done.renamed);
    assert!(!done.measured);
    assert_eq!(actor.messages, [Message::user("hello".into()), answer]);
    assert_eq!(actor.session.display_name(), "Greeting");
    assert_eq!(actor.generation, None);
    let told = actor.turn_told(&done, None);
    assert_eq!(
        told,
        [
            Event::SessionChanged("Greeting".into()),
            Event::GenerationFinished,
            Event::RefreshProject
        ]
    );
    assert_eq!(
        actor.turn_told(&done, Some("disk full"))[1],
        Event::Error("save session: disk full".into())
    );
}

#[test]
fn a_summary_is_kept_with_the_turn() {
    let mut actor = actor();
    begin(&mut actor, "hello");
    let done = actor.finish_turn(TurnResult {
        completed: vec![Message::user("hello".into())],
        compaction: Some(Compaction {
            summary: "dense".into(),
            through: 0,
        }),
        title: None,
    });
    assert_eq!(done.persisted.len(), 2);
    assert_eq!(done.persisted[0], compaction_marker("dense"));
    assert_eq!(actor.session.meta.compaction_summary.as_deref(), Some("dense"));
}

#[test]
fn prompts_wait_for_the_turn() {
    let mut actor = actor();
    begin(&mut actor, "one");
    assert!(matches!(
        actor.submit(prompt("two")),
        Submitted::Queued(Message::Steer { content, .. }) if content == "two"
    ));
    actor.submit(prompt("three"));
    actor.finish_turn(TurnResult {
        completed: vec![Message::user("one".into())],
        compaction: None,
        title: None,
    });
    let start = actor.next_turn("next".into()).unwrap();
    assert_eq!(start.messages.len(), 2);
    assert_eq!(start.visible_through, 1);
    assert_eq!(actor.prompts.len(), 1);
    assert_eq!(actor.generation.as_deref(), Some("next"));
}

#[test]
fn prompts_are_given_to_the_turn() {
    let mut actor = actor();
    begin(&mut actor, "one");
    actor.submit(prompt("two"));
    actor.submit(prompt("three"));
    let steers = actor.deliver_steers();
    assert_eq!(steers.len(), 2);
    assert_eq!(steers[0].content(), "two");
    assert!(actor.prompts.is_empty());
    assert!(actor.deliver_steers().is_empty());
}

#[test]
fn a_cancelled_turn_keeps_what_was_said() {
    let mut actor = actor();
    begin(&mut actor, "one");
    actor.submit(prompt("two"));
    let progress = vec![Message::assistant(
        "half".into(),
        "gpt-5".into(),
        String::new(),
        Vec::new(),
    )];
    let kept = actor.interrupt(progress, CANCELLED_BY_USER);
    assert_eq!(kept.len(), 4);
    assert_eq!(actor.messages.last(), Some(&Message::system(CANCELLED_BY_USER.into())));
    assert_eq!(actor.generation, None);
    assert!(actor.prompts.is_empty());
    assert_eq!(cancelled_told(), [Event::GenerationCancelled, Event::RefreshProject]);
    assert_eq!(
        failure_told("broken".into(), Some("disk full")),
        [
            Event::Notice("save failed turn: disk full".into()),
            Event::Error("broken".into()),
            Event::RefreshProject
        ]
    );
}

#[test]
fn tools_are_approved_once_or_for_the_session() {
    let mut actor = actor();
    assert_eq!(actor.ask("shell"), ApprovalAnswer::Reply(ApprovalDecision::Deny));
    begin(&mut actor, "one");
    let ApprovalAnswer::Ask(id) = actor.ask("shell") else {
        panic!("not approved yet");
    };
    assert_eq!(id.len(), 36);
    assert_eq!(actor.ask("write"), ApprovalAnswer::Reply(ApprovalDecision::Deny));
    let approving = actor.take_approval(ApprovalDecision::AllowSession).unwrap();
    assert_eq!(approving.tool, "shell");
    assert_eq!(approving.id, id);
    assert!(approving.save);
    assert_eq!(actor.settle_approval(&approving, true), ApprovalDecision::AllowSession);
    assert_eq!(actor.ask("shell"), ApprovalAnswer::Reply(ApprovalDecision::AllowSession));
    assert_eq!(actor.take_approval(ApprovalDecision::Deny), None);
}

#[test]
fn an_approval_that_cannot_be_saved_is_a_refusal() {
    let mut actor = actor();
    begin(&mut actor, "one");
    actor.ask("shell");
    let approving = actor.take_approval(ApprovalDecision::AllowSession).unwrap();
    assert_eq!(actor.settle_approval(&approving, false), ApprovalDecision::Deny);
    assert!(actor.session.meta.approved_tools.is_empty());
}

#[test]
fn settings_change_when_they_are_saved() {
    let mut actor = actor();
    let undo = actor.change_settings(Change::Model("gpt-oss".into())).unwrap();
    assert!(actor.settle_settings(undo, true));
    assert_eq!(actor.config.model, "gpt-oss");
    assert_eq!(actor.revision, 1);
    assert_eq!(
        actor.session.meta.settings,
        Some(SessionSettings {
            model: "gpt-oss".into(),
            reasoning_effort: Some(ReasoningEffort::Medium)
        })
    );
    assert_eq!(actor.settings_told()[0], Event::SettingsRevision(1));
    let undo = actor
        .change_settings(Change::Reasoning(Some(ReasoningEffort::High)))
        .unwrap();
    assert!(!actor.settle_settings(undo, false));
    assert_eq!(actor.config.reasoning_effort, Some(ReasoningEffort::Medium));
    assert_eq!(actor.revision, 1);
    assert_eq!(
        actor.change_settings(Change::Model("none".into())).unwrap_err().code,
        "invalid_settings"
    );
    begin(&mut actor, "one");
    assert_eq!(
        actor.change_settings(Change::Model("gpt-5".into())).unwrap_err().code,
        "busy"
    );
}

#[test]
fn settings_of_the_session_are_restored() {
    let mut actor = actor();
    actor.session.meta.settings = Some(SessionSettings {
        model: "gpt-oss".into(),
        reasoning_effort: Some(ReasoningEffort::Low),
    });
    assert_eq!(actor.restore_settings(), None);
    assert_eq!(actor.config.model, "gpt-oss");
    actor.session.meta.settings = Some(SessionSettings {
        model: "gone".into(),
        reasoning_effort: None,
    });
    assert_eq!(
        actor.restore_settings().as_deref(),
        Some("saved model 'gone' is unavailable; using 'gpt-oss'")
    );
}

#[test]
fn a_conversation_is_summarized_on_demand() {
    let mut actor = actor();
    assert_eq!(actor.compact("c".into()).unwrap_err().code, "empty");
    actor.messages = vec![Message::user("a".into()), Message::user("b".into())];
    let (id, context) = actor.start_compaction().unwrap();
    assert_eq!(context.len(), 2);
    assert!(actor.is_current(&id));
    assert!(matches!(actor.submit(prompt("x")), Submitted::Busy(error) if error.code == "busy"));
    assert!(actor.end_compaction());
    assert!(!actor.end_compaction());
    actor.note_summary("dense".into());
    assert_eq!(actor.messages[2], compaction_marker("dense"));
    assert_eq!(actor.session.meta.compacted_through, 2);
    let told = actor.compaction_told(Ok("dense".into()));
    assert_eq!(
        told[0],
        Event::ContextCompacted {
            summary: "dense".into()
        }
    );
    assert_eq!(told[2], Event::GenerationFinished);
    assert_eq!(
        actor.compaction_told(Err("compact: no".into())),
        [Event::Error("compact: no".into())]
    );
}

#[test]
fn usage_is_recorded() {
    let mut actor = actor();
    actor.record(100, Some(1.5f64.to_bits()), false);
    assert_eq!(actor.session.meta.context_tokens, 100);
    actor.record(50, Some(2.0f64.to_bits()), true);
    assert_eq!(actor.session.meta.context_tokens, 100);
    assert_eq!(actor.session.meta.total_tokens, 150);
    assert_eq!(
        actor.usage_told(true),
        [Event::UsageChanged {
            total_tokens: 150,
            total_cost: Some(2.0f64.to_bits())
        }]
    );
    assert_eq!(
        actor.usage_told(false)[1],
        Event::ContextChanged {
            tokens: 100,
            max_tokens: 400_000
        }
    );
    let summary = actor.summary(None);
    assert_eq!(summary.name, "session-1");
    assert_eq!(summary.total_tokens, 150);
}

#[test]
fn plans_belong_to_a_turn() {
    let mut actor = actor();
    let plan = || ExecutionPlan {
        explanation: None,
        plan: vec![PlanStep {
            step: "one".into(),
            status: PlanStatus::Pending,
        }],
    };
    assert!(!actor.store_plan(plan()));
    begin(&mut actor, "one");
    assert!(actor.store_plan(plan()));
    assert_eq!(actor.session.meta.plan, Some(plan()));
}

#[test]
fn another_session_takes_the_place_of_one_at_rest() {
    let mut actor = actor();
    actor.messages = vec![Message::user("old".into())];
    actor.new_session(Session {
        root: "/sessions".into(),
        meta: SessionMeta::new("session-2".into(), 2),
    });
    assert!(actor.messages.is_empty());
    let told = actor.session_told();
    assert_eq!(told[0], Event::History(Vec::new()));
    assert_eq!(told[1], Event::SessionChanged("session-2".into()));
    assert_eq!(told[3], Event::PlanChanged(None));
}

#[test]
fn a_session_is_told_from_its_beginning() {
    let actor = actor();
    let told = actor.opening(Some("note".into()), &ProjectState::default());
    assert_eq!(told.len(), 9);
    assert_eq!(told[0], Event::Notice("note".into()));
    assert_eq!(told[1], Event::History(Vec::new()));
    assert_eq!(told[2], Event::SessionChanged("session-1".into()));
    assert_eq!(
        told[4],
        Event::SettingsChanged {
            model: "gpt-5".into(),
            reasoning_effort: Some(ReasoningEffort::Medium)
        }
    );
    assert_eq!(told[7], Event::PlanChanged(None));
    assert_eq!(told[8], Event::Ready);
    assert_eq!(actor.opening(None, &ProjectState::default()).len(), 8);
}

#[test]
fn an_approval_that_cannot_be_saved_is_told_as_denied() {
    let mut actor = actor();
    begin(&mut actor, "one");
    actor.ask("shell");
    let approving = actor.take_approval(ApprovalDecision::AllowSession).unwrap();
    let id = approving.id.clone();
    let resolved = actor.resolve_approval(approving, Some("disk full"));
    assert_eq!(resolved.decision, ApprovalDecision::Deny);
    assert_eq!(
        resolved.event,
        Event::ApprovalResolved {
            approval_id: id,
            tool: "shell".into(),
            decision: ApprovalDecision::Deny,
        }
    );
    let error = resolved.error.unwrap();
    assert_eq!(error.code, "persistence");
    assert_eq!(error.message, "save approval: disk full");
    assert!(actor.session.meta.approved_tools.is_empty());

    actor.ask("shell");
    let approving = actor.take_approval(ApprovalDecision::AllowSession).unwrap();
    let resolved = actor.resolve_approval(approving, None);
    assert_eq!(resolved.decision, ApprovalDecision::AllowSession);
    assert_eq!(resolved.error, None);
    assert_eq!(actor.session.meta.approved_tools, ["shell"]);
}

#[test]
fn what_cannot_be_saved_is_told() {
    assert_eq!(unsaved("save settings", "disk full").text(), "persistence: save settings: disk full");
    assert_eq!(save_result("save settings", None), Ok(()));
    assert!(save_result("save settings", Some("disk full")).is_err());
    assert_eq!(closing_error(None, None), None);
    assert_eq!(
        closing_error(Some("a"), Some("b")).unwrap().message,
        "save session: a"
    );
    assert_eq!(
        closing_error(None, Some("b")).unwrap().message,
        "save interrupted turn: b"
    );
}
