use rope::hub::catalog::{
    asked_name, bind_project, check_diff_path, check_size, find_session, plan_load, pump,
    shutdown_result, stored_entry, Catalog, LoadPlan, Pumped, Update,
};
use rope::hub::frames::{
    accepted_to_json, catalog_frame, event_frame, plan_to_json, project_frame, resync_frame,
    snapshot_frame,
};
use rope::hub::projection::Projection;
use rope::hub::state::{
    Approval, Block, BlockKind, Change, Snapshot, Timer, ToolStatus, ToolView,
};
use rope::json::parse;
use rope::runtime::event::{ApprovalDecision, Event};
use rope::project::{ProjectState, ProjectUpdate};
use rope::protocol::{Accepted, CatalogSnapshot};
use rope::runtime::message::{ImageContent, Message, ToolCall};
use rope::runtime::ReasoningEffort;
use rope::session::{PathPart, Session, SessionInfo, SessionMeta};
use rope::tool::{ExecutionPlan, PlanStatus, PlanStep};

fn call(id: &str) -> ToolCall {
    ToolCall {
        id: id.into(),
        name: "read".into(),
        arguments: parse("{}").unwrap(),
    }
}

fn info(name: &str, created_at: u64) -> SessionInfo {
    SessionInfo {
        name: name.into(),
        title: None,
        created_at,
        first_message: None,
    }
}

#[test]
fn timers_count_while_they_run() {
    let timer = Timer {
        elapsed: 5,
        started: Some(10),
    };
    assert!(timer.running());
    assert_eq!(timer.value(17), 12);
    assert_eq!(timer.value(3), 5);
    let stopped = Timer {
        elapsed: 5,
        started: None,
    };
    assert_eq!(stopped.value(17), 5);
}

#[test]
fn a_turn_is_shown_as_blocks() {
    let mut projection = Projection::new("work".into());
    let mut now = 0;
    for event in [
        Event::MessageAccepted(Message::user("hello".into())),
        Event::OperationStarted {
            id: "turn".into(),
            compacting: false,
        },
        Event::GenerationStarted,
        Event::ResponseStarted,
        Event::ReasoningDelta("think".into()),
        Event::TextDelta("hel".into()),
        Event::TextDelta("lo".into()),
        Event::GenerationFinished,
    ] {
        now += 1_000;
        projection.apply(&event, now);
    }
    assert_eq!(projection.seq(), 8);
    let snapshot = projection.snapshot();
    let shown: Vec<(BlockKind, &str)> = snapshot
        .blocks
        .iter()
        .map(|block| (block.kind, block.content.as_str()))
        .collect();
    assert_eq!(
        shown,
        [
            (BlockKind::User, "hello"),
            (BlockKind::Thinking, "think"),
            (BlockKind::Assistant, "hello")
        ]
    );
    assert_eq!(snapshot.state.turn_id, None);
    let ids: Vec<&String> = snapshot.blocks.iter().map(|block| &block.id).collect();
    assert!(ids[0] != ids[1] && ids[1] != ids[2] && ids[0] != ids[2]);
}

#[test]
fn changes_bring_a_watcher_up_to_date() {
    let mut projection = Projection::new("work".into());
    projection.apply(&Event::GenerationStarted, 0);
    projection.apply(&Event::ResponseStarted, 0);
    let inserted = projection.apply(&Event::TextDelta("a".into()), 1);
    assert!(inserted.iter().any(|change| matches!(
        change,
        Change::Insert { block, .. } if block.kind == BlockKind::Assistant
    )));
    assert!(inserted.iter().any(|change| matches!(
        change,
        Change::Append { text, .. } if text == "a"
    )));
    let appended = projection.apply(&Event::TextDelta("b".into()), 2);
    assert!(appended.iter().any(|change| matches!(
        change,
        Change::Append { field, text, .. } if field == "content" && text == "b"
    )));
}

/// What a client does with changes.
fn follow(snapshot: &mut Snapshot, changes: Vec<Change>) {
    for change in changes {
        match change {
            Change::Insert { before, block } => {
                let at = match before {
                    Some(id) => snapshot.blocks.iter().position(|other| other.id == id).unwrap(),
                    None => snapshot.blocks.len(),
                };
                snapshot.blocks.insert(at, block);
            }
            Change::Replace { block } => {
                let at = snapshot.blocks.iter().position(|other| other.id == block.id).unwrap();
                snapshot.blocks[at] = block;
            }
            Change::Append {
                block_id,
                field,
                text,
            } => {
                let block = snapshot.blocks.iter_mut().find(|other| other.id == block_id).unwrap();
                match field.as_str() {
                    "content" => block.content.push_str(&text),
                    "arguments" => block.tool.as_mut().unwrap().arguments.push_str(&text),
                    _ => block
                        .tool
                        .as_mut()
                        .unwrap()
                        .output
                        .get_or_insert_with(String::new)
                        .push_str(&text),
                }
            }
            Change::State { state } => snapshot.state = state,
            Change::Plan { plan } => snapshot.plan = plan,
            Change::Project { project } => snapshot.project = project,
        }
    }
}

#[test]
fn changes_lead_from_one_snapshot_to_the_next() {
    let mut projection = Projection::new("work".into());
    let mut followed = projection.snapshot();
    let events = vec![
        Event::History(vec![Message::user("before".into())]),
        Event::MessageAccepted(Message::user("hello".into())),
        Event::OperationStarted {
            id: "turn".into(),
            compacting: false,
        },
        Event::ReasoningDelta("think".into()),
        Event::TextDelta("first".into()),
        Event::ToolCallDelta {
            index: 0,
            name: Some("read".into()),
            arguments: "{".into(),
        },
        Event::ContextCompacted {
            summary: "short".into(),
        },
        Event::ToolCallDelta {
            index: 0,
            name: None,
            arguments: "}".into(),
        },
        Event::ToolCallFinished {
            index: 0,
            call: call("call_1"),
        },
        Event::ToolStarted {
            call_id: "call_1".into(),
        },
        Event::ToolOutputDelta {
            call_id: "call_1".into(),
            delta: "out".into(),
        },
        Event::MessageAccepted(Message::Steer {
            content: "more".into(),
            images: Vec::new(),
        }),
        Event::SteersDelivered(1),
        Event::PlanChanged(None),
        Event::GenerationCancelled,
    ];
    for (now, event) in events.iter().enumerate() {
        let changes = projection.apply(event, now as u64);
        follow(&mut followed, changes);
        let snapshot = projection.snapshot();
        assert_eq!(followed.blocks, snapshot.blocks);
        assert_eq!(followed.state, snapshot.state);
        assert_eq!(followed.plan, snapshot.plan);
    }
    assert_eq!(followed.blocks[1].summary.as_deref(), Some("short"));
}

#[test]
fn tools_are_shown_with_their_results() {
    let mut projection = Projection::new("work".into());
    for event in [
        Event::GenerationStarted,
        Event::ResponseStarted,
        Event::ToolCallDelta {
            index: 0,
            name: Some("read".into()),
            arguments: "{}".into(),
        },
        Event::ToolCallFinished {
            index: 0,
            call: call("call_1"),
        },
        Event::ApprovalRequested {
            approval_id: "a".into(),
            call: call("call_1"),
        },
    ] {
        projection.apply(&event, 0);
    }
    assert_eq!(projection.state().approval.as_ref().unwrap().id, "a");
    let waiting = projection.snapshot();
    assert_eq!(waiting.blocks[0].tool.as_ref().unwrap().status, ToolStatus::WaitingApproval);
    for event in [
        Event::ApprovalResolved {
            approval_id: "a".into(),
            tool: "read".into(),
            decision: ApprovalDecision::AllowOnce,
        },
        Event::ToolStarted {
            call_id: "call_1".into(),
        },
        Event::ToolOutputDelta {
            call_id: "call_1".into(),
            delta: "par".into(),
        },
        Event::ToolResult {
            call_id: "call_1".into(),
            output: "partial".into(),
            success: true,
            diff: None,
        },
    ] {
        projection.apply(&event, 5);
    }
    assert_eq!(projection.state().approval, None);
    let snapshot = projection.snapshot();
    let tool = snapshot.blocks[0].tool.as_ref().unwrap();
    assert_eq!(tool.status, ToolStatus::Done);
    assert_eq!(tool.output.as_deref(), Some("partial"));
    assert_eq!(tool.call_id.as_deref(), Some("call_1"));
}

#[test]
fn a_history_is_shown() {
    let mut projection = Projection::new("work".into());
    projection.apply(
        &Event::History(vec![
            Message::user("hello".into()),
            Message::assistant("hi".into(), "model".into(), "why".into(), vec![call("call_1")]),
            Message::tool("call_1".into(), "text".into(), None, None),
        ]),
        0,
    );
    let snapshot = projection.snapshot();
    assert_eq!(snapshot.session_id, "work");
    assert!(snapshot.blocks.iter().any(|block| block.kind == BlockKind::Thinking));
    let tool = snapshot.blocks.iter().find_map(|block| block.tool.as_ref()).unwrap();
    assert_eq!(tool.output.as_deref(), Some("text"));
    assert_eq!(tool.status, ToolStatus::Done);
}

#[test]
fn errors_end_the_turn() {
    let mut projection = Projection::new("work".into());
    projection.apply(
        &Event::OperationStarted {
            id: "turn".into(),
            compacting: false,
        },
        0,
    );
    assert_eq!(projection.state().turn_id.as_deref(), Some("turn"));
    projection.apply(&Event::Error("broken".into()), 1);
    assert_eq!(projection.state().turn_id, None);
    assert_eq!(projection.state().error.as_deref(), Some("broken"));
}

#[test]
fn sessions_are_found_or_made() {
    let name = || Some("work".to_string());
    assert_eq!(
        plan_load(name(), false, false, true, true),
        Ok(LoadPlan::Loaded("work".into()))
    );
    assert_eq!(
        plan_load(name(), false, false, false, true),
        Ok(LoadPlan::Resume("work".into()))
    );
    assert_eq!(
        plan_load(None, true, false, false, false),
        Ok(LoadPlan::Create(None))
    );
    assert!(plan_load(name(), false, true, true, true).is_err());
    assert!(plan_load(name(), true, false, true, true).is_err());
    assert_eq!(asked_name(Some(" a ".into())), Ok(Some("a".into())));
    assert_eq!(asked_name(Some("a/b".into())).unwrap_err(), "invalid session name");
    assert_eq!(find_session("a", false, true, false), Ok(false));
    assert_eq!(find_session("a", false, false, true), Ok(true));
    assert_eq!(find_session("a", false, false, false).unwrap_err(), "unknown session: a");
    assert_eq!(find_session("a", true, true, true).unwrap_err(), "core is shutting down");
}

#[test]
fn sessions_belong_to_a_project() {
    let mut meta = SessionMeta::new("work".into(), 1);
    assert_eq!(bind_project(&mut meta, "/a"), Ok(()));
    assert_eq!(meta.project_root.as_deref(), Some("/a"));
    assert_eq!(
        bind_project(&mut meta, "/b").unwrap_err(),
        "session belongs to another project"
    );
    assert!(stored_entry(info("work", 1), &meta, "/b").is_none());
    let entry = stored_entry(info("work", 1), &meta, "/a").unwrap();
    assert_eq!(entry.activity, "idle");
    assert_eq!(entry.total_cost, None);
}

#[test]
fn the_catalog_follows_its_sessions() {
    let mut catalog = Catalog::new(Vec::new());
    let session = |name: &str, created_at: u64| Session {
        root: "/sessions".into(),
        meta: SessionMeta::new(name.into(), created_at),
    };
    catalog.load(&session("old", 1));
    catalog.load(&session("new", 2));
    catalog.load(&session("old", 1));
    assert_eq!(catalog.snapshot.seq, 3);
    let names: Vec<&str> =
        catalog.snapshot.sessions.iter().map(|entry| entry.info.name.as_str()).collect();
    assert_eq!(names, ["new", "old"]);
    let mut projection = Projection::new("old".into());
    let event = Event::SessionChanged("Greeting".into());
    let Pumped::Publish { update, catalog: listed } =
        pump(&mut projection, &mut catalog, "/project", &event, 0)
    else {
        panic!("not published");
    };
    assert!(listed);
    assert_eq!(update.session_id, "old");
    assert_eq!(update.seq, 1);
    assert_eq!(catalog.snapshot.sessions[1].info.title.as_deref(), Some("Greeting"));
    assert_eq!(
        pump(&mut projection, &mut catalog, "/project", &Event::RefreshProject, 0),
        Pumped::Refresh
    );
}

#[test]
fn requests_are_limited() {
    assert_eq!(check_size("hello", 1), Ok(()));
    assert!(check_size(&"x".repeat(262_145), 0).is_err());
    assert!(check_size("", 1_000).is_err());
    assert_eq!(check_diff_path(false, &vec![PathPart::Normal]), Ok(()));
    assert!(check_diff_path(false, &vec![PathPart::Parent]).is_err());
    assert_eq!(
        check_diff_path(true, &vec![]).unwrap_err(),
        "diff path must be relative to the project"
    );
    assert_eq!(shutdown_result(&vec![]), Ok(()));
    assert_eq!(shutdown_result(&vec!["a".into(), "b".into()]).unwrap_err(), "a\nb");
}

fn project() -> ProjectState {
    ProjectState {
        cwd: "/project".into(),
        context: vec!["README.md".into()],
        git_status: "clean".into(),
        git_diff: String::new(),
        git_diff_path: None,
    }
}

fn parsed(frame: &rope::json::Json) -> serde_json::Value {
    serde_json::from_str(&rope::json::write(frame)).unwrap()
}

#[test]
fn a_snapshot_is_told_whole() {
    let mut snapshot = Projection::new("work".into()).snapshot();
    snapshot.seq = 3;
    snapshot.drafts.push((2, "block".into()));
    snapshot.state.title = "Work".into();
    snapshot.state.reasoning_effort = Some(ReasoningEffort::Off);
    snapshot.state.approval = Some(Approval { id: "ask".into(), call: call("c") });
    snapshot.blocks.push(Block {
        id: "block".into(),
        kind: BlockKind::Tool,
        content: "text".into(),
        model: "m".into(),
        images: vec![ImageContent {
            mime_type: "image/png".into(),
            data: "AA==".into(),
            path: Some("a.png".into()),
            width: 2,
            height: 0,
        }],
        summary: None,
        tool: Some(ToolView {
            call_id: Some("c".into()),
            name: "read".into(),
            arguments: "{}".into(),
            output: None,
            diff: None,
            status: ToolStatus::WaitingApproval,
        }),
        timer: Timer { elapsed: 1_500_000, started: Some(0) },
        queued: false,
    });
    let cost = Some("0.25".to_string());
    let frame = parsed(&snapshot_frame(&snapshot, &project(), &cost, 2_000_000));
    let expected: serde_json::Value = serde_json::from_str(
        r#"{"type":"snapshot","snapshot":{
            "session_id":"work","seq":3,
            "blocks":[{"id":"block","kind":"tool","content":"text","model":"m",
                "images":[{"mime_type":"image/png","path":"a.png","width":2}],
                "summary":null,
                "tool":{"call_id":"c","name":"read","arguments":"{}","output":null,
                    "diff":null,"status":"waiting_approval"},
                "timer":{"elapsed_ms":3,"running":true},"queued":false}],
            "state":{"title":"Work","turn_id":null,"compacting":false,"phase":"idle",
                "model":"","response_model":"","reasoning_effort":"none",
                "settings_revision":0,"total_tokens":0,"total_cost":0.25,
                "context_tokens":0,"max_context_tokens":0,
                "approval":{"id":"ask","call":{"id":"c","name":"read","arguments":{}}},
                "queued_steers":0,"error":null,"notice":null,"output_tokens":0,
                "generation_ms":0},
            "plan":null,
            "project":{"cwd":"/project","context":["README.md"],"git_status":"clean",
                "git_diff":"","git_diff_path":null},
            "assistant_id":null,"reasoning_id":null,"drafts":{"2":"block"}}}"#,
    )
    .unwrap();
    assert_eq!(frame, expected);
}

#[test]
fn updates_are_told_change_by_change() {
    let update = Update {
        session_id: "work".into(),
        seq: 4,
        changes: vec![
            Change::Append {
                block_id: "b".into(),
                field: "content".into(),
                text: "more".into(),
            },
            Change::Plan { plan: None },
        ],
    };
    assert_eq!(
        rope::json::write(&event_frame(&update, &None, 0)),
        r#"{"type":"event","update":{"changes":[{"block_id":"b","field":"content","text":"more","type":"append"},{"plan":null,"type":"plan"}],"seq":4,"session_id":"work"}}"#
    );
    let plan = Some(ExecutionPlan {
        explanation: Some("why".into()),
        plan: vec![PlanStep { step: "look".into(), status: PlanStatus::InProgress }],
    });
    assert_eq!(
        rope::json::write(&plan_to_json(&plan)),
        r#"{"explanation":"why","plan":[{"status":"in_progress","step":"look"}]}"#
    );
    assert_eq!(
        rope::json::write(&resync_frame("work")),
        r#"{"session_id":"work","type":"resync_required"}"#
    );
}

#[test]
fn the_catalog_and_the_project_are_told() {
    let entry = stored_entry(info("old", 1), &SessionMeta::new("old".into(), 1), "/project");
    let catalog = CatalogSnapshot { seq: 2, sessions: entry.into_iter().collect() };
    let costs = catalog.sessions.iter().map(|_| None).collect();
    let frame = parsed(&catalog_frame(&catalog, &costs));
    assert_eq!(frame["type"], "catalog");
    assert_eq!(frame["catalog"]["seq"], 2);
    assert_eq!(frame["catalog"]["sessions"].as_array().unwrap().len(), catalog.sessions.len());
    let frame = parsed(&project_frame(&ProjectUpdate { seq: 5, project: project() }));
    assert_eq!(frame["type"], "project");
    assert_eq!(frame["update"]["seq"], 5);
    assert_eq!(frame["update"]["project"]["cwd"], "/project");
    let accepted = Accepted { turn_id: None, settings_revision: 7 };
    assert_eq!(
        rope::json::write(&accepted_to_json(&accepted)),
        r#"{"settings_revision":7,"turn_id":null}"#
    );
}

#[test]
fn waiting_messages_are_counted() {
    let mut projection = Projection::new("work".into());
    let steer = |content: &str| {
        Event::MessageAccepted(Message::Steer { content: content.into(), images: vec![] })
    };
    for content in ["a", "b", "c"] {
        let event = steer(content);
        assert!(projection.can_apply(&event));
        projection.apply(&event, 0);
    }
    assert_eq!(projection.state().queued_steers, 3);
    projection.apply(&Event::SteersDelivered(2), 0);
    let snapshot = projection.snapshot();
    let waiting: Vec<bool> = snapshot.blocks.iter().map(|block| block.queued).collect();
    assert_eq!(waiting, [false, false, true]);
    assert_eq!(snapshot.state.queued_steers, 1);
    let ids: Vec<String> = snapshot.blocks.iter().map(|block| block.id.clone()).collect();
    projection.apply(&Event::OperationStarted { id: "t".into(), compacting: false }, 0);
    projection.apply(&Event::ContextCompacted { summary: "s".into() }, 0);
    let now: Vec<String> = projection.snapshot().blocks.iter().map(|b| b.id.clone()).collect();
    let kept: Vec<String> = now.into_iter().filter(|id| ids.contains(id)).collect();
    assert_eq!(kept, ids);
    projection.apply(&Event::GenerationCancelled, 0);
    let snapshot = projection.snapshot();
    assert_eq!(snapshot.state.queued_steers, 0);
    assert!(snapshot.blocks.iter().all(|block| !block.queued));
}
