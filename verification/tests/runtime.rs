use rope::config::Config;
use rope::json::{parse, Json};
use rope::model_catalog::model_config;
use rope::provider::{ResponseDelta, Usage};
use rope::runtime::agent::{
    decode_plan, denied, exhausted, output_tokens, parse_plan, Admission, Agent, Response,
};
use rope::runtime::budget::{
    available_context_tokens, bytes_of_tokens, estimate_tokens, forward_output, message_to_json,
    tool_message_overhead, truncate_tool_output,
};
use rope::runtime::collect::Collector;
use rope::runtime::context::{
    apply_plan_context, eject_consumed_web_results, is_compaction_marker, is_ejected_web_result,
    request_context, strip_tool_diffs, summary_as_message, web_result_marker, write_plan,
    PLAN_CONTEXT_PREFIX,
};
use rope::runtime::message::{Message, ToolCall};
use rope::runtime::turn::{
    choose_title, clean_session_title, fallback_session_title, is_retryable, next_attempt,
    retry_delay, split_for_summary, start_from_summary, summary_request, summary_text,
    title_request, turn_estimate, turn_request,
};
use rope::runtime::{ProjectRequest, ProjectRequests, ReasoningEffort, COMPACTION_MARKER};
use rope::session::SessionMeta;
use rope::tool::{ExecutionPlan, PlanStatus, PlanStep, ToolResult};

fn json(text: &str) -> Json {
    parse(text).unwrap()
}

fn call(id: &str, name: &str, arguments: &str) -> ToolCall {
    ToolCall {
        id: id.into(),
        name: name.into(),
        arguments: json(arguments),
    }
}

fn answer(content: &str, calls: Vec<ToolCall>) -> Message {
    Message::assistant(content.into(), "model".into(), String::new(), calls)
}

fn page(url: &str, title: &str, content: &str) -> String {
    rope::json::write(&Json::Object(vec![
        ("url".into(), Json::text(url)),
        ("title".into(), Json::text(title)),
        ("content".into(), Json::text(content)),
        ("links".into(), Json::Array(Vec::new())),
    ]))
}

fn encoded(messages: &[Message]) -> String {
    messages
        .iter()
        .map(|message| rope::json::write(&message_to_json(message)))
        .collect::<Vec<_>>()
        .join(",")
}

fn meta() -> SessionMeta {
    SessionMeta {
        name: "test".into(),
        title: None,
        plan: None,
        created_at: 0,
        total_tokens: 0,
        total_cost: 0.0f64.to_bits(),
        cost_complete: true,
        context_tokens: 0,
        compaction_summary: None,
        compacted_through: 0,
        approved_tools: Vec::new(),
        settings: None,
        project_root: None,
    }
}

fn plan(steps: &[(&str, PlanStatus)]) -> ExecutionPlan {
    ExecutionPlan {
        explanation: None,
        plan: steps
            .iter()
            .map(|(step, status)| PlanStep {
                step: step.to_string(),
                status: *status,
            })
            .collect(),
    }
}

// ---------------------------------------------------------------------------
// Context
// ---------------------------------------------------------------------------

#[test]
fn consumed_web_browser_results_are_ejected_only_from_model_context() {
    let output = page(
        "https://example.com/docs",
        "Documentation",
        &"page content ".repeat(2_000),
    );
    let mut context = vec![
        answer(
            "",
            vec![call(
                "browser-1",
                "web_browser",
                r#"{ "url": "https://example.com/docs" }"#,
            )],
        ),
        Message::tool("browser-1".into(), output, None, None),
        answer("I used the documentation.", Vec::new()),
        Message::user("continue".into()),
    ];
    let transcript = context.clone();
    let full_tokens = estimate_tokens(&context);

    assert_eq!(eject_consumed_web_results(&mut context), 1);
    let Message::Tool { content, .. } = &context[1] else {
        panic!("expected tool result");
    };
    let marker: serde_json::Value = serde_json::from_str(content).unwrap();
    assert_eq!(marker["ejected"], true);
    assert_eq!(marker["url"], "https://example.com/docs");
    assert_eq!(marker["original_chars"], 26_000);
    assert!(estimate_tokens(&context) < full_tokens / 10);
    assert!(matches!(
        &transcript[1],
        Message::Tool { content, .. } if content.contains("page content")
    ));
    assert!(is_ejected_web_result(&context[1]));
    assert!(!is_ejected_web_result(&transcript[1]));
}

#[test]
fn tool_diffs_stay_in_history_but_not_model_context() {
    let transcript = vec![Message::tool(
        "write-1".into(),
        "wrote file.txt".into(),
        None,
        Some("large diff ".repeat(1_000)),
    )];
    let mut context = transcript.clone();

    assert_eq!(strip_tool_diffs(&mut context), 1);
    assert!(matches!(
        &transcript[0],
        Message::Tool { diff: Some(diff), .. } if diff.starts_with("large diff")
    ));
    assert!(matches!(&context[0], Message::Tool { diff: None, .. }));
    assert!(estimate_tokens(&context) < estimate_tokens(&transcript) / 10);
}

#[test]
fn model_context_contains_only_the_latest_full_plan() {
    let old_plan = r#"{"plan":[{"status":"in_progress","step":"obsolete step"}]}"#;
    let mut messages = vec![
        answer("", vec![call("plan-1", "update_plan", old_plan)]),
        Message::tool("plan-1".into(), old_plan.into(), None, None),
    ];
    let mut current = plan(&[("current step", PlanStatus::InProgress)]);
    current.explanation = Some("revised".into());

    apply_plan_context(&mut messages, Some(&current));
    let encoded = encoded(&messages);

    assert!(!encoded.contains("obsolete step"));
    assert_eq!(encoded.matches("current step").count(), 1);
    assert_eq!(
        messages
            .iter()
            .filter(|message| matches!(message, Message::System { content } if content.starts_with(PLAN_CONTEXT_PREFIX)))
            .count(),
        1
    );
    assert!(encoded.contains("Latest plan is provided separately"));
}

#[test]
fn web_browser_result_stays_until_the_tool_loop_finishes() {
    let mut context = vec![
        answer("", vec![call("browser-1", "web_browser", "{}")]),
        Message::tool(
            "browser-1".into(),
            page("https://example.com", "Example", "full page"),
            None,
            None,
        ),
        answer("", vec![call("next-1", "read", "{}")]),
        Message::tool("next-1".into(), "file".into(), None, None),
    ];

    assert_eq!(eject_consumed_web_results(&mut context), 0);
    assert!(matches!(
        &context[1],
        Message::Tool { content, .. } if content.contains("full page")
    ));
    context.push(answer("done", Vec::new()));
    assert_eq!(eject_consumed_web_results(&mut context), 1);
    assert_eq!(eject_consumed_web_results(&mut context), 0);
}

#[test]
fn only_pages_are_left_out() {
    assert_eq!(web_result_marker("no json"), None);
    assert_eq!(web_result_marker(r#"{"url":"x"}"#), None);
    let marker = web_result_marker(&page("u", "t", "été")).unwrap();
    let marker: serde_json::Value = serde_json::from_str(&marker).unwrap();
    assert_eq!(marker["tool"], "web_browser");
    assert_eq!(marker["title"], "t");
    assert_eq!(marker["original_chars"], 3);
}

#[test]
fn request_context_projects_the_summary_and_drops_markers() {
    let summary = "dense summary";
    let meta = SessionMeta {
        compaction_summary: Some(summary.into()),
        compacted_through: 2,
        ..meta()
    };
    let messages = vec![
        Message::user("old turn".into()),
        Message::system(format!("{COMPACTION_MARKER}\n{summary}")),
        Message::user("continue".into()),
        Message::assistant("done".into(), "model".into(), String::new(), Vec::new()),
    ];

    let context = request_context(&messages, &meta);

    assert_eq!(context.len(), 3);
    assert!(matches!(
        &context[0],
        Message::System { content }
            if content == "Conversation summary for continuation:\ndense summary"
    ));
    assert_eq!(context[1], Message::user("continue".into()));
    assert!(context.iter().all(|message| !is_compaction_marker(message)));
}

#[test]
fn a_summary_of_more_than_there_is_leaves_nothing() {
    let meta = SessionMeta {
        compaction_summary: Some("all".into()),
        compacted_through: 9,
        ..meta()
    };
    let context = request_context(&vec![Message::user("old turn".into())], &meta);
    assert_eq!(context, [summary_as_message("all")]);
}

#[test]
fn plans_are_written_as_indented_json() {
    let mut shown = plan(&[("one \"quoted\"", PlanStatus::Completed)]);
    assert_eq!(
        write_plan(&shown),
        "{\n  \"plan\": [\n    {\n      \"step\": \"one \\\"quoted\\\"\",\n      \"status\": \"completed\"\n    }\n  ]\n}"
    );
    shown.explanation = Some("why".into());
    assert!(write_plan(&shown).starts_with("{\n  \"explanation\": \"why\",\n"));
    assert_eq!(parse_plan(&write_plan(&shown)), Some(shown));
    assert_eq!(parse_plan("{}"), None);
}

// ---------------------------------------------------------------------------
// Budget
// ---------------------------------------------------------------------------

#[test]
fn tool_output_is_truncated_on_a_character_boundary() {
    let output = truncate_tool_output("é".repeat(100), 10);

    assert!(output.ends_with("[tool output truncated]"));
    assert!(output.len() <= 40);
}

#[test]
fn output_that_fits_is_not_changed() {
    assert_eq!(truncate_tool_output("é".repeat(20), 10), "é".repeat(20));
    assert_eq!(bytes_of_tokens(10), 40);
    assert_eq!(bytes_of_tokens(u64::MAX), usize::MAX);
}

#[test]
fn tokens_follow_the_bytes_and_the_messages() {
    assert_eq!(estimate_tokens(&vec![]), 0);
    let message = Message::system("hello".into());
    assert_eq!(rope::json::write(&message_to_json(&message)).len(), 35);
    assert_eq!(estimate_tokens(&vec![message]), 13);
    let overhead = tool_message_overhead(&call("call_1", "read", "{}"));
    assert_eq!(
        overhead,
        estimate_tokens(&vec![Message::tool("call_1".into(), String::new(), None, None)])
    );
}

#[test]
fn the_request_is_taken_from_the_context() {
    let messages = vec![Message::user("hello".into())];
    let free = available_context_tokens(&messages, 1_000, &None, &None);
    assert_eq!(free, 1_000 - estimate_tokens(&messages));
    assert!(available_context_tokens(&messages, 1_000, &Some("be brief".into()), &None) < free);
    assert_eq!(available_context_tokens(&messages, 1, &None, &None), 0);
}

#[test]
fn forwarded_output_ends_at_the_limit() {
    let (first, sent) = forward_output("abc".into(), 0, 5);
    assert_eq!((first.as_deref(), sent), (Some("abc"), 3));
    let (second, sent) = forward_output("éé".into(), sent, 5);
    assert_eq!((second.as_deref(), sent), (Some("é"), 5));
    let (third, sent) = forward_output("x".into(), sent, 5);
    assert_eq!((third, sent), (None, 5));
}

#[test]
fn a_result_gets_a_fifth_of_what_is_left() {
    assert_eq!(output_tokens(10_000), 2_000);
    assert_eq!(output_tokens(100), 32);
    assert_eq!(output_tokens(10), 10);
}

// ---------------------------------------------------------------------------
// Agent
// ---------------------------------------------------------------------------

fn response(text: &str, calls: Vec<ToolCall>) -> Response {
    Response {
        reasoning: String::new(),
        text: text.into(),
        calls,
        total_tokens: None,
        items: Vec::new(),
    }
}

fn result(output: &str) -> Result<ToolResult, String> {
    Ok(ToolResult {
        output: output.into(),
        image: None,
        diff: None,
    })
}

#[test]
fn a_turn_runs_calls_until_the_model_answers() {
    let mut agent = Agent::new(
        vec![Message::user("hello".into())],
        0,
        None,
        None,
        "model".into(),
        100_000,
    );
    assert_eq!(agent.request().len(), 1);
    assert_eq!(agent.respond(response("", vec![call("call_1", "read", "{}")])), None);
    let Admission::Run { available } = agent.check_room() else {
        panic!("there is room");
    };
    let delivered = agent.finish_call(result("text"), output_tokens(available)).unwrap();
    assert_eq!(delivered.output, "text");
    assert!(delivered.success);
    let made = agent.respond(response("done", Vec::new())).unwrap();
    assert_eq!(made.len(), 4);
    assert_eq!(made[0], Message::user("hello".into()));
    assert_eq!(made[2], Message::tool("call_1".into(), "text".into(), None, None));
    assert_eq!(made[3].content(), "done");
}

#[test]
fn results_stay_within_the_context() {
    let mut agent = Agent::new(
        vec![Message::user("run it".into())],
        0,
        None,
        None,
        "model".into(),
        100,
    );
    let mut asked = response("", vec![call("call_1", "echo", "{}")]);
    asked.total_tokens = Some(50);
    agent.respond(asked);
    let Admission::Run { available } = agent.check_room() else {
        panic!("there is room");
    };
    assert_eq!(available, 34);
    assert_eq!(output_tokens(available), 32);
    let delivered = agent.finish_call(result(&"x".repeat(1_000)), output_tokens(available)).unwrap();
    assert!(delivered.output.ends_with("[tool output truncated]"));
    assert_eq!(delivered.output.len(), 128);
    assert_eq!(agent.used, 98);
}

#[test]
fn what_is_sent_during_a_turn_goes_to_the_model() {
    let mut agent = Agent::new(
        vec![Message::user("hello".into())],
        0,
        None,
        None,
        "model".into(),
        100_000,
    );
    agent.respond(response("", vec![call("call_1", "read", "{}")]));
    agent.finish_call(result("text"), 1_000).unwrap();
    let steer = Message::Steer {
        content: "shorter".into(),
        images: Vec::new(),
    };
    agent.steer(vec![steer.clone()]);
    assert_eq!(agent.request().last(), Some(&steer));
    let made = agent.respond(response("done", Vec::new())).unwrap();
    assert_eq!(made[3], steer);
}

#[test]
fn failed_calls_are_told_to_the_model() {
    let mut agent = Agent::new(
        vec![Message::user("hello".into())],
        0,
        None,
        None,
        "model".into(),
        100_000,
    );
    agent.respond(response("", vec![call("call_1", "read", "{}")]));
    let delivered = agent.finish_call(Err("no such file".into()), 1_000).unwrap();
    assert!(!delivered.success);
    assert!(delivered.output.contains("no such file"));
}

#[test]
fn a_plan_that_was_stored_is_kept() {
    let mut agent = Agent::new(
        vec![Message::user("hello".into())],
        0,
        None,
        None,
        "model".into(),
        100_000,
    );
    agent.respond(response("", vec![call("call_1", "update_plan", "{}")]));
    let stored = plan(&[("one", PlanStatus::Pending)]);
    let delivered = agent.finish_call(result(&write_plan(&stored)), 1_000).unwrap();
    assert_eq!(delivered.plan.as_ref(), Some(&stored));
    assert_eq!(agent.plan.as_ref(), Some(&stored));
    assert!(encoded(&agent.request()).contains(PLAN_CONTEXT_PREFIX.trim_end()));
}

#[test]
fn a_full_context_is_summarized_once() {
    let mut agent = Agent::new(
        vec![
            Message::user("x".repeat(40_000)),
            answer("long ago", Vec::new()),
            Message::user("hello".into()),
        ],
        2,
        None,
        None,
        "model".into(),
        10_000,
    );
    agent.respond(response("", vec![call("call_1", "read", "{}")]));
    assert!(matches!(agent.check_room(), Admission::Summarize { .. }));
    assert_eq!(agent.to_summarize().len(), 2);
    let available = agent.make_room("short".into()).unwrap();
    assert!(available > 9_000);
    assert_eq!(agent.messages[0], summary_as_message("short"));
    assert_eq!(agent.compaction.as_ref().unwrap().summary, "short");
    assert_eq!(agent.compaction.as_ref().unwrap().through, 2);
    assert!(matches!(agent.check_room(), Admission::Run { .. }));
}

#[test]
fn without_anything_to_summarize_the_context_is_exhausted() {
    let mut agent = Agent::new(
        vec![Message::user("x".repeat(40_000))],
        0,
        None,
        None,
        "model".into(),
        1_000,
    );
    agent.respond(response("", vec![call("call_1", "read", "{}")]));
    assert_eq!(agent.check_room(), Admission::Exhausted);
}

// ---------------------------------------------------------------------------
// Responses
// ---------------------------------------------------------------------------

#[test]
fn deltas_are_put_together() {
    let mut collector = Collector::new();
    for delta in [
        ResponseDelta::Reasoning("th".into()),
        ResponseDelta::Reasoning("ink".into()),
        ResponseDelta::Text("hel".into()),
        ResponseDelta::Text("lo".into()),
        ResponseDelta::ToolCall {
            index: 1,
            id: Some("call_2".into()),
            name: Some("read".into()),
            arguments: "{\"a\"".into(),
        },
        ResponseDelta::ToolCall {
            index: 1,
            id: None,
            name: None,
            arguments: ":1}".into(),
        },
        ResponseDelta::ToolCall {
            index: 0,
            id: Some("call_1".into()),
            name: Some("shell".into()),
            arguments: "{}".into(),
        },
        ResponseDelta::Usage(Usage {
            prompt_tokens: 5,
            total_tokens: 9,
        }),
    ] {
        collector.take(delta);
    }
    let response = collector.finish().unwrap();
    assert_eq!(response.reasoning, "think");
    assert_eq!(response.text, "hello");
    assert_eq!(response.total_tokens, Some(9));
    assert_eq!(response.calls.len(), 2);
    assert_eq!(response.calls[0].name, "shell");
    assert_eq!(response.calls[1], call("call_2", "read", "{\"a\":1}"));
}

#[test]
fn arguments_have_to_be_json() {
    let mut collector = Collector::new();
    collector.take(ResponseDelta::ToolCall {
        index: 0,
        id: Some("call_1".into()),
        name: Some("read".into()),
        arguments: String::new(),
    });
    assert_eq!(
        collector.finish().unwrap_err(),
        "decode tool arguments: EOF while parsing a value at line 1 column 0"
    );
}

// ---------------------------------------------------------------------------
// Turns
// ---------------------------------------------------------------------------

#[test]
fn transient_errors_use_capped_backoff() {
    assert!(is_retryable("server returned 503: unavailable"));
    assert!(is_retryable("send completion request: connection refused"));
    assert!(!is_retryable("server returned 400: invalid request"));
    assert_eq!(
        (0..6).map(retry_delay).collect::<Vec<_>>(),
        [2, 5, 10, 30, 30, 30]
    );
}

#[test]
fn attempts_are_counted() {
    assert_eq!(next_attempt("Timed Out", 0), Some((2, 1)));
    assert_eq!(next_attempt("server returned 429: slow down", 7), Some((30, 8)));
    assert_eq!(next_attempt("bad request", 0), None);
}

#[test]
fn project_requests_serialize_and_coalesce() {
    let mut requests = ProjectRequests::new();
    assert_eq!(
        requests.request(ProjectRequest::Refresh),
        Some(ProjectRequest::Refresh)
    );
    // Requests arriving while one is in flight are coalesced, latest wins.
    assert_eq!(requests.request(ProjectRequest::Refresh), None);
    assert_eq!(requests.request(ProjectRequest::Diff(Some("a.rs".into()))), None);
    assert_eq!(requests.request(ProjectRequest::Diff(Some("b.rs".into()))), None);
    assert_eq!(
        requests.completed(),
        Some(ProjectRequest::Diff(Some("b.rs".into())))
    );
    // No pending work means no follow-up.
    assert_eq!(requests.completed(), None);
    assert_eq!(
        requests.request(ProjectRequest::Refresh),
        Some(ProjectRequest::Refresh)
    );
}

#[test]
fn session_title_cleanup_handles_json_and_empty_model_output() {
    assert_eq!(
        clean_session_title(r#"{"title":"Mouse Resizable Panes"}"#).as_deref(),
        Some("Mouse Resizable Panes")
    );
    assert_eq!(
        fallback_session_title(&vec![Message::user("single".into())]),
        "single Conversation"
    );
    assert_eq!(
        clean_session_title("Ржавчина Tools").as_deref(),
        Some("Ржавчина Tools")
    );
}

#[test]
fn titles_come_from_text_then_reasoning_then_the_user() {
    let messages = vec![Message::user("Fix the parser tests now please".into())];
    let said = |text: &str, reasoning: &str| Some((text.to_string(), reasoning.to_string()));
    assert_eq!(choose_title(said("Git Pane Scrolling", "x y"), &messages), "Git Pane Scrolling");
    assert_eq!(
        choose_title(said("", "considering options\nGit Pane Scrolling"), &messages),
        "Git Pane Scrolling"
    );
    assert_eq!(choose_title(None, &messages), fallback_session_title(&messages));
    assert_eq!(fallback_session_title(&vec![]), "New Conversation");
    assert_eq!(clean_session_title("  \n"), None);
}

#[test]
fn summaries_come_from_text_or_reasoning() {
    assert_eq!(summary_text(" dense ", "why").unwrap(), "dense");
    assert_eq!(summary_text("  ", " why ").unwrap(), "why");
    assert_eq!(
        summary_text("", " ").unwrap_err(),
        "compaction returned an empty summary"
    );
}

#[test]
fn a_turn_starts_behind_a_summary() {
    let messages = vec![Message::user("a".into()), Message::user("b".into())];
    assert_eq!(turn_estimate(&messages, 5_000), 5_000);
    assert_eq!(turn_estimate(&messages, 0), estimate_tokens(&messages));
    let (before, user) = split_for_summary(messages).unwrap();
    assert_eq!(before, [Message::user("a".into())]);
    assert_eq!(
        start_from_summary("s", user),
        [summary_as_message("s"), Message::user("b".into())]
    );
    assert_eq!(split_for_summary(vec![]).unwrap_err(), "missing user message");
}

#[test]
fn requests_follow_the_settings() {
    let mut config = Config {
        models: vec![model_config("gpt-5.6".into())],
        model: "gpt-5.6".into(),
        reasoning_effort: Some(ReasoningEffort::High),
        ..Config::default()
    };
    config.models[0].provider = "OpenAI".into();
    let request = turn_request(&config, vec![Message::user("hi".into())], Vec::new());
    assert_eq!(request.provider, "OpenAI");
    assert_eq!(request.model, "gpt-5.6");
    assert_eq!(request.temperature, None);
    assert_eq!(request.reasoning_effort, Some(ReasoningEffort::High));
    assert!(request.stream);
    let summary = summary_request(&config, &vec![Message::user("hi".into())]);
    assert_eq!(summary.reasoning_effort, Some(ReasoningEffort::Low));
    assert_eq!(summary.max_tokens, Some(4096));
    assert_eq!(summary.messages.len(), 2);
    assert!(title_request(&config, &vec![]).is_none());
    let title = title_request(&config, &vec![Message::user("hi".into())]).unwrap();
    assert!(title.messages[1].content().contains("hi"));
    assert_eq!(title.temperature, None);
    assert_eq!(title.max_tokens, Some(512));
    assert_eq!(title.reasoning_effort, Some(ReasoningEffort::Low));
}

#[test]
fn efforts_are_named() {
    for effort in [
        ReasoningEffort::Off,
        ReasoningEffort::Minimal,
        ReasoningEffort::Low,
        ReasoningEffort::Medium,
        ReasoningEffort::High,
        ReasoningEffort::XHigh,
        ReasoningEffort::Max,
    ] {
        assert_eq!(ReasoningEffort::parse(effort.name()), Ok(effort));
    }
    assert_eq!(ReasoningEffort::parse("none"), Ok(ReasoningEffort::Off));
    assert_eq!(
        ReasoningEffort::parse("huge").unwrap_err(),
        "reasoning effort must be none, minimal, low, medium, high, xhigh, or max"
    );
}

#[test]
fn work_that_is_handed_on_runs_alone() {
    let mut requests = ProjectRequests::default();
    assert_eq!(requests.request(ProjectRequest::Refresh), Some(ProjectRequest::Refresh));
    assert_eq!(requests.request(ProjectRequest::Diff(Some("a.rs".into()))), None);
    assert_eq!(requests.completed(), Some(ProjectRequest::Diff(Some("a.rs".into()))));
    assert_eq!(requests.request(ProjectRequest::Refresh), None);
    assert_eq!(requests.completed(), Some(ProjectRequest::Refresh));
    assert_eq!(requests.completed(), None);
    assert_eq!(requests.request(ProjectRequest::Refresh), Some(ProjectRequest::Refresh));
}

#[test]
fn a_marker_of_a_page_has_none() {
    let marker = web_result_marker(r#"{"url":"u","title":"t","content":"page"}"#).unwrap();
    assert_eq!(web_result_marker(&marker), None);
}

#[test]
fn failures_of_calls_are_told() {
    assert_eq!(denied("shell"), "tool shell was denied");
    assert_eq!(exhausted(), "context exhausted: no room left for a tool result");
    assert_eq!(
        decode_plan("[").unwrap_err(),
        "decode normalized execution plan: EOF while parsing a list at line 1 column 1"
    );
    assert_eq!(decode_plan("{}").unwrap_err(), "decode normalized execution plan");
}

#[test]
fn pieces_of_a_response_stay_in_order() {
    let mut collector = Collector::new();
    let call = |index, id: Option<&str>, arguments: &str| ResponseDelta::ToolCall {
        index,
        id: id.map(String::from),
        name: None,
        arguments: arguments.into(),
    };
    for delta in [
        ResponseDelta::Reasoning("a".into()),
        call(1, Some("x"), "{"),
        ResponseDelta::Text("t".into()),
        call(0, Some("y"), "1"),
        ResponseDelta::Reasoning("b".into()),
        call(1, Some("z"), "}"),
    ] {
        collector.take(delta);
    }
    assert_eq!(collector.reasoning, "ab");
    assert_eq!(collector.text, "t");
    assert_eq!(collector.calls[0].arguments, "1");
    assert_eq!(collector.calls[1].arguments, "{}");
    assert_eq!(collector.calls[1].id, "z");
}
