use rope::config::{Config, ProviderApi, ProviderConfig};
use rope::json::{parse, Json};
use rope::provider::body::{chat_body, is_done, response_error, responses_body};
use rope::provider::openai::{message_on_wire, model_ids, parse_delta, resource, OpenAiProvider};
use rope::provider::responses::ResponsesDecoder;
use rope::provider::{ResponseDelta, Usage};
use rope::runtime::message::{ImageContent, Message, ToolCall};
use rope::runtime::turn::CompletionRequest;
use rope::runtime::ReasoningEffort;
use rope::tool::registry::{FunctionDefinition, ToolDefinition};

fn json(text: &str) -> Json {
    parse(text).unwrap()
}

fn value(json: &Json) -> serde_json::Value {
    serde_json::from_str(&rope::json::write(json)).unwrap()
}

fn expected(text: &str) -> serde_json::Value {
    serde_json::from_str(text).unwrap()
}

fn image() -> ImageContent {
    ImageContent {
        mime_type: "image/png".into(),
        data: "aW1hZ2U=".into(),
        path: None,
        width: 1,
        height: 1,
    }
}

fn call() -> ToolCall {
    ToolCall {
        id: "call_1".into(),
        name: "read".into(),
        arguments: json(r#"{"path":"README.md"}"#),
    }
}

fn request(messages: Vec<Message>) -> CompletionRequest {
    CompletionRequest {
        provider: "local".into(),
        model: "model".into(),
        messages,
        temperature: Some(0.5f32.to_bits()),
        reasoning_effort: Some(ReasoningEffort::High),
        max_tokens: Some(100),
        stream: true,
        tools: Vec::new(),
    }
}

fn read_tool() -> ToolDefinition {
    ToolDefinition {
        kind: "function",
        function: FunctionDefinition {
            name: "read".into(),
            description: "read a file".into(),
            parameters: json(r#"{"type":"object"}"#),
        },
    }
}

#[test]
fn builds_routes_for_every_configured_provider() {
    let mut config = Config::default();
    config.providers = vec![
        ProviderConfig {
            name: "one".into(),
            base_url: "https://one.example/v1".into(),
            api_key: "first".into(),
            api: ProviderApi::Responses,
        },
        ProviderConfig {
            name: "two".into(),
            base_url: "https://two.example/v1".into(),
            api_key: "second".into(),
            api: ProviderApi::Responses,
        },
    ];

    let provider = OpenAiProvider::from_config(&config);

    assert_eq!(provider.endpoints.len(), 2);
    assert_eq!(provider.endpoint("two").unwrap().base_url, "https://two.example/v1");
}

#[test]
fn unknown_providers_are_refused() {
    let provider = OpenAiProvider::new("https://one.example/v1/".into(), "key".into());
    assert_eq!(provider.endpoint("default").unwrap().api_key, "key");
    assert_eq!(
        provider.endpoint("other").unwrap_err(),
        "provider other is not configured"
    );
    assert_eq!(
        resource("https://one.example/v1//", "/models"),
        "https://one.example/v1/models"
    );
}

#[test]
fn listed_models_are_sorted_and_told_once() {
    let ids = ["b", "a", " ", "b", ""].map(String::from).to_vec();
    assert_eq!(model_ids(&ids), ["a", "b"]);
}

#[test]
fn extracts_text_and_tool_deltas() {
    let text = r#"{"choices":[{"delta":{"content":"hello"}}]}"#;
    assert_eq!(
        parse_delta(text).unwrap(),
        vec![ResponseDelta::Text("hello".into())]
    );
    let tool = r#"{"choices":[{"delta":{"tool_calls":[{"index":0,"id":"call_1","function":{"name":"read","arguments":"{}"}}]}}]}"#;
    assert!(matches!(
        parse_delta(tool).unwrap()[0],
        ResponseDelta::ToolCall { index: 0, .. }
    ));

    let reasoning = r#"{"choices":[{"delta":{"reasoning":"think"}}]}"#;
    assert_eq!(
        parse_delta(reasoning).unwrap(),
        vec![ResponseDelta::Reasoning("think".into())]
    );

    let usage = r#"{"choices":[],"usage":{"prompt_tokens":200,"total_tokens":321}}"#;
    assert_eq!(
        parse_delta(usage).unwrap(),
        vec![ResponseDelta::Usage(Usage {
            prompt_tokens: 200,
            total_tokens: 321,
        })]
    );
    let legacy = r#"{"choices":[{"delta":{"reasoning_content":"legacy"}}]}"#;
    assert_eq!(
        parse_delta(legacy).unwrap(),
        vec![ResponseDelta::Reasoning("legacy".into())]
    );
}

#[test]
fn chunks_that_cannot_be_read_are_errors() {
    assert_eq!(
        parse_delta("{").unwrap_err(),
        "decode response chunk: EOF while parsing an object at line 1 column 1"
    );
    assert_eq!(
        parse_delta(r#"[[[["hi",null,null]]],[1,2]]"#).unwrap(),
        vec![
            ResponseDelta::Text("hi".into()),
            ResponseDelta::Usage(Usage { prompt_tokens: 1, total_tokens: 2 }),
        ]
    );
    for data in ["[]", r#"{"choices":[{"delta":{"content":1}}]}"#] {
        assert_eq!(parse_delta(data).unwrap_err(), "decode response chunk");
    }
    assert_eq!(parse_delta("{}").unwrap(), vec![]);
}

#[test]
fn image_tool_results_use_multimodal_content_parts() {
    let message = Message::tool(
        "call_1".into(),
        "viewed image.png".into(),
        Some(image()),
        None,
    );
    let value = value(&message_on_wire(&message));

    assert_eq!(value["content"][1]["type"], "image_url");
    assert_eq!(
        value["content"][1]["image_url"]["url"],
        "data:image/png;base64,aW1hZ2U="
    );
}

#[test]
fn user_images_use_multimodal_content_parts() {
    let message = Message::user_with_images("describe this".into(), vec![image()]);
    let value = value(&message_on_wire(&message));

    assert_eq!(value["content"][0]["text"], "describe this");
    assert_eq!(value["content"][1]["type"], "image_url");
    assert_eq!(
        value["content"][1]["image_url"]["url"],
        "data:image/png;base64,aW1hZ2U="
    );
}

#[test]
fn chat_requests_carry_messages_and_tools() {
    let mut request = request(vec![
        Message::system("be brief".into()),
        Message::assistant(String::new(), "model".into(), "why".into(), vec![call()]),
        Message::tool("call_1".into(), "text".into(), None, None),
    ]);
    request.tools.push(read_tool());
    assert_eq!(
        value(&chat_body(&request, Some("0.5"))),
        expected(
            r#"{
            "model": "model",
            "messages": [
                {"role": "system", "content": "be brief"},
                {"role": "assistant", "tool_calls": [{"id": "call_1", "type": "function",
                    "function": {"name": "read", "arguments": "{\"path\":\"README.md\"}"}}]},
                {"role": "tool", "content": "text", "tool_call_id": "call_1"}
            ],
            "temperature": 0.5,
            "reasoning_effort": "high",
            "max_completion_tokens": 100,
            "stream": true,
            "stream_options": {"include_usage": true},
            "tools": [{"type": "function", "function": {"name": "read",
                "description": "read a file", "parameters": {"type": "object"}}}]
        }"#
        )
    );
}

#[test]
fn chat_requests_leave_out_what_is_not_set() {
    let mut request = request(vec![Message::user("hello".into())]);
    request.reasoning_effort = None;
    request.max_tokens = None;
    assert_eq!(
        value(&chat_body(&request, None)),
        expected(
            r#"{"model": "model", "messages": [{"role": "user", "content": "hello"}],
            "stream": true, "stream_options": {"include_usage": true}}"#
        )
    );
}

#[test]
fn builds_stateless_request_and_replays_output_items() {
    let reasoning = json(
        r#"{
            "id": "rs_1",
            "type": "reasoning",
            "status": "completed",
            "summary": [],
            "encrypted_content": "opaque"
        }"#,
    );
    let function_call = json(
        r#"{
            "id": "fc_1",
            "type": "function_call",
            "call_id": "call_1",
            "status": "completed",
            "name": "read",
            "arguments": "{\"path\":\"README.md\"}"
        }"#,
    );
    let assistant = Message::Assistant {
        content: String::new(),
        model: "model".into(),
        reasoning: String::new(),
        tool_calls: vec![call()],
        response_items: vec![reasoning, function_call],
    };
    let value = value(&responses_body(&request(vec![assistant]), Some("0.5")));

    assert_eq!(value["store"], false);
    assert_eq!(value["include"][0], "reasoning.encrypted_content");
    assert_eq!(value["reasoning"]["context"], "all_turns");
    assert_eq!(
        value["input"],
        expected(
            r#"[
                {
                    "id": "rs_1",
                    "type": "reasoning",
                    "summary": [],
                    "encrypted_content": "opaque"
                },
                {
                    "id": "fc_1",
                    "type": "function_call",
                    "call_id": "call_1",
                    "name": "read",
                    "arguments": "{\"path\":\"README.md\"}"
                }
            ]"#
        )
    );
}

#[test]
fn model_switch_rebuilds_portable_assistant_items() {
    let assistant = Message::Assistant {
        content: "done".into(),
        model: "previous-model".into(),
        reasoning: "private reasoning".into(),
        tool_calls: vec![call()],
        response_items: vec![
            json(
                r#"{
                    "id": "rs_1",
                    "type": "reasoning",
                    "status": "completed",
                    "encrypted_content": "model-specific"
                }"#,
            ),
            json(
                r#"{
                    "id": "fc_1",
                    "type": "function_call",
                    "call_id": "call_1",
                    "status": "completed",
                    "name": "read",
                    "arguments": "{}"
                }"#,
            ),
        ],
    };
    let value = value(&responses_body(&request(vec![assistant]), Some("0.5")));

    assert_eq!(
        value["input"],
        expected(
            r#"[
                { "role": "assistant", "content": "done" },
                {
                    "type": "function_call",
                    "call_id": "call_1",
                    "name": "read",
                    "arguments": "{\"path\":\"README.md\"}"
                }
            ]"#
        )
    );
}

#[test]
fn converts_tools_and_multimodal_tool_results() {
    let mut request = request(vec![Message::tool(
        "call_1".into(),
        "image".into(),
        Some(image()),
        None,
    )]);
    request.tools.push(read_tool());
    let value = value(&responses_body(&request, Some("0.5")));

    assert_eq!(value["tools"][0]["name"], "read");
    assert_eq!(value["input"][0]["type"], "function_call_output");
    assert_eq!(value["input"][0]["output"][1]["type"], "input_image");
}

#[test]
fn responses_requests_carry_settings() {
    let value = value(&responses_body(&request(vec![Message::user("hi".into())]), Some("1.0")));
    assert_eq!(
        value,
        expected(
            r#"{"model": "model", "input": [{"role": "user", "content": "hi"}],
            "temperature": 1.0,
            "reasoning": {"effort": "high", "context": "all_turns", "summary": "auto"},
            "max_output_tokens": 100, "stream": true, "store": false,
            "include": ["reasoning.encrypted_content"]}"#
        )
    );
}

#[test]
fn decodes_text_reasoning_tools_items_and_usage() {
    let mut decoder = ResponsesDecoder::new();
    assert_eq!(
        decoder
            .parse(r#"{"type":"response.output_text.delta","delta":"hello"}"#)
            .unwrap(),
        vec![ResponseDelta::Text("hello".into())]
    );
    assert_eq!(
        decoder
            .parse(r#"{"type":"response.reasoning_summary_text.delta","delta":"think"}"#)
            .unwrap(),
        vec![ResponseDelta::Reasoning("think".into())]
    );
    let added = decoder
        .parse(r#"{"type":"response.output_item.added","output_index":1,"item":{"id":"fc_1","type":"function_call","call_id":"call_1","name":"read","arguments":""}}"#)
        .unwrap();
    assert!(matches!(
        &added[0],
        ResponseDelta::ToolCall { index: 0, id: Some(id), .. } if id == "call_1"
    ));
    decoder
        .parse(r#"{"type":"response.function_call_arguments.delta","item_id":"fc_1","output_index":1,"delta":"{}"}"#)
        .unwrap();
    let item = decoder
        .parse(r#"{"type":"response.output_item.done","output_index":1,"item":{"id":"fc_1","type":"function_call","call_id":"call_1","name":"read","arguments":"{}"}}"#)
        .unwrap();
    assert_eq!(
        item,
        vec![ResponseDelta::OutputItem(json(
            r#"{
                "id": "fc_1",
                "type": "function_call",
                "call_id": "call_1",
                "name": "read",
                "arguments": "{}"
            }"#
        ))]
    );
    assert_eq!(
        decoder
            .parse(r#"{"type":"response.completed","response":{"usage":{"input_tokens":20,"total_tokens":35}}}"#)
            .unwrap(),
        vec![ResponseDelta::Usage(Usage {
            prompt_tokens: 20,
            total_tokens: 35,
        })]
    );
}

#[test]
fn arguments_that_were_not_streamed_come_with_the_item() {
    let mut decoder = ResponsesDecoder::new();
    let deltas = decoder
        .parse(r#"{"type":"response.output_item.done","output_index":0,"item":{"id":"fc_1","type":"function_call","call_id":"call_1","name":"read","arguments":"{\"a\":1}"}}"#)
        .unwrap();
    let mut arguments = String::new();
    for delta in &deltas {
        if let ResponseDelta::ToolCall { index, arguments: more, .. } = delta {
            assert_eq!(*index, 0);
            arguments.push_str(more);
        }
    }
    assert_eq!(arguments, r#"{"a":1}"#);
}

#[test]
fn failed_responses_are_errors() {
    let mut decoder = ResponsesDecoder::new();
    assert!(decoder
        .parse(r#"{"type":"response.failed","response":{"error":{"message":"overloaded"}}}"#)
        .is_err());
    assert!(decoder.parse(r#"{"type":"error","message":"bad"}"#).is_err());
    assert!(decoder.parse("not json").is_err());
    assert_eq!(decoder.parse(r#"{"type":"response.created"}"#).unwrap(), vec![]);
}

#[test]
fn the_end_of_an_answer_is_told() {
    assert!(is_done("[DONE]"));
    assert!(!is_done("{}"));
    assert_eq!(
        response_error("503 Service Unavailable", "busy"),
        "server returned 503 Service Unavailable: busy"
    );
}
