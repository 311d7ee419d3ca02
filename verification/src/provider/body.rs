//! The bodies of requests.
use super::openai::{message_on_wire, wire_message};
use super::responses::{all_items, input_items};
use crate::json;
use crate::json::{Json, JsonView};
use crate::runtime::message::MessageView;
use crate::runtime::turn::{CompletionRequest, RequestView};
use crate::runtime::{effort_name, ReasoningEffort};
use crate::text;
use crate::tool::registry::{DefinitionView, ToolDefinition};
use vstd::prelude::*;
use vstd::string::*;

verus! {

/// An entry where there is a value for it.
pub open spec fn maybe(key: Seq<char>, value: Option<JsonView>) -> Seq<(Seq<char>, JsonView)> {
    match value {
        Some(value) => seq![(key, value)],
        None => Seq::empty(),
    }
}

/// A list where it is not empty.
pub open spec fn list(items: Seq<JsonView>) -> Option<JsonView> {
    if items.len() > 0 {
        Some(JsonView::Array(items))
    } else {
        None
    }
}

/// A number by its text.
pub open spec fn number(written: Option<Seq<char>>) -> Option<JsonView> {
    match written {
        Some(written) => Some(JsonView::Decimal(written)),
        None => None,
    }
}

pub open spec fn limit(tokens: Option<u32>) -> Option<JsonView> {
    match tokens {
        Some(tokens) => Some(JsonView::Unsigned(tokens as u64)),
        None => None,
    }
}

/// A tool in a request to Chat Completions.
pub open spec fn chat_tool(tool: DefinitionView) -> JsonView {
    JsonView::Object(
        seq![
            ("type"@, JsonView::Text(tool.kind)),
            (
                "function"@,
                JsonView::Object(
                    seq![
                        ("name"@, JsonView::Text(tool.function.name)),
                        ("description"@, JsonView::Text(tool.function.description)),
                        ("parameters"@, tool.function.parameters),
                    ],
                ),
            ),
        ],
    )
}

/// A tool in a request to Responses.
pub open spec fn response_tool(tool: DefinitionView) -> JsonView {
    JsonView::Object(
        seq![
            ("type"@, JsonView::Text("function"@)),
            ("name"@, JsonView::Text(tool.function.name)),
            ("description"@, JsonView::Text(tool.function.description)),
            ("parameters"@, tool.function.parameters),
        ],
    )
}

/// The entries of a request to Chat Completions.
pub open spec fn chat_entries(request: RequestView, temperature: Option<Seq<char>>) -> Seq<
    (Seq<char>, JsonView),
> {
    seq![
        ("model"@, JsonView::Text(request.model)),
        (
            "messages"@,
            JsonView::Array(request.messages.map_values(|m: MessageView| wire_message(m))),
        ),
    ] + maybe("temperature"@, number(temperature)) + maybe(
        "reasoning_effort"@,
        match request.reasoning_effort {
            Some(effort) => Some(JsonView::Text(effort_name(effort))),
            None => None,
        },
    ) + maybe("max_completion_tokens"@, limit(request.max_tokens)) + seq![
        ("stream"@, JsonView::Bool(request.stream)),
        (
            "stream_options"@,
            JsonView::Object(seq![("include_usage"@, JsonView::Bool(true))]),
        ),
    ] + maybe("tools"@, list(request.tools.map_values(|t: DefinitionView| chat_tool(t))))
}

/// How a model that reasons is asked to.
pub open spec fn reasoning(effort: ReasoningEffort) -> JsonView {
    JsonView::Object(
        seq![
            ("effort"@, JsonView::Text(effort_name(effort))),
            ("context"@, JsonView::Text("all_turns"@)),
            ("summary"@, JsonView::Text("auto"@)),
        ],
    )
}

/// The entries of a request to Responses.
pub open spec fn response_entries(request: RequestView, temperature: Option<Seq<char>>) -> Seq<
    (Seq<char>, JsonView),
> {
    seq![
        ("model"@, JsonView::Text(request.model)),
        ("input"@, JsonView::Array(all_items(request.messages, request.model))),
    ] + maybe("temperature"@, number(temperature)) + maybe(
        "reasoning"@,
        match request.reasoning_effort {
            Some(effort) => Some(reasoning(effort)),
            None => None,
        },
    ) + maybe("max_output_tokens"@, limit(request.max_tokens)) + seq![
        ("stream"@, JsonView::Bool(request.stream)),
        ("store"@, JsonView::Bool(false)),
        (
            "include"@,
            JsonView::Array(seq![JsonView::Text("reasoning.encrypted_content"@)]),
        ),
    ] + maybe("tools"@, list(request.tools.map_values(|t: DefinitionView| response_tool(t))))
}

fn put_some(entries: &mut Vec<(String, Json)>, key: &str, value: Option<Json>)
    ensures
        final(entries).deep_view() == old(entries).deep_view() + maybe(key@, value.deep_view()),
{
    let ghost before = entries.deep_view();
    match value {
        Some(value) => json::enter(entries, key, value),
        None => {
            assert(entries.deep_view() =~= before + maybe(key@, None));
        },
    }
}

fn number_of(written: Option<&str>) -> (result: Option<Json>)
    ensures
        result.deep_view() == number(written.deep_view()),
{
    match written {
        Some(written) => Some(Json::Decimal(written.to_owned())),
        None => None,
    }
}

fn limit_of(tokens: Option<u32>) -> (result: Option<Json>)
    ensures
        result.deep_view() == limit(tokens),
{
    match tokens {
        Some(tokens) => Some(Json::Unsigned(tokens as u64)),
        None => None,
    }
}

fn list_of(items: Vec<Json>) -> (result: Option<Json>)
    ensures
        result.deep_view() == list(items.deep_view()),
{
    if items.len() > 0 {
        Some(json::array(items))
    } else {
        None
    }
}

fn chat_tools(tools: &Vec<ToolDefinition>) -> (result: Vec<Json>)
    ensures
        result.deep_view() == tools.deep_view().map_values(|t: DefinitionView| chat_tool(t)),
{
    let mut items: Vec<Json> = Vec::new();
    let mut i: usize = 0;
    while i < tools.len()
        invariant
            i <= tools@.len(),
            items@.len() == i,
            forall|k: int|
                0 <= k < i ==> (#[trigger] items@[k]).deep_view() == chat_tool(
                    tools@[k].deep_view(),
                ),
        decreases tools@.len() - i,
    {
        let tool = &tools[i];
        let mut function = json::no_entries();
        json::enter(&mut function, "name", Json::text(tool.function.name.as_str()));
        json::enter(&mut function, "description", Json::text(tool.function.description.as_str()));
        json::enter(&mut function, "parameters", tool.function.parameters.clone());
        let mut entries = json::no_entries();
        let ghost inner = function.deep_view();
        json::enter(&mut entries, "type", Json::text(tool.kind));
        json::enter(&mut entries, "function", json::object(function));
        proof {
            let expected = chat_tool(tool.deep_view());
            assert(inner =~= expected->Object_0[1].1->Object_0);
            assert(entries.deep_view() =~= expected->Object_0);
        }
        items.push(json::object(entries));
        i += 1;
    }
    assert(items.deep_view() =~= tools.deep_view().map_values(|t: DefinitionView| chat_tool(t)));
    items
}

fn response_tools(tools: &Vec<ToolDefinition>) -> (result: Vec<Json>)
    ensures
        result.deep_view() == tools.deep_view().map_values(|t: DefinitionView| response_tool(t)),
{
    let mut items: Vec<Json> = Vec::new();
    let mut i: usize = 0;
    while i < tools.len()
        invariant
            i <= tools@.len(),
            items@.len() == i,
            forall|k: int|
                0 <= k < i ==> (#[trigger] items@[k]).deep_view() == response_tool(
                    tools@[k].deep_view(),
                ),
        decreases tools@.len() - i,
    {
        let tool = &tools[i];
        let mut entries = json::no_entries();
        json::enter(&mut entries, "type", Json::text("function"));
        json::enter(&mut entries, "name", Json::text(tool.function.name.as_str()));
        json::enter(&mut entries, "description", Json::text(tool.function.description.as_str()));
        json::enter(&mut entries, "parameters", tool.function.parameters.clone());
        assert(entries.deep_view() =~= response_tool(tool.deep_view())->Object_0);
        items.push(json::object(entries));
        i += 1;
    }
    assert(items.deep_view() =~= tools.deep_view().map_values(
        |t: DefinitionView| response_tool(t),
    ));
    items
}

/// The body of a request to Chat Completions. The temperature is given as its text.
pub fn chat_body(request: &CompletionRequest, temperature: Option<&str>) -> (body: Json)
    ensures
        body.deep_view() == JsonView::Object(
            chat_entries(request.deep_view(), temperature.deep_view()),
        ),
{
    let mut messages: Vec<Json> = Vec::new();
    let mut i: usize = 0;
    while i < request.messages.len()
        invariant
            i <= request.messages@.len(),
            messages@.len() == i,
            forall|k: int|
                0 <= k < i ==> (#[trigger] messages@[k]).deep_view() == wire_message(
                    request.messages@[k].deep_view(),
                ),
        decreases request.messages@.len() - i,
    {
        messages.push(message_on_wire(&request.messages[i]));
        i += 1;
    }
    assert(messages.deep_view() =~= request.messages.deep_view().map_values(
        |m: MessageView| wire_message(m),
    ));
    let mut options = json::no_entries();
    json::enter(&mut options, "include_usage", Json::Bool(true));
    assert(options.deep_view() =~= seq![("include_usage"@, JsonView::Bool(true))]);
    let effort = match request.reasoning_effort {
        Some(effort) => Some(Json::text(effort.name())),
        None => None,
    };
    let mut entries = json::no_entries();
    json::enter(&mut entries, "model", Json::text(request.model.as_str()));
    json::enter(&mut entries, "messages", json::array(messages));
    put_some(&mut entries, "temperature", number_of(temperature));
    put_some(&mut entries, "reasoning_effort", effort);
    put_some(&mut entries, "max_completion_tokens", limit_of(request.max_tokens));
    json::enter(&mut entries, "stream", Json::Bool(request.stream));
    json::enter(&mut entries, "stream_options", json::object(options));
    put_some(&mut entries, "tools", list_of(chat_tools(&request.tools)));
    assert(entries.deep_view() =~= chat_entries(request.deep_view(), temperature.deep_view()));
    json::object(entries)
}

/// The body of a request to Responses. The temperature is given as its text.
pub fn responses_body(request: &CompletionRequest, temperature: Option<&str>) -> (body: Json)
    ensures
        body.deep_view() == JsonView::Object(
            response_entries(request.deep_view(), temperature.deep_view()),
        ),
{
    let asked = match request.reasoning_effort {
        Some(effort) => {
            let mut entries = json::no_entries();
            json::enter(&mut entries, "effort", Json::text(effort.name()));
            json::enter(&mut entries, "context", Json::text("all_turns"));
            json::enter(&mut entries, "summary", Json::text("auto"));
            assert(entries.deep_view() =~= reasoning(effort)->Object_0);
            Some(json::object(entries))
        },
        None => None,
    };
    let mut included: Vec<Json> = Vec::new();
    included.push(Json::text("reasoning.encrypted_content"));
    assert(included.deep_view() =~= seq![JsonView::Text("reasoning.encrypted_content"@)]);
    let mut entries = json::no_entries();
    json::enter(&mut entries, "model", Json::text(request.model.as_str()));
    json::enter(&mut entries, "input", json::array(input_items(&request.messages, request.model.as_str())));
    put_some(&mut entries, "temperature", number_of(temperature));
    put_some(&mut entries, "reasoning", asked);
    put_some(&mut entries, "max_output_tokens", limit_of(request.max_tokens));
    json::enter(&mut entries, "stream", Json::Bool(request.stream));
    json::enter(&mut entries, "store", Json::Bool(false));
    json::enter(&mut entries, "include", json::array(included));
    put_some(&mut entries, "tools", list_of(response_tools(&request.tools)));
    assert(entries.deep_view() =~= response_entries(request.deep_view(), temperature.deep_view()));
    json::object(entries)
}

/// Whether an event only says that the answer is at its end.
pub fn is_done(data: &str) -> (result: bool)
    ensures
        result == (data@ == "[DONE]"@),
{
    text::same(data, "[DONE]")
}

/// What is wrong where a server does not answer with success.
pub fn response_error(status: &str, body: &str) -> (error: String)
    ensures
        error@ == "server returned "@ + status@ + ": "@ + body@,
{
    let mut error = text::join_three("server returned ", status, ": ");
    error.append(body);
    error
}

} // verus!
