//! The Chat Completions protocol, and the endpoints that speak it.
use super::responses::{data_url, image_url};
use super::{DeltaView, ResponseDelta, Usage};
use crate::config::{Config, ProviderApi, ProviderConfig, ProviderView};
use crate::json;
use crate::json::{fields_of, json_fault, read_json, written, Json, JsonView};
use crate::runtime::message::{
    ImageContent, ImageView, Message, MessageView, ToolCall, ToolCallView,
};
use crate::text;
use crate::text::{less, less_is_total, less_is_transitive, trim, trim_end_char};
use vstd::prelude::*;
use vstd::string::*;

verus! {

// ---------------------------------------------------------------------------
// Endpoints
// ---------------------------------------------------------------------------

/// Where the models of the providers are reached.
#[derive(Debug, PartialEq)]
pub struct OpenAiProvider {
    pub endpoints: Vec<ProviderConfig>,
}

/// The last endpoint with `name`.
pub open spec fn endpoint_named(endpoints: Seq<ProviderView>, name: Seq<char>) -> Option<
    ProviderView,
>
    decreases endpoints.len(),
{
    if endpoints.len() == 0 {
        None
    } else if endpoints.last().name == name {
        Some(endpoints.last())
    } else {
        endpoint_named(endpoints.drop_last(), name)
    }
}

impl OpenAiProvider {
    /// One endpoint, under the name `default`.
    pub fn new(base_url: String, api_key: String) -> (result: Self)
        ensures
            result.endpoints.deep_view() == seq![
                ProviderView {
                    name: "default"@,
                    base_url: base_url@,
                    api_key: api_key@,
                    api: ProviderApi::Responses,
                },
            ],
    {
        let mut endpoints: Vec<ProviderConfig> = Vec::new();
        endpoints.push(
            ProviderConfig {
                name: "default".to_owned(),
                base_url,
                api_key,
                api: ProviderApi::Responses,
            },
        );
        assert(endpoints.deep_view() =~= seq![endpoints@[0].deep_view()]);
        OpenAiProvider { endpoints }
    }

    /// The endpoints of all providers.
    pub fn from_config(config: &Config) -> (result: Self)
        ensures
            result.endpoints.deep_view() == config.providers.deep_view(),
    {
        let endpoints = config.providers.clone();
        assert(endpoints.deep_view() =~= config.providers.deep_view());
        OpenAiProvider { endpoints }
    }

    /// The endpoint of a provider.
    pub fn endpoint(&self, name: &str) -> (result: Result<&ProviderConfig, String>)
        ensures
            match result {
                Ok(endpoint) => endpoint_named(self.endpoints.deep_view(), name@) == Some(
                    endpoint.deep_view(),
                ),
                Err(error) => endpoint_named(self.endpoints.deep_view(), name@) is None && error@
                    == "provider "@ + name@ + " is not configured"@,
            },
    {
        let ghost all = self.endpoints.deep_view();
        let mut i: usize = self.endpoints.len();
        assert(all.take(i as int) =~= all);
        while i > 0
            invariant
                all == self.endpoints.deep_view(),
                i <= self.endpoints@.len(),
                endpoint_named(all, name@) == endpoint_named(all.take(i as int), name@),
            decreases i,
        {
            i -= 1;
            proof {
                assert(all.take(i + 1).drop_last() =~= all.take(i as int));
                assert(all.take(i + 1).last() == self.endpoints@[i as int].deep_view());
            }
            if text::same(self.endpoints[i].name.as_str(), name) {
                return Ok(&self.endpoints[i]);
            }
        }
        Err(text::join_three("provider ", name, " is not configured"))
    }
}

/// The address of a resource of an endpoint.
pub fn resource(base_url: &str, path: &str) -> (url: String)
    ensures
        url@ == trim_end_char(base_url@, '/') + path@,
{
    let base = text::without_trailing(base_url, '/');
    text::join_two(base.as_str(), path)
}

// ---------------------------------------------------------------------------
// Lists of models
// ---------------------------------------------------------------------------

/// The texts stand in order, each once.
pub open spec fn ascending(texts: Seq<Seq<char>>) -> bool {
    forall|i: int, j: int|
        0 <= i < j < texts.len() ==> less(#[trigger] texts[i], #[trigger] texts[j])
}

/// Puts `item` in its place, unless it is there.
fn put_in(texts: &mut Vec<String>, item: &str)
    requires
        ascending(old(texts).deep_view()),
    ensures
        ascending(final(texts).deep_view()),
        forall|t: Seq<char>| #[trigger]
            final(texts).deep_view().contains(t) <==> old(texts).deep_view().contains(t) || t
                == item@,
{
    let ghost all = texts.deep_view();
    let mut at: usize = texts.len();
    while at > 0 && !text::is_less(texts[at - 1].as_str(), item)
        invariant
            at <= texts@.len(),
            all == texts.deep_view(),
            forall|k: int| at <= k < all.len() ==> !less(#[trigger] all[k], item@),
        decreases at,
    {
        at -= 1;
    }
    proof {
        assert forall|k: int| 0 <= k < at implies less(#[trigger] all[k], item@) by {
            assert(less(all[at - 1], item@)) by {
                assert(all[at - 1] == texts@[at - 1]@);
            }
            if k < at - 1 {
                less_is_transitive(all[k], all[at - 1], item@);
            }
        }
    }
    if at < texts.len() && text::same(texts[at].as_str(), item) {
        assert(all[at as int] == item@);
        return;
    }
    texts.insert(at, item.to_owned());
    proof {
        let now = texts.deep_view();
        assert(now =~= all.insert(at as int, item@));
        assert forall|k: int| at <= k < all.len() implies less(item@, #[trigger] all[k]) by {
            if at < all.len() {
                less_is_total(all[at as int], item@);
                assert(all[at as int] == texts@[at + 1]@);
                assert(less(item@, all[at as int]));
                if k > at {
                    less_is_transitive(item@, all[at as int], all[k]);
                }
            }
        }
        assert forall|i: int, j: int| 0 <= i < j < now.len() implies less(
            #[trigger] now[i],
            #[trigger] now[j],
        ) by {
            let x = if i < at {
                i
            } else {
                i - 1
            };
            let y = if j < at {
                j
            } else {
                j - 1
            };
            if i == at {
                assert(now[j] == all[y]);
            } else if j == at {
                assert(now[i] == all[x]);
            } else {
                assert(now[i] == all[x] && now[j] == all[y]);
            }
        }
        assert forall|t: Seq<char>| #[trigger] now.contains(t) <==> all.contains(t) || t
            == item@ by {
            if all.contains(t) {
                let k = choose|k: int| 0 <= k < all.len() && all[k] == t;
                if k < at {
                    assert(now[k] == t);
                } else {
                    assert(now[k + 1] == t);
                }
            }
            if t == item@ {
                assert(now[at as int] == t);
            }
            if now.contains(t) {
                let k = choose|k: int| 0 <= k < now.len() && now[k] == t;
                if k < at {
                    assert(all[k] == t);
                } else if k > at {
                    assert(all[k - 1] == t);
                }
            }
        }
    }
}

/// The models of a list that have an id: in order, each once.
pub fn model_ids(ids: &Vec<String>) -> (result: Vec<String>)
    ensures
        ascending(result.deep_view()),
        forall|t: Seq<char>| #[trigger]
            result.deep_view().contains(t) <==> ids.deep_view().contains(t) && trim(t).len() > 0,
{
    let ghost all = ids.deep_view();
    let mut result: Vec<String> = Vec::new();
    let mut i: usize = 0;
    while i < ids.len()
        invariant
            all == ids.deep_view(),
            i <= ids@.len(),
            ascending(result.deep_view()),
            forall|t: Seq<char>| #[trigger]
                result.deep_view().contains(t) <==> all.take(i as int).contains(t) && trim(
                    t,
                ).len() > 0,
        decreases ids@.len() - i,
    {
        let ghost before = result.deep_view();
        let name = text::trimmed(ids[i].as_str());
        if !name.as_str().is_empty() {
            put_in(&mut result, ids[i].as_str());
        }
        proof {
            let item = all[i as int];
            let a = all.take(i as int);
            let b = all.take(i + 1);
            assert(b =~= a.push(item));
            assert forall|t: Seq<char>| #[trigger]
                result.deep_view().contains(t) <==> b.contains(t) && trim(t).len() > 0 by {
                if a.contains(t) {
                    let k = choose|k: int| 0 <= k < a.len() && a[k] == t;
                    assert(b[k] == t);
                }
                if t == item {
                    assert(b[i as int] == t);
                }
                if b.contains(t) && t != item {
                    let k = choose|k: int| 0 <= k < b.len() && b[k] == t;
                    assert(a[k] == t);
                }
                assert(before.contains(t) <==> a.contains(t) && trim(t).len() > 0);
            }
        }
        i += 1;
    }
    assert(all.take(i as int) =~= all);
    result
}

// ---------------------------------------------------------------------------
// Requests
// ---------------------------------------------------------------------------

pub open spec fn wire_text_part(content: Seq<char>) -> JsonView {
    JsonView::Object(seq![("type"@, JsonView::Text("text"@)), ("text"@, JsonView::Text(content))])
}

pub open spec fn wire_image_part(image: ImageView) -> JsonView {
    JsonView::Object(
        seq![
            ("type"@, JsonView::Text("image_url"@)),
            (
                "image_url"@,
                JsonView::Object(seq![("url"@, JsonView::Text(data_url(image)))]),
            ),
        ],
    )
}

/// Text, where there is any, and images behind it.
pub open spec fn wire_parts(content: Seq<char>, images: Seq<ImageView>) -> JsonView {
    JsonView::Array(
        (if content.len() > 0 {
            seq![wire_text_part(content)]
        } else {
            Seq::empty()
        }) + images.map_values(|i: ImageView| wire_image_part(i)),
    )
}

pub open spec fn wire_call(call: ToolCallView) -> JsonView {
    JsonView::Object(
        seq![
            ("id"@, JsonView::Text(call.id)),
            ("type"@, JsonView::Text("function"@)),
            (
                "function"@,
                JsonView::Object(
                    seq![
                        ("name"@, JsonView::Text(call.name)),
                        ("arguments"@, JsonView::Text(written(call.arguments))),
                    ],
                ),
            ),
        ],
    )
}

pub open spec fn wire_user(content: Seq<char>, images: Seq<ImageView>) -> JsonView {
    if images.len() == 0 {
        JsonView::Text(content)
    } else {
        wire_parts(content, images)
    }
}

/// A message as a request carries it.
pub open spec fn wire_message(message: MessageView) -> JsonView {
    JsonView::Object(
        match message {
            MessageView::System { content } => seq![
                ("role"@, JsonView::Text("system"@)),
                ("content"@, JsonView::Text(content)),
            ],
            MessageView::User { content, images } => seq![
                ("role"@, JsonView::Text("user"@)),
                ("content"@, wire_user(content, images)),
            ],
            MessageView::Steer { content, images } => seq![
                ("role"@, JsonView::Text("user"@)),
                ("content"@, wire_user(content, images)),
            ],
            MessageView::Assistant { content, tool_calls, .. } => seq![
                ("role"@, JsonView::Text("assistant"@)),
            ] + (if content.len() > 0 {
                seq![("content"@, JsonView::Text(content))]
            } else {
                Seq::empty()
            }) + (if tool_calls.len() > 0 {
                seq![
                    (
                        "tool_calls"@,
                        JsonView::Array(tool_calls.map_values(|c: ToolCallView| wire_call(c))),
                    ),
                ]
            } else {
                Seq::empty()
            }),
            MessageView::Tool { call_id, content, image, .. } => seq![
                ("role"@, JsonView::Text("tool"@)),
                (
                    "content"@,
                    match image {
                        Some(image) => wire_parts(content, seq![image]),
                        None => JsonView::Text(content),
                    },
                ),
                ("tool_call_id"@, JsonView::Text(call_id)),
            ],
        },
    )
}

/// Text, where there is any, and images behind it.
pub fn multimodal_content(content: &str, images: &Vec<ImageContent>) -> (result: Json)
    ensures
        result.deep_view() == wire_parts(content@, images.deep_view()),
{
    let mut parts: Vec<Json> = Vec::new();
    if !content.is_empty() {
        let mut entries: Vec<(String, Json)> = Vec::new();
        entries.push(("type".to_owned(), Json::text("text")));
        entries.push(("text".to_owned(), Json::text(content)));
        assert(entries.deep_view() =~= wire_text_part(content@)->Object_0);
        parts.push(json::object(entries));
    }
    let ghost all = images.deep_view();
    let ghost head = parts.deep_view();
    let ghost f = |i: ImageView| wire_image_part(i);
    let mut i: usize = 0;
    assert(parts.deep_view() =~= head + all.take(0).map_values(f));
    while i < images.len()
        invariant
            all == images.deep_view(),
            f == (|i: ImageView| wire_image_part(i)),
            i <= images@.len(),
            parts.deep_view() == head + all.take(i as int).map_values(f),
        decreases images@.len() - i,
    {
        let ghost before = parts.deep_view();
        let mut inner: Vec<(String, Json)> = Vec::new();
        inner.push(("url".to_owned(), Json::Text(image_url(&images[i]))));
        assert(inner.deep_view() =~= seq![
            ("url"@, JsonView::Text(data_url(images@[i as int].deep_view()))),
        ]);
        let mut entries: Vec<(String, Json)> = Vec::new();
        entries.push(("type".to_owned(), Json::text("image_url")));
        entries.push(("image_url".to_owned(), json::object(inner)));
        assert(entries.deep_view() =~= wire_image_part(images@[i as int].deep_view())->Object_0);
        parts.push(json::object(entries));
        proof {
            assert(all.take(i + 1).map_values(f) =~= all.take(i as int).map_values(f).push(
                f(all[i as int]),
            ));
            assert(parts.deep_view() =~= before.push(wire_image_part(all[i as int])));
            assert(parts.deep_view() =~= head + all.take(i + 1).map_values(f));
        }
        i += 1;
    }
    proof {
        assert(all.take(i as int) =~= all);
        if content@.len() > 0 {
            assert(head =~= seq![wire_text_part(content@)]);
        } else {
            assert(head =~= Seq::empty());
        }
        json::json_view_array(parts);
    }
    Json::Array(parts)
}

fn user_content(content: &str, images: &Vec<ImageContent>) -> (result: Json)
    ensures
        result.deep_view() == wire_user(content@, images.deep_view()),
{
    if images.len() == 0 {
        Json::text(content)
    } else {
        multimodal_content(content, images)
    }
}

fn wire_calls(calls: &Vec<ToolCall>) -> (result: Json)
    ensures
        result.deep_view() == JsonView::Array(
            calls.deep_view().map_values(|c: ToolCallView| wire_call(c)),
        ),
{
    let mut items: Vec<Json> = Vec::new();
    let mut i: usize = 0;
    while i < calls.len()
        invariant
            i <= calls@.len(),
            items@.len() == i,
            forall|k: int|
                0 <= k < i ==> (#[trigger] items@[k]).deep_view() == wire_call(
                    calls@[k].deep_view(),
                ),
        decreases calls@.len() - i,
    {
        let call = &calls[i];
        let mut function: Vec<(String, Json)> = Vec::new();
        function.push(("name".to_owned(), Json::text(call.name.as_str())));
        function.push(("arguments".to_owned(), Json::Text(json::write(&call.arguments))));
        assert(function.deep_view() =~= seq![
            ("name"@, JsonView::Text(call.name@)),
            ("arguments"@, JsonView::Text(written(call.arguments.deep_view()))),
        ]);
        let mut entries: Vec<(String, Json)> = Vec::new();
        entries.push(("id".to_owned(), Json::text(call.id.as_str())));
        entries.push(("type".to_owned(), Json::text("function")));
        entries.push(("function".to_owned(), json::object(function)));
        assert(entries.deep_view() =~= wire_call(call.deep_view())->Object_0);
        items.push(json::object(entries));
        i += 1;
    }
    proof {
        json::json_view_array(items);
        assert(items.deep_view() =~= calls.deep_view().map_values(|c: ToolCallView| wire_call(c)));
    }
    Json::Array(items)
}

/// A message as a request carries it.
pub fn message_on_wire(message: &Message) -> (result: Json)
    ensures
        result.deep_view() == wire_message(message.deep_view()),
{
    let mut entries: Vec<(String, Json)> = Vec::new();
    match message {
        Message::System { content } => {
            entries.push(("role".to_owned(), Json::text("system")));
            entries.push(("content".to_owned(), Json::text(content.as_str())));
        },
        Message::User { content, images } => {
            entries.push(("role".to_owned(), Json::text("user")));
            entries.push(("content".to_owned(), user_content(content.as_str(), images)));
        },
        Message::Steer { content, images } => {
            entries.push(("role".to_owned(), Json::text("user")));
            entries.push(("content".to_owned(), user_content(content.as_str(), images)));
        },
        Message::Assistant { content, tool_calls, .. } => {
            entries.push(("role".to_owned(), Json::text("assistant")));
            if !content.as_str().is_empty() {
                entries.push(("content".to_owned(), Json::text(content.as_str())));
            }
            if tool_calls.len() > 0 {
                entries.push(("tool_calls".to_owned(), wire_calls(tool_calls)));
            }
        },
        Message::Tool { call_id, content, image, .. } => {
            entries.push(("role".to_owned(), Json::text("tool")));
            let shown = match image {
                Some(image) => {
                    let mut one: Vec<ImageContent> = Vec::new();
                    one.push(image.clone());
                    assert(one.deep_view() =~= seq![image.deep_view()]);
                    multimodal_content(content.as_str(), &one)
                },
                None => Json::text(content.as_str()),
            };
            entries.push(("content".to_owned(), shown));
            entries.push(("tool_call_id".to_owned(), Json::text(call_id.as_str())));
        },
    }
    assert(entries.deep_view() =~= wire_message(message.deep_view())->Object_0);
    json::object(entries)
}

// ---------------------------------------------------------------------------
// Events
// ---------------------------------------------------------------------------

/// A text that may be left out or null; `None` where it is something else.
pub open spec fn optional_text(value: JsonView, key: Seq<char>) -> Option<Option<Seq<char>>> {
    match value.get(key) {
        None => Some(None),
        Some(JsonView::Null) => Some(None),
        Some(JsonView::Text(t)) => Some(Some(t)),
        _ => None,
    }
}

/// The fields of the function in a piece of a call.
pub open spec fn function_fields() -> Seq<Seq<char>> {
    seq!["name"@, "arguments"@]
}

/// The fields of a piece of a call.
pub open spec fn call_fields() -> Seq<Seq<char>> {
    seq!["index"@, "id"@, "function"@]
}

/// The fields of what a choice adds.
pub open spec fn delta_fields() -> Seq<Seq<char>> {
    seq!["content"@, "reasoning"@, "reasoning_content"@, "tool_calls"@]
}

/// The fields of a choice.
pub open spec fn choice_fields() -> Seq<Seq<char>> {
    seq!["delta"@]
}

/// The fields of what a chunk tells of tokens.
pub open spec fn usage_fields() -> Seq<Seq<char>> {
    seq!["prompt_tokens"@, "total_tokens"@]
}

/// The fields of a chunk.
pub open spec fn chunk_fields() -> Seq<Seq<char>> {
    seq!["choices"@, "usage"@]
}

/// The name and the arguments in a piece of a call.
pub open spec fn function_delta(value: JsonView) -> Option<(Option<Seq<char>>, Seq<char>)> {
    let value = fields_of(value, function_fields(), 1);
    let arguments = match value.get("arguments"@) {
        None => Some(Seq::empty()),
        Some(JsonView::Text(t)) => Some(t),
        _ => None,
    };
    match (value is Object, optional_text(value, "name"@), arguments) {
        (true, Some(name), Some(arguments)) => Some((name, arguments)),
        _ => None,
    }
}

/// A piece of a call.
pub open spec fn call_delta(value: JsonView) -> Option<DeltaView> {
    let value = fields_of(value, call_fields(), 3);
    let function = match value.get("function"@) {
        None => Some((None, Seq::empty())),
        Some(JsonView::Null) => Some((None, Seq::empty())),
        Some(function) => function_delta(function),
    };
    match (value.number_at("index"@), optional_text(value, "id"@), function) {
        (Some(index), Some(id), Some(function)) => if index <= usize::MAX {
            Some(
                DeltaView::ToolCall {
                    index: index as usize,
                    id,
                    name: function.0,
                    arguments: function.1,
                },
            )
        } else {
            None
        },
        _ => None,
    }
}

/// Pieces of calls.
pub open spec fn call_deltas(values: Seq<JsonView>) -> Option<Seq<DeltaView>>
    decreases values.len(),
{
    if values.len() == 0 {
        Some(Seq::empty())
    } else {
        match (call_deltas(values.drop_last()), call_delta(values.last())) {
            (Some(rest), Some(last)) => Some(rest.push(last)),
            _ => None,
        }
    }
}

/// The pieces of a choice: reasoning, text and calls, in that order.
pub open spec fn choice_deltas(choice: JsonView) -> Option<Seq<DeltaView>> {
    match fields_of(choice, choice_fields(), 1).get("delta"@) {
        Some(delta) => {
            let delta = fields_of(delta, delta_fields(), 3);
            let calls = match delta.get("tool_calls"@) {
                None => Some(Seq::empty()),
                Some(JsonView::Array(values)) => call_deltas(values),
                _ => None,
            };
            match (
                delta is Object,
                optional_text(delta, "content"@),
                optional_text(delta, "reasoning"@),
                optional_text(delta, "reasoning_content"@),
                calls,
            ) {
                (true, Some(content), Some(reasoning), Some(reasoning_content), Some(calls)) => {
                    let thought = match reasoning {
                        Some(t) => Some(t),
                        None => reasoning_content,
                    };
                    Some(
                        (match thought {
                            Some(t) if t.len() > 0 => seq![DeltaView::Reasoning(t)],
                            _ => Seq::empty(),
                        }) + (match content {
                            Some(t) if t.len() > 0 => seq![DeltaView::Text(t)],
                            _ => Seq::empty(),
                        }) + calls,
                    )
                },
                _ => None,
            }
        },
        None => None,
    }
}

/// Whether every choice from `i` on can be read.
pub open spec fn choices_read(choices: Seq<JsonView>, i: int) -> bool
    decreases choices.len() - i,
{
    i < 0 || i >= choices.len() || (choice_deltas(choices[i]) is Some && choices_read(
        choices,
        i + 1,
    ))
}

/// The tokens that a chunk tells; `None` where they cannot be read.
pub open spec fn chunk_usage(chunk: JsonView) -> Option<Option<Usage>> {
    match chunk.get("usage"@) {
        None => Some(None),
        Some(JsonView::Null) => Some(None),
        Some(usage) => {
            let usage = fields_of(usage, usage_fields(), 2);
            let prompt = match usage.get("prompt_tokens"@) {
                None => Some(0),
                Some(JsonView::Unsigned(n)) => Some(n),
                _ => None,
            };
            match (prompt, usage.number_at("total_tokens"@)) {
                (Some(prompt_tokens), Some(total_tokens)) => Some(
                    Some(Usage { prompt_tokens, total_tokens }),
                ),
                _ => None,
            }
        },
    }
}

/// The choices of a chunk; `None` where they cannot be read.
pub open spec fn chunk_choices(chunk: JsonView) -> Option<Seq<JsonView>> {
    match chunk.get("choices"@) {
        None => Some(Seq::empty()),
        Some(JsonView::Array(choices)) => Some(choices),
        _ => None,
    }
}

/// The pieces of a chunk: those of its first choice, and the tokens it tells.
pub open spec fn chunk_deltas(chunk: JsonView) -> Option<Seq<DeltaView>> {
    let chunk = fields_of(chunk, chunk_fields(), 2);
    match (chunk is Object, chunk_choices(chunk), chunk_usage(chunk)) {
        (true, Some(choices), Some(usage)) => if choices_read(choices, 0) {
            Some(
                (if choices.len() > 0 {
                    choice_deltas(choices[0])->0
                } else {
                    Seq::empty()
                }) + (match usage {
                    Some(usage) => seq![DeltaView::Usage(usage)],
                    None => Seq::empty(),
                }),
            )
        } else {
            None
        },
        _ => None,
    }
}

fn read_optional(value: &Json, key: &str) -> (result: Option<Option<String>>)
    ensures
        result.deep_view() == optional_text(value.deep_view(), key@),
{
    match value.get(key) {
        None => Some(None),
        Some(Json::Null) => Some(None),
        Some(Json::Text(t)) => Some(Some(t.clone())),
        _ => None,
    }
}

fn read_function(value: &Json) -> (result: Option<(Option<String>, String)>)
    ensures
        result.deep_view() == function_delta(value.deep_view()),
{
    let names = vec!["name", "arguments"];
    assert(names.deep_view() =~= function_fields());
    let named = json::by_fields(value, &names, 1);
    let value = match &named {
        Some(named) => named,
        None => value,
    };
    let is_object = match value {
        Json::Object(_) => true,
        _ => false,
    };
    let arguments = match value.get("arguments") {
        None => String::new(),
        Some(Json::Text(t)) => t.clone(),
        _ => {
            return None;
        },
    };
    match read_optional(value, "name") {
        Some(name) => if is_object {
            Some((name, arguments))
        } else {
            None
        },
        None => None,
    }
}

fn read_call(value: &Json) -> (result: Option<ResponseDelta>)
    ensures
        result.deep_view() == call_delta(value.deep_view()),
{
    let names = vec!["index", "id", "function"];
    assert(names.deep_view() =~= call_fields());
    let named = json::by_fields(value, &names, 3);
    let value = match &named {
        Some(named) => named,
        None => value,
    };
    let function = match value.get("function") {
        None => (None, String::new()),
        Some(Json::Null) => (None, String::new()),
        Some(function) => match read_function(function) {
            Some(function) => function,
            None => {
                return None;
            },
        },
    };
    match (value.number_at("index"), read_optional(value, "id")) {
        (Some(index), Some(id)) => if index <= usize::MAX as u64 {
            Some(
                ResponseDelta::ToolCall {
                    index: index as usize,
                    id,
                    name: function.0,
                    arguments: function.1,
                },
            )
        } else {
            None
        },
        _ => None,
    }
}

proof fn unread_call(values: Seq<JsonView>, i: int)
    requires
        0 <= i < values.len(),
        call_delta(values[i]) is None,
    ensures
        call_deltas(values) is None,
    decreases values.len(),
{
    if i < values.len() - 1 {
        unread_call(values.drop_last(), i);
    }
}

fn read_calls(values: &Vec<Json>) -> (result: Option<Vec<ResponseDelta>>)
    ensures
        result.deep_view() == call_deltas(values.deep_view()),
{
    let ghost all = values.deep_view();
    let mut calls: Vec<ResponseDelta> = Vec::new();
    let mut i: usize = 0;
    assert(calls.deep_view() =~= Seq::empty());
    while i < values.len()
        invariant
            all == values.deep_view(),
            i <= values@.len(),
            call_deltas(all.take(i as int)) == Some(calls.deep_view()),
        decreases values@.len() - i,
    {
        proof {
            assert(all.take(i + 1).drop_last() =~= all.take(i as int));
            assert(all.take(i + 1).last() == all[i as int]);
            assert(all[i as int] == values@[i as int].deep_view());
        }
        let ghost before = calls.deep_view();
        match read_call(&values[i]) {
            Some(call) => {
                let ghost view = call.deep_view();
                calls.push(call);
                assert(calls.deep_view() =~= before.push(view));
            },
            None => {
                proof {
                    unread_call(all, i as int);
                }
                return None;
            },
        }
        i += 1;
    }
    assert(all.take(i as int) =~= all);
    Some(calls)
}

fn read_choice(choice: &Json) -> (result: Option<Vec<ResponseDelta>>)
    ensures
        result.deep_view() == choice_deltas(choice.deep_view()),
{
    let names = vec!["delta"];
    assert(names.deep_view() =~= choice_fields());
    let named = json::by_fields(choice, &names, 1);
    let ghost given = choice.deep_view();
    let choice = match &named {
        Some(named) => named,
        None => choice,
    };
    let delta = match choice.get("delta") {
        Some(delta) => delta,
        None => {
            return None;
        },
    };
    let delta_names = vec!["content", "reasoning", "reasoning_content", "tool_calls"];
    assert(delta_names.deep_view() =~= delta_fields());
    let named_delta = json::by_fields(delta, &delta_names, 3);
    let delta = match &named_delta {
        Some(named) => named,
        None => delta,
    };
    let is_object = match delta {
        Json::Object(_) => true,
        _ => false,
    };
    let mut calls = match delta.get("tool_calls") {
        None => {
            let calls: Vec<ResponseDelta> = Vec::new();
            assert(calls.deep_view() =~= Seq::empty());
            calls
        },
        Some(Json::Array(values)) => {
            proof {
                json::json_view_array(*values);
            }
            match read_calls(values) {
                Some(calls) => calls,
                None => {
                    return None;
                },
            }
        },
        _ => {
            return None;
        },
    };
    match (
        read_optional(delta, "content"),
        read_optional(delta, "reasoning"),
        read_optional(delta, "reasoning_content"),
    ) {
        (Some(content), Some(reasoning), Some(reasoning_content)) => {
            if !is_object {
                return None;
            }
            let mut deltas: Vec<ResponseDelta> = Vec::new();
            let thought = match reasoning {
                Some(t) => Some(t),
                None => reasoning_content,
            };
            match thought {
                Some(t) => if !t.as_str().is_empty() {
                    deltas.push(ResponseDelta::Reasoning(t));
                },
                None => {},
            }
            match content {
                Some(t) => if !t.as_str().is_empty() {
                    deltas.push(ResponseDelta::Text(t));
                },
                None => {},
            }
            deltas.append(&mut calls);
            assert(deltas.deep_view() =~= choice_deltas(given)->0);
            Some(deltas)
        },
        _ => None,
    }
}

fn read_usage(chunk: &Json) -> (result: Option<Option<Usage>>)
    ensures
        result == chunk_usage(chunk.deep_view()),
{
    match chunk.get("usage") {
        None => Some(None),
        Some(Json::Null) => Some(None),
        Some(usage) => {
            let names = vec!["prompt_tokens", "total_tokens"];
            assert(names.deep_view() =~= usage_fields());
            let named = json::by_fields(usage, &names, 2);
            let usage = match &named {
                Some(named) => named,
                None => usage,
            };
            let prompt_tokens: u64 = match usage.get("prompt_tokens") {
                None => 0,
                Some(Json::Unsigned(n)) => *n,
                _ => {
                    return None;
                },
            };
            match usage.number_at("total_tokens") {
                Some(total_tokens) => Some(Some(Usage { prompt_tokens, total_tokens })),
                None => None,
            }
        },
    }
}

/// The pieces of a chunk; `None` where it cannot be read.
pub fn read_chunk(chunk: &Json) -> (result: Option<Vec<ResponseDelta>>)
    ensures
        result.deep_view() == chunk_deltas(chunk.deep_view()),
{
    let names = vec!["choices", "usage"];
    assert(names.deep_view() =~= chunk_fields());
    let named = json::by_fields(chunk, &names, 2);
    let fields = match &named {
        Some(named) => named,
        None => chunk,
    };
    match fields {
        Json::Object(_) => {},
        _ => {
            return None;
        },
    }
    let usage = match read_usage(fields) {
        Some(usage) => usage,
        None => {
            return None;
        },
    };
    let mut deltas: Vec<ResponseDelta> = Vec::new();
    assert(deltas.deep_view() =~= Seq::empty());
    match fields.get("choices") {
        None => {},
        Some(Json::Array(choices)) => {
            proof {
                json::json_view_array(*choices);
            }
            let ghost all = choices.deep_view();
            let mut i: usize = 0;
            while i < choices.len()
                invariant
                    all == choices.deep_view(),
                    fields is Object,
                    fields.deep_view() == fields_of(chunk.deep_view(), chunk_fields(), 2),
                    chunk_choices(fields.deep_view()) == Some(all),
                    i <= choices@.len(),
                    choices_read(all, 0) == choices_read(all, i as int),
                    i == 0 ==> deltas.deep_view() == Seq::<DeltaView>::empty(),
                    i > 0 ==> choice_deltas(all[0]) == Some(deltas.deep_view()),
                decreases choices@.len() - i,
            {
                assert(all[i as int] == choices@[i as int].deep_view());
                match read_choice(&choices[i]) {
                    Some(read) => if i == 0 {
                        deltas = read;
                    },
                    None => {
                        return None;
                    },
                }
                i += 1;
            }
        },
        _ => {
            return None;
        },
    }
    let ghost first = deltas.deep_view();
    match usage {
        Some(usage) => {
            deltas.push(ResponseDelta::Usage(usage));
            assert(deltas.deep_view() =~= first + seq![DeltaView::Usage(usage)]);
        },
        None => {
            assert(deltas.deep_view() =~= first + Seq::<DeltaView>::empty());
        },
    }
    Some(deltas)
}

/// The pieces that the text of a chunk holds.
pub fn parse_delta(data: &str) -> (result: Result<Vec<ResponseDelta>, String>)
    ensures
        match result {
            Ok(deltas) => read_json(data@) is Some && chunk_deltas(read_json(data@)->0) == Some(
                deltas.deep_view(),
            ),
            Err(error) => match read_json(data@) {
                Some(chunk) => chunk_deltas(chunk) is None && error@ == "decode response chunk"@,
                None => error@ == "decode response chunk"@ + ": "@ + json_fault(data@),
            },
        },
{
    match json::parse_for("decode response chunk", data) {
        Ok(chunk) => match read_chunk(&chunk) {
            Some(deltas) => Ok(deltas),
            None => Err("decode response chunk".to_owned()),
        },
        Err(error) => Err(error),
    }
}

} // verus!
