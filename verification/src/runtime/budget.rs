//! How much of the model's context messages take up, and how much a tool may add.
use super::context::{
    apply_plan_context, clone_messages, plan_context, strip_tool_diffs, without_diff,
};
use super::message::{ImageContent, ImageView, Message, MessageView, ToolCall, ToolCallView};
use crate::json;
use crate::json::{written, Json, JsonView};
use crate::text;
use crate::text::{encode_concat, is_floor};
use crate::tool::{ExecutionPlan, PlanView};
use vstd::prelude::*;
use vstd::string::*;
use vstd::utf8::*;

verus! {

/// What a result that was cut ends with.
pub const TOOL_OUTPUT_TRUNCATED: &'static str = "\n[tool output truncated]";

/// The least that a tool may put out, in tokens: enough for the control fields of
/// a result.
pub const MIN_TOOL_OUTPUT_TOKENS: u64 = 32;

/// The most calls that one message may hold.
pub const MAX_TOOL_CALLS_PER_MESSAGE: usize = 64;

// ---------------------------------------------------------------------------
// Messages as JSON
// ---------------------------------------------------------------------------

type Entries = Seq<(Seq<char>, JsonView)>;

/// One entry, where there is something to say.
pub open spec fn entry_if(present: bool, key: Seq<char>, value: JsonView) -> Entries {
    if present {
        seq![(key, value)]
    } else {
        Seq::empty()
    }
}

/// An image as it is written: without its data, which stands in a file.
pub open spec fn image_json(image: ImageView) -> JsonView {
    JsonView::Object(
        seq![("mime_type"@, JsonView::Text(image.mime_type))] + entry_if(
            image.path is Some,
            "path"@,
            JsonView::Text(image.path->0),
        ) + entry_if(image.width != 0, "width"@, JsonView::Unsigned(image.width as u64))
            + entry_if(image.height != 0, "height"@, JsonView::Unsigned(image.height as u64)),
    )
}

/// A call as it is written.
pub open spec fn call_json(call: ToolCallView) -> JsonView {
    JsonView::Object(
        seq![
            ("id"@, JsonView::Text(call.id)),
            ("name"@, JsonView::Text(call.name)),
            ("arguments"@, call.arguments),
        ],
    )
}

pub open spec fn images_json(images: Seq<ImageView>) -> JsonView {
    JsonView::Array(images.map_values(|i: ImageView| image_json(i)))
}

pub open spec fn calls_json(calls: Seq<ToolCallView>) -> JsonView {
    JsonView::Array(calls.map_values(|c: ToolCallView| call_json(c)))
}

/// A message as it is written: what is empty is left out.
pub open spec fn message_json(message: MessageView) -> JsonView {
    JsonView::Object(
        match message {
            MessageView::System { content } => seq![
                ("role"@, JsonView::Text("system"@)),
                ("content"@, JsonView::Text(content)),
            ],
            MessageView::User { content, images } => seq![
                ("role"@, JsonView::Text("user"@)),
                ("content"@, JsonView::Text(content)),
            ] + entry_if(images.len() > 0, "images"@, images_json(images)),
            MessageView::Steer { content, images } => seq![
                ("role"@, JsonView::Text("steer"@)),
                ("content"@, JsonView::Text(content)),
            ] + entry_if(images.len() > 0, "images"@, images_json(images)),
            MessageView::Assistant { content, model, reasoning, tool_calls, response_items } =>
            seq![("role"@, JsonView::Text("assistant"@)), ("content"@, JsonView::Text(content))]
                + entry_if(model.len() > 0, "model"@, JsonView::Text(model)) + entry_if(
                reasoning.len() > 0,
                "reasoning"@,
                JsonView::Text(reasoning),
            ) + entry_if(tool_calls.len() > 0, "tool_calls"@, calls_json(tool_calls)) + entry_if(
                response_items.len() > 0,
                "response_items"@,
                JsonView::Array(response_items),
            ),
            MessageView::Tool { call_id, content, image, diff } => seq![
                ("role"@, JsonView::Text("tool"@)),
                ("call_id"@, JsonView::Text(call_id)),
                ("content"@, JsonView::Text(content)),
            ] + entry_if(image is Some, "image"@, image_json(image->0)) + entry_if(
                diff is Some,
                "diff"@,
                JsonView::Text(diff->0),
            ),
        },
    )
}

fn image_to_json(image: &ImageContent) -> (result: Json)
    ensures
        result.deep_view() == image_json(image.deep_view()),
{
    let mut entries = json::no_entries();
    json::enter(&mut entries, "mime_type", Json::text(image.mime_type.as_str()));
    match &image.path {
        Some(path) => json::enter(&mut entries, "path", Json::text(path.as_str())),
        None => {},
    }
    if image.width != 0 {
        json::enter(&mut entries, "width", Json::Unsigned(image.width as u64));
    }
    if image.height != 0 {
        json::enter(&mut entries, "height", Json::Unsigned(image.height as u64));
    }
    assert(entries.deep_view() =~= image_json(image.deep_view())->Object_0);
    json::object(entries)
}

pub(crate) fn images_to_json(images: &Vec<ImageContent>) -> (result: Json)
    ensures
        result.deep_view() == images_json(images.deep_view()),
{
    let mut items: Vec<Json> = Vec::new();
    let mut i: usize = 0;
    while i < images.len()
        invariant
            i <= images@.len(),
            items@.len() == i,
            forall|k: int|
                0 <= k < i ==> (#[trigger] items@[k]).deep_view() == image_json(
                    images@[k].deep_view(),
                ),
        decreases images@.len() - i,
    {
        items.push(image_to_json(&images[i]));
        i += 1;
    }
    proof {
        json::json_view_array(items);
        assert(items.deep_view() =~= images_json(images.deep_view())->Array_0);
    }
    Json::Array(items)
}

/// A call as JSON.
pub(crate) fn call_to_json(call: &ToolCall) -> (result: Json)
    ensures
        result.deep_view() == call_json(call.deep_view()),
{
    let mut entries = json::no_entries();
    json::enter(&mut entries, "id", Json::text(call.id.as_str()));
    json::enter(&mut entries, "name", Json::text(call.name.as_str()));
    json::enter(&mut entries, "arguments", call.arguments.clone());
    assert(entries.deep_view() =~= call_json(call.deep_view())->Object_0);
    json::object(entries)
}

fn calls_to_json(calls: &Vec<ToolCall>) -> (result: Json)
    ensures
        result.deep_view() == calls_json(calls.deep_view()),
{
    let mut items: Vec<Json> = Vec::new();
    let mut i: usize = 0;
    while i < calls.len()
        invariant
            i <= calls@.len(),
            items@.len() == i,
            forall|k: int|
                0 <= k < i ==> (#[trigger] items@[k]).deep_view() == call_json(
                    calls@[k].deep_view(),
                ),
        decreases calls@.len() - i,
    {
        items.push(call_to_json(&calls[i]));
        i += 1;
    }
    proof {
        json::json_view_array(items);
        assert(items.deep_view() =~= calls_json(calls.deep_view())->Array_0);
    }
    Json::Array(items)
}

/// A message as it is written.
pub fn message_to_json(message: &Message) -> (result: Json)
    ensures
        result.deep_view() == message_json(message.deep_view()),
{
    let mut entries = json::no_entries();
    match message {
        Message::System { content } => {
            json::enter(&mut entries, "role", Json::text("system"));
            json::enter(&mut entries, "content", Json::text(content.as_str()));
        },
        Message::User { content, images } => {
            json::enter(&mut entries, "role", Json::text("user"));
            json::enter(&mut entries, "content", Json::text(content.as_str()));
            if images.len() > 0 {
                json::enter(&mut entries, "images", images_to_json(images));
            }
        },
        Message::Steer { content, images } => {
            json::enter(&mut entries, "role", Json::text("steer"));
            json::enter(&mut entries, "content", Json::text(content.as_str()));
            if images.len() > 0 {
                json::enter(&mut entries, "images", images_to_json(images));
            }
        },
        Message::Assistant { content, model, reasoning, tool_calls, response_items } => {
            json::enter(&mut entries, "role", Json::text("assistant"));
            json::enter(&mut entries, "content", Json::text(content.as_str()));
            if !model.as_str().is_empty() {
                json::enter(&mut entries, "model", Json::text(model.as_str()));
            }
            if !reasoning.as_str().is_empty() {
                json::enter(&mut entries, "reasoning", Json::text(reasoning.as_str()));
            }
            if tool_calls.len() > 0 {
                json::enter(&mut entries, "tool_calls", calls_to_json(tool_calls));
            }
            if response_items.len() > 0 {
                let items = super::message::clone_values(response_items);
                proof {
                    json::json_view_array(items);
                }
                json::enter(&mut entries, "response_items", Json::Array(items));
            }
        },
        Message::Tool { call_id, content, image, diff } => {
            json::enter(&mut entries, "role", Json::text("tool"));
            json::enter(&mut entries, "call_id", Json::text(call_id.as_str()));
            json::enter(&mut entries, "content", Json::text(content.as_str()));
            match image {
                Some(image) => json::enter(&mut entries, "image", image_to_json(image)),
                None => {},
            }
            match diff {
                Some(diff) => json::enter(&mut entries, "diff", Json::text(diff.as_str())),
                None => {},
            }
        },
    }
    assert(entries.deep_view() =~= message_json(message.deep_view())->Object_0);
    json::object(entries)
}

// ---------------------------------------------------------------------------
// Estimates
// ---------------------------------------------------------------------------

/// The number of bytes that a message is written in.
pub open spec fn message_bytes(message: MessageView) -> nat {
    encode_utf8(written(message_json(message))).len()
}

/// The number of bytes that messages are written in.
pub open spec fn total_bytes(messages: Seq<MessageView>) -> nat
    decreases messages.len(),
{
    if messages.len() == 0 {
        0
    } else {
        total_bytes(messages.drop_last()) + message_bytes(messages.last())
    }
}

/// The tokens that messages take up: one for four bytes, and four for each message.
pub open spec fn tokens_of(messages: Seq<MessageView>) -> nat {
    (total_bytes(messages) + 3) / 4 + messages.len() * 4
}

/// `n`, or the greatest number where it is greater.
pub open spec fn capped(n: nat) -> u64 {
    if n > u64::MAX {
        u64::MAX
    } else {
        n as u64
    }
}

/// `a` less `b`, or nothing where `b` is greater.
pub open spec fn less_by(a: u64, b: u64) -> u64 {
    if a >= b {
        (a - b) as u64
    } else {
        0
    }
}

/// The tokens that messages take up.
pub fn estimate_tokens(messages: &Vec<Message>) -> (tokens: u64)
    ensures
        tokens == capped(tokens_of(messages.deep_view())),
{
    let ghost all = messages.deep_view();
    let mut bytes: u128 = 0;
    let mut i: usize = 0;
    while i < messages.len()
        invariant
            all == messages.deep_view(),
            i <= messages@.len(),
            bytes == total_bytes(all.take(i as int)),
            bytes <= i * 0xffff_ffff_ffff_ffff,
        decreases messages@.len() - i,
    {
        proof {
            assert(all.take(i + 1).drop_last() =~= all.take(i as int));
            assert(all.take(i + 1).last() == messages@[i as int].deep_view());
        }
        let written = json::write(&message_to_json(&messages[i]));
        let n: usize = text::byte_len(written.as_str());
        bytes = bytes + n as u128;
        i += 1;
    }
    assert(all.take(i as int) =~= all);
    let total: u128 = (bytes + 3) / 4 + messages.len() as u128 * 4;
    if total > 0xffff_ffff_ffff_ffff {
        0xffff_ffff_ffff_ffff
    } else {
        total as u64
    }
}

/// The message that a call's result would be, were it empty.
pub open spec fn empty_result(call_id: Seq<char>) -> MessageView {
    MessageView::Tool { call_id, content: Seq::empty(), image: None, diff: None }
}

/// The tokens that a tool's message takes up before its content.
pub fn tool_message_overhead(call: &ToolCall) -> (tokens: u64)
    ensures
        tokens == capped(tokens_of(seq![empty_result(call.id@)])),
{
    let mut one: Vec<Message> = Vec::new();
    one.push(Message::tool(call.id.clone(), String::new(), None, None));
    assert(one.deep_view() =~= seq![empty_result(call.id@)]);
    estimate_tokens(&one)
}

/// What goes to the model: the messages without differences of files, the plan in
/// force in front, and the project's prompt before that.
pub open spec fn request_of(
    messages: Seq<MessageView>,
    prompt: Option<Seq<char>>,
    plan: Option<PlanView>,
) -> Seq<MessageView> {
    let planned = plan_context(messages.map_values(|m: MessageView| without_diff(m)), plan);
    match prompt {
        Some(prompt) => planned.insert(0, MessageView::System { content: prompt }),
        None => planned,
    }
}

/// What goes to the model.
pub fn request_messages(
    messages: &Vec<Message>,
    prompt: &Option<String>,
    plan: &Option<ExecutionPlan>,
) -> (result: Vec<Message>)
    ensures
        result.deep_view() == request_of(
            messages.deep_view(),
            prompt.deep_view(),
            plan.deep_view(),
        ),
{
    let mut result = clone_messages(messages);
    strip_tool_diffs(&mut result);
    apply_plan_context(&mut result, plan.as_ref());
    match prompt {
        Some(prompt) => {
            let ghost before = result.deep_view();
            let first = Message::system(prompt.clone());
            let ghost view = first.deep_view();
            result.insert(0, first);
            assert(result.deep_view() =~= before.insert(0, view));
        },
        None => {},
    }
    result
}

/// The tokens of the model's context that a request would leave free.
pub open spec fn free_tokens(
    messages: Seq<MessageView>,
    max_tokens: u64,
    prompt: Option<Seq<char>>,
    plan: Option<PlanView>,
) -> u64 {
    less_by(max_tokens, capped(tokens_of(request_of(messages, prompt, plan))))
}

/// The tokens of the model's context that a request would leave free.
pub fn available_context_tokens(
    messages: &Vec<Message>,
    max_tokens: u64,
    prompt: &Option<String>,
    plan: &Option<ExecutionPlan>,
) -> (tokens: u64)
    ensures
        tokens == free_tokens(
            messages.deep_view(),
            max_tokens,
            prompt.deep_view(),
            plan.deep_view(),
        ),
{
    let context = request_messages(messages, prompt, plan);
    let used: u64 = estimate_tokens(&context);
    if max_tokens >= used {
        max_tokens - used
    } else {
        0
    }
}

// ---------------------------------------------------------------------------
// Cutting output
// ---------------------------------------------------------------------------

/// The bytes that `tokens` tokens stand for, as far as a length can be.
pub open spec fn token_bytes(tokens: u64) -> usize {
    if tokens * 4 > usize::MAX {
        usize::MAX
    } else {
        (tokens * 4) as usize
    }
}

/// The bytes that `tokens` tokens stand for.
pub fn bytes_of_tokens(tokens: u64) -> (bytes: usize)
    ensures
        bytes == token_bytes(tokens),
{
    let total: u128 = tokens as u128 * 4;
    if total > usize::MAX as u128 {
        usize::MAX
    } else {
        total as usize
    }
}

/// `result` is `output` within `max_bytes`: whole where it fits, else its head
/// with a mark behind it, or without where the mark would not fit.
pub open spec fn is_cut(output: Seq<char>, max_bytes: usize, result: Seq<char>) -> bool {
    let bytes = encode_utf8(output);
    let mark = encode_utf8(TOOL_OUTPUT_TRUNCATED@);
    if bytes.len() <= max_bytes {
        result == output
    } else if max_bytes <= mark.len() {
        exists|end: int| #[trigger]
            is_floor(bytes, max_bytes as int, end) && encode_utf8(result) == bytes.take(end)
    } else {
        exists|end: int| #[trigger]
            is_floor(bytes, max_bytes - mark.len(), end) && encode_utf8(result) == bytes.take(end)
                + mark
    }
}

/// `output` within `max_tokens` tokens of four bytes.
pub fn truncate_tool_output(output: String, max_tokens: u64) -> (result: String)
    ensures
        is_cut(output@, token_bytes(max_tokens), result@),
        encode_utf8(result@).len() <= token_bytes(max_tokens),
{
    let max_bytes: usize = bytes_of_tokens(max_tokens);
    if text::byte_len(output.as_str()) <= max_bytes {
        return output;
    }
    let mark: usize = text::byte_len(TOOL_OUTPUT_TRUNCATED);
    let ghost bytes = encode_utf8(output@);
    if max_bytes <= mark {
        let end: usize = text::floor_char_boundary(output.as_str(), max_bytes);
        let result = text::bytes_before(output.as_str(), end);
        proof {
            assert(bytes.subrange(0, end as int) =~= bytes.take(end as int));
            assert(is_floor(bytes, max_bytes as int, end as int));
        }
        return result;
    }
    let end: usize = text::floor_char_boundary(output.as_str(), max_bytes - mark);
    let mut result = text::bytes_before(output.as_str(), end);
    let ghost head = result@;
    result.append(TOOL_OUTPUT_TRUNCATED);
    proof {
        encode_concat(head, TOOL_OUTPUT_TRUNCATED@);
        assert(bytes.subrange(0, end as int) =~= bytes.take(end as int));
        assert(is_floor(bytes, max_bytes - encode_utf8(TOOL_OUTPUT_TRUNCATED@).len(), end as int));
    }
    result
}

/// The part of a piece of output that is passed on when `forwarded` of `max_bytes`
/// bytes have been, and the bytes passed on then.
pub open spec fn is_forwarded(
    delta: Seq<char>,
    forwarded: usize,
    max_bytes: usize,
    shown: Option<Seq<char>>,
    next: usize,
) -> bool {
    let bytes = encode_utf8(delta);
    let left = max_bytes - forwarded;
    if bytes.len() <= left {
        shown == Some(delta) && next == forwarded + bytes.len()
    } else {
        next == max_bytes && exists|end: int| #[trigger]
            is_floor(bytes, left, end) && match shown {
                Some(head) => end > 0 && encode_utf8(head) == bytes.take(end),
                None => end == 0,
            }
    }
}

/// Passes on a piece of output as far as the budget goes: what is shown, if
/// anything, and the bytes passed on so far. The budget is used up when the two
/// are equal.
pub fn forward_output(delta: String, forwarded: usize, max_bytes: usize) -> (result: (
    Option<String>,
    usize,
))
    requires
        forwarded <= max_bytes,
    ensures
        is_forwarded(delta@, forwarded, max_bytes, result.0.deep_view(), result.1),
        forwarded <= result.1 <= max_bytes,
        match result.0 {
            Some(shown) => forwarded + encode_utf8(shown@).len() <= result.1,
            None => true,
        },
{
    let length: usize = text::byte_len(delta.as_str());
    let left: usize = max_bytes - forwarded;
    if length <= left {
        return (Some(delta), forwarded + length);
    }
    let end: usize = text::floor_char_boundary(delta.as_str(), left);
    assert(is_floor(encode_utf8(delta@), left as int, end as int));
    if end > 0 {
        let head = text::bytes_before(delta.as_str(), end);
        assert(encode_utf8(delta@).subrange(0, end as int) =~= encode_utf8(delta@).take(end as int));
        (Some(head), max_bytes)
    } else {
        (None, max_bytes)
    }
}

} // verus!
