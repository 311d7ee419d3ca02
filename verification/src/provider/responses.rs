//! The Responses protocol: what a request carries, and what its events say.
use super::{DeltaView, ResponseDelta, Usage};
use crate::json;
use crate::json::{json_fault, read_json, written, Json, JsonView};
use crate::runtime::message::{
    ImageContent, ImageView, Message, MessageView, ToolCall, ToolCallView,
};
use crate::tables::{IndexTable, TextMap, TextTable};
use crate::text;
use crate::text::{digits, has_prefix};
use crate::text_set::TextSet;
use vstd::prelude::*;
use vstd::string::*;

verus! {

// ---------------------------------------------------------------------------
// Requests
// ---------------------------------------------------------------------------

/// An image as a link that holds it.
pub open spec fn data_url(image: ImageView) -> Seq<char> {
    "data:"@ + image.mime_type + ";base64,"@ + image.data
}

/// An image as a link that holds it.
pub fn image_url(image: &ImageContent) -> (url: String)
    ensures
        url@ == data_url(image.deep_view()),
{
    let mut url = text::join_three("data:", image.mime_type.as_str(), ";base64,");
    url.append(image.data.as_str());
    url
}

pub open spec fn text_part(content: Seq<char>) -> JsonView {
    JsonView::Object(
        seq![("type"@, JsonView::Text("input_text"@)), ("text"@, JsonView::Text(content))],
    )
}

pub open spec fn image_part(image: ImageView) -> JsonView {
    JsonView::Object(
        seq![
            ("type"@, JsonView::Text("input_image"@)),
            ("detail"@, JsonView::Text("auto"@)),
            ("image_url"@, JsonView::Text(data_url(image))),
        ],
    )
}

/// Text, where there is any, and images behind it.
pub open spec fn content_parts(content: Seq<char>, images: Seq<ImageView>) -> Seq<JsonView> {
    (if content.len() > 0 {
        seq![text_part(content)]
    } else {
        Seq::empty()
    }) + images.map_values(|i: ImageView| image_part(i))
}

pub open spec fn plain_item(role: Seq<char>, content: Seq<char>) -> JsonView {
    JsonView::Object(
        seq![("role"@, JsonView::Text(role)), ("content"@, JsonView::Text(content))],
    )
}

pub open spec fn user_item(content: Seq<char>, images: Seq<ImageView>) -> JsonView {
    if images.len() == 0 {
        plain_item("user"@, content)
    } else {
        JsonView::Object(
            seq![
                ("role"@, JsonView::Text("user"@)),
                ("content"@, JsonView::Array(content_parts(content, images))),
            ],
        )
    }
}

pub open spec fn call_item(call: ToolCallView) -> JsonView {
    JsonView::Object(
        seq![
            ("type"@, JsonView::Text("function_call"@)),
            ("call_id"@, JsonView::Text(call.id)),
            ("name"@, JsonView::Text(call.name)),
            ("arguments"@, JsonView::Text(written(call.arguments))),
        ],
    )
}

pub open spec fn result_item(
    call_id: Seq<char>,
    content: Seq<char>,
    image: Option<ImageView>,
) -> JsonView {
    JsonView::Object(
        seq![
            ("type"@, JsonView::Text("function_call_output"@)),
            ("call_id"@, JsonView::Text(call_id)),
            (
                "output"@,
                match image {
                    Some(image) => JsonView::Array(content_parts(content, seq![image])),
                    None => JsonView::Text(content),
                },
            ),
        ],
    )
}

/// An answer of another model, or one of which nothing else is known.
pub open spec fn foreign_items(content: Seq<char>, calls: Seq<ToolCallView>) -> Seq<JsonView> {
    (if content.len() > 0 {
        seq![plain_item("assistant"@, content)]
    } else {
        Seq::empty()
    }) + calls.map_values(|c: ToolCallView| call_item(c))
}

/// The entries of all keys but `key`.
pub open spec fn drop_key(entries: Seq<(Seq<char>, JsonView)>, key: Seq<char>) -> Seq<
    (Seq<char>, JsonView),
>
    decreases entries.len(),
{
    if entries.len() == 0 {
        entries
    } else {
        let rest = drop_key(entries.drop_last(), key);
        if entries.last().0 == key {
            rest
        } else {
            rest.push(entries.last())
        }
    }
}

/// The entries with `value` under `key`.
pub open spec fn set_key(
    entries: Seq<(Seq<char>, JsonView)>,
    key: Seq<char>,
    value: JsonView,
) -> Seq<(Seq<char>, JsonView)> {
    drop_key(entries, key).push((key, value))
}

/// The first call with `id`.
pub open spec fn call_with_id(calls: Seq<ToolCallView>, id: Seq<char>) -> Option<ToolCallView>
    decreases calls.len(),
{
    if calls.len() == 0 {
        None
    } else if calls[0].id == id {
        Some(calls[0])
    } else {
        call_with_id(calls.skip(1), id)
    }
}

/// An item as it goes back: without its status, and a call as it was kept.
pub open spec fn returned_item(item: JsonView, calls: Seq<ToolCallView>) -> JsonView {
    match item {
        JsonView::Object(entries) => {
            let bare = JsonView::Object(drop_key(entries, "status"@));
            if bare.text_at("type"@) == Some("function_call"@) {
                match bare.text_at("call_id"@) {
                    Some(id) => match call_with_id(calls, id) {
                        Some(call) => JsonView::Object(
                            set_key(
                                set_key(bare->Object_0, "name"@, JsonView::Text(call.name)),
                                "arguments"@,
                                JsonView::Text(written(call.arguments)),
                            ),
                        ),
                        None => bare,
                    },
                    None => bare,
                }
            } else {
                bare
            }
        },
        _ => item,
    }
}

/// Whether one of the items has this text under `key`.
pub open spec fn some_item(items: Seq<JsonView>, key: Seq<char>, value: Seq<char>) -> bool {
    exists|i: int| 0 <= i < items.len() && (#[trigger] items[i]).text_at(key) == Some(value)
}

/// The items with those of the calls that none of them stands for.
pub open spec fn with_calls(items: Seq<JsonView>, calls: Seq<ToolCallView>) -> Seq<JsonView>
    decreases calls.len(),
{
    if calls.len() == 0 {
        items
    } else {
        let rest = with_calls(items, calls.drop_last());
        if some_item(rest, "call_id"@, calls.last().id) {
            rest
        } else {
            rest.push(call_item(calls.last()))
        }
    }
}

/// An answer of the same model: its own items, and what they leave out.
pub open spec fn own_items(
    content: Seq<char>,
    calls: Seq<ToolCallView>,
    items: Seq<JsonView>,
) -> Seq<JsonView> {
    let returned = items.map_values(|i: JsonView| returned_item(i, calls));
    let told = if content.len() > 0 && !some_item(returned, "type"@, "message"@) {
        returned.push(plain_item("assistant"@, content))
    } else {
        returned
    };
    with_calls(told, calls)
}

/// The items that a message becomes in a request to `model`.
pub open spec fn items_of(message: MessageView, model: Seq<char>) -> Seq<JsonView> {
    match message {
        MessageView::System { content } => seq![plain_item("system"@, content)],
        MessageView::User { content, images } => seq![user_item(content, images)],
        MessageView::Steer { content, images } => seq![user_item(content, images)],
        MessageView::Assistant { content, model: source, tool_calls, response_items, .. } =>
            if response_items.len() == 0 || source != model {
            foreign_items(content, tool_calls)
        } else {
            own_items(content, tool_calls, response_items)
        },
        MessageView::Tool { call_id, content, image, .. } => seq![
            result_item(call_id, content, image),
        ],
    }
}

proof fn call_item_id(call: ToolCallView)
    ensures
        call_item(call).text_at("call_id"@) == Some(call.id),
{
    reveal_strlit("type");
    reveal_strlit("call_id");
    let entries = call_item(call)->Object_0;
    assert(entries[0].0 != "call_id"@) by {
        assert(entries[0].0.len() == 4);
        assert("call_id"@.len() == 7);
    }
    assert(entries[1].0 == "call_id"@);
    reveal_with_fuel(json::entry, 5);
}

/// Every call of an answer stands in the items that it becomes, so that each result has
/// its call before it, whichever model the answer goes to.
pub proof fn calls_law(
    content: Seq<char>,
    calls: Seq<ToolCallView>,
    items: Seq<JsonView>,
    i: int,
)
    requires
        0 <= i < calls.len(),
    ensures
        some_item(foreign_items(content, calls), "call_id"@, calls[i].id),
        some_item(own_items(content, calls, items), "call_id"@, calls[i].id),
{
    let head = if content.len() > 0 {
        seq![plain_item("assistant"@, content)]
    } else {
        Seq::empty()
    };
    let foreign = foreign_items(content, calls);
    call_item_id(calls[i]);
    assert(foreign[head.len() + i] == call_item(calls[i]));
    let returned = items.map_values(|i: JsonView| returned_item(i, calls));
    let told = if content.len() > 0 && !some_item(returned, "type"@, "message"@) {
        returned.push(plain_item("assistant"@, content))
    } else {
        returned
    };
    with_calls_has(told, calls, i);
}

proof fn with_calls_has(items: Seq<JsonView>, calls: Seq<ToolCallView>, i: int)
    requires
        0 <= i < calls.len(),
    ensures
        some_item(with_calls(items, calls), "call_id"@, calls[i].id),
    decreases calls.len(),
{
    let key = "call_id"@;
    let rest = with_calls(items, calls.drop_last());
    let all = with_calls(items, calls);
    if i == calls.len() - 1 {
        if !some_item(rest, key, calls.last().id) {
            call_item_id(calls.last());
            assert(all[rest.len() as int] == call_item(calls.last()));
        }
    } else {
        with_calls_has(items, calls.drop_last(), i);
        let id = calls[i].id;
        let k = choose|k: int| 0 <= k < rest.len() && (#[trigger] rest[k]).text_at(key) == Some(id);
        assert(all[k] == rest[k]);
    }
}

/// The items that messages become in a request to `model`.
pub open spec fn all_items(messages: Seq<MessageView>, model: Seq<char>) -> Seq<JsonView>
    decreases messages.len(),
{
    if messages.len() == 0 {
        Seq::empty()
    } else {
        all_items(messages.drop_last(), model) + items_of(messages.last(), model)
    }
}

/// Text, where there is any, and images behind it.
pub fn response_content(content: &str, images: &Vec<ImageContent>) -> (parts: Vec<Json>)
    ensures
        parts.deep_view() == content_parts(content@, images.deep_view()),
{
    let mut parts: Vec<Json> = Vec::new();
    if !content.is_empty() {
        let mut entries: Vec<(String, Json)> = Vec::new();
        entries.push(("type".to_owned(), Json::text("input_text")));
        entries.push(("text".to_owned(), Json::text(content)));
        assert(entries.deep_view() =~= text_part(content@)->Object_0);
        parts.push(json::object(entries));
    }
    let ghost all = images.deep_view();
    let ghost head = parts.deep_view();
    let ghost f = |i: ImageView| image_part(i);
    let mut i: usize = 0;
    assert(parts.deep_view() =~= head + all.take(0).map_values(f));
    while i < images.len()
        invariant
            all == images.deep_view(),
            f == (|i: ImageView| image_part(i)),
            i <= images@.len(),
            parts.deep_view() == head + all.take(i as int).map_values(f),
        decreases images@.len() - i,
    {
        let ghost before = parts.deep_view();
        let mut entries: Vec<(String, Json)> = Vec::new();
        entries.push(("type".to_owned(), Json::text("input_image")));
        entries.push(("detail".to_owned(), Json::text("auto")));
        entries.push(("image_url".to_owned(), Json::Text(image_url(&images[i]))));
        assert(entries.deep_view() =~= image_part(images@[i as int].deep_view())->Object_0);
        parts.push(json::object(entries));
        proof {
            assert(all.take(i + 1).map_values(f) =~= all.take(i as int).map_values(f).push(
                f(all[i as int]),
            ));
            assert(parts.deep_view() =~= before.push(image_part(all[i as int])));
            assert(parts.deep_view() =~= head + all.take(i + 1).map_values(f));
        }
        i += 1;
    }
    proof {
        assert(all.take(i as int) =~= all);
        if content@.len() > 0 {
            assert(head =~= seq![text_part(content@)]);
        } else {
            assert(head =~= Seq::empty());
        }
    }
    parts
}

fn plain(role: &str, content: &str) -> (item: Json)
    ensures
        item.deep_view() == plain_item(role@, content@),
{
    let mut entries: Vec<(String, Json)> = Vec::new();
    entries.push(("role".to_owned(), Json::text(role)));
    entries.push(("content".to_owned(), Json::text(content)));
    assert(entries.deep_view() =~= plain_item(role@, content@)->Object_0);
    json::object(entries)
}

fn user(content: &str, images: &Vec<ImageContent>) -> (item: Json)
    ensures
        item.deep_view() == user_item(content@, images.deep_view()),
{
    if images.len() == 0 {
        return plain("user", content);
    }
    let mut entries: Vec<(String, Json)> = Vec::new();
    entries.push(("role".to_owned(), Json::text("user")));
    entries.push(("content".to_owned(), json::array(response_content(content, images))));
    assert(entries.deep_view() =~= user_item(content@, images.deep_view())->Object_0);
    json::object(entries)
}

fn call_as_item(call: &ToolCall) -> (item: Json)
    ensures
        item.deep_view() == call_item(call.deep_view()),
{
    let mut entries: Vec<(String, Json)> = Vec::new();
    entries.push(("type".to_owned(), Json::text("function_call")));
    entries.push(("call_id".to_owned(), Json::text(call.id.as_str())));
    entries.push(("name".to_owned(), Json::text(call.name.as_str())));
    entries.push(("arguments".to_owned(), Json::Text(json::write(&call.arguments))));
    assert(entries.deep_view() =~= call_item(call.deep_view())->Object_0);
    json::object(entries)
}

fn result_as_item(call_id: &str, content: &str, image: &Option<ImageContent>) -> (item: Json)
    ensures
        item.deep_view() == result_item(call_id@, content@, image.deep_view()),
{
    let output = match image {
        Some(image) => {
            let mut one: Vec<ImageContent> = Vec::new();
            one.push(image.clone());
            assert(one.deep_view() =~= seq![image.deep_view()]);
            json::array(response_content(content, &one))
        },
        None => Json::text(content),
    };
    let mut entries: Vec<(String, Json)> = Vec::new();
    entries.push(("type".to_owned(), Json::text("function_call_output")));
    entries.push(("call_id".to_owned(), Json::text(call_id)));
    entries.push(("output".to_owned(), output));
    assert(entries.deep_view() =~= result_item(call_id@, content@, image.deep_view())->Object_0);
    json::object(entries)
}

fn without(entries: &Vec<(String, Json)>, key: &str) -> (result: Vec<(String, Json)>)
    ensures
        result.deep_view() == drop_key(entries.deep_view(), key@),
{
    let ghost all = entries.deep_view();
    let mut result: Vec<(String, Json)> = Vec::new();
    let mut i: usize = 0;
    assert(result.deep_view() =~= drop_key(all.take(0), key@));
    while i < entries.len()
        invariant
            all == entries.deep_view(),
            i <= entries@.len(),
            result.deep_view() == drop_key(all.take(i as int), key@),
        decreases entries@.len() - i,
    {
        let ghost before = result.deep_view();
        proof {
            assert(all.take(i + 1).drop_last() =~= all.take(i as int));
            assert(all.take(i + 1).last() == entries@[i as int].deep_view());
        }
        if !text::same(entries[i].0.as_str(), key) {
            result.push((entries[i].0.clone(), entries[i].1.clone()));
            assert(result.deep_view() =~= before.push(entries@[i as int].deep_view()));
        }
        i += 1;
    }
    assert(all.take(i as int) =~= all);
    result
}

fn with_entry(entries: &Vec<(String, Json)>, key: &str, value: Json) -> (result: Vec<
    (String, Json),
>)
    ensures
        result.deep_view() == set_key(entries.deep_view(), key@, value.deep_view()),
{
    let mut result = without(entries, key);
    let ghost before = result.deep_view();
    let ghost view = value.deep_view();
    result.push((key.to_owned(), value));
    assert(result.deep_view() =~= before.push((key@, view)));
    result
}

fn find_call<'a>(calls: &'a Vec<ToolCall>, id: &str) -> (result: Option<&'a ToolCall>)
    ensures
        result.deep_view() == call_with_id(calls.deep_view(), id@),
{
    let ghost all = calls.deep_view();
    let mut i: usize = 0;
    assert(all.skip(0) =~= all);
    while i < calls.len()
        invariant
            all == calls.deep_view(),
            i <= calls@.len(),
            call_with_id(all, id@) == call_with_id(all.skip(i as int), id@),
        decreases calls@.len() - i,
    {
        proof {
            assert(all.skip(i as int)[0] == calls@[i as int].deep_view());
            assert(all.skip(i as int).skip(1) =~= all.skip(i + 1));
        }
        if text::same(calls[i].id.as_str(), id) {
            return Some(&calls[i]);
        }
        i += 1;
    }
    None
}

/// Whether a text is there and is `expected`.
fn is_text(found: Option<&String>, expected: &str) -> (result: bool)
    ensures
        result == (found.deep_view() == Some(expected@)),
{
    match found {
        Some(t) => text::same(t.as_str(), expected),
        None => false,
    }
}

fn return_item(item: &Json, calls: &Vec<ToolCall>) -> (result: Json)
    ensures
        result.deep_view() == returned_item(item.deep_view(), calls.deep_view()),
{
    match item {
        Json::Object(entries) => {
            proof {
                json::json_view_object(*entries);
            }
            let bare_entries = without(entries, "status");
            let ghost kept = bare_entries.deep_view();
            let bare = json::object(bare_entries);
            if !is_text(bare.text_at("type"), "function_call") {
                return bare;
            }
            let found = match bare.text_at("call_id") {
                Some(id) => find_call(calls, id.as_str()),
                None => None,
            };
            match found {
                Some(call) => {
                    let rest = without(entries, "status");
                    let named = with_entry(&rest, "name", Json::text(call.name.as_str()));
                    let done = with_entry(
                        &named,
                        "arguments",
                        Json::Text(json::write(&call.arguments)),
                    );
                    json::object(done)
                },
                None => bare,
            }
        },
        _ => item.clone(),
    }
}

fn has_item(items: &Vec<Json>, key: &str, value: &str) -> (result: bool)
    ensures
        result == some_item(items.deep_view(), key@, value@),
{
    let ghost all = items.deep_view();
    let mut i: usize = 0;
    while i < items.len()
        invariant
            all == items.deep_view(),
            i <= items@.len(),
            forall|k: int| 0 <= k < i ==> (#[trigger] all[k]).text_at(key@) != Some(value@),
        decreases items@.len() - i,
    {
        assert(all[i as int] == items@[i as int].deep_view());
        if is_text(items[i].text_at(key), value) {
            return true;
        }
        i += 1;
    }
    false
}

fn foreign_answer(content: &str, calls: &Vec<ToolCall>) -> (items: Vec<Json>)
    ensures
        items.deep_view() == foreign_items(content@, calls.deep_view()),
{
    let mut items: Vec<Json> = Vec::new();
    if !content.is_empty() {
        items.push(plain("assistant", content));
    }
    let ghost all = calls.deep_view();
    let ghost head = items.deep_view();
    let ghost f = |c: ToolCallView| call_item(c);
    let mut i: usize = 0;
    assert(items.deep_view() =~= head + all.take(0).map_values(f));
    while i < calls.len()
        invariant
            all == calls.deep_view(),
            f == (|c: ToolCallView| call_item(c)),
            i <= calls@.len(),
            items.deep_view() == head + all.take(i as int).map_values(f),
        decreases calls@.len() - i,
    {
        let ghost before = items.deep_view();
        items.push(call_as_item(&calls[i]));
        proof {
            assert(all.take(i + 1).map_values(f) =~= all.take(i as int).map_values(f).push(
                f(all[i as int]),
            ));
            assert(items.deep_view() =~= before.push(call_item(all[i as int])));
            assert(items.deep_view() =~= head + all.take(i + 1).map_values(f));
        }
        i += 1;
    }
    proof {
        assert(all.take(i as int) =~= all);
        if content@.len() > 0 {
            assert(head =~= seq![plain_item("assistant"@, content@)]);
        } else {
            assert(head =~= Seq::empty());
        }
    }
    items
}

fn own_answer(content: &str, calls: &Vec<ToolCall>, response_items: &Vec<Json>) -> (items: Vec<
    Json,
>)
    ensures
        items.deep_view() == own_items(
            content@,
            calls.deep_view(),
            response_items.deep_view(),
        ),
{
    let mut items: Vec<Json> = Vec::new();
    let ghost all = calls.deep_view();
    let ghost given = response_items.deep_view();
    let ghost returned = given.map_values(|i: JsonView| returned_item(i, all));
    let mut i: usize = 0;
    while i < response_items.len()
        invariant
            all == calls.deep_view(),
            given == response_items.deep_view(),
            returned == given.map_values(|i: JsonView| returned_item(i, all)),
            i <= response_items@.len(),
            items@.len() == i,
            forall|k: int| 0 <= k < i ==> (#[trigger] items@[k]).deep_view() == returned[k],
        decreases response_items@.len() - i,
    {
        assert(given[i as int] == response_items@[i as int].deep_view());
        items.push(return_item(&response_items[i], calls));
        i += 1;
    }
    assert(items.deep_view() =~= returned);
    if !content.is_empty() && !has_item(&items, "type", "message") {
        items.push(plain("assistant", content));
        assert(items.deep_view() =~= returned.push(plain_item("assistant"@, content@)));
    }
    let ghost told = items.deep_view();
    let mut n: usize = 0;
    while n < calls.len()
        invariant
            all == calls.deep_view(),
            n <= calls@.len(),
            items.deep_view() == with_calls(told, all.take(n as int)),
        decreases calls@.len() - n,
    {
        let ghost before = items.deep_view();
        proof {
            assert(all.take(n + 1).drop_last() =~= all.take(n as int));
            assert(all.take(n + 1).last() == calls@[n as int].deep_view());
        }
        if !has_item(&items, "call_id", calls[n].id.as_str()) {
            items.push(call_as_item(&calls[n]));
            assert(items.deep_view() =~= before.push(call_item(calls@[n as int].deep_view())));
        }
        n += 1;
    }
    assert(all.take(n as int) =~= all);
    items
}

/// The items that a message becomes in a request to `model`.
pub fn message_items(message: &Message, model: &str) -> (items: Vec<Json>)
    ensures
        items.deep_view() == items_of(message.deep_view(), model@),
{
    let mut items: Vec<Json> = Vec::new();
    match message {
        Message::System { content } => {
            items.push(plain("system", content.as_str()));
            assert(items.deep_view() =~= seq![plain_item("system"@, content@)]);
        },
        Message::User { content, images } => {
            items.push(user(content.as_str(), images));
            assert(items.deep_view() =~= seq![user_item(content@, images.deep_view())]);
        },
        Message::Steer { content, images } => {
            items.push(user(content.as_str(), images));
            assert(items.deep_view() =~= seq![user_item(content@, images.deep_view())]);
        },
        Message::Assistant { content, model: source, tool_calls, response_items, .. } => {
            if response_items.len() == 0 || !text::same(source.as_str(), model) {
                items = foreign_answer(content.as_str(), tool_calls);
            } else {
                items = own_answer(content.as_str(), tool_calls, response_items);
            }
        },
        Message::Tool { call_id, content, image, .. } => {
            items.push(result_as_item(call_id.as_str(), content.as_str(), image));
            assert(items.deep_view() =~= seq![
                result_item(call_id@, content@, image.deep_view()),
            ]);
        },
    }
    items
}

/// The items that messages become in a request to `model`.
pub fn input_items(messages: &Vec<Message>, model: &str) -> (items: Vec<Json>)
    ensures
        items.deep_view() == all_items(messages.deep_view(), model@),
{
    let ghost all = messages.deep_view();
    let mut items: Vec<Json> = Vec::new();
    let mut i: usize = 0;
    assert(items.deep_view() =~= all_items(all.take(0), model@));
    while i < messages.len()
        invariant
            all == messages.deep_view(),
            i <= messages@.len(),
            items.deep_view() == all_items(all.take(i as int), model@),
        decreases messages@.len() - i,
    {
        let ghost before = items.deep_view();
        proof {
            assert(all.take(i + 1).drop_last() =~= all.take(i as int));
            assert(all.take(i + 1).last() == messages@[i as int].deep_view());
        }
        let mut more = message_items(&messages[i], model);
        let ghost added = more.deep_view();
        items.append(&mut more);
        assert(items.deep_view() =~= before + added);
        i += 1;
    }
    assert(all.take(i as int) =~= all);
    items
}

// ---------------------------------------------------------------------------
// Events
// ---------------------------------------------------------------------------

/// What is known of the tool calls of a response.
pub struct DecoderView {
    /// The place of each call, by the key of its item.
    pub tool_indexes: Map<Seq<char>, usize>,
    /// The place of each call, by the place of its item.
    pub output_indexes: Map<usize, usize>,
    /// The arguments that were told of each call.
    pub arguments: Map<Seq<char>, Seq<char>>,
    /// The calls of which the name was told.
    pub announced: Set<Seq<char>>,
    pub next_tool: usize,
}

/// The text under `key`, or none.
pub open spec fn text_or(value: JsonView, key: Seq<char>) -> Seq<char> {
    match value.text_at(key) {
        Some(t) => t,
        None => Seq::empty(),
    }
}

/// The value of the first of two that is there.
pub open spec fn first_of(a: Option<JsonView>, b: Option<JsonView>) -> Option<JsonView> {
    match a {
        Some(value) => Some(value),
        None => b,
    }
}

/// The key of the item of a call.
pub open spec fn key_of(item: JsonView, event: JsonView) -> Seq<char> {
    match first_of(first_of(item.get("id"@), item.get("item_id"@)), event.get("item_id"@)) {
        Some(JsonView::Text(id)) => id,
        _ => "output-"@ + digits(
            match event.number_at("output_index"@) {
                Some(n) => n as nat,
                None => 0,
            },
        ),
    }
}

/// The place of the item of a call.
pub open spec fn place_of(event: JsonView) -> Option<usize> {
    match event.number_at("output_index"@) {
        Some(n) => Some(n as usize),
        None => None,
    }
}

/// The place of a call, which is the next one where the call is new.
pub open spec fn with_index(state: DecoderView, key: Seq<char>, event: JsonView) -> (
    DecoderView,
    usize,
) {
    let known = match place_of(event) {
        Some(place) if state.output_indexes.contains_key(place) => Some(
            state.output_indexes[place],
        ),
        _ => None,
    };
    if state.tool_indexes.contains_key(key) {
        (state, state.tool_indexes[key])
    } else if known is Some {
        (
            DecoderView { tool_indexes: state.tool_indexes.insert(key, known->0), ..state },
            known->0,
        )
    } else {
        let index = state.next_tool;
        (
            DecoderView {
                tool_indexes: state.tool_indexes.insert(key, index),
                output_indexes: match place_of(event) {
                    Some(place) => state.output_indexes.insert(place, index),
                    None => state.output_indexes,
                },
                next_tool: (index + 1) as usize,
                ..state
            },
            index,
        )
    }
}

/// A call begins.
pub open spec fn after_added(state: DecoderView, event: JsonView) -> (DecoderView, Seq<DeltaView>) {
    match event.get("item"@) {
        Some(item) if item.text_at("type"@) == Some("function_call"@) => {
            let key = key_of(item, event);
            let (next, index) = with_index(state, key, event);
            let arguments = text_or(item, "arguments"@);
            (
                DecoderView {
                    arguments: next.arguments.insert(key, arguments),
                    announced: next.announced.insert(key),
                    ..next
                },
                seq![
                    DeltaView::ToolCall {
                        index,
                        id: item.text_at("call_id"@),
                        name: item.text_at("name"@),
                        arguments,
                    },
                ],
            )
        },
        _ => (state, Seq::empty()),
    }
}

/// More arguments of a call.
pub open spec fn after_arguments(state: DecoderView, event: JsonView) -> (
    DecoderView,
    Seq<DeltaView>,
) {
    let key = key_of(event, event);
    let (next, index) = with_index(state, key, event);
    let delta = text_or(event, "delta"@);
    let told = if next.arguments.contains_key(key) {
        next.arguments[key]
    } else {
        Seq::empty()
    };
    (
        DecoderView { arguments: next.arguments.insert(key, told + delta), ..next },
        seq![DeltaView::ToolCall { index, id: None, name: None, arguments: delta }],
    )
}

/// What of `complete` was not told yet, where it goes on from what was.
pub open spec fn missing(complete: Seq<char>, told: Seq<char>) -> Seq<char> {
    if has_prefix(complete, told) {
        complete.skip(told.len() as int)
    } else {
        Seq::empty()
    }
}

/// An item is complete.
pub open spec fn after_done(state: DecoderView, event: JsonView) -> (DecoderView, Seq<DeltaView>) {
    match event.get("item"@) {
        Some(item) => if item.text_at("type"@) == Some("function_call"@) {
            let key = key_of(item, event);
            let (next, index) = with_index(state, key, event);
            let fresh = !next.announced.contains(key);
            let told = if next.arguments.contains_key(key) {
                next.arguments[key]
            } else {
                Seq::empty()
            };
            let rest = missing(text_or(item, "arguments"@), told);
            let call = DeltaView::ToolCall {
                index,
                id: if fresh {
                    item.text_at("call_id"@)
                } else {
                    None
                },
                name: if fresh {
                    item.text_at("name"@)
                } else {
                    None
                },
                arguments: rest,
            };
            (
                DecoderView { announced: next.announced.insert(key), ..next },
                if fresh || rest.len() > 0 {
                    seq![call, DeltaView::OutputItem(item)]
                } else {
                    seq![DeltaView::OutputItem(item)]
                },
            )
        } else {
            (state, seq![DeltaView::OutputItem(item)])
        },
        None => (state, Seq::empty()),
    }
}

/// The value at the end of a path of two keys.
pub open spec fn at_two(value: JsonView, a: Seq<char>, b: Seq<char>) -> Option<JsonView> {
    match value.get(a) {
        Some(inner) => inner.get(b),
        None => None,
    }
}

/// The tokens that an event tells.
pub open spec fn usage_of(event: JsonView) -> Option<Usage> {
    match at_two(event, "response"@, "usage"@) {
        Some(usage) => match (usage.number_at("input_tokens"@), usage.number_at("total_tokens"@)) {
            (Some(prompt_tokens), Some(total_tokens)) => Some(
                Usage { prompt_tokens, total_tokens },
            ),
            _ => None,
        },
        None => None,
    }
}

/// What an event of a failure says.
pub open spec fn failure_of(event: JsonView) -> Seq<char> {
    let nested = match at_two(event, "response"@, "error"@) {
        Some(error) => error.get("message"@),
        None => None,
    };
    match first_of(first_of(nested, at_two(event, "error"@, "message"@)), event.get("message"@)) {
        Some(JsonView::Text(message)) => message,
        _ => "Responses API request failed"@,
    }
}

/// A delta of text, where there is any.
pub open spec fn text_deltas(event: JsonView, thinking: bool) -> Seq<DeltaView> {
    match event.text_at("delta"@) {
        Some(delta) if delta.len() > 0 => seq![
            if thinking {
                DeltaView::Reasoning(delta)
            } else {
                DeltaView::Text(delta)
            },
        ],
        _ => Seq::empty(),
    }
}

/// What an event says, and what is known behind it.
pub open spec fn after_event(state: DecoderView, event: JsonView) -> (
    DecoderView,
    Result<Seq<DeltaView>, Seq<char>>,
) {
    let kind = text_or(event, "type"@);
    if kind == "response.output_text.delta"@ || kind == "response.refusal.delta"@ {
        (state, Ok(text_deltas(event, false)))
    } else if kind == "response.reasoning_summary_text.delta"@ || kind
        == "response.reasoning_text.delta"@ {
        (state, Ok(text_deltas(event, true)))
    } else if kind == "response.output_item.added"@ {
        let (next, deltas) = after_added(state, event);
        (next, Ok(deltas))
    } else if kind == "response.function_call_arguments.delta"@ {
        let (next, deltas) = after_arguments(state, event);
        (next, Ok(deltas))
    } else if kind == "response.output_item.done"@ {
        let (next, deltas) = after_done(state, event);
        (next, Ok(deltas))
    } else if kind == "response.completed"@ || kind == "response.incomplete"@ {
        (
            state,
            Ok(
                match usage_of(event) {
                    Some(usage) => seq![DeltaView::Usage(usage)],
                    None => Seq::empty(),
                },
            ),
        )
    } else if kind == "response.failed"@ || kind == "error"@ {
        (state, Err(failure_of(event)))
    } else {
        (state, Ok(Seq::empty()))
    }
}

/// Reads the events of a response.
#[derive(Debug)]
pub struct ResponsesDecoder {
    tool_indexes: TextTable,
    output_indexes: IndexTable,
    arguments: TextMap,
    announced: TextSet,
    next_tool: usize,
}

impl View for ResponsesDecoder {
    type V = DecoderView;

    closed spec fn view(&self) -> DecoderView {
        DecoderView {
            tool_indexes: self.tool_indexes@,
            output_indexes: self.output_indexes@,
            arguments: self.arguments@,
            announced: self.announced@,
            next_tool: self.next_tool,
        }
    }
}

/// What a list of deltas says.
pub open spec fn deltas_view(result: Result<Vec<ResponseDelta>, String>) -> Result<
    Seq<DeltaView>,
    Seq<char>,
> {
    match result {
        Ok(deltas) => Ok(deltas.deep_view()),
        Err(error) => Err(error@),
    }
}

fn text_or_none(value: &Json, key: &str) -> (result: String)
    ensures
        result@ == text_or(value.deep_view(), key@),
{
    match value.text_at(key) {
        Some(t) => t.clone(),
        None => String::new(),
    }
}

fn copy_text(value: Option<&String>) -> (result: Option<String>)
    ensures
        result.deep_view() == value.deep_view(),
{
    match value {
        Some(t) => Some(t.clone()),
        None => None,
    }
}

fn no_deltas() -> (deltas: Vec<ResponseDelta>)
    ensures
        deltas.deep_view() == Seq::<DeltaView>::empty(),
{
    let deltas: Vec<ResponseDelta> = Vec::new();
    assert(deltas.deep_view() =~= Seq::empty());
    deltas
}

fn one_delta(delta: ResponseDelta) -> (deltas: Vec<ResponseDelta>)
    ensures
        deltas.deep_view() == seq![delta.deep_view()],
{
    let mut deltas: Vec<ResponseDelta> = Vec::new();
    let ghost view = delta.deep_view();
    deltas.push(delta);
    assert(deltas.deep_view() =~= seq![view]);
    deltas
}

/// The key of the item of a call.
pub fn item_key(item: &Json, event: &Json) -> (key: String)
    ensures
        key@ == key_of(item.deep_view(), event.deep_view()),
{
    let found = match item.get("id") {
        Some(value) => Some(value),
        None => match item.get("item_id") {
            Some(value) => Some(value),
            None => event.get("item_id"),
        },
    };
    match found {
        Some(Json::Text(id)) => id.clone(),
        _ => {
            let n: u64 = match event.number_at("output_index") {
                Some(n) => n,
                None => 0,
            };
            text::join_two("output-", text::decimal(n).as_str())
        },
    }
}

/// The tokens that an event tells.
pub fn usage(event: &Json) -> (result: Option<Usage>)
    ensures
        result == usage_of(event.deep_view()),
{
    let inner = match event.get("response") {
        Some(response) => response.get("usage"),
        None => None,
    };
    match inner {
        Some(usage) => match (usage.number_at("input_tokens"), usage.number_at("total_tokens")) {
            (Some(prompt_tokens), Some(total_tokens)) => Some(
                Usage { prompt_tokens, total_tokens },
            ),
            _ => None,
        },
        None => None,
    }
}

fn failure(event: &Json) -> (message: String)
    ensures
        message@ == failure_of(event.deep_view()),
{
    let nested = match event.get("response") {
        Some(response) => match response.get("error") {
            Some(error) => error.get("message"),
            None => None,
        },
        None => None,
    };
    let flat = match event.get("error") {
        Some(error) => error.get("message"),
        None => None,
    };
    let found = match nested {
        Some(value) => Some(value),
        None => match flat {
            Some(value) => Some(value),
            None => event.get("message"),
        },
    };
    match found {
        Some(Json::Text(message)) => message.clone(),
        _ => "Responses API request failed".to_owned(),
    }
}

fn text_delta(event: &Json, thinking: bool) -> (deltas: Vec<ResponseDelta>)
    ensures
        deltas.deep_view() == text_deltas(event.deep_view(), thinking),
{
    match event.text_at("delta") {
        Some(delta) => if delta.as_str().is_empty() {
            no_deltas()
        } else if thinking {
            one_delta(ResponseDelta::Reasoning(delta.clone()))
        } else {
            one_delta(ResponseDelta::Text(delta.clone()))
        },
        None => no_deltas(),
    }
}

impl ResponsesDecoder {
    pub fn new() -> (result: Self)
        ensures
            result@ == (DecoderView {
                tool_indexes: Map::empty(),
                output_indexes: Map::empty(),
                arguments: Map::empty(),
                announced: Set::empty(),
                next_tool: 0,
            }),
    {
        ResponsesDecoder {
            tool_indexes: TextTable::new(),
            output_indexes: IndexTable::new(),
            arguments: TextMap::new(),
            announced: TextSet::new(),
            next_tool: 0,
        }
    }

    #[verifier::truncate]
    fn tool_index(&mut self, key: &str, event: &Json) -> (index: usize)
        requires
            old(self)@.next_tool < usize::MAX,
        ensures
            (final(self)@, index) == with_index(old(self)@, key@, event.deep_view()),
    {
        match self.tool_indexes.get(key) {
            Some(index) => {
                return index;
            },
            None => {},
        }
        let place: Option<usize> = match event.number_at("output_index") {
            Some(n) => Some(n as usize),
            None => None,
        };
        match place {
            Some(place) => match self.output_indexes.get(place) {
                Some(index) => {
                    self.tool_indexes.insert(key.to_owned(), index);
                    return index;
                },
                None => {},
            },
            None => {},
        }
        let index: usize = self.next_tool;
        self.next_tool = index + 1;
        self.tool_indexes.insert(key.to_owned(), index);
        match place {
            Some(place) => {
                self.output_indexes.insert(place, index);
            },
            None => {},
        }
        index
    }

    fn tool_added(&mut self, event: &Json) -> (deltas: Vec<ResponseDelta>)
        requires
            old(self)@.next_tool < usize::MAX,
        ensures
            (final(self)@, deltas.deep_view()) == after_added(old(self)@, event.deep_view()),
    {
        let item = match event.get("item") {
            Some(item) => item,
            None => {
                return no_deltas();
            },
        };
        if !is_text(item.text_at("type"), "function_call") {
            return no_deltas();
        }
        let key = item_key(item, event);
        let index: usize = self.tool_index(key.as_str(), event);
        let arguments = text_or_none(item, "arguments");
        self.arguments.insert(key.clone(), arguments.clone());
        self.announced.insert(key);
        one_delta(
            ResponseDelta::ToolCall {
                index,
                id: copy_text(item.text_at("call_id")),
                name: copy_text(item.text_at("name")),
                arguments,
            },
        )
    }

    fn tool_arguments_delta(&mut self, event: &Json) -> (deltas: Vec<ResponseDelta>)
        requires
            old(self)@.next_tool < usize::MAX,
        ensures
            (final(self)@, deltas.deep_view()) == after_arguments(old(self)@, event.deep_view()),
    {
        let key = item_key(event, event);
        let index: usize = self.tool_index(key.as_str(), event);
        let arguments = text_or_none(event, "delta");
        let told = match self.arguments.get(key.as_str()) {
            Some(told) => text::join_two(told.as_str(), arguments.as_str()),
            None => {
                assert(Seq::<char>::empty() + arguments@ =~= arguments@);
                arguments.clone()
            },
        };
        self.arguments.insert(key, told);
        one_delta(ResponseDelta::ToolCall { index, id: None, name: None, arguments })
    }

    fn item_done(&mut self, event: &Json) -> (deltas: Vec<ResponseDelta>)
        requires
            old(self)@.next_tool < usize::MAX,
        ensures
            (final(self)@, deltas.deep_view()) == after_done(old(self)@, event.deep_view()),
    {
        let item = match event.get("item") {
            Some(item) => item,
            None => {
                return no_deltas();
            },
        };
        let mut deltas: Vec<ResponseDelta> = Vec::new();
        if is_text(item.text_at("type"), "function_call") {
            let key = item_key(item, event);
            let index: usize = self.tool_index(key.as_str(), event);
            let fresh = !self.announced.contains(key.as_str());
            let complete = text_or_none(item, "arguments");
            let told = match self.arguments.get(key.as_str()) {
                Some(told) => told.clone(),
                None => String::new(),
            };
            let rest = match text::strip_prefix(complete.as_str(), told.as_str()) {
                Some(rest) => rest,
                None => String::new(),
            };
            self.announced.insert(key);
            let found = !rest.as_str().is_empty();
            if fresh || found {
                deltas.push(
                    ResponseDelta::ToolCall {
                        index,
                        id: if fresh {
                            copy_text(item.text_at("call_id"))
                        } else {
                            None
                        },
                        name: if fresh {
                            copy_text(item.text_at("name"))
                        } else {
                            None
                        },
                        arguments: rest,
                    },
                );
            }
        }
        deltas.push(ResponseDelta::OutputItem(item.clone()));
        assert(deltas.deep_view() =~= after_done(old(self)@, event.deep_view()).1);
        deltas
    }

    /// Takes in an event.
    pub fn take(&mut self, event: &Json) -> (result: Result<Vec<ResponseDelta>, String>)
        requires
            old(self)@.next_tool < usize::MAX,
        ensures
            (final(self)@, deltas_view(result)) == after_event(old(self)@, event.deep_view()),
    {
        let kind = text_or_none(event, "type");
        let kind = kind.as_str();
        if text::same(kind, "response.output_text.delta") || text::same(
            kind,
            "response.refusal.delta",
        ) {
            Ok(text_delta(event, false))
        } else if text::same(kind, "response.reasoning_summary_text.delta") || text::same(
            kind,
            "response.reasoning_text.delta",
        ) {
            Ok(text_delta(event, true))
        } else if text::same(kind, "response.output_item.added") {
            Ok(self.tool_added(event))
        } else if text::same(kind, "response.function_call_arguments.delta") {
            Ok(self.tool_arguments_delta(event))
        } else if text::same(kind, "response.output_item.done") {
            Ok(self.item_done(event))
        } else if text::same(kind, "response.completed") || text::same(
            kind,
            "response.incomplete",
        ) {
            match usage(event) {
                Some(usage) => Ok(one_delta(ResponseDelta::Usage(usage))),
                None => Ok(no_deltas()),
            }
        } else if text::same(kind, "response.failed") || text::same(kind, "error") {
            Err(failure(event))
        } else {
            Ok(no_deltas())
        }
    }

    /// Takes in the text of an event.
    pub fn parse(&mut self, data: &str) -> (result: Result<Vec<ResponseDelta>, String>)
        requires
            old(self)@.next_tool < usize::MAX,
        ensures
            match read_json(data@) {
                Some(event) => (final(self)@, deltas_view(result)) == after_event(
                    old(self)@,
                    event,
                ),
                None => final(self)@ == old(self)@ && deltas_view(result) == Err::<
                    Seq<DeltaView>,
                    Seq<char>,
                >("decode Responses API event"@ + ": "@ + json_fault(data@)),
            },
    {
        match json::parse_for("decode Responses API event", data) {
            Ok(event) => self.take(&event),
            Err(error) => Err(error),
        }
    }
}

/// A call keeps its place: once its item has one, every later event of that item
/// goes there.
pub proof fn stable_index_law(
    state: DecoderView,
    key: Seq<char>,
    event: JsonView,
    other: Seq<char>,
    later: JsonView,
)
    requires
        state.next_tool < usize::MAX,
    ensures
        ({
            let (next, index) = with_index(state, key, event);
            let after = with_index(next, other, later).0;
            with_index(after, key, later).1 == index
        }),
{
}

/// When an item is complete and goes on from what was told of it, what is told then
/// is all of its arguments, each once.
pub proof fn complete_arguments_law(complete: Seq<char>, told: Seq<char>)
    requires
        has_prefix(complete, told),
    ensures
        told + missing(complete, told) == complete,
{
    assert(told + missing(complete, told) =~= complete) by {
        assert(complete.subrange(0, told.len() as int) == told);
    }
}

} // verus!
