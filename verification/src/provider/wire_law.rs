//! What holds of requests, in either protocol: that the model is shown what the
//! conversation holds.
use super::body::{
    chat_entries, chat_tool, limit, list, maybe, number, reasoning, response_entries,
    response_tool,
};
use super::openai::{
    endpoint_named, wire_call, wire_image_part, wire_message, wire_parts, wire_text_part,
};
use super::responses::{
    all_items, call_item, call_with_id, content_parts, drop_key, foreign_items, image_part,
    items_of, own_items, plain_item, result_item, returned_item, set_key, some_item, text_part,
    user_item, with_calls,
};
use crate::config::ProviderView;
use crate::json::{entry, written, JsonView};
use crate::json_law::{entries_law, entry_law, no_entry_law, one_entry_law};
use crate::runtime::effort_name;
use crate::runtime::message::{ImageView, MessageView, ToolCallView};
use crate::runtime::turn::RequestView;
use crate::tool::registry::DefinitionView;
use vstd::prelude::*;
use vstd::string::*;

verus! {

// ---------------------------------------------------------------------------
// Parts of a message
// ---------------------------------------------------------------------------

/// The link that holds an image: its type and all of its data.
pub open spec fn is_link_to(url: Seq<char>, image: ImageView) -> bool {
    url == "data:"@ + image.mime_type + ";base64,"@ + image.data
}

/// Parts that show a text, where there is any, and behind it the images, each in its
/// place.
pub open spec fn shows(parts: Seq<JsonView>, content: Seq<char>, images: Seq<ImageView>) -> bool {
    let skipped = if content.len() > 0 {
        1int
    } else {
        0
    };
    &&& parts.len() == skipped + images.len()
    &&& content.len() > 0 ==> parts[0].text_at("type"@) == Some("input_text"@)
        && parts[0].text_at("text"@) == Some(content)
    &&& forall|i: int|
        0 <= i < images.len() ==> {
            let part = #[trigger] parts[skipped + i];
            &&& part.text_at("type"@) == Some("input_image"@)
            &&& part.text_at("image_url"@) is Some
            &&& is_link_to(part.text_at("image_url"@)->0, images[i])
        }
}

proof fn parts_show(content: Seq<char>, images: Seq<ImageView>)
    ensures
        shows(content_parts(content, images), content, images),
{
    reveal_strlit("type");
    reveal_strlit("text");
    reveal_strlit("detail");
    reveal_strlit("image_url");
    assert("type"@[1] != "text"@[1]);
    assert("type"@.len() != "detail"@.len());
    assert("type"@.len() != "image_url"@.len());
    assert("text"@.len() != "detail"@.len());
    assert("text"@.len() != "image_url"@.len());
    assert("detail"@.len() != "image_url"@.len());
    let parts = content_parts(content, images);
    let skipped = if content.len() > 0 {
        1int
    } else {
        0
    };
    if content.len() > 0 {
        assert(parts[0] == text_part(content));
        let e = text_part(content)->Object_0;
        assert(e[0].0 == "type"@);
        assert(e[1].0 == "text"@);
        entry_law(e, 0);
        assert forall|k: int| 0 <= k < 1 implies (#[trigger] e[k]).0 != e[1].0 by {
            assert(k == 0);
        }
        entry_law(e, 1);
    }
    assert forall|i: int| 0 <= i < images.len() implies ({
        let part = #[trigger] parts[skipped + i];
        &&& part.text_at("type"@) == Some("input_image"@)
        &&& part.text_at("image_url"@) is Some
        &&& is_link_to(part.text_at("image_url"@)->0, images[i])
    }) by {
        assert(parts[skipped + i] == image_part(images[i]));
        let e = image_part(images[i])->Object_0;
        assert(e[0].0 == "type"@);
        assert(e[1].0 == "detail"@);
        assert(e[2].0 == "image_url"@);
        entry_law(e, 0);
        assert forall|k: int| 0 <= k < 1 implies (#[trigger] e[k]).0 != e[1].0 by {
            assert(k == 0);
        }
        entry_law(e, 1);
        assert forall|k: int| 0 <= k < 2 implies (#[trigger] e[k]).0 != e[2].0 by {
            assert(k == 0 || k == 1);
        }
        entry_law(e, 2);
    }
}

/// A text that stands alone, or with images behind it.
pub open spec fn tells(value: Option<JsonView>, content: Seq<char>, images: Seq<ImageView>) -> bool {
    if images.len() == 0 {
        value == Some(JsonView::Text(content))
    } else {
        value matches Some(JsonView::Array(parts)) && shows(parts, content, images)
    }
}

/// The image of a result, as a list.
pub open spec fn one_image(image: Option<ImageView>) -> Seq<ImageView> {
    match image {
        Some(image) => seq![image],
        None => Seq::empty(),
    }
}

// ---------------------------------------------------------------------------
// The Responses protocol
// ---------------------------------------------------------------------------

/// The result of a tool becomes one item, which names the call and holds the text of the
/// result, and its image where it has one. Results that differ become items that differ.
pub proof fn result_law(
    call_id: Seq<char>,
    content: Seq<char>,
    image: Option<ImageView>,
    diff: Option<Seq<char>>,
    model: Seq<char>,
)
    ensures
        ({
            let items = items_of(MessageView::Tool { call_id, content, image, diff }, model);
            &&& items.len() == 1
            &&& items[0].text_at("type"@) == Some("function_call_output"@)
            &&& items[0].text_at("call_id"@) == Some(call_id)
            &&& tells(items[0].get("output"@), content, one_image(image))
            &&& image is None ==> items[0].text_at("output"@) == Some(content)
        }),
{
    reveal_strlit("type");
    reveal_strlit("call_id");
    reveal_strlit("output");
    assert("type"@.len() != "call_id"@.len());
    assert("type"@.len() != "output"@.len());
    assert("call_id"@.len() != "output"@.len());
    let e = result_item(call_id, content, image)->Object_0;
    assert(e[0].0 == "type"@);
    assert(e[1].0 == "call_id"@);
    assert(e[2].0 == "output"@);
    entry_law(e, 0);
    assert forall|k: int| 0 <= k < 1 implies (#[trigger] e[k]).0 != e[1].0 by {
        assert(k == 0);
    }
    entry_law(e, 1);
    assert forall|k: int| 0 <= k < 2 implies (#[trigger] e[k]).0 != e[2].0 by {
        assert(k == 0 || k == 1);
    }
    entry_law(e, 2);
    match image {
        Some(image) => {
            parts_show(content, seq![image]);
        },
        None => {},
    }
}

/// What the user said, at once or during a turn, becomes one item of the user, with all of
/// the text and all images; what the system says becomes one of the system.
pub proof fn said_law(content: Seq<char>, images: Seq<ImageView>, model: Seq<char>)
    ensures
        ({
            let user = items_of(MessageView::User { content, images }, model);
            let steer = items_of(MessageView::Steer { content, images }, model);
            let system = items_of(MessageView::System { content }, model);
            &&& steer == user
            &&& user.len() == 1
            &&& user[0].text_at("role"@) == Some("user"@)
            &&& tells(user[0].get("content"@), content, images)
            &&& system.len() == 1
            &&& system[0].text_at("role"@) == Some("system"@)
            &&& system[0].text_at("content"@) == Some(content)
        }),
{
    reveal_strlit("role");
    reveal_strlit("content");
    assert("role"@.len() != "content"@.len());
    let e = user_item(content, images)->Object_0;
    assert(e[0].0 == "role"@);
    assert(e[1].0 == "content"@);
    entry_law(e, 0);
    assert forall|k: int| 0 <= k < 1 implies (#[trigger] e[k]).0 != e[1].0 by {
        assert(k == 0);
    }
    entry_law(e, 1);
    let s = plain_item("system"@, content)->Object_0;
    assert(s[0].0 == "role"@);
    assert(s[1].0 == "content"@);
    entry_law(s, 0);
    assert forall|k: int| 0 <= k < 1 implies (#[trigger] s[k]).0 != s[1].0 by {
        assert(k == 0);
    }
    entry_law(s, 1);
    parts_show(content, images);
}

/// An item that calls a tool as it was called.
pub open spec fn calls_tool(item: JsonView, call: ToolCallView) -> bool {
    &&& item.text_at("type"@) == Some("function_call"@)
    &&& item.text_at("call_id"@) == Some(call.id)
    &&& item.text_at("name"@) == Some(call.name)
    &&& item.text_at("arguments"@) == Some(written(call.arguments))
}

proof fn call_calls(call: ToolCallView)
    ensures
        calls_tool(call_item(call), call),
{
    reveal_strlit("type");
    reveal_strlit("call_id");
    reveal_strlit("name");
    reveal_strlit("arguments");
    assert("type"@.len() != "call_id"@.len());
    assert("type"@[0] != "name"@[0]);
    assert("type"@.len() != "arguments"@.len());
    assert("call_id"@.len() != "name"@.len());
    assert("call_id"@.len() != "arguments"@.len());
    assert("name"@.len() != "arguments"@.len());
    let e = call_item(call)->Object_0;
    assert(e[0].0 == "type"@);
    assert(e[1].0 == "call_id"@);
    assert(e[2].0 == "name"@);
    assert(e[3].0 == "arguments"@);
    entry_law(e, 0);
    assert forall|k: int| 0 <= k < 1 implies (#[trigger] e[k]).0 != e[1].0 by {
        assert(k == 0);
    }
    entry_law(e, 1);
    assert forall|k: int| 0 <= k < 2 implies (#[trigger] e[k]).0 != e[2].0 by {
        assert(k == 0 || k == 1);
    }
    entry_law(e, 2);
    assert forall|k: int| 0 <= k < 3 implies (#[trigger] e[k]).0 != e[3].0 by {
        assert(k == 0 || k == 1 || k == 2);
    }
    entry_law(e, 3);
}

proof fn plain_says(role: Seq<char>, content: Seq<char>)
    ensures
        plain_item(role, content).text_at("role"@) == Some(role),
        plain_item(role, content).text_at("content"@) == Some(content),
        plain_item(role, content).get("type"@) is None,
        plain_item(role, content).get("call_id"@) is None,
{
    reveal_strlit("role");
    reveal_strlit("content");
    reveal_strlit("type");
    reveal_strlit("call_id");
    assert("role"@.len() != "content"@.len());
    assert("role"@[0] != "type"@[0]);
    assert("role"@.len() != "call_id"@.len());
    assert("content"@.len() != "type"@.len());
    assert("content"@[1] != "call_id"@[1]);
    assert("type"@.len() != "call_id"@.len());
    let e = plain_item(role, content)->Object_0;
    assert(e[0].0 == "role"@);
    assert(e[1].0 == "content"@);
    entry_law(e, 0);
    assert forall|k: int| 0 <= k < 1 implies (#[trigger] e[k]).0 != e[1].0 by {
        assert(k == 0);
    }
    entry_law(e, 1);
    assert forall|k: int| 0 <= k < e.len() implies (#[trigger] e[k]).0 != "type"@ && e[k].0
        != "call_id"@ by {
        assert(k == 0 || k == 1);
    }
    no_entry_law(e, "type"@);
    no_entry_law(e, "call_id"@);
}

/// An answer of another model becomes its text, where it has any, and then its calls, each
/// in its place with its name and its arguments.
pub proof fn foreign_answer_law(
    content: Seq<char>,
    source: Seq<char>,
    thoughts: Seq<char>,
    calls: Seq<ToolCallView>,
    items: Seq<JsonView>,
    model: Seq<char>,
)
    requires
        source != model || items.len() == 0,
    ensures
        ({
            let told = items_of(
                MessageView::Assistant {
                    content,
                    model: source,
                    reasoning: thoughts,
                    tool_calls: calls,
                    response_items: items,
                },
                model,
            );
            let skipped = if content.len() > 0 {
                1int
            } else {
                0
            };
            &&& told.len() == skipped + calls.len()
            &&& content.len() > 0 ==> told[0].text_at("role"@) == Some("assistant"@)
                && told[0].text_at("content"@) == Some(content)
            &&& forall|i: int|
                0 <= i < calls.len() ==> calls_tool(#[trigger] told[skipped + i], calls[i])
        }),
{
    let told = foreign_items(content, calls);
    let skipped = if content.len() > 0 {
        1int
    } else {
        0
    };
    plain_says("assistant"@, content);
    assert forall|i: int| 0 <= i < calls.len() implies calls_tool(
        #[trigger] told[skipped + i],
        calls[i],
    ) by {
        assert(told[skipped + i] == call_item(calls[i]));
        call_calls(calls[i]);
    }
}

proof fn dropped(entries: Seq<(Seq<char>, JsonView)>, key: Seq<char>, q: Seq<char>)
    ensures
        entry(drop_key(entries, key), q) == if q == key {
            None
        } else {
            entry(entries, q)
        },
    decreases entries.len(),
{
    if entries.len() > 0 {
        let rest = entries.drop_last();
        let last = entries.last();
        dropped(rest, key, q);
        assert(entries =~= rest + seq![(last.0, last.1)]);
        entries_law(rest, seq![(last.0, last.1)], q);
        one_entry_law(last.0, last.1, q);
        if last.0 != key {
            assert(drop_key(entries, key) =~= drop_key(rest, key) + seq![(last.0, last.1)]);
            entries_law(drop_key(rest, key), seq![(last.0, last.1)], q);
        }
    }
}

proof fn was_set(
    entries: Seq<(Seq<char>, JsonView)>,
    key: Seq<char>,
    value: JsonView,
    q: Seq<char>,
)
    ensures
        entry(set_key(entries, key, value), q) == if q == key {
            Some(value)
        } else {
            entry(entries, q)
        },
{
    dropped(entries, key, q);
    assert(set_key(entries, key, value) =~= drop_key(entries, key) + seq![(key, value)]);
    entries_law(drop_key(entries, key), seq![(key, value)], q);
    one_entry_law(key, value, q);
}

proof fn found_call(calls: Seq<ToolCallView>, id: Seq<char>)
    ensures
        match call_with_id(calls, id) {
            Some(call) => calls.contains(call) && call.id == id,
            None => forall|i: int| 0 <= i < calls.len() ==> (#[trigger] calls[i]).id != id,
        },
    decreases calls.len(),
{
    if calls.len() > 0 && calls[0].id != id {
        let rest = calls.skip(1);
        found_call(rest, id);
        match call_with_id(calls, id) {
            Some(call) => {
                let i = choose|i: int| 0 <= i < rest.len() && rest[i] == call;
                assert(calls[i + 1] == call);
            },
            None => {
                assert forall|i: int| 0 <= i < calls.len() implies (#[trigger] calls[i]).id != id by {
                    if i > 0 {
                        assert(rest[i - 1] == calls[i]);
                    }
                }
            },
        }
    } else if calls.len() > 0 {
        assert(calls.contains(calls[0]));
    }
}

/// An item of a response goes back as it came, but for its status, which is left out; and a
/// call goes back with the name and the arguments that were kept of it.
pub proof fn returned_law(item: JsonView, calls: Seq<ToolCallView>, q: Seq<char>)
    requires
        item is Object,
    ensures
        ({
            let back = returned_item(item, calls);
            &&& back.get("status"@) is None
            &&& q != "status"@ && q != "name"@ && q != "arguments"@ ==> back.get(q) == item.get(q)
            &&& item.text_at("type"@) != Some("function_call"@) && q != "status"@ ==> back.get(q)
                == item.get(q)
            &&& item.text_at("type"@) == Some("function_call"@) ==> {
                &&& (exists|i: int|
                    0 <= i < calls.len() && item.text_at("call_id"@) == Some(
                        (#[trigger] calls[i]).id,
                    )) ==> exists|i: int|
                    0 <= i < calls.len() && calls_tool(back, #[trigger] calls[i])
                &&& (forall|i: int|
                    0 <= i < calls.len() ==> item.text_at("call_id"@) != Some(
                        (#[trigger] calls[i]).id,
                    )) && q != "status"@ ==> back.get(q) == item.get(q)
            }
        }),
{
    reveal_strlit("type");
    reveal_strlit("call_id");
    reveal_strlit("name");
    reveal_strlit("arguments");
    reveal_strlit("status");
    assert("type"@.len() != "call_id"@.len());
    assert("type"@[0] != "name"@[0]);
    assert("type"@.len() != "arguments"@.len());
    assert("type"@.len() != "status"@.len());
    assert("call_id"@.len() != "name"@.len());
    assert("call_id"@.len() != "arguments"@.len());
    assert("call_id"@.len() != "status"@.len());
    assert("name"@.len() != "arguments"@.len());
    assert("name"@.len() != "status"@.len());
    assert("arguments"@.len() != "status"@.len());
    let entries = item->Object_0;
    let bare = drop_key(entries, "status"@);
    assert forall|k: Seq<char>| #[trigger] entry(bare, k) == if k == "status"@ {
        None
    } else {
        entry(entries, k)
    } by {
        dropped(entries, "status"@, k);
    }
    let bare_item = JsonView::Object(bare);
    assert(bare_item.text_at("type"@) == item.text_at("type"@)) by {
        assert(entry(bare, "type"@) == entry(entries, "type"@));
    }
    assert(bare_item.text_at("call_id"@) == item.text_at("call_id"@)) by {
        assert(entry(bare, "call_id"@) == entry(entries, "call_id"@));
    }
    let back = returned_item(item, calls);
    assert(entry(bare, "status"@) is None);
    assert(entry(bare, q) == if q == "status"@ {
        None
    } else {
        entry(entries, q)
    });
    if item.text_at("type"@) == Some("function_call"@) && item.text_at("call_id"@) is Some {
        let id = item.text_at("call_id"@)->0;
        found_call(calls, id);
        match call_with_id(calls, id) {
            Some(call) => {
                let named = set_key(bare, "name"@, JsonView::Text(call.name));
                let text = JsonView::Text(written(call.arguments));
                let done = set_key(named, "arguments"@, text);
                assert(back == JsonView::Object(done));
                assert forall|k: Seq<char>| #[trigger] entry(done, k) == if k == "arguments"@ {
                    Some(text)
                } else if k == "name"@ {
                    Some(JsonView::Text(call.name))
                } else {
                    entry(bare, k)
                } by {
                    was_set(named, "arguments"@, text, k);
                    was_set(bare, "name"@, JsonView::Text(call.name), k);
                }
                assert(entry(done, "type"@) == entry(bare, "type"@));
                assert(entry(done, "call_id"@) == entry(bare, "call_id"@));
                assert(entry(done, "name"@) == Some(JsonView::Text(call.name)));
                assert(entry(done, "arguments"@) == Some(text));
                assert(entry(done, "status"@) is None);
                assert(entry(done, q) == entry(done, q));
                assert(calls_tool(back, call));
                let i = choose|i: int| 0 <= i < calls.len() && calls[i] == call;
                assert(calls_tool(back, calls[i]));
                assert(item.text_at("call_id"@) == Some(calls[i].id));
            },
            None => {
                assert(back == bare_item);
            },
        }
    } else {
        assert(back == bare_item);
    }
}

proof fn calls_behind(items: Seq<JsonView>, calls: Seq<ToolCallView>)
    ensures
        with_calls(items, calls).len() >= items.len(),
        forall|i: int| 0 <= i < items.len() ==> with_calls(items, calls)[i] == #[trigger] items[i],
        forall|k: int|
            items.len() <= k < with_calls(items, calls).len() ==> exists|i: int|
                0 <= i < calls.len() && calls_tool(
                    #[trigger] with_calls(items, calls)[k],
                    #[trigger] calls[i],
                ),
    decreases calls.len(),
{
    if calls.len() > 0 {
        let before = calls.drop_last();
        calls_behind(items, before);
        let rest = with_calls(items, before);
        let all = with_calls(items, calls);
        call_calls(calls.last());
        assert forall|i: int| 0 <= i < items.len() implies all[i] == #[trigger] items[i] by {
            assert(rest[i] == items[i]);
        }
        assert forall|k: int| items.len() <= k < all.len() implies exists|i: int|
            0 <= i < calls.len() && calls_tool(#[trigger] all[k], #[trigger] calls[i]) by {
            if k < rest.len() {
                assert(all[k] == rest[k]);
                let i = choose|i: int|
                    0 <= i < before.len() && calls_tool(#[trigger] rest[k], #[trigger] before[i]);
                assert(calls_tool(all[k], calls[i]));
            } else {
                assert(calls_tool(all[k], calls[calls.len() - 1]));
            }
        }
    }
}

/// An answer of the same model goes back by its own items, each in its place; behind them
/// comes the text, where no item is a message, and then the calls that no item stands for.
pub proof fn own_answer_law(
    content: Seq<char>,
    source: Seq<char>,
    thoughts: Seq<char>,
    calls: Seq<ToolCallView>,
    items: Seq<JsonView>,
)
    requires
        items.len() > 0,
    ensures
        ({
            let told = items_of(
                MessageView::Assistant {
                    content,
                    model: source,
                    reasoning: thoughts,
                    tool_calls: calls,
                    response_items: items,
                },
                source,
            );
            let has_message = exists|i: int|
                0 <= i < items.len() && (#[trigger] told[i]).text_at("type"@) == Some("message"@);
            let spoken = content.len() > 0 && !has_message;
            let head = items.len() + if spoken {
                1int
            } else {
                0
            };
            &&& told.len() >= head
            &&& forall|i: int|
                0 <= i < items.len() ==> #[trigger] told[i] == returned_item(items[i], calls)
            &&& spoken ==> told[items.len() as int].text_at("role"@) == Some("assistant"@)
                && told[items.len() as int].text_at("content"@) == Some(content)
            &&& forall|k: int|
                head <= k < told.len() ==> exists|i: int|
                    0 <= i < calls.len() && calls_tool(#[trigger] told[k], #[trigger] calls[i])
            &&& forall|i: int|
                0 <= i < calls.len() ==> some_item(told, "call_id"@, (#[trigger] calls[i]).id)
        }),
{
    let returned = items.map_values(|i: JsonView| returned_item(i, calls));
    let said = some_item(returned, "type"@, "message"@);
    let head = if content.len() > 0 && !said {
        returned.push(plain_item("assistant"@, content))
    } else {
        returned
    };
    let told = own_items(content, calls, items);
    calls_behind(head, calls);
    plain_says("assistant"@, content);
    assert forall|i: int| 0 <= i < items.len() implies #[trigger] told[i] == returned_item(
        items[i],
        calls,
    ) by {
        assert(head[i] == returned[i]);
    }
    if said {
        let i = choose|i: int|
            0 <= i < returned.len() && (#[trigger] returned[i]).text_at("type"@) == Some(
                "message"@,
            );
        assert(told[i] == returned[i]);
    } else {
        assert forall|i: int| 0 <= i < items.len() implies (#[trigger] told[i]).text_at("type"@)
            != Some("message"@) by {
            assert(told[i] == returned[i]);
        }
        if content.len() > 0 {
            assert(told[items.len() as int] == head[items.len() as int]);
        }
    }
    assert forall|i: int| 0 <= i < calls.len() implies some_item(
        told,
        "call_id"@,
        (#[trigger] calls[i]).id,
    ) by {
        super::responses::calls_law(content, calls, items, i);
    }
}

/// A conversation becomes the items of its messages, in order, and nothing else.
pub proof fn conversation_law(a: Seq<MessageView>, b: Seq<MessageView>, model: Seq<char>)
    ensures
        all_items(a + b, model) == all_items(a, model) + all_items(b, model),
        a.len() == 1 ==> all_items(a, model) == items_of(a[0], model),
        a.len() == 0 ==> all_items(a, model).len() == 0,
    decreases b.len(),
{
    if a.len() == 1 {
        assert(a.drop_last() =~= Seq::empty());
        assert(all_items(a.drop_last(), model) =~= Seq::empty());
        assert(all_items(a, model) =~= items_of(a[0], model));
    }
    if b.len() == 0 {
        assert(a + b =~= a);
        assert(all_items(a + b, model) =~= all_items(a, model) + all_items(b, model));
    } else {
        assert((a + b).drop_last() =~= a + b.drop_last());
        assert((a + b).last() == b.last());
        conversation_law(a, b.drop_last(), model);
        assert(all_items(a + b, model) =~= all_items(a, model) + all_items(b, model));
    }
}

// ---------------------------------------------------------------------------
// Chat completions
// ---------------------------------------------------------------------------

/// The same for chat completions.
pub open spec fn chat_shows(parts: Seq<JsonView>, content: Seq<char>, images: Seq<ImageView>) -> bool {
    let skipped = if content.len() > 0 {
        1int
    } else {
        0
    };
    &&& parts.len() == skipped + images.len()
    &&& content.len() > 0 ==> parts[0].text_at("type"@) == Some("text"@) && parts[0].text_at(
        "text"@,
    ) == Some(content)
    &&& forall|i: int|
        0 <= i < images.len() ==> {
            let part = #[trigger] parts[skipped + i];
            &&& part.text_at("type"@) == Some("image_url"@)
            &&& part.get("image_url"@) is Some
            &&& part.get("image_url"@)->0.text_at("url"@) is Some
            &&& is_link_to(part.get("image_url"@)->0.text_at("url"@)->0, images[i])
        }
}

proof fn chat_parts_show(content: Seq<char>, images: Seq<ImageView>)
    ensures
        wire_parts(content, images) is Array,
        chat_shows(wire_parts(content, images)->Array_0, content, images),
{
    reveal_strlit("type");
    reveal_strlit("text");
    reveal_strlit("image_url");
    reveal_strlit("url");
    assert("type"@[1] != "text"@[1]);
    assert("type"@.len() != "image_url"@.len());
    assert("type"@.len() != "url"@.len());
    assert("text"@.len() != "image_url"@.len());
    assert("text"@.len() != "url"@.len());
    assert("image_url"@.len() != "url"@.len());
    let parts = wire_parts(content, images)->Array_0;
    let skipped = if content.len() > 0 {
        1int
    } else {
        0
    };
    if content.len() > 0 {
        assert(parts[0] == wire_text_part(content));
        let e = wire_text_part(content)->Object_0;
        assert(e[0].0 == "type"@);
        assert(e[1].0 == "text"@);
        entry_law(e, 0);
        assert forall|k: int| 0 <= k < 1 implies (#[trigger] e[k]).0 != e[1].0 by {
            assert(k == 0);
        }
        entry_law(e, 1);
    }
    assert forall|i: int| 0 <= i < images.len() implies ({
        let part = #[trigger] parts[skipped + i];
        &&& part.text_at("type"@) == Some("image_url"@)
        &&& part.get("image_url"@) is Some
        &&& part.get("image_url"@)->0.text_at("url"@) is Some
        &&& is_link_to(part.get("image_url"@)->0.text_at("url"@)->0, images[i])
    }) by {
        assert(parts[skipped + i] == wire_image_part(images[i]));
        let e = wire_image_part(images[i])->Object_0;
        assert(e[0].0 == "type"@);
        assert(e[1].0 == "image_url"@);
        entry_law(e, 0);
        assert forall|k: int| 0 <= k < 1 implies (#[trigger] e[k]).0 != e[1].0 by {
            assert(k == 0);
        }
        entry_law(e, 1);
        let u = e[1].1->Object_0;
        assert(u[0].0 == "url"@);
        entry_law(u, 0);
    }
}

/// A text that stands alone, or with images behind it, in a chat message.
pub open spec fn chat_tells(value: Option<JsonView>, content: Seq<char>, images: Seq<ImageView>) -> bool {
    if images.len() == 0 {
        value == Some(JsonView::Text(content))
    } else {
        value matches Some(JsonView::Array(parts)) && chat_shows(parts, content, images)
    }
}

/// A chat message holds what was said, whoever said it: all of the text and all images, and
/// of a result the call that it answers.
pub proof fn chat_message_law(
    content: Seq<char>,
    images: Seq<ImageView>,
    call_id: Seq<char>,
    image: Option<ImageView>,
    diff: Option<Seq<char>>,
)
    ensures
        ({
            let user = wire_message(MessageView::User { content, images });
            let steer = wire_message(MessageView::Steer { content, images });
            let system = wire_message(MessageView::System { content });
            let tool = wire_message(MessageView::Tool { call_id, content, image, diff });
            &&& steer == user
            &&& user.text_at("role"@) == Some("user"@)
            &&& chat_tells(user.get("content"@), content, images)
            &&& system.text_at("role"@) == Some("system"@)
            &&& system.text_at("content"@) == Some(content)
            &&& tool.text_at("role"@) == Some("tool"@)
            &&& tool.text_at("tool_call_id"@) == Some(call_id)
            &&& chat_tells(tool.get("content"@), content, one_image(image))
        }),
{
    reveal_strlit("role");
    reveal_strlit("content");
    reveal_strlit("tool_call_id");
    assert("role"@.len() != "content"@.len());
    assert("role"@.len() != "tool_call_id"@.len());
    assert("content"@.len() != "tool_call_id"@.len());
    let u = wire_message(MessageView::User { content, images })->Object_0;
    assert(u[0].0 == "role"@);
    assert(u[1].0 == "content"@);
    entry_law(u, 0);
    assert forall|k: int| 0 <= k < 1 implies (#[trigger] u[k]).0 != u[1].0 by {
        assert(k == 0);
    }
    entry_law(u, 1);
    let s = wire_message(MessageView::System { content })->Object_0;
    assert(s[0].0 == "role"@);
    assert(s[1].0 == "content"@);
    entry_law(s, 0);
    assert forall|k: int| 0 <= k < 1 implies (#[trigger] s[k]).0 != s[1].0 by {
        assert(k == 0);
    }
    entry_law(s, 1);
    let t = wire_message(
        MessageView::Tool { call_id, content, image, diff },
    )->Object_0;
    assert(t[0].0 == "role"@);
    assert(t[1].0 == "content"@);
    assert(t[2].0 == "tool_call_id"@);
    entry_law(t, 0);
    assert forall|k: int| 0 <= k < 1 implies (#[trigger] t[k]).0 != t[1].0 by {
        assert(k == 0);
    }
    entry_law(t, 1);
    assert forall|k: int| 0 <= k < 2 implies (#[trigger] t[k]).0 != t[2].0 by {
        assert(k == 0 || k == 1);
    }
    entry_law(t, 2);
    chat_parts_show(content, images);
    match image {
        Some(image) => {
            chat_parts_show(content, seq![image]);
        },
        None => {},
    }
}

/// A chat entry that calls a tool as it was called.
pub open spec fn chat_calls_tool(value: JsonView, call: ToolCallView) -> bool {
    &&& value.text_at("id"@) == Some(call.id)
    &&& value.text_at("type"@) == Some("function"@)
    &&& value.get("function"@) is Some
    &&& value.get("function"@)->0.text_at("name"@) == Some(call.name)
    &&& value.get("function"@)->0.text_at("arguments"@) == Some(written(call.arguments))
}

proof fn chat_call_calls(call: ToolCallView)
    ensures
        chat_calls_tool(wire_call(call), call),
{
    reveal_strlit("id");
    reveal_strlit("type");
    reveal_strlit("function");
    reveal_strlit("name");
    reveal_strlit("arguments");
    assert("id"@.len() != "type"@.len());
    assert("id"@.len() != "function"@.len());
    assert("id"@.len() != "name"@.len());
    assert("id"@.len() != "arguments"@.len());
    assert("type"@.len() != "function"@.len());
    assert("type"@[0] != "name"@[0]);
    assert("type"@.len() != "arguments"@.len());
    assert("function"@.len() != "name"@.len());
    assert("function"@.len() != "arguments"@.len());
    assert("name"@.len() != "arguments"@.len());
    let e = wire_call(call)->Object_0;
    assert(e[0].0 == "id"@);
    assert(e[1].0 == "type"@);
    assert(e[2].0 == "function"@);
    entry_law(e, 0);
    assert forall|k: int| 0 <= k < 1 implies (#[trigger] e[k]).0 != e[1].0 by {
        assert(k == 0);
    }
    entry_law(e, 1);
    assert forall|k: int| 0 <= k < 2 implies (#[trigger] e[k]).0 != e[2].0 by {
        assert(k == 0 || k == 1);
    }
    entry_law(e, 2);
    let f = e[2].1->Object_0;
    assert(f[0].0 == "name"@);
    assert(f[1].0 == "arguments"@);
    entry_law(f, 0);
    assert forall|k: int| 0 <= k < 1 implies (#[trigger] f[k]).0 != f[1].0 by {
        assert(k == 0);
    }
    entry_law(f, 1);
}

/// An answer in a chat holds its text and its calls, each in its place.
pub proof fn chat_answer_law(
    content: Seq<char>,
    source: Seq<char>,
    thoughts: Seq<char>,
    calls: Seq<ToolCallView>,
    items: Seq<JsonView>,
)
    ensures
        ({
            let told = wire_message(
                MessageView::Assistant {
                    content,
                    model: source,
                    reasoning: thoughts,
                    tool_calls: calls,
                    response_items: items,
                },
            );
            &&& told.text_at("role"@) == Some("assistant"@)
            &&& content.len() > 0 ==> told.text_at("content"@) == Some(content)
            &&& content.len() == 0 ==> told.get("content"@) is None
            &&& calls.len() == 0 ==> told.get("tool_calls"@) is None
            &&& calls.len() > 0 ==> {
                &&& told.array_at("tool_calls"@) is Some
                &&& told.array_at("tool_calls"@)->0.len() == calls.len()
                &&& forall|i: int|
                    0 <= i < calls.len() ==> chat_calls_tool(
                        #[trigger] told.array_at("tool_calls"@)->0[i],
                        calls[i],
                    )
            }
        }),
{
    reveal_strlit("role");
    reveal_strlit("content");
    reveal_strlit("tool_calls");
    assert("role"@.len() != "content"@.len());
    assert("role"@.len() != "tool_calls"@.len());
    assert("content"@.len() != "tool_calls"@.len());
    let list = calls.map_values(|c: ToolCallView| wire_call(c));
    let p0 = seq![("role"@, JsonView::Text("assistant"@))];
    let p1 = if content.len() > 0 {
        seq![("content"@, JsonView::Text(content))]
    } else {
        Seq::empty()
    };
    let p2 = if calls.len() > 0 {
        seq![("tool_calls"@, JsonView::Array(list))]
    } else {
        Seq::empty()
    };
    let c0 = p0;
    let c1 = c0 + p1;
    let c2 = c1 + p2;
    entries_law(c0, p1, "role"@);
    entries_law(c1, p2, "role"@);
    one_entry_law("role"@, JsonView::Text("assistant"@), "role"@);
    one_entry_law("content"@, JsonView::Text(content), "role"@);
    one_entry_law("tool_calls"@, JsonView::Array(list), "role"@);
    entries_law(c0, p1, "content"@);
    entries_law(c1, p2, "content"@);
    one_entry_law("role"@, JsonView::Text("assistant"@), "content"@);
    one_entry_law("content"@, JsonView::Text(content), "content"@);
    one_entry_law("tool_calls"@, JsonView::Array(list), "content"@);
    entries_law(c0, p1, "tool_calls"@);
    entries_law(c1, p2, "tool_calls"@);
    one_entry_law("role"@, JsonView::Text("assistant"@), "tool_calls"@);
    one_entry_law("content"@, JsonView::Text(content), "tool_calls"@);
    one_entry_law("tool_calls"@, JsonView::Array(list), "tool_calls"@);
    let told = wire_message(
        MessageView::Assistant {
            content,
            model: source,
            reasoning: thoughts,
            tool_calls: calls,
            response_items: items,
        },
    );
    assert(told == JsonView::Object(c2));
    assert forall|i: int| 0 <= i < calls.len() implies chat_calls_tool(
        #[trigger] list[i],
        calls[i],
    ) by {
        chat_call_calls(calls[i]);
    }
}

// ---------------------------------------------------------------------------
// Bodies
// ---------------------------------------------------------------------------

/// A tool as a request declares it.
pub open spec fn declares(value: JsonView, tool: DefinitionView) -> bool {
    &&& value.text_at("name"@) == Some(tool.function.name)
    &&& value.text_at("description"@) == Some(tool.function.description)
    &&& value.get("parameters"@) == Some(tool.function.parameters)
}

proof fn tools_declared(tool: DefinitionView)
    ensures
        declares(response_tool(tool), tool),
        response_tool(tool).text_at("type"@) == Some("function"@),
        chat_tool(tool).text_at("type"@) == Some(tool.kind),
        chat_tool(tool).get("function"@) is Some,
        declares(chat_tool(tool).get("function"@)->0, tool),
{
    reveal_strlit("type");
    reveal_strlit("function");
    reveal_strlit("name");
    reveal_strlit("description");
    reveal_strlit("parameters");
    assert("type"@.len() != "function"@.len());
    assert("type"@[0] != "name"@[0]);
    assert("type"@.len() != "description"@.len());
    assert("type"@.len() != "parameters"@.len());
    assert("function"@.len() != "name"@.len());
    assert("function"@.len() != "description"@.len());
    assert("function"@.len() != "parameters"@.len());
    assert("name"@.len() != "description"@.len());
    assert("name"@.len() != "parameters"@.len());
    assert("description"@.len() != "parameters"@.len());
    let r = response_tool(tool)->Object_0;
    assert(r[0].0 == "type"@);
    assert(r[1].0 == "name"@);
    assert(r[2].0 == "description"@);
    assert(r[3].0 == "parameters"@);
    entry_law(r, 0);
    assert forall|k: int| 0 <= k < 1 implies (#[trigger] r[k]).0 != r[1].0 by {
        assert(k == 0);
    }
    entry_law(r, 1);
    assert forall|k: int| 0 <= k < 2 implies (#[trigger] r[k]).0 != r[2].0 by {
        assert(k == 0 || k == 1);
    }
    entry_law(r, 2);
    assert forall|k: int| 0 <= k < 3 implies (#[trigger] r[k]).0 != r[3].0 by {
        assert(k == 0 || k == 1 || k == 2);
    }
    entry_law(r, 3);
    let c = chat_tool(tool)->Object_0;
    assert(c[0].0 == "type"@);
    assert(c[1].0 == "function"@);
    entry_law(c, 0);
    assert forall|k: int| 0 <= k < 1 implies (#[trigger] c[k]).0 != c[1].0 by {
        assert(k == 0);
    }
    entry_law(c, 1);
    let f = c[1].1->Object_0;
    assert(f[0].0 == "name"@);
    assert(f[1].0 == "description"@);
    assert(f[2].0 == "parameters"@);
    entry_law(f, 0);
    assert forall|k: int| 0 <= k < 1 implies (#[trigger] f[k]).0 != f[1].0 by {
        assert(k == 0);
    }
    entry_law(f, 1);
    assert forall|k: int| 0 <= k < 2 implies (#[trigger] f[k]).0 != f[2].0 by {
        assert(k == 0 || k == 1);
    }
    entry_law(f, 2);
}

/// A request to the Responses protocol carries the model, the items of all messages, the
/// effort, the limit and the tools that it was made with, and asks that nothing be kept.
pub proof fn responses_body_law(request: RequestView, temperature: Option<Seq<char>>)
    ensures
        ({
            let body = JsonView::Object(response_entries(request, temperature));
            &&& body.text_at("model"@) == Some(request.model)
            &&& body.array_at("input"@) == Some(all_items(request.messages, request.model))
            &&& body.get("temperature"@) == match temperature {
                Some(written) => Some(JsonView::Decimal(written)),
                None => None,
            }
            &&& match request.reasoning_effort {
                Some(effort) => body.get("reasoning"@) matches Some(told) && told.text_at("effort"@)
                    == Some(effort_name(effort)),
                None => body.get("reasoning"@) is None,
            }
            &&& match request.max_tokens {
                Some(tokens) => body.number_at("max_output_tokens"@) == Some(tokens as u64),
                None => body.get("max_output_tokens"@) is None,
            }
            &&& body.bool_at("stream"@) == Some(request.stream)
            &&& body.bool_at("store"@) == Some(false)
            &&& if request.tools.len() == 0 {
                body.get("tools"@) is None
            } else {
                body.array_at("tools"@) matches Some(list) && list.len() == request.tools.len()
                    && forall|i: int|
                    0 <= i < list.len() ==> declares(#[trigger] list[i], request.tools[i])
            }
        }),
{
    reveal_strlit("model");
    reveal_strlit("input");
    reveal_strlit("temperature");
    reveal_strlit("reasoning");
    reveal_strlit("max_output_tokens");
    reveal_strlit("stream");
    reveal_strlit("store");
    reveal_strlit("include");
    reveal_strlit("tools");
    reveal_strlit("effort");
    reveal_strlit("context");
    reveal_strlit("summary");
    assert("model"@[0] != "input"@[0]);
    assert("model"@.len() != "temperature"@.len());
    assert("model"@.len() != "reasoning"@.len());
    assert("model"@.len() != "max_output_tokens"@.len());
    assert("model"@.len() != "stream"@.len());
    assert("model"@[0] != "store"@[0]);
    assert("model"@.len() != "include"@.len());
    assert("model"@[0] != "tools"@[0]);
    assert("input"@.len() != "temperature"@.len());
    assert("input"@.len() != "reasoning"@.len());
    assert("input"@.len() != "max_output_tokens"@.len());
    assert("input"@.len() != "stream"@.len());
    assert("input"@[0] != "store"@[0]);
    assert("input"@.len() != "include"@.len());
    assert("input"@[0] != "tools"@[0]);
    assert("temperature"@.len() != "reasoning"@.len());
    assert("temperature"@.len() != "max_output_tokens"@.len());
    assert("temperature"@.len() != "stream"@.len());
    assert("temperature"@.len() != "store"@.len());
    assert("temperature"@.len() != "include"@.len());
    assert("temperature"@.len() != "tools"@.len());
    assert("reasoning"@.len() != "max_output_tokens"@.len());
    assert("reasoning"@.len() != "stream"@.len());
    assert("reasoning"@.len() != "store"@.len());
    assert("reasoning"@.len() != "include"@.len());
    assert("reasoning"@.len() != "tools"@.len());
    assert("max_output_tokens"@.len() != "stream"@.len());
    assert("max_output_tokens"@.len() != "store"@.len());
    assert("max_output_tokens"@.len() != "include"@.len());
    assert("max_output_tokens"@.len() != "tools"@.len());
    assert("stream"@.len() != "store"@.len());
    assert("stream"@.len() != "include"@.len());
    assert("stream"@.len() != "tools"@.len());
    assert("store"@.len() != "include"@.len());
    assert("store"@[0] != "tools"@[0]);
    assert("include"@.len() != "tools"@.len());
    let told = match request.reasoning_effort {
        Some(effort) => Some(reasoning(effort)),
        None => None,
    };
    let tools = request.tools.map_values(|t: DefinitionView| response_tool(t));
    assert forall|i: int| 0 <= i < tools.len() implies declares(
        #[trigger] tools[i],
        request.tools[i],
    ) by {
        tools_declared(request.tools[i]);
    }
    match request.reasoning_effort {
        Some(effort) => {
            let e = reasoning(effort)->Object_0;
            assert(e[0].0 == "effort"@);
            entry_law(e, 0);
        },
        None => {},
    }
    let p0 = seq![
        ("model"@, JsonView::Text(request.model)),
        ("input"@, JsonView::Array(all_items(request.messages, request.model))),
    ];
    let p1 = maybe("temperature"@, number(temperature));
    let p2 = maybe("reasoning"@, told);
    let p3 = maybe("max_output_tokens"@, limit(request.max_tokens));
    let p4 = seq![
        ("stream"@, JsonView::Bool(request.stream)),
        ("store"@, JsonView::Bool(false)),
        ("include"@, JsonView::Array(seq![JsonView::Text("reasoning.encrypted_content"@)])),
    ];
    let p5 = maybe("tools"@, list(tools));
    let c0 = p0;
    let c1 = c0 + p1;
    let c2 = c1 + p2;
    let c3 = c2 + p3;
    let c4 = c3 + p4;
    let c5 = c4 + p5;
    assert(p0[0].0 == "model"@);
    assert(p0[1].0 == "input"@);
    assert(p4[0].0 == "stream"@);
    assert(p4[1].0 == "store"@);
    assert(p4[2].0 == "include"@);
    entries_law(c0, p1, "model"@);
    entries_law(c1, p2, "model"@);
    entries_law(c2, p3, "model"@);
    entries_law(c3, p4, "model"@);
    entries_law(c4, p5, "model"@);
    entry_law(p0, 0);
    one_entry_law("temperature"@, number(temperature)->0, "model"@);
    one_entry_law("reasoning"@, told->0, "model"@);
    one_entry_law("max_output_tokens"@, limit(request.max_tokens)->0, "model"@);
    assert forall|k: int| 0 <= k < p4.len() implies (#[trigger] p4[k]).0 != "model"@ by {
        assert(k == 0 || k == 1 || k == 2);
    }
    no_entry_law(p4, "model"@);
    one_entry_law("tools"@, list(tools)->0, "model"@);
    entries_law(c0, p1, "input"@);
    entries_law(c1, p2, "input"@);
    entries_law(c2, p3, "input"@);
    entries_law(c3, p4, "input"@);
    entries_law(c4, p5, "input"@);
    assert forall|k: int| 0 <= k < 1 implies (#[trigger] p0[k]).0 != p0[1].0 by {
        assert(k == 0);
    }
    entry_law(p0, 1);
    one_entry_law("temperature"@, number(temperature)->0, "input"@);
    one_entry_law("reasoning"@, told->0, "input"@);
    one_entry_law("max_output_tokens"@, limit(request.max_tokens)->0, "input"@);
    assert forall|k: int| 0 <= k < p4.len() implies (#[trigger] p4[k]).0 != "input"@ by {
        assert(k == 0 || k == 1 || k == 2);
    }
    no_entry_law(p4, "input"@);
    one_entry_law("tools"@, list(tools)->0, "input"@);
    entries_law(c0, p1, "temperature"@);
    entries_law(c1, p2, "temperature"@);
    entries_law(c2, p3, "temperature"@);
    entries_law(c3, p4, "temperature"@);
    entries_law(c4, p5, "temperature"@);
    assert forall|k: int| 0 <= k < p0.len() implies (#[trigger] p0[k]).0 != "temperature"@ by {
        assert(k == 0 || k == 1);
    }
    no_entry_law(p0, "temperature"@);
    one_entry_law("temperature"@, number(temperature)->0, "temperature"@);
    one_entry_law("reasoning"@, told->0, "temperature"@);
    one_entry_law("max_output_tokens"@, limit(request.max_tokens)->0, "temperature"@);
    assert forall|k: int| 0 <= k < p4.len() implies (#[trigger] p4[k]).0 != "temperature"@ by {
        assert(k == 0 || k == 1 || k == 2);
    }
    no_entry_law(p4, "temperature"@);
    one_entry_law("tools"@, list(tools)->0, "temperature"@);
    entries_law(c0, p1, "reasoning"@);
    entries_law(c1, p2, "reasoning"@);
    entries_law(c2, p3, "reasoning"@);
    entries_law(c3, p4, "reasoning"@);
    entries_law(c4, p5, "reasoning"@);
    assert forall|k: int| 0 <= k < p0.len() implies (#[trigger] p0[k]).0 != "reasoning"@ by {
        assert(k == 0 || k == 1);
    }
    no_entry_law(p0, "reasoning"@);
    one_entry_law("temperature"@, number(temperature)->0, "reasoning"@);
    one_entry_law("reasoning"@, told->0, "reasoning"@);
    one_entry_law("max_output_tokens"@, limit(request.max_tokens)->0, "reasoning"@);
    assert forall|k: int| 0 <= k < p4.len() implies (#[trigger] p4[k]).0 != "reasoning"@ by {
        assert(k == 0 || k == 1 || k == 2);
    }
    no_entry_law(p4, "reasoning"@);
    one_entry_law("tools"@, list(tools)->0, "reasoning"@);
    entries_law(c0, p1, "max_output_tokens"@);
    entries_law(c1, p2, "max_output_tokens"@);
    entries_law(c2, p3, "max_output_tokens"@);
    entries_law(c3, p4, "max_output_tokens"@);
    entries_law(c4, p5, "max_output_tokens"@);
    assert forall|k: int| 0 <= k < p0.len() implies (#[trigger] p0[k]).0 != "max_output_tokens"@ by {
        assert(k == 0 || k == 1);
    }
    no_entry_law(p0, "max_output_tokens"@);
    one_entry_law("temperature"@, number(temperature)->0, "max_output_tokens"@);
    one_entry_law("reasoning"@, told->0, "max_output_tokens"@);
    one_entry_law("max_output_tokens"@, limit(request.max_tokens)->0, "max_output_tokens"@);
    assert forall|k: int| 0 <= k < p4.len() implies (#[trigger] p4[k]).0 != "max_output_tokens"@ by {
        assert(k == 0 || k == 1 || k == 2);
    }
    no_entry_law(p4, "max_output_tokens"@);
    one_entry_law("tools"@, list(tools)->0, "max_output_tokens"@);
    entries_law(c0, p1, "stream"@);
    entries_law(c1, p2, "stream"@);
    entries_law(c2, p3, "stream"@);
    entries_law(c3, p4, "stream"@);
    entries_law(c4, p5, "stream"@);
    assert forall|k: int| 0 <= k < p0.len() implies (#[trigger] p0[k]).0 != "stream"@ by {
        assert(k == 0 || k == 1);
    }
    no_entry_law(p0, "stream"@);
    one_entry_law("temperature"@, number(temperature)->0, "stream"@);
    one_entry_law("reasoning"@, told->0, "stream"@);
    one_entry_law("max_output_tokens"@, limit(request.max_tokens)->0, "stream"@);
    entry_law(p4, 0);
    one_entry_law("tools"@, list(tools)->0, "stream"@);
    entries_law(c0, p1, "store"@);
    entries_law(c1, p2, "store"@);
    entries_law(c2, p3, "store"@);
    entries_law(c3, p4, "store"@);
    entries_law(c4, p5, "store"@);
    assert forall|k: int| 0 <= k < p0.len() implies (#[trigger] p0[k]).0 != "store"@ by {
        assert(k == 0 || k == 1);
    }
    no_entry_law(p0, "store"@);
    one_entry_law("temperature"@, number(temperature)->0, "store"@);
    one_entry_law("reasoning"@, told->0, "store"@);
    one_entry_law("max_output_tokens"@, limit(request.max_tokens)->0, "store"@);
    assert forall|k: int| 0 <= k < 1 implies (#[trigger] p4[k]).0 != p4[1].0 by {
        assert(k == 0);
    }
    entry_law(p4, 1);
    one_entry_law("tools"@, list(tools)->0, "store"@);
    entries_law(c0, p1, "tools"@);
    entries_law(c1, p2, "tools"@);
    entries_law(c2, p3, "tools"@);
    entries_law(c3, p4, "tools"@);
    entries_law(c4, p5, "tools"@);
    assert forall|k: int| 0 <= k < p0.len() implies (#[trigger] p0[k]).0 != "tools"@ by {
        assert(k == 0 || k == 1);
    }
    no_entry_law(p0, "tools"@);
    one_entry_law("temperature"@, number(temperature)->0, "tools"@);
    one_entry_law("reasoning"@, told->0, "tools"@);
    one_entry_law("max_output_tokens"@, limit(request.max_tokens)->0, "tools"@);
    assert forall|k: int| 0 <= k < p4.len() implies (#[trigger] p4[k]).0 != "tools"@ by {
        assert(k == 0 || k == 1 || k == 2);
    }
    no_entry_law(p4, "tools"@);
    one_entry_law("tools"@, list(tools)->0, "tools"@);
    assert(response_entries(request, temperature) == c5);
}

/// A request for a chat completion carries the model, all messages in order, the effort, the
/// limit and the tools that it was made with, and asks for the tokens that were used.
pub proof fn chat_body_law(request: RequestView, temperature: Option<Seq<char>>)
    ensures
        ({
            let body = JsonView::Object(chat_entries(request, temperature));
            &&& body.text_at("model"@) == Some(request.model)
            &&& body.array_at("messages"@) matches Some(told) && told.len()
                == request.messages.len() && forall|i: int|
                0 <= i < told.len() ==> #[trigger] told[i] == wire_message(request.messages[i])
            &&& body.get("temperature"@) == match temperature {
                Some(written) => Some(JsonView::Decimal(written)),
                None => None,
            }
            &&& match request.reasoning_effort {
                Some(effort) => body.text_at("reasoning_effort"@) == Some(effort_name(effort)),
                None => body.get("reasoning_effort"@) is None,
            }
            &&& match request.max_tokens {
                Some(tokens) => body.number_at("max_completion_tokens"@) == Some(tokens as u64),
                None => body.get("max_completion_tokens"@) is None,
            }
            &&& body.bool_at("stream"@) == Some(request.stream)
            &&& body.get("stream_options"@) matches Some(options) && options.bool_at(
                "include_usage"@,
            ) == Some(true)
            &&& if request.tools.len() == 0 {
                body.get("tools"@) is None
            } else {
                body.array_at("tools"@) matches Some(list) && list.len() == request.tools.len()
                    && forall|i: int|
                    0 <= i < list.len() ==> {
                        &&& (#[trigger] list[i]).text_at("type"@) == Some(request.tools[i].kind)
                        &&& list[i].get("function"@) is Some
                        &&& declares(list[i].get("function"@)->0, request.tools[i])
                    }
            }
        }),
{
    reveal_strlit("model");
    reveal_strlit("messages");
    reveal_strlit("temperature");
    reveal_strlit("reasoning_effort");
    reveal_strlit("max_completion_tokens");
    reveal_strlit("stream");
    reveal_strlit("stream_options");
    reveal_strlit("tools");
    reveal_strlit("include_usage");
    assert("model"@.len() != "messages"@.len());
    assert("model"@.len() != "temperature"@.len());
    assert("model"@.len() != "reasoning_effort"@.len());
    assert("model"@.len() != "max_completion_tokens"@.len());
    assert("model"@.len() != "stream"@.len());
    assert("model"@.len() != "stream_options"@.len());
    assert("model"@[0] != "tools"@[0]);
    assert("messages"@.len() != "temperature"@.len());
    assert("messages"@.len() != "reasoning_effort"@.len());
    assert("messages"@.len() != "max_completion_tokens"@.len());
    assert("messages"@.len() != "stream"@.len());
    assert("messages"@.len() != "stream_options"@.len());
    assert("messages"@.len() != "tools"@.len());
    assert("temperature"@.len() != "reasoning_effort"@.len());
    assert("temperature"@.len() != "max_completion_tokens"@.len());
    assert("temperature"@.len() != "stream"@.len());
    assert("temperature"@.len() != "stream_options"@.len());
    assert("temperature"@.len() != "tools"@.len());
    assert("reasoning_effort"@.len() != "max_completion_tokens"@.len());
    assert("reasoning_effort"@.len() != "stream"@.len());
    assert("reasoning_effort"@.len() != "stream_options"@.len());
    assert("reasoning_effort"@.len() != "tools"@.len());
    assert("max_completion_tokens"@.len() != "stream"@.len());
    assert("max_completion_tokens"@.len() != "stream_options"@.len());
    assert("max_completion_tokens"@.len() != "tools"@.len());
    assert("stream"@.len() != "stream_options"@.len());
    assert("stream"@.len() != "tools"@.len());
    assert("stream_options"@.len() != "tools"@.len());
    let effort = match request.reasoning_effort {
        Some(effort) => Some(JsonView::Text(effort_name(effort))),
        None => None,
    };
    let tools = request.tools.map_values(|t: DefinitionView| chat_tool(t));
    assert forall|i: int| 0 <= i < tools.len() implies ({
        &&& (#[trigger] tools[i]).text_at("type"@) == Some(request.tools[i].kind)
        &&& tools[i].get("function"@) is Some
        &&& declares(tools[i].get("function"@)->0, request.tools[i])
    }) by {
        tools_declared(request.tools[i]);
    }
    let told = request.messages.map_values(|m: MessageView| wire_message(m));
    let options = JsonView::Object(seq![("include_usage"@, JsonView::Bool(true))]);
    one_entry_law("include_usage"@, JsonView::Bool(true), "include_usage"@);
    let p0 = seq![
        ("model"@, JsonView::Text(request.model)),
        ("messages"@, JsonView::Array(told)),
    ];
    let p1 = maybe("temperature"@, number(temperature));
    let p2 = maybe("reasoning_effort"@, effort);
    let p3 = maybe("max_completion_tokens"@, limit(request.max_tokens));
    let p4 = seq![
        ("stream"@, JsonView::Bool(request.stream)),
        ("stream_options"@, options),
    ];
    let p5 = maybe("tools"@, list(tools));
    let c0 = p0;
    let c1 = c0 + p1;
    let c2 = c1 + p2;
    let c3 = c2 + p3;
    let c4 = c3 + p4;
    let c5 = c4 + p5;
    assert(p0[0].0 == "model"@);
    assert(p0[1].0 == "messages"@);
    assert(p4[0].0 == "stream"@);
    assert(p4[1].0 == "stream_options"@);
    entries_law(c0, p1, "model"@);
    entries_law(c1, p2, "model"@);
    entries_law(c2, p3, "model"@);
    entries_law(c3, p4, "model"@);
    entries_law(c4, p5, "model"@);
    entry_law(p0, 0);
    one_entry_law("temperature"@, number(temperature)->0, "model"@);
    one_entry_law("reasoning_effort"@, effort->0, "model"@);
    one_entry_law("max_completion_tokens"@, limit(request.max_tokens)->0, "model"@);
    assert forall|k: int| 0 <= k < p4.len() implies (#[trigger] p4[k]).0 != "model"@ by {
        assert(k == 0 || k == 1);
    }
    no_entry_law(p4, "model"@);
    one_entry_law("tools"@, list(tools)->0, "model"@);
    entries_law(c0, p1, "messages"@);
    entries_law(c1, p2, "messages"@);
    entries_law(c2, p3, "messages"@);
    entries_law(c3, p4, "messages"@);
    entries_law(c4, p5, "messages"@);
    assert forall|k: int| 0 <= k < 1 implies (#[trigger] p0[k]).0 != p0[1].0 by {
        assert(k == 0);
    }
    entry_law(p0, 1);
    one_entry_law("temperature"@, number(temperature)->0, "messages"@);
    one_entry_law("reasoning_effort"@, effort->0, "messages"@);
    one_entry_law("max_completion_tokens"@, limit(request.max_tokens)->0, "messages"@);
    assert forall|k: int| 0 <= k < p4.len() implies (#[trigger] p4[k]).0 != "messages"@ by {
        assert(k == 0 || k == 1);
    }
    no_entry_law(p4, "messages"@);
    one_entry_law("tools"@, list(tools)->0, "messages"@);
    entries_law(c0, p1, "temperature"@);
    entries_law(c1, p2, "temperature"@);
    entries_law(c2, p3, "temperature"@);
    entries_law(c3, p4, "temperature"@);
    entries_law(c4, p5, "temperature"@);
    assert forall|k: int| 0 <= k < p0.len() implies (#[trigger] p0[k]).0 != "temperature"@ by {
        assert(k == 0 || k == 1);
    }
    no_entry_law(p0, "temperature"@);
    one_entry_law("temperature"@, number(temperature)->0, "temperature"@);
    one_entry_law("reasoning_effort"@, effort->0, "temperature"@);
    one_entry_law("max_completion_tokens"@, limit(request.max_tokens)->0, "temperature"@);
    assert forall|k: int| 0 <= k < p4.len() implies (#[trigger] p4[k]).0 != "temperature"@ by {
        assert(k == 0 || k == 1);
    }
    no_entry_law(p4, "temperature"@);
    one_entry_law("tools"@, list(tools)->0, "temperature"@);
    entries_law(c0, p1, "reasoning_effort"@);
    entries_law(c1, p2, "reasoning_effort"@);
    entries_law(c2, p3, "reasoning_effort"@);
    entries_law(c3, p4, "reasoning_effort"@);
    entries_law(c4, p5, "reasoning_effort"@);
    assert forall|k: int| 0 <= k < p0.len() implies (#[trigger] p0[k]).0 != "reasoning_effort"@ by {
        assert(k == 0 || k == 1);
    }
    no_entry_law(p0, "reasoning_effort"@);
    one_entry_law("temperature"@, number(temperature)->0, "reasoning_effort"@);
    one_entry_law("reasoning_effort"@, effort->0, "reasoning_effort"@);
    one_entry_law("max_completion_tokens"@, limit(request.max_tokens)->0, "reasoning_effort"@);
    assert forall|k: int| 0 <= k < p4.len() implies (#[trigger] p4[k]).0 != "reasoning_effort"@ by {
        assert(k == 0 || k == 1);
    }
    no_entry_law(p4, "reasoning_effort"@);
    one_entry_law("tools"@, list(tools)->0, "reasoning_effort"@);
    entries_law(c0, p1, "max_completion_tokens"@);
    entries_law(c1, p2, "max_completion_tokens"@);
    entries_law(c2, p3, "max_completion_tokens"@);
    entries_law(c3, p4, "max_completion_tokens"@);
    entries_law(c4, p5, "max_completion_tokens"@);
    assert forall|k: int| 0 <= k < p0.len() implies (#[trigger] p0[k]).0 != "max_completion_tokens"@ by {
        assert(k == 0 || k == 1);
    }
    no_entry_law(p0, "max_completion_tokens"@);
    one_entry_law("temperature"@, number(temperature)->0, "max_completion_tokens"@);
    one_entry_law("reasoning_effort"@, effort->0, "max_completion_tokens"@);
    one_entry_law("max_completion_tokens"@, limit(request.max_tokens)->0, "max_completion_tokens"@);
    assert forall|k: int| 0 <= k < p4.len() implies (#[trigger] p4[k]).0 != "max_completion_tokens"@ by {
        assert(k == 0 || k == 1);
    }
    no_entry_law(p4, "max_completion_tokens"@);
    one_entry_law("tools"@, list(tools)->0, "max_completion_tokens"@);
    entries_law(c0, p1, "stream"@);
    entries_law(c1, p2, "stream"@);
    entries_law(c2, p3, "stream"@);
    entries_law(c3, p4, "stream"@);
    entries_law(c4, p5, "stream"@);
    assert forall|k: int| 0 <= k < p0.len() implies (#[trigger] p0[k]).0 != "stream"@ by {
        assert(k == 0 || k == 1);
    }
    no_entry_law(p0, "stream"@);
    one_entry_law("temperature"@, number(temperature)->0, "stream"@);
    one_entry_law("reasoning_effort"@, effort->0, "stream"@);
    one_entry_law("max_completion_tokens"@, limit(request.max_tokens)->0, "stream"@);
    entry_law(p4, 0);
    one_entry_law("tools"@, list(tools)->0, "stream"@);
    entries_law(c0, p1, "stream_options"@);
    entries_law(c1, p2, "stream_options"@);
    entries_law(c2, p3, "stream_options"@);
    entries_law(c3, p4, "stream_options"@);
    entries_law(c4, p5, "stream_options"@);
    assert forall|k: int| 0 <= k < p0.len() implies (#[trigger] p0[k]).0 != "stream_options"@ by {
        assert(k == 0 || k == 1);
    }
    no_entry_law(p0, "stream_options"@);
    one_entry_law("temperature"@, number(temperature)->0, "stream_options"@);
    one_entry_law("reasoning_effort"@, effort->0, "stream_options"@);
    one_entry_law("max_completion_tokens"@, limit(request.max_tokens)->0, "stream_options"@);
    assert forall|k: int| 0 <= k < 1 implies (#[trigger] p4[k]).0 != p4[1].0 by {
        assert(k == 0);
    }
    entry_law(p4, 1);
    one_entry_law("tools"@, list(tools)->0, "stream_options"@);
    entries_law(c0, p1, "tools"@);
    entries_law(c1, p2, "tools"@);
    entries_law(c2, p3, "tools"@);
    entries_law(c3, p4, "tools"@);
    entries_law(c4, p5, "tools"@);
    assert forall|k: int| 0 <= k < p0.len() implies (#[trigger] p0[k]).0 != "tools"@ by {
        assert(k == 0 || k == 1);
    }
    no_entry_law(p0, "tools"@);
    one_entry_law("temperature"@, number(temperature)->0, "tools"@);
    one_entry_law("reasoning_effort"@, effort->0, "tools"@);
    one_entry_law("max_completion_tokens"@, limit(request.max_tokens)->0, "tools"@);
    assert forall|k: int| 0 <= k < p4.len() implies (#[trigger] p4[k]).0 != "tools"@ by {
        assert(k == 0 || k == 1);
    }
    no_entry_law(p4, "tools"@);
    one_entry_law("tools"@, list(tools)->0, "tools"@);
    assert(chat_entries(request, temperature) == c5);
}

// ---------------------------------------------------------------------------
// Endpoints
// ---------------------------------------------------------------------------

/// A request goes to an endpoint of the name that it asks for, the last of that name, and
/// finds one just where there is one.
pub proof fn endpoint_law(endpoints: Seq<ProviderView>, name: Seq<char>)
    ensures
        match endpoint_named(endpoints, name) {
            Some(endpoint) => endpoint.name == name && exists|i: int|
                {
                    &&& 0 <= i < endpoints.len()
                    &&& #[trigger] endpoints[i] == endpoint
                    &&& forall|k: int|
                        i < k < endpoints.len() ==> (#[trigger] endpoints[k]).name != name
                },
            None => forall|k: int|
                0 <= k < endpoints.len() ==> (#[trigger] endpoints[k]).name != name,
        },
    decreases endpoints.len(),
{
    if endpoints.len() > 0 {
        let last = endpoints.len() - 1;
        let rest = endpoints.drop_last();
        if endpoints[last].name == name {
            assert(endpoints[last] == endpoints.last());
        } else {
            endpoint_law(rest, name);
            match endpoint_named(endpoints, name) {
                Some(endpoint) => {
                    let i = choose|i: int|
                        {
                            &&& 0 <= i < rest.len()
                            &&& #[trigger] rest[i] == endpoint
                            &&& forall|k: int|
                                i < k < rest.len() ==> (#[trigger] rest[k]).name != name
                        };
                    assert forall|k: int| i < k < endpoints.len() implies (
                    #[trigger] endpoints[k]).name != name by {
                        if k < last {
                            assert(rest[k] == endpoints[k]);
                        }
                    }
                    assert(endpoints[i] == endpoint);
                },
                None => {
                    assert forall|k: int| 0 <= k < endpoints.len() implies (
                    #[trigger] endpoints[k]).name != name by {
                        if k < last {
                            assert(rest[k] == endpoints[k]);
                        }
                    }
                },
            }
        }
    }
}

} // verus!
