//! What holds of the conversation as the model is shown it: that what was said stays, but
//! for what is left out on purpose.
use super::budget::{
    call_json, entry_if, free_tokens, image_json, message_bytes, message_json, request_of,
    token_bytes, tokens_of, total_bytes,
};
use super::context::{
    add_ids, answers, compact_call, compact_plan, compact_plans, context_of, eject, eject_pages,
    is_answer, is_consumed, marks_compaction, open_ids_after, page_marker, plan_text, quoted,
    since_summary, status_name, step_text, steps_text, stored_arguments, stored_note, without_diff,
    PLAN_CONTEXT_PREFIX,
};
use super::message::{ImageView, MessageView, ToolCallView};
use crate::json::{read_json, written_pretty, JsonView};
use crate::json_law::{entries_law, entry_law, no_entry_law, one_entry_law};
use crate::session::MetaView;
use crate::text::{has_text, occurs_at};
use crate::tool::{PlanStatus, PlanStepView, PlanView};
use vstd::prelude::*;
use vstd::string::*;

verus! {

// ---------------------------------------------------------------------------
// What stays
// ---------------------------------------------------------------------------

/// A call that was asked for in the same way, but for a plan, which is told elsewhere.
pub open spec fn same_call(a: ToolCallView, b: ToolCallView) -> bool {
    a.id == b.id && a.name == b.name && (a.name != "update_plan"@ ==> a.arguments == b.arguments)
}

/// The message `b` says what `a` does, whoever said it: the same text, images and calls. The
/// text of a result is looked at apart.
pub open spec fn same_said(a: MessageView, b: MessageView) -> bool {
    match a {
        MessageView::Assistant { content, model, reasoning, tool_calls, response_items } => {
            &&& b is Assistant
            &&& b->Assistant_content == content
            &&& b->Assistant_model == model
            &&& b->Assistant_reasoning == reasoning
            &&& b->Assistant_response_items == response_items
            &&& b->Assistant_tool_calls.len() == tool_calls.len()
            &&& forall|i: int|
                0 <= i < tool_calls.len() ==> same_call(
                    tool_calls[i],
                    #[trigger] b->Assistant_tool_calls[i],
                )
        },
        MessageView::Tool { call_id, image, .. } => {
            &&& b is Tool
            &&& b->Tool_call_id == call_id
            &&& b->Tool_image == image
            &&& b->Tool_diff is None
        },
        _ => a == b,
    }
}

/// Whether a message before `i` asked for the tool `name` under the id of the result at `i`.
pub open spec fn asked_for(messages: Seq<MessageView>, i: int, name: Seq<char>) -> bool {
    exists|j: int, c: int| #[trigger] is_asking(messages, j, c, messages[i]->Tool_call_id, name)
        && j < i
}

/// Whether the call at `c` of the message at `j` asks for the tool `name` under `id`.
pub open spec fn is_asking(
    messages: Seq<MessageView>,
    j: int,
    c: int,
    id: Seq<char>,
    name: Seq<char>,
) -> bool {
    &&& 0 <= j < messages.len()
    &&& messages[j] is Assistant
    &&& 0 <= c < messages[j]->Assistant_tool_calls.len()
    &&& messages[j]->Assistant_tool_calls[c].id == id
    &&& messages[j]->Assistant_tool_calls[c].name == name
}

proof fn ids_added(ids: Set<Seq<char>>, calls: Seq<ToolCallView>, name: Seq<char>, id: Seq<char>)
    ensures
        add_ids(ids, calls, name).contains(id) <==> ids.contains(id) || exists|c: int|
            0 <= c < calls.len() && (#[trigger] calls[c]).name == name && calls[c].id == id,
    decreases calls.len(),
{
    if calls.len() > 0 {
        let rest = calls.drop_last();
        ids_added(ids, rest, name, id);
        if exists|c: int|
            0 <= c < rest.len() && (#[trigger] rest[c]).name == name && rest[c].id == id {
            let c = choose|c: int|
                0 <= c < rest.len() && (#[trigger] rest[c]).name == name && rest[c].id == id;
            assert(calls[c].name == name && calls[c].id == id);
        }
        if exists|c: int|
            0 <= c < calls.len() && (#[trigger] calls[c]).name == name && calls[c].id == id {
            let c = choose|c: int|
                0 <= c < calls.len() && (#[trigger] calls[c]).name == name && calls[c].id == id;
            if c < rest.len() {
                assert(rest[c].name == name && rest[c].id == id);
            }
        }
        if calls.last().name == name && calls.last().id == id {
            assert(calls[calls.len() - 1].name == name);
        }
    }
}

proof fn was_asked(messages: Seq<MessageView>, n: int, name: Seq<char>, id: Seq<char>)
    requires
        0 <= n <= messages.len(),
        open_ids_after(messages.take(n), name).contains(id),
    ensures
        exists|j: int, c: int| #[trigger] is_asking(messages, j, c, id, name) && j < n,
    decreases n,
{
    if n > 0 {
        let before = messages.take(n - 1);
        assert(messages.take(n).drop_last() =~= before);
        assert(messages.take(n).last() == messages[n - 1]);
        let ids = open_ids_after(before, name);
        if ids.contains(id) {
            was_asked(messages, n - 1, name, id);
            let (j, c) = choose|j: int, c: int| #[trigger]
                is_asking(messages, j, c, id, name) && j < n - 1;
            assert(is_asking(messages, j, c, id, name) && j < n);
        } else {
            match messages[n - 1] {
                MessageView::Assistant { tool_calls, .. } => {
                    ids_added(ids, tool_calls, name, id);
                    let c = choose|c: int|
                        0 <= c < tool_calls.len() && (#[trigger] tool_calls[c]).name == name
                            && tool_calls[c].id == id;
                    assert(is_asking(messages, n - 1, c, id, name));
                },
                _ => {},
            }
        }
    } else {
        assert(messages.take(0).len() == 0);
    }
}

proof fn still_open(
    messages: Seq<MessageView>,
    j: int,
    c: int,
    n: int,
    name: Seq<char>,
    id: Seq<char>,
)
    requires
        is_asking(messages, j, c, id, name),
        j < n <= messages.len(),
        forall|k: int|
            j < k < n && (#[trigger] messages[k]) is Tool ==> messages[k]->Tool_call_id != id,
    ensures
        open_ids_after(messages.take(n), name).contains(id),
    decreases n,
{
    let before = messages.take(n - 1);
    assert(messages.take(n).drop_last() =~= before);
    assert(messages.take(n).last() == messages[n - 1]);
    let ids = open_ids_after(before, name);
    if n - 1 == j {
        let calls = messages[j]->Assistant_tool_calls;
        ids_added(ids, calls, name, id);
        assert(calls[c].name == name && calls[c].id == id);
    } else {
        still_open(messages, j, c, n - 1, name, id);
        match messages[n - 1] {
            MessageView::Assistant { tool_calls, .. } => {
                ids_added(ids, tool_calls, name, id);
            },
            _ => {},
        }
    }
}

/// A result at `i` that answers a call of the tool `name`: the call was asked for before,
/// and no other result took it.
pub open spec fn is_result_of(messages: Seq<MessageView>, i: int, name: Seq<char>) -> bool {
    &&& messages[i] is Tool
    &&& exists|j: int, c: int|
        {
            &&& #[trigger] is_asking(messages, j, c, messages[i]->Tool_call_id, name)
            &&& j < i
            &&& forall|k: int|
                j < k < i && (#[trigger] messages[k]) is Tool ==> messages[k]->Tool_call_id
                    != messages[i]->Tool_call_id
        }
}

proof fn result_answers(messages: Seq<MessageView>, i: int, name: Seq<char>)
    requires
        0 <= i < messages.len(),
    ensures
        is_result_of(messages, i, name) ==> answers(messages, i, name),
        messages[i] is Tool && answers(messages, i, name) ==> asked_for(messages, i, name),
{
    if is_result_of(messages, i, name) {
        let id = messages[i]->Tool_call_id;
        let (j, c) = choose|j: int, c: int|
            {
                &&& #[trigger] is_asking(messages, j, c, id, name)
                &&& j < i
                &&& forall|k: int|
                    j < k < i && (#[trigger] messages[k]) is Tool ==> messages[k]->Tool_call_id
                        != id
            };
        still_open(messages, j, c, i, name, id);
    }
    if messages[i] is Tool && answers(messages, i, name) {
        was_asked(messages, i, name, messages[i]->Tool_call_id);
    }
}

proof fn compact_same(messages: Seq<MessageView>, i: int)
    requires
        0 <= i < messages.len(),
    ensures
        ({
            let b = compact_plan(messages, i);
            let a = messages[i];
            &&& !(a is Tool) ==> same_said(a, b)
            &&& a is Tool ==> b is Tool && b->Tool_call_id == a->Tool_call_id && b->Tool_image
                == a->Tool_image && b->Tool_diff == a->Tool_diff
            &&& a is Tool && !answers(messages, i, "update_plan"@) ==> b == a
            &&& a is Tool && answers(messages, i, "update_plan"@) ==> b->Tool_content
                == stored_note()
        }),
{
    let a = messages[i];
    match a {
        MessageView::Assistant { tool_calls, .. } => {
            let b = compact_plan(messages, i);
            assert forall|k: int| 0 <= k < tool_calls.len() implies same_call(
                tool_calls[k],
                #[trigger] b->Assistant_tool_calls[k],
            ) by {
                assert(b->Assistant_tool_calls[k] == compact_call(tool_calls[k]));
            }
        },
        _ => {},
    }
}

/// To take differences out of messages leaves everything else: the text, the call and the
/// image of each result, and every other message as it is.
pub proof fn diff_law(message: MessageView)
    ensures
        message is Tool ==> {
            let bare = without_diff(message);
            &&& bare is Tool
            &&& bare->Tool_call_id == message->Tool_call_id
            &&& bare->Tool_content == message->Tool_content
            &&& bare->Tool_image == message->Tool_image
            &&& bare->Tool_diff is None
        },
        !(message is Tool) ==> without_diff(message) == message,
{
}

/// The messages that a request carries of a conversation, before anything is left out of
/// them: the summary and what came behind it, else all of them.
pub proof fn since_law(messages: Seq<MessageView>, meta: MetaView)
    ensures
        meta.compaction_summary is None ==> since_summary(messages, meta) == messages,
        meta.compaction_summary is Some ==> {
            let from = if meta.compacted_through < messages.len() {
                meta.compacted_through as int
            } else {
                messages.len() as int
            };
            let rest = messages.skip(from).filter(|m: MessageView| !marks_compaction(m));
            let since = since_summary(messages, meta);
            &&& since.len() == rest.len() + 1
            &&& since[0] == MessageView::System {
                content: "Conversation summary for continuation:\n"@ + meta.compaction_summary->0,
            }
            &&& since.skip(1) == rest
        },
{
    if meta.compaction_summary is Some {
        let from = if meta.compacted_through < messages.len() {
            meta.compacted_through as int
        } else {
            messages.len() as int
        };
        let rest = messages.skip(from).filter(|m: MessageView| !marks_compaction(m));
        assert(since_summary(messages, meta).skip(1) =~= rest);
    }
}

/// Every message of a request says what the message that it stands for says: no text, image
/// or call is lost or changed on the way. Only the text of a result may be another one, of a
/// page that was used or of a plan that was stored.
pub proof fn context_kept_law(messages: Seq<MessageView>, meta: MetaView, i: int)
    requires
        0 <= i < since_summary(messages, meta).len(),
    ensures
        ({
            let since = since_summary(messages, meta);
            let shown = context_of(messages, meta);
            &&& shown.len() == since.len()
            &&& same_said(since[i], shown[i])
            &&& since[i] is Tool && !asked_for(since, i, "update_plan"@) && !asked_for(
                since,
                i,
                "web_browser"@,
            ) ==> shown[i]->Tool_content == since[i]->Tool_content
            &&& since[i] is Tool && !asked_for(since, i, "update_plan"@) && (forall|j: int|
                i < j < since.len() ==> !is_answer(#[trigger] since[j])) ==> shown[i]->Tool_content
                == since[i]->Tool_content
        }),
{
    let since = since_summary(messages, meta);
    let ejected = eject_pages(since);
    let compacted = compact_plans(ejected);
    let shown = context_of(messages, meta);
    assert(shown[i] == without_diff(compacted[i]));
    assert(compacted[i] == compact_plan(ejected, i));
    assert(ejected[i] == eject(since, i));
    compact_same(ejected, i);
    same_asking(since, i);
    result_answers(ejected, i, "update_plan"@);
    result_answers(since, i, "web_browser"@);
    if since[i] is Assistant {
        assert(ejected[i] == since[i]);
    }
}

/// Pages that were left out are asked for in the same way as before.
proof fn same_asking(since: Seq<MessageView>, i: int)
    requires
        0 <= i < since.len(),
    ensures
        since[i] is Tool ==> (asked_for(eject_pages(since), i, "update_plan"@) <==> asked_for(
            since,
            i,
            "update_plan"@,
        )),
        since[i] is Tool <==> eject_pages(since)[i] is Tool,
        since[i] is Tool && is_result_of(since, i, "update_plan"@) ==> is_result_of(
            eject_pages(since),
            i,
            "update_plan"@,
        ),
{
    let ejected = eject_pages(since);
    let name = "update_plan"@;
    if since[i] is Tool {
        let id = since[i]->Tool_call_id;
        assert(ejected[i]->Tool_call_id == id);
        assert forall|j: int, c: int| is_asking(since, j, c, id, name) <==> #[trigger] is_asking(
            ejected,
            j,
            c,
            id,
            name,
        ) by {
            if 0 <= j < since.len() {
                assert(ejected[j] == eject(since, j));
            }
        }
        if asked_for(since, i, name) {
            let (j, c) = choose|j: int, c: int| #[trigger]
                is_asking(since, j, c, id, name) && j < i;
            assert(is_asking(ejected, j, c, id, name) && j < i);
        }
        if asked_for(ejected, i, name) {
            let (j, c) = choose|j: int, c: int| #[trigger]
                is_asking(ejected, j, c, id, name) && j < i;
            assert(is_asking(since, j, c, id, name) && j < i);
        }
        if is_result_of(since, i, name) {
            let (j, c) = choose|j: int, c: int|
                {
                    &&& #[trigger] is_asking(since, j, c, id, name)
                    &&& j < i
                    &&& forall|k: int|
                        j < k < i && (#[trigger] since[k]) is Tool ==> since[k]->Tool_call_id != id
                };
            assert(is_asking(ejected, j, c, id, name));
            assert forall|k: int| j < k < i && (#[trigger] ejected[k]) is Tool implies
                ejected[k]->Tool_call_id != id by {
                assert(ejected[k] == eject(since, k));
                assert(since[k] is Tool);
            }
        }
    }
}

/// A plan that was stored is not told again in its result, and a page that an answer used is
/// told by its address and its title only.
pub proof fn left_out_law(messages: Seq<MessageView>, meta: MetaView, i: int, j: int)
    requires
        0 <= i < since_summary(messages, meta).len(),
        i < j < since_summary(messages, meta).len(),
    ensures
        ({
            let since = since_summary(messages, meta);
            let shown = context_of(messages, meta);
            &&& is_result_of(since, i, "update_plan"@) ==> shown[i]->Tool_content
                == "{\"stored\":true,\"note\":\"Latest plan is provided separately.\"}"@
            &&& is_result_of(since, i, "web_browser"@) && is_answer(since[j]) && !asked_for(
                since,
                i,
                "update_plan"@,
            ) && read_json(since[i]->Tool_content) is Some && read_json(
                since[i]->Tool_content,
            )->0.text_at("content"@) is Some ==> exists|marker: JsonView|
                {
                    &&& shown[i]->Tool_content == #[trigger] written_pretty(marker)
                    &&& stands_for(marker, read_json(since[i]->Tool_content)->0)
                }
        }),
{
    let since = since_summary(messages, meta);
    let ejected = eject_pages(since);
    let compacted = compact_plans(ejected);
    let shown = context_of(messages, meta);
    assert(shown[i] == without_diff(compacted[i]));
    assert(compacted[i] == compact_plan(ejected, i));
    assert(ejected[i] == eject(since, i));
    compact_same(ejected, i);
    same_asking(since, i);
    result_answers(ejected, i, "update_plan"@);
    result_answers(since, i, "web_browser"@);
    if is_result_of(since, i, "web_browser"@) && is_answer(since[j]) && !asked_for(
        since,
        i,
        "update_plan"@,
    ) && read_json(since[i]->Tool_content) is Some && read_json(since[i]->Tool_content)->0.text_at(
        "content"@,
    ) is Some {
        let page = read_json(since[i]->Tool_content)->0;
        marker_fields_law(page);
        let marker = page_marker(page)->0;
        assert(is_consumed(since, i));
        assert(shown[i]->Tool_content == written_pretty(marker));
    }
}

/// What stands for a page: its address, its title and its length, and that it was left out;
/// but not the page.
pub open spec fn stands_for(marker: JsonView, page: JsonView) -> bool {
    &&& marker.bool_at("ejected"@) == Some(true)
    &&& marker.text_at("tool"@) == Some("web_browser"@)
    &&& marker.text_at("url"@) == match page.text_at("url"@) {
        Some(url) => Some(url),
        None => Some(Seq::empty()),
    }
    &&& marker.text_at("title"@) == match page.text_at("title"@) {
        Some(title) => Some(title),
        None => Some(Seq::empty()),
    }
    &&& marker.number_at("original_chars"@) == Some(page.text_at("content"@)->0.len() as u64)
    &&& marker.get("content"@) is None
}

/// What stands for a page tells where it was and how long it was. It stands for a page only
/// where there is one.
pub proof fn marker_fields_law(page: JsonView)
    ensures
        page_marker(page) is Some <==> page.text_at("content"@) is Some,
        page_marker(page) is Some ==> stands_for(page_marker(page)->0, page),
{
    reveal_strlit("ejected");
    reveal_strlit("tool");
    reveal_strlit("url");
    reveal_strlit("title");
    reveal_strlit("original_chars");
    reveal_strlit("note");
    reveal_strlit("content");
    assert("ejected"@.len() != "tool"@.len());
    assert("ejected"@.len() != "url"@.len());
    assert("ejected"@.len() != "title"@.len());
    assert("ejected"@.len() != "original_chars"@.len());
    assert("ejected"@.len() != "note"@.len());
    assert("ejected"@[0] != "content"@[0]);
    assert("tool"@.len() != "url"@.len());
    assert("tool"@.len() != "title"@.len());
    assert("tool"@.len() != "original_chars"@.len());
    assert("tool"@[0] != "note"@[0]);
    assert("tool"@.len() != "content"@.len());
    assert("url"@.len() != "title"@.len());
    assert("url"@.len() != "original_chars"@.len());
    assert("url"@.len() != "note"@.len());
    assert("url"@.len() != "content"@.len());
    assert("title"@.len() != "original_chars"@.len());
    assert("title"@.len() != "note"@.len());
    assert("title"@.len() != "content"@.len());
    assert("original_chars"@.len() != "note"@.len());
    assert("original_chars"@.len() != "content"@.len());
    assert("note"@.len() != "content"@.len());
    if page_marker(page) is Some {
        let e = page_marker(page)->0->Object_0;
        assert(e[0].0 == "ejected"@);
        assert(e[1].0 == "tool"@);
        assert(e[2].0 == "url"@);
        assert(e[3].0 == "title"@);
        assert(e[4].0 == "original_chars"@);
        assert(e[5].0 == "note"@);
        entry_law(e, 0);
        assert forall|k: int| 0 <= k < 1 implies (#[trigger] e[k]).0 != e[1].0 by {
            assert(k == 0);
        }
        entry_law(e, 1);
        assert forall|k: int| 0 <= k < 2 implies (#[trigger] e[k]).0 != e[2].0 by {
            assert(k == 0 || k == 1);
        }
        entry_law(e, 2);
        assert forall|k: int| 0 <= k < 3 implies (#[trigger] e[k]).0 != e[3].0 by {
            assert(k == 0 || k == 1 || k == 2);
        }
        entry_law(e, 3);
        assert forall|k: int| 0 <= k < 4 implies (#[trigger] e[k]).0 != e[4].0 by {
            assert(k == 0 || k == 1 || k == 2 || k == 3);
        }
        entry_law(e, 4);
        assert forall|k: int| 0 <= k < 5 implies (#[trigger] e[k]).0 != e[5].0 by {
            assert(k == 0 || k == 1 || k == 2 || k == 3 || k == 4);
        }
        entry_law(e, 5);
        assert forall|k: int| 0 <= k < e.len() implies (#[trigger] e[k]).0 != "content"@ by {
            assert(k == 0 || k == 1 || k == 2 || k == 3 || k == 4 || k == 5);
        }
        no_entry_law(e, "content"@);
    }
}

/// The arguments of a plan that was stored say so.
pub proof fn stored_law(call: ToolCallView)
    ensures
        stored_arguments().bool_at("stored"@) == Some(true),
        call.name == "update_plan"@ ==> compact_call(call).arguments.bool_at("stored"@) == Some(
            true,
        ),
        same_call(call, compact_call(call)),
{
    one_entry_law("stored"@, JsonView::Bool(true), "stored"@);
}

// ---------------------------------------------------------------------------
// A request
// ---------------------------------------------------------------------------

/// A request begins with the instructions and the plan in force, each where there is one, and
/// goes on with the conversation, message by message.
pub proof fn request_law(
    messages: Seq<MessageView>,
    prompt: Option<Seq<char>>,
    plan: Option<PlanView>,
    i: int,
)
    ensures
        ({
            let request = request_of(messages, prompt, plan);
            let told = if prompt is Some {
                1int
            } else {
                0
            };
            let planned = told + if plan is Some {
                1int
            } else {
                0
            };
            &&& request.len() == planned + messages.len()
            &&& prompt is Some ==> request[0] == MessageView::System { content: prompt->0 }
            &&& plan is Some ==> request[told] == MessageView::System {
                content: PLAN_CONTEXT_PREFIX@ + plan_text(plan->0),
            }
            &&& 0 <= i < messages.len() ==> same_said(messages[i], request[planned + i])
            &&& 0 <= i < messages.len() && messages[i] is Tool && !asked_for(
                messages,
                i,
                "update_plan"@,
            ) ==> request[planned + i]->Tool_content == messages[i]->Tool_content
        }),
{
    let bare = messages.map_values(|m: MessageView| without_diff(m));
    let compacted = compact_plans(bare);
    let request = request_of(messages, prompt, plan);
    let told = if prompt is Some {
        1int
    } else {
        0
    };
    let planned = told + if plan is Some {
        1int
    } else {
        0
    };
    if 0 <= i < messages.len() {
        assert(request[planned + i] == compacted[i]);
        assert(compacted[i] == compact_plan(bare, i));
        compact_same(bare, i);
        if messages[i] is Tool {
            let id = messages[i]->Tool_call_id;
            assert(bare[i]->Tool_call_id == id);
            result_answers(bare, i, "update_plan"@);
            if asked_for(bare, i, "update_plan"@) {
                let (j, c) = choose|j: int, c: int| #[trigger]
                    is_asking(bare, j, c, id, "update_plan"@) && j < i;
                assert(bare[j] == without_diff(messages[j]));
                assert(is_asking(messages, j, c, id, "update_plan"@));
            }
        } else {
            assert(bare[i] == messages[i]);
        }
    }
}

proof fn text_in(a: Seq<char>, part: Seq<char>, b: Seq<char>)
    ensures
        has_text(a + part + b, part),
{
    let all = a + part + b;
    assert(all.subrange(a.len() as int, (a.len() + part.len()) as int) =~= part);
    assert(occurs_at(all, part, a.len() as int));
}

proof fn text_within(outer: Seq<char>, inner: Seq<char>, part: Seq<char>)
    requires
        has_text(outer, inner),
        has_text(inner, part),
    ensures
        has_text(outer, part),
{
    let i = choose|i: int| occurs_at(outer, inner, i);
    let j = choose|j: int| occurs_at(inner, part, j);
    let here = outer.subrange(i + j, i + j + part.len());
    let there = inner.subrange(j, j + part.len());
    assert forall|k: int| 0 <= k < part.len() implies #[trigger] here[k] == there[k] by {
        assert(outer.subrange(i, i + inner.len())[j + k] == inner[j + k]);
    }
    assert(here =~= there);
    assert(occurs_at(outer, part, i + j));
}

proof fn steps_hold(steps: Seq<PlanStepView>, i: int)
    requires
        0 <= i < steps.len(),
    ensures
        has_text(steps_text(steps), step_text(steps[i])),
    decreases steps.len(),
{
    let all = steps_text(steps);
    if steps.len() == 1 {
        assert(all =~= Seq::<char>::empty() + step_text(steps[0]) + Seq::<char>::empty());
        text_in(Seq::empty(), step_text(steps[0]), Seq::empty());
    } else if i == steps.len() - 1 {
        let before = steps_text(steps.drop_last()) + ",\n"@;
        assert(all =~= before + step_text(steps.last()) + Seq::<char>::empty());
        text_in(before, step_text(steps.last()), Seq::empty());
    } else {
        let rest = steps_text(steps.drop_last());
        steps_hold(steps.drop_last(), i);
        assert(all =~= Seq::<char>::empty() + rest + (",\n"@ + step_text(steps.last())));
        text_in(Seq::empty(), rest, ",\n"@ + step_text(steps.last()));
        text_within(all, rest, step_text(steps[i]));
    }
}

/// A plan that is told holds each of its steps with how it stands, and its explanation.
pub proof fn plan_text_law(plan: PlanView, i: int)
    ensures
        0 <= i < plan.plan.len() ==> has_text(
            plan_text(plan),
            quoted(plan.plan[i].step) + ",\n      \"status\": \""@ + status_name(plan.plan[i].status)
                + "\""@,
        ),
        plan.explanation is Some ==> has_text(
            plan_text(plan),
            "\"explanation\": "@ + quoted(plan.explanation->0),
        ),
{
    let opening = match plan.explanation {
        Some(explanation) => "{\n  \"explanation\": "@ + quoted(explanation) + ",\n"@,
        None => "{\n"@,
    };
    let all = plan_text(plan);
    if 0 <= i < plan.plan.len() {
        let step = plan.plan[i];
        let part = quoted(step.step) + ",\n      \"status\": \""@ + status_name(step.status)
            + "\""@;
        reveal_strlit("\"\n    }");
        reveal_strlit("\"");
        reveal_strlit("\n    }");
        assert("\"\n    }"@ =~= "\""@ + "\n    }"@);
        assert(step_text(step) =~= "    {\n      \"step\": "@ + part + "\n    }"@);
        text_in("    {\n      \"step\": "@, part, "\n    }"@);
        steps_hold(plan.plan, i);
        text_within(steps_text(plan.plan), step_text(step), part);
        assert(all =~= (opening + "  \"plan\": [\n"@) + steps_text(plan.plan) + "\n  ]\n}"@);
        text_in(opening + "  \"plan\": [\n"@, steps_text(plan.plan), "\n  ]\n}"@);
        text_within(all, steps_text(plan.plan), part);
    }
    if plan.explanation is Some {
        let told = plan.explanation->0;
        let part = "\"explanation\": "@ + quoted(told);
        reveal_strlit("{\n  \"explanation\": ");
        reveal_strlit("{\n  ");
        reveal_strlit("\"explanation\": ");
        assert("{\n  \"explanation\": "@ =~= "{\n  "@ + "\"explanation\": "@);
        assert(opening =~= "{\n  "@ + part + ",\n"@);
        text_in("{\n  "@, part, ",\n"@);
        if plan.plan.len() == 0 {
            assert(all =~= Seq::<char>::empty() + opening + "  \"plan\": []\n}"@);
            text_in(Seq::empty(), opening, "  \"plan\": []\n}"@);
        } else {
            let rest = "  \"plan\": [\n"@ + steps_text(plan.plan) + "\n  ]\n}"@;
            assert(all =~= Seq::<char>::empty() + opening + rest);
            text_in(Seq::empty(), opening, rest);
        }
        text_within(all, opening, part);
    }
}

/// How a step stands is told in three ways.
pub proof fn status_law(a: PlanStatus, b: PlanStatus)
    ensures
        status_name(a) == status_name(b) <==> a == b,
        status_name(PlanStatus::Pending) == "pending"@,
        status_name(PlanStatus::InProgress) == "in_progress"@,
        status_name(PlanStatus::Completed) == "completed"@,
{
    reveal_strlit("pending");
    reveal_strlit("in_progress");
    reveal_strlit("completed");
    assert("pending"@.len() != "in_progress"@.len());
    assert("pending"@.len() != "completed"@.len());
    assert("in_progress"@.len() != "completed"@.len());
}

// ---------------------------------------------------------------------------
// Sizes
// ---------------------------------------------------------------------------

/// The estimate counts a token for each four bytes that are written, and four for each
/// message; more messages never count less.
pub proof fn estimate_law(a: Seq<MessageView>, b: Seq<MessageView>)
    ensures
        total_bytes(a + b) == total_bytes(a) + total_bytes(b),
        a.len() == 1 ==> total_bytes(a) == message_bytes(a[0]),
        4 * (tokens_of(a) - 4 * a.len()) >= total_bytes(a),
        4 * (tokens_of(a) - 4 * a.len()) < total_bytes(a) + 4,
        tokens_of(a + b) >= tokens_of(a),
    decreases b.len(),
{
    if a.len() == 1 {
        assert(a.drop_last() =~= Seq::empty());
        assert(total_bytes(a.drop_last()) == 0);
    }
    if b.len() == 0 {
        assert(a + b =~= a);
    } else {
        assert((a + b).drop_last() =~= a + b.drop_last());
        assert((a + b).last() == b.last());
        estimate_law(a, b.drop_last());
    }
}

/// What is left of the context, with what a request takes, is all of it, where the request
/// fits; and nothing is left where it does not.
pub proof fn room_law(
    messages: Seq<MessageView>,
    max_tokens: u64,
    prompt: Option<Seq<char>>,
    plan: Option<PlanView>,
)
    ensures
        ({
            let taken = tokens_of(request_of(messages, prompt, plan));
            let left = free_tokens(messages, max_tokens, prompt, plan);
            &&& taken <= max_tokens ==> left + taken == max_tokens
            &&& taken > max_tokens ==> left == 0
        }),
{
}

/// Four bytes are a token, as far as a machine can count them.
pub proof fn token_law(tokens: u64)
    ensures
        token_bytes(tokens) <= usize::MAX,
        4 * tokens <= usize::MAX ==> token_bytes(tokens) == 4 * tokens,
        4 * tokens > usize::MAX ==> token_bytes(tokens) == usize::MAX,
{
}

// ---------------------------------------------------------------------------
// Messages as they are written
// ---------------------------------------------------------------------------

/// A call is written with its id, its name and its arguments, and an image with its type and
/// where it is kept.
pub proof fn written_parts_law(call: ToolCallView, image: ImageView)
    ensures
        call_json(call).text_at("id"@) == Some(call.id),
        call_json(call).text_at("name"@) == Some(call.name),
        call_json(call).get("arguments"@) == Some(call.arguments),
        image_json(image).text_at("mime_type"@) == Some(image.mime_type),
        image_json(image).text_at("path"@) == image.path,
        image_json(image).number_at("width"@) == if image.width == 0 {
            None
        } else {
            Some(image.width as u64)
        },
        image_json(image).number_at("height"@) == if image.height == 0 {
            None
        } else {
            Some(image.height as u64)
        },
        image_json(image).get("data"@) is None,
{
    reveal_strlit("id");
    reveal_strlit("name");
    reveal_strlit("arguments");
    assert("id"@.len() != "name"@.len());
    assert("id"@.len() != "arguments"@.len());
    assert("name"@.len() != "arguments"@.len());
    let e = call_json(call)->Object_0;
    assert(e[0].0 == "id"@);
    assert(e[1].0 == "name"@);
    assert(e[2].0 == "arguments"@);
    entry_law(e, 0);
    assert forall|k: int| 0 <= k < 1 implies (#[trigger] e[k]).0 != e[1].0 by {
        assert(k == 0);
    }
    entry_law(e, 1);
    assert forall|k: int| 0 <= k < 2 implies (#[trigger] e[k]).0 != e[2].0 by {
        assert(k == 0 || k == 1);
    }
    entry_law(e, 2);
    reveal_strlit("mime_type");
    reveal_strlit("path");
    reveal_strlit("width");
    reveal_strlit("height");
    reveal_strlit("data");
    assert("mime_type"@.len() != "path"@.len());
    assert("mime_type"@.len() != "width"@.len());
    assert("mime_type"@.len() != "height"@.len());
    assert("mime_type"@.len() != "data"@.len());
    assert("path"@.len() != "width"@.len());
    assert("path"@.len() != "height"@.len());
    assert("path"@[0] != "data"@[0]);
    assert("width"@.len() != "height"@.len());
    assert("width"@.len() != "data"@.len());
    assert("height"@.len() != "data"@.len());
    let p0 = seq![("mime_type"@, JsonView::Text(image.mime_type))];
    let p1 = entry_if(image.path is Some, "path"@, JsonView::Text(image.path->0));
    let p2 = entry_if(image.width != 0, "width"@, JsonView::Unsigned(image.width as u64));
    let p3 = entry_if(image.height != 0, "height"@, JsonView::Unsigned(image.height as u64));
    let c0 = p0;
    let c1 = c0 + p1;
    let c2 = c1 + p2;
    let c3 = c2 + p3;
    entries_law(c0, p1, "mime_type"@);
    entries_law(c1, p2, "mime_type"@);
    entries_law(c2, p3, "mime_type"@);
    one_entry_law("mime_type"@, JsonView::Text(image.mime_type), "mime_type"@);
    one_entry_law("path"@, JsonView::Text(image.path->0), "mime_type"@);
    one_entry_law("width"@, JsonView::Unsigned(image.width as u64), "mime_type"@);
    one_entry_law("height"@, JsonView::Unsigned(image.height as u64), "mime_type"@);
    entries_law(c0, p1, "path"@);
    entries_law(c1, p2, "path"@);
    entries_law(c2, p3, "path"@);
    one_entry_law("mime_type"@, JsonView::Text(image.mime_type), "path"@);
    one_entry_law("path"@, JsonView::Text(image.path->0), "path"@);
    one_entry_law("width"@, JsonView::Unsigned(image.width as u64), "path"@);
    one_entry_law("height"@, JsonView::Unsigned(image.height as u64), "path"@);
    entries_law(c0, p1, "width"@);
    entries_law(c1, p2, "width"@);
    entries_law(c2, p3, "width"@);
    one_entry_law("mime_type"@, JsonView::Text(image.mime_type), "width"@);
    one_entry_law("path"@, JsonView::Text(image.path->0), "width"@);
    one_entry_law("width"@, JsonView::Unsigned(image.width as u64), "width"@);
    one_entry_law("height"@, JsonView::Unsigned(image.height as u64), "width"@);
    entries_law(c0, p1, "height"@);
    entries_law(c1, p2, "height"@);
    entries_law(c2, p3, "height"@);
    one_entry_law("mime_type"@, JsonView::Text(image.mime_type), "height"@);
    one_entry_law("path"@, JsonView::Text(image.path->0), "height"@);
    one_entry_law("width"@, JsonView::Unsigned(image.width as u64), "height"@);
    one_entry_law("height"@, JsonView::Unsigned(image.height as u64), "height"@);
    entries_law(c0, p1, "data"@);
    entries_law(c1, p2, "data"@);
    entries_law(c2, p3, "data"@);
    one_entry_law("mime_type"@, JsonView::Text(image.mime_type), "data"@);
    one_entry_law("path"@, JsonView::Text(image.path->0), "data"@);
    one_entry_law("width"@, JsonView::Unsigned(image.width as u64), "data"@);
    one_entry_law("height"@, JsonView::Unsigned(image.height as u64), "data"@);
    assert(image_json(image)->Object_0 == c3);
}

/// A message is written with who said it and what was said, and a result with the call that
/// it answers.
pub proof fn written_message_law(message: MessageView)
    ensures
        message_json(message).text_at("content"@) == Some(message.content()),
        message_json(message).text_at("role"@) == Some(
            match message {
                MessageView::System { .. } => "system"@,
                MessageView::User { .. } => "user"@,
                MessageView::Steer { .. } => "steer"@,
                MessageView::Assistant { .. } => "assistant"@,
                MessageView::Tool { .. } => "tool"@,
            },
        ),
        message is Tool ==> message_json(message).text_at("call_id"@) == Some(
            message->Tool_call_id,
        ),
{
    reveal_strlit("role");
    reveal_strlit("content");
    reveal_strlit("call_id");
    assert("role"@.len() != "content"@.len());
    assert("role"@.len() != "call_id"@.len());
    assert("content"@[1] != "call_id"@[1]);
    let e = message_json(message)->Object_0;
    match message {
        MessageView::Tool { .. } => {
            assert(e[0].0 == "role"@);
            assert(e[1].0 == "call_id"@);
            assert(e[2].0 == "content"@);
            entry_law(e, 0);
            entry_law(e, 1);
            assert forall|k: int| 0 <= k < 2 implies (#[trigger] e[k]).0 != e[2].0 by {
                assert(k == 0 || k == 1);
            }
            entry_law(e, 2);
        },
        _ => {
            assert(e[0].0 == "role"@);
            assert(e[1].0 == "content"@);
            entry_law(e, 0);
            assert forall|k: int| 0 <= k < 1 implies (#[trigger] e[k]).0 != e[1].0 by {
                assert(k == 0);
            }
            entry_law(e, 1);
        },
    }
}

} // verus!
