//! What of a conversation goes into a request to the model.
use super::message::{Message, MessageView, ToolCall, ToolCallView};
use super::COMPACTION_MARKER;
use crate::json;
use crate::json::{
    entry, map_entries, map_entries_from, read_json, reads_back, stored, stored_entries, written,
    written_pretty, Json, JsonView,
};
use crate::session::{MetaView, SessionMeta};
use crate::text;
use crate::text::has_prefix;
use crate::text_set::TextSet;
use crate::tool::{ExecutionPlan, PlanStatus, PlanStepView, PlanView};
use vstd::prelude::*;
use vstd::string::*;
use vstd::utf8::*;

verus! {

/// A copy of a list of messages.
pub fn clone_messages(messages: &Vec<Message>) -> (result: Vec<Message>)
    ensures
        result.deep_view() == messages.deep_view(),
{
    let result = messages.clone();
    assert(result.deep_view() =~= messages.deep_view());
    result
}

// ---------------------------------------------------------------------------
// Differences of files
// ---------------------------------------------------------------------------

/// A message without the difference that its tool made to a file.
pub open spec fn without_diff(message: MessageView) -> MessageView {
    match message {
        MessageView::Tool { call_id, content, image, diff } => MessageView::Tool {
            call_id,
            content,
            image,
            diff: None,
        },
        _ => message,
    }
}

/// Whether a message tells of a difference.
pub open spec fn has_diff(message: MessageView) -> bool {
    message matches MessageView::Tool { diff: Some(_), .. }
}

/// Takes the differences out of the messages, and counts them.
pub fn strip_tool_diffs(messages: &mut Vec<Message>) -> (count: usize)
    ensures
        final(messages).deep_view() == old(messages).deep_view().map_values(
            |m: MessageView| without_diff(m),
        ),
        count == old(messages).deep_view().filter(|m: MessageView| has_diff(m)).len(),
{
    let ghost before = messages.deep_view();
    let ghost kept = |m: MessageView| has_diff(m);
    let mut count: usize = 0;
    let mut i: usize = 0;
    assert(before.take(0).filter(kept).len() == 0) by {
        reveal(Seq::filter);
    }
    while i < messages.len()
        invariant
            kept == (|m: MessageView| has_diff(m)),
            i <= messages@.len(),
            messages@.len() == before.len(),
            count <= i,
            count == before.take(i as int).filter(kept).len(),
            forall|k: int|
                0 <= k < i ==> (#[trigger] messages@[k]).deep_view() == without_diff(before[k]),
            forall|k: int|
                i <= k < messages@.len() ==> (#[trigger] messages@[k]).deep_view() == before[k],
        decreases messages@.len() - i,
    {
        proof {
            reveal(Seq::filter);
            assert(before.take(i + 1).drop_last() =~= before.take(i as int));
            assert(before.take(i + 1).last() == messages@[i as int].deep_view());
        }
        if let Message::Tool { diff, .. } = &mut messages[i] {
            if diff.is_some() {
                count += 1;
                *diff = None;
            }
        }
        i += 1;
    }
    assert(before.take(i as int) =~= before);
    assert(messages.deep_view() =~= before.map_values(|m: MessageView| without_diff(m)));
    count
}

// ---------------------------------------------------------------------------
// Plans
// ---------------------------------------------------------------------------

/// What stands for the arguments of a call that stored a plan.
pub open spec fn stored_arguments() -> JsonView {
    JsonView::Object(seq![("stored"@, JsonView::Bool(true))])
}

/// What stands for the result of a call that stored a plan.
pub open spec fn stored_note() -> Seq<char> {
    "{\"stored\":true,\"note\":\"Latest plan is provided separately.\"}"@
}

/// A call without the plan that it stored.
pub open spec fn compact_call(call: ToolCallView) -> ToolCallView {
    if call.name == "update_plan"@ {
        ToolCallView { arguments: stored_arguments(), ..call }
    } else {
        call
    }
}

/// The ids of the calls named `name`, added to `ids`.
pub open spec fn add_ids(ids: Set<Seq<char>>, calls: Seq<ToolCallView>, name: Seq<char>) -> Set<
    Seq<char>,
>
    decreases calls.len(),
{
    if calls.len() == 0 {
        ids
    } else {
        let rest = add_ids(ids, calls.drop_last(), name);
        if calls.last().name == name {
            rest.insert(calls.last().id)
        } else {
            rest
        }
    }
}

/// The ids of the calls whose result is still to come, behind a message.
pub open spec fn open_ids(ids: Set<Seq<char>>, message: MessageView, name: Seq<char>) -> Set<
    Seq<char>,
> {
    match message {
        MessageView::Assistant { tool_calls, .. } => add_ids(ids, tool_calls, name),
        MessageView::Tool { call_id, .. } => ids.remove(call_id),
        _ => ids,
    }
}

/// The ids of the calls whose result is still to come, behind messages.
pub open spec fn open_ids_after(messages: Seq<MessageView>, name: Seq<char>) -> Set<Seq<char>>
    decreases messages.len(),
{
    if messages.len() == 0 {
        Set::empty()
    } else {
        open_ids(open_ids_after(messages.drop_last(), name), messages.last(), name)
    }
}

/// Whether the message at `i` is the result of a call of the tool `name`.
pub open spec fn answers(messages: Seq<MessageView>, i: int, name: Seq<char>) -> bool {
    match messages[i] {
        MessageView::Tool { call_id, .. } => open_ids_after(messages.take(i), name).contains(
            call_id,
        ),
        _ => false,
    }
}

/// The message at `i` without the plan that it stored or the note of storing one.
pub open spec fn compact_plan(messages: Seq<MessageView>, i: int) -> MessageView {
    match messages[i] {
        MessageView::Assistant { content, model, reasoning, tool_calls, response_items } =>
            MessageView::Assistant {
            content,
            model,
            reasoning,
            tool_calls: tool_calls.map_values(|c: ToolCallView| compact_call(c)),
            response_items,
        },
        MessageView::Tool { call_id, image, diff, .. } if answers(messages, i, "update_plan"@) =>
            MessageView::Tool { call_id, content: stored_note(), image, diff },
        message => message,
    }
}

/// The messages without the plans that they stored.
pub open spec fn compact_plans(messages: Seq<MessageView>) -> Seq<MessageView> {
    Seq::new(messages.len(), |i: int| compact_plan(messages, i))
}

/// The number of results of calls of the tool `name` among the first `n` messages.
pub open spec fn count_answers(messages: Seq<MessageView>, n: int, name: Seq<char>) -> nat
    decreases n,
{
    if n <= 0 {
        0
    } else {
        count_answers(messages, n - 1, name) + if answers(messages, n - 1, name) {
            1nat
        } else {
            0
        }
    }
}

/// Enters the ids of the calls named `name`.
fn note_ids(ids: &mut TextSet, calls: &Vec<ToolCall>, name: &str)
    ensures
        final(ids)@ == add_ids(old(ids)@, calls.deep_view(), name@),
{
    let ghost all = calls.deep_view();
    let mut i: usize = 0;
    while i < calls.len()
        invariant
            all == calls.deep_view(),
            i <= calls@.len(),
            ids@ == add_ids(old(ids)@, all.take(i as int), name@),
        decreases calls@.len() - i,
    {
        proof {
            assert(all.take(i + 1).drop_last() =~= all.take(i as int));
            assert(all.take(i + 1).last() == calls@[i as int].deep_view());
        }
        if text::same(calls[i].name.as_str(), name) {
            ids.insert(calls[i].id.clone());
        }
        i += 1;
    }
    assert(all.take(i as int) =~= all);
}

/// The calls without the plans that they stored.
fn compact_calls(calls: &Vec<ToolCall>) -> (result: Vec<ToolCall>)
    ensures
        result.deep_view() == calls.deep_view().map_values(|c: ToolCallView| compact_call(c)),
{
    let mut result: Vec<ToolCall> = Vec::new();
    let mut i: usize = 0;
    while i < calls.len()
        invariant
            i <= calls@.len(),
            result@.len() == i,
            forall|k: int|
                0 <= k < i ==> (#[trigger] result@[k]).deep_view() == compact_call(
                    calls@[k].deep_view(),
                ),
        decreases calls@.len() - i,
    {
        let mut call = calls[i].clone();
        if text::same(call.name.as_str(), "update_plan") {
            let mut entries: Vec<(String, Json)> = Vec::new();
            entries.push(("stored".to_owned(), Json::Bool(true)));
            proof {
                json::json_view_object(entries);
                assert(entries.deep_view() =~= seq![("stored"@, JsonView::Bool(true))]);
            }
            call.arguments = Json::Object(entries);
        }
        result.push(call);
        i += 1;
    }
    assert(result.deep_view() =~= calls.deep_view().map_values(|c: ToolCallView| compact_call(c)));
    result
}

/// Takes the plans out of the messages, and counts the results that were replaced.
pub fn compact_plan_history(messages: &mut Vec<Message>) -> (count: usize)
    ensures
        final(messages).deep_view() == compact_plans(old(messages).deep_view()),
        count == count_answers(
            old(messages).deep_view(),
            old(messages)@.len() as int,
            "update_plan"@,
        ),
{
    let ghost before = messages.deep_view();
    let mut ids = TextSet::new();
    let mut count: usize = 0;
    let mut i: usize = 0;
    while i < messages.len()
        invariant
            i <= messages@.len(),
            messages@.len() == before.len(),
            count <= i,
            count == count_answers(before, i as int, "update_plan"@),
            ids@ == open_ids_after(before.take(i as int), "update_plan"@),
            forall|k: int|
                0 <= k < i ==> (#[trigger] messages@[k]).deep_view() == compact_plan(before, k),
            forall|k: int|
                i <= k < messages@.len() ==> (#[trigger] messages@[k]).deep_view() == before[k],
        decreases messages@.len() - i,
    {
        proof {
            assert(messages@[i as int].deep_view() == before[i as int]);
            assert(before.take(i + 1).drop_last() =~= before.take(i as int));
            assert(before.take(i + 1).last() == before[i as int]);
        }
        match &mut messages[i] {
            Message::Assistant { tool_calls, .. } => {
                note_ids(&mut ids, tool_calls, "update_plan");
                let compacted = compact_calls(tool_calls);
                *tool_calls = compacted;
            },
            Message::Tool { call_id, content, .. } => {
                if ids.remove(call_id.as_str()) {
                    *content =
                    "{\"stored\":true,\"note\":\"Latest plan is provided separately.\"}".to_owned();
                    count += 1;
                }
            },
            _ => {},
        }
        i += 1;
    }
    assert(messages.deep_view() =~= compact_plans(before));
    assert(before.take(i as int) =~= before);
    count
}

/// The name of a status.
pub open spec fn status_name(status: PlanStatus) -> Seq<char> {
    match status {
        PlanStatus::Pending => "pending"@,
        PlanStatus::InProgress => "in_progress"@,
        PlanStatus::Completed => "completed"@,
    }
}

/// A text in the quotes of JSON.
pub open spec fn quoted(value: Seq<char>) -> Seq<char> {
    written(JsonView::Text(value))
}

/// One step of a plan, as JSON.
pub open spec fn step_text(step: PlanStepView) -> Seq<char> {
    "    {\n      \"step\": "@ + quoted(step.step) + ",\n      \"status\": \""@ + status_name(
        step.status,
    ) + "\"\n    }"@
}

/// The steps of a plan, as JSON, one after the other.
pub open spec fn steps_text(steps: Seq<PlanStepView>) -> Seq<char>
    decreases steps.len(),
{
    if steps.len() == 0 {
        Seq::empty()
    } else if steps.len() == 1 {
        step_text(steps[0])
    } else {
        steps_text(steps.drop_last()) + ",\n"@ + step_text(steps.last())
    }
}

/// A plan as indented JSON.
pub open spec fn plan_text(plan: PlanView) -> Seq<char> {
    let opening = match plan.explanation {
        Some(explanation) => "{\n  \"explanation\": "@ + quoted(explanation) + ",\n"@,
        None => "{\n"@,
    };
    if plan.plan.len() == 0 {
        opening + "  \"plan\": []\n}"@
    } else {
        opening + "  \"plan\": [\n"@ + steps_text(plan.plan) + "\n  ]\n}"@
    }
}

fn quote(value: &str) -> (result: String)
    ensures
        result@ == quoted(value@),
{
    json::write(&Json::text(value))
}

/// A plan as indented JSON.
pub fn write_plan(plan: &ExecutionPlan) -> (result: String)
    ensures
        result@ == plan_text(plan.deep_view()),
{
    let mut result = match &plan.explanation {
        Some(explanation) => {
            let q = quote(explanation.as_str());
            text::join_three("{\n  \"explanation\": ", q.as_str(), ",\n")
        },
        None => "{\n".to_owned(),
    };
    if plan.plan.len() == 0 {
        result.append("  \"plan\": []\n}");
        return result;
    }
    result.append("  \"plan\": [\n");
    let ghost opening = result@;
    let ghost all = plan.plan.deep_view();
    let mut i: usize = 0;
    assert(opening + steps_text(all.take(0)) =~= opening);
    while i < plan.plan.len()
        invariant
            all == plan.plan.deep_view(),
            i <= plan.plan@.len(),
            result@ == opening + steps_text(all.take(i as int)),
        decreases plan.plan@.len() - i,
    {
        let ghost before = result@;
        if i > 0 {
            result.append(",\n");
        }
        let step = &plan.plan[i];
        result.append("    {\n      \"step\": ");
        result.append(quote(step.step.as_str()).as_str());
        result.append(",\n      \"status\": \"");
        result.append(
            match step.status {
                PlanStatus::Pending => "pending",
                PlanStatus::InProgress => "in_progress",
                PlanStatus::Completed => "completed",
            },
        );
        result.append("\"\n    }");
        proof {
            let next = all.take(i + 1);
            assert(next.drop_last() =~= all.take(i as int));
            assert(next.last() == all[i as int]);
            if i == 0 {
                assert(next[0] == all[0]);
                assert(result@ =~= opening + steps_text(next));
            } else {
                assert(result@ =~= opening + steps_text(next));
            }
        }
        i += 1;
    }
    proof {
        assert(all.take(i as int) =~= all);
    }
    result.append("\n  ]\n}");
    result
}

/// What the plan in force is introduced with.
pub const PLAN_CONTEXT_PREFIX: &'static str =
    "Current execution plan (keep it updated with update_plan):\n";

/// The messages with the plan in force in front, and no other plan.
pub open spec fn plan_context(messages: Seq<MessageView>, plan: Option<PlanView>) -> Seq<
    MessageView,
> {
    match plan {
        Some(plan) => compact_plans(messages).insert(
            0,
            MessageView::System { content: PLAN_CONTEXT_PREFIX@ + plan_text(plan) },
        ),
        None => compact_plans(messages),
    }
}

/// Puts a message in front.
fn put_first(messages: &mut Vec<Message>, message: Message)
    ensures
        final(messages).deep_view() == old(messages).deep_view().insert(0, message.deep_view()),
{
    let ghost before = messages.deep_view();
    let ghost view = message.deep_view();
    messages.insert(0, message);
    assert(messages.deep_view() =~= before.insert(0, view));
}

/// Puts the plan in force in front of the messages, and takes out older ones.
pub fn apply_plan_context(messages: &mut Vec<Message>, plan: Option<&ExecutionPlan>)
    ensures
        final(messages).deep_view() == plan_context(
            old(messages).deep_view(),
            plan.deep_view(),
        ),
{
    compact_plan_history(messages);
    match plan {
        Some(plan) => {
            let shown = write_plan(plan);
            put_first(
                messages,
                Message::system(text::join_two(PLAN_CONTEXT_PREFIX, shown.as_str())),
            );
        },
        None => {},
    }
}

// ---------------------------------------------------------------------------
// Pages
// ---------------------------------------------------------------------------

/// An answer, not a request to run tools.
pub open spec fn is_answer(message: MessageView) -> bool {
    match message {
        MessageView::Assistant { tool_calls, .. } => tool_calls.len() == 0,
        _ => false,
    }
}

/// A page that the browser fetched, which an answer behind it has used.
pub open spec fn is_consumed(messages: Seq<MessageView>, i: int) -> bool {
    answers(messages, i, "web_browser"@) && exists|j: int|
        i < j < messages.len() && is_answer(#[trigger] messages[j])
}

/// What stands for a page that was used.
pub open spec fn page_marker(result: JsonView) -> Option<JsonView> {
    match result.text_at("content"@) {
        Some(page) => Some(
            JsonView::Object(
                seq![
                    ("ejected"@, JsonView::Bool(true)),
                    ("tool"@, JsonView::Text("web_browser"@)),
                    ("url"@, JsonView::Text(text_or_empty(result, "url"@))),
                    ("title"@, JsonView::Text(text_or_empty(result, "title"@))),
                    ("original_chars"@, JsonView::Unsigned(page.len() as u64)),
                    (
                        "note"@,
                        JsonView::Text(
                            "The full page was consumed by the previous assistant response. Call web_browser again if it is needed."@,
                        ),
                    ),
                ],
            ),
        ),
        None => None,
    }
}

/// The text under `key`, or none.
pub open spec fn text_or_empty(value: JsonView, key: Seq<char>) -> Seq<char> {
    match value.text_at(key) {
        Some(t) => t,
        None => Seq::empty(),
    }
}

/// What stands for the result of the browser once it was used, if it holds a page.
pub open spec fn web_marker(content: Seq<char>) -> Option<Seq<char>> {
    match read_json(content) {
        Some(result) => match page_marker(result) {
            Some(marker) => Some(written_pretty(marker)),
            None => None,
        },
        None => None,
    }
}

fn text_or_nothing(value: &Json, key: &str) -> (result: String)
    ensures
        result@ == text_or_empty(value.deep_view(), key@),
{
    match value.text_at(key) {
        Some(t) => t.clone(),
        None => String::new(),
    }
}

/// What stands for a page that was used.
pub fn web_page_marker(result: &Json) -> (marker: Option<Json>)
    ensures
        marker.deep_view() == page_marker(result.deep_view()),
{
    match result.text_at("content") {
        Some(page) => {
            let count: usize = text::to_chars(page.as_str()).len();
            let mut entries: Vec<(String, Json)> = Vec::new();
            entries.push(("ejected".to_owned(), Json::Bool(true)));
            entries.push(("tool".to_owned(), Json::text("web_browser")));
            entries.push(("url".to_owned(), Json::Text(text_or_nothing(result, "url"))));
            entries.push(("title".to_owned(), Json::Text(text_or_nothing(result, "title"))));
            entries.push(("original_chars".to_owned(), Json::Unsigned(count as u64)));
            entries.push(
                (
                    "note".to_owned(),
                    Json::text(
                        "The full page was consumed by the previous assistant response. Call web_browser again if it is needed.",
                    ),
                ),
            );
            proof {
                json::json_view_object(entries);
                assert(entries.deep_view() =~= page_marker(result.deep_view())->0->Object_0);
            }
            Some(Json::Object(entries))
        },
        None => None,
    }
}

/// What stands for a page holds no page itself, neither as it is made nor as it is written.
pub proof fn marker_law(result: JsonView)
    ensures
        page_marker(result) matches Some(marker) ==> {
            &&& page_marker(marker) is None
            &&& page_marker(stored(marker)) is None
            &&& reads_back(stored(marker), 1)
            &&& reads_back(stored(marker), 100)
        },
{
    reveal_strlit("content");
    reveal_strlit("ejected");
    reveal_strlit("tool");
    reveal_strlit("url");
    reveal_strlit("title");
    reveal_strlit("original_chars");
    reveal_strlit("note");
    if let Some(marker) = page_marker(result) {
        let entries = marker->Object_0;
        assert(entries[0].0 != "content"@ && entries[1].0 != "content"@ && entries[2].0
            != "content"@ && entries[3].0 != "content"@ && entries[4].0 != "content"@
            && entries[5].0 != "content"@) by {
            assert("ejected"@[0] != "content"@[0]);
            assert("tool"@.len() != "content"@.len());
            assert("url"@.len() != "content"@.len());
            assert("title"@.len() != "content"@.len());
            assert("original_chars"@.len() != "content"@.len());
            assert("note"@.len() != "content"@.len());
        }
        no_entry(entries, "content"@);
        assert(stored_entries(entries) =~= entries);
        let kept = map_entries(entries);
        map_entries_from(entries);
        assert forall|i: int| 0 <= i < kept.len() implies (#[trigger] kept[i]).0 != "content"@
            && !(kept[i].1 is Decimal) && !(kept[i].1 is Signed) && !(kept[i].1 is Array) && !(
        kept[i].1 is Object) by {
            assert(entries.contains(kept[i]));
            let k = choose|k: int| 0 <= k < entries.len() && entries[k] == kept[i];
            assert(k == 0 || k == 1 || k == 2 || k == 3 || k == 4 || k == 5);
        }
        no_entry(kept, "content"@);
        reveal_with_fuel(reads_back, 2);
        assert(stored(marker) == JsonView::Object(kept));
    }
}

proof fn no_entry(entries: Seq<(Seq<char>, JsonView)>, key: Seq<char>)
    requires
        forall|i: int| 0 <= i < entries.len() ==> (#[trigger] entries[i]).0 != key,
    ensures
        entry(entries, key) is None,
    decreases entries.len(),
{
    if entries.len() > 0 {
        assert(entries[0].0 != key);
        no_entry(entries.skip(1), key);
    }
}

/// What stands for the result of the browser once it was used, if it holds a page. It
/// holds none itself.
pub fn web_result_marker(content: &str) -> (result: Option<String>)
    ensures
        result.deep_view() == web_marker(content@),
        result matches Some(marker) ==> web_marker(marker@) is None,
{
    match json::parse(content) {
        Some(value) => match web_page_marker(&value) {
            Some(marker) => {
                proof {
                    marker_law(value.deep_view());
                }
                Some(json::write_pretty(&marker))
            },
            None => None,
        },
        None => None,
    }
}

/// The message at `i`, without the page where it was used.
pub open spec fn eject(messages: Seq<MessageView>, i: int) -> MessageView {
    match messages[i] {
        MessageView::Tool { call_id, content, image, diff } if is_consumed(messages, i)
            && web_marker(content) is Some => MessageView::Tool {
            call_id,
            content: web_marker(content)->0,
            image,
            diff,
        },
        message => message,
    }
}

/// The messages without the pages that were used.
pub open spec fn eject_pages(messages: Seq<MessageView>) -> Seq<MessageView> {
    Seq::new(messages.len(), |i: int| eject(messages, i))
}

/// Whether the page of the message at `i` is left out.
pub open spec fn is_left_out(messages: Seq<MessageView>, i: int) -> bool {
    is_consumed(messages, i) && web_marker(messages[i].content()) is Some
}

/// The number of pages that are left out among the first `n` messages.
pub open spec fn count_left_out(messages: Seq<MessageView>, n: int) -> nat
    decreases n,
{
    if n <= 0 {
        0
    } else {
        count_left_out(messages, n - 1) + if is_left_out(messages, n - 1) {
            1nat
        } else {
            0
        }
    }
}

/// The number of messages up to and with the last answer.
fn answered(messages: &Vec<Message>) -> (end: usize)
    ensures
        end <= messages@.len(),
        end > 0 ==> is_answer(messages.deep_view()[end - 1]),
        forall|j: int| end <= j < messages@.len() ==> !is_answer(#[trigger] messages.deep_view()[j]),
{
    let ghost all = messages.deep_view();
    let mut end: usize = messages.len();
    while end > 0
        invariant
            all == messages.deep_view(),
            end <= messages@.len(),
            forall|j: int| end <= j < messages@.len() ==> !is_answer(#[trigger] all[j]),
        decreases end,
    {
        assert(all[end - 1] == messages@[end - 1].deep_view());
        if let Message::Assistant { tool_calls, .. } = &messages[end - 1] {
            if tool_calls.len() == 0 {
                return end;
            }
        }
        end -= 1;
    }
    end
}

/// What stands for the pages that were used holds no pages itself.
pub open spec fn markers_are_final(messages: Seq<MessageView>) -> bool {
    forall|i: int|
        0 <= i < messages.len() && #[trigger] is_left_out(messages, i) ==> web_marker(
            web_marker(messages[i].content())->0,
        ) is None
}

/// Pages that were taken out stay out: where nothing that stands for a page holds one, to
/// take pages out again changes nothing.
pub proof fn eject_law(messages: Seq<MessageView>)
    requires
        markers_are_final(messages),
    ensures
        eject_pages(eject_pages(messages)) == eject_pages(messages),
        count_left_out(eject_pages(messages), messages.len() as int) == 0,
{
    let once = eject_pages(messages);
    assert forall|i: int| 0 <= i < messages.len() implies !is_left_out(once, i) && eject(once, i)
        == #[trigger] once[i] by {
        ids_after_eject(messages, i);
        assert(once[i] == eject(messages, i));
        if is_consumed(once, i) {
            let j = choose|j: int| i < j < once.len() && is_answer(#[trigger] once[j]);
            assert(once[j] == eject(messages, j));
            assert(is_answer(messages[j]));
            assert(answers(messages, i, "web_browser"@));
            assert(is_consumed(messages, i));
            if web_marker(messages[i].content()) is Some {
                assert(is_left_out(messages, i));
            }
        }
    }
    assert(eject_pages(once) =~= once);
    none_left_out(once, messages.len() as int);
}

proof fn none_left_out(messages: Seq<MessageView>, n: int)
    requires
        n <= messages.len(),
        forall|i: int| 0 <= i < messages.len() ==> !#[trigger] is_left_out(messages, i),
    ensures
        count_left_out(messages, n) == 0,
    decreases n,
{
    if n > 0 {
        none_left_out(messages, n - 1);
    }
}

/// The calls that wait for a result are the same where pages were taken out.
proof fn ids_after_eject(messages: Seq<MessageView>, i: int)
    requires
        0 <= i <= messages.len(),
    ensures
        open_ids_after(eject_pages(messages).take(i), "web_browser"@) == open_ids_after(
            messages.take(i),
            "web_browser"@,
        ),
    decreases i,
{
    if i > 0 {
        ids_after_eject(messages, i - 1);
        let once = eject_pages(messages);
        assert(once.take(i).drop_last() =~= once.take(i - 1));
        assert(messages.take(i).drop_last() =~= messages.take(i - 1));
        assert(once.take(i).last() == eject(messages, i - 1));
        assert(messages.take(i).last() == messages[i - 1]);
    } else {
        assert(eject_pages(messages).take(0) =~= messages.take(0));
    }
}

/// Takes the pages that were used out of the messages, and counts them. To do so again
/// would change nothing.
pub fn eject_consumed_web_results(messages: &mut Vec<Message>) -> (count: usize)
    ensures
        final(messages).deep_view() == eject_pages(old(messages).deep_view()),
        count == count_left_out(old(messages).deep_view(), old(messages)@.len() as int),
        eject_pages(final(messages).deep_view()) == final(messages).deep_view(),
        count_left_out(final(messages).deep_view(), final(messages)@.len() as int) == 0,
{
    let ghost before = messages.deep_view();
    let end: usize = answered(messages);
    let mut ids = TextSet::new();
    let mut count: usize = 0;
    let mut i: usize = 0;
    while i < messages.len()
        invariant
            i <= messages@.len(),
            messages@.len() == before.len(),
            end <= before.len(),
            end > 0 ==> is_answer(before[end - 1]),
            forall|j: int| end <= j < before.len() ==> !is_answer(#[trigger] before[j]),
            count <= i,
            count == count_left_out(before, i as int),
            forall|k: int|
                0 <= k < i && #[trigger] is_left_out(before, k) ==> web_marker(
                    web_marker(before[k].content())->0,
                ) is None,
            ids@ == open_ids_after(before.take(i as int), "web_browser"@),
            forall|k: int| 0 <= k < i ==> (#[trigger] messages@[k]).deep_view() == eject(before, k),
            forall|k: int|
                i <= k < messages@.len() ==> (#[trigger] messages@[k]).deep_view() == before[k],
        decreases messages@.len() - i,
    {
        proof {
            assert(messages@[i as int].deep_view() == before[i as int]);
            assert(before.take(i + 1).drop_last() =~= before.take(i as int));
            assert(before.take(i + 1).last() == before[i as int]);
            if i + 1 < end {
                assert(is_answer(before[end - 1]));
            }
            assert(answers(before, i as int, "web_browser"@) ==> (is_consumed(before, i as int)
                <==> i + 1 < end)) by {
                if i + 1 >= end {
                    assert forall|j: int| i < j < before.len() implies !is_answer(
                        #[trigger] before[j],
                    ) by {}
                }
            }
        }
        match &mut messages[i] {
            Message::Assistant { tool_calls, .. } => {
                note_ids(&mut ids, tool_calls, "web_browser");
            },
            Message::Tool { call_id, content, .. } => {
                if ids.remove(call_id.as_str()) && i + 1 < end {
                    match web_result_marker(content.as_str()) {
                        Some(marker) => {
                            *content = marker;
                            count += 1;
                        },
                        None => {},
                    }
                }
            },
            _ => {},
        }
        i += 1;
    }
    proof {
        assert(messages.deep_view() =~= eject_pages(before));
        assert(markers_are_final(before));
        eject_law(before);
    }
    count
}

/// Whether a message stands for a page that was left out.
pub open spec fn is_marker(message: MessageView) -> bool {
    match message {
        MessageView::Tool { content, .. } => match read_json(content) {
            Some(value) => value.bool_at("ejected"@) == Some(true),
            None => false,
        },
        _ => false,
    }
}

/// Whether a message stands for a page that was left out.
pub fn is_ejected_web_result(message: &Message) -> (result: bool)
    ensures
        result == is_marker(message.deep_view()),
{
    match message {
        Message::Tool { content, .. } => match json::parse(content.as_str()) {
            Some(value) => match value.bool_at("ejected") {
                Some(b) => b,
                None => false,
            },
            None => false,
        },
        _ => false,
    }
}

// ---------------------------------------------------------------------------
// The context of a request
// ---------------------------------------------------------------------------

/// A message that stands for the history before it.
pub open spec fn marks_compaction(message: MessageView) -> bool {
    match message {
        MessageView::System { content } => has_prefix(content, COMPACTION_MARKER@),
        _ => false,
    }
}

/// Whether a message stands for the history before it.
pub fn is_compaction_marker(message: &Message) -> (result: bool)
    ensures
        result == marks_compaction(message.deep_view()),
{
    match message {
        Message::System { content } => text::begins_with(content.as_str(), COMPACTION_MARKER),
        _ => false,
    }
}

/// A summary as a message.
pub open spec fn summary_message(summary: Seq<char>) -> MessageView {
    MessageView::System { content: "Conversation summary for continuation:\n"@ + summary }
}

/// A summary as a message.
pub fn summary_as_message(summary: &str) -> (message: Message)
    ensures
        message.deep_view() == summary_message(summary@),
{
    Message::system(text::join_two("Conversation summary for continuation:\n", summary))
}

/// The part of the conversation that is not in the summary, behind the summary.
pub open spec fn since_summary(messages: Seq<MessageView>, meta: MetaView) -> Seq<MessageView> {
    match meta.compaction_summary {
        Some(summary) => {
            let from = if meta.compacted_through < messages.len() {
                meta.compacted_through as int
            } else {
                messages.len() as int
            };
            seq![summary_message(summary)] + messages.skip(from).filter(
                |m: MessageView| !marks_compaction(m),
            )
        },
        None => messages,
    }
}

/// The conversation as a request carries it: from the last summary on, without
/// pages that were used, without plans and without differences of files.
pub open spec fn context_of(messages: Seq<MessageView>, meta: MetaView) -> Seq<MessageView> {
    compact_plans(eject_pages(since_summary(messages, meta))).map_values(
        |m: MessageView| without_diff(m),
    )
}

/// The conversation as a request carries it.
pub fn request_context(messages: &Vec<Message>, meta: &SessionMeta) -> (context: Vec<Message>)
    ensures
        context.deep_view() == context_of(messages.deep_view(), meta.deep_view()),
{
    let mut context: Vec<Message> = Vec::new();
    match &meta.compaction_summary {
        Some(summary) => {
            let ghost all = messages.deep_view();
            let ghost keep = |m: MessageView| !marks_compaction(m);
            let first = summary_as_message(summary.as_str());
            context.push(first);
            let from: usize = if meta.compacted_through < messages.len() {
                meta.compacted_through
            } else {
                messages.len()
            };
            let ghost rest = all.skip(from as int);
            let ghost head = seq![summary_message(summary@)];
            let mut i: usize = from;
            proof {
                reveal(Seq::filter);
                assert(context.deep_view() =~= head + rest.take(0).filter(keep));
            }
            while i < messages.len()
                invariant
                    all == messages.deep_view(),
                    keep == (|m: MessageView| !marks_compaction(m)),
                    rest == all.skip(from as int),
                    from <= i <= messages@.len(),
                    context.deep_view() == head + rest.take(i - from).filter(keep),
                decreases messages@.len() - i,
            {
                let ghost before = context.deep_view();
                proof {
                    reveal(Seq::filter);
                    assert(rest.take(i + 1 - from).drop_last() =~= rest.take(i - from));
                    assert(rest.take(i + 1 - from).last() == messages@[i as int].deep_view());
                }
                if !is_compaction_marker(&messages[i]) {
                    context.push(messages[i].clone());
                    assert(context.deep_view() =~= before.push(messages@[i as int].deep_view()));
                }
                assert(context.deep_view() =~= head + rest.take(i + 1 - from).filter(keep));
                i += 1;
            }
            assert(rest.take(i - from) =~= rest);
        },
        None => {
            context = clone_messages(messages);
        },
    }
    eject_consumed_web_results(&mut context);
    compact_plan_history(&mut context);
    strip_tool_diffs(&mut context);
    context
}

// ---------------------------------------------------------------------------
// Laws
// ---------------------------------------------------------------------------

/// A message that holds no plan: calls that stored one no longer carry it.
pub open spec fn holds_no_plan(message: MessageView) -> bool {
    match message {
        MessageView::Assistant { tool_calls, .. } => forall|i: int|
            0 <= i < tool_calls.len() && (#[trigger] tool_calls[i]).name == "update_plan"@
                ==> tool_calls[i].arguments == stored_arguments(),
        _ => true,
    }
}

proof fn compact_holds_no_plan(messages: Seq<MessageView>, i: int)
    requires
        0 <= i < messages.len(),
    ensures
        holds_no_plan(compact_plan(messages, i)),
        marks_compaction(compact_plan(messages, i)) == marks_compaction(messages[i]),
{
}

/// What a request carries of a conversation tells of no difference of a file and holds
/// no plan that was stored. Where the conversation was summarized it begins with the
/// summary, and nothing in it stands for history that was left out; else it has a
/// message for each of the conversation.
pub proof fn context_law(messages: Seq<MessageView>, meta: MetaView)
    ensures
        forall|i: int|
            0 <= i < context_of(messages, meta).len() ==> !has_diff(
                #[trigger] context_of(messages, meta)[i],
            ) && holds_no_plan(context_of(messages, meta)[i]),
        meta.compaction_summary matches Some(summary) ==> {
            &&& context_of(messages, meta).len() > 0
            &&& context_of(messages, meta)[0] == summary_message(summary)
            &&& forall|i: int|
                0 <= i < context_of(messages, meta).len() ==> !marks_compaction(
                    #[trigger] context_of(messages, meta)[i],
                )
        },
        meta.compaction_summary is None ==> context_of(messages, meta).len() == messages.len(),
{
    let since = since_summary(messages, meta);
    let ejected = eject_pages(since);
    let context = context_of(messages, meta);
    assert forall|i: int| 0 <= i < context.len() implies !has_diff(#[trigger] context[i])
        && holds_no_plan(context[i]) && marks_compaction(context[i]) == marks_compaction(
        since[i],
    ) by {
        compact_holds_no_plan(ejected, i);
    }
    if let Some(summary) = meta.compaction_summary {
        let from = if meta.compacted_through < messages.len() {
            meta.compacted_through as int
        } else {
            messages.len() as int
        };
        let keep = |m: MessageView| !marks_compaction(m);
        let rest = messages.skip(from).filter(keep);
        assert forall|i: int| 0 <= i < context.len() implies !marks_compaction(
            #[trigger] context[i],
        ) by {
            assert(marks_compaction(context[i]) == marks_compaction(since[i]));
            if i == 0 {
                summary_marks_nothing(summary);
            } else {
                assert(since[i] == rest[i - 1]);
                messages.skip(from).lemma_filter_pred(keep, i - 1);
            }
        }
    }
}

proof fn summary_marks_nothing(summary: Seq<char>)
    ensures
        !marks_compaction(summary_message(summary)),
{
    reveal_strlit("Conversation summary for continuation:\n");
    reveal_strlit("Context compacted");
    let content = "Conversation summary for continuation:\n"@ + summary;
    assert(content[3] == 'v');
    assert(COMPACTION_MARKER@[3] == 't');
    if has_prefix(content, COMPACTION_MARKER@) {
        assert(content.subrange(0, COMPACTION_MARKER@.len() as int)[3] == content[3]);
    }
}

} // verus!
