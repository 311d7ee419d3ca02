//! What events do to the order of blocks, and to the messages that wait for the model.
use crate::hub::model::{
    accept_message, add_call_delta, add_delta, add_image, add_output, begin_request,
    compaction_place, decision_text, demote_answer, effect, end_reason, failed, finish_call,
    finish_tool, is_open, is_waiting, new_block, note_compaction, open_draft, request_approval,
    start_tool, step, ProjectionView, Stage,
};
use crate::hub::replay::{
    add_message_keeps, compaction_place_bound, effect_keeps, good, has_room, is_tool, messages_blocks, mirrors,
    position, position_is_index, room, well_formed,
};
use crate::hub::state::{BlockKind, BlockView, SnapshotView, StateView, ToolModel, ToolStatus};
use crate::json::written_pretty;
use crate::runtime::event::Event;
use crate::runtime::message::{ImageView, MessageView, ToolCallView};
use vstd::prelude::*;
use vstd::string::*;

verus! {

/// The number of blocks that wait for the model.
pub open spec fn queued_in(blocks: Seq<BlockView>) -> nat
    decreases blocks.len(),
{
    if blocks.len() == 0 {
        0
    } else {
        queued_in(blocks.drop_last()) + if blocks.last().queued {
            1nat
        } else {
            0
        }
    }
}

/// The state tells how many blocks wait for the model.
pub open spec fn counted(p: ProjectionView) -> bool {
    p.snapshot.state.queued_steers == queued_in(p.snapshot.blocks)
}

/// The blocks of `a` are those of `b` with the first `n` of the waiting ones no longer
/// waiting.
pub open spec fn delivered(a: Seq<BlockView>, b: Seq<BlockView>, n: nat) -> bool {
    &&& a.len() == b.len()
    &&& forall|k: int|
        0 <= k < b.len() ==> #[trigger] a[k] == (BlockView {
            queued: b[k].queued && queued_in(b.take(k)) >= n,
            ..b[k]
        })
}

/// The blocks of `a` are those of `b` and perhaps new ones, and the blocks that were in `b`
/// stand in their old order.
pub open spec fn keeps_order(b: Seq<BlockView>, a: Seq<BlockView>) -> bool {
    &&& forall|i: int| 0 <= i < b.len() ==> position(a, (#[trigger] b[i]).id, 0) < a.len()
    &&& forall|i: int, j: int|
        0 <= i < j < b.len() ==> position(a, (#[trigger] b[i]).id, 0) < position(
            a,
            (#[trigger] b[j]).id,
            0,
        )
}

// ---------------------------------------------------------------------------
// Steps that leave the waiting blocks alone
// ---------------------------------------------------------------------------

/// From `a` to `b` blocks were only changed in place, and new ones put last; none began or
/// ceased to wait.
spec fn calm(a: Stage, b: Stage) -> bool {
    &&& a.blocks().len() <= b.blocks().len()
    &&& forall|i: int|
        0 <= i < a.blocks().len() ==> (#[trigger] b.blocks()[i]).id == a.blocks()[i].id
            && b.blocks()[i].queued == a.blocks()[i].queued
    &&& forall|i: int|
        a.blocks().len() <= i < b.blocks().len() ==> !(#[trigger] b.blocks()[i]).queued
    &&& a.state().queued_steers == b.state().queued_steers
}

proof fn calm_twice(a: Stage, b: Stage, c: Stage)
    requires
        calm(a, b),
        calm(b, c),
    ensures
        calm(a, c),
{
    assert forall|i: int| 0 <= i < a.blocks().len() implies (#[trigger] c.blocks()[i]).id
        == a.blocks()[i].id && c.blocks()[i].queued == a.blocks()[i].queued by {
        assert(b.blocks()[i].id == a.blocks()[i].id);
    }
    assert forall|i: int| a.blocks().len() <= i < c.blocks().len() implies !(
    #[trigger] c.blocks()[i]).queued by {
        if i < b.blocks().len() {
            assert(!b.blocks()[i].queued);
        }
    }
}

proof fn push_calm(st: Stage, block: BlockView)
    requires
        !block.queued,
    ensures
        calm(st, st.push(block)),
{
}

proof fn append_calm(st: Stage, i: int, field: Seq<char>, text: Seq<char>)
    requires
        0 <= i < st.blocks().len(),
    ensures
        calm(st, st.append(i, field, text)),
{
}

proof fn pause_calm(st: Stage, now: u64)
    requires
        well_formed(st.p),
    ensures
        calm(st, st.pause_reasoning(now)),
{
}

proof fn add_calls_calm(st: Stage, calls: Seq<ToolCallView>)
    ensures
        calm(st, st.add_calls(calls)),
    decreases calls.len(),
{
    if calls.len() > 0 {
        let call = calls[0];
        let block = BlockView {
            tool: Some(
                ToolModel {
                    call_id: Some(call.id),
                    name: call.name,
                    arguments: written_pretty(call.arguments),
                    output: None,
                    diff: None,
                    status: ToolStatus::Pending,
                },
            ),
            ..new_block(st.p, BlockKind::Tool, Seq::empty())
        };
        let next = st.push(block);
        let listed = Stage {
            p: ProjectionView {
                calls: next.p.calls.insert(call.id, st.blocks().len() as usize),
                ..next.p
            },
            changes: next.changes,
        };
        push_calm(st, block);
        assert(calm(st, listed));
        add_calls_calm(listed, calls.skip(1));
        calm_twice(st, listed, listed.add_calls(calls.skip(1)));
    }
}

proof fn add_message_calm(st: Stage, message: MessageView)
    requires
        well_formed(st.p),
    ensures
        calm(st, st.add_message(message)),
{
    match message {
        MessageView::Assistant { content, model, reasoning, tool_calls, .. } => {
            let first = if reasoning.len() > 0 {
                st.push(new_block(st.p, BlockKind::Thinking, reasoning))
            } else {
                st
            };
            let kind = if tool_calls.len() == 0 {
                BlockKind::Assistant
            } else {
                BlockKind::Status
            };
            let second = if content.len() > 0 {
                first.push(BlockView { model, ..new_block(first.p, kind, content) })
            } else {
                first
            };
            add_calls_calm(second, tool_calls);
            calm_twice(st, first, second);
            calm_twice(st, second, second.add_calls(tool_calls));
        },
        MessageView::Tool { call_id, content, image, diff } => {
            if st.p.calls.contains_key(call_id) {
                assert(is_tool(st.blocks(), st.p.calls[call_id]));
            }
        },
        _ => {},
    }
}

proof fn add_messages_calm(
    base: SnapshotView,
    st: Stage,
    messages: Seq<MessageView>,
)
    requires
        good(base, st),
        room(st.p, messages_blocks(messages)),
    ensures
        calm(st, st.add_messages(messages)),
    decreases messages.len(),
{
    if messages.len() > 0 {
        let next = st.add_message(messages[0]);
        add_message_calm(st, messages[0]);
        add_message_keeps(base, st, messages[0]);
        add_messages_calm(base, next, messages.skip(1));
        calm_twice(st, next, next.add_messages(messages.skip(1)));
    }
}

proof fn hold_from_calm(st: Stage, i: int, now: u64)
    ensures
        calm(st, st.hold_from(i, now)),
    decreases st.blocks().len() - i,
{
    if 0 <= i < st.blocks().len() {
        let block = st.blocks()[i];
        if is_waiting(block) {
            let next = st.set(i, BlockView { timer: block.timer.paused(now), ..block });
            hold_from_calm(next, i + 1, now);
            calm_twice(st, next, next.hold_from(i + 1, now));
        } else {
            hold_from_calm(st, i + 1, now);
        }
    }
}

proof fn fail_from_calm(st: Stage, i: int, reason: Seq<char>, now: u64)
    ensures
        calm(st, st.fail_from(i, reason, now)),
    decreases st.blocks().len() - i,
{
    if 0 <= i < st.blocks().len() {
        let block = st.blocks()[i];
        if is_open(block) {
            let next = st.set(i, failed(block, reason, now));
            fail_from_calm(next, i + 1, reason, now);
            calm_twice(st, next, next.fail_from(i + 1, reason, now));
        } else {
            fail_from_calm(st, i + 1, reason, now);
        }
    }
}

proof fn close_turn_calm(st: Stage, reason: Seq<char>, now: u64)
    requires
        well_formed(st.p),
    ensures
        calm(st, st.close_turn(reason, now)),
{
    let first = st.pause_reasoning(now);
    pause_calm(st, now);
    let second = Stage {
        p: ProjectionView { assistant: None, drafts: Map::empty(), ..first.p },
        changes: first.changes,
    };
    assert(calm(st, second));
    fail_from_calm(second, 0, reason, now);
    calm_twice(st, second, second.fail_from(0, reason, now));
}

proof fn add_delta_calm(st: Stage, thinking: bool, delta: Seq<char>, now: u64)
    requires
        well_formed(st.p),
    ensures
        calm(st, add_delta(st, thinking, delta, now)),
{
    let first = if thinking {
        st
    } else {
        st.pause_reasoning(now)
    };
    pause_calm(st, now);
    let current = if thinking {
        first.p.reasoning
    } else {
        first.p.assistant
    };
    let done = add_delta(st, thinking, delta, now);
    match current {
        Some(i) => {
            append_calm(first, i as int, "content"@, delta);
        },
        None => {
            assert(calm(first, done));
        },
    }
    calm_twice(st, first, done);
}

proof fn add_call_delta_calm(
    st: Stage,
    index: usize,
    name: Option<Seq<char>>,
    arguments: Seq<char>,
    now: u64,
)
    requires
        well_formed(st.p),
    ensures
        calm(st, add_call_delta(st, index, name, arguments, now)),
{
    let first = st.pause_reasoning(now);
    let second = demote_answer(first);
    let opened = open_draft(second, index, name, now);
    pause_calm(st, now);
    if st.p.drafts.contains_key(index) {
        assert(is_tool(st.blocks(), st.p.drafts[index]));
    }
    assert(calm(first, second));
    calm_twice(st, first, second);
    assert(calm(second, opened));
    calm_twice(st, second, opened);
    let i = opened.p.drafts[index] as int;
    let named = match name {
        Some(name) => opened.set_tool(
            i,
            ToolModel { name, ..opened.blocks()[i].tool->0 },
        ),
        None => opened,
    };
    assert(calm(opened, named));
    calm_twice(st, opened, named);
    append_calm(named, i, "arguments"@, arguments);
    calm_twice(st, named, named.append(i, "arguments"@, arguments));
}

proof fn request_approval_calm(
    st: Stage,
    approval_id: Seq<char>,
    call: ToolCallView,
    now: u64,
)
    requires
        well_formed(st.p),
    ensures
        calm(st, request_approval(st, approval_id, call, now)),
{
    let held = st.hold_from(0, now);
    hold_from_calm(st, 0, now);
    hold_keeps_places(st, 0, now);
    if st.p.calls.contains_key(call.id) {
        assert(is_tool(st.blocks(), st.p.calls[call.id]));
    }
    let done = request_approval(st, approval_id, call, now);
    assert(calm(held, done));
    calm_twice(st, held, done);
}

proof fn begin_request_calm(st: Stage, model: Seq<char>, now: u64)
    requires
        well_formed(st.p),
    ensures
        calm(st, begin_request(st, model, now)),
{
    let first = st.pause_reasoning(now);
    pause_calm(st, now);
    assert(calm(first, begin_request(st, model, now)));
    calm_twice(st, first, begin_request(st, model, now));
}

proof fn finish_call_calm(st: Stage, index: usize, call: ToolCallView)
    requires
        well_formed(st.p),
    ensures
        calm(st, finish_call(st, index, call)),
{
    if st.p.drafts.contains_key(index) {
        assert(is_tool(st.blocks(), st.p.drafts[index]));
    }
}

proof fn start_tool_calm(st: Stage, call_id: Seq<char>, now: u64)
    requires
        well_formed(st.p),
    ensures
        calm(st, start_tool(st, call_id, now)),
{
    if st.p.calls.contains_key(call_id) {
        assert(is_tool(st.blocks(), st.p.calls[call_id]));
    }
}

proof fn add_output_calm(st: Stage, call_id: Seq<char>, delta: Seq<char>)
    requires
        well_formed(st.p),
    ensures
        calm(st, add_output(st, call_id, delta)),
{
    if st.p.calls.contains_key(call_id) {
        assert(is_tool(st.blocks(), st.p.calls[call_id]));
        append_calm(st, st.p.calls[call_id] as int, "output"@, delta);
    }
}

proof fn finish_tool_calm(
    st: Stage,
    call_id: Seq<char>,
    output: Seq<char>,
    success: bool,
    diff: Option<Seq<char>>,
    now: u64,
)
    requires
        well_formed(st.p),
    ensures
        calm(st, finish_tool(st, call_id, output, success, diff, now)),
{
    if st.p.calls.contains_key(call_id) {
        assert(is_tool(st.blocks(), st.p.calls[call_id]));
    }
}

proof fn add_image_calm(st: Stage, call_id: Seq<char>, image: ImageView)
    requires
        well_formed(st.p),
    ensures
        calm(st, add_image(st, call_id, image)),
{
    if st.p.calls.contains_key(call_id) {
        assert(is_tool(st.blocks(), st.p.calls[call_id]));
    }
}

proof fn hold_keeps_places(st: Stage, i: int, now: u64)
    ensures
        st.hold_from(i, now).p.calls == st.p.calls,
    decreases st.blocks().len() - i,
{
    if 0 <= i < st.blocks().len() {
        let block = st.blocks()[i];
        if is_waiting(block) {
            hold_keeps_places(
                st.set(i, BlockView { timer: block.timer.paused(now), ..block }),
                i + 1,
                now,
            );
        } else {
            hold_keeps_places(st, i + 1, now);
        }
    }
}

// ---------------------------------------------------------------------------
// The count of waiting blocks
// ---------------------------------------------------------------------------

proof fn queued_bound(blocks: Seq<BlockView>)
    ensures
        queued_in(blocks) <= blocks.len(),
    decreases blocks.len(),
{
    if blocks.len() > 0 {
        queued_bound(blocks.drop_last());
    }
}

proof fn same_count(a: Seq<BlockView>, b: Seq<BlockView>)
    requires
        a.len() <= b.len(),
        forall|i: int| 0 <= i < a.len() ==> (#[trigger] b[i]).queued == a[i].queued,
        forall|i: int| a.len() <= i < b.len() ==> !(#[trigger] b[i]).queued,
    ensures
        queued_in(a) == queued_in(b),
    decreases b.len(),
{
    if b.len() > 0 {
        if a.len() == b.len() {
            same_count(a.drop_last(), b.drop_last());
        } else {
            same_count(a, b.drop_last());
        }
    }
}

proof fn calm_count(a: Stage, b: Stage)
    requires
        calm(a, b),
    ensures
        queued_in(a.blocks()) == queued_in(b.blocks()),
{
    same_count(a.blocks(), b.blocks());
}

/// What `deliver_from` does to the blocks.
proof fn deliver_from_blocks(st: Stage, i: int, left: nat)
    requires
        0 <= i <= st.blocks().len(),
    ensures
        ({
            let old = st.blocks();
            let new = st.deliver_from(i, left).blocks();
            &&& new.len() == old.len()
            &&& forall|k: int|
                0 <= k < old.len() ==> #[trigger] new[k] == (BlockView {
                    queued: old[k].queued && (k < i || queued_in(old.take(k)) >= queued_in(
                        old.take(i),
                    ) + left),
                    ..old[k]
                })
        }),
        st.deliver_from(i, left).state() == st.state(),
    decreases st.blocks().len() - i,
{
    let old = st.blocks();
    assert forall|k: int| i <= k < old.len() implies queued_in(#[trigger] old.take(k)) >= queued_in(
        old.take(i),
    ) by {
        count_grows(old, i, k);
    }
    if i < old.len() && left > 0 {
        assert(old.take(i + 1).drop_last() =~= old.take(i));
        if old[i].queued {
            let next = st.set(i, BlockView { queued: false, ..old[i] });
            deliver_from_blocks(next, i + 1, (left - 1) as nat);
            let mid = next.blocks();
            assert(mid.take(i + 1).drop_last() =~= old.take(i));
            assert forall|k: int| i < k <= old.len() implies queued_in(#[trigger] mid.take(k)) + 1
                == queued_in(old.take(k)) by {
                one_less(old, mid, i, k);
            }
        } else {
            deliver_from_blocks(st, i + 1, left);
        }
    }
}

proof fn count_grows(blocks: Seq<BlockView>, i: int, k: int)
    requires
        0 <= i <= k <= blocks.len(),
    ensures
        queued_in(blocks.take(i)) <= queued_in(blocks.take(k)),
    decreases k - i,
{
    if i < k {
        count_grows(blocks, i, k - 1);
        assert(blocks.take(k).drop_last() =~= blocks.take(k - 1));
    }
}

proof fn one_less(old: Seq<BlockView>, new: Seq<BlockView>, i: int, k: int)
    requires
        0 <= i < k <= old.len(),
        old[i].queued,
        new == old.update(i, BlockView { queued: false, ..old[i] }),
    ensures
        queued_in(new.take(k)) + 1 == queued_in(old.take(k)),
    decreases k,
{
    assert(old.take(k).drop_last() =~= old.take(k - 1));
    assert(new.take(k).drop_last() =~= new.take(k - 1));
    if k == i + 1 {
        assert(new.take(i) =~= old.take(i));
    } else {
        one_less(old, new, i, k - 1);
    }
}

proof fn delivered_count(old: Seq<BlockView>, new: Seq<BlockView>, n: nat, k: int)
    requires
        delivered(new, old, n),
        0 <= k <= old.len(),
    ensures
        queued_in(new.take(k)) == if queued_in(old.take(k)) >= n {
            (queued_in(old.take(k)) - n) as nat
        } else {
            0
        },
    decreases k,
{
    if k > 0 {
        delivered_count(old, new, n, k - 1);
        assert(old.take(k).drop_last() =~= old.take(k - 1));
        assert(new.take(k).drop_last() =~= new.take(k - 1));
        assert(new[k - 1].queued == (old[k - 1].queued && queued_in(old.take(k - 1)) >= n));
    }
}

/// What `deliver` does to the blocks and to the count.
proof fn deliver_counts(st: Stage, count: usize)
    requires
        st.state().queued_steers == queued_in(st.blocks()),
    ensures
        delivered(st.deliver(count).blocks(), st.blocks(), count as nat),
        st.deliver(count).state().queued_steers == queued_in(st.deliver(count).blocks()),
{
    let old = st.blocks();
    let new = st.deliver(count).blocks();
    deliver_from_blocks(st, 0, count as nat);
    assert(old.take(0).len() == 0);
    assert(delivered(new, old, count as nat));
    delivered_count(old, new, count as nat, old.len() as int);
    assert(old.take(old.len() as int) =~= old);
    assert(new.take(new.len() as int) =~= new);
}

// ---------------------------------------------------------------------------
// Events
// ---------------------------------------------------------------------------

/// Whether an event takes messages up or hands them on, or puts a block elsewhere than last.
spec fn stirs(event: Event) -> bool {
    match event {
        Event::MessageAccepted(message) => message.deep_view() is Steer,
        Event::SteersDelivered(_) => true,
        Event::ContextCompacted { .. } => true,
        Event::GenerationCancelled => true,
        Event::Error(_) => true,
        _ => false,
    }
}

proof fn effect_calm(st: Stage, event: Event, now: u64)
    requires
        good(st.p.snapshot, st),
        has_room(st.p, event),
        !stirs(event),
    ensures
        calm(st, effect(st, event, now)),
{
    match event {
        Event::History(messages) => {
            add_messages_calm(st.p.snapshot, st, messages.deep_view());
        },
        Event::MessageAccepted(message) => {
            let one = seq![message.deep_view()];
            assert(one.skip(1) =~= Seq::empty());
            assert(messages_blocks(one.skip(1)) == 0);
            assert(one[0] == message.deep_view());
            add_messages_calm(st.p.snapshot, st, one);
        },
        Event::ModelRequestStarted(model) => {
            begin_request_calm(st, model@, now);
        },
        Event::TextDelta(delta) => {
            add_delta_calm(st, false, delta@, now);
        },
        Event::ReasoningDelta(delta) => {
            add_delta_calm(st, true, delta@, now);
        },
        Event::ToolCallDelta { index, name, arguments } => {
            add_call_delta_calm(st, index, name.deep_view(), arguments@, now);
        },
        Event::ToolCallFinished { index, call } => {
            finish_call_calm(st, index, call.deep_view());
        },
        Event::ApprovalRequested { approval_id, call } => {
            request_approval_calm(st, approval_id@, call.deep_view(), now);
        },
        Event::ApprovalResolved { tool, decision, .. } => {
            let next = st.with_state(StateView { approval: None, ..st.state() });
            push_calm(next, new_block(next.p, BlockKind::System, decision_text(tool@, decision)));
        },
        Event::ToolStarted { call_id } => {
            start_tool_calm(st, call_id@, now);
        },
        Event::ToolOutputDelta { call_id, delta } => {
            add_output_calm(st, call_id@, delta@);
        },
        Event::ToolResult { call_id, output, success, diff } => {
            finish_tool_calm(st, call_id@, output@, success, diff.deep_view(), now);
        },
        Event::ToolImage { call_id, image } => {
            add_image_calm(st, call_id@, image.deep_view());
        },
        Event::GenerationFinished => {
            close_turn_calm(st, end_reason(event), now);
        },
        _ => {},
    }
}

/// The ids of the blocks of `a` stand in `b`, in their old order.
proof fn order_of_places(a: Seq<BlockView>, b: Seq<BlockView>, at: int)
    requires
        0 <= at <= a.len() <= b.len(),
        forall|i: int, j: int|
            0 <= i < j < b.len() ==> (#[trigger] b[i]).id != (#[trigger] b[j]).id,
        forall|i: int| 0 <= i < at ==> b[i].id == (#[trigger] a[i]).id,
        at < a.len() ==> a.len() < b.len(),
        forall|i: int| at <= i < a.len() ==> b[i + 1].id == (#[trigger] a[i]).id,
    ensures
        keeps_order(a, b),
{
    assert forall|i: int| 0 <= i < a.len() implies position(b, (#[trigger] a[i]).id, 0) == if i
        < at {
        i
    } else {
        i + 1
    } by {
        if i < at {
            position_is_index(b, i, 0);
        } else {
            position_is_index(b, i + 1, 0);
        }
    }
}

proof fn effect_order(st: Stage, event: Event, now: u64)
    requires
        good(st.p.snapshot, st),
        has_room(st.p, event),
    ensures
        keeps_order(st.blocks(), effect(st, event, now).blocks()),
{
    let done = effect(st, event, now);
    effect_keeps(st.p.snapshot, st, event, now);
    match event {
        Event::ContextCompacted { summary } => {
            compaction_order(st, summary@);
        },
        _ => {
            places_kept(st, event, now);
            order_of_places(st.blocks(), done.blocks(), st.blocks().len() as int);
        },
    }
}

proof fn compaction_order(st: Stage, summary: Seq<char>)
    requires
        well_formed(st.p),
        well_formed(note_compaction(st, summary).p),
    ensures
        keeps_order(st.blocks(), note_compaction(st, summary).blocks()),
{
    compaction_place_bound(st.p);
    order_of_places(st.blocks(), note_compaction(st, summary).blocks(), compaction_place(st.p));
}

/// No two blocks have one id.
pub open spec fn has_distinct_ids(blocks: Seq<BlockView>) -> bool {
    forall|i: int, j: int|
        0 <= i < j < blocks.len() ==> (#[trigger] blocks[i]).id != (#[trigger] blocks[j]).id
}

/// No block is ever lost, and the blocks stay in their order: every event keeps the blocks
/// of a session, new ones come to them, and no two have one id.
pub proof fn order_law(p: ProjectionView, event: Event, now: u64)
    requires
        well_formed(p),
        has_room(p, event),
    ensures
        keeps_order(p.snapshot.blocks, step(p, event, now).p.snapshot.blocks),
        has_distinct_ids(step(p, event, now).p.snapshot.blocks),
{
    let st = Stage { p, changes: Seq::empty() };
    assert(mirrors(p.snapshot, st));
    effect_keeps(p.snapshot, st, event, now);
    effect_order(st, event, now);
}

/// Every event but a compaction leaves the blocks in their places.
proof fn places_kept(st: Stage, event: Event, now: u64)
    requires
        good(st.p.snapshot, st),
        has_room(st.p, event),
        !(event is ContextCompacted),
    ensures
        st.blocks().len() <= effect(st, event, now).blocks().len(),
        forall|i: int|
            0 <= i < st.blocks().len() ==> effect(st, event, now).blocks()[i].id == (
            #[trigger] st.blocks()[i]).id,
{
    match event {
        Event::MessageAccepted(message) if stirs(event) => {
            accept_steer(st, message.deep_view());
        },
        Event::SteersDelivered(count) => {
            deliver_from_blocks(st, 0, count as nat);
        },
        Event::GenerationCancelled | Event::Error(_) => {
            let closed = st.close_turn(end_reason(event), now);
            close_turn_calm(st, end_reason(event), now);
            deliver_from_blocks(closed, 0, usize::MAX as nat);
            assert forall|i: int| 0 <= i < st.blocks().len() implies effect(
                st,
                event,
                now,
            ).blocks()[i].id == (#[trigger] st.blocks()[i]).id by {
                assert(closed.blocks()[i].id == st.blocks()[i].id);
                let done = closed.deliver_from(0, usize::MAX as nat);
                assert(done.blocks()[i].id == closed.blocks()[i].id);
            }
        },
        _ => {
            effect_calm(st, event, now);
        },
    }
}

/// A message that came during a turn is one more block, the last, and the only one that
/// begins to wait.
proof fn accept_steer(st: Stage, message: MessageView)
    requires
        message is Steer,
        st.state().queued_steers < usize::MAX,
    ensures
        ({
            let done = accept_message(st, message);
            &&& done.blocks().len() == st.blocks().len() + 1
            &&& done.blocks().drop_last() == st.blocks()
            &&& done.blocks().last().queued
            &&& done.state().queued_steers == st.state().queued_steers + 1
        }),
{
    let one = seq![message];
    assert(one.skip(1) =~= Seq::empty());
    let next = st.add_message(message);
    assert(next.add_messages(one.skip(1)) == next);
    assert(st.add_messages(one) == next);
    let done = accept_message(st, message);
    assert(done.blocks().drop_last() =~= st.blocks());
}

/// In every state the number of waiting messages is that of the blocks that wait. What is
/// handed on to the model is what waited longest, and a turn that fails or is cancelled
/// leaves nothing waiting.
pub proof fn queue_law(p: ProjectionView, event: Event, now: u64)
    requires
        well_formed(p),
        counted(p),
        has_room(p, event),
    ensures
        counted(step(p, event, now).p),
        event matches Event::SteersDelivered(n) ==> delivered(
            step(p, event, now).p.snapshot.blocks,
            p.snapshot.blocks,
            n as nat,
        ),
        event is GenerationCancelled || event is Error ==> forall|i: int|
            0 <= i < step(p, event, now).p.snapshot.blocks.len() ==> !(
            #[trigger] step(p, event, now).p.snapshot.blocks[i]).queued,
{
    let st = Stage { p, changes: Seq::empty() };
    assert(mirrors(p.snapshot, st));
    let done = effect(st, event, now);
    match event {
        Event::MessageAccepted(message) if stirs(event) => {
            accept_steer(st, message.deep_view());
        },
        Event::SteersDelivered(count) => {
            deliver_counts(st, count);
        },
        Event::ContextCompacted { summary } => {
            compaction_place_bound(p);
            let at = compaction_place(p);
            assert(done == note_compaction(st, summary@));
            insert_count(p.snapshot.blocks, at, done.blocks()[at]);
        },
        Event::GenerationCancelled | Event::Error(_) => {
            let closed = st.close_turn(end_reason(event), now);
            close_turn_calm(st, end_reason(event), now);
            calm_count(st, closed);
            deliver_counts(closed, usize::MAX);
            close_keeps_length(st, end_reason(event), now);
            let told = closed.deliver(usize::MAX);
            assert forall|i: int| 0 <= i < told.blocks().len() implies !(
            #[trigger] told.blocks()[i]).queued by {
                queued_bound(closed.blocks().take(i));
            }
            same_count(told.blocks(), done.blocks());
        },
        _ => {
            effect_calm(st, event, now);
            calm_count(st, done);
        },
    }
}

proof fn close_keeps_length(st: Stage, reason: Seq<char>, now: u64)
    requires
        well_formed(st.p),
    ensures
        st.close_turn(reason, now).blocks().len() == st.blocks().len(),
{
    let first = st.pause_reasoning(now);
    fail_keeps_length(
        Stage {
            p: ProjectionView { assistant: None, drafts: Map::empty(), ..first.p },
            changes: first.changes,
        },
        0,
        reason,
        now,
    );
}

proof fn fail_keeps_length(st: Stage, i: int, reason: Seq<char>, now: u64)
    ensures
        st.fail_from(i, reason, now).blocks().len() == st.blocks().len(),
    decreases st.blocks().len() - i,
{
    if 0 <= i < st.blocks().len() {
        let block = st.blocks()[i];
        if is_open(block) {
            fail_keeps_length(st.set(i, failed(block, reason, now)), i + 1, reason, now);
        } else {
            fail_keeps_length(st, i + 1, reason, now);
        }
    }
}

proof fn insert_count(blocks: Seq<BlockView>, at: int, block: BlockView)
    requires
        0 <= at <= blocks.len(),
        !block.queued,
    ensures
        queued_in(blocks.insert(at, block)) == queued_in(blocks),
    decreases blocks.len(),
{
    let all = blocks.insert(at, block);
    if at == blocks.len() {
        assert(all.drop_last() =~= blocks);
    } else {
        assert(all.drop_last() =~= blocks.drop_last().insert(at, block));
        insert_count(blocks.drop_last(), at, block);
    }
}

} // verus!
