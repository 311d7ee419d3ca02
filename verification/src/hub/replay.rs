//! The changes that a projection gives out are enough to follow it: a client that
//! applies them to its copy of the snapshot has the snapshot of the server.
use crate::hub::model::{
    accept_message, add_call_delta, add_delta, add_image, append_field, compaction_place,
    demote_answer, effect, end_reason, end_turn, failed, finish_call, finish_tool, is_open,
    is_waiting, last_user, new_block, note_compaction, open_draft, request_approval, start_tool,
    step, touches_state, ProjectionView, Stage,
};
use crate::hub::state::{
    BlockKind, BlockView, ChangeView, SnapshotView, StateView, ToolModel, ToolStatus,
};
use crate::runtime::event::Event;
use crate::runtime::message::{MessageView, ToolCallView};
use crate::text::{digits, digits_value, value};
use vstd::prelude::*;
use vstd::string::*;

verus! {

// ---------------------------------------------------------------------------
// The client's side
// ---------------------------------------------------------------------------

/// The first index at or behind `from` of a block with `id`; the number of blocks
/// where there is none.
pub open spec fn position(blocks: Seq<BlockView>, id: Seq<char>, from: int) -> int
    decreases blocks.len() - from,
{
    if from < 0 || from >= blocks.len() {
        blocks.len() as int
    } else if blocks[from].id == id {
        from
    } else {
        position(blocks, id, from + 1)
    }
}

/// A snapshot behind one change.
pub open spec fn apply_change(snapshot: SnapshotView, change: ChangeView) -> SnapshotView {
    let blocks = snapshot.blocks;
    match change {
        ChangeView::Insert { before, block } => {
            let at = match before {
                Some(id) => position(blocks, id, 0),
                None => blocks.len() as int,
            };
            SnapshotView { blocks: blocks.insert(at, block), ..snapshot }
        },
        ChangeView::Replace { block } => {
            let at = position(blocks, block.id, 0);
            SnapshotView { blocks: blocks.update(at, block), ..snapshot }
        },
        ChangeView::Append { block_id, field, text } => {
            let at = position(blocks, block_id, 0);
            SnapshotView {
                blocks: blocks.update(at, append_field(blocks[at], field, text)),
                ..snapshot
            }
        },
        ChangeView::State { state } => SnapshotView { state, ..snapshot },
        ChangeView::Plan { plan } => SnapshotView { plan, ..snapshot },
        ChangeView::Project { project } => SnapshotView { project, ..snapshot },
    }
}

/// A snapshot behind changes, one after the other.
pub open spec fn replay(snapshot: SnapshotView, changes: Seq<ChangeView>) -> SnapshotView
    decreases changes.len(),
{
    if changes.len() == 0 {
        snapshot
    } else {
        apply_change(replay(snapshot, changes.drop_last()), changes.last())
    }
}

// ---------------------------------------------------------------------------
// The invariant
// ---------------------------------------------------------------------------

/// `id` is the number of a block made so far.
pub open spec fn numbered(id: Seq<char>, next_id: u64) -> bool {
    id == digits(value(id)) && 1 <= value(id) <= next_id
}

/// `i` is the index of a block with a tool call.
pub open spec fn is_tool(blocks: Seq<BlockView>, i: usize) -> bool {
    i < blocks.len() && blocks[i as int].tool is Some
}

/// The invariant of a projection: blocks are numbered, each with a number of its
/// own, and every place is that of a block, a call's that of a tool block.
pub open spec fn well_formed(p: ProjectionView) -> bool {
    let blocks = p.snapshot.blocks;
    &&& blocks.len() == p.next_id
    &&& blocks.len() <= usize::MAX
    &&& forall|i: int| 0 <= i < blocks.len() ==> numbered((#[trigger] blocks[i]).id, p.next_id)
    &&& forall|i: int, j: int|
        0 <= i < j < blocks.len() ==> (#[trigger] blocks[i]).id != (#[trigger] blocks[j]).id
    &&& p.assistant matches Some(i) ==> i < blocks.len()
    &&& p.reasoning matches Some(i) ==> i < blocks.len()
    &&& forall|k: usize| #[trigger] p.drafts.contains_key(k) ==> is_tool(blocks, p.drafts[k])
    &&& forall|k: Seq<char>| #[trigger] p.calls.contains_key(k) ==> is_tool(blocks, p.calls[k])
}

/// The number of blocks that a message makes.
pub open spec fn message_blocks(message: MessageView) -> nat {
    match message {
        MessageView::Assistant { content, reasoning, tool_calls, .. } => (if reasoning.len() > 0 {
            1nat
        } else {
            0
        }) + (if content.len() > 0 {
            1nat
        } else {
            0
        }) + tool_calls.len(),
        MessageView::Tool { .. } => 0,
        _ => 1,
    }
}

/// The number of blocks that messages make.
pub open spec fn messages_blocks(messages: Seq<MessageView>) -> nat
    decreases messages.len(),
{
    if messages.len() == 0 {
        0
    } else {
        message_blocks(messages[0]) + messages_blocks(messages.skip(1))
    }
}

/// The greatest number of blocks that an event makes.
pub open spec fn event_blocks(event: Event) -> nat {
    match event {
        Event::History(messages) => messages_blocks(messages.deep_view()),
        Event::MessageAccepted(message) => message_blocks(message.deep_view()),
        _ => 1,
    }
}

/// There are `n` block numbers left.
pub open spec fn room(p: ProjectionView, n: nat) -> bool {
    p.next_id + n <= usize::MAX && p.next_id + n <= u64::MAX
}

/// The counters that an event moves have not reached their limits.
pub open spec fn has_room(p: ProjectionView, event: Event) -> bool {
    let state = p.snapshot.state;
    &&& p.snapshot.seq < u64::MAX
    &&& room(p, event_blocks(event))
    &&& match event {
        Event::MessageAccepted(_) => state.queued_steers < usize::MAX,
        Event::ModelResponseFinished { output_tokens, duration_ms } => state.output_tokens
            + output_tokens <= u64::MAX && state.generation_ms + duration_ms <= u64::MAX,
        _ => true,
    }
}

/// A client that had `base` and applied the changes sees the blocks, the plan and
/// the project of the stage.
pub open spec fn mirrors(base: SnapshotView, st: Stage) -> bool {
    let seen = replay(base, st.changes);
    &&& seen.blocks == st.p.snapshot.blocks
    &&& seen.plan == st.p.snapshot.plan
    &&& seen.project == st.p.snapshot.project
    &&& seen.session_id == st.p.snapshot.session_id
    &&& seen.seq == base.seq
    &&& st.p.snapshot.seq == base.seq
    &&& seen.state == base.state
}

/// The invariant holds, and a client can follow.
pub open spec fn good(base: SnapshotView, st: Stage) -> bool {
    well_formed(st.p) && mirrors(base, st)
}

// ---------------------------------------------------------------------------
// Each step keeps it
// ---------------------------------------------------------------------------

pub proof fn position_is_index(blocks: Seq<BlockView>, i: int, from: int)
    requires
        0 <= from <= i < blocks.len(),
        forall|i: int, j: int|
            0 <= i < j < blocks.len() ==> (#[trigger] blocks[i]).id != (#[trigger] blocks[j]).id,
    ensures
        position(blocks, blocks[i].id, from) == i,
    decreases i - from,
{
    if from < i {
        assert(blocks[from].id != blocks[i].id);
        position_is_index(blocks, i, from + 1);
    }
}

proof fn replay_push(base: SnapshotView, changes: Seq<ChangeView>, change: ChangeView)
    ensures
        replay(base, changes.push(change)) == apply_change(replay(base, changes), change),
{
    assert(changes.push(change).drop_last() =~= changes);
}

/// The id of a new block is that of no block there is.
proof fn fresh_id(p: ProjectionView)
    requires
        well_formed(p),
        p.next_id < u64::MAX,
    ensures
        numbered(digits((p.next_id + 1) as nat), (p.next_id + 1) as u64),
        forall|i: int|
            0 <= i < p.snapshot.blocks.len() ==> (#[trigger] p.snapshot.blocks[i]).id != digits(
                (p.next_id + 1) as nat,
            ),
{
    digits_value((p.next_id + 1) as nat);
    assert forall|i: int| 0 <= i < p.snapshot.blocks.len() implies (
    #[trigger] p.snapshot.blocks[i]).id != digits((p.next_id + 1) as nat) by {
        assert(numbered(p.snapshot.blocks[i].id, p.next_id));
    }
}

/// A new block, last.
pub proof fn push_keeps(base: SnapshotView, st: Stage, block: BlockView)
    requires
        good(base, st),
        room(st.p, 1),
        block.id == digits((st.p.next_id + 1) as nat),
    ensures
        good(base, st.push(block)),
{
    let next = st.push(block);
    let blocks = st.blocks();
    fresh_id(st.p);
    replay_push(base, st.changes, ChangeView::Insert { before: None, block });
    assert(next.blocks() =~= blocks.push(block));
    assert(mirrors(base, next));
    assert forall|i: int| 0 <= i < next.blocks().len() implies numbered(
        (#[trigger] next.blocks()[i]).id,
        next.p.next_id,
    ) by {
        if i < blocks.len() {
            assert(next.blocks()[i] == blocks[i]);
        }
    }
    assert forall|k: usize| #[trigger] next.p.drafts.contains_key(k) implies is_tool(
        next.blocks(),
        next.p.drafts[k],
    ) by {
        assert(is_tool(blocks, st.p.drafts[k]));
    }
    assert forall|k: Seq<char>| #[trigger] next.p.calls.contains_key(k) implies is_tool(
        next.blocks(),
        next.p.calls[k],
    ) by {
        assert(is_tool(blocks, st.p.calls[k]));
    }
}

/// Another content of a block that keeps its id, and its tool if it has one.
pub proof fn set_keeps(base: SnapshotView, st: Stage, i: int, block: BlockView)
    requires
        good(base, st),
        0 <= i < st.blocks().len(),
        block.id == st.blocks()[i].id,
        st.blocks()[i].tool is Some ==> block.tool is Some,
    ensures
        good(base, st.set(i, block)),
        st.set(i, block).blocks().len() == st.blocks().len(),
{
    let next = st.set(i, block);
    let blocks = st.blocks();
    position_is_index(blocks, i, 0);
    replay_push(base, st.changes, ChangeView::Replace { block });
    assert(mirrors(base, next));
    assert forall|j: int| 0 <= j < next.blocks().len() implies numbered(
        (#[trigger] next.blocks()[j]).id,
        next.p.next_id,
    ) by {
        assert(numbered(blocks[j].id, st.p.next_id));
    }
    assert forall|a: int, b: int| 0 <= a < b < next.blocks().len() implies (
    #[trigger] next.blocks()[a]).id != (#[trigger] next.blocks()[b]).id by {
        assert(blocks[a].id != blocks[b].id);
    }
    assert forall|k: usize| #[trigger] next.p.drafts.contains_key(k) implies is_tool(
        next.blocks(),
        next.p.drafts[k],
    ) by {
        assert(is_tool(blocks, st.p.drafts[k]));
    }
    assert forall|k: Seq<char>| #[trigger] next.p.calls.contains_key(k) implies is_tool(
        next.blocks(),
        next.p.calls[k],
    ) by {
        assert(is_tool(blocks, st.p.calls[k]));
    }
}

/// More text in a field of a block.
pub proof fn append_keeps(
    base: SnapshotView,
    st: Stage,
    i: int,
    field: Seq<char>,
    text: Seq<char>,
)
    requires
        good(base, st),
        0 <= i < st.blocks().len(),
    ensures
        good(base, st.append(i, field, text)),
{
    let next = st.append(i, field, text);
    let blocks = st.blocks();
    position_is_index(blocks, i, 0);
    replay_push(
        base,
        st.changes,
        ChangeView::Append { block_id: blocks[i].id, field, text },
    );
    assert(mirrors(base, next));
    let block = append_field(blocks[i], field, text);
    assert(block.id == blocks[i].id);
    assert forall|j: int| 0 <= j < next.blocks().len() implies numbered(
        (#[trigger] next.blocks()[j]).id,
        next.p.next_id,
    ) by {
        assert(numbered(blocks[j].id, st.p.next_id));
    }
    assert forall|a: int, b: int| 0 <= a < b < next.blocks().len() implies (
    #[trigger] next.blocks()[a]).id != (#[trigger] next.blocks()[b]).id by {
        assert(blocks[a].id != blocks[b].id);
    }
    assert forall|k: usize| #[trigger] next.p.drafts.contains_key(k) implies is_tool(
        next.blocks(),
        next.p.drafts[k],
    ) by {
        assert(is_tool(blocks, st.p.drafts[k]));
    }
    assert forall|k: Seq<char>| #[trigger] next.p.calls.contains_key(k) implies is_tool(
        next.blocks(),
        next.p.calls[k],
    ) by {
        assert(is_tool(blocks, st.p.calls[k]));
    }
}

pub proof fn pause_keeps(base: SnapshotView, st: Stage, now: u64)
    requires
        good(base, st),
    ensures
        good(base, st.pause_reasoning(now)),
        st.pause_reasoning(now).p.reasoning is None,
        st.pause_reasoning(now).p.assistant == st.p.assistant,
        st.pause_reasoning(now).p.drafts == st.p.drafts,
        st.pause_reasoning(now).p.next_id == st.p.next_id,
{
    if let Some(i) = st.p.reasoning {
        let bare = Stage { p: ProjectionView { reasoning: None, ..st.p }, changes: st.changes };
        assert(good(base, bare));
        set_keeps(
            base,
            bare,
            i as int,
            BlockView { timer: st.blocks()[i as int].timer.paused(now), ..st.blocks()[i as int] },
        );
    }
}

pub proof fn deliver_from_keeps(base: SnapshotView, st: Stage, i: int, left: nat)
    requires
        good(base, st),
        0 <= i,
    ensures
        good(base, st.deliver_from(i, left)),
        st.deliver_from(i, left).p.next_id == st.p.next_id,
        st.deliver_from(i, left).blocks().len() == st.blocks().len(),
        st.deliver_from(i, left).state() == st.state(),
    decreases st.blocks().len() - i,
{
    if i >= st.blocks().len() || left == 0 {
    } else if st.blocks()[i].queued {
        let block = BlockView { queued: false, ..st.blocks()[i] };
        set_keeps(base, st, i, block);
        deliver_from_keeps(base, st.set(i, block), i + 1, (left - 1) as nat);
    } else {
        deliver_from_keeps(base, st, i + 1, left);
    }
}

pub proof fn deliver_keeps(base: SnapshotView, st: Stage, count: usize)
    requires
        good(base, st),
    ensures
        good(base, st.deliver(count)),
        st.deliver(count).p.next_id == st.p.next_id,
{
    deliver_from_keeps(base, st, 0, count as nat);
}

/// A call's place is entered.
proof fn enter_call(base: SnapshotView, st: Stage, id: Seq<char>, i: usize)
    requires
        good(base, st),
        is_tool(st.blocks(), i),
    ensures
        good(
            base,
            Stage {
                p: ProjectionView { calls: st.p.calls.insert(id, i), ..st.p },
                changes: st.changes,
            },
        ),
{
    let next = Stage {
        p: ProjectionView { calls: st.p.calls.insert(id, i), ..st.p },
        changes: st.changes,
    };
    assert forall|k: Seq<char>| #[trigger] next.p.calls.contains_key(k) implies is_tool(
        next.blocks(),
        next.p.calls[k],
    ) by {
        if k != id {
            assert(st.p.calls.contains_key(k));
        }
    }
}

pub proof fn add_calls_keeps(base: SnapshotView, st: Stage, calls: Seq<ToolCallView>)
    requires
        good(base, st),
        room(st.p, calls.len()),
    ensures
        good(base, st.add_calls(calls)),
        st.add_calls(calls).p.next_id == st.p.next_id + calls.len(),
    decreases calls.len(),
{
    if calls.len() > 0 {
        add_call_keeps(base, st, calls[0]);
        add_calls_keeps(base, added_call(st, calls[0]), calls.skip(1));
    }
}

/// A block for one call.
pub open spec fn added_call(st: Stage, call: ToolCallView) -> Stage {
    st.add_calls(seq![call])
}

pub proof fn add_call_keeps(base: SnapshotView, st: Stage, call: ToolCallView)
    requires
        good(base, st),
        room(st.p, 1),
    ensures
        good(base, added_call(st, call)),
        added_call(st, call).p.next_id == st.p.next_id + 1,
        forall|calls: Seq<ToolCallView>|
            calls.len() > 0 && calls[0] == call ==> #[trigger] st.add_calls(calls) == added_call(
                st,
                call,
            ).add_calls(calls.skip(1)),
{
    reveal_with_fuel(Stage::add_calls, 2);
    let block = BlockView {
        tool: Some(
            ToolModel {
                call_id: Some(call.id),
                name: call.name,
                arguments: crate::json::written_pretty(call.arguments),
                output: None,
                diff: None,
                status: ToolStatus::Pending,
            },
        ),
        ..new_block(st.p, BlockKind::Tool, Seq::empty())
    };
    push_keeps(base, st, block);
    let pushed = st.push(block);
    assert(pushed.blocks()[st.blocks().len() as int] == block);
    enter_call(base, pushed, call.id, st.blocks().len() as usize);
}

pub proof fn add_message_keeps(base: SnapshotView, st: Stage, message: MessageView)
    requires
        good(base, st),
        room(st.p, message_blocks(message)),
    ensures
        good(base, st.add_message(message)),
        st.add_message(message).p.next_id == st.p.next_id + message_blocks(message),
{
    match message {
        MessageView::User { content, images } => {
            push_keeps(
                base,
                st,
                BlockView { images, ..new_block(st.p, BlockKind::User, content) },
            );
        },
        MessageView::Steer { content, images } => {
            push_keeps(
                base,
                st,
                BlockView { images, ..new_block(st.p, BlockKind::Steer, content) },
            );
        },
        MessageView::System { content } => {
            let plain = new_block(st.p, BlockKind::System, content);
            let marked = BlockView {
                content: "context compacted"@,
                summary: Some(
                    crate::text::trim(
                        content.skip(crate::runtime::COMPACTION_MARKER@.len() as int),
                    ),
                ),
                ..plain
            };
            push_keeps(base, st, plain);
            push_keeps(base, st, marked);
        },
        MessageView::Assistant { content, model, reasoning, tool_calls, .. } => {
            let first = if reasoning.len() > 0 {
                push_keeps(base, st, new_block(st.p, BlockKind::Thinking, reasoning));
                st.push(new_block(st.p, BlockKind::Thinking, reasoning))
            } else {
                st
            };
            let kind = if tool_calls.len() == 0 {
                BlockKind::Assistant
            } else {
                BlockKind::Status
            };
            let second = if content.len() > 0 {
                let block = BlockView { model, ..new_block(first.p, kind, content) };
                push_keeps(base, first, block);
                first.push(block)
            } else {
                first
            };
            add_calls_keeps(base, second, tool_calls);
        },
        MessageView::Tool { call_id, content, image, diff } => {
            if st.p.calls.contains_key(call_id) {
                let i = st.p.calls[call_id] as int;
                assert(is_tool(st.blocks(), st.p.calls[call_id]));
                let next = st.add_result(call_id, content, image, diff);
                set_keeps(base, st, i, next.blocks()[i]);
                assert(next == st.set(i, next.blocks()[i]));
            }
        },
    }
}

pub proof fn add_messages_keeps(base: SnapshotView, st: Stage, messages: Seq<MessageView>)
    requires
        good(base, st),
        room(st.p, messages_blocks(messages)),
    ensures
        good(base, st.add_messages(messages)),
        st.add_messages(messages).p.next_id == st.p.next_id + messages_blocks(messages),
    decreases messages.len(),
{
    if messages.len() > 0 {
        add_message_keeps(base, st, messages[0]);
        add_messages_keeps(base, st.add_message(messages[0]), messages.skip(1));
    }
}

pub proof fn hold_from_keeps(base: SnapshotView, st: Stage, i: int, now: u64)
    requires
        good(base, st),
        0 <= i,
    ensures
        good(base, st.hold_from(i, now)),
        st.hold_from(i, now).blocks().len() == st.blocks().len(),
        st.hold_from(i, now).p.calls == st.p.calls,
    decreases st.blocks().len() - i,
{
    if i < st.blocks().len() {
        let block = st.blocks()[i];
        if is_waiting(block) {
            let next = BlockView { timer: block.timer.paused(now), ..block };
            set_keeps(base, st, i, next);
            hold_from_keeps(base, st.set(i, next), i + 1, now);
        } else {
            hold_from_keeps(base, st, i + 1, now);
        }
    }
}

pub proof fn fail_from_keeps(
    base: SnapshotView,
    st: Stage,
    i: int,
    reason: Seq<char>,
    now: u64,
)
    requires
        good(base, st),
        0 <= i,
    ensures
        good(base, st.fail_from(i, reason, now)),
        st.fail_from(i, reason, now).blocks().len() == st.blocks().len(),
        st.fail_from(i, reason, now).p.next_id == st.p.next_id,
    decreases st.blocks().len() - i,
{
    if i < st.blocks().len() {
        let block = st.blocks()[i];
        if is_open(block) {
            set_keeps(base, st, i, failed(block, reason, now));
            fail_from_keeps(base, st.set(i, failed(block, reason, now)), i + 1, reason, now);
        } else {
            fail_from_keeps(base, st, i + 1, reason, now);
        }
    }
}

pub proof fn close_turn_keeps(base: SnapshotView, st: Stage, reason: Seq<char>, now: u64)
    requires
        good(base, st),
    ensures
        good(base, st.close_turn(reason, now)),
        st.close_turn(reason, now).p.next_id == st.p.next_id,
{
    pause_keeps(base, st, now);
    let first = st.pause_reasoning(now);
    let bare = Stage {
        p: ProjectionView { assistant: None, drafts: Map::empty(), ..first.p },
        changes: first.changes,
    };
    assert(good(base, bare));
    fail_from_keeps(base, bare, 0, reason, now);
}

pub proof fn end_turn_keeps(base: SnapshotView, st: Stage, event: Event, now: u64)
    requires
        good(base, st),
        room(st.p, 1),
    ensures
        good(base, end_turn(st, event, now)),
{
    let closed = st.close_turn(end_reason(event), now);
    close_turn_keeps(base, st, end_reason(event), now);
    deliver_keeps(base, closed, usize::MAX);
    let done = closed.deliver(usize::MAX);
    match event {
        Event::Error(error) => {
            push_keeps(base, done, new_block(done.p, BlockKind::Error, error@));
        },
        Event::GenerationCancelled => {
            push_keeps(
                base,
                done,
                new_block(done.p, BlockKind::System, crate::runtime::CANCELLED_BY_USER@),
            );
        },
        _ => {},
    }
}

pub proof fn add_delta_keeps(
    base: SnapshotView,
    st: Stage,
    thinking: bool,
    delta: Seq<char>,
    now: u64,
)
    requires
        good(base, st),
        room(st.p, 1),
    ensures
        good(base, add_delta(st, thinking, delta, now)),
{
    pause_keeps(base, st, now);
    let first = if thinking {
        st
    } else {
        st.pause_reasoning(now)
    };
    let current = if thinking {
        first.p.reasoning
    } else {
        first.p.assistant
    };
    match current {
        Some(i) => {
            append_keeps(base, first, i as int, "content"@, delta);
        },
        None => {
            let kind = if thinking {
                BlockKind::Thinking
            } else {
                BlockKind::Assistant
            };
            let fresh = new_block(first.p, kind, Seq::empty());
            let block = BlockView {
                model: first.state().response_model,
                timer: if thinking {
                    fresh.timer.resumed(now)
                } else {
                    fresh.timer
                },
                ..fresh
            };
            push_keeps(base, first, block);
            let next = first.push(block);
            let i = first.blocks().len() as usize;
            let placed = Stage {
                p: if thinking {
                    ProjectionView { reasoning: Some(i), ..next.p }
                } else {
                    ProjectionView { assistant: Some(i), ..next.p }
                },
                changes: next.changes,
            };
            assert(good(base, placed));
            append_keeps(base, placed, i as int, "content"@, delta);
        },
    }
}

pub proof fn demote_keeps(base: SnapshotView, st: Stage)
    requires
        good(base, st),
    ensures
        good(base, demote_answer(st)),
        demote_answer(st).p.next_id == st.p.next_id,
{
    if let Some(i) = st.p.assistant {
        set_keeps(
            base,
            st,
            i as int,
            BlockView { kind: BlockKind::Status, ..st.blocks()[i as int] },
        );
    }
}

pub proof fn open_draft_keeps(
    base: SnapshotView,
    st: Stage,
    index: usize,
    name: Option<Seq<char>>,
    now: u64,
)
    requires
        good(base, st),
        room(st.p, 1),
    ensures
        good(base, open_draft(st, index, name, now)),
        open_draft(st, index, name, now).p.drafts.contains_key(index),
{
    if !st.p.drafts.contains_key(index) {
        let fresh = new_block(st.p, BlockKind::Tool, Seq::empty());
        let block = BlockView {
            timer: fresh.timer.resumed(now),
            tool: Some(
                ToolModel {
                    call_id: None,
                    name: match name {
                        Some(name) => name,
                        None => Seq::empty(),
                    },
                    arguments: Seq::empty(),
                    output: None,
                    diff: None,
                    status: ToolStatus::Streaming,
                },
            ),
            ..fresh
        };
        push_keeps(base, st, block);
        let pushed = st.push(block);
        let i = st.blocks().len() as usize;
        assert(pushed.blocks()[i as int] == block);
        let next = open_draft(st, index, name, now);
        assert forall|k: usize| #[trigger] next.p.drafts.contains_key(k) implies is_tool(
            next.blocks(),
            next.p.drafts[k],
        ) by {
            if k != index {
                assert(pushed.p.drafts.contains_key(k));
            }
        }
    }
}

pub proof fn add_call_delta_keeps(
    base: SnapshotView,
    st: Stage,
    index: usize,
    name: Option<Seq<char>>,
    arguments: Seq<char>,
    now: u64,
)
    requires
        good(base, st),
        room(st.p, 1),
    ensures
        good(base, add_call_delta(st, index, name, arguments, now)),
{
    pause_keeps(base, st, now);
    demote_keeps(base, st.pause_reasoning(now));
    let before = demote_answer(st.pause_reasoning(now));
    open_draft_keeps(base, before, index, name, now);
    let opened = open_draft(before, index, name, now);
    let i = opened.p.drafts[index] as int;
    assert(is_tool(opened.blocks(), opened.p.drafts[index]));
    let named = match name {
        Some(name) => {
            set_keeps(
                base,
                opened,
                i,
                BlockView {
                    tool: Some(ToolModel { name, ..opened.blocks()[i].tool->0 }),
                    ..opened.blocks()[i]
                },
            );
            opened.set_tool(i, ToolModel { name, ..opened.blocks()[i].tool->0 })
        },
        None => opened,
    };
    append_keeps(base, named, i, "arguments"@, arguments);
}

pub proof fn finish_call_keeps(base: SnapshotView, st: Stage, index: usize, call: ToolCallView)
    requires
        good(base, st),
    ensures
        good(base, finish_call(st, index, call)),
{
    if st.p.drafts.contains_key(index) {
        let i = st.p.drafts[index];
        assert(is_tool(st.blocks(), i));
        let fewer = Stage {
            p: ProjectionView { drafts: st.p.drafts.remove(index), ..st.p },
            changes: st.changes,
        };
        assert forall|k: usize| #[trigger] fewer.p.drafts.contains_key(k) implies is_tool(
            fewer.blocks(),
            fewer.p.drafts[k],
        ) by {
            assert(st.p.drafts.contains_key(k));
        }
        assert(good(base, fewer));
        enter_call(base, fewer, call.id, i);
        let entered = Stage {
            p: ProjectionView { calls: st.p.calls.insert(call.id, i), ..fewer.p },
            changes: st.changes,
        };
        let next = finish_call(st, index, call);
        set_keeps(base, entered, i as int, next.blocks()[i as int]);
        assert(next == entered.set(i as int, next.blocks()[i as int]));
    }
}

pub proof fn request_approval_keeps(
    base: SnapshotView,
    st: Stage,
    approval_id: Seq<char>,
    call: ToolCallView,
    now: u64,
)
    requires
        good(base, st),
    ensures
        good(base, request_approval(st, approval_id, call, now)),
{
    hold_from_keeps(base, st, 0, now);
    let held = st.hold_from(0, now);
    if held.p.calls.contains_key(call.id) {
        let i = held.p.calls[call.id] as int;
        assert(is_tool(held.blocks(), held.p.calls[call.id]));
        set_keeps(
            base,
            held,
            i,
            BlockView {
                tool: Some(
                    ToolModel { status: ToolStatus::WaitingApproval, ..held.blocks()[i].tool->0 },
                ),
                ..held.blocks()[i]
            },
        );
    }
}

/// An event of a call that has a block.
pub proof fn call_event_keeps(base: SnapshotView, st: Stage, call_id: Seq<char>, block: BlockView)
    requires
        good(base, st),
        st.p.calls.contains_key(call_id),
        block.id == st.blocks()[st.p.calls[call_id] as int].id,
        block.tool is Some,
    ensures
        good(base, st.set(st.p.calls[call_id] as int, block)),
{
    assert(is_tool(st.blocks(), st.p.calls[call_id]));
    set_keeps(base, st, st.p.calls[call_id] as int, block);
}

proof fn last_user_bound(blocks: Seq<BlockView>)
    ensures
        -1 <= last_user(blocks) < blocks.len(),
    decreases blocks.len(),
{
    if blocks.len() > 0 {
        last_user_bound(blocks.drop_last());
    }
}

/// The place of a compaction note is one between blocks.
pub proof fn compaction_place_bound(p: ProjectionView)
    ensures
        0 <= compaction_place(p) <= p.snapshot.blocks.len(),
{
    last_user_bound(p.snapshot.blocks);
}

#[verifier::rlimit(50)]
pub proof fn note_compaction_keeps(base: SnapshotView, st: Stage, summary: Seq<char>)
    requires
        good(base, st),
        room(st.p, 1),
    ensures
        good(base, note_compaction(st, summary)),
{
    let at = compaction_place(st.p);
    compaction_place_bound(st.p);
    let blocks = st.blocks();
    let before = if at < blocks.len() {
        Some(blocks[at].id)
    } else {
        None
    };
    let block = BlockView {
        summary: Some(summary),
        ..new_block(st.p, BlockKind::System, "context compacted"@)
    };
    let next = note_compaction(st, summary);
    fresh_id(st.p);
    replay_push(base, st.changes, ChangeView::Insert { before, block });
    if at < blocks.len() {
        position_is_index(blocks, at, 0);
    }
    assert(mirrors(base, next));
    let moved = next.blocks();
    assert(moved == blocks.insert(at, block));
    assert forall|i: int| 0 <= i < moved.len() implies numbered(
        (#[trigger] moved[i]).id,
        next.p.next_id,
    ) by {
        if i < at {
            assert(moved[i] == blocks[i]);
        } else if i > at {
            assert(moved[i] == blocks[i - 1]);
        }
    }
    assert forall|a: int, b: int| 0 <= a < b < moved.len() implies (#[trigger] moved[a]).id != (
    #[trigger] moved[b]).id by {
        let x = if a < at {
            a
        } else {
            a - 1
        };
        let y = if b < at {
            b
        } else {
            b - 1
        };
        if a != at {
            assert(moved[a] == blocks[x]);
        }
        if b != at {
            assert(moved[b] == blocks[y]);
        }
        if a != at && b != at {
            assert(blocks[x].id != blocks[y].id);
        }
    }
    assert forall|k: usize| #[trigger] next.p.drafts.contains_key(k) implies is_tool(
        moved,
        next.p.drafts[k],
    ) by {
        assert(st.p.drafts.contains_key(k));
        assert(is_tool(blocks, st.p.drafts[k]));
        let i = st.p.drafts[k] as int;
        if i >= at {
            assert(moved[i + 1] == blocks[i]);
        } else {
            assert(moved[i] == blocks[i]);
        }
    }
    assert forall|k: Seq<char>| #[trigger] next.p.calls.contains_key(k) implies is_tool(
        moved,
        next.p.calls[k],
    ) by {
        assert(st.p.calls.contains_key(k));
        assert(is_tool(blocks, st.p.calls[k]));
        let i = st.p.calls[k] as int;
        if i >= at {
            assert(moved[i + 1] == blocks[i]);
        } else {
            assert(moved[i] == blocks[i]);
        }
    }
}

pub proof fn accept_message_keeps(base: SnapshotView, st: Stage, message: MessageView)
    requires
        good(base, st),
        room(st.p, message_blocks(message)),
    ensures
        good(base, accept_message(st, message)),
{
    reveal_with_fuel(Stage::add_messages, 2);
    add_message_keeps(base, st, message);
    let next = st.add_message(message);
    assert(st.add_messages(seq![message]) == next) by {
        assert(seq![message].skip(1) =~= Seq::<MessageView>::empty());
    }
    if let MessageView::Steer { .. } = message {
        let i = next.blocks().len() - 1;
        let counted = next.with_state(
            StateView {
                queued_steers: (next.state().queued_steers + 1) as usize,
                ..next.state()
            },
        );
        assert(good(base, counted));
        set_keeps(base, counted, i, BlockView { queued: true, ..counted.blocks()[i] });
    }
}

/// What an event does keeps the invariant, and lets a client follow.
#[verifier::rlimit(50)]
pub proof fn effect_keeps(base: SnapshotView, st: Stage, event: Event, now: u64)
    requires
        good(base, st),
        has_room(st.p, event),
    ensures
        good(base, effect(st, event, now)),
{
    match event {
        Event::History(messages) => {
            add_messages_keeps(base, st, messages.deep_view());
        },
        Event::MessageAccepted(message) => {
            accept_message_keeps(base, st, message.deep_view());
        },
        Event::ModelRequestStarted(model) => {
            pause_keeps(base, st, now);
        },
        Event::ProjectChanged(project) => {
            let next = effect(st, event, now);
            replay_push(base, st.changes, next.changes.last());
        },
        Event::PlanChanged(plan) => {
            let next = effect(st, event, now);
            replay_push(base, st.changes, next.changes.last());
        },
        Event::TextDelta(delta) => {
            add_delta_keeps(base, st, false, delta@, now);
        },
        Event::ReasoningDelta(delta) => {
            add_delta_keeps(base, st, true, delta@, now);
        },
        Event::ToolCallDelta { index, name, arguments } => {
            add_call_delta_keeps(base, st, index, name.deep_view(), arguments@, now);
        },
        Event::ToolCallFinished { index, call } => {
            finish_call_keeps(base, st, index, call.deep_view());
        },
        Event::ApprovalRequested { approval_id, call } => {
            request_approval_keeps(base, st, approval_id@, call.deep_view(), now);
        },
        Event::ApprovalResolved { tool, decision, .. } => {
            let next = st.with_state(StateView { approval: None, ..st.state() });
            push_keeps(
                base,
                next,
                new_block(
                    next.p,
                    BlockKind::System,
                    crate::hub::model::decision_text(tool@, decision),
                ),
            );
        },
        Event::ToolStarted { call_id } => {
            let next = st.with_state(StateView { phase: "tool"@, ..st.state() });
            let done = start_tool(st, call_id@, now);
            if next.p.calls.contains_key(call_id@) {
                let i = next.p.calls[call_id@] as int;
                assert(is_tool(next.blocks(), next.p.calls[call_id@]));
                call_event_keeps(base, next, call_id@, done.blocks()[i]);
                assert(done == next.set(i, done.blocks()[i]));
            }
        },
        Event::ToolOutputDelta { call_id, delta } => {
            if st.p.calls.contains_key(call_id@) {
                let i = st.p.calls[call_id@] as int;
                assert(is_tool(st.blocks(), st.p.calls[call_id@]));
                append_keeps(base, st, i, "output"@, delta@);
            }
        },
        Event::ToolResult { call_id, output, success, diff } => {
            let done = finish_tool(st, call_id@, output@, success, diff.deep_view(), now);
            if st.p.calls.contains_key(call_id@) {
                let i = st.p.calls[call_id@] as int;
                assert(is_tool(st.blocks(), st.p.calls[call_id@]));
                call_event_keeps(base, st, call_id@, done.blocks()[i]);
                assert(done == st.set(i, done.blocks()[i]));
            }
        },
        Event::ToolImage { call_id, image } => {
            let done = add_image(st, call_id@, image.deep_view());
            if st.p.calls.contains_key(call_id@) {
                let i = st.p.calls[call_id@] as int;
                assert(is_tool(st.blocks(), st.p.calls[call_id@]));
                call_event_keeps(base, st, call_id@, done.blocks()[i]);
                assert(done == st.set(i, done.blocks()[i]));
            }
        },
        Event::SteersDelivered(count) => {
            deliver_keeps(base, st, count);
        },
        Event::ContextCompacted { summary } => {
            note_compaction_keeps(base, st, summary@);
        },
        Event::GenerationFinished => {
            end_turn_keeps(base, st, event, now);
        },
        Event::GenerationCancelled => {
            end_turn_keeps(base, st, event, now);
        },
        Event::Error(_) => {
            end_turn_keeps(base, st, event, now);
        },
        _ => {},
    }
}

/// A snapshot whose number is `seq`.
pub open spec fn at_seq(snapshot: SnapshotView, seq: u64) -> SnapshotView {
    SnapshotView { seq, ..snapshot }
}

/// An event that sends no state leaves it as it was.
proof fn untouched_state(st: Stage, event: Event, now: u64)
    requires
        !touches_state(event),
    ensures
        effect(st, event, now).state() == st.state(),
{
}

/// Every event keeps the invariant of a projection, moves its number up by one,
/// and gives out changes from which a client that has the snapshot before the
/// event gets the snapshot behind it.
pub proof fn replay_law(p: ProjectionView, event: Event, now: u64)
    requires
        well_formed(p),
        has_room(p, event),
    ensures
        well_formed(step(p, event, now).p),
        step(p, event, now).p.snapshot.seq == p.snapshot.seq + 1,
        at_seq(
            replay(p.snapshot, step(p, event, now).changes),
            step(p, event, now).p.snapshot.seq,
        ) == step(p, event, now).p.snapshot,
{
    let st = Stage { p, changes: Seq::empty() };
    let base = p.snapshot;
    assert(mirrors(base, st));
    effect_keeps(base, st, event, now);
    let done = effect(st, event, now);
    if touches_state(event) {
        replay_push(base, done.changes, ChangeView::State { state: done.state() });
    } else {
        untouched_state(st, event, now);
    }
}

} // verus!
