//! What each event does to what a client sees: that it shows what happened, and leaves alone
//! what it is not about.
use super::ended_law::same_but_blocks;
use super::model::{is_waiting, new_block, step, ProjectionView, Stage};
use super::replay::{has_room, well_formed};
use super::state::{BlockKind, BlockView, StateView, ToolModel, ToolStatus};
use crate::json::written_pretty;
use crate::runtime::event::{ApprovalDecision, Event};
use crate::runtime::message::{ImageView, MessageView, ToolCallView};
use crate::text::{digits, has_prefix, trim};
use vstd::prelude::*;
use vstd::string::*;

verus! {

// ---------------------------------------------------------------------------
// Walks over the blocks
// ---------------------------------------------------------------------------

proof fn holding(st: Stage, i: int, now: u64)
    requires
        0 <= i,
    ensures
        same_but_blocks(st.hold_from(i, now), st),
        forall|k: int|
            0 <= k < st.blocks().len() ==> #[trigger] st.hold_from(i, now).blocks()[k] == if k >= i
                && is_waiting(st.blocks()[k]) {
                BlockView { timer: st.blocks()[k].timer.paused(now), ..st.blocks()[k] }
            } else {
                st.blocks()[k]
            },
    decreases st.blocks().len() - i,
{
    if i < st.blocks().len() {
        let block = st.blocks()[i];
        if is_waiting(block) {
            holding(st.set(i, BlockView { timer: block.timer.paused(now), ..block }), i + 1, now);
        } else {
            holding(st, i + 1, now);
        }
    }
}

/// A call that is shown: by its id, its name and what it is given, and not yet run.
pub open spec fn shows_call(block: BlockView, call: ToolCallView) -> bool {
    &&& block.kind == BlockKind::Tool
    &&& block.tool is Some
    &&& block.tool->0.call_id == Some(call.id)
    &&& block.tool->0.name == call.name
    &&& block.tool->0.arguments == written_pretty(call.arguments)
    &&& block.tool->0.output is None
    &&& block.tool->0.diff is None
    &&& block.tool->0.status == ToolStatus::Pending
}

proof fn calling(st: Stage, calls: Seq<ToolCallView>)
    requires
        st.blocks().len() + calls.len() <= usize::MAX,
    ensures
        ({
            let next = st.add_calls(calls);
            let n = st.blocks().len();
            &&& next.blocks().len() == n + calls.len()
            &&& next.state() == st.state()
            &&& next.p.assistant == st.p.assistant
            &&& next.p.reasoning == st.p.reasoning
            &&& next.p.drafts == st.p.drafts
            &&& next.p.snapshot.plan == st.p.snapshot.plan
            &&& next.p.snapshot.project == st.p.snapshot.project
            &&& forall|k: int| 0 <= k < n ==> #[trigger] next.blocks()[k] == st.blocks()[k]
            &&& forall|j: int|
                0 <= j < calls.len() ==> shows_call(#[trigger] next.blocks()[n + j], calls[j])
        }),
    decreases calls.len(),
{
    if calls.len() > 0 {
        let call = calls[0];
        let n = st.blocks().len();
        let rest = calls.skip(1);
        let mid = one_call(st, call);
        assert(st.add_calls(calls) == mid.add_calls(rest));
        calling(mid, rest);
        let next = st.add_calls(calls);
        assert(mid.blocks().len() == n + 1);
        assert forall|k: int| 0 <= k < n implies #[trigger] next.blocks()[k] == st.blocks()[k] by {
            assert(mid.blocks()[k] == st.blocks()[k]);
        }
        assert forall|j: int| 0 <= j < calls.len() implies shows_call(
            #[trigger] next.blocks()[n + j],
            calls[j],
        ) by {
            if j == 0 {
                assert(next.blocks()[n as int] == mid.blocks()[n as int]);
            } else {
                assert(rest[j - 1] == calls[j]);
                assert(next.blocks()[(n + 1) + (j - 1)] == next.blocks()[n + j]);
            }
        }
    }
}

spec fn one_call(st: Stage, call: ToolCallView) -> Stage {
    let next = st.push(
        BlockView {
            tool: Some(
                ToolModel {
                    call_id: Some(call.id),
                    name: call.name,
                    arguments: written_pretty(call.arguments),
                    output: None,
                    diff: None,
                    status: ToolStatus::Pending,
                },
            ),
            ..new_block(st.p, BlockKind::Tool, Seq::empty())
        },
    );
    Stage {
        p: ProjectionView {
            calls: next.p.calls.insert(call.id, st.blocks().len() as usize),
            ..next.p
        },
        changes: next.changes,
    }
}

/// A call is found under its id, the last that bears it.
pub proof fn call_table_law(st: Stage, calls: Seq<ToolCallView>, id: Seq<char>, j: int)
    requires
        st.blocks().len() + calls.len() <= usize::MAX,
    ensures
        0 <= j < calls.len() && calls[j].id == id && (forall|m: int|
            j < m < calls.len() ==> (#[trigger] calls[m]).id != id) ==> st.add_calls(
            calls,
        ).p.calls.contains_key(id) && st.add_calls(calls).p.calls[id] == st.blocks().len() + j,
        (forall|m: int| 0 <= m < calls.len() ==> (#[trigger] calls[m]).id != id) ==> (st.add_calls(
            calls,
        ).p.calls.contains_key(id) <==> st.p.calls.contains_key(id)) && (st.p.calls.contains_key(id)
            ==> st.add_calls(calls).p.calls[id] == st.p.calls[id]),
    decreases calls.len(),
{
    if calls.len() > 0 {
        let rest = calls.skip(1);
        let mid = one_call(st, calls[0]);
        assert(st.add_calls(calls) == mid.add_calls(rest));
        assert(mid.blocks().len() == st.blocks().len() + 1);
        call_table_law(mid, rest, id, j - 1);
        assert forall|m: int| 0 <= m < rest.len() implies #[trigger] rest[m] == calls[m + 1] by {}
        if 0 <= j < calls.len() && calls[j].id == id && (forall|m: int|
            j < m < calls.len() ==> (#[trigger] calls[m]).id != id) {
            if j > 0 {
                assert(rest[j - 1] == calls[j]);
            }
            assert forall|m: int| j - 1 < m < rest.len() && 0 <= m implies (#[trigger] rest[m]).id
                != id by {
                assert(calls[m + 1].id != id);
            }
        }
        if forall|m: int| 0 <= m < calls.len() ==> (#[trigger] calls[m]).id != id {
            assert(calls[0].id != id);
            assert forall|m: int| 0 <= m < rest.len() implies (#[trigger] rest[m]).id != id by {
                assert(calls[m + 1].id != id);
            }
        }
    }
}

// ---------------------------------------------------------------------------
// Messages
// ---------------------------------------------------------------------------

/// A history is shown message by message.
pub proof fn history_law(st: Stage, a: Seq<MessageView>, b: Seq<MessageView>)
    ensures
        st.add_messages(a + b) == st.add_messages(a).add_messages(b),
        st.add_messages(Seq::empty()) == st,
        a.len() == 1 ==> st.add_messages(a) == st.add_message(a[0]),
    decreases a.len(),
{
    if a.len() == 0 {
        assert(a + b =~= b);
    } else {
        assert((a + b)[0] == a[0]);
        assert((a + b).skip(1) =~= a.skip(1) + b);
        history_law(st.add_message(a[0]), a.skip(1), b);
        if a.len() == 1 {
            assert(a.skip(1) =~= Seq::empty());
            assert(st.add_message(a[0]).add_messages(Seq::empty()) == st.add_message(a[0]));
        }
    }
}

/// What a person says is shown behind all else, with its words and its images, and nothing
/// else changes.
pub proof fn said_law(st: Stage, content: Seq<char>, images: Seq<ImageView>)
    ensures
        ({
            let user = st.add_message(MessageView::User { content, images });
            let steer = st.add_message(MessageView::Steer { content, images });
            &&& user.blocks().drop_last() == st.blocks()
            &&& user.blocks().last().kind == BlockKind::User
            &&& user.blocks().last().content == content
            &&& user.blocks().last().images == images
            &&& user.blocks().last().tool is None
            &&& !user.blocks().last().queued
            &&& steer.blocks().drop_last() == st.blocks()
            &&& steer.blocks().last().kind == BlockKind::Steer
            &&& steer.blocks().last().content == content
            &&& steer.blocks().last().images == images
            &&& user.state() == st.state()
            &&& steer.state() == st.state()
        }),
{
    let user = st.add_message(MessageView::User { content, images });
    let steer = st.add_message(MessageView::Steer { content, images });
    assert(user.blocks().drop_last() =~= st.blocks());
    assert(steer.blocks().drop_last() =~= st.blocks());
}

/// A note is shown as it is; one that a summary replaced what was said is shown as that, with
/// the summary.
pub proof fn note_law(st: Stage, content: Seq<char>, summary: Seq<char>)
    ensures
        ({
            let plain = st.add_message(MessageView::System { content });
            let marked = st.add_message(
                MessageView::System { content: "Context compacted"@ + summary },
            );
            &&& plain.blocks().drop_last() == st.blocks()
            &&& plain.blocks().last().kind == BlockKind::System
            &&& !has_prefix(content, "Context compacted"@) ==> plain.blocks().last().content
                == content && plain.blocks().last().summary is None
            &&& marked.blocks().last().content == "context compacted"@
            &&& marked.blocks().last().summary == Some(trim(summary))
            &&& plain.state() == st.state()
        }),
{
    let plain = st.add_message(MessageView::System { content });
    let whole = "Context compacted"@ + summary;
    let marked = st.add_message(MessageView::System { content: whole });
    assert(plain.blocks().drop_last() =~= st.blocks());
    let n = "Context compacted"@.len() as int;
    assert(whole.subrange(0, n) =~= "Context compacted"@);
    assert(whole.skip(n) =~= summary);
    assert(has_prefix(whole, "Context compacted"@));
}

/// An answer is shown as it came: what was thought, then what was said, then the calls, each
/// left out where there is none. What comes with calls is a remark and no answer.
pub proof fn answer_law(
    st: Stage,
    content: Seq<char>,
    model: Seq<char>,
    reasoning: Seq<char>,
    message: MessageView,
)
    requires
        message is Assistant,
        message->Assistant_content == content,
        message->Assistant_model == model,
        message->Assistant_reasoning == reasoning,
        st.blocks().len() + 2 + message->tool_calls.len() <= usize::MAX,
    ensures
        ({
            let calls = message->tool_calls;
            let next = st.add_message(message);
            let n = st.blocks().len() as int;
            let thought: int = if reasoning.len() > 0 {
                1
            } else {
                0
            };
            let told: int = if content.len() > 0 {
                1
            } else {
                0
            };
            &&& next.state() == st.state()
            &&& next.blocks().len() == n + thought + told + calls.len()
            &&& forall|k: int| 0 <= k < n ==> #[trigger] next.blocks()[k] == st.blocks()[k]
            &&& reasoning.len() > 0 ==> next.blocks()[n].kind == BlockKind::Thinking
                && next.blocks()[n].content == reasoning
            &&& content.len() > 0 ==> next.blocks()[n + thought].content == content
                && next.blocks()[n + thought].model == model && next.blocks()[n + thought].kind
                == if calls.len() == 0 {
                BlockKind::Assistant
            } else {
                BlockKind::Status
            }
            &&& forall|j: int|
                0 <= j < calls.len() ==> shows_call(
                    #[trigger] next.blocks()[n + thought + told + j],
                    calls[j],
                )
        }),
{
    let calls = message->tool_calls;
    let first = if reasoning.len() > 0 {
        st.push(new_block(st.p, BlockKind::Thinking, reasoning))
    } else {
        st
    };
    let kind = if calls.len() == 0 {
        BlockKind::Assistant
    } else {
        BlockKind::Status
    };
    let second = if content.len() > 0 {
        first.push(BlockView { model, ..new_block(first.p, kind, content) })
    } else {
        first
    };
    calling(second, calls);
    let next = st.add_message(message);
    assert(next == second.add_calls(calls));
    let n = st.blocks().len() as int;
    assert forall|k: int| 0 <= k < n implies #[trigger] next.blocks()[k] == st.blocks()[k] by {
        assert(next.blocks()[k] == second.blocks()[k]);
        assert(second.blocks()[k] == first.blocks()[k]);
    }
    let m = second.blocks().len() as int;
    if reasoning.len() > 0 {
        assert(next.blocks()[n] == second.blocks()[n]);
        assert(second.blocks()[n] == first.blocks()[n]);
    }
    if content.len() > 0 {
        assert(next.blocks()[m - 1] == second.blocks()[m - 1]);
    }
    assert forall|j: int| 0 <= j < calls.len() implies shows_call(
        #[trigger] next.blocks()[m + j],
        calls[j],
    ) by {}
}

/// What a tool gave is shown with its call, and whether it failed; a result without a call
/// changes nothing.
pub proof fn given_law(
    st: Stage,
    call_id: Seq<char>,
    content: Seq<char>,
    image: Option<ImageView>,
    diff: Option<Seq<char>>,
    k: int,
)
    requires
        st.p.calls.contains_key(call_id) ==> st.p.calls[call_id] < st.blocks().len()
            && st.blocks()[st.p.calls[call_id] as int].tool is Some,
        0 <= k < st.blocks().len(),
    ensures
        ({
            let next = st.add_message(MessageView::Tool { call_id, content, image, diff });
            let i = st.p.calls[call_id] as int;
            let was = st.blocks()[i];
            let now = next.blocks()[i];
            &&& !st.p.calls.contains_key(call_id) ==> next == st
            &&& st.p.calls.contains_key(call_id) ==> {
                &&& next.blocks().len() == st.blocks().len()
                &&& k != i ==> next.blocks()[k] == st.blocks()[k]
                &&& now.tool is Some
                &&& now.tool->0.output == Some(content)
                &&& now.tool->0.diff == diff
                &&& now.tool->0.status == ToolStatus::Failed <==> has_prefix(content, "Error:"@)
                &&& now.tool->0.status == ToolStatus::Done <==> !has_prefix(content, "Error:"@)
                &&& now.tool->0.name == was.tool->0.name
                &&& now.tool->0.arguments == was.tool->0.arguments
                &&& now.tool->0.call_id == was.tool->0.call_id
                &&& image is Some ==> now.images == was.images.push(image->0)
                &&& image is None ==> now.images == was.images
                &&& now.id == was.id
                &&& now.content == was.content
            }
            &&& next.state() == st.state()
        }),
{
}

/// A message that is taken is shown; one that steers waits, and is counted.
pub proof fn accepted_message_law(p: ProjectionView, event: Event, now: u64)
    requires
        well_formed(p),
        has_room(p, event),
        event is MessageAccepted,
    ensures
        ({
            let message = event->MessageAccepted_0.deep_view();
            let st = Stage { p, changes: Seq::empty() };
            let next = step(p, event, now);
            &&& !(message is Steer) ==> next.blocks() == st.add_message(message).blocks()
                && next.state() == st.add_message(message).state()
            &&& message is Steer ==> {
                &&& next.blocks().drop_last() == p.snapshot.blocks
                &&& next.blocks().last().kind == BlockKind::Steer
                &&& next.blocks().last().content == message->Steer_content
                &&& next.blocks().last().images == message->Steer_images
                &&& next.blocks().last().queued
                &&& next.state().queued_steers == p.snapshot.state.queued_steers + 1
            }
        }),
{
    let message = event->MessageAccepted_0.deep_view();
    let st = Stage { p, changes: Seq::empty() };
    history_law(st, seq![message], Seq::empty());
    if message is Steer {
        said_law(st, message->Steer_content, message->Steer_images);
        let next = step(p, event, now);
        assert(next.blocks().drop_last() =~= p.snapshot.blocks);
    }
}

// ---------------------------------------------------------------------------
// What is being written
// ---------------------------------------------------------------------------

/// All of a block but its stopwatch.
pub open spec fn same_but_timer(a: BlockView, b: BlockView) -> bool {
    a == (BlockView { timer: a.timer, ..b })
}

/// Text that comes is added to the answer that is being written, or starts one, by the model
/// that answers. All other blocks keep what they hold.
pub proof fn text_delta_law(p: ProjectionView, event: Event, now: u64, k: int)
    requires
        well_formed(p),
        has_room(p, event),
        event is TextDelta,
        0 <= k < p.snapshot.blocks.len(),
    ensures
        ({
            let next = step(p, event, now);
            let delta = event->TextDelta_0@;
            let n = p.snapshot.blocks.len() as int;
            &&& next.p.assistant is Some
            &&& next.p.reasoning is None
            &&& next.state() == p.snapshot.state
            &&& p.assistant is Some ==> {
                let i = p.assistant->0 as int;
                &&& next.p.assistant == p.assistant
                &&& next.blocks().len() == n
                &&& next.blocks()[i].content == p.snapshot.blocks[i].content + delta
                &&& next.blocks()[i].kind == p.snapshot.blocks[i].kind
                &&& next.blocks()[i].tool == p.snapshot.blocks[i].tool
                &&& k != i ==> same_but_timer(next.blocks()[k], p.snapshot.blocks[k])
            }
            &&& p.assistant is None ==> {
                &&& next.p.assistant->0 == n
                &&& next.blocks().len() == n + 1
                &&& next.blocks()[n].content == delta
                &&& next.blocks()[n].kind == BlockKind::Assistant
                &&& next.blocks()[n].model == p.snapshot.state.response_model
                &&& next.blocks()[n].tool is None
                &&& same_but_timer(next.blocks()[k], p.snapshot.blocks[k])
            }
        }),
{
    if p.assistant is None {
        let n = p.snapshot.blocks.len() as int;
        let delta = event->TextDelta_0@;
        assert(step(p, event, now).blocks()[n].content =~= Seq::<char>::empty() + delta);
        assert(Seq::<char>::empty() + delta =~= delta);
    }
}

/// Thoughts that come are added to those that are being written, or start some, and their
/// time runs.
pub proof fn thought_delta_law(p: ProjectionView, event: Event, now: u64, k: int)
    requires
        well_formed(p),
        has_room(p, event),
        event is ReasoningDelta,
        0 <= k < p.snapshot.blocks.len(),
    ensures
        ({
            let next = step(p, event, now);
            let delta = event->ReasoningDelta_0@;
            let n = p.snapshot.blocks.len() as int;
            &&& next.p.reasoning is Some
            &&& next.p.assistant == p.assistant
            &&& next.state() == p.snapshot.state
            &&& p.reasoning is Some ==> {
                let i = p.reasoning->0 as int;
                &&& next.p.reasoning == p.reasoning
                &&& next.blocks().len() == n
                &&& next.blocks()[i].content == p.snapshot.blocks[i].content + delta
                &&& next.blocks()[i].timer == p.snapshot.blocks[i].timer
                &&& k != i ==> next.blocks()[k] == p.snapshot.blocks[k]
            }
            &&& p.reasoning is None ==> {
                &&& next.p.reasoning->0 == n
                &&& next.blocks().len() == n + 1
                &&& next.blocks()[n].content == delta
                &&& next.blocks()[n].kind == BlockKind::Thinking
                &&& next.blocks()[n].timer.started == Some(now)
                &&& next.blocks()[k] == p.snapshot.blocks[k]
            }
        }),
{
    if p.reasoning is None {
        let n = p.snapshot.blocks.len() as int;
        let delta = event->ReasoningDelta_0@;
        assert(step(p, event, now).blocks()[n].content =~= Seq::<char>::empty() + delta);
        assert(Seq::<char>::empty() + delta =~= delta);
    }
}

/// A part of a call is added to what that call is given, and names it where it says a name;
/// the first part of a call shows a new one. What was said before a call was a remark.
pub proof fn call_delta_law(p: ProjectionView, event: Event, now: u64)
    requires
        well_formed(p),
        has_room(p, event),
        event is ToolCallDelta,
    ensures
        ({
            let next = step(p, event, now);
            let index = event->ToolCallDelta_index;
            let name = event->ToolCallDelta_name.deep_view();
            let more = event->ToolCallDelta_arguments@;
            let i = next.p.drafts[index] as int;
            let block = next.blocks()[i];
            &&& next.p.drafts.contains_key(index)
            &&& 0 <= i < next.blocks().len()
            &&& block.tool is Some
            &&& name is Some ==> block.tool->0.name == name->0
            &&& next.p.reasoning is None
            &&& next.p.assistant == p.assistant
            &&& p.assistant is Some
                && p.assistant->0 != i ==> next.blocks()[p.assistant->0 as int].kind
                == BlockKind::Status
            &&& p.drafts.contains_key(index) ==> {
                &&& i == p.drafts[index]
                &&& next.blocks().len() == p.snapshot.blocks.len()
                &&& block.tool->0.arguments == p.snapshot.blocks[i].tool->0.arguments + more
                &&& name is None ==> block.tool->0.name == p.snapshot.blocks[i].tool->0.name
                &&& block.tool->0.status == p.snapshot.blocks[i].tool->0.status
            }
            &&& !p.drafts.contains_key(index) ==> {
                &&& i == p.snapshot.blocks.len()
                &&& next.blocks().len() == p.snapshot.blocks.len() + 1
                &&& block.kind == BlockKind::Tool
                &&& block.tool->0.arguments == more
                &&& name is None ==> block.tool->0.name.len() == 0
                &&& block.tool->0.call_id is None
                &&& block.tool->0.output is None
                &&& block.tool->0.status == ToolStatus::Streaming
                &&& block.timer.started == Some(now)
            }
            &&& next.state() == p.snapshot.state
        }),
{
    reveal_strlit("content");
    reveal_strlit("arguments");
    assert("content"@.len() != "arguments"@.len());
    let more = event->ToolCallDelta_arguments@;
    let index = event->ToolCallDelta_index;
    assert(Seq::<char>::empty() + more =~= more);
    if p.drafts.contains_key(index) {
        assert(super::replay::is_tool(p.snapshot.blocks, p.drafts[index]));
    }
}

/// A call that is whole takes the place of its draft, with its id, its name and what it is
/// given, and is found under its id from now on.
pub proof fn call_whole_law(p: ProjectionView, event: Event, now: u64, k: int)
    requires
        well_formed(p),
        has_room(p, event),
        event is ToolCallFinished,
        0 <= k < p.snapshot.blocks.len(),
    ensures
        ({
            let next = step(p, event, now);
            let index = event->ToolCallFinished_index;
            let call = event->ToolCallFinished_call.deep_view();
            &&& !p.drafts.contains_key(index) ==> next.blocks() == p.snapshot.blocks && next.p.calls
                == p.calls
            &&& p.drafts.contains_key(index) ==> {
                let i = p.drafts[index] as int;
                &&& !next.p.drafts.contains_key(index)
                &&& next.p.calls.contains_key(call.id)
                &&& next.p.calls[call.id] == i
                &&& next.blocks().len() == p.snapshot.blocks.len()
                &&& next.blocks()[i].tool is Some
                &&& next.blocks()[i].tool->0.call_id == Some(call.id)
                &&& next.blocks()[i].tool->0.name == call.name
                &&& next.blocks()[i].tool->0.arguments == written_pretty(call.arguments)
                &&& next.blocks()[i].tool->0.status == ToolStatus::Pending
                &&& next.blocks()[i].tool->0.output == p.snapshot.blocks[i].tool->0.output
                &&& next.blocks()[i].id == p.snapshot.blocks[i].id
                &&& k != i ==> next.blocks()[k] == p.snapshot.blocks[k]
            }
            &&& next.state() == p.snapshot.state
        }),
{
    let index = event->ToolCallFinished_index;
    if p.drafts.contains_key(index) {
        assert(super::replay::is_tool(p.snapshot.blocks, p.drafts[index]));
    }
}

// ---------------------------------------------------------------------------
// Tools
// ---------------------------------------------------------------------------

/// The block of a call, and the call in it.
pub open spec fn block_of(p: ProjectionView, call_id: Seq<char>) -> BlockView {
    p.snapshot.blocks[p.calls[call_id] as int]
}

/// A tool that starts runs, and its time with it; all other blocks stay as they are.
pub proof fn tool_started_law(p: ProjectionView, event: Event, now: u64, k: int)
    requires
        well_formed(p),
        has_room(p, event),
        event is ToolStarted,
        0 <= k < p.snapshot.blocks.len(),
    ensures
        ({
            let next = step(p, event, now);
            let id = event->ToolStarted_call_id@;
            &&& next.state() == (StateView { phase: "tool"@, ..p.snapshot.state })
            &&& next.p.calls == p.calls
            &&& next.blocks().len() == p.snapshot.blocks.len()
            &&& !p.calls.contains_key(id) || k != p.calls[id] ==> next.blocks()[k]
                == p.snapshot.blocks[k]
            &&& p.calls.contains_key(id) ==> {
                let was = block_of(p, id);
                let after = block_of(next.p, id);
                &&& after.tool == Some(ToolModel { status: ToolStatus::Running, ..was.tool->0 })
                &&& was.timer.started is None ==> after.timer.started == Some(now)
                &&& was.timer.started is Some ==> after.timer == was.timer
                &&& after.timer.elapsed == was.timer.elapsed
                &&& after.id == was.id
            }
        }),
{
}

/// Output of a tool that runs is added to what it has given; output of another is dropped.
pub proof fn tool_output_law(p: ProjectionView, event: Event, now: u64, k: int)
    requires
        well_formed(p),
        has_room(p, event),
        event is ToolOutputDelta,
        0 <= k < p.snapshot.blocks.len(),
    ensures
        ({
            let next = step(p, event, now);
            let id = event->ToolOutputDelta_call_id@;
            let delta = event->ToolOutputDelta_delta@;
            let runs = p.calls.contains_key(id) && block_of(p, id).tool->0.status
                == ToolStatus::Running;
            &&& next.state() == p.snapshot.state
            &&& next.blocks().len() == p.snapshot.blocks.len()
            &&& !runs || k != p.calls[id] ==> next.blocks()[k] == p.snapshot.blocks[k]
            &&& runs ==> {
                let was = block_of(p, id).tool->0;
                let after = block_of(next.p, id).tool->0;
                &&& block_of(next.p, id).tool is Some
                &&& was.output is None ==> after.output == Some(delta)
                &&& was.output is Some ==> after.output == Some(was.output->0 + delta)
                &&& after == (ToolModel { output: after.output, ..was })
            }
        }),
{
    reveal_strlit("content");
    reveal_strlit("arguments");
    reveal_strlit("output");
    assert("content"@.len() != "arguments"@.len());
    assert("output"@.len() != "arguments"@.len());
    assert("output"@.len() != "content"@.len());
    let id = event->ToolOutputDelta_call_id@;
    if p.calls.contains_key(id) {
        assert(super::replay::is_tool(p.snapshot.blocks, p.calls[id]));
    }
}

/// The result of a tool is shown with its call, with what changed, and whether it went well;
/// its time stops.
pub proof fn tool_result_law(p: ProjectionView, event: Event, now: u64, k: int)
    requires
        well_formed(p),
        has_room(p, event),
        event is ToolResult,
        0 <= k < p.snapshot.blocks.len(),
    ensures
        ({
            let next = step(p, event, now);
            let id = event->ToolResult_call_id@;
            &&& next.state() == p.snapshot.state
            &&& next.blocks().len() == p.snapshot.blocks.len()
            &&& !p.calls.contains_key(id) || k != p.calls[id] ==> next.blocks()[k]
                == p.snapshot.blocks[k]
            &&& p.calls.contains_key(id) ==> {
                let was = block_of(p, id);
                let after = block_of(next.p, id);
                &&& after.tool is Some
                &&& after.tool->0.output == Some(event->ToolResult_output@)
                &&& after.tool->0.diff == event->ToolResult_diff.deep_view()
                &&& event->success ==> after.tool->0.status == ToolStatus::Done
                &&& !event->success ==> after.tool->0.status == ToolStatus::Failed
                &&& after.tool->0.name == was.tool->0.name
                &&& after.tool->0.arguments == was.tool->0.arguments
                &&& after.tool->0.call_id == was.tool->0.call_id
                &&& after.timer.started is None
                &&& after.timer.elapsed == was.timer.spec_value(now)
                &&& after.images == was.images
                &&& after.id == was.id
            }
        }),
{
}

/// An image that a tool gave is shown with its call, behind those before it.
pub proof fn tool_image_law(p: ProjectionView, event: Event, now: u64, k: int)
    requires
        well_formed(p),
        has_room(p, event),
        event is ToolImage,
        0 <= k < p.snapshot.blocks.len(),
    ensures
        ({
            let next = step(p, event, now);
            let id = event->ToolImage_call_id@;
            &&& next.state() == p.snapshot.state
            &&& next.blocks().len() == p.snapshot.blocks.len()
            &&& !p.calls.contains_key(id) || k != p.calls[id] ==> next.blocks()[k]
                == p.snapshot.blocks[k]
            &&& p.calls.contains_key(id) ==> {
                let was = block_of(p, id);
                let after = block_of(next.p, id);
                &&& after.images.drop_last() == was.images
                &&& after.images.last() == event->image.deep_view()
                &&& after.tool == was.tool
                &&& after.id == was.id
            }
        }),
{
    let id = event->ToolImage_call_id@;
    if p.calls.contains_key(id) {
        let was = block_of(p, id);
        assert(was.images.push(event->image.deep_view()).drop_last() =~= was.images);
    }
}

/// A question stands with its id and its call until it is answered; the call waits, the
/// others keep what they hold, and the answer is noted.
pub proof fn question_law(p: ProjectionView, event: Event, now: u64, k: int)
    requires
        well_formed(p),
        has_room(p, event),
        event is ApprovalRequested,
        0 <= k < p.snapshot.blocks.len(),
    ensures
        ({
            let next = step(p, event, now);
            let call = event->ApprovalRequested_call.deep_view();
            &&& next.state().approval is Some
            &&& next.state().approval->0.id == event->ApprovalRequested_approval_id@
            &&& next.state().approval->0.call == call
            &&& next.state() == (StateView {
                approval: next.state().approval,
                phase: "approval"@,
                ..p.snapshot.state
            })
            &&& next.blocks().len() == p.snapshot.blocks.len()
            &&& !p.calls.contains_key(call.id) || k != p.calls[call.id] ==> same_but_timer(
                next.blocks()[k],
                p.snapshot.blocks[k],
            )
            &&& p.calls.contains_key(call.id) ==> block_of(next.p, call.id).tool == Some(
                ToolModel {
                    status: ToolStatus::WaitingApproval,
                    ..block_of(p, call.id).tool->0
                },
            )
            &&& is_waiting(p.snapshot.blocks[k]) ==> next.blocks()[k].timer.started is None
        }),
{
    let st = Stage { p, changes: Seq::empty() };
    holding(st, 0, now);
    let held = st.hold_from(0, now);
    let call = event->ApprovalRequested_call.deep_view();
    if p.calls.contains_key(call.id) {
        assert(super::replay::is_tool(p.snapshot.blocks, p.calls[call.id]));
        assert(held.blocks()[p.calls[call.id] as int].tool == block_of(p, call.id).tool);
    }
    assert(held.blocks()[k].tool == p.snapshot.blocks[k].tool);
}

/// An answer to a question ends it, and is noted with its tool.
pub proof fn answered_law(p: ProjectionView, event: Event, now: u64)
    requires
        well_formed(p),
        has_room(p, event),
        event is ApprovalResolved,
    ensures
        ({
            let next = step(p, event, now);
            let tool = event->ApprovalResolved_tool@;
            &&& next.state() == (StateView { approval: None, ..p.snapshot.state })
            &&& next.blocks().drop_last() == p.snapshot.blocks
            &&& next.blocks().last().kind == BlockKind::System
            &&& next.blocks().last().content == match event->decision {
                ApprovalDecision::AllowOnce => "Tool approved: "@ + tool + " · once"@,
                ApprovalDecision::AllowSession => "Tool approved: "@ + tool + " · session"@,
                ApprovalDecision::Deny => "Tool denied: "@ + tool,
            }
        }),
{
    assert(step(p, event, now).blocks().drop_last() =~= p.snapshot.blocks);
}

// ---------------------------------------------------------------------------
// The state
// ---------------------------------------------------------------------------

/// A session has the title that it is given.
pub proof fn title_law(p: ProjectionView, event: Event, now: u64)
    requires
        event is SessionChanged,
    ensures
        step(p, event, now).state() == (StateView {
            title: event->SessionChanged_0@,
            ..p.snapshot.state
        }),
        step(p, event, now).blocks() == p.snapshot.blocks,
        step(p, event, now).p.snapshot.plan == p.snapshot.plan,
        step(p, event, now).p.snapshot.project == p.snapshot.project,
{
}

/// What a session has used is what was told.
pub proof fn usage_law(p: ProjectionView, event: Event, now: u64)
    requires
        event is UsageChanged,
    ensures
        step(p, event, now).state() == (StateView {
            total_tokens: event->total_tokens,
            total_cost: event->total_cost,
            ..p.snapshot.state
        }),
        step(p, event, now).blocks() == p.snapshot.blocks,
        step(p, event, now).p.snapshot.plan == p.snapshot.plan,
        step(p, event, now).p.snapshot.project == p.snapshot.project,
{
}

/// How full the context is, and how much it holds, is what was told.
pub proof fn context_law(p: ProjectionView, event: Event, now: u64)
    requires
        event is ContextChanged,
    ensures
        step(p, event, now).state() == (StateView {
            context_tokens: event->tokens,
            max_context_tokens: event->max_tokens,
            ..p.snapshot.state
        }),
        step(p, event, now).blocks() == p.snapshot.blocks,
        step(p, event, now).p.snapshot.plan == p.snapshot.plan,
        step(p, event, now).p.snapshot.project == p.snapshot.project,
{
}

/// The model and its effort are those that were set.
pub proof fn settings_law(p: ProjectionView, event: Event, now: u64)
    requires
        event is SettingsChanged,
    ensures
        step(p, event, now).state() == (StateView {
            model: event->SettingsChanged_model@,
            reasoning_effort: event->reasoning_effort,
            ..p.snapshot.state
        }),
        step(p, event, now).blocks() == p.snapshot.blocks,
        step(p, event, now).p.snapshot.plan == p.snapshot.plan,
        step(p, event, now).p.snapshot.project == p.snapshot.project,
{
}

/// The settings have the number that was told.
pub proof fn revision_law(p: ProjectionView, event: Event, now: u64)
    requires
        event is SettingsRevision,
    ensures
        step(p, event, now).state() == (StateView {
            settings_revision: event->SettingsRevision_0,
            ..p.snapshot.state
        }),
        step(p, event, now).blocks() == p.snapshot.blocks,
        step(p, event, now).p.snapshot.plan == p.snapshot.plan,
        step(p, event, now).p.snapshot.project == p.snapshot.project,
{
}

/// A notice is shown as it is.
pub proof fn notice_law(p: ProjectionView, event: Event, now: u64)
    requires
        event is Notice,
    ensures
        step(p, event, now).state() == (StateView {
            notice: Some(event->Notice_0@),
            ..p.snapshot.state
        }),
        step(p, event, now).blocks() == p.snapshot.blocks,
        step(p, event, now).p.snapshot.plan == p.snapshot.plan,
        step(p, event, now).p.snapshot.project == p.snapshot.project,
{
}

/// A request that is tried again says when.
pub proof fn retry_law(p: ProjectionView, event: Event, now: u64)
    requires
        event is Retrying,
    ensures
        step(p, event, now).state() == (StateView {
            phase: "retrying"@,
            notice: Some("retrying in "@ + digits(event->seconds as nat) + "s"@),
            ..p.snapshot.state
        }),
        step(p, event, now).blocks() == p.snapshot.blocks,
        step(p, event, now).p.snapshot.plan == p.snapshot.plan,
        step(p, event, now).p.snapshot.project == p.snapshot.project,
{
}

/// A summary that is being made is noticed.
pub proof fn compacting_law(p: ProjectionView, event: Event, now: u64)
    requires
        event is CompactionStarted,
    ensures
        step(p, event, now).state() == (StateView {
            phase: "compacting"@,
            notice: Some("compacting context"@),
            ..p.snapshot.state
        }),
        step(p, event, now).blocks() == p.snapshot.blocks,
        step(p, event, now).p.snapshot.plan == p.snapshot.plan,
        step(p, event, now).p.snapshot.project == p.snapshot.project,
{
}

/// A turn that starts is the one that runs, without the fault of the one before.
pub proof fn started_law(p: ProjectionView, event: Event, now: u64)
    requires
        event is OperationStarted,
    ensures
        step(p, event, now).state() == (StateView {
            turn_id: Some(event->OperationStarted_id@),
            compacting: event->compacting,
            phase: if event->compacting {
                "compacting"@
            } else {
                "connecting"@
            },
            error: None,
            ..p.snapshot.state
        }),
        step(p, event, now).blocks() == p.snapshot.blocks,
        step(p, event, now).p.snapshot.plan == p.snapshot.plan,
        step(p, event, now).p.snapshot.project == p.snapshot.project,
{
}

/// An answer is counted from nothing.
pub proof fn counted_law(p: ProjectionView, event: Event, now: u64)
    requires
        event is GenerationStarted,
    ensures
        step(p, event, now).state() == (StateView {
            output_tokens: 0,
            generation_ms: 0,
            error: None,
            notice: None,
            ..p.snapshot.state
        }),
        step(p, event, now).blocks() == p.snapshot.blocks,
        step(p, event, now).p.snapshot.plan == p.snapshot.plan,
        step(p, event, now).p.snapshot.project == p.snapshot.project,
{
}

/// A request that was taken waits for its answer.
pub proof fn waiting_law(p: ProjectionView, event: Event, now: u64)
    requires
        event is ResponseHeadersReceived,
    ensures
        step(p, event, now).state() == (StateView {
            phase: "waiting"@,
            notice: None,
            ..p.snapshot.state
        }),
        step(p, event, now).blocks() == p.snapshot.blocks,
        step(p, event, now).p.snapshot.plan == p.snapshot.plan,
        step(p, event, now).p.snapshot.project == p.snapshot.project,
{
}

/// An answer that starts is being written.
pub proof fn writing_law(p: ProjectionView, event: Event, now: u64)
    requires
        event is ResponseStarted,
    ensures
        step(p, event, now).state() == (StateView {
            phase: "generating"@,
            ..p.snapshot.state
        }),
        step(p, event, now).blocks() == p.snapshot.blocks,
        step(p, event, now).p.snapshot.plan == p.snapshot.plan,
        step(p, event, now).p.snapshot.project == p.snapshot.project,
{
}

/// What a model wrote and how long it took add up.
pub proof fn written_law(p: ProjectionView, event: Event, now: u64)
    requires
        event is ModelResponseFinished,
        has_room(p, event),
    ensures
        step(p, event, now).state().output_tokens == p.snapshot.state.output_tokens
            + event->output_tokens,
        step(p, event, now).state().generation_ms == p.snapshot.state.generation_ms
            + event->duration_ms,
        step(p, event, now).blocks() == p.snapshot.blocks,
{
}

/// A plan is shown as it is.
pub proof fn plan_shown_law(p: ProjectionView, event: Event, now: u64)
    requires
        event is PlanChanged,
    ensures
        step(p, event, now).p.snapshot.plan == event->PlanChanged_0.deep_view(),
        step(p, event, now).state() == p.snapshot.state,
        step(p, event, now).blocks() == p.snapshot.blocks,
        step(p, event, now).p.snapshot.project == p.snapshot.project,
{
}

/// A project is shown without what changed in one file.
pub proof fn project_shown_law(p: ProjectionView, event: Event, now: u64)
    requires
        event is ProjectChanged,
    ensures
        ({
            let given = event->ProjectChanged_0.deep_view();
            let shown = step(p, event, now).p.snapshot.project;
            &&& shown.cwd == given.cwd
            &&& shown.context == given.context
            &&& shown.git_status == given.git_status
            &&& shown.git_diff.len() == 0
            &&& shown.git_diff_path is None
        }),
        step(p, event, now).state() == p.snapshot.state,
        step(p, event, now).blocks() == p.snapshot.blocks,
        step(p, event, now).p.snapshot.plan == p.snapshot.plan,
{
}

/// A session that is ready changes nothing that is seen.
pub proof fn ready_law(p: ProjectionView, event: Event, now: u64)
    requires
        event is Ready,
    ensures
        step(p, event, now).changes.len() == 0,
        step(p, event, now).blocks() == p.snapshot.blocks,
        step(p, event, now).state() == p.snapshot.state,
        step(p, event, now).p.snapshot.plan == p.snapshot.plan,
        step(p, event, now).p.snapshot.project == p.snapshot.project,
{
}

/// A barrier changes nothing that is seen.
pub proof fn barrier_law(p: ProjectionView, event: Event, now: u64)
    requires
        event is Barrier,
    ensures
        step(p, event, now).changes.len() == 0,
        step(p, event, now).blocks() == p.snapshot.blocks,
        step(p, event, now).state() == p.snapshot.state,
        step(p, event, now).p.snapshot.plan == p.snapshot.plan,
        step(p, event, now).p.snapshot.project == p.snapshot.project,
{
}

/// A wish to look at the project again changes nothing that is seen.
pub proof fn refresh_law(p: ProjectionView, event: Event, now: u64)
    requires
        event is RefreshProject,
    ensures
        step(p, event, now).changes.len() == 0,
        step(p, event, now).blocks() == p.snapshot.blocks,
        step(p, event, now).state() == p.snapshot.state,
        step(p, event, now).p.snapshot.plan == p.snapshot.plan,
        step(p, event, now).p.snapshot.project == p.snapshot.project,
{
}

/// A prompt that was not taken changes nothing that is seen.
pub proof fn rejected_law(p: ProjectionView, event: Event, now: u64)
    requires
        event is PromptRejected,
    ensures
        step(p, event, now).changes.len() == 0,
        step(p, event, now).blocks() == p.snapshot.blocks,
        step(p, event, now).state() == p.snapshot.state,
        step(p, event, now).p.snapshot.plan == p.snapshot.plan,
        step(p, event, now).p.snapshot.project == p.snapshot.project,
{
}

/// What was saved changes nothing that is seen.
pub proof fn saved_law(p: ProjectionView, event: Event, now: u64)
    requires
        event is Saved,
    ensures
        step(p, event, now).changes.len() == 0,
        step(p, event, now).blocks() == p.snapshot.blocks,
        step(p, event, now).state() == p.snapshot.state,
        step(p, event, now).p.snapshot.plan == p.snapshot.plan,
        step(p, event, now).p.snapshot.project == p.snapshot.project,
{
}

} // verus!
