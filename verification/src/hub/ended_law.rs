//! What is seen where a turn ends, where messages are delivered and where a summary is noted.
use super::model::{
    compaction_place, end_reason, end_turn, failed, is_open, last_user, note_compaction,
    step, ProjectionView, Stage,
};
use super::state::{BlockKind, BlockView, StateView, ToolStatus};
use crate::runtime::event::Event;
use vstd::prelude::*;
use vstd::string::*;

verus! {

/// All but the blocks and what was sent is the same.
pub open spec fn same_but_blocks(a: Stage, b: Stage) -> bool {
    &&& a.blocks().len() == b.blocks().len()
    &&& a.state() == b.state()
    &&& a.p.snapshot.plan == b.p.snapshot.plan
    &&& a.p.snapshot.project == b.p.snapshot.project
    &&& a.p.snapshot.session_id == b.p.snapshot.session_id
    &&& a.p.assistant == b.p.assistant
    &&& a.p.reasoning == b.p.reasoning
    &&& a.p.drafts == b.p.drafts
    &&& a.p.calls == b.p.calls
    &&& a.p.next_id == b.p.next_id
}

proof fn failing(st: Stage, i: int, reason: Seq<char>, now: u64)
    requires
        0 <= i,
    ensures
        same_but_blocks(st.fail_from(i, reason, now), st),
        forall|k: int|
            0 <= k < st.blocks().len() ==> #[trigger] st.fail_from(i, reason, now).blocks()[k]
                == if k >= i && is_open(st.blocks()[k]) {
                failed(st.blocks()[k], reason, now)
            } else {
                st.blocks()[k]
            },
    decreases st.blocks().len() - i,
{
    if i < st.blocks().len() {
        let block = st.blocks()[i];
        if is_open(block) {
            failing(st.set(i, failed(block, reason, now)), i + 1, reason, now);
        } else {
            failing(st, i + 1, reason, now);
        }
    }
}

proof fn delivering(st: Stage, i: int, left: nat)
    requires
        0 <= i,
    ensures
        same_but_blocks(st.deliver_from(i, left), st),
        forall|k: int|
            0 <= k < st.blocks().len() ==> #[trigger] st.deliver_from(i, left).blocks()[k] == (
            BlockView { queued: st.deliver_from(i, left).blocks()[k].queued, ..st.blocks()[k] }),
    decreases st.blocks().len() - i,
{
    if i < st.blocks().len() && left > 0 {
        let block = st.blocks()[i];
        if block.queued {
            delivering(st.set(i, BlockView { queued: false, ..block }), i + 1, (left - 1) as nat);
        } else {
            delivering(st, i + 1, left);
        }
    }
}

/// A tool that ended, or none.
pub open spec fn is_over(block: BlockView) -> bool {
    block.tool is None || block.tool->0.status == ToolStatus::Done || block.tool->0.status
        == ToolStatus::Failed
}

/// No tool is left open where a turn is closed: one that was not over has failed, with what
/// it gave or else with the reason, and its time stands; what was over stays as it was.
pub proof fn closed_law(st: Stage, reason: Seq<char>, now: u64, k: int)
    requires
        st.p.reasoning is Some ==> st.p.reasoning->0 < st.blocks().len(),
        0 <= k < st.blocks().len(),
    ensures
        ({
            let was = st.blocks()[k];
            let seen = st.close_turn(reason, now).blocks()[k];
            &&& is_over(seen)
            &&& seen.id == was.id
            &&& seen.kind == was.kind
            &&& seen.content == was.content
            &&& seen.images == was.images
            &&& seen.queued == was.queued
            &&& is_over(was) ==> seen.tool == was.tool
            &&& !is_over(was) ==> {
                &&& seen.tool->0.status == ToolStatus::Failed
                &&& was.tool->0.output is Some ==> seen.tool->0.output == was.tool->0.output
                &&& was.tool->0.output is None ==> seen.tool->0.output == Some(reason)
                &&& seen.tool->0.name == was.tool->0.name
                &&& seen.tool->0.arguments == was.tool->0.arguments
                &&& seen.timer.started is None
            }
        }),
        st.close_turn(reason, now).state() == st.state(),
        st.close_turn(reason, now).p.assistant is None,
        st.close_turn(reason, now).p.reasoning is None,
        st.close_turn(reason, now).blocks().len() == st.blocks().len(),
{
    let first = st.pause_reasoning(now);
    let open = Stage {
        p: ProjectionView { assistant: None, drafts: Map::empty(), ..first.p },
        changes: first.changes,
    };
    failing(open, 0, reason, now);
    assert(open.blocks()[k].tool == st.blocks()[k].tool);
    assert(st.close_turn(reason, now).blocks()[k] == if is_open(open.blocks()[k]) {
        failed(open.blocks()[k], reason, now)
    } else {
        open.blocks()[k]
    });
}

/// What is delivered waits no longer, and nothing else of any block changes; so many are
/// counted off.
pub proof fn delivered_law(st: Stage, count: usize, k: int)
    requires
        0 <= k < st.blocks().len(),
    ensures
        ({
            let next = st.deliver(count);
            &&& next.blocks().len() == st.blocks().len()
            &&& next.blocks()[k] == (BlockView {
                queued: next.blocks()[k].queued,
                ..st.blocks()[k]
            })
            &&& next.state() == (StateView {
                queued_steers: next.state().queued_steers,
                ..st.state()
            })
            &&& st.state().queued_steers >= count ==> next.state().queued_steers
                == st.state().queued_steers - count
            &&& st.state().queued_steers < count ==> next.state().queued_steers == 0
        }),
{
    delivering(st, 0, count as nat);
}

/// A turn that is done rests, and a fault from before stays; one that failed shows its fault,
/// and one that was stopped says so.
pub proof fn rest_law(st: Stage, event: Event, now: u64)
    requires
        st.p.reasoning is Some ==> st.p.reasoning->0 < st.blocks().len(),
        st.blocks().len() > 0,
        event is GenerationFinished || event is GenerationCancelled || event is Error,
    ensures
        ({
            let next = end_turn(st, event, now);
            let after = next.state();
            let n = st.blocks().len() as int;
            &&& after.turn_id is None
            &&& after.compacting == false
            &&& after.approval is None
            &&& after.notice is None
            &&& after.title == st.state().title
            &&& after.model == st.state().model
            &&& after.total_tokens == st.state().total_tokens
            &&& event is Error ==> after.phase == "error"@ && after.error == Some(event->Error_0@)
            &&& !(event is Error) ==> after.phase == "idle"@ && after.error == st.state().error
            &&& event is GenerationFinished ==> next.blocks().len() == n
            &&& event is GenerationCancelled ==> next.blocks().len() == n + 1
                && next.blocks()[n].kind == BlockKind::System && next.blocks()[n].content
                == "cancelled by user"@
            &&& event is Error ==> next.blocks().len() == n + 1 && next.blocks()[n].kind
                == BlockKind::Error && next.blocks()[n].content == event->Error_0@
            &&& event is Error ==> end_reason(event) == "Error: "@ + event->Error_0@
            &&& !(event is Error) ==> end_reason(event) == "cancelled by user"@
        }),
{
    closed_law(st, end_reason(event), now, 0);
    delivered_law(st.close_turn(end_reason(event), now), usize::MAX, 0);
}

proof fn last_user_is(blocks: Seq<BlockView>)
    ensures
        ({
            let i = last_user(blocks);
            &&& -1 <= i < blocks.len()
            &&& i >= 0 ==> blocks[i].kind == BlockKind::User || blocks[i].kind == BlockKind::Steer
            &&& forall|k: int|
                i < k < blocks.len() ==> (#[trigger] blocks[k]).kind != BlockKind::User
                    && blocks[k].kind != BlockKind::Steer
        }),
    decreases blocks.len(),
{
    if blocks.len() > 0 && blocks.last().kind != BlockKind::User && blocks.last().kind
        != BlockKind::Steer {
        last_user_is(blocks.drop_last());
        assert forall|k: int| last_user(blocks) < k < blocks.len() implies (
        #[trigger] blocks[k]).kind != BlockKind::User && blocks[k].kind != BlockKind::Steer by {
            if k < blocks.len() - 1 {
                assert(blocks.drop_last()[k] == blocks[k]);
            }
        }
    }
}

/// A person said it.
pub open spec fn was_said(block: BlockView) -> bool {
    block.kind == BlockKind::User || block.kind == BlockKind::Steer
}

/// A summary is noted in front of the last thing that a person said where a turn goes on, and
/// else at the end.
pub proof fn summary_place_law(p: ProjectionView, k: int)
    ensures
        ({
            let blocks = p.snapshot.blocks;
            let at = compaction_place(p);
            let goes_on = p.snapshot.state.turn_id is Some && !p.snapshot.state.compacting;
            &&& 0 <= at <= blocks.len()
            &&& !goes_on ==> at == blocks.len()
            &&& goes_on && at < blocks.len() ==> was_said(blocks[at])
            &&& goes_on && at < k < blocks.len() ==> !was_said(blocks[k])
            &&& goes_on && at == blocks.len() && 0 <= k < at ==> !was_said(blocks[k])
        }),
{
    last_user_is(p.snapshot.blocks);
}

/// A summary is noted with its text, and the blocks around it stay.
pub proof fn summary_noted_law(st: Stage, summary: Seq<char>, k: int)
    requires
        0 <= k < st.blocks().len(),
    ensures
        ({
            let next = note_compaction(st, summary);
            let at = compaction_place(st.p);
            &&& next.blocks().len() == st.blocks().len() + 1
            &&& next.blocks()[at].kind == BlockKind::System
            &&& next.blocks()[at].content == "context compacted"@
            &&& next.blocks()[at].summary == Some(summary)
            &&& k < at ==> next.blocks()[k] == st.blocks()[k]
            &&& at <= k ==> next.blocks()[k + 1] == st.blocks()[k]
            &&& next.state() == (StateView { notice: None, ..st.state() })
        }),
{
    summary_place_law(st.p, k);
}

/// An answer that is done is seen so.
pub proof fn done_seen_law(p: ProjectionView, event: Event, now: u64)
    requires
        event is GenerationFinished,
    ensures
        ({
            let st = Stage { p, changes: Seq::empty() };
            let next = end_turn(st, event, now);
            &&& step(p, event, now).blocks() == next.blocks()
            &&& step(p, event, now).state() == next.state()
            &&& step(p, event, now).p.assistant == next.p.assistant
            &&& step(p, event, now).p.reasoning == next.p.reasoning
        }),
{
}

/// A turn that was stopped is seen so.
pub proof fn stop_seen_law(p: ProjectionView, event: Event, now: u64)
    requires
        event is GenerationCancelled,
    ensures
        ({
            let st = Stage { p, changes: Seq::empty() };
            let next = end_turn(st, event, now);
            &&& step(p, event, now).blocks() == next.blocks()
            &&& step(p, event, now).state() == next.state()
            &&& step(p, event, now).p.assistant == next.p.assistant
            &&& step(p, event, now).p.reasoning == next.p.reasoning
        }),
{
}

/// A fault is seen so.
pub proof fn fault_seen_law(p: ProjectionView, event: Event, now: u64)
    requires
        event is Error,
    ensures
        ({
            let st = Stage { p, changes: Seq::empty() };
            let next = end_turn(st, event, now);
            &&& step(p, event, now).blocks() == next.blocks()
            &&& step(p, event, now).state() == next.state()
            &&& step(p, event, now).p.assistant == next.p.assistant
            &&& step(p, event, now).p.reasoning == next.p.reasoning
        }),
{
}

/// A summary is seen with its text.
pub proof fn summary_seen_law(p: ProjectionView, event: Event, now: u64)
    requires
        event is ContextCompacted,
    ensures
        ({
            let st = Stage { p, changes: Seq::empty() };
            let next = note_compaction(st, event->ContextCompacted_summary@);
            &&& step(p, event, now).blocks() == next.blocks()
            &&& step(p, event, now).state() == next.state()
            &&& step(p, event, now).p.assistant == next.p.assistant
            &&& step(p, event, now).p.reasoning == next.p.reasoning
        }),
{
}

/// Messages that are delivered are seen so.
pub proof fn delivery_seen_law(p: ProjectionView, event: Event, now: u64)
    requires
        event is SteersDelivered,
    ensures
        ({
            let st = Stage { p, changes: Seq::empty() };
            let next = st.deliver(event->SteersDelivered_0);
            &&& step(p, event, now).blocks() == next.blocks()
            &&& step(p, event, now).state() == next.state()
            &&& step(p, event, now).p.assistant == next.p.assistant
            &&& step(p, event, now).p.reasoning == next.p.reasoning
        }),
{
}

/// A history is seen with its messages.
pub proof fn history_seen_law(p: ProjectionView, event: Event, now: u64)
    requires
        event is History,
    ensures
        ({
            let st = Stage { p, changes: Seq::empty() };
            let next = st.add_messages(event->History_0.deep_view());
            &&& step(p, event, now).blocks() == next.blocks()
            &&& step(p, event, now).state() == next.state()
            &&& step(p, event, now).p.assistant == next.p.assistant
            &&& step(p, event, now).p.reasoning == next.p.reasoning
        }),
{
}

} // verus!
