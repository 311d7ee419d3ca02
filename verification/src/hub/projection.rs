//! The projection of a session's events onto what a client sees.
use crate::hub::model::{
    accept_message, add_call_delta, add_delta, add_image, add_output, append_field,
    compaction_place, demote_answer, effect, end_reason, end_turn, failed, finish_call, finish_tool,
    is_open, is_waiting, last_user, new_block, note_compaction, open_draft, request_approval,
    start_tool, step, touches_state, ProjectionView, Stage,
};
use crate::tables::{table, table_map, TextTable, IndexTable};
use crate::hub::queue::{counted, keeps_order, order_law, queue_law};
use crate::hub::replay::{
    accept_message_keeps, add_call_keeps, add_message_keeps, added_call, append_keeps, at_seq,
    close_turn_keeps, deliver_keeps, effect_keeps, end_turn_keeps, finish_call_keeps, good,
    has_room, is_tool, message_blocks, messages_blocks, mirrors, note_compaction_keeps,
    open_draft_keeps, pause_keeps, push_keeps, replay, replay_law, request_approval_keeps, room,
    set_keeps, well_formed,
};
use crate::hub::state::{
    empty_state, Approval, Block, BlockKind, BlockView, Change, SessionState, Snapshot,
    SnapshotView, StateView, Timer, ToolStatus, ToolView,
};
use crate::json;
use crate::project::{empty_project, ProjectState};
use crate::runtime::event::{ApprovalDecision, Event};
use crate::runtime::message::{clone_images, ImageContent, Message, MessageView, ToolCall};
use crate::runtime::{CANCELLED_BY_USER, COMPACTION_MARKER};
use crate::text;
use vstd::prelude::*;
use vstd::string::*;

verus! {

/// A snapshot, and the places that the next deltas go to.
#[derive(Debug)]
pub struct Projection {
    snapshot: Snapshot,
    assistant: Option<usize>,
    reasoning: Option<usize>,
    drafts: IndexTable,
    calls: TextTable,
    next_id: u64,
}

impl View for Projection {
    type V = ProjectionView;

    closed spec fn view(&self) -> ProjectionView {
        ProjectionView {
            snapshot: self.snapshot.deep_view(),
            assistant: self.assistant,
            reasoning: self.reasoning,
            drafts: self.drafts@,
            calls: self.calls@,
            next_id: self.next_id,
        }
    }
}

/// The snapshot of a session in which nothing has happened.
pub open spec fn first_snapshot(session_id: Seq<char>) -> SnapshotView {
    SnapshotView {
        session_id,
        seq: 0,
        blocks: Seq::empty(),
        state: StateView { title: session_id, phase: "idle"@, ..empty_state() },
        plan: None,
        project: empty_project(),
    }
}

/// The id of the block at an index, if there is one.
pub open spec fn block_id(blocks: Seq<BlockView>, index: Option<usize>) -> Option<Seq<char>> {
    match index {
        Some(i) => Some(blocks[i as int].id),
        None => None,
    }
}

/// A projection and the changes so far.
spec fn stage(projection: Projection, changes: Vec<Change>) -> Stage {
    Stage { p: projection@, changes: changes.deep_view() }
}

proof fn deep_push<T: DeepView>(before: Seq<T>, after: Vec<T>, item: T)
    requires
        after@ == before.push(item),
    ensures
        after.deep_view() == Seq::new(before.len(), |i: int| before[i].deep_view()).push(
            item.deep_view(),
        ),
{
    assert(after.deep_view() =~= Seq::new(before.len(), |i: int| before[i].deep_view()).push(
        item.deep_view(),
    ));
}

impl Projection {
    /// The invariant: see `well_formed`; and as many messages are told to wait as blocks do.
    pub open spec fn wf(&self) -> bool {
        well_formed(self@) && counted(self@)
    }

    pub fn new(session_id: String) -> (result: Self)
        ensures
            result.wf(),
            result@ == (ProjectionView {
                snapshot: first_snapshot(session_id@),
                assistant: None,
                reasoning: None,
                drafts: Map::empty(),
                calls: Map::empty(),
                next_id: 0,
            }),
    {
        let mut state = SessionState::default();
        state.title = session_id.clone();
        state.phase = "idle".to_owned();
        let blocks: Vec<Block> = Vec::new();
        assert(blocks.deep_view() =~= Seq::empty());
        let snapshot = Snapshot {
            session_id,
            seq: 0,
            blocks,
            state,
            plan: None,
            project: ProjectState::default(),
            assistant_id: None,
            reasoning_id: None,
            drafts: Vec::new(),
        };
        Projection {
            snapshot,
            assistant: None,
            reasoning: None,
            drafts: IndexTable::new(),
            calls: TextTable::new(),
            next_id: 0,
        }
    }

    fn fresh_block(&self, kind: BlockKind, content: String) -> (block: Block)
        requires
            well_formed(self@),
            room(self@, 1),
        ensures
            block.deep_view() == new_block(self@, kind, content@),
    {
        let images: Vec<ImageContent> = Vec::new();
        assert(images.deep_view() =~= Seq::empty());
        Block {
            id: text::decimal(self.next_id + 1),
            kind,
            content,
            model: String::new(),
            images,
            summary: None,
            tool: None,
            timer: Timer::default(),
            queued: false,
        }
    }

    fn push(
        &mut self,
        block: Block,
        changes: &mut Vec<Change>,
        Ghost(base): Ghost<SnapshotView>,
    ) -> (index: usize)
        requires
            good(base, stage(*old(self), *old(changes))),
            room(old(self)@, 1),
            block.deep_view().id == text::digits((old(self)@.next_id + 1) as nat),
        ensures
            stage(*final(self), *final(changes)) == stage(*old(self), *old(changes)).push(
                block.deep_view(),
            ),
            good(base, stage(*final(self), *final(changes))),
            index == old(self)@.snapshot.blocks.len(),
    {
        let ghost st = stage(*self, *changes);
        let index: usize = self.snapshot.blocks.len();
        let ghost view = block.deep_view();
        let copy = block.clone();
        let change = Change::Insert { before: None, block: copy };
        let ghost sent = changes@;
        changes.push(change);
        proof {
            deep_push(sent, *changes, change);
        }
        let ghost seen = self.snapshot.blocks@;
        self.snapshot.blocks.push(block);
        self.next_id = self.next_id + 1;
        proof {
            deep_push(seen, self.snapshot.blocks, block);
            assert(st.blocks().insert(index as int, view) =~= st.blocks().push(view));
            assert(stage(*self, *changes).p.snapshot.blocks == st.push(view).p.snapshot.blocks);
            assert(stage(*self, *changes) == st.push(view));
            push_keeps(base, st, view);
        }
        index
    }

    fn set(
        &mut self,
        index: usize,
        block: Block,
        changes: &mut Vec<Change>,
        Ghost(base): Ghost<SnapshotView>,
    )
        requires
            good(base, stage(*old(self), *old(changes))),
            index < old(self)@.snapshot.blocks.len(),
            block.deep_view().id == old(self)@.snapshot.blocks[index as int].id,
            old(self)@.snapshot.blocks[index as int].tool is Some ==> block.deep_view().tool is Some,
        ensures
            stage(*final(self), *final(changes)) == stage(*old(self), *old(changes)).set(
                index as int,
                block.deep_view(),
            ),
            good(base, stage(*final(self), *final(changes))),
    {
        let ghost st = stage(*self, *changes);
        let ghost view = block.deep_view();
        let change = Change::Replace { block: block.clone() };
        let ghost sent = changes@;
        changes.push(change);
        proof {
            deep_push(sent, *changes, change);
        }
        self.snapshot.blocks[index] = block;
        proof {
            assert(self.snapshot.blocks.deep_view() =~= st.blocks().update(index as int, view));
            assert(stage(*self, *changes) == st.set(index as int, view));
            set_keeps(base, st, index as int, view);
        }
    }

    /// More text in a field of a block: see `append_field`.
    fn append(
        &mut self,
        index: usize,
        field: &str,
        delta: &str,
        changes: &mut Vec<Change>,
        Ghost(base): Ghost<SnapshotView>,
    )
        requires
            good(base, stage(*old(self), *old(changes))),
            index < old(self)@.snapshot.blocks.len(),
        ensures
            stage(*final(self), *final(changes)) == stage(*old(self), *old(changes)).append(
                index as int,
                field@,
                delta@,
            ),
            good(base, stage(*final(self), *final(changes))),
    {
        let ghost st = stage(*self, *changes);
        let id = self.snapshot.blocks[index].id.clone();
        if text::same(field, "content") {
            self.snapshot.blocks[index].content.append(delta);
        } else {
            match &mut self.snapshot.blocks[index].tool {
                Some(tool) => if text::same(field, "arguments") {
                    tool.arguments.append(delta);
                } else {
                    match &mut tool.output {
                        Some(output) => {
                            output.append(delta);
                        },
                        None => {
                            tool.output = Some(delta.to_owned());
                        },
                    }
                },
                None => {},
            }
        }
        proof {
            assert(self.snapshot.blocks.deep_view() =~= st.blocks().update(
                index as int,
                append_field(st.blocks()[index as int], field@, delta@),
            ));
        }
        let change = Change::Append {
            block_id: id,
            field: field.to_owned(),
            text: delta.to_owned(),
        };
        let ghost sent = changes@;
        changes.push(change);
        proof {
            deep_push(sent, *changes, change);
            assert(stage(*self, *changes) == st.append(index as int, field@, delta@));
            append_keeps(base, st, index as int, field@, delta@);
        }
    }

    fn pause_reasoning(
        &mut self,
        changes: &mut Vec<Change>,
        now: u64,
        Ghost(base): Ghost<SnapshotView>,
    )
        requires
            good(base, stage(*old(self), *old(changes))),
        ensures
            stage(*final(self), *final(changes)) == stage(
                *old(self),
                *old(changes),
            ).pause_reasoning(now),
            good(base, stage(*final(self), *final(changes))),
            final(self)@.reasoning is None,
            final(self)@.next_id == old(self)@.next_id,
    {
        let ghost st = stage(*self, *changes);
        proof {
            pause_keeps(base, st, now);
        }
        match self.reasoning {
            Some(index) => {
                self.reasoning = None;
                let mut block = self.snapshot.blocks[index].clone();
                block.timer.pause(now);
                proof {
                    assert(good(base, stage(*self, *changes)));
                    assert(block.deep_view() == (BlockView {
                        timer: st.blocks()[index as int].timer.paused(now),
                        ..st.blocks()[index as int]
                    }));
                }
                self.set(index, block, changes, Ghost(base));
            },
            None => {},
        }
    }

    fn deliver(
        &mut self,
        count: usize,
        changes: &mut Vec<Change>,
        Ghost(base): Ghost<SnapshotView>,
    )
        requires
            good(base, stage(*old(self), *old(changes))),
        ensures
            stage(*final(self), *final(changes)) == stage(*old(self), *old(changes)).deliver(count),
            good(base, stage(*final(self), *final(changes))),
    {
        let ghost st = stage(*self, *changes);
        let mut left: usize = count;
        let mut index: usize = 0;
        while index < self.snapshot.blocks.len() && left > 0
            invariant
                good(base, stage(*self, *changes)),
                index <= self@.snapshot.blocks.len(),
                stage(*self, *changes).deliver_from(index as int, left as nat) == st.deliver_from(
                    0,
                    count as nat,
                ),
            decreases self@.snapshot.blocks.len() - index,
        {
            assert(self.snapshot.blocks@.len() == self@.snapshot.blocks.len());
            if self.snapshot.blocks[index].queued {
                let mut block = self.snapshot.blocks[index].clone();
                block.queued = false;
                self.set(index, block, changes, Ghost(base));
                left -= 1;
            }
            index += 1;
        }
        proof {
            assert(self.snapshot.blocks@.len() == self@.snapshot.blocks.len());
            assert(stage(*self, *changes) == st.deliver_from(0, count as nat));
        }
        let waiting: usize = self.snapshot.state.queued_steers;
        self.snapshot.state.queued_steers = if waiting >= count {
            waiting - count
        } else {
            0
        };
    }

    fn add_calls(
        &mut self,
        calls: &Vec<ToolCall>,
        changes: &mut Vec<Change>,
        Ghost(base): Ghost<SnapshotView>,
    )
        requires
            good(base, stage(*old(self), *old(changes))),
            room(old(self)@, calls@.len()),
        ensures
            stage(*final(self), *final(changes)) == stage(*old(self), *old(changes)).add_calls(
                calls.deep_view(),
            ),
            good(base, stage(*final(self), *final(changes))),
    {
        let ghost st = stage(*self, *changes);
        let ghost all = calls.deep_view();
        let mut i: usize = 0;
        assert(all.skip(0) =~= all);
        while i < calls.len()
            invariant
                all == calls.deep_view(),
                i <= calls@.len(),
                good(base, stage(*self, *changes)),
                room(self@, (calls@.len() - i) as nat),
                stage(*self, *changes).add_calls(all.skip(i as int)) == st.add_calls(all),
            decreases calls@.len() - i,
        {
            let ghost here = stage(*self, *changes);
            let ghost call_view = all[i as int];
            let call = &calls[i];
            let mut block = self.fresh_block(BlockKind::Tool, String::new());
            block.tool = Some(
                ToolView {
                    call_id: Some(call.id.clone()),
                    name: call.name.clone(),
                    arguments: json::write_pretty(&call.arguments),
                    output: None,
                    diff: None,
                    status: ToolStatus::Pending,
                },
            );
            let ghost view = block.deep_view();
            let index: usize = self.push(block, changes, Ghost(base));
            self.calls.insert(call.id.clone(), index);
            proof {
                let rest = all.skip(i as int);
                assert(rest[0] == call_view);
                assert(rest.skip(1) =~= all.skip(i + 1));
                add_call_keeps(base, here, call_view);
                reveal_with_fuel(Stage::add_calls, 2);
                assert(stage(*self, *changes) == added_call(here, call_view));
            }
            i += 1;
        }
        assert(all.skip(i as int) =~= Seq::empty());
    }

    fn add_result(
        &mut self,
        call_id: &str,
        content: &String,
        image: &Option<ImageContent>,
        diff: &Option<String>,
        changes: &mut Vec<Change>,
        Ghost(base): Ghost<SnapshotView>,
    )
        requires
            good(base, stage(*old(self), *old(changes))),
        ensures
            stage(*final(self), *final(changes)) == stage(*old(self), *old(changes)).add_result(
                call_id@,
                content@,
                image.deep_view(),
                diff.deep_view(),
            ),
            good(base, stage(*final(self), *final(changes))),
            final(self)@.next_id == old(self)@.next_id,
    {
        match self.calls.get(call_id) {
            Some(index) => {
                assert(is_tool(self@.snapshot.blocks, self@.calls[call_id@]));
                let mut block = self.snapshot.blocks[index].clone();
                let ghost before = block.deep_view();
                match image {
                    Some(image) => {
                        let ghost images = block.images@;
                        let copy = image.clone();
                        block.images.push(copy);
                        proof {
                            deep_push(images, block.images, copy);
                        }
                    },
                    None => {},
                }
                match block.tool {
                    Some(tool) => {
                        let mut tool = tool;
                        tool.output = Some(content.clone());
                        tool.diff = diff.clone();
                        tool.status = if text::begins_with(content.as_str(), "Error:") {
                            ToolStatus::Failed
                        } else {
                            ToolStatus::Done
                        };
                        block.tool = Some(tool);
                    },
                    None => {},
                }
                self.set(index, block, changes, Ghost(base));
            },
            None => {},
        }
    }

    fn add_message(
        &mut self,
        message: &Message,
        changes: &mut Vec<Change>,
        Ghost(base): Ghost<SnapshotView>,
    )
        requires
            good(base, stage(*old(self), *old(changes))),
            room(old(self)@, message_blocks(message.deep_view())),
        ensures
            stage(*final(self), *final(changes)) == stage(*old(self), *old(changes)).add_message(
                message.deep_view(),
            ),
            good(base, stage(*final(self), *final(changes))),
            final(self)@.next_id == old(self)@.next_id + message_blocks(message.deep_view()),
    {
        let ghost st = stage(*self, *changes);
        proof {
            add_message_keeps(base, st, message.deep_view());
        }
        match message {
            Message::User { content, images } => {
                let mut block = self.fresh_block(BlockKind::User, content.clone());
                block.images = clone_images(images);
                self.push(block, changes, Ghost(base));
            },
            Message::Steer { content, images } => {
                let mut block = self.fresh_block(BlockKind::Steer, content.clone());
                block.images = clone_images(images);
                self.push(block, changes, Ghost(base));
            },
            Message::System { content } => {
                let mut block = self.fresh_block(BlockKind::System, content.clone());
                match text::strip_prefix(content.as_str(), COMPACTION_MARKER) {
                    Some(summary) => {
                        block.content = "context compacted".to_owned();
                        block.summary = Some(text::trimmed(summary.as_str()));
                    },
                    None => {},
                }
                self.push(block, changes, Ghost(base));
            },
            Message::Assistant { content, model, reasoning, tool_calls, .. } => {
                if !reasoning.as_str().is_empty() {
                    let block = self.fresh_block(BlockKind::Thinking, reasoning.clone());
                    self.push(block, changes, Ghost(base));
                }
                if !content.as_str().is_empty() {
                    let kind = if tool_calls.len() == 0 {
                        BlockKind::Assistant
                    } else {
                        BlockKind::Status
                    };
                    let mut block = self.fresh_block(kind, content.clone());
                    block.model = model.clone();
                    self.push(block, changes, Ghost(base));
                }
                self.add_calls(tool_calls, changes, Ghost(base));
            },
            Message::Tool { call_id, content, image, diff } => {
                self.add_result(call_id.as_str(), content, image, diff, changes, Ghost(base));
            },
        }
    }

    fn history(
        &mut self,
        messages: &Vec<Message>,
        changes: &mut Vec<Change>,
        Ghost(base): Ghost<SnapshotView>,
    )
        requires
            good(base, stage(*old(self), *old(changes))),
            room(old(self)@, messages_blocks(messages.deep_view())),
        ensures
            stage(*final(self), *final(changes)) == stage(*old(self), *old(changes)).add_messages(
                messages.deep_view(),
            ),
            good(base, stage(*final(self), *final(changes))),
    {
        let ghost st = stage(*self, *changes);
        let ghost all = messages.deep_view();
        let mut i: usize = 0;
        assert(all.skip(0) =~= all);
        while i < messages.len()
            invariant
                all == messages.deep_view(),
                i <= messages@.len(),
                good(base, stage(*self, *changes)),
                room(self@, messages_blocks(all.skip(i as int))),
                stage(*self, *changes).add_messages(all.skip(i as int)) == st.add_messages(all),
            decreases messages@.len() - i,
        {
            proof {
                let rest = all.skip(i as int);
                assert(rest[0] == messages@[i as int].deep_view());
                assert(rest.skip(1) =~= all.skip(i + 1));
            }
            self.add_message(&messages[i], changes, Ghost(base));
            i += 1;
        }
        assert(all.skip(i as int) =~= Seq::empty());
    }

    fn accept_message(
        &mut self,
        message: &Message,
        changes: &mut Vec<Change>,
        Ghost(base): Ghost<SnapshotView>,
    )
        requires
            good(base, stage(*old(self), *old(changes))),
            room(old(self)@, message_blocks(message.deep_view())),
            old(self)@.snapshot.state.queued_steers < usize::MAX,
        ensures
            stage(*final(self), *final(changes)) == accept_message(
                stage(*old(self), *old(changes)),
                message.deep_view(),
            ),
            good(base, stage(*final(self), *final(changes))),
    {
        let ghost st = stage(*self, *changes);
        proof {
            accept_message_keeps(base, st, message.deep_view());
            reveal_with_fuel(Stage::add_messages, 2);
            let one = seq![message.deep_view()];
            assert(one.skip(1) =~= Seq::<MessageView>::empty());
            assert(st.add_messages(one) == st.add_message(message.deep_view()));
        }
        self.add_message(message, changes, Ghost(base));
        if let Message::Steer { .. } = message {
            self.snapshot.state.queued_steers = self.snapshot.state.queued_steers + 1;
            let index: usize = self.snapshot.blocks.len() - 1;
            let mut block = self.snapshot.blocks[index].clone();
            block.queued = true;
            assert(good(base, stage(*self, *changes)));
            self.set(index, block, changes, Ghost(base));
        }
    }

    fn hold_tools(
        &mut self,
        changes: &mut Vec<Change>,
        now: u64,
        Ghost(base): Ghost<SnapshotView>,
    )
        requires
            good(base, stage(*old(self), *old(changes))),
        ensures
            stage(*final(self), *final(changes)) == stage(*old(self), *old(changes)).hold_from(
                0,
                now,
            ),
            good(base, stage(*final(self), *final(changes))),
    {
        let ghost st = stage(*self, *changes);
        let mut index: usize = 0;
        while index < self.snapshot.blocks.len()
            invariant
                good(base, stage(*self, *changes)),
                index <= self@.snapshot.blocks.len(),
                stage(*self, *changes).hold_from(index as int, now) == st.hold_from(0, now),
            decreases self@.snapshot.blocks.len() - index,
        {
            assert(self.snapshot.blocks@.len() == self@.snapshot.blocks.len());
            let waiting = match &self.snapshot.blocks[index].tool {
                Some(tool) => tool.status == ToolStatus::Streaming || tool.status
                    == ToolStatus::Pending,
                None => false,
            };
            assert(waiting == is_waiting(self@.snapshot.blocks[index as int]));
            if waiting {
                let mut block = self.snapshot.blocks[index].clone();
                block.timer.pause(now);
                self.set(index, block, changes, Ghost(base));
            }
            index += 1;
        }
        assert(self.snapshot.blocks@.len() == self@.snapshot.blocks.len());
    }

    fn fail_tools(
        &mut self,
        reason: &str,
        changes: &mut Vec<Change>,
        now: u64,
        Ghost(base): Ghost<SnapshotView>,
    )
        requires
            good(base, stage(*old(self), *old(changes))),
        ensures
            stage(*final(self), *final(changes)) == stage(*old(self), *old(changes)).fail_from(
                0,
                reason@,
                now,
            ),
            good(base, stage(*final(self), *final(changes))),
    {
        let ghost st = stage(*self, *changes);
        let mut index: usize = 0;
        while index < self.snapshot.blocks.len()
            invariant
                good(base, stage(*self, *changes)),
                index <= self@.snapshot.blocks.len(),
                stage(*self, *changes).fail_from(index as int, reason@, now) == st.fail_from(
                    0,
                    reason@,
                    now,
                ),
            decreases self@.snapshot.blocks.len() - index,
        {
            assert(self.snapshot.blocks@.len() == self@.snapshot.blocks.len());
            let open = match &self.snapshot.blocks[index].tool {
                Some(tool) => tool.status != ToolStatus::Done && tool.status != ToolStatus::Failed,
                None => false,
            };
            assert(open == is_open(self@.snapshot.blocks[index as int]));
            if open {
                let mut block = self.snapshot.blocks[index].clone();
                match block.tool {
                    Some(tool) => {
                        let mut tool = tool;
                        tool.status = ToolStatus::Failed;
                        if tool.output.is_none() {
                            tool.output = Some(reason.to_owned());
                        }
                        block.tool = Some(tool);
                    },
                    None => {},
                }
                block.timer.pause(now);
                assert(block.deep_view() == failed(
                    self@.snapshot.blocks[index as int],
                    reason@,
                    now,
                ));
                self.set(index, block, changes, Ghost(base));
            }
            index += 1;
        }
        assert(self.snapshot.blocks@.len() == self@.snapshot.blocks.len());
    }

    fn end_turn(
        &mut self,
        event: &Event,
        changes: &mut Vec<Change>,
        now: u64,
        Ghost(base): Ghost<SnapshotView>,
    )
        requires
            good(base, stage(*old(self), *old(changes))),
            room(old(self)@, 1),
        ensures
            stage(*final(self), *final(changes)) == end_turn(
                stage(*old(self), *old(changes)),
                *event,
                now,
            ),
            good(base, stage(*final(self), *final(changes))),
    {
        let ghost st = stage(*self, *changes);
        proof {
            end_turn_keeps(base, st, *event, now);
            close_turn_keeps(base, st, end_reason(*event), now);
            pause_keeps(base, st, now);
        }
        let reason = match event {
            Event::Error(error) => text::join_two("Error: ", error.as_str()),
            _ => CANCELLED_BY_USER.to_owned(),
        };
        self.pause_reasoning(changes, now, Ghost(base));
        self.assistant = None;
        self.drafts = IndexTable::new();
        assert(good(base, stage(*self, *changes)));
        self.fail_tools(reason.as_str(), changes, now, Ghost(base));
        let ghost closed = st.close_turn(end_reason(*event), now);
        assert(stage(*self, *changes) == closed);
        proof {
            deliver_keeps(base, closed, usize::MAX);
        }
        match event {
            Event::Error(error) => {
                self.deliver(usize::MAX, changes, Ghost(base));
                let block = self.fresh_block(BlockKind::Error, error.clone());
                self.push(block, changes, Ghost(base));
                self.snapshot.state.phase = "error".to_owned();
                self.snapshot.state.error = Some(error.clone());
            },
            Event::GenerationCancelled => {
                self.deliver(usize::MAX, changes, Ghost(base));
                let block = self.fresh_block(BlockKind::System, CANCELLED_BY_USER.to_owned());
                self.push(block, changes, Ghost(base));
                self.snapshot.state.phase = "idle".to_owned();
            },
            _ => {
                self.snapshot.state.phase = "idle".to_owned();
            },
        }
        self.snapshot.state.turn_id = None;
        self.snapshot.state.compacting = false;
        self.snapshot.state.approval = None;
        self.snapshot.state.notice = None;
    }

    fn add_delta(
        &mut self,
        thinking: bool,
        delta: &str,
        changes: &mut Vec<Change>,
        now: u64,
        Ghost(base): Ghost<SnapshotView>,
    )
        requires
            good(base, stage(*old(self), *old(changes))),
            room(old(self)@, 1),
        ensures
            stage(*final(self), *final(changes)) == add_delta(
                stage(*old(self), *old(changes)),
                thinking,
                delta@,
                now,
            ),
            good(base, stage(*final(self), *final(changes))),
    {
        let ghost st = stage(*self, *changes);
        if !thinking {
            self.pause_reasoning(changes, now, Ghost(base));
        }
        let ghost first = stage(*self, *changes);
        let current = if thinking {
            self.reasoning
        } else {
            self.assistant
        };
        let index: usize = match current {
            Some(index) => index,
            None => {
                let kind = if thinking {
                    BlockKind::Thinking
                } else {
                    BlockKind::Assistant
                };
                let mut block = self.fresh_block(kind, String::new());
                block.model = self.snapshot.state.response_model.clone();
                if thinking {
                    block.timer.resume(now);
                }
                let index: usize = self.push(block, changes, Ghost(base));
                if thinking {
                    self.reasoning = Some(index);
                } else {
                    self.assistant = Some(index);
                }
                index
            },
        };
        assert(good(base, stage(*self, *changes)));
        self.append(index, "content", delta, changes, Ghost(base));
    }

    fn demote_answer(&mut self, changes: &mut Vec<Change>, Ghost(base): Ghost<SnapshotView>)
        requires
            good(base, stage(*old(self), *old(changes))),
        ensures
            stage(*final(self), *final(changes)) == demote_answer(stage(*old(self), *old(changes))),
            good(base, stage(*final(self), *final(changes))),
            final(self)@.next_id == old(self)@.next_id,
    {
        match self.assistant {
            Some(index) => if self.snapshot.blocks[index].kind != BlockKind::Status {
                let mut block = self.snapshot.blocks[index].clone();
                block.kind = BlockKind::Status;
                self.set(index, block, changes, Ghost(base));
            },
            None => {},
        }
    }

    fn add_call_delta(
        &mut self,
        place: usize,
        name: &Option<String>,
        arguments: &str,
        changes: &mut Vec<Change>,
        now: u64,
        Ghost(base): Ghost<SnapshotView>,
    )
        requires
            good(base, stage(*old(self), *old(changes))),
            room(old(self)@, 1),
        ensures
            stage(*final(self), *final(changes)) == add_call_delta(
                stage(*old(self), *old(changes)),
                place,
                name.deep_view(),
                arguments@,
                now,
            ),
            good(base, stage(*final(self), *final(changes))),
    {
        let ghost st = stage(*self, *changes);
        self.pause_reasoning(changes, now, Ghost(base));
        self.demote_answer(changes, Ghost(base));
        let ghost before = stage(*self, *changes);
        proof {
            open_draft_keeps(base, before, place, name.deep_view(), now);
        }
        let index: usize = match self.drafts.get(place) {
            Some(index) => index,
            None => {
                let mut block = self.fresh_block(BlockKind::Tool, String::new());
                block.timer.resume(now);
                block.tool = Some(
                    ToolView {
                        call_id: None,
                        name: match name {
                            Some(name) => name.clone(),
                            None => String::new(),
                        },
                        arguments: String::new(),
                        output: None,
                        diff: None,
                        status: ToolStatus::Streaming,
                    },
                );
                let index: usize = self.push(block, changes, Ghost(base));
                self.drafts.insert(place, index);
                index
            },
        };
        let ghost opened = open_draft(before, place, name.deep_view(), now);
        assert(stage(*self, *changes) == opened);
        assert(is_tool(opened.blocks(), opened.p.drafts[place]));
        match name {
            Some(name) => {
                let mut block = self.snapshot.blocks[index].clone();
                match block.tool {
                    Some(tool) => {
                        let mut tool = tool;
                        tool.name = name.clone();
                        block.tool = Some(tool);
                    },
                    None => {},
                }
                self.set(index, block, changes, Ghost(base));
            },
            None => {},
        }
        self.append(index, "arguments", arguments, changes, Ghost(base));
    }

    fn finish_call(
        &mut self,
        place: usize,
        call: &ToolCall,
        changes: &mut Vec<Change>,
        Ghost(base): Ghost<SnapshotView>,
    )
        requires
            good(base, stage(*old(self), *old(changes))),
        ensures
            stage(*final(self), *final(changes)) == finish_call(
                stage(*old(self), *old(changes)),
                place,
                call.deep_view(),
            ),
            good(base, stage(*final(self), *final(changes))),
    {
        let ghost st = stage(*self, *changes);
        proof {
            finish_call_keeps(base, st, place, call.deep_view());
        }
        match self.drafts.get(place) {
            Some(index) => {
                assert(is_tool(self@.snapshot.blocks, self@.drafts[place]));
                let mut block = self.snapshot.blocks[index].clone();
                match block.tool {
                    Some(tool) => {
                        let mut tool = tool;
                        tool.call_id = Some(call.id.clone());
                        tool.name = call.name.clone();
                        tool.arguments = json::write_pretty(&call.arguments);
                        tool.status = ToolStatus::Pending;
                        block.tool = Some(tool);
                    },
                    None => {},
                }
                self.drafts.remove(place);
                self.calls.insert(call.id.clone(), index);
                proof {
                    let here = stage(*self, *changes);
                    assert forall|k: usize| #[trigger] here.p.drafts.contains_key(k) implies is_tool(
                        here.blocks(),
                        here.p.drafts[k],
                    ) by {
                        assert(st.p.drafts.contains_key(k));
                    }
                    assert forall|k: Seq<char>| #[trigger] here.p.calls.contains_key(k) implies is_tool(
                        here.blocks(),
                        here.p.calls[k],
                    ) by {
                        if k != call.id@ {
                            assert(st.p.calls.contains_key(k));
                        }
                    }
                    assert(good(base, here));
                }
                self.set(index, block, changes, Ghost(base));
            },
            None => {},
        }
    }

    fn request_approval(
        &mut self,
        approval_id: &String,
        call: &ToolCall,
        changes: &mut Vec<Change>,
        now: u64,
        Ghost(base): Ghost<SnapshotView>,
    )
        requires
            good(base, stage(*old(self), *old(changes))),
        ensures
            stage(*final(self), *final(changes)) == request_approval(
                stage(*old(self), *old(changes)),
                approval_id@,
                call.deep_view(),
                now,
            ),
            good(base, stage(*final(self), *final(changes))),
    {
        let ghost st = stage(*self, *changes);
        proof {
            request_approval_keeps(base, st, approval_id@, call.deep_view(), now);
        }
        self.hold_tools(changes, now, Ghost(base));
        match self.calls.get(call.id.as_str()) {
            Some(index) => {
                assert(is_tool(self@.snapshot.blocks, self@.calls[call.id@]));
                let mut block = self.snapshot.blocks[index].clone();
                match block.tool {
                    Some(tool) => {
                        let mut tool = tool;
                        tool.status = ToolStatus::WaitingApproval;
                        block.tool = Some(tool);
                    },
                    None => {},
                }
                self.set(index, block, changes, Ghost(base));
            },
            None => {},
        }
        self.snapshot.state.approval = Some(
            Approval { id: approval_id.clone(), call: call.clone() },
        );
        self.snapshot.state.phase = "approval".to_owned();
    }

    fn start_tool(
        &mut self,
        call_id: &str,
        changes: &mut Vec<Change>,
        now: u64,
        Ghost(base): Ghost<SnapshotView>,
    )
        requires
            good(base, stage(*old(self), *old(changes))),
        ensures
            stage(*final(self), *final(changes)) == start_tool(
                stage(*old(self), *old(changes)),
                call_id@,
                now,
            ),
            good(base, stage(*final(self), *final(changes))),
    {
        self.snapshot.state.phase = "tool".to_owned();
        assert(good(base, stage(*self, *changes)));
        match self.calls.get(call_id) {
            Some(index) => {
                assert(is_tool(self@.snapshot.blocks, self@.calls[call_id@]));
                let mut block = self.snapshot.blocks[index].clone();
                block.timer.resume(now);
                match block.tool {
                    Some(tool) => {
                        let mut tool = tool;
                        tool.status = ToolStatus::Running;
                        block.tool = Some(tool);
                    },
                    None => {},
                }
                self.set(index, block, changes, Ghost(base));
            },
            None => {},
        }
    }

    fn add_output(
        &mut self,
        call_id: &str,
        delta: &str,
        changes: &mut Vec<Change>,
        Ghost(base): Ghost<SnapshotView>,
    )
        requires
            good(base, stage(*old(self), *old(changes))),
        ensures
            stage(*final(self), *final(changes)) == add_output(
                stage(*old(self), *old(changes)),
                call_id@,
                delta@,
            ),
            good(base, stage(*final(self), *final(changes))),
    {
        match self.calls.get(call_id) {
            Some(index) => {
                assert(is_tool(self@.snapshot.blocks, self@.calls[call_id@]));
                let running = match &self.snapshot.blocks[index].tool {
                    Some(tool) => tool.status == ToolStatus::Running,
                    None => false,
                };
                assert(running == (self@.snapshot.blocks[index as int].tool->0.status
                    == ToolStatus::Running));
                if running {
                    self.append(index, "output", delta, changes, Ghost(base));
                }
            },
            None => {},
        }
    }

    fn finish_tool(
        &mut self,
        call_id: &str,
        output: &String,
        success: bool,
        diff: &Option<String>,
        changes: &mut Vec<Change>,
        now: u64,
        Ghost(base): Ghost<SnapshotView>,
    )
        requires
            good(base, stage(*old(self), *old(changes))),
        ensures
            stage(*final(self), *final(changes)) == finish_tool(
                stage(*old(self), *old(changes)),
                call_id@,
                output@,
                success,
                diff.deep_view(),
                now,
            ),
            good(base, stage(*final(self), *final(changes))),
    {
        match self.calls.get(call_id) {
            Some(index) => {
                assert(is_tool(self@.snapshot.blocks, self@.calls[call_id@]));
                let mut block = self.snapshot.blocks[index].clone();
                block.timer.pause(now);
                match block.tool {
                    Some(tool) => {
                        let mut tool = tool;
                        tool.output = Some(output.clone());
                        tool.diff = diff.clone();
                        tool.status = if success {
                            ToolStatus::Done
                        } else {
                            ToolStatus::Failed
                        };
                        block.tool = Some(tool);
                    },
                    None => {},
                }
                self.set(index, block, changes, Ghost(base));
            },
            None => {},
        }
    }

    fn add_image(
        &mut self,
        call_id: &str,
        image: &ImageContent,
        changes: &mut Vec<Change>,
        Ghost(base): Ghost<SnapshotView>,
    )
        requires
            good(base, stage(*old(self), *old(changes))),
        ensures
            stage(*final(self), *final(changes)) == add_image(
                stage(*old(self), *old(changes)),
                call_id@,
                image.deep_view(),
            ),
            good(base, stage(*final(self), *final(changes))),
    {
        match self.calls.get(call_id) {
            Some(index) => {
                assert(is_tool(self@.snapshot.blocks, self@.calls[call_id@]));
                let mut block = self.snapshot.blocks[index].clone();
                let ghost images = block.images@;
                let copy = image.clone();
                block.images.push(copy);
                proof {
                    deep_push(images, block.images, copy);
                }
                self.set(index, block, changes, Ghost(base));
            },
            None => {},
        }
    }

    fn compaction_place(&self) -> (at: usize)
        requires
            well_formed(self@),
        ensures
            at == compaction_place(self@),
            at <= self@.snapshot.blocks.len(),
    {
        let count: usize = self.snapshot.blocks.len();
        if self.snapshot.state.turn_id.is_none() || self.snapshot.state.compacting {
            return count;
        }
        let ghost all = self@.snapshot.blocks;
        let mut i: usize = count;
        assert(all.take(i as int) =~= all);
        while i > 0
            invariant
                all == self@.snapshot.blocks,
                count == all.len(),
                i <= count,
                self.snapshot.blocks@.len() == count,
                last_user(all.take(i as int)) == last_user(all),
                self@.snapshot.state.turn_id is Some,
                !self@.snapshot.state.compacting,
            decreases i,
        {
            proof {
                assert(all.take(i as int).last() == all[i - 1]);
                assert(all.take(i as int).drop_last() =~= all.take(i - 1));
            }
            let kind = self.snapshot.blocks[i - 1].kind;
            if kind == BlockKind::User || kind == BlockKind::Steer {
                return i - 1;
            }
            i -= 1;
        }
        count
    }

    fn note_compaction(
        &mut self,
        summary: &String,
        changes: &mut Vec<Change>,
        Ghost(base): Ghost<SnapshotView>,
    )
        requires
            good(base, stage(*old(self), *old(changes))),
            room(old(self)@, 1),
        ensures
            stage(*final(self), *final(changes)) == note_compaction(
                stage(*old(self), *old(changes)),
                summary@,
            ),
            good(base, stage(*final(self), *final(changes))),
    {
        let ghost st = stage(*self, *changes);
        proof {
            note_compaction_keeps(base, st, summary@);
        }
        let at: usize = self.compaction_place();
        let mut block = self.fresh_block(BlockKind::System, "context compacted".to_owned());
        block.summary = Some(summary.clone());
        let before = if at < self.snapshot.blocks.len() {
            Some(self.snapshot.blocks[at].id.clone())
        } else {
            None
        };
        let change = Change::Insert { before, block: block.clone() };
        let ghost sent = changes@;
        changes.push(change);
        let ghost view = block.deep_view();
        self.snapshot.blocks.insert(at, block);
        self.next_id = self.next_id + 1;
        proof {
            deep_push(sent, *changes, change);
            assert(self.snapshot.blocks.deep_view() =~= st.blocks().insert(at as int, view));
        }
        match self.assistant {
            Some(i) => if i >= at && i < usize::MAX {
                self.assistant = Some(i + 1);
            },
            None => {},
        }
        match self.reasoning {
            Some(i) => if i >= at && i < usize::MAX {
                self.reasoning = Some(i + 1);
            },
            None => {},
        }
        self.calls.shift(at);
        self.drafts.shift(at);
        self.snapshot.state.notice = None;
        assert(stage(*self, *changes) == note_compaction(st, summary@));
    }

    /// All that a client needs to follow from here on.
    pub fn snapshot(&self) -> (result: Snapshot)
        requires
            self.wf(),
        ensures
            result.deep_view() == self@.snapshot,
            result.assistant_id.deep_view() == block_id(self@.snapshot.blocks, self@.assistant),
            result.reasoning_id.deep_view() == block_id(self@.snapshot.blocks, self@.reasoning),
            table(result.drafts.deep_view()) == self@.drafts.map_values(
                |i: usize| self@.snapshot.blocks[i as int].id,
            ),
    {
        let ghost view = self@.snapshot.blocks;
        let blocks = self.snapshot.blocks.clone();
        assert(blocks.deep_view() =~= self.snapshot.blocks.deep_view());
        let entries = self.drafts.entries();
        let mut drafts: Vec<(usize, String)> = Vec::new();
        let mut i: usize = 0;
        while i < entries.len()
            invariant
                self.wf(),
                view == self@.snapshot.blocks,
                i <= entries@.len(),
                drafts@.len() == i,
                forall|k: int|
                    0 <= k < entries@.len() ==> self@.drafts.contains_key(
                        (#[trigger] entries@[k]).0,
                    ) && self@.drafts[entries@[k].0] == entries@[k].1,
                forall|k: int|
                    0 <= k < i ==> (#[trigger] drafts@[k]).deep_view() == (
                        entries@[k].0,
                        view[entries@[k].1 as int].id,
                    ),
            decreases entries@.len() - i,
        {
            proof {
                assert(self@.drafts.contains_key(entries@[i as int].0));
                assert(is_tool(view, self@.drafts[entries@[i as int].0]));
            }
            let index: usize = entries[i].1;
            drafts.push((entries[i].0, self.snapshot.blocks[index].id.clone()));
            i += 1;
        }
        proof {
            table_map(entries@, drafts.deep_view(), |i: usize| view[i as int].id);
        }
        Snapshot {
            session_id: self.snapshot.session_id.clone(),
            seq: self.snapshot.seq,
            blocks,
            state: self.snapshot.state.clone(),
            plan: self.snapshot.plan.clone(),
            project: self.snapshot.project.clone(),
            assistant_id: match self.assistant {
                Some(i) => Some(self.snapshot.blocks[i].id.clone()),
                None => None,
            },
            reasoning_id: match self.reasoning {
                Some(i) => Some(self.snapshot.blocks[i].id.clone()),
                None => None,
            },
            drafts,
        }
    }

    /// The state of the session beside its blocks.
    pub fn state(&self) -> (result: &SessionState)
        ensures
            result.deep_view() == self@.snapshot.state,
    {
        &self.snapshot.state
    }

    pub fn session_id(&self) -> (result: &str)
        ensures
            result@ == self@.snapshot.session_id,
    {
        self.snapshot.session_id.as_str()
    }

    /// The number of events so far.
    pub fn seq(&self) -> (result: u64)
        ensures
            result == self@.snapshot.seq,
    {
        self.snapshot.seq
    }

    /// Whether an event can be taken in: the counters that it moves have not reached their
    /// limits.
    pub fn can_apply(&self, event: &Event) -> (result: bool)
        requires
            self.wf(),
        ensures
            result == has_room(self@, *event),
    {
        let state = &self.snapshot.state;
        if self.snapshot.seq == u64::MAX {
            return false;
        }
        let left: usize = usize::MAX - self.snapshot.blocks.len();
        assert(self@.next_id == self.snapshot.blocks@.len());
        match event {
            Event::History(messages) => fit_blocks(messages, left),
            Event::MessageAccepted(message) => {
                without_blocks(message, left).is_some() && state.queued_steers < usize::MAX
            },
            Event::ModelResponseFinished { output_tokens, duration_ms } => {
                left > 0 && state.output_tokens <= u64::MAX - *output_tokens
                    && state.generation_ms <= u64::MAX - *duration_ms
            },
            _ => left > 0,
        }
    }

    /// Takes in an event, and gives out what changes for those who watch.
    pub fn apply(&mut self, event: &Event, now: u64) -> (changes: Vec<Change>)
        requires
            old(self).wf(),
            has_room(old(self)@, *event),
        ensures
            final(self).wf(),
            final(self)@ == step(old(self)@, *event, now).p,
            changes.deep_view() == step(old(self)@, *event, now).changes,
            at_seq(
                replay(old(self)@.snapshot, changes.deep_view()),
                final(self)@.snapshot.seq,
            ) == final(self)@.snapshot,
            keeps_order(old(self)@.snapshot.blocks, final(self)@.snapshot.blocks),
    {
        let mut changes: Vec<Change> = Vec::new();
        let ghost base = self@.snapshot;
        let ghost st = Stage { p: self@, changes: Seq::empty() };
        proof {
            assert(changes.deep_view() =~= Seq::empty());
            assert(stage(*self, changes) == st);
            assert(mirrors(base, st));
            replay_law(self@, *event, now);
            queue_law(self@, *event, now);
            order_law(self@, *event, now);
        }
        self.take_in(event, &mut changes, now, Ghost(base));
        if touches(event) {
            let change = Change::State { state: self.snapshot.state.clone() };
            let ghost sent = changes@;
            changes.push(change);
            proof {
                deep_push(sent, changes, change);
            }
        }
        self.snapshot.seq = self.snapshot.seq + 1;
        changes
    }

    fn take_in(
        &mut self,
        event: &Event,
        changes: &mut Vec<Change>,
        now: u64,
        Ghost(base): Ghost<SnapshotView>,
    )
        requires
            good(base, stage(*old(self), *old(changes))),
            has_room(old(self)@, *event),
        ensures
            stage(*final(self), *final(changes)) == effect(
                stage(*old(self), *old(changes)),
                *event,
                now,
            ),
            good(base, stage(*final(self), *final(changes))),
    {
        let ghost st = stage(*self, *changes);
        proof {
            effect_keeps(base, st, *event, now);
        }
        match event {
            Event::History(messages) => self.history(messages, changes, Ghost(base)),
            Event::MessageAccepted(message) => self.accept_message(message, changes, Ghost(base)),
            Event::OperationStarted { id, compacting } => {
                self.snapshot.state.turn_id = Some(id.clone());
                self.snapshot.state.compacting = *compacting;
                self.snapshot.state.phase = if *compacting {
                    "compacting".to_owned()
                } else {
                    "connecting".to_owned()
                };
                self.snapshot.state.error = None;
            },
            Event::SessionChanged(title) => {
                self.snapshot.state.title = title.clone();
            },
            Event::UsageChanged { total_tokens, total_cost } => {
                self.snapshot.state.total_tokens = *total_tokens;
                self.snapshot.state.total_cost = *total_cost;
            },
            Event::ContextChanged { tokens, max_tokens } => {
                self.snapshot.state.context_tokens = *tokens;
                self.snapshot.state.max_context_tokens = *max_tokens;
            },
            Event::SettingsChanged { model, reasoning_effort } => {
                self.snapshot.state.model = model.clone();
                self.snapshot.state.reasoning_effort = *reasoning_effort;
            },
            Event::SettingsRevision(revision) => {
                self.snapshot.state.settings_revision = *revision;
            },
            Event::ProjectChanged(project) => {
                let mut project = project.clone();
                project.git_diff = String::new();
                project.git_diff_path = None;
                let change = Change::Project { project: project.clone() };
                let ghost sent = changes@;
                changes.push(change);
                self.snapshot.project = project;
                proof {
                    deep_push(sent, *changes, change);
                }
            },
            Event::PlanChanged(plan) => {
                let change = Change::Plan { plan: plan.clone() };
                let ghost sent = changes@;
                changes.push(change);
                self.snapshot.plan = plan.clone();
                proof {
                    deep_push(sent, *changes, change);
                }
            },
            Event::GenerationStarted => {
                self.snapshot.state.output_tokens = 0;
                self.snapshot.state.generation_ms = 0;
                self.snapshot.state.error = None;
                self.snapshot.state.notice = None;
            },
            Event::ModelRequestStarted(model) => {
                self.pause_reasoning(changes, now, Ghost(base));
                self.assistant = None;
                self.drafts = IndexTable::new();
                self.snapshot.state.response_model = model.clone();
                self.snapshot.state.phase = "connecting".to_owned();
            },
            Event::ResponseHeadersReceived => {
                self.snapshot.state.phase = "waiting".to_owned();
                self.snapshot.state.notice = None;
            },
            Event::ResponseStarted => {
                self.snapshot.state.phase = "generating".to_owned();
            },
            Event::ModelResponseFinished { output_tokens, duration_ms } => {
                self.snapshot.state.output_tokens = self.snapshot.state.output_tokens
                    + *output_tokens;
                self.snapshot.state.generation_ms = self.snapshot.state.generation_ms
                    + *duration_ms;
            },
            Event::TextDelta(delta) => self.add_delta(
                false,
                delta.as_str(),
                changes,
                now,
                Ghost(base),
            ),
            Event::ReasoningDelta(delta) => self.add_delta(
                true,
                delta.as_str(),
                changes,
                now,
                Ghost(base),
            ),
            Event::ToolCallDelta { index, name, arguments } => self.add_call_delta(
                *index,
                name,
                arguments.as_str(),
                changes,
                now,
                Ghost(base),
            ),
            Event::ToolCallFinished { index, call } => self.finish_call(
                *index,
                call,
                changes,
                Ghost(base),
            ),
            Event::ApprovalRequested { approval_id, call } => self.request_approval(
                approval_id,
                call,
                changes,
                now,
                Ghost(base),
            ),
            Event::ApprovalResolved { tool, decision, .. } => {
                self.snapshot.state.approval = None;
                let said = match decision {
                    ApprovalDecision::AllowOnce => text::join_three(
                        "Tool approved: ",
                        tool.as_str(),
                        " · once",
                    ),
                    ApprovalDecision::AllowSession => text::join_three(
                        "Tool approved: ",
                        tool.as_str(),
                        " · session",
                    ),
                    ApprovalDecision::Deny => text::join_two("Tool denied: ", tool.as_str()),
                };
                assert(good(base, stage(*self, *changes)));
                let block = self.fresh_block(BlockKind::System, said);
                self.push(block, changes, Ghost(base));
            },
            Event::ToolStarted { call_id } => self.start_tool(
                call_id.as_str(),
                changes,
                now,
                Ghost(base),
            ),
            Event::ToolOutputDelta { call_id, delta } => self.add_output(
                call_id.as_str(),
                delta.as_str(),
                changes,
                Ghost(base),
            ),
            Event::ToolResult { call_id, output, success, diff } => self.finish_tool(
                call_id.as_str(),
                output,
                *success,
                diff,
                changes,
                now,
                Ghost(base),
            ),
            Event::ToolImage { call_id, image } => self.add_image(
                call_id.as_str(),
                image,
                changes,
                Ghost(base),
            ),
            Event::SteersDelivered(count) => self.deliver(*count, changes, Ghost(base)),
            Event::Retrying { seconds } => {
                self.snapshot.state.phase = "retrying".to_owned();
                let count = text::decimal(*seconds);
                self.snapshot.state.notice = Some(
                    text::join_three("retrying in ", count.as_str(), "s"),
                );
            },
            Event::CompactionStarted => {
                self.snapshot.state.phase = "compacting".to_owned();
                self.snapshot.state.notice = Some("compacting context".to_owned());
            },
            Event::ContextCompacted { summary } => self.note_compaction(
                summary,
                changes,
                Ghost(base),
            ),
            Event::GenerationFinished => self.end_turn(event, changes, now, Ghost(base)),
            Event::GenerationCancelled => self.end_turn(event, changes, now, Ghost(base)),
            Event::Error(_) => self.end_turn(event, changes, now, Ghost(base)),
            Event::Notice(notice) => {
                self.snapshot.state.notice = Some(notice.clone());
            },
            Event::Ready => {},
            Event::Barrier => {},
            Event::RefreshProject => {},
            Event::PromptRejected(_) => {},
            Event::Saved => {},
        }
    }
}

/// What is left of `left` behind the blocks of a message; `None` where they are more.
fn without_blocks(message: &Message, left: usize) -> (result: Option<usize>)
    ensures
        match result {
            Some(rest) => rest + message_blocks(message.deep_view()) == left,
            None => message_blocks(message.deep_view()) > left,
        },
{
    match message {
        Message::Assistant { content, reasoning, tool_calls, .. } => {
            assert(tool_calls.deep_view().len() == tool_calls@.len());
            let mut rest: usize = left;
            if !reasoning.as_str().is_empty() {
                if rest == 0 {
                    return None;
                }
                rest -= 1;
            }
            if !content.as_str().is_empty() {
                if rest == 0 {
                    return None;
                }
                rest -= 1;
            }
            rest.checked_sub(tool_calls.len())
        },
        Message::Tool { .. } => Some(left),
        _ => left.checked_sub(1),
    }
}

/// Whether the blocks of messages are no more than `left`.
fn fit_blocks(messages: &Vec<Message>, left: usize) -> (result: bool)
    ensures
        result == (messages_blocks(messages.deep_view()) <= left),
{
    let ghost all = messages.deep_view();
    let mut rest: usize = left;
    let mut i: usize = 0;
    assert(all.skip(0) =~= all);
    while i < messages.len()
        invariant
            all == messages.deep_view(),
            i <= messages@.len(),
            rest <= left,
            (messages_blocks(all) <= left) == (messages_blocks(all.skip(i as int)) <= rest),
        decreases messages@.len() - i,
    {
        proof {
            assert(all.skip(i as int)[0] == messages@[i as int].deep_view());
            assert(all.skip(i as int).skip(1) =~= all.skip(i + 1));
        }
        match without_blocks(&messages[i], rest) {
            Some(less) => {
                rest = less;
            },
            None => {
                return false;
            },
        }
        i += 1;
    }
    true
}

/// Whether the state of the session is sent behind `event`.
fn touches(event: &Event) -> (result: bool)
    ensures
        result == touches_state(*event),
{
    match event {
        Event::ProjectChanged(_) => false,
        Event::PlanChanged(_) => false,
        Event::TextDelta(_) => false,
        Event::ReasoningDelta(_) => false,
        Event::ToolCallDelta { .. } => false,
        Event::ToolCallFinished { .. } => false,
        Event::ToolOutputDelta { .. } => false,
        Event::ToolImage { .. } => false,
        Event::Ready => false,
        Event::Barrier => false,
        Event::RefreshProject => false,
        Event::PromptRejected(_) => false,
        Event::Saved => false,
        _ => true,
    }
}

} // verus!
