//! What each event does to what a client sees of a session, and why the changes
//! that are sent out are enough to follow it.
use crate::tables::{shifted, shifted_table};
use crate::hub::state::{
    ApprovalView, BlockKind, BlockView, ChangeView, SnapshotView, StateView, Timer, ToolModel,
    ToolStatus,
};
use crate::json::written_pretty;
use crate::project::ProjectView;
use crate::runtime::event::{ApprovalDecision, Event};
use crate::runtime::message::{ImageView, MessageView, ToolCallView};
use crate::runtime::{CANCELLED_BY_USER, COMPACTION_MARKER};
use crate::text::{digits, has_prefix, trim};
use vstd::prelude::*;
use vstd::string::*;

verus! {

/// A snapshot with the places that the next deltas go to.
pub struct ProjectionView {
    pub snapshot: SnapshotView,
    /// The block that text deltas go to.
    pub assistant: Option<usize>,
    /// The block that reasoning deltas go to.
    pub reasoning: Option<usize>,
    /// The blocks of the calls that are being written, by their place in the response.
    pub drafts: Map<usize, usize>,
    /// The blocks of the calls that are written, by their id.
    pub calls: Map<Seq<char>, usize>,
    /// The number of the block made last.
    pub next_id: u64,
}

/// A projection, and the changes that led to it.
pub struct Stage {
    pub p: ProjectionView,
    pub changes: Seq<ChangeView>,
}

/// A block with the next number.
pub open spec fn new_block(p: ProjectionView, kind: BlockKind, content: Seq<char>) -> BlockView {
    BlockView {
        id: digits((p.next_id + 1) as nat),
        kind,
        content,
        model: Seq::empty(),
        images: Seq::empty(),
        summary: None,
        tool: None,
        timer: Timer { elapsed: 0, started: None },
        queued: false,
    }
}

pub open spec fn set_blocks(p: ProjectionView, blocks: Seq<BlockView>) -> ProjectionView {
    ProjectionView { snapshot: SnapshotView { blocks, ..p.snapshot }, ..p }
}

pub open spec fn set_state(p: ProjectionView, state: StateView) -> ProjectionView {
    ProjectionView { snapshot: SnapshotView { state, ..p.snapshot }, ..p }
}

impl Stage {
    pub open spec fn blocks(self) -> Seq<BlockView> {
        self.p.snapshot.blocks
    }

    pub open spec fn state(self) -> StateView {
        self.p.snapshot.state
    }

    pub open spec fn with_state(self, state: StateView) -> Stage {
        Stage { p: set_state(self.p, state), changes: self.changes }
    }

    /// A new block at `at`, in front of the block with the id `before` or last.
    pub open spec fn insert(self, at: int, before: Option<Seq<char>>, block: BlockView) -> Stage {
        Stage {
            p: ProjectionView {
                next_id: (self.p.next_id + 1) as u64,
                ..set_blocks(self.p, self.blocks().insert(at, block))
            },
            changes: self.changes.push(ChangeView::Insert { before, block }),
        }
    }

    /// A new block, last.
    pub open spec fn push(self, block: BlockView) -> Stage {
        self.insert(self.blocks().len() as int, None, block)
    }

    /// Another content of the block at `i`.
    pub open spec fn set(self, i: int, block: BlockView) -> Stage {
        Stage {
            p: set_blocks(self.p, self.blocks().update(i, block)),
            changes: self.changes.push(ChangeView::Replace { block }),
        }
    }

    /// More text in one field of the block at `i`.
    pub open spec fn append(self, i: int, field: Seq<char>, text: Seq<char>) -> Stage {
        Stage {
            p: set_blocks(
                self.p,
                self.blocks().update(i, append_field(self.blocks()[i], field, text)),
            ),
            changes: self.changes.push(
                ChangeView::Append { block_id: self.blocks()[i].id, field, text },
            ),
        }
    }

    /// The same with another tool in the block at `i`.
    pub open spec fn set_tool(self, i: int, tool: ToolModel) -> Stage {
        self.set(i, BlockView { tool: Some(tool), ..self.blocks()[i] })
    }

    /// The reasoning block, if any, stops its clock and takes no more deltas.
    pub open spec fn pause_reasoning(self, now: u64) -> Stage {
        match self.p.reasoning {
            Some(i) => Stage {
                p: ProjectionView { reasoning: None, ..self.p },
                changes: self.changes,
            }.set(
                i as int,
                BlockView {
                    timer: self.blocks()[i as int].timer.paused(now),
                    ..self.blocks()[i as int]
                },
            ),
            None => self,
        }
    }

    /// The first `left` queued blocks from `i` on are no longer queued.
    pub open spec fn deliver_from(self, i: int, left: nat) -> Stage
        decreases self.blocks().len() - i,
    {
        if i < 0 || i >= self.blocks().len() || left == 0 {
            self
        } else if self.blocks()[i].queued {
            self.set(i, BlockView { queued: false, ..self.blocks()[i] }).deliver_from(
                i + 1,
                (left - 1) as nat,
            )
        } else {
            self.deliver_from(i + 1, left)
        }
    }

    /// The first `count` queued messages have reached the model.
    pub open spec fn deliver(self, count: usize) -> Stage {
        let done = self.deliver_from(0, count as nat);
        let left = done.state().queued_steers - count;
        done.with_state(
            StateView {
                queued_steers: if left < 0 {
                    0
                } else {
                    left as usize
                },
                ..done.state()
            },
        )
    }

    /// A block for each of `calls`, waiting for its result.
    pub open spec fn add_calls(self, calls: Seq<ToolCallView>) -> Stage
        decreases calls.len(),
    {
        if calls.len() == 0 {
            self
        } else {
            let call = calls[0];
            let next = self.push(
                BlockView {
                    tool: Some(
                        ToolModel {
                            call_id: Some(call.id),
                            name: call.name,
                            arguments: written_pretty(call.arguments),
                            output: None,
                            diff: None,
                            status: ToolStatus::Pending,
                        },
                    ),
                    ..new_block(self.p, BlockKind::Tool, Seq::empty())
                },
            );
            Stage {
                p: ProjectionView {
                    calls: next.p.calls.insert(call.id, self.blocks().len() as usize),
                    ..next.p
                },
                changes: next.changes,
            }.add_calls(calls.skip(1))
        }
    }

    /// The result of a call, in the block of that call.
    pub open spec fn add_result(
        self,
        call_id: Seq<char>,
        content: Seq<char>,
        image: Option<ImageView>,
        diff: Option<Seq<char>>,
    ) -> Stage {
        if self.p.calls.contains_key(call_id) {
            let i = self.p.calls[call_id] as int;
            let block = self.blocks()[i];
            let tool = block.tool->0;
            self.set(
                i,
                BlockView {
                    images: match image {
                        Some(image) => block.images.push(image),
                        None => block.images,
                    },
                    tool: Some(
                        ToolModel {
                            output: Some(content),
                            diff,
                            status: if has_prefix(content, "Error:"@) {
                                ToolStatus::Failed
                            } else {
                                ToolStatus::Done
                            },
                            ..tool
                        },
                    ),
                    ..block
                },
            )
        } else {
            self
        }
    }

    /// What one message of the conversation shows.
    pub open spec fn add_message(self, message: MessageView) -> Stage {
        match message {
            MessageView::User { content, images } => self.push(
                BlockView { images, ..new_block(self.p, BlockKind::User, content) },
            ),
            MessageView::Steer { content, images } => self.push(
                BlockView { images, ..new_block(self.p, BlockKind::Steer, content) },
            ),
            MessageView::System { content } => self.push(
                if has_prefix(content, COMPACTION_MARKER@) {
                    BlockView {
                        content: "context compacted"@,
                        summary: Some(trim(content.skip(COMPACTION_MARKER@.len() as int))),
                        ..new_block(self.p, BlockKind::System, content)
                    }
                } else {
                    new_block(self.p, BlockKind::System, content)
                },
            ),
            MessageView::Assistant { content, model, reasoning, tool_calls, .. } => {
                let first = if reasoning.len() > 0 {
                    self.push(new_block(self.p, BlockKind::Thinking, reasoning))
                } else {
                    self
                };
                let kind = if tool_calls.len() == 0 {
                    BlockKind::Assistant
                } else {
                    BlockKind::Status
                };
                let second = if content.len() > 0 {
                    first.push(BlockView { model, ..new_block(first.p, kind, content) })
                } else {
                    first
                };
                second.add_calls(tool_calls)
            },
            MessageView::Tool { call_id, content, image, diff } => self.add_result(
                call_id,
                content,
                image,
                diff,
            ),
        }
    }

    /// What a conversation shows.
    pub open spec fn add_messages(self, messages: Seq<MessageView>) -> Stage
        decreases messages.len(),
    {
        if messages.len() == 0 {
            self
        } else {
            self.add_message(messages[0]).add_messages(messages.skip(1))
        }
    }

    /// The tools from `i` on that have not begun stop their clocks.
    pub open spec fn hold_from(self, i: int, now: u64) -> Stage
        decreases self.blocks().len() - i,
    {
        if i < 0 || i >= self.blocks().len() {
            self
        } else {
            let block = self.blocks()[i];
            if is_waiting(block) {
                self.set(i, BlockView { timer: block.timer.paused(now), ..block }).hold_from(
                    i + 1,
                    now,
                )
            } else {
                self.hold_from(i + 1, now)
            }
        }
    }

    /// The tools from `i` on that have no result fail, with `reason` as output
    /// where they have none.
    pub open spec fn fail_from(self, i: int, reason: Seq<char>, now: u64) -> Stage
        decreases self.blocks().len() - i,
    {
        if i < 0 || i >= self.blocks().len() {
            self
        } else {
            let block = self.blocks()[i];
            if is_open(block) {
                self.set(i, failed(block, reason, now)).fail_from(i + 1, reason, now)
            } else {
                self.fail_from(i + 1, reason, now)
            }
        }
    }

    /// A turn is over: nothing is being written any more, and no tool is open.
    pub open spec fn close_turn(self, reason: Seq<char>, now: u64) -> Stage {
        let first = self.pause_reasoning(now);
        Stage {
            p: ProjectionView { assistant: None, drafts: Map::empty(), ..first.p },
            changes: first.changes,
        }.fail_from(0, reason, now)
    }

    /// The state of a session whose turn is over.
    pub open spec fn rest(self, phase: Seq<char>, error: Option<Seq<char>>) -> Stage {
        self.with_state(
            StateView {
                phase,
                error,
                turn_id: None,
                compacting: false,
                approval: None,
                notice: None,
                ..self.state()
            },
        )
    }
}

/// A block whose tool call has not begun to run.
pub open spec fn is_waiting(block: BlockView) -> bool {
    match block.tool {
        Some(tool) => tool.status == ToolStatus::Streaming || tool.status == ToolStatus::Pending,
        None => false,
    }
}

/// A block whose tool call has no result.
pub open spec fn is_open(block: BlockView) -> bool {
    match block.tool {
        Some(tool) => tool.status != ToolStatus::Done && tool.status != ToolStatus::Failed,
        None => false,
    }
}

/// A block whose tool call failed for `reason`.
pub open spec fn failed(block: BlockView, reason: Seq<char>, now: u64) -> BlockView {
    let tool = block.tool->0;
    BlockView {
        tool: Some(
            ToolModel {
                status: ToolStatus::Failed,
                output: match tool.output {
                    Some(output) => Some(output),
                    None => Some(reason),
                },
                ..tool
            },
        ),
        timer: block.timer.paused(now),
        ..block
    }
}

/// A block with more text in one of its fields.
pub open spec fn append_field(block: BlockView, field: Seq<char>, text: Seq<char>) -> BlockView {
    if field == "content"@ {
        BlockView { content: block.content + text, ..block }
    } else {
        match block.tool {
            Some(tool) => BlockView {
                tool: Some(
                    if field == "arguments"@ {
                        ToolModel { arguments: tool.arguments + text, ..tool }
                    } else {
                        ToolModel {
                            output: match tool.output {
                                Some(output) => Some(output + text),
                                None => Some(text),
                            },
                            ..tool
                        }
                    },
                ),
                ..block
            },
            None => block,
        }
    }
}

/// The index of the last message of the user; minus one where there is none.
pub open spec fn last_user(blocks: Seq<BlockView>) -> int
    decreases blocks.len(),
{
    if blocks.len() == 0 {
        -1
    } else if blocks.last().kind == BlockKind::User || blocks.last().kind == BlockKind::Steer {
        blocks.len() - 1
    } else {
        last_user(blocks.drop_last())
    }
}

/// Where the note goes that the context was compacted: in front of the message
/// that the running turn answers, or last.
pub open spec fn compaction_place(p: ProjectionView) -> int {
    let blocks = p.snapshot.blocks;
    let found = last_user(blocks);
    if p.snapshot.state.turn_id is Some && !p.snapshot.state.compacting && found >= 0 {
        found
    } else {
        blocks.len() as int
    }
}

/// How an answer to a request to run `tool` is told.
pub open spec fn decision_text(tool: Seq<char>, decision: ApprovalDecision) -> Seq<char> {
    match decision {
        ApprovalDecision::AllowOnce => "Tool approved: "@ + tool + " · once"@,
        ApprovalDecision::AllowSession => "Tool approved: "@ + tool + " · session"@,
        ApprovalDecision::Deny => "Tool denied: "@ + tool,
    }
}

/// The deltas of a response: text goes to the block of that kind, which is made
/// where there is none.
pub open spec fn add_delta(st: Stage, thinking: bool, delta: Seq<char>, now: u64) -> Stage {
    let first = if thinking {
        st
    } else {
        st.pause_reasoning(now)
    };
    let current = if thinking {
        first.p.reasoning
    } else {
        first.p.assistant
    };
    match current {
        Some(i) => first.append(i as int, "content"@, delta),
        None => {
            let kind = if thinking {
                BlockKind::Thinking
            } else {
                BlockKind::Assistant
            };
            let fresh = new_block(first.p, kind, Seq::empty());
            let i = first.blocks().len() as usize;
            let next = first.push(
                BlockView {
                    model: first.state().response_model,
                    timer: if thinking {
                        fresh.timer.resumed(now)
                    } else {
                        fresh.timer
                    },
                    ..fresh
                },
            );
            Stage {
                p: if thinking {
                    ProjectionView { reasoning: Some(i), ..next.p }
                } else {
                    ProjectionView { assistant: Some(i), ..next.p }
                },
                changes: next.changes,
            }.append(i as int, "content"@, delta)
        },
    }
}

/// The text so far was no answer but goes with tool calls.
pub open spec fn demote_answer(st: Stage) -> Stage {
    match st.p.assistant {
        Some(i) if st.blocks()[i as int].kind != BlockKind::Status => st.set(
            i as int,
            BlockView { kind: BlockKind::Status, ..st.blocks()[i as int] },
        ),
        _ => st,
    }
}

/// The block of the call at `index` of the response exists.
pub open spec fn open_draft(
    st: Stage,
    index: usize,
    name: Option<Seq<char>>,
    now: u64,
) -> Stage {
    if st.p.drafts.contains_key(index) {
        st
    } else {
        let fresh = new_block(st.p, BlockKind::Tool, Seq::empty());
        let next = st.push(
            BlockView {
                timer: fresh.timer.resumed(now),
                tool: Some(
                    ToolModel {
                        call_id: None,
                        name: match name {
                            Some(name) => name,
                            None => Seq::empty(),
                        },
                        arguments: Seq::empty(),
                        output: None,
                        diff: None,
                        status: ToolStatus::Streaming,
                    },
                ),
                ..fresh
            },
        );
        Stage {
            p: ProjectionView {
                drafts: next.p.drafts.insert(index, st.blocks().len() as usize),
                ..next.p
            },
            changes: next.changes,
        }
    }
}

/// A piece of a tool call arrived.
pub open spec fn add_call_delta(
    st: Stage,
    index: usize,
    name: Option<Seq<char>>,
    arguments: Seq<char>,
    now: u64,
) -> Stage {
    let opened = open_draft(demote_answer(st.pause_reasoning(now)), index, name, now);
    let i = opened.p.drafts[index] as int;
    let named = match name {
        Some(name) => opened.set_tool(i, ToolModel { name, ..opened.blocks()[i].tool->0 }),
        None => opened,
    };
    named.append(i, "arguments"@, arguments)
}

/// A tool call is written out.
pub open spec fn finish_call(st: Stage, index: usize, call: ToolCallView) -> Stage {
    if st.p.drafts.contains_key(index) {
        let i = st.p.drafts[index];
        Stage {
            p: ProjectionView {
                drafts: st.p.drafts.remove(index),
                calls: st.p.calls.insert(call.id, i),
                ..st.p
            },
            changes: st.changes,
        }.set_tool(
            i as int,
            ToolModel {
                call_id: Some(call.id),
                name: call.name,
                arguments: written_pretty(call.arguments),
                status: ToolStatus::Pending,
                ..st.blocks()[i as int].tool->0
            },
        )
    } else {
        st
    }
}

/// A tool call waits for the user.
pub open spec fn request_approval(
    st: Stage,
    approval_id: Seq<char>,
    call: ToolCallView,
    now: u64,
) -> Stage {
    let held = st.hold_from(0, now);
    let marked = if held.p.calls.contains_key(call.id) {
        let i = held.p.calls[call.id] as int;
        held.set_tool(
            i,
            ToolModel { status: ToolStatus::WaitingApproval, ..held.blocks()[i].tool->0 },
        )
    } else {
        held
    };
    marked.with_state(
        StateView {
            approval: Some(ApprovalView { id: approval_id, call }),
            phase: "approval"@,
            ..marked.state()
        },
    )
}

/// A tool began to run.
pub open spec fn start_tool(st: Stage, call_id: Seq<char>, now: u64) -> Stage {
    let next = st.with_state(StateView { phase: "tool"@, ..st.state() });
    if next.p.calls.contains_key(call_id) {
        let i = next.p.calls[call_id] as int;
        let block = next.blocks()[i];
        next.set(
            i,
            BlockView {
                timer: block.timer.resumed(now),
                tool: Some(ToolModel { status: ToolStatus::Running, ..block.tool->0 }),
                ..block
            },
        )
    } else {
        next
    }
}

/// A running tool printed something.
pub open spec fn add_output(st: Stage, call_id: Seq<char>, delta: Seq<char>) -> Stage {
    if st.p.calls.contains_key(call_id) {
        let i = st.p.calls[call_id] as int;
        if st.blocks()[i].tool->0.status == ToolStatus::Running {
            st.append(i, "output"@, delta)
        } else {
            st
        }
    } else {
        st
    }
}

/// A tool is done.
pub open spec fn finish_tool(
    st: Stage,
    call_id: Seq<char>,
    output: Seq<char>,
    success: bool,
    diff: Option<Seq<char>>,
    now: u64,
) -> Stage {
    if st.p.calls.contains_key(call_id) {
        let i = st.p.calls[call_id] as int;
        let block = st.blocks()[i];
        st.set(
            i,
            BlockView {
                timer: block.timer.paused(now),
                tool: Some(
                    ToolModel {
                        output: Some(output),
                        diff,
                        status: if success {
                            ToolStatus::Done
                        } else {
                            ToolStatus::Failed
                        },
                        ..block.tool->0
                    },
                ),
                ..block
            },
        )
    } else {
        st
    }
}

/// A tool showed an image.
pub open spec fn add_image(st: Stage, call_id: Seq<char>, image: ImageView) -> Stage {
    if st.p.calls.contains_key(call_id) {
        let i = st.p.calls[call_id] as int;
        let block = st.blocks()[i];
        st.set(i, BlockView { images: block.images.push(image), ..block })
    } else {
        st
    }
}

/// The context was compacted.
pub open spec fn note_compaction(st: Stage, summary: Seq<char>) -> Stage {
    let at = compaction_place(st.p);
    let before = if at < st.blocks().len() {
        Some(st.blocks()[at].id)
    } else {
        None
    };
    let next = st.insert(
        at,
        before,
        BlockView {
            summary: Some(summary),
            ..new_block(st.p, BlockKind::System, "context compacted"@)
        },
    );
    let moved = ProjectionView {
        assistant: match next.p.assistant {
            Some(i) => Some(shifted(i, at as usize)),
            None => None,
        },
        reasoning: match next.p.reasoning {
            Some(i) => Some(shifted(i, at as usize)),
            None => None,
        },
        calls: shifted_table(next.p.calls, at as usize),
        drafts: shifted_table(next.p.drafts, at as usize),
        ..next.p
    };
    Stage {
        p: set_state(moved, StateView { notice: None, ..moved.snapshot.state }),
        changes: next.changes,
    }
}

/// A message of the user was taken up; one that came during a turn waits.
pub open spec fn accept_message(st: Stage, message: MessageView) -> Stage {
    let next = st.add_messages(seq![message]);
    match message {
        MessageView::Steer { .. } => {
            let counted = next.with_state(
                StateView {
                    queued_steers: (next.state().queued_steers + 1) as usize,
                    ..next.state()
                },
            );
            let i = counted.blocks().len() - 1;
            counted.set(i, BlockView { queued: true, ..counted.blocks()[i] })
        },
        _ => next,
    }
}

/// Why the tools that are open when `event` ends a turn have failed.
pub open spec fn end_reason(event: Event) -> Seq<char> {
    match event {
        Event::Error(error) => "Error: "@ + error@,
        _ => CANCELLED_BY_USER@,
    }
}

/// A turn is over, as `event` says.
pub open spec fn end_turn(st: Stage, event: Event, now: u64) -> Stage {
    let closed = st.close_turn(end_reason(event), now);
    match event {
        Event::Error(error) => {
            let done = closed.deliver(usize::MAX);
            done.push(new_block(done.p, BlockKind::Error, error@)).rest("error"@, Some(error@))
        },
        Event::GenerationCancelled => {
            let done = closed.deliver(usize::MAX);
            done.push(new_block(done.p, BlockKind::System, CANCELLED_BY_USER@)).rest(
                "idle"@,
                done.state().error,
            )
        },
        _ => closed.rest("idle"@, closed.state().error),
    }
}

/// A request to the model begins.
pub open spec fn begin_request(st: Stage, model: Seq<char>, now: u64) -> Stage {
    let first = st.pause_reasoning(now);
    Stage {
        p: set_state(
            ProjectionView { assistant: None, drafts: Map::empty(), ..first.p },
            StateView { response_model: model, phase: "connecting"@, ..first.state() },
        ),
        changes: first.changes,
    }
}

/// The project, without the text of its changes.
pub open spec fn outline(project: ProjectView) -> ProjectView {
    ProjectView { git_diff: Seq::empty(), git_diff_path: None, ..project }
}

/// Whether an event says something of the state of a session, so that the whole
/// state is sent behind it.
pub open spec fn touches_state(event: Event) -> bool {
    match event {
        Event::ProjectChanged(_) => false,
        Event::PlanChanged(_) => false,
        Event::TextDelta(_) => false,
        Event::ReasoningDelta(_) => false,
        Event::ToolCallDelta { .. } => false,
        Event::ToolCallFinished { .. } => false,
        Event::ToolOutputDelta { .. } => false,
        Event::ToolImage { .. } => false,
        Event::Ready => false,
        Event::Barrier => false,
        Event::RefreshProject => false,
        Event::PromptRejected(_) => false,
        Event::Saved => false,
        _ => true,
    }
}

/// What an event does to the blocks, the places and the state.
pub open spec fn effect(st: Stage, event: Event, now: u64) -> Stage {
    let state = st.state();
    match event {
        Event::History(messages) => st.add_messages(messages.deep_view()),
        Event::MessageAccepted(message) => accept_message(st, message.deep_view()),
        Event::OperationStarted { id, compacting } => st.with_state(
            StateView {
                turn_id: Some(id@),
                compacting,
                phase: if compacting {
                    "compacting"@
                } else {
                    "connecting"@
                },
                error: None,
                ..state
            },
        ),
        Event::SessionChanged(title) => st.with_state(StateView { title: title@, ..state }),
        Event::UsageChanged { total_tokens, total_cost } => st.with_state(
            StateView { total_tokens, total_cost, ..state },
        ),
        Event::ContextChanged { tokens, max_tokens } => st.with_state(
            StateView { context_tokens: tokens, max_context_tokens: max_tokens, ..state },
        ),
        Event::SettingsChanged { model, reasoning_effort } => st.with_state(
            StateView { model: model@, reasoning_effort, ..state },
        ),
        Event::SettingsRevision(revision) => st.with_state(
            StateView { settings_revision: revision, ..state },
        ),
        Event::ProjectChanged(project) => Stage {
            p: ProjectionView {
                snapshot: SnapshotView {
                    project: outline(project.deep_view()),
                    ..st.p.snapshot
                },
                ..st.p
            },
            changes: st.changes.push(
                ChangeView::Project { project: outline(project.deep_view()) },
            ),
        },
        Event::PlanChanged(plan) => Stage {
            p: ProjectionView {
                snapshot: SnapshotView { plan: plan.deep_view(), ..st.p.snapshot },
                ..st.p
            },
            changes: st.changes.push(ChangeView::Plan { plan: plan.deep_view() }),
        },
        Event::GenerationStarted => st.with_state(
            StateView {
                output_tokens: 0,
                generation_ms: 0,
                error: None,
                notice: None,
                ..state
            },
        ),
        Event::ModelRequestStarted(model) => begin_request(st, model@, now),
        Event::ResponseHeadersReceived => st.with_state(
            StateView { phase: "waiting"@, notice: None, ..state },
        ),
        Event::ResponseStarted => st.with_state(StateView { phase: "generating"@, ..state }),
        Event::ModelResponseFinished { output_tokens, duration_ms } => st.with_state(
            StateView {
                output_tokens: (state.output_tokens + output_tokens) as u64,
                generation_ms: (state.generation_ms + duration_ms) as u64,
                ..state
            },
        ),
        Event::TextDelta(delta) => add_delta(st, false, delta@, now),
        Event::ReasoningDelta(delta) => add_delta(st, true, delta@, now),
        Event::ToolCallDelta { index, name, arguments } => add_call_delta(
            st,
            index,
            name.deep_view(),
            arguments@,
            now,
        ),
        Event::ToolCallFinished { index, call } => finish_call(st, index, call.deep_view()),
        Event::ApprovalRequested { approval_id, call } => request_approval(
            st,
            approval_id@,
            call.deep_view(),
            now,
        ),
        Event::ApprovalResolved { tool, decision, .. } => {
            let next = st.with_state(StateView { approval: None, ..state });
            next.push(new_block(next.p, BlockKind::System, decision_text(tool@, decision)))
        },
        Event::ToolStarted { call_id } => start_tool(st, call_id@, now),
        Event::ToolOutputDelta { call_id, delta } => add_output(st, call_id@, delta@),
        Event::ToolResult { call_id, output, success, diff } => finish_tool(
            st,
            call_id@,
            output@,
            success,
            diff.deep_view(),
            now,
        ),
        Event::ToolImage { call_id, image } => add_image(st, call_id@, image.deep_view()),
        Event::SteersDelivered(count) => st.deliver(count),
        Event::Retrying { seconds } => st.with_state(
            StateView {
                phase: "retrying"@,
                notice: Some("retrying in "@ + digits(seconds as nat) + "s"@),
                ..state
            },
        ),
        Event::CompactionStarted => st.with_state(
            StateView { phase: "compacting"@, notice: Some("compacting context"@), ..state },
        ),
        Event::ContextCompacted { summary } => note_compaction(st, summary@),
        Event::GenerationFinished => end_turn(st, event, now),
        Event::GenerationCancelled => end_turn(st, event, now),
        Event::Error(_) => end_turn(st, event, now),
        Event::Notice(notice) => st.with_state(StateView { notice: Some(notice@), ..state }),
        _ => st,
    }
}

/// The projection behind an event, and the changes that are sent out.
pub open spec fn step(p: ProjectionView, event: Event, now: u64) -> Stage {
    let done = effect(Stage { p, changes: Seq::empty() }, event, now);
    Stage {
        p: ProjectionView {
            snapshot: SnapshotView { seq: (p.snapshot.seq + 1) as u64, ..done.p.snapshot },
            ..done.p
        },
        changes: if touches_state(event) {
            done.changes.push(ChangeView::State { state: done.state() })
        } else {
            done.changes
        },
    }
}

} // verus!
