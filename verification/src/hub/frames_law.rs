//! What holds of what clients are sent: that it shows what the core holds.
use super::catalog::{activity, entry_index, is_listed, observed, resting_entry, Update};
use super::frames::{
    accepted_json, approval_json, block_json, catalog_json, change_json, entry_json, event_json,
    plan_json, project_json, project_update_json, resync_json, state_json, step_json,
    subscribed_json, timer_json, tool_json,
};
use super::state::{
    ApprovalView, BlockKind, BlockView, ChangeView, Snapshot, StateView, Timer, ToolModel,
    ToolStatus,
};
use crate::json::JsonView;
use crate::json_law::{entries_law, entry_law, no_entry_law, one_entry_law};
use crate::project::{ProjectUpdateView, ProjectView};
use crate::protocol::{AcceptedView, EntryView};
use crate::runtime::budget::{call_json, images_json};
use crate::runtime::event::Event;
use crate::session::{InfoView, MetaView};
use crate::text::digits;
use crate::tool::{PlanStatus, PlanStepView, PlanView};
use vstd::prelude::*;
use vstd::string::*;

verus! {

// ---------------------------------------------------------------------------
// Parts
// ---------------------------------------------------------------------------

/// Under `key` stands a text, or null where there is none.
pub open spec fn shows(json: JsonView, key: Seq<char>, value: Option<Seq<char>>) -> bool {
    &&& value is Some ==> json.text_at(key) == value
    &&& value is None ==> json.get(key) == Some(JsonView::Null)
}

/// Under `key` stands a number.
pub open spec fn counts(json: JsonView, key: Seq<char>, n: u64) -> bool {
    json.get(key) == Some(JsonView::Unsigned(n))
}

/// Under `key` stands a truth value.
pub open spec fn tells(json: JsonView, key: Seq<char>, b: bool) -> bool {
    json.get(key) == Some(JsonView::Bool(b))
}

/// A step is shown with its words and how far it is.
pub proof fn step_law(step: PlanStepView)
    ensures
        step_json(step).text_at("step"@) == Some(step.step),
        step.status == PlanStatus::Pending ==> step_json(step).text_at("status"@) == Some("pending"@),
        step.status == PlanStatus::InProgress ==> step_json(step).text_at("status"@) == Some(
            "in_progress"@,
        ),
        step.status == PlanStatus::Completed ==> step_json(step).text_at("status"@) == Some(
            "completed"@,
        ),
{
    reveal_strlit("step");
    reveal_strlit("status");
    assert("step"@.len() != "status"@.len());
    let fields = step_json(step)->Object_0;
    assert(fields[0].0 == "step"@);
    assert(fields[1].0 == "status"@);
    entry_law(fields, 0);
    assert forall|k: int| 0 <= k < 1 implies (#[trigger] fields[k]).0 != fields[1].0 by {
        assert(k == 0);
    }
    entry_law(fields, 1);
}

/// A plan is shown with its steps, in their order, and with its explanation where it has one.
pub proof fn plan_law(plan: PlanView, i: int)
    ensures
        plan_json(None) == JsonView::Null,
        plan_json(Some(plan)).text_at("explanation"@) == plan.explanation,
        plan_json(Some(plan)).get("plan"@) is Some,
        plan_json(Some(plan)).get("plan"@)->0 is Array,
        plan_json(Some(plan)).get("plan"@)->0->Array_0.len() == plan.plan.len(),
        0 <= i < plan.plan.len() ==> plan_json(Some(plan)).get("plan"@)->0->Array_0[i] == step_json(
            plan.plan[i],
        ),
{
    reveal_strlit("explanation");
    reveal_strlit("plan");
    assert("explanation"@.len() != "plan"@.len());
    let steps = JsonView::Array(plan.plan.map_values(|s: PlanStepView| step_json(s)));
    let first = crate::runtime::budget::entry_if(
        plan.explanation is Some,
        "explanation"@,
        JsonView::Text(plan.explanation->0),
    );
    let last = seq![("plan"@, steps)];
    entries_law(first, last, "explanation"@);
    entries_law(first, last, "plan"@);
    one_entry_law("explanation"@, JsonView::Text(plan.explanation->0), "explanation"@);
    one_entry_law("explanation"@, JsonView::Text(plan.explanation->0), "plan"@);
    one_entry_law("plan"@, steps, "plan"@);
    one_entry_law("plan"@, steps, "explanation"@);
    no_entry_law(Seq::empty(), "plan"@);
    no_entry_law(Seq::empty(), "explanation"@);
}

/// A project is shown with its place, its texts in their order, and what changed in it.
pub proof fn project_law(project: ProjectView, i: int)
    ensures
        project_json(project).text_at("cwd"@) == Some(project.cwd),
        project_json(project).text_at("git_status"@) == Some(project.git_status),
        project_json(project).text_at("git_diff"@) == Some(project.git_diff),
        shows(project_json(project), "git_diff_path"@, project.git_diff_path),
        project_json(project).get("context"@) is Some,
        project_json(project).get("context"@)->0 is Array,
        project_json(project).get("context"@)->0->Array_0.len() == project.context.len(),
        0 <= i < project.context.len() ==> project_json(project).get("context"@)->0->Array_0[i]
            == JsonView::Text(project.context[i]),
{
    reveal_strlit("cwd");
    reveal_strlit("context");
    reveal_strlit("git_status");
    reveal_strlit("git_diff");
    reveal_strlit("git_diff_path");
    assert("cwd"@.len() != "context"@.len());
    assert("cwd"@.len() != "git_status"@.len());
    assert("cwd"@.len() != "git_diff"@.len());
    assert("cwd"@.len() != "git_diff_path"@.len());
    assert("context"@.len() != "git_status"@.len());
    assert("context"@.len() != "git_diff"@.len());
    assert("context"@.len() != "git_diff_path"@.len());
    assert("git_status"@.len() != "git_diff"@.len());
    assert("git_status"@.len() != "git_diff_path"@.len());
    assert("git_diff"@.len() != "git_diff_path"@.len());
    let fields = project_json(project)->Object_0;
    assert(fields[0].0 == "cwd"@);
    assert(fields[1].0 == "context"@);
    assert(fields[2].0 == "git_status"@);
    assert(fields[3].0 == "git_diff"@);
    assert(fields[4].0 == "git_diff_path"@);
    entry_law(fields, 0);
    assert forall|k: int| 0 <= k < 1 implies (#[trigger] fields[k]).0 != fields[1].0 by {
        assert(k == 0);
    }
    entry_law(fields, 1);
    assert forall|k: int| 0 <= k < 2 implies (#[trigger] fields[k]).0 != fields[2].0 by {
        assert(k == 0 || k == 1);
    }
    entry_law(fields, 2);
    assert forall|k: int| 0 <= k < 3 implies (#[trigger] fields[k]).0 != fields[3].0 by {
        assert(k == 0 || k == 1 || k == 2);
    }
    entry_law(fields, 3);
    assert forall|k: int| 0 <= k < 4 implies (#[trigger] fields[k]).0 != fields[4].0 by {
        assert(k == 0 || k == 1 || k == 2 || k == 3);
    }
    entry_law(fields, 4);
}

/// A tool call is shown with its id, its name, what it was given, what came of it and how far
/// it is.
pub proof fn tool_law(tool: ToolModel)
    ensures
        tool_json(None) == JsonView::Null,
        shows(tool_json(Some(tool)), "call_id"@, tool.call_id),
        tool_json(Some(tool)).text_at("name"@) == Some(tool.name),
        tool_json(Some(tool)).text_at("arguments"@) == Some(tool.arguments),
        shows(tool_json(Some(tool)), "output"@, tool.output),
        shows(tool_json(Some(tool)), "diff"@, tool.diff),
        tool_json(Some(tool)).text_at("status"@) == Some(
            match tool.status {
                ToolStatus::Streaming => "streaming"@,
                ToolStatus::Pending => "pending"@,
                ToolStatus::WaitingApproval => "waiting_approval"@,
                ToolStatus::Running => "running"@,
                ToolStatus::Done => "done"@,
                ToolStatus::Failed => "failed"@,
            },
        ),
{
    reveal_strlit("call_id");
    reveal_strlit("name");
    reveal_strlit("arguments");
    reveal_strlit("output");
    reveal_strlit("diff");
    reveal_strlit("status");
    assert("call_id"@.len() != "name"@.len());
    assert("call_id"@.len() != "arguments"@.len());
    assert("call_id"@.len() != "output"@.len());
    assert("call_id"@.len() != "diff"@.len());
    assert("call_id"@.len() != "status"@.len());
    assert("name"@.len() != "arguments"@.len());
    assert("name"@.len() != "output"@.len());
    assert("name"@[0] != "diff"@[0]);
    assert("name"@.len() != "status"@.len());
    assert("arguments"@.len() != "output"@.len());
    assert("arguments"@.len() != "diff"@.len());
    assert("arguments"@.len() != "status"@.len());
    assert("output"@.len() != "diff"@.len());
    assert("output"@[0] != "status"@[0]);
    assert("diff"@.len() != "status"@.len());
    let fields = tool_json(Some(tool))->Object_0;
    assert(fields[0].0 == "call_id"@);
    assert(fields[1].0 == "name"@);
    assert(fields[2].0 == "arguments"@);
    assert(fields[3].0 == "output"@);
    assert(fields[4].0 == "diff"@);
    assert(fields[5].0 == "status"@);
    entry_law(fields, 0);
    assert forall|k: int| 0 <= k < 1 implies (#[trigger] fields[k]).0 != fields[1].0 by {
        assert(k == 0);
    }
    entry_law(fields, 1);
    assert forall|k: int| 0 <= k < 2 implies (#[trigger] fields[k]).0 != fields[2].0 by {
        assert(k == 0 || k == 1);
    }
    entry_law(fields, 2);
    assert forall|k: int| 0 <= k < 3 implies (#[trigger] fields[k]).0 != fields[3].0 by {
        assert(k == 0 || k == 1 || k == 2);
    }
    entry_law(fields, 3);
    assert forall|k: int| 0 <= k < 4 implies (#[trigger] fields[k]).0 != fields[4].0 by {
        assert(k == 0 || k == 1 || k == 2 || k == 3);
    }
    entry_law(fields, 4);
    assert forall|k: int| 0 <= k < 5 implies (#[trigger] fields[k]).0 != fields[5].0 by {
        assert(k == 0 || k == 1 || k == 2 || k == 3 || k == 4);
    }
    entry_law(fields, 5);
}

/// A stopwatch is shown in whole milliseconds.
pub proof fn timer_law(timer: Timer, now: u64)
    ensures
        tells(timer_json(timer, now), "running"@, timer.started is Some),
        timer.started is None ==> counts(
            timer_json(timer, now),
            "elapsed_ms"@,
            timer.elapsed / 1_000_000,
        ),
        timer.started is Some && timer.started->0 <= now && timer.elapsed + (now - timer.started->0)
            <= u64::MAX ==> counts(
            timer_json(timer, now),
            "elapsed_ms"@,
            ((timer.elapsed + (now - timer.started->0)) / 1_000_000) as u64,
        ),
{
    reveal_strlit("elapsed_ms");
    reveal_strlit("running");
    assert("elapsed_ms"@.len() != "running"@.len());
    let fields = timer_json(timer, now)->Object_0;
    assert(fields[0].0 == "elapsed_ms"@);
    assert(fields[1].0 == "running"@);
    entry_law(fields, 0);
    assert forall|k: int| 0 <= k < 1 implies (#[trigger] fields[k]).0 != fields[1].0 by {
        assert(k == 0);
    }
    entry_law(fields, 1);
}

/// A block is shown with all that it holds.
pub proof fn block_law(block: BlockView, now: u64)
    ensures
        block_json(block, now).text_at("id"@) == Some(block.id),
        block_json(block, now).text_at("kind"@) == Some(
            match block.kind {
                BlockKind::User => "user"@,
                BlockKind::Steer => "steer"@,
                BlockKind::Assistant => "assistant"@,
                BlockKind::Status => "status"@,
                BlockKind::System => "system"@,
                BlockKind::Error => "error"@,
                BlockKind::Thinking => "thinking"@,
                BlockKind::Tool => "tool"@,
            },
        ),
        block_json(block, now).text_at("content"@) == Some(block.content),
        block_json(block, now).text_at("model"@) == Some(block.model),
        block_json(block, now).get("images"@) == Some(images_json(block.images)),
        shows(block_json(block, now), "summary"@, block.summary),
        block_json(block, now).get("tool"@) == Some(tool_json(block.tool)),
        block_json(block, now).get("timer"@) == Some(timer_json(block.timer, now)),
        tells(block_json(block, now), "queued"@, block.queued),
{
    reveal_strlit("id");
    reveal_strlit("kind");
    reveal_strlit("content");
    reveal_strlit("model");
    reveal_strlit("images");
    reveal_strlit("summary");
    reveal_strlit("tool");
    reveal_strlit("timer");
    reveal_strlit("queued");
    assert("id"@.len() != "kind"@.len());
    assert("id"@.len() != "content"@.len());
    assert("id"@.len() != "model"@.len());
    assert("id"@.len() != "images"@.len());
    assert("id"@.len() != "summary"@.len());
    assert("id"@.len() != "tool"@.len());
    assert("id"@.len() != "timer"@.len());
    assert("id"@.len() != "queued"@.len());
    assert("kind"@.len() != "content"@.len());
    assert("kind"@.len() != "model"@.len());
    assert("kind"@.len() != "images"@.len());
    assert("kind"@.len() != "summary"@.len());
    assert("kind"@[0] != "tool"@[0]);
    assert("kind"@.len() != "timer"@.len());
    assert("kind"@.len() != "queued"@.len());
    assert("content"@.len() != "model"@.len());
    assert("content"@.len() != "images"@.len());
    assert("content"@[0] != "summary"@[0]);
    assert("content"@.len() != "tool"@.len());
    assert("content"@.len() != "timer"@.len());
    assert("content"@.len() != "queued"@.len());
    assert("model"@.len() != "images"@.len());
    assert("model"@.len() != "summary"@.len());
    assert("model"@.len() != "tool"@.len());
    assert("model"@[0] != "timer"@[0]);
    assert("model"@.len() != "queued"@.len());
    assert("images"@.len() != "summary"@.len());
    assert("images"@.len() != "tool"@.len());
    assert("images"@.len() != "timer"@.len());
    assert("images"@[0] != "queued"@[0]);
    assert("summary"@.len() != "tool"@.len());
    assert("summary"@.len() != "timer"@.len());
    assert("summary"@.len() != "queued"@.len());
    assert("tool"@.len() != "timer"@.len());
    assert("tool"@.len() != "queued"@.len());
    assert("timer"@.len() != "queued"@.len());
    let fields = block_json(block, now)->Object_0;
    assert(fields[0].0 == "id"@);
    assert(fields[1].0 == "kind"@);
    assert(fields[2].0 == "content"@);
    assert(fields[3].0 == "model"@);
    assert(fields[4].0 == "images"@);
    assert(fields[5].0 == "summary"@);
    assert(fields[6].0 == "tool"@);
    assert(fields[7].0 == "timer"@);
    assert(fields[8].0 == "queued"@);
    entry_law(fields, 0);
    assert forall|k: int| 0 <= k < 1 implies (#[trigger] fields[k]).0 != fields[1].0 by {
        assert(k == 0);
    }
    entry_law(fields, 1);
    assert forall|k: int| 0 <= k < 2 implies (#[trigger] fields[k]).0 != fields[2].0 by {
        assert(k == 0 || k == 1);
    }
    entry_law(fields, 2);
    assert forall|k: int| 0 <= k < 3 implies (#[trigger] fields[k]).0 != fields[3].0 by {
        assert(k == 0 || k == 1 || k == 2);
    }
    entry_law(fields, 3);
    assert forall|k: int| 0 <= k < 4 implies (#[trigger] fields[k]).0 != fields[4].0 by {
        assert(k == 0 || k == 1 || k == 2 || k == 3);
    }
    entry_law(fields, 4);
    assert forall|k: int| 0 <= k < 5 implies (#[trigger] fields[k]).0 != fields[5].0 by {
        assert(k == 0 || k == 1 || k == 2 || k == 3 || k == 4);
    }
    entry_law(fields, 5);
    assert forall|k: int| 0 <= k < 6 implies (#[trigger] fields[k]).0 != fields[6].0 by {
        assert(k == 0 || k == 1 || k == 2 || k == 3 || k == 4 || k == 5);
    }
    entry_law(fields, 6);
    assert forall|k: int| 0 <= k < 7 implies (#[trigger] fields[k]).0 != fields[7].0 by {
        assert(k == 0 || k == 1 || k == 2 || k == 3 || k == 4 || k == 5 || k == 6);
    }
    entry_law(fields, 7);
    assert forall|k: int| 0 <= k < 8 implies (#[trigger] fields[k]).0 != fields[8].0 by {
        assert(k == 0 || k == 1 || k == 2 || k == 3 || k == 4 || k == 5 || k == 6 || k == 7);
    }
    entry_law(fields, 8);
}

/// A question is shown with its id and the call that it is about.
pub proof fn question_law(approval: ApprovalView)
    ensures
        approval_json(None) == JsonView::Null,
        approval_json(Some(approval)).text_at("id"@) == Some(approval.id),
        approval_json(Some(approval)).get("call"@) == Some(call_json(approval.call)),
{
    reveal_strlit("id");
    reveal_strlit("call");
    assert("id"@.len() != "call"@.len());
    let fields = approval_json(Some(approval))->Object_0;
    assert(fields[0].0 == "id"@);
    assert(fields[1].0 == "call"@);
    entry_law(fields, 0);
    assert forall|k: int| 0 <= k < 1 implies (#[trigger] fields[k]).0 != fields[1].0 by {
        assert(k == 0);
    }
    entry_law(fields, 1);
}

/// A call is shown with its id, its name and what it is given.
pub proof fn call_law(call: crate::runtime::message::ToolCallView)
    ensures
        call_json(call).text_at("id"@) == Some(call.id),
        call_json(call).text_at("name"@) == Some(call.name),
        call_json(call).get("arguments"@) == Some(call.arguments),
{
    reveal_strlit("id");
    reveal_strlit("name");
    reveal_strlit("arguments");
    assert("id"@.len() != "name"@.len());
    assert("id"@.len() != "arguments"@.len());
    assert("name"@.len() != "arguments"@.len());
    let fields = call_json(call)->Object_0;
    assert(fields[0].0 == "id"@);
    assert(fields[1].0 == "name"@);
    assert(fields[2].0 == "arguments"@);
    entry_law(fields, 0);
    assert forall|k: int| 0 <= k < 1 implies (#[trigger] fields[k]).0 != fields[1].0 by {
        assert(k == 0);
    }
    entry_law(fields, 1);
    assert forall|k: int| 0 <= k < 2 implies (#[trigger] fields[k]).0 != fields[2].0 by {
        assert(k == 0 || k == 1);
    }
    entry_law(fields, 2);
}

/// The state is shown with all that it holds, each part under its own key.
pub proof fn state_law(state: StateView, cost: Option<Seq<char>>)
    ensures
        state_json(state, cost).text_at("title"@) == Some(state.title),
        shows(state_json(state, cost), "turn_id"@, state.turn_id),
        tells(state_json(state, cost), "compacting"@, state.compacting),
        state_json(state, cost).text_at("phase"@) == Some(state.phase),
        state_json(state, cost).text_at("model"@) == Some(state.model),
        state_json(state, cost).text_at("response_model"@) == Some(state.response_model),
        state.reasoning_effort is None ==> state_json(state, cost).get("reasoning_effort"@) == Some(
            JsonView::Null,
        ),
        state.reasoning_effort is Some ==> state_json(state, cost).text_at("reasoning_effort"@) == Some(
            crate::runtime::effort_name(state.reasoning_effort->0),
        ),
        counts(state_json(state, cost), "settings_revision"@, state.settings_revision),
        counts(state_json(state, cost), "total_tokens"@, state.total_tokens),
        cost is Some ==> state_json(state, cost).get("total_cost"@) == Some(JsonView::Decimal(cost->0)),
        cost is None ==> state_json(state, cost).get("total_cost"@) == Some(JsonView::Null),
        counts(state_json(state, cost), "context_tokens"@, state.context_tokens),
        counts(state_json(state, cost), "max_context_tokens"@, state.max_context_tokens),
        state_json(state, cost).get("approval"@) == Some(approval_json(state.approval)),
        counts(state_json(state, cost), "queued_steers"@, state.queued_steers as u64),
        shows(state_json(state, cost), "error"@, state.error),
        shows(state_json(state, cost), "notice"@, state.notice),
        counts(state_json(state, cost), "output_tokens"@, state.output_tokens),
        counts(state_json(state, cost), "generation_ms"@, state.generation_ms),
{
    reveal_strlit("title");
    reveal_strlit("turn_id");
    reveal_strlit("compacting");
    reveal_strlit("phase");
    reveal_strlit("model");
    reveal_strlit("response_model");
    reveal_strlit("reasoning_effort");
    reveal_strlit("settings_revision");
    reveal_strlit("total_tokens");
    reveal_strlit("total_cost");
    reveal_strlit("context_tokens");
    reveal_strlit("max_context_tokens");
    reveal_strlit("approval");
    reveal_strlit("queued_steers");
    reveal_strlit("error");
    reveal_strlit("notice");
    reveal_strlit("output_tokens");
    reveal_strlit("generation_ms");
    assert("title"@.len() != "turn_id"@.len());
    assert("title"@.len() != "compacting"@.len());
    assert("title"@[0] != "phase"@[0]);
    assert("title"@[0] != "model"@[0]);
    assert("title"@.len() != "response_model"@.len());
    assert("title"@.len() != "reasoning_effort"@.len());
    assert("title"@.len() != "settings_revision"@.len());
    assert("title"@.len() != "total_tokens"@.len());
    assert("title"@.len() != "total_cost"@.len());
    assert("title"@.len() != "context_tokens"@.len());
    assert("title"@.len() != "max_context_tokens"@.len());
    assert("title"@.len() != "approval"@.len());
    assert("title"@.len() != "queued_steers"@.len());
    assert("title"@[0] != "error"@[0]);
    assert("title"@.len() != "notice"@.len());
    assert("title"@.len() != "output_tokens"@.len());
    assert("title"@.len() != "generation_ms"@.len());
    assert("turn_id"@.len() != "compacting"@.len());
    assert("turn_id"@.len() != "phase"@.len());
    assert("turn_id"@.len() != "model"@.len());
    assert("turn_id"@.len() != "response_model"@.len());
    assert("turn_id"@.len() != "reasoning_effort"@.len());
    assert("turn_id"@.len() != "settings_revision"@.len());
    assert("turn_id"@.len() != "total_tokens"@.len());
    assert("turn_id"@.len() != "total_cost"@.len());
    assert("turn_id"@.len() != "context_tokens"@.len());
    assert("turn_id"@.len() != "max_context_tokens"@.len());
    assert("turn_id"@.len() != "approval"@.len());
    assert("turn_id"@.len() != "queued_steers"@.len());
    assert("turn_id"@.len() != "error"@.len());
    assert("turn_id"@.len() != "notice"@.len());
    assert("turn_id"@.len() != "output_tokens"@.len());
    assert("turn_id"@.len() != "generation_ms"@.len());
    assert("compacting"@.len() != "phase"@.len());
    assert("compacting"@.len() != "model"@.len());
    assert("compacting"@.len() != "response_model"@.len());
    assert("compacting"@.len() != "reasoning_effort"@.len());
    assert("compacting"@.len() != "settings_revision"@.len());
    assert("compacting"@.len() != "total_tokens"@.len());
    assert("compacting"@[0] != "total_cost"@[0]);
    assert("compacting"@.len() != "context_tokens"@.len());
    assert("compacting"@.len() != "max_context_tokens"@.len());
    assert("compacting"@.len() != "approval"@.len());
    assert("compacting"@.len() != "queued_steers"@.len());
    assert("compacting"@.len() != "error"@.len());
    assert("compacting"@.len() != "notice"@.len());
    assert("compacting"@.len() != "output_tokens"@.len());
    assert("compacting"@.len() != "generation_ms"@.len());
    assert("phase"@[0] != "model"@[0]);
    assert("phase"@.len() != "response_model"@.len());
    assert("phase"@.len() != "reasoning_effort"@.len());
    assert("phase"@.len() != "settings_revision"@.len());
    assert("phase"@.len() != "total_tokens"@.len());
    assert("phase"@.len() != "total_cost"@.len());
    assert("phase"@.len() != "context_tokens"@.len());
    assert("phase"@.len() != "max_context_tokens"@.len());
    assert("phase"@.len() != "approval"@.len());
    assert("phase"@.len() != "queued_steers"@.len());
    assert("phase"@[0] != "error"@[0]);
    assert("phase"@.len() != "notice"@.len());
    assert("phase"@.len() != "output_tokens"@.len());
    assert("phase"@.len() != "generation_ms"@.len());
    assert("model"@.len() != "response_model"@.len());
    assert("model"@.len() != "reasoning_effort"@.len());
    assert("model"@.len() != "settings_revision"@.len());
    assert("model"@.len() != "total_tokens"@.len());
    assert("model"@.len() != "total_cost"@.len());
    assert("model"@.len() != "context_tokens"@.len());
    assert("model"@.len() != "max_context_tokens"@.len());
    assert("model"@.len() != "approval"@.len());
    assert("model"@.len() != "queued_steers"@.len());
    assert("model"@[0] != "error"@[0]);
    assert("model"@.len() != "notice"@.len());
    assert("model"@.len() != "output_tokens"@.len());
    assert("model"@.len() != "generation_ms"@.len());
    assert("response_model"@.len() != "reasoning_effort"@.len());
    assert("response_model"@.len() != "settings_revision"@.len());
    assert("response_model"@.len() != "total_tokens"@.len());
    assert("response_model"@.len() != "total_cost"@.len());
    assert("response_model"@[0] != "context_tokens"@[0]);
    assert("response_model"@.len() != "max_context_tokens"@.len());
    assert("response_model"@.len() != "approval"@.len());
    assert("response_model"@.len() != "queued_steers"@.len());
    assert("response_model"@.len() != "error"@.len());
    assert("response_model"@.len() != "notice"@.len());
    assert("response_model"@.len() != "output_tokens"@.len());
    assert("response_model"@.len() != "generation_ms"@.len());
    assert("reasoning_effort"@.len() != "settings_revision"@.len());
    assert("reasoning_effort"@.len() != "total_tokens"@.len());
    assert("reasoning_effort"@.len() != "total_cost"@.len());
    assert("reasoning_effort"@.len() != "context_tokens"@.len());
    assert("reasoning_effort"@.len() != "max_context_tokens"@.len());
    assert("reasoning_effort"@.len() != "approval"@.len());
    assert("reasoning_effort"@.len() != "queued_steers"@.len());
    assert("reasoning_effort"@.len() != "error"@.len());
    assert("reasoning_effort"@.len() != "notice"@.len());
    assert("reasoning_effort"@.len() != "output_tokens"@.len());
    assert("reasoning_effort"@.len() != "generation_ms"@.len());
    assert("settings_revision"@.len() != "total_tokens"@.len());
    assert("settings_revision"@.len() != "total_cost"@.len());
    assert("settings_revision"@.len() != "context_tokens"@.len());
    assert("settings_revision"@.len() != "max_context_tokens"@.len());
    assert("settings_revision"@.len() != "approval"@.len());
    assert("settings_revision"@.len() != "queued_steers"@.len());
    assert("settings_revision"@.len() != "error"@.len());
    assert("settings_revision"@.len() != "notice"@.len());
    assert("settings_revision"@.len() != "output_tokens"@.len());
    assert("settings_revision"@.len() != "generation_ms"@.len());
    assert("total_tokens"@.len() != "total_cost"@.len());
    assert("total_tokens"@.len() != "context_tokens"@.len());
    assert("total_tokens"@.len() != "max_context_tokens"@.len());
    assert("total_tokens"@.len() != "approval"@.len());
    assert("total_tokens"@.len() != "queued_steers"@.len());
    assert("total_tokens"@.len() != "error"@.len());
    assert("total_tokens"@.len() != "notice"@.len());
    assert("total_tokens"@.len() != "output_tokens"@.len());
    assert("total_tokens"@.len() != "generation_ms"@.len());
    assert("total_cost"@.len() != "context_tokens"@.len());
    assert("total_cost"@.len() != "max_context_tokens"@.len());
    assert("total_cost"@.len() != "approval"@.len());
    assert("total_cost"@.len() != "queued_steers"@.len());
    assert("total_cost"@.len() != "error"@.len());
    assert("total_cost"@.len() != "notice"@.len());
    assert("total_cost"@.len() != "output_tokens"@.len());
    assert("total_cost"@.len() != "generation_ms"@.len());
    assert("context_tokens"@.len() != "max_context_tokens"@.len());
    assert("context_tokens"@.len() != "approval"@.len());
    assert("context_tokens"@.len() != "queued_steers"@.len());
    assert("context_tokens"@.len() != "error"@.len());
    assert("context_tokens"@.len() != "notice"@.len());
    assert("context_tokens"@.len() != "output_tokens"@.len());
    assert("context_tokens"@.len() != "generation_ms"@.len());
    assert("max_context_tokens"@.len() != "approval"@.len());
    assert("max_context_tokens"@.len() != "queued_steers"@.len());
    assert("max_context_tokens"@.len() != "error"@.len());
    assert("max_context_tokens"@.len() != "notice"@.len());
    assert("max_context_tokens"@.len() != "output_tokens"@.len());
    assert("max_context_tokens"@.len() != "generation_ms"@.len());
    assert("approval"@.len() != "queued_steers"@.len());
    assert("approval"@.len() != "error"@.len());
    assert("approval"@.len() != "notice"@.len());
    assert("approval"@.len() != "output_tokens"@.len());
    assert("approval"@.len() != "generation_ms"@.len());
    assert("queued_steers"@.len() != "error"@.len());
    assert("queued_steers"@.len() != "notice"@.len());
    assert("queued_steers"@[0] != "output_tokens"@[0]);
    assert("queued_steers"@[0] != "generation_ms"@[0]);
    assert("error"@.len() != "notice"@.len());
    assert("error"@.len() != "output_tokens"@.len());
    assert("error"@.len() != "generation_ms"@.len());
    assert("notice"@.len() != "output_tokens"@.len());
    assert("notice"@.len() != "generation_ms"@.len());
    assert("output_tokens"@[0] != "generation_ms"@[0]);
    let fields = state_json(state, cost)->Object_0;
    assert(fields[0].0 == "title"@);
    assert(fields[1].0 == "turn_id"@);
    assert(fields[2].0 == "compacting"@);
    assert(fields[3].0 == "phase"@);
    assert(fields[4].0 == "model"@);
    assert(fields[5].0 == "response_model"@);
    assert(fields[6].0 == "reasoning_effort"@);
    assert(fields[7].0 == "settings_revision"@);
    assert(fields[8].0 == "total_tokens"@);
    assert(fields[9].0 == "total_cost"@);
    assert(fields[10].0 == "context_tokens"@);
    assert(fields[11].0 == "max_context_tokens"@);
    assert(fields[12].0 == "approval"@);
    assert(fields[13].0 == "queued_steers"@);
    assert(fields[14].0 == "error"@);
    assert(fields[15].0 == "notice"@);
    assert(fields[16].0 == "output_tokens"@);
    assert(fields[17].0 == "generation_ms"@);
    entry_law(fields, 0);
    assert forall|k: int| 0 <= k < 1 implies (#[trigger] fields[k]).0 != fields[1].0 by {
        assert(k == 0);
    }
    entry_law(fields, 1);
    assert forall|k: int| 0 <= k < 2 implies (#[trigger] fields[k]).0 != fields[2].0 by {
        assert(k == 0 || k == 1);
    }
    entry_law(fields, 2);
    assert forall|k: int| 0 <= k < 3 implies (#[trigger] fields[k]).0 != fields[3].0 by {
        assert(k == 0 || k == 1 || k == 2);
    }
    entry_law(fields, 3);
    assert forall|k: int| 0 <= k < 4 implies (#[trigger] fields[k]).0 != fields[4].0 by {
        assert(k == 0 || k == 1 || k == 2 || k == 3);
    }
    entry_law(fields, 4);
    assert forall|k: int| 0 <= k < 5 implies (#[trigger] fields[k]).0 != fields[5].0 by {
        assert(k == 0 || k == 1 || k == 2 || k == 3 || k == 4);
    }
    entry_law(fields, 5);
    assert forall|k: int| 0 <= k < 6 implies (#[trigger] fields[k]).0 != fields[6].0 by {
        assert(k == 0 || k == 1 || k == 2 || k == 3 || k == 4 || k == 5);
    }
    entry_law(fields, 6);
    assert forall|k: int| 0 <= k < 7 implies (#[trigger] fields[k]).0 != fields[7].0 by {
        assert(k == 0 || k == 1 || k == 2 || k == 3 || k == 4 || k == 5 || k == 6);
    }
    entry_law(fields, 7);
    assert forall|k: int| 0 <= k < 8 implies (#[trigger] fields[k]).0 != fields[8].0 by {
        assert(k == 0 || k == 1 || k == 2 || k == 3 || k == 4 || k == 5 || k == 6 || k == 7);
    }
    entry_law(fields, 8);
    assert forall|k: int| 0 <= k < 9 implies (#[trigger] fields[k]).0 != fields[9].0 by {
        assert(k == 0 || k == 1 || k == 2 || k == 3 || k == 4 || k == 5 || k == 6 || k == 7
            || k == 8);
    }
    entry_law(fields, 9);
    assert forall|k: int| 0 <= k < 10 implies (#[trigger] fields[k]).0 != fields[10].0 by {
        assert(k == 0 || k == 1 || k == 2 || k == 3 || k == 4 || k == 5 || k == 6 || k == 7
            || k == 8 || k == 9);
    }
    entry_law(fields, 10);
    assert forall|k: int| 0 <= k < 11 implies (#[trigger] fields[k]).0 != fields[11].0 by {
        assert(k == 0 || k == 1 || k == 2 || k == 3 || k == 4 || k == 5 || k == 6 || k == 7
            || k == 8 || k == 9 || k == 10);
    }
    entry_law(fields, 11);
    assert forall|k: int| 0 <= k < 12 implies (#[trigger] fields[k]).0 != fields[12].0 by {
        assert(k == 0 || k == 1 || k == 2 || k == 3 || k == 4 || k == 5 || k == 6 || k == 7
            || k == 8 || k == 9 || k == 10 || k == 11);
    }
    entry_law(fields, 12);
    assert forall|k: int| 0 <= k < 13 implies (#[trigger] fields[k]).0 != fields[13].0 by {
        assert(k == 0 || k == 1 || k == 2 || k == 3 || k == 4 || k == 5 || k == 6 || k == 7
            || k == 8 || k == 9 || k == 10 || k == 11 || k == 12);
    }
    entry_law(fields, 13);
    assert forall|k: int| 0 <= k < 14 implies (#[trigger] fields[k]).0 != fields[14].0 by {
        assert(k == 0 || k == 1 || k == 2 || k == 3 || k == 4 || k == 5 || k == 6 || k == 7
            || k == 8 || k == 9 || k == 10 || k == 11 || k == 12 || k == 13);
    }
    entry_law(fields, 14);
    assert forall|k: int| 0 <= k < 15 implies (#[trigger] fields[k]).0 != fields[15].0 by {
        assert(k == 0 || k == 1 || k == 2 || k == 3 || k == 4 || k == 5 || k == 6 || k == 7
            || k == 8 || k == 9 || k == 10 || k == 11 || k == 12 || k == 13 || k == 14);
    }
    entry_law(fields, 15);
    assert forall|k: int| 0 <= k < 16 implies (#[trigger] fields[k]).0 != fields[16].0 by {
        assert(k == 0 || k == 1 || k == 2 || k == 3 || k == 4 || k == 5 || k == 6 || k == 7
            || k == 8 || k == 9 || k == 10 || k == 11 || k == 12 || k == 13 || k == 14
            || k == 15);
    }
    entry_law(fields, 16);
    assert forall|k: int| 0 <= k < 17 implies (#[trigger] fields[k]).0 != fields[17].0 by {
        assert(k == 0 || k == 1 || k == 2 || k == 3 || k == 4 || k == 5 || k == 6 || k == 7
            || k == 8 || k == 9 || k == 10 || k == 11 || k == 12 || k == 13 || k == 14 || k == 15
            || k == 16);
    }
    entry_law(fields, 17);
}

// ---------------------------------------------------------------------------
// Frames
// ---------------------------------------------------------------------------

/// A change says what kind it is, and shows what it changes.
pub proof fn change_law(change: ChangeView, cost: Option<Seq<char>>, now: u64)
    ensures
        ({
            let shown = change_json(change, cost, now);
            match change {
                ChangeView::Insert { before, block } => {
                    &&& shown.text_at("type"@) == Some("insert"@)
                    &&& shows(shown, "before"@, before)
                    &&& shown.get("block"@) == Some(block_json(block, now))
                },
                ChangeView::Replace { block } => {
                    &&& shown.text_at("type"@) == Some("replace"@)
                    &&& shown.get("block"@) == Some(block_json(block, now))
                },
                ChangeView::Append { block_id, field, text } => {
                    &&& shown.text_at("type"@) == Some("append"@)
                    &&& shown.text_at("block_id"@) == Some(block_id)
                    &&& shown.text_at("field"@) == Some(field)
                    &&& shown.text_at("text"@) == Some(text)
                },
                ChangeView::State { state } => {
                    &&& shown.text_at("type"@) == Some("state"@)
                    &&& shown.get("state"@) == Some(state_json(state, cost))
                },
                ChangeView::Plan { plan } => {
                    &&& shown.text_at("type"@) == Some("plan"@)
                    &&& shown.get("plan"@) == Some(plan_json(plan))
                },
                ChangeView::Project { project } => {
                    &&& shown.text_at("type"@) == Some("project"@)
                    &&& shown.get("project"@) == Some(project_json(project))
                },
            }
        }),
{
    reveal_strlit("type");
    reveal_strlit("before");
    reveal_strlit("block");
    reveal_strlit("block_id");
    reveal_strlit("field");
    reveal_strlit("text");
    reveal_strlit("state");
    reveal_strlit("plan");
    reveal_strlit("project");
    assert("type"@.len() != "before"@.len());
    assert("type"@.len() != "block"@.len());
    assert("type"@.len() != "block_id"@.len());
    assert("type"@.len() != "field"@.len());
    assert("type"@[1] != "text"@[1]);
    assert("type"@.len() != "state"@.len());
    assert("type"@[0] != "plan"@[0]);
    assert("type"@.len() != "project"@.len());
    assert("before"@.len() != "block"@.len());
    assert("before"@.len() != "block_id"@.len());
    assert("before"@.len() != "field"@.len());
    assert("before"@.len() != "text"@.len());
    assert("before"@.len() != "state"@.len());
    assert("before"@.len() != "plan"@.len());
    assert("before"@.len() != "project"@.len());
    assert("block"@.len() != "block_id"@.len());
    assert("block"@[0] != "field"@[0]);
    assert("block"@.len() != "text"@.len());
    assert("block"@[0] != "state"@[0]);
    assert("block"@.len() != "plan"@.len());
    assert("block"@.len() != "project"@.len());
    assert("block_id"@.len() != "field"@.len());
    assert("block_id"@.len() != "text"@.len());
    assert("block_id"@.len() != "state"@.len());
    assert("block_id"@.len() != "plan"@.len());
    assert("block_id"@.len() != "project"@.len());
    assert("field"@.len() != "text"@.len());
    assert("field"@[0] != "state"@[0]);
    assert("field"@.len() != "plan"@.len());
    assert("field"@.len() != "project"@.len());
    assert("text"@.len() != "state"@.len());
    assert("text"@[0] != "plan"@[0]);
    assert("text"@.len() != "project"@.len());
    assert("state"@.len() != "plan"@.len());
    assert("state"@.len() != "project"@.len());
    assert("plan"@.len() != "project"@.len());
    match change {
        ChangeView::Insert { .. } => {
            let fields = change_json(change, cost, now)->Object_0;
            assert(fields[0].0 == "type"@);
            assert(fields[1].0 == "before"@);
            assert(fields[2].0 == "block"@);
            entry_law(fields, 0);
            assert forall|k: int| 0 <= k < 1 implies (#[trigger] fields[k]).0 != fields[1].0 by {
                assert(k == 0);
            }
            entry_law(fields, 1);
            assert forall|k: int| 0 <= k < 2 implies (#[trigger] fields[k]).0 != fields[2].0 by {
                assert(k == 0 || k == 1);
            }
            entry_law(fields, 2);
        },
        ChangeView::Replace { .. } => {
            let fields = change_json(change, cost, now)->Object_0;
            assert(fields[0].0 == "type"@);
            assert(fields[1].0 == "block"@);
            entry_law(fields, 0);
            assert forall|k: int| 0 <= k < 1 implies (#[trigger] fields[k]).0 != fields[1].0 by {
                assert(k == 0);
            }
            entry_law(fields, 1);
        },
        ChangeView::Append { .. } => {
            let fields = change_json(change, cost, now)->Object_0;
            assert(fields[0].0 == "type"@);
            assert(fields[1].0 == "block_id"@);
            assert(fields[2].0 == "field"@);
            assert(fields[3].0 == "text"@);
            entry_law(fields, 0);
            assert forall|k: int| 0 <= k < 1 implies (#[trigger] fields[k]).0 != fields[1].0 by {
                assert(k == 0);
            }
            entry_law(fields, 1);
            assert forall|k: int| 0 <= k < 2 implies (#[trigger] fields[k]).0 != fields[2].0 by {
                assert(k == 0 || k == 1);
            }
            entry_law(fields, 2);
            assert forall|k: int| 0 <= k < 3 implies (#[trigger] fields[k]).0 != fields[3].0 by {
                assert(k == 0 || k == 1 || k == 2);
            }
            entry_law(fields, 3);
        },
        ChangeView::State { .. } => {
            let fields = change_json(change, cost, now)->Object_0;
            assert(fields[0].0 == "type"@);
            assert(fields[1].0 == "state"@);
            entry_law(fields, 0);
            assert forall|k: int| 0 <= k < 1 implies (#[trigger] fields[k]).0 != fields[1].0 by {
                assert(k == 0);
            }
            entry_law(fields, 1);
        },
        ChangeView::Plan { .. } => {
            let fields = change_json(change, cost, now)->Object_0;
            assert(fields[0].0 == "type"@);
            assert(fields[1].0 == "plan"@);
            entry_law(fields, 0);
            assert forall|k: int| 0 <= k < 1 implies (#[trigger] fields[k]).0 != fields[1].0 by {
                assert(k == 0);
            }
            entry_law(fields, 1);
        },
        ChangeView::Project { .. } => {
            let fields = change_json(change, cost, now)->Object_0;
            assert(fields[0].0 == "type"@);
            assert(fields[1].0 == "project"@);
            entry_law(fields, 0);
            assert forall|k: int| 0 <= k < 1 implies (#[trigger] fields[k]).0 != fields[1].0 by {
                assert(k == 0);
            }
            entry_law(fields, 1);
        },
    }
}

/// An event is about its session, under its number, and shows each change in its order.
pub proof fn event_law(update: Update, cost: Option<Seq<char>>, now: u64, i: int)
    ensures
        ({
            let frame = event_json(update, cost, now);
            let shown = frame.get("update"@)->0;
            &&& frame.text_at("type"@) == Some("event"@)
            &&& frame.get("update"@) is Some
            &&& shown.text_at("session_id"@) == Some(update.session_id@)
            &&& counts(shown, "seq"@, update.seq)
            &&& shown.get("changes"@) is Some
            &&& shown.get("changes"@)->0 is Array
            &&& shown.get("changes"@)->0->Array_0.len() == update.changes@.len()
            &&& 0 <= i < update.changes@.len() ==> shown.get("changes"@)->0->Array_0[i]
                == change_json(update.changes@[i].deep_view(), cost, now)
        }),
{
    reveal_strlit("type");
    reveal_strlit("update");
    reveal_strlit("session_id");
    reveal_strlit("seq");
    reveal_strlit("changes");
    assert("type"@.len() != "update"@.len());
    assert("type"@.len() != "session_id"@.len());
    assert("type"@.len() != "seq"@.len());
    assert("type"@.len() != "changes"@.len());
    assert("update"@.len() != "session_id"@.len());
    assert("update"@.len() != "seq"@.len());
    assert("update"@.len() != "changes"@.len());
    assert("session_id"@.len() != "seq"@.len());
    assert("session_id"@.len() != "changes"@.len());
    assert("seq"@.len() != "changes"@.len());
    let fields = event_json(update, cost, now)->Object_0;
    assert(fields[0].0 == "type"@);
    assert(fields[1].0 == "update"@);
    entry_law(fields, 0);
    assert forall|k: int| 0 <= k < 1 implies (#[trigger] fields[k]).0 != fields[1].0 by {
        assert(k == 0);
    }
    entry_law(fields, 1);
    let inner = fields[1].1->Object_0;
    assert(inner[0].0 == "session_id"@);
    assert(inner[1].0 == "seq"@);
    assert(inner[2].0 == "changes"@);
    entry_law(inner, 0);
    assert forall|k: int| 0 <= k < 1 implies (#[trigger] inner[k]).0 != inner[1].0 by {
        assert(k == 0);
    }
    entry_law(inner, 1);
    assert forall|k: int| 0 <= k < 2 implies (#[trigger] inner[k]).0 != inner[2].0 by {
        assert(k == 0 || k == 1);
    }
    entry_law(inner, 2);
}

/// A snapshot is that of its session, under its number, and shows its blocks in their order,
/// its state, its plan, its project and what is being written.
pub proof fn snapshot_law(
    snapshot: Snapshot,
    project: ProjectView,
    cost: Option<Seq<char>>,
    now: u64,
    i: int,
)
    ensures
        ({
            let frame = subscribed_json(snapshot, project, cost, now);
            let shown = frame.get("snapshot"@)->0;
            &&& frame.text_at("type"@) == Some("snapshot"@)
            &&& frame.get("snapshot"@) is Some
            &&& shown.text_at("session_id"@) == Some(snapshot.session_id@)
            &&& counts(shown, "seq"@, snapshot.seq)
            &&& shown.get("blocks"@) is Some
            &&& shown.get("blocks"@)->0 is Array
            &&& shown.get("blocks"@)->0->Array_0.len() == snapshot.blocks@.len()
            &&& 0 <= i < snapshot.blocks@.len() ==> shown.get("blocks"@)->0->Array_0[i]
                == block_json(snapshot.blocks@[i].deep_view(), now)
            &&& shown.get("state"@) == Some(state_json(snapshot.state.deep_view(), cost))
            &&& shown.get("plan"@) == Some(plan_json(snapshot.plan.deep_view()))
            &&& shown.get("project"@) == Some(project_json(project))
            &&& shows(shown, "assistant_id"@, snapshot.assistant_id.deep_view())
            &&& shows(shown, "reasoning_id"@, snapshot.reasoning_id.deep_view())
            &&& shown.get("drafts"@) is Some
            &&& shown.get("drafts"@)->0 is Object
            &&& shown.get("drafts"@)->0->Object_0.len() == snapshot.drafts.deep_view().len()
            &&& 0 <= i < snapshot.drafts.deep_view().len() ==> shown.get(
                "drafts"@,
            )->0->Object_0[i] == (
                digits(snapshot.drafts.deep_view()[i].0 as nat),
                JsonView::Text(snapshot.drafts.deep_view()[i].1),
            )
        }),
{
    reveal_strlit("type");
    reveal_strlit("snapshot");
    reveal_strlit("session_id");
    reveal_strlit("seq");
    reveal_strlit("blocks");
    reveal_strlit("state");
    reveal_strlit("plan");
    reveal_strlit("project");
    reveal_strlit("assistant_id");
    reveal_strlit("reasoning_id");
    reveal_strlit("drafts");
    assert("type"@.len() != "snapshot"@.len());
    assert("type"@.len() != "session_id"@.len());
    assert("type"@.len() != "seq"@.len());
    assert("type"@.len() != "blocks"@.len());
    assert("type"@.len() != "state"@.len());
    assert("type"@[0] != "plan"@[0]);
    assert("type"@.len() != "project"@.len());
    assert("type"@.len() != "assistant_id"@.len());
    assert("type"@.len() != "reasoning_id"@.len());
    assert("type"@.len() != "drafts"@.len());
    assert("snapshot"@.len() != "session_id"@.len());
    assert("snapshot"@.len() != "seq"@.len());
    assert("snapshot"@.len() != "blocks"@.len());
    assert("snapshot"@.len() != "state"@.len());
    assert("snapshot"@.len() != "plan"@.len());
    assert("snapshot"@.len() != "project"@.len());
    assert("snapshot"@.len() != "assistant_id"@.len());
    assert("snapshot"@.len() != "reasoning_id"@.len());
    assert("snapshot"@.len() != "drafts"@.len());
    assert("session_id"@.len() != "seq"@.len());
    assert("session_id"@.len() != "blocks"@.len());
    assert("session_id"@.len() != "state"@.len());
    assert("session_id"@.len() != "plan"@.len());
    assert("session_id"@.len() != "project"@.len());
    assert("session_id"@.len() != "assistant_id"@.len());
    assert("session_id"@.len() != "reasoning_id"@.len());
    assert("session_id"@.len() != "drafts"@.len());
    assert("seq"@.len() != "blocks"@.len());
    assert("seq"@.len() != "state"@.len());
    assert("seq"@.len() != "plan"@.len());
    assert("seq"@.len() != "project"@.len());
    assert("seq"@.len() != "assistant_id"@.len());
    assert("seq"@.len() != "reasoning_id"@.len());
    assert("seq"@.len() != "drafts"@.len());
    assert("blocks"@.len() != "state"@.len());
    assert("blocks"@.len() != "plan"@.len());
    assert("blocks"@.len() != "project"@.len());
    assert("blocks"@.len() != "assistant_id"@.len());
    assert("blocks"@.len() != "reasoning_id"@.len());
    assert("blocks"@[0] != "drafts"@[0]);
    assert("state"@.len() != "plan"@.len());
    assert("state"@.len() != "project"@.len());
    assert("state"@.len() != "assistant_id"@.len());
    assert("state"@.len() != "reasoning_id"@.len());
    assert("state"@.len() != "drafts"@.len());
    assert("plan"@.len() != "project"@.len());
    assert("plan"@.len() != "assistant_id"@.len());
    assert("plan"@.len() != "reasoning_id"@.len());
    assert("plan"@.len() != "drafts"@.len());
    assert("project"@.len() != "assistant_id"@.len());
    assert("project"@.len() != "reasoning_id"@.len());
    assert("project"@.len() != "drafts"@.len());
    assert("assistant_id"@[0] != "reasoning_id"@[0]);
    assert("assistant_id"@.len() != "drafts"@.len());
    assert("reasoning_id"@.len() != "drafts"@.len());
    let fields = subscribed_json(snapshot, project, cost, now)->Object_0;
    assert(fields[0].0 == "type"@);
    assert(fields[1].0 == "snapshot"@);
    entry_law(fields, 0);
    assert forall|k: int| 0 <= k < 1 implies (#[trigger] fields[k]).0 != fields[1].0 by {
        assert(k == 0);
    }
    entry_law(fields, 1);
    let inner = fields[1].1->Object_0;
    assert(inner[0].0 == "session_id"@);
    assert(inner[1].0 == "seq"@);
    assert(inner[2].0 == "blocks"@);
    assert(inner[3].0 == "state"@);
    assert(inner[4].0 == "plan"@);
    assert(inner[5].0 == "project"@);
    assert(inner[6].0 == "assistant_id"@);
    assert(inner[7].0 == "reasoning_id"@);
    assert(inner[8].0 == "drafts"@);
    entry_law(inner, 0);
    assert forall|k: int| 0 <= k < 1 implies (#[trigger] inner[k]).0 != inner[1].0 by {
        assert(k == 0);
    }
    entry_law(inner, 1);
    assert forall|k: int| 0 <= k < 2 implies (#[trigger] inner[k]).0 != inner[2].0 by {
        assert(k == 0 || k == 1);
    }
    entry_law(inner, 2);
    assert forall|k: int| 0 <= k < 3 implies (#[trigger] inner[k]).0 != inner[3].0 by {
        assert(k == 0 || k == 1 || k == 2);
    }
    entry_law(inner, 3);
    assert forall|k: int| 0 <= k < 4 implies (#[trigger] inner[k]).0 != inner[4].0 by {
        assert(k == 0 || k == 1 || k == 2 || k == 3);
    }
    entry_law(inner, 4);
    assert forall|k: int| 0 <= k < 5 implies (#[trigger] inner[k]).0 != inner[5].0 by {
        assert(k == 0 || k == 1 || k == 2 || k == 3 || k == 4);
    }
    entry_law(inner, 5);
    assert forall|k: int| 0 <= k < 6 implies (#[trigger] inner[k]).0 != inner[6].0 by {
        assert(k == 0 || k == 1 || k == 2 || k == 3 || k == 4 || k == 5);
    }
    entry_law(inner, 6);
    assert forall|k: int| 0 <= k < 7 implies (#[trigger] inner[k]).0 != inner[7].0 by {
        assert(k == 0 || k == 1 || k == 2 || k == 3 || k == 4 || k == 5 || k == 6);
    }
    entry_law(inner, 7);
    assert forall|k: int| 0 <= k < 8 implies (#[trigger] inner[k]).0 != inner[8].0 by {
        assert(k == 0 || k == 1 || k == 2 || k == 3 || k == 4 || k == 5 || k == 6 || k == 7);
    }
    entry_law(inner, 8);
}

/// A client that is behind is told so, and of which session.
pub proof fn resync_law(session_id: Seq<char>)
    ensures
        resync_json(session_id).text_at("type"@) == Some("resync_required"@),
        resync_json(session_id).text_at("session_id"@) == Some(session_id),
{
    reveal_strlit("type");
    reveal_strlit("session_id");
    assert("type"@.len() != "session_id"@.len());
    let fields = resync_json(session_id)->Object_0;
    assert(fields[0].0 == "type"@);
    assert(fields[1].0 == "session_id"@);
    entry_law(fields, 0);
    assert forall|k: int| 0 <= k < 1 implies (#[trigger] fields[k]).0 != fields[1].0 by {
        assert(k == 0);
    }
    entry_law(fields, 1);
}

/// A session is listed with all that is known of it.
pub proof fn entry_shown_law(entry: EntryView, cost: Option<Seq<char>>)
    ensures
        entry_json(entry, cost).text_at("name"@) == Some(entry.info.name),
        shows(entry_json(entry, cost), "title"@, entry.info.title),
        counts(entry_json(entry, cost), "created_at"@, entry.info.created_at),
        shows(entry_json(entry, cost), "first_message"@, entry.info.first_message),
        shows(entry_json(entry, cost), "project_root"@, entry.project_root),
        counts(entry_json(entry, cost), "total_tokens"@, entry.total_tokens),
        cost is Some ==> entry_json(entry, cost).get("total_cost"@) == Some(JsonView::Decimal(cost->0)),
        cost is None ==> entry_json(entry, cost).get("total_cost"@) == Some(JsonView::Null),
        entry_json(entry, cost).text_at("activity"@) == Some(entry.activity),
{
    reveal_strlit("name");
    reveal_strlit("title");
    reveal_strlit("created_at");
    reveal_strlit("first_message");
    reveal_strlit("project_root");
    reveal_strlit("total_tokens");
    reveal_strlit("total_cost");
    reveal_strlit("activity");
    assert("name"@.len() != "title"@.len());
    assert("name"@.len() != "created_at"@.len());
    assert("name"@.len() != "first_message"@.len());
    assert("name"@.len() != "project_root"@.len());
    assert("name"@.len() != "total_tokens"@.len());
    assert("name"@.len() != "total_cost"@.len());
    assert("name"@.len() != "activity"@.len());
    assert("title"@.len() != "created_at"@.len());
    assert("title"@.len() != "first_message"@.len());
    assert("title"@.len() != "project_root"@.len());
    assert("title"@.len() != "total_tokens"@.len());
    assert("title"@.len() != "total_cost"@.len());
    assert("title"@.len() != "activity"@.len());
    assert("created_at"@.len() != "first_message"@.len());
    assert("created_at"@.len() != "project_root"@.len());
    assert("created_at"@.len() != "total_tokens"@.len());
    assert("created_at"@[0] != "total_cost"@[0]);
    assert("created_at"@.len() != "activity"@.len());
    assert("first_message"@.len() != "project_root"@.len());
    assert("first_message"@.len() != "total_tokens"@.len());
    assert("first_message"@.len() != "total_cost"@.len());
    assert("first_message"@.len() != "activity"@.len());
    assert("project_root"@[0] != "total_tokens"@[0]);
    assert("project_root"@.len() != "total_cost"@.len());
    assert("project_root"@.len() != "activity"@.len());
    assert("total_tokens"@.len() != "total_cost"@.len());
    assert("total_tokens"@.len() != "activity"@.len());
    assert("total_cost"@.len() != "activity"@.len());
    let fields = entry_json(entry, cost)->Object_0;
    assert(fields[0].0 == "name"@);
    assert(fields[1].0 == "title"@);
    assert(fields[2].0 == "created_at"@);
    assert(fields[3].0 == "first_message"@);
    assert(fields[4].0 == "project_root"@);
    assert(fields[5].0 == "total_tokens"@);
    assert(fields[6].0 == "total_cost"@);
    assert(fields[7].0 == "activity"@);
    entry_law(fields, 0);
    assert forall|k: int| 0 <= k < 1 implies (#[trigger] fields[k]).0 != fields[1].0 by {
        assert(k == 0);
    }
    entry_law(fields, 1);
    assert forall|k: int| 0 <= k < 2 implies (#[trigger] fields[k]).0 != fields[2].0 by {
        assert(k == 0 || k == 1);
    }
    entry_law(fields, 2);
    assert forall|k: int| 0 <= k < 3 implies (#[trigger] fields[k]).0 != fields[3].0 by {
        assert(k == 0 || k == 1 || k == 2);
    }
    entry_law(fields, 3);
    assert forall|k: int| 0 <= k < 4 implies (#[trigger] fields[k]).0 != fields[4].0 by {
        assert(k == 0 || k == 1 || k == 2 || k == 3);
    }
    entry_law(fields, 4);
    assert forall|k: int| 0 <= k < 5 implies (#[trigger] fields[k]).0 != fields[5].0 by {
        assert(k == 0 || k == 1 || k == 2 || k == 3 || k == 4);
    }
    entry_law(fields, 5);
    assert forall|k: int| 0 <= k < 6 implies (#[trigger] fields[k]).0 != fields[6].0 by {
        assert(k == 0 || k == 1 || k == 2 || k == 3 || k == 4 || k == 5);
    }
    entry_law(fields, 6);
    assert forall|k: int| 0 <= k < 7 implies (#[trigger] fields[k]).0 != fields[7].0 by {
        assert(k == 0 || k == 1 || k == 2 || k == 3 || k == 4 || k == 5 || k == 6);
    }
    entry_law(fields, 7);
}

/// The list shows each session, in its order, with its own cost.
pub proof fn catalog_law(
    number: u64,
    sessions: Seq<EntryView>,
    costs: Seq<Option<Seq<char>>>,
    i: int,
)
    ensures
        ({
            let frame = catalog_json(number, sessions, costs);
            let shown = frame.get("catalog"@)->0;
            &&& frame.text_at("type"@) == Some("catalog"@)
            &&& frame.get("catalog"@) is Some
            &&& counts(shown, "seq"@, number)
            &&& shown.get("sessions"@) is Some
            &&& shown.get("sessions"@)->0 is Array
            &&& shown.get("sessions"@)->0->Array_0.len() == sessions.len()
            &&& 0 <= i < sessions.len() ==> shown.get("sessions"@)->0->Array_0[i] == entry_json(
                sessions[i],
                costs[i],
            )
        }),
{
    reveal_strlit("type");
    reveal_strlit("catalog");
    reveal_strlit("seq");
    reveal_strlit("sessions");
    assert("type"@.len() != "catalog"@.len());
    assert("type"@.len() != "seq"@.len());
    assert("type"@.len() != "sessions"@.len());
    assert("catalog"@.len() != "seq"@.len());
    assert("catalog"@.len() != "sessions"@.len());
    assert("seq"@.len() != "sessions"@.len());
    let fields = catalog_json(number, sessions, costs)->Object_0;
    assert(fields[0].0 == "type"@);
    assert(fields[1].0 == "catalog"@);
    entry_law(fields, 0);
    assert forall|k: int| 0 <= k < 1 implies (#[trigger] fields[k]).0 != fields[1].0 by {
        assert(k == 0);
    }
    entry_law(fields, 1);
    let inner = fields[1].1->Object_0;
    assert(inner[0].0 == "seq"@);
    assert(inner[1].0 == "sessions"@);
    entry_law(inner, 0);
    assert forall|k: int| 0 <= k < 1 implies (#[trigger] inner[k]).0 != inner[1].0 by {
        assert(k == 0);
    }
    entry_law(inner, 1);
}

/// News of the project come under their number.
pub proof fn project_news_law(update: ProjectUpdateView)
    ensures
        ({
            let frame = project_update_json(update);
            let shown = frame.get("update"@)->0;
            &&& frame.text_at("type"@) == Some("project"@)
            &&& frame.get("update"@) is Some
            &&& counts(shown, "seq"@, update.seq)
            &&& shown.get("project"@) == Some(project_json(update.project))
        }),
{
    reveal_strlit("type");
    reveal_strlit("update");
    reveal_strlit("seq");
    reveal_strlit("project");
    assert("type"@.len() != "update"@.len());
    assert("type"@.len() != "seq"@.len());
    assert("type"@.len() != "project"@.len());
    assert("update"@.len() != "seq"@.len());
    assert("update"@.len() != "project"@.len());
    assert("seq"@.len() != "project"@.len());
    let fields = project_update_json(update)->Object_0;
    assert(fields[0].0 == "type"@);
    assert(fields[1].0 == "update"@);
    entry_law(fields, 0);
    assert forall|k: int| 0 <= k < 1 implies (#[trigger] fields[k]).0 != fields[1].0 by {
        assert(k == 0);
    }
    entry_law(fields, 1);
    let inner = fields[1].1->Object_0;
    assert(inner[0].0 == "seq"@);
    assert(inner[1].0 == "project"@);
    entry_law(inner, 0);
    assert forall|k: int| 0 <= k < 1 implies (#[trigger] inner[k]).0 != inner[1].0 by {
        assert(k == 0);
    }
    entry_law(inner, 1);
}

/// A request that is taken is answered with its turn and the settings that hold.
pub proof fn accepted_law(accepted: AcceptedView)
    ensures
        shows(accepted_json(accepted), "turn_id"@, accepted.turn_id),
        counts(accepted_json(accepted), "settings_revision"@, accepted.settings_revision),
{
    reveal_strlit("turn_id");
    reveal_strlit("settings_revision");
    assert("turn_id"@.len() != "settings_revision"@.len());
    let fields = accepted_json(accepted)->Object_0;
    assert(fields[0].0 == "turn_id"@);
    assert(fields[1].0 == "settings_revision"@);
    entry_law(fields, 0);
    assert forall|k: int| 0 <= k < 1 implies (#[trigger] fields[k]).0 != fields[1].0 by {
        assert(k == 0);
    }
    entry_law(fields, 1);
}

// ---------------------------------------------------------------------------
// The list of sessions
// ---------------------------------------------------------------------------

/// A session that waits for an answer is listed as such, else one that works, and else it
/// rests.
pub proof fn activity_law(state: StateView)
    ensures
        activity(state) == "approval"@ <==> state.approval is Some,
        activity(state) == "running"@ <==> state.approval is None && state.turn_id is Some,
        activity(state) == "idle"@ <==> state.approval is None && state.turn_id is None,
{
    reveal_strlit("approval");
    reveal_strlit("running");
    reveal_strlit("idle");
    assert("approval"@.len() != "running"@.len());
    assert("approval"@.len() != "idle"@.len());
    assert("running"@.len() != "idle"@.len());
}

/// A listed session keeps its name and its age; it is listed with the tokens and the cost of
/// its state, with its title once it has one, and with the first thing that was said.
pub proof fn observed_law(
    entry: EntryView,
    id: Seq<char>,
    root: Seq<char>,
    state: StateView,
    event: Event,
)
    ensures
        ({
            let next = observed(entry, id, root, state, event);
            &&& next.info.name == entry.info.name
            &&& next.info.created_at == entry.info.created_at
            &&& state.title == id ==> next.info.title == entry.info.title
            &&& state.title != id ==> next.info.title == Some(state.title)
            &&& entry.info.first_message is Some ==> next.info.first_message
                == entry.info.first_message
            &&& entry.info.first_message is None ==> (next.info.first_message is Some <==> (
            event is MessageAccepted && event->MessageAccepted_0 is User))
            &&& next.info.first_message is Some && entry.info.first_message is None
                ==> next.info.first_message == Some(event->MessageAccepted_0->User_content@)
            &&& next.project_root == Some(root)
            &&& next.total_tokens == state.total_tokens
            &&& next.total_cost == state.total_cost
            &&& next.activity == activity(state)
        }),
{
}

/// A session that nobody has open rests, with the tokens that it has used.
pub proof fn resting_law(info: InfoView, meta: MetaView)
    ensures
        ({
            let entry = resting_entry(info, meta);
            &&& entry.info == info
            &&& entry.project_root == meta.project_root
            &&& entry.total_tokens == meta.total_tokens
            &&& entry.activity == "idle"@
        }),
{
}

/// A session is found in the list by its name, the first that bears it.
pub proof fn entry_found_law(entries: Seq<EntryView>, name: Seq<char>)
    ensures
        ({
            let i = entry_index(entries, name, 0);
            &&& 0 <= i <= entries.len()
            &&& i < entries.len() ==> entries[i].info.name == name
            &&& forall|k: int| 0 <= k < i ==> (#[trigger] entries[k]).info.name != name
        }),
{
    entry_found_from(entries, name, 0);
}

proof fn entry_found_from(entries: Seq<EntryView>, name: Seq<char>, from: int)
    requires
        0 <= from <= entries.len(),
    ensures
        ({
            let i = entry_index(entries, name, from);
            &&& from <= i <= entries.len()
            &&& i < entries.len() ==> entries[i].info.name == name
            &&& forall|k: int| from <= k < i ==> (#[trigger] entries[k]).info.name != name
        }),
    decreases entries.len() - from,
{
    if from < entries.len() && entries[from].info.name != name {
        entry_found_from(entries, name, from + 1);
    }
}

/// What is heard of a session changes the list just where it tells of a message, of the
/// session, its use, its work or a question.
pub proof fn listed_law(event: Event)
    ensures
        is_listed(event) <==> event is SessionChanged || event is UsageChanged
            || event is OperationStarted || event is ApprovalRequested || event is ApprovalResolved
            || event is GenerationFinished || event is GenerationCancelled || event is Error
            || event is MessageAccepted,
{
}

} // verus!
