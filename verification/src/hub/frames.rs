//! What clients are sent, as JSON.
use crate::hub::catalog::Update;
use crate::hub::state::{
    Approval, ApprovalView, Block, BlockKind, BlockView, Change, ChangeView, SessionState,
    Snapshot, StateView, Timer, ToolModel, ToolStatus, ToolView,
};
use crate::json;
use crate::json::{Json, JsonView};
use crate::project::{ProjectState, ProjectUpdate, ProjectUpdateView, ProjectView};
use crate::protocol::{Accepted, AcceptedView, CatalogEntry, CatalogSnapshot, EntryView};
use crate::runtime::budget::{call_json, call_to_json, entry_if, images_json, images_to_json};
use crate::runtime::context::status_name;
use crate::runtime::{effort_name, ReasoningEffort};
use crate::text;
use crate::text::digits;
use crate::tool::{ExecutionPlan, PlanStatus, PlanStep, PlanStepView, PlanView};
use vstd::prelude::*;
use vstd::string::*;

verus! {

// ---------------------------------------------------------------------------
// Values
// ---------------------------------------------------------------------------

/// A text, or null where there is none.
pub open spec fn text_or_null(value: Option<Seq<char>>) -> JsonView {
    match value {
        Some(value) => JsonView::Text(value),
        None => JsonView::Null,
    }
}

/// A number by its text, or null where there is none.
pub open spec fn number_or_null(written: Option<Seq<char>>) -> JsonView {
    match written {
        Some(written) => JsonView::Decimal(written),
        None => JsonView::Null,
    }
}

/// An effort by its name, or null where there is none.
pub open spec fn effort_or_null(effort: Option<ReasoningEffort>) -> JsonView {
    match effort {
        Some(effort) => JsonView::Text(effort_name(effort)),
        None => JsonView::Null,
    }
}

fn optional_text(value: &Option<String>) -> (result: Json)
    ensures
        result.deep_view() == text_or_null(value.deep_view()),
{
    match value {
        Some(value) => Json::text(value.as_str()),
        None => Json::Null,
    }
}

fn optional_number(written: &Option<String>) -> (result: Json)
    ensures
        result.deep_view() == number_or_null(written.deep_view()),
{
    match written {
        Some(written) => Json::Decimal(written.clone()),
        None => Json::Null,
    }
}

fn optional_effort(effort: Option<ReasoningEffort>) -> (result: Json)
    ensures
        result.deep_view() == effort_or_null(effort),
{
    match effort {
        Some(effort) => Json::text(effort.name()),
        None => Json::Null,
    }
}

fn texts_to_json(texts: &Vec<String>) -> (result: Json)
    ensures
        result.deep_view() == JsonView::Array(
            texts.deep_view().map_values(|t: Seq<char>| JsonView::Text(t)),
        ),
{
    let mut items: Vec<Json> = Vec::new();
    let mut i: usize = 0;
    while i < texts.len()
        invariant
            i <= texts@.len(),
            items@.len() == i,
            forall|k: int|
                0 <= k < i ==> (#[trigger] items@[k]).deep_view() == JsonView::Text(texts@[k]@),
        decreases texts@.len() - i,
    {
        items.push(Json::text(texts[i].as_str()));
        i += 1;
    }
    assert(items.deep_view() =~= texts.deep_view().map_values(
        |t: Seq<char>| JsonView::Text(t),
    ));
    json::array(items)
}

// ---------------------------------------------------------------------------
// Plans and projects
// ---------------------------------------------------------------------------

pub open spec fn step_json(step: PlanStepView) -> JsonView {
    JsonView::Object(
        seq![
            ("step"@, JsonView::Text(step.step)),
            ("status"@, JsonView::Text(status_name(step.status))),
        ],
    )
}

/// A plan, or null where there is none.
pub open spec fn plan_json(plan: Option<PlanView>) -> JsonView {
    match plan {
        Some(plan) => JsonView::Object(
            entry_if(
                plan.explanation is Some,
                "explanation"@,
                JsonView::Text(plan.explanation->0),
            ) + seq![
                (
                    "plan"@,
                    JsonView::Array(plan.plan.map_values(|s: PlanStepView| step_json(s))),
                ),
            ],
        ),
        None => JsonView::Null,
    }
}

fn step_to_json(step: &PlanStep) -> (result: Json)
    ensures
        result.deep_view() == step_json(step.deep_view()),
{
    let status = match step.status {
        PlanStatus::Pending => "pending",
        PlanStatus::InProgress => "in_progress",
        PlanStatus::Completed => "completed",
    };
    let mut entries = json::no_entries();
    json::enter(&mut entries, "step", Json::text(step.step.as_str()));
    json::enter(&mut entries, "status", Json::text(status));
    assert(entries.deep_view() =~= step_json(step.deep_view())->Object_0);
    json::object(entries)
}

/// A plan as JSON.
pub fn plan_to_json(plan: &Option<ExecutionPlan>) -> (result: Json)
    ensures
        result.deep_view() == plan_json(plan.deep_view()),
{
    let plan = match plan {
        Some(plan) => plan,
        None => {
            return Json::Null;
        },
    };
    let mut steps: Vec<Json> = Vec::new();
    let mut i: usize = 0;
    while i < plan.plan.len()
        invariant
            i <= plan.plan@.len(),
            steps@.len() == i,
            forall|k: int|
                0 <= k < i ==> (#[trigger] steps@[k]).deep_view() == step_json(
                    plan.plan@[k].deep_view(),
                ),
        decreases plan.plan@.len() - i,
    {
        steps.push(step_to_json(&plan.plan[i]));
        i += 1;
    }
    assert(steps.deep_view() =~= plan.plan.deep_view().map_values(
        |s: PlanStepView| step_json(s),
    ));
    let mut entries = json::no_entries();
    match &plan.explanation {
        Some(explanation) => json::enter(
            &mut entries,
            "explanation",
            Json::text(explanation.as_str()),
        ),
        None => {},
    }
    json::enter(&mut entries, "plan", json::array(steps));
    assert(entries.deep_view() =~= plan_json(Some(plan.deep_view()))->Object_0);
    json::object(entries)
}

pub open spec fn project_json(project: ProjectView) -> JsonView {
    JsonView::Object(
        seq![
            ("cwd"@, JsonView::Text(project.cwd)),
            (
                "context"@,
                JsonView::Array(project.context.map_values(|t: Seq<char>| JsonView::Text(t))),
            ),
            ("git_status"@, JsonView::Text(project.git_status)),
            ("git_diff"@, JsonView::Text(project.git_diff)),
            ("git_diff_path"@, text_or_null(project.git_diff_path)),
        ],
    )
}

/// A project as JSON.
pub fn project_to_json(project: &ProjectState) -> (result: Json)
    ensures
        result.deep_view() == project_json(project.deep_view()),
{
    let mut entries = json::no_entries();
    json::enter(&mut entries, "cwd", Json::text(project.cwd.as_str()));
    json::enter(&mut entries, "context", texts_to_json(&project.context));
    json::enter(&mut entries, "git_status", Json::text(project.git_status.as_str()));
    json::enter(&mut entries, "git_diff", Json::text(project.git_diff.as_str()));
    json::enter(&mut entries, "git_diff_path", optional_text(&project.git_diff_path));
    assert(entries.deep_view() =~= project_json(project.deep_view())->Object_0);
    json::object(entries)
}

// ---------------------------------------------------------------------------
// Blocks
// ---------------------------------------------------------------------------

/// The name of a kind of block.
pub open spec fn kind_name(kind: BlockKind) -> Seq<char> {
    match kind {
        BlockKind::User => "user"@,
        BlockKind::Steer => "steer"@,
        BlockKind::Assistant => "assistant"@,
        BlockKind::Status => "status"@,
        BlockKind::System => "system"@,
        BlockKind::Error => "error"@,
        BlockKind::Thinking => "thinking"@,
        BlockKind::Tool => "tool"@,
    }
}

fn name_of_kind(kind: BlockKind) -> (name: &'static str)
    ensures
        name@ == kind_name(kind),
{
    match kind {
        BlockKind::User => "user",
        BlockKind::Steer => "steer",
        BlockKind::Assistant => "assistant",
        BlockKind::Status => "status",
        BlockKind::System => "system",
        BlockKind::Error => "error",
        BlockKind::Thinking => "thinking",
        BlockKind::Tool => "tool",
    }
}

/// The name of how a tool call stands.
pub open spec fn tool_status_name(status: ToolStatus) -> Seq<char> {
    match status {
        ToolStatus::Streaming => "streaming"@,
        ToolStatus::Pending => "pending"@,
        ToolStatus::WaitingApproval => "waiting_approval"@,
        ToolStatus::Running => "running"@,
        ToolStatus::Done => "done"@,
        ToolStatus::Failed => "failed"@,
    }
}

fn name_of_status(status: ToolStatus) -> (name: &'static str)
    ensures
        name@ == tool_status_name(status),
{
    match status {
        ToolStatus::Streaming => "streaming",
        ToolStatus::Pending => "pending",
        ToolStatus::WaitingApproval => "waiting_approval",
        ToolStatus::Running => "running",
        ToolStatus::Done => "done",
        ToolStatus::Failed => "failed",
    }
}

/// Clients tell the kinds of blocks, and how tool calls stand, apart by their names.
pub proof fn names_law(a: BlockKind, b: BlockKind, x: ToolStatus, y: ToolStatus)
    ensures
        kind_name(a) == kind_name(b) <==> a == b,
        tool_status_name(x) == tool_status_name(y) <==> x == y,
{
    reveal_strlit("user");
    reveal_strlit("steer");
    reveal_strlit("assistant");
    reveal_strlit("status");
    reveal_strlit("system");
    reveal_strlit("error");
    reveal_strlit("thinking");
    reveal_strlit("tool");
    reveal_strlit("streaming");
    reveal_strlit("pending");
    reveal_strlit("waiting_approval");
    reveal_strlit("running");
    reveal_strlit("done");
    reveal_strlit("failed");
    let kind = kind_name(a);
    let other = kind_name(b);
    if kind == other {
        assert(kind.len() == other.len() && kind[0] == other[0] && kind[1] == other[1]);
        assert(kind[2] == other[2]);
    }
    let status = tool_status_name(x);
    let another = tool_status_name(y);
    if status == another {
        assert(status.len() == another.len() && status[0] == another[0]);
    }
}

/// A tool call, or null where there is none.
pub open spec fn tool_json(tool: Option<ToolModel>) -> JsonView {
    match tool {
        Some(tool) => JsonView::Object(
            seq![
                ("call_id"@, text_or_null(tool.call_id)),
                ("name"@, JsonView::Text(tool.name)),
                ("arguments"@, JsonView::Text(tool.arguments)),
                ("output"@, text_or_null(tool.output)),
                ("diff"@, text_or_null(tool.diff)),
                ("status"@, JsonView::Text(tool_status_name(tool.status))),
            ],
        ),
        None => JsonView::Null,
    }
}

fn tool_to_json(tool: &Option<ToolView>) -> (result: Json)
    ensures
        result.deep_view() == tool_json(tool.deep_view()),
{
    match tool {
        Some(tool) => {
            let mut entries = json::no_entries();
            json::enter(&mut entries, "call_id", optional_text(&tool.call_id));
            json::enter(&mut entries, "name", Json::text(tool.name.as_str()));
            json::enter(&mut entries, "arguments", Json::text(tool.arguments.as_str()));
            json::enter(&mut entries, "output", optional_text(&tool.output));
            json::enter(&mut entries, "diff", optional_text(&tool.diff));
            json::enter(&mut entries, "status", Json::text(name_of_status(tool.status)));
            assert(entries.deep_view() =~= tool_json(Some(tool.deep_view()))->Object_0);
            json::object(entries)
        },
        None => Json::Null,
    }
}

/// A clock at `now`: what it shows, in milliseconds, and whether it runs.
pub open spec fn timer_json(timer: Timer, now: u64) -> JsonView {
    JsonView::Object(
        seq![
            ("elapsed_ms"@, JsonView::Unsigned(timer.spec_value(now) / 1_000_000)),
            ("running"@, JsonView::Bool(timer.started is Some)),
        ],
    )
}

fn timer_to_json(timer: &Timer, now: u64) -> (result: Json)
    ensures
        result.deep_view() == timer_json(*timer, now),
{
    let mut entries = json::no_entries();
    json::enter(&mut entries, "elapsed_ms", Json::Unsigned(timer.value(now) / 1_000_000));
    json::enter(&mut entries, "running", Json::Bool(timer.running()));
    assert(entries.deep_view() =~= timer_json(*timer, now)->Object_0);
    json::object(entries)
}

/// A block at `now`.
pub open spec fn block_json(block: BlockView, now: u64) -> JsonView {
    JsonView::Object(
        seq![
            ("id"@, JsonView::Text(block.id)),
            ("kind"@, JsonView::Text(kind_name(block.kind))),
            ("content"@, JsonView::Text(block.content)),
            ("model"@, JsonView::Text(block.model)),
            ("images"@, images_json(block.images)),
            ("summary"@, text_or_null(block.summary)),
            ("tool"@, tool_json(block.tool)),
            ("timer"@, timer_json(block.timer, now)),
            ("queued"@, JsonView::Bool(block.queued)),
        ],
    )
}

/// A block at `now`, as JSON.
pub fn block_to_json(block: &Block, now: u64) -> (result: Json)
    ensures
        result.deep_view() == block_json(block.deep_view(), now),
{
    let mut entries = json::no_entries();
    json::enter(&mut entries, "id", Json::text(block.id.as_str()));
    json::enter(&mut entries, "kind", Json::text(name_of_kind(block.kind)));
    json::enter(&mut entries, "content", Json::text(block.content.as_str()));
    json::enter(&mut entries, "model", Json::text(block.model.as_str()));
    json::enter(&mut entries, "images", images_to_json(&block.images));
    json::enter(&mut entries, "summary", optional_text(&block.summary));
    json::enter(&mut entries, "tool", tool_to_json(&block.tool));
    json::enter(&mut entries, "timer", timer_to_json(&block.timer, now));
    json::enter(&mut entries, "queued", Json::Bool(block.queued));
    assert(entries.deep_view() =~= block_json(block.deep_view(), now)->Object_0);
    json::object(entries)
}

// ---------------------------------------------------------------------------
// The state
// ---------------------------------------------------------------------------

pub open spec fn approval_json(approval: Option<ApprovalView>) -> JsonView {
    match approval {
        Some(approval) => JsonView::Object(
            seq![("id"@, JsonView::Text(approval.id)), ("call"@, call_json(approval.call))],
        ),
        None => JsonView::Null,
    }
}

fn approval_to_json(approval: &Option<Approval>) -> (result: Json)
    ensures
        result.deep_view() == approval_json(approval.deep_view()),
{
    match approval {
        Some(approval) => {
            let mut entries = json::no_entries();
            json::enter(&mut entries, "id", Json::text(approval.id.as_str()));
            json::enter(&mut entries, "call", call_to_json(&approval.call));
            assert(entries.deep_view() =~= approval_json(Some(approval.deep_view()))->Object_0);
            json::object(entries)
        },
        None => Json::Null,
    }
}

/// The state of a session. `cost` is the text of its cost, where that is known.
pub open spec fn state_json(state: StateView, cost: Option<Seq<char>>) -> JsonView {
    JsonView::Object(
        seq![
            ("title"@, JsonView::Text(state.title)),
            ("turn_id"@, text_or_null(state.turn_id)),
            ("compacting"@, JsonView::Bool(state.compacting)),
            ("phase"@, JsonView::Text(state.phase)),
            ("model"@, JsonView::Text(state.model)),
            ("response_model"@, JsonView::Text(state.response_model)),
            ("reasoning_effort"@, effort_or_null(state.reasoning_effort)),
            ("settings_revision"@, JsonView::Unsigned(state.settings_revision)),
            ("total_tokens"@, JsonView::Unsigned(state.total_tokens)),
            ("total_cost"@, number_or_null(cost)),
            ("context_tokens"@, JsonView::Unsigned(state.context_tokens)),
            ("max_context_tokens"@, JsonView::Unsigned(state.max_context_tokens)),
            ("approval"@, approval_json(state.approval)),
            ("queued_steers"@, JsonView::Unsigned(state.queued_steers as u64)),
            ("error"@, text_or_null(state.error)),
            ("notice"@, text_or_null(state.notice)),
            ("output_tokens"@, JsonView::Unsigned(state.output_tokens)),
            ("generation_ms"@, JsonView::Unsigned(state.generation_ms)),
        ],
    )
}

/// The state of a session as JSON. `cost` is the text of its cost, where that is known.
pub fn state_to_json(state: &SessionState, cost: &Option<String>) -> (result: Json)
    ensures
        result.deep_view() == state_json(state.deep_view(), cost.deep_view()),
{
    let mut entries = json::no_entries();
    json::enter(&mut entries, "title", Json::text(state.title.as_str()));
    json::enter(&mut entries, "turn_id", optional_text(&state.turn_id));
    json::enter(&mut entries, "compacting", Json::Bool(state.compacting));
    json::enter(&mut entries, "phase", Json::text(state.phase.as_str()));
    json::enter(&mut entries, "model", Json::text(state.model.as_str()));
    json::enter(&mut entries, "response_model", Json::text(state.response_model.as_str()));
    json::enter(&mut entries, "reasoning_effort", optional_effort(state.reasoning_effort));
    json::enter(&mut entries, "settings_revision", Json::Unsigned(state.settings_revision));
    json::enter(&mut entries, "total_tokens", Json::Unsigned(state.total_tokens));
    json::enter(&mut entries, "total_cost", optional_number(cost));
    json::enter(&mut entries, "context_tokens", Json::Unsigned(state.context_tokens));
    json::enter(&mut entries, "max_context_tokens", Json::Unsigned(state.max_context_tokens));
    json::enter(&mut entries, "approval", approval_to_json(&state.approval));
    json::enter(&mut entries, "queued_steers", Json::Unsigned(state.queued_steers as u64));
    json::enter(&mut entries, "error", optional_text(&state.error));
    json::enter(&mut entries, "notice", optional_text(&state.notice));
    json::enter(&mut entries, "output_tokens", Json::Unsigned(state.output_tokens));
    json::enter(&mut entries, "generation_ms", Json::Unsigned(state.generation_ms));
    assert(entries.deep_view() =~= state_json(state.deep_view(), cost.deep_view())->Object_0);
    json::object(entries)
}

// ---------------------------------------------------------------------------
// Changes
// ---------------------------------------------------------------------------

/// A change at `now`. `cost` is the text of the cost of the session, where that is known.
pub open spec fn change_json(change: ChangeView, cost: Option<Seq<char>>, now: u64) -> JsonView {
    JsonView::Object(
        match change {
            ChangeView::Insert { before, block } => seq![
                ("type"@, JsonView::Text("insert"@)),
                ("before"@, text_or_null(before)),
                ("block"@, block_json(block, now)),
            ],
            ChangeView::Replace { block } => seq![
                ("type"@, JsonView::Text("replace"@)),
                ("block"@, block_json(block, now)),
            ],
            ChangeView::Append { block_id, field, text } => seq![
                ("type"@, JsonView::Text("append"@)),
                ("block_id"@, JsonView::Text(block_id)),
                ("field"@, JsonView::Text(field)),
                ("text"@, JsonView::Text(text)),
            ],
            ChangeView::State { state } => seq![
                ("type"@, JsonView::Text("state"@)),
                ("state"@, state_json(state, cost)),
            ],
            ChangeView::Plan { plan } => seq![
                ("type"@, JsonView::Text("plan"@)),
                ("plan"@, plan_json(plan)),
            ],
            ChangeView::Project { project } => seq![
                ("type"@, JsonView::Text("project"@)),
                ("project"@, project_json(project)),
            ],
        },
    )
}

/// A change at `now`, as JSON. `cost` is the text of the cost of the session, where that
/// is known.
pub fn change_to_json(change: &Change, cost: &Option<String>, now: u64) -> (result: Json)
    ensures
        result.deep_view() == change_json(change.deep_view(), cost.deep_view(), now),
{
    let mut entries = json::no_entries();
    match change {
        Change::Insert { before, block } => {
            json::enter(&mut entries, "type", Json::text("insert"));
            json::enter(&mut entries, "before", optional_text(before));
            json::enter(&mut entries, "block", block_to_json(block, now));
        },
        Change::Replace { block } => {
            json::enter(&mut entries, "type", Json::text("replace"));
            json::enter(&mut entries, "block", block_to_json(block, now));
        },
        Change::Append { block_id, field, text } => {
            json::enter(&mut entries, "type", Json::text("append"));
            json::enter(&mut entries, "block_id", Json::text(block_id.as_str()));
            json::enter(&mut entries, "field", Json::text(field.as_str()));
            json::enter(&mut entries, "text", Json::text(text.as_str()));
        },
        Change::State { state } => {
            json::enter(&mut entries, "type", Json::text("state"));
            json::enter(&mut entries, "state", state_to_json(state, cost));
        },
        Change::Plan { plan } => {
            json::enter(&mut entries, "type", Json::text("plan"));
            json::enter(&mut entries, "plan", plan_to_json(plan));
        },
        Change::Project { project } => {
            json::enter(&mut entries, "type", Json::text("project"));
            json::enter(&mut entries, "project", project_to_json(project));
        },
    }
    assert(entries.deep_view() =~= change_json(
        change.deep_view(),
        cost.deep_view(),
        now,
    )->Object_0);
    json::object(entries)
}

/// What those who watch a session are told of an event, at `now`.
pub open spec fn event_json(update: Update, cost: Option<Seq<char>>, now: u64) -> JsonView {
    JsonView::Object(
        seq![
            ("type"@, JsonView::Text("event"@)),
            (
                "update"@,
                JsonView::Object(
                    seq![
                        ("session_id"@, JsonView::Text(update.session_id@)),
                        ("seq"@, JsonView::Unsigned(update.seq)),
                        (
                            "changes"@,
                            JsonView::Array(
                                update.changes.deep_view().map_values(
                                    |c: ChangeView| change_json(c, cost, now),
                                ),
                            ),
                        ),
                    ],
                ),
            ),
        ],
    )
}

/// What those who watch a session are told of an event, at `now`. `cost` is the text of
/// the cost of the session, where that is known.
pub fn event_frame(update: &Update, cost: &Option<String>, now: u64) -> (result: Json)
    ensures
        result.deep_view() == event_json(*update, cost.deep_view(), now),
{
    let mut changes: Vec<Json> = Vec::new();
    let mut i: usize = 0;
    while i < update.changes.len()
        invariant
            i <= update.changes@.len(),
            changes@.len() == i,
            forall|k: int|
                0 <= k < i ==> (#[trigger] changes@[k]).deep_view() == change_json(
                    update.changes@[k].deep_view(),
                    cost.deep_view(),
                    now,
                ),
        decreases update.changes@.len() - i,
    {
        changes.push(change_to_json(&update.changes[i], cost, now));
        i += 1;
    }
    let ghost told = cost.deep_view();
    assert(changes.deep_view() =~= update.changes.deep_view().map_values(
        |c: ChangeView| change_json(c, told, now),
    ));
    let ghost wanted = event_json(*update, told, now);
    let mut inner = json::no_entries();
    json::enter(&mut inner, "session_id", Json::text(update.session_id.as_str()));
    json::enter(&mut inner, "seq", Json::Unsigned(update.seq));
    json::enter(&mut inner, "changes", json::array(changes));
    assert(inner.deep_view() =~= wanted->Object_0[1].1->Object_0);
    let mut entries = json::no_entries();
    json::enter(&mut entries, "type", Json::text("event"));
    json::enter(&mut entries, "update", json::object(inner));
    assert(entries.deep_view() =~= wanted->Object_0);
    json::object(entries)
}

/// The ids of blocks by the places of their calls in the response.
pub open spec fn drafts_json(drafts: Seq<(usize, Seq<char>)>) -> JsonView {
    JsonView::Object(
        drafts.map_values(|d: (usize, Seq<char>)| (digits(d.0 as nat), JsonView::Text(d.1))),
    )
}

fn drafts_to_json(drafts: &Vec<(usize, String)>) -> (result: Json)
    ensures
        result.deep_view() == drafts_json(drafts.deep_view()),
{
    let ghost wanted = drafts_json(drafts.deep_view())->Object_0;
    let mut entries: Vec<(String, Json)> = Vec::new();
    let mut i: usize = 0;
    while i < drafts.len()
        invariant
            wanted == drafts_json(drafts.deep_view())->Object_0,
            i <= drafts@.len(),
            entries@.len() == i,
            forall|k: int| 0 <= k < i ==> (#[trigger] entries@[k]).deep_view() == wanted[k],
        decreases drafts@.len() - i,
    {
        assert(drafts.deep_view()[i as int] == drafts@[i as int].deep_view());
        let key = text::decimal(drafts[i].0 as u64);
        entries.push((key, Json::text(drafts[i].1.as_str())));
        i += 1;
    }
    assert(entries.deep_view() =~= wanted);
    json::object(entries)
}

/// All that a client needs to show a session, at `now`, with the project as it stands.
pub open spec fn snapshot_json(
    snapshot: Snapshot,
    project: ProjectView,
    cost: Option<Seq<char>>,
    now: u64,
) -> JsonView {
    JsonView::Object(
        seq![
            ("session_id"@, JsonView::Text(snapshot.session_id@)),
            ("seq"@, JsonView::Unsigned(snapshot.seq)),
            (
                "blocks"@,
                JsonView::Array(
                    snapshot.blocks.deep_view().map_values(|b: BlockView| block_json(b, now)),
                ),
            ),
            ("state"@, state_json(snapshot.state.deep_view(), cost)),
            ("plan"@, plan_json(snapshot.plan.deep_view())),
            ("project"@, project_json(project)),
            ("assistant_id"@, text_or_null(snapshot.assistant_id.deep_view())),
            ("reasoning_id"@, text_or_null(snapshot.reasoning_id.deep_view())),
            ("drafts"@, drafts_json(snapshot.drafts.deep_view())),
        ],
    )
}

/// All that a client needs to show a session, at `now`, with the project as it stands.
/// `cost` is the text of the cost of the session, where that is known.
fn snapshot_to_json(
    snapshot: &Snapshot,
    project: &ProjectState,
    cost: &Option<String>,
    now: u64,
) -> (result: Json)
    ensures
        result.deep_view() == snapshot_json(
            *snapshot,
            project.deep_view(),
            cost.deep_view(),
            now,
        ),
{
    let mut blocks: Vec<Json> = Vec::new();
    let mut i: usize = 0;
    while i < snapshot.blocks.len()
        invariant
            i <= snapshot.blocks@.len(),
            blocks@.len() == i,
            forall|k: int|
                0 <= k < i ==> (#[trigger] blocks@[k]).deep_view() == block_json(
                    snapshot.blocks@[k].deep_view(),
                    now,
                ),
        decreases snapshot.blocks@.len() - i,
    {
        blocks.push(block_to_json(&snapshot.blocks[i], now));
        i += 1;
    }
    assert(blocks.deep_view() =~= snapshot.blocks.deep_view().map_values(
        |b: BlockView| block_json(b, now),
    ));
    let mut entries = json::no_entries();
    json::enter(&mut entries, "session_id", Json::text(snapshot.session_id.as_str()));
    json::enter(&mut entries, "seq", Json::Unsigned(snapshot.seq));
    json::enter(&mut entries, "blocks", json::array(blocks));
    json::enter(&mut entries, "state", state_to_json(&snapshot.state, cost));
    json::enter(&mut entries, "plan", plan_to_json(&snapshot.plan));
    json::enter(&mut entries, "project", project_to_json(project));
    json::enter(&mut entries, "assistant_id", optional_text(&snapshot.assistant_id));
    json::enter(&mut entries, "reasoning_id", optional_text(&snapshot.reasoning_id));
    json::enter(&mut entries, "drafts", drafts_to_json(&snapshot.drafts));
    assert(entries.deep_view() =~= snapshot_json(
        *snapshot,
        project.deep_view(),
        cost.deep_view(),
        now,
    )->Object_0);
    json::object(entries)
}

/// What a client is first told of a session that it watches, at `now`.
pub open spec fn subscribed_json(
    snapshot: Snapshot,
    project: ProjectView,
    cost: Option<Seq<char>>,
    now: u64,
) -> JsonView {
    JsonView::Object(
        seq![
            ("type"@, JsonView::Text("snapshot"@)),
            ("snapshot"@, snapshot_json(snapshot, project, cost, now)),
        ],
    )
}

/// What a client is first told of a session that it watches, at `now`. `cost` is the text
/// of the cost of the session, where that is known.
pub fn snapshot_frame(
    snapshot: &Snapshot,
    project: &ProjectState,
    cost: &Option<String>,
    now: u64,
) -> (result: Json)
    ensures
        result.deep_view() == subscribed_json(
            *snapshot,
            project.deep_view(),
            cost.deep_view(),
            now,
        ),
{
    let mut entries = json::no_entries();
    json::enter(&mut entries, "type", Json::text("snapshot"));
    json::enter(&mut entries, "snapshot", snapshot_to_json(snapshot, project, cost, now));
    assert(entries.deep_view() =~= subscribed_json(
        *snapshot,
        project.deep_view(),
        cost.deep_view(),
        now,
    )->Object_0);
    json::object(entries)
}

/// What a client that lost updates of a session is told.
pub open spec fn resync_json(session_id: Seq<char>) -> JsonView {
    JsonView::Object(
        seq![
            ("type"@, JsonView::Text("resync_required"@)),
            ("session_id"@, JsonView::Text(session_id)),
        ],
    )
}

/// What a client that lost updates of a session is told.
pub fn resync_frame(session_id: &str) -> (result: Json)
    ensures
        result.deep_view() == resync_json(session_id@),
{
    let mut entries = json::no_entries();
    json::enter(&mut entries, "type", Json::text("resync_required"));
    json::enter(&mut entries, "session_id", Json::text(session_id));
    assert(entries.deep_view() =~= resync_json(session_id@)->Object_0);
    json::object(entries)
}

// ---------------------------------------------------------------------------
// The catalog and the project
// ---------------------------------------------------------------------------

/// A session in the catalog. `cost` is the text of its cost, where that is known.
pub open spec fn entry_json(entry: EntryView, cost: Option<Seq<char>>) -> JsonView {
    JsonView::Object(
        seq![
            ("name"@, JsonView::Text(entry.info.name)),
            ("title"@, text_or_null(entry.info.title)),
            ("created_at"@, JsonView::Unsigned(entry.info.created_at)),
            ("first_message"@, text_or_null(entry.info.first_message)),
            ("project_root"@, text_or_null(entry.project_root)),
            ("total_tokens"@, JsonView::Unsigned(entry.total_tokens)),
            ("total_cost"@, number_or_null(cost)),
            ("activity"@, JsonView::Text(entry.activity)),
        ],
    )
}

fn entry_to_json(entry: &CatalogEntry, cost: &Option<String>) -> (result: Json)
    ensures
        result.deep_view() == entry_json(entry.deep_view(), cost.deep_view()),
{
    let mut entries = json::no_entries();
    json::enter(&mut entries, "name", Json::text(entry.info.name.as_str()));
    json::enter(&mut entries, "title", optional_text(&entry.info.title));
    json::enter(&mut entries, "created_at", Json::Unsigned(entry.info.created_at));
    json::enter(&mut entries, "first_message", optional_text(&entry.info.first_message));
    json::enter(&mut entries, "project_root", optional_text(&entry.project_root));
    json::enter(&mut entries, "total_tokens", Json::Unsigned(entry.total_tokens));
    json::enter(&mut entries, "total_cost", optional_number(cost));
    json::enter(&mut entries, "activity", Json::text(entry.activity.as_str()));
    assert(entries.deep_view() =~= entry_json(entry.deep_view(), cost.deep_view())->Object_0);
    json::object(entries)
}

/// The catalog. `costs` are the texts of the costs of its sessions, where they are known.
pub open spec fn catalog_json(
    seq: u64,
    sessions: Seq<EntryView>,
    costs: Seq<Option<Seq<char>>>,
) -> JsonView {
    JsonView::Object(
        seq![
            ("type"@, JsonView::Text("catalog"@)),
            (
                "catalog"@,
                JsonView::Object(
                    seq![
                        ("seq"@, JsonView::Unsigned(seq)),
                        (
                            "sessions"@,
                            JsonView::Array(
                                Seq::new(
                                    sessions.len(),
                                    |i: int| entry_json(sessions[i], costs[i]),
                                ),
                            ),
                        ),
                    ],
                ),
            ),
        ],
    )
}

/// The catalog as clients are told of it. `costs` are the texts of the costs of its
/// sessions, where they are known.
pub fn catalog_frame(catalog: &CatalogSnapshot, costs: &Vec<Option<String>>) -> (result: Json)
    requires
        costs@.len() == catalog.sessions@.len(),
    ensures
        result.deep_view() == catalog_json(
            catalog.seq,
            catalog.sessions.deep_view(),
            costs.deep_view(),
        ),
{
    let ghost known = catalog.sessions.deep_view();
    let ghost told = costs.deep_view();
    let mut sessions: Vec<Json> = Vec::new();
    let mut i: usize = 0;
    while i < catalog.sessions.len()
        invariant
            known == catalog.sessions.deep_view(),
            told == costs.deep_view(),
            costs@.len() == catalog.sessions@.len(),
            i <= catalog.sessions@.len(),
            sessions@.len() == i,
            forall|k: int|
                0 <= k < i ==> (#[trigger] sessions@[k]).deep_view() == entry_json(
                    known[k],
                    told[k],
                ),
        decreases catalog.sessions@.len() - i,
    {
        assert(known[i as int] == catalog.sessions@[i as int].deep_view());
        assert(told[i as int] == costs@[i as int].deep_view());
        sessions.push(entry_to_json(&catalog.sessions[i], &costs[i]));
        i += 1;
    }
    let ghost wanted = catalog_json(catalog.seq, known, told);
    assert(sessions.deep_view() =~= Seq::new(
        known.len(),
        |i: int| entry_json(known[i], told[i]),
    ));
    let mut inner = json::no_entries();
    json::enter(&mut inner, "seq", Json::Unsigned(catalog.seq));
    json::enter(&mut inner, "sessions", json::array(sessions));
    assert(inner.deep_view() =~= wanted->Object_0[1].1->Object_0);
    let mut entries = json::no_entries();
    json::enter(&mut entries, "type", Json::text("catalog"));
    json::enter(&mut entries, "catalog", json::object(inner));
    assert(entries.deep_view() =~= wanted->Object_0);
    json::object(entries)
}

/// The project as clients are told of it.
pub open spec fn project_update_json(update: ProjectUpdateView) -> JsonView {
    JsonView::Object(
        seq![
            ("type"@, JsonView::Text("project"@)),
            (
                "update"@,
                JsonView::Object(
                    seq![
                        ("seq"@, JsonView::Unsigned(update.seq)),
                        ("project"@, project_json(update.project)),
                    ],
                ),
            ),
        ],
    )
}

/// The project as clients are told of it.
pub fn project_frame(update: &ProjectUpdate) -> (result: Json)
    ensures
        result.deep_view() == project_update_json(update.deep_view()),
{
    let ghost wanted = project_update_json(update.deep_view());
    let mut inner = json::no_entries();
    json::enter(&mut inner, "seq", Json::Unsigned(update.seq));
    json::enter(&mut inner, "project", project_to_json(&update.project));
    assert(inner.deep_view() =~= wanted->Object_0[1].1->Object_0);
    let mut entries = json::no_entries();
    json::enter(&mut entries, "type", Json::text("project"));
    json::enter(&mut entries, "update", json::object(inner));
    assert(entries.deep_view() =~= wanted->Object_0);
    json::object(entries)
}

/// What a client is told of a command that was taken up.
pub open spec fn accepted_json(accepted: AcceptedView) -> JsonView {
    JsonView::Object(
        seq![
            ("turn_id"@, text_or_null(accepted.turn_id)),
            ("settings_revision"@, JsonView::Unsigned(accepted.settings_revision)),
        ],
    )
}

/// What a client is told of a command that was taken up.
pub fn accepted_to_json(accepted: &Accepted) -> (result: Json)
    ensures
        result.deep_view() == accepted_json(accepted.deep_view()),
{
    let mut entries = json::no_entries();
    json::enter(&mut entries, "turn_id", optional_text(&accepted.turn_id));
    json::enter(&mut entries, "settings_revision", Json::Unsigned(accepted.settings_revision));
    assert(entries.deep_view() =~= accepted_json(accepted.deep_view())->Object_0);
    json::object(entries)
}

} // verus!
