//! What the model is told of each tool.
use super::builtin::{ListFilesTool, SearchFilesTool};
use super::external::ExternalTool;
use super::registry::{
    by_name, insert_law, tool_named, with_tool, EntryView, ToolEntry, ToolRegistry,
};
use super::Approval;
use crate::config::ToolPolicies;
use crate::json;
use crate::json::{Json, JsonView};
use crate::text;
use vstd::prelude::*;
use vstd::string::*;

verus! {

/// Reads a file below a directory.
#[derive(Debug, PartialEq)]
pub struct ReadTool(pub String);

/// Writes a file below a directory.
#[derive(Debug, PartialEq)]
pub struct WriteTool(pub String);

/// Changes a file below a directory.
#[derive(Debug, PartialEq)]
pub struct EditTool(pub String);

/// Shows an image below a directory.
#[derive(Debug, PartialEq)]
pub struct ViewImageTool(pub String);

/// Tells the headings of a file below a directory.
#[derive(Debug, PartialEq)]
pub struct OrgOutlineTool(pub String);

/// Starts a command.
#[derive(Debug, PartialEq)]
pub struct ShellTool;

/// Waits for a command.
#[derive(Debug, PartialEq)]
pub struct ShellPollTool;

/// Stops a command.
#[derive(Debug, PartialEq)]
pub struct ShellCancelTool;

/// Keeps the plan.
#[derive(Debug, PartialEq)]
pub struct UpdatePlanTool;

/// Opens a page.
#[derive(Debug, PartialEq)]
pub struct WebBrowserTool;

/// Searches the web.
#[derive(Debug, PartialEq)]
pub struct WebSearchTool;

pub const SHELL_TEXT: &'static str = "Run a shell command in the current working directory. The command keeps running in the background: this call returns once the command exits, after yield_time_ms (default 10000, max 30000), or when the output budget fills. The result is a compact envelope with status, job_id, and output. While status is running, call shell_poll with the job_id until the status becomes finished or cancelled; use shell_cancel to stop a command deliberately. A finished or cancelled result includes the rest of the command output in chunks; when a result shows has_more, call shell_poll again with the same job_id to retrieve the remainder. Output beyond the retention limit is discarded and reported as a discard note in the envelope. Commands still running when the turn ends are killed together with their child processes.";

pub const SHELL_POLL_TEXT: &'static str = "Retrieve additional output from a shell job started with the shell tool. Waits up to yield_time_ms (default 10000, max 30000) and returns only output not delivered by earlier calls, or returns immediately once the job reaches a terminal status. Keep polling with the same job_id until the status becomes finished or cancelled and the result no longer shows has_more; the final chunk removes the job.";

pub const SHELL_CANCEL_TEXT: &'static str = "Stop a shell job started with the shell tool. Kills the command and its child processes immediately and returns the job's remaining output with status cancelled; a job that already finished returns its remaining output with its exit status. When a result shows has_more, retrieve the rest with shell_poll.";

pub const SEARCH_FILES_TEXT: &'static str = "Search file contents with a ripgrep-compatible regular expression. Respects ignore files.";

pub const UPDATE_PLAN_TEXT: &'static str = "Create or replace the execution plan for substantial multi-step work. Use it for tasks with at least three dependent steps or meaningful uncertainty; skip simple answers and single edits. Send the complete plan on every update, keep steps concise and verifiable, and have at most one in_progress step.";

pub const ORG_OUTLINE_TEXT: &'static str = "Return the Org-mode heading hierarchy for a file, including line ranges for each subtree. Use this to navigate large Org files before reading or editing specific sections. Apply only to .org files.";

pub const WEB_BROWSER_TEXT: &'static str = "Open an HTTP(S) URL and return visible page text and links; the result is ejected from later context after the final response";

pub const WEB_SEARCH_TEXT: &'static str = "Search the web in a headless browser and return organic result titles, URLs, and snippets";

// ---------------------------------------------------------------------------
// Schemas
// ---------------------------------------------------------------------------

/// A value of a kind.
pub open spec fn of_kind(kind: Seq<char>) -> JsonView {
    JsonView::Object(seq![("type"@, JsonView::Text(kind))])
}

/// A text with a meaning.
pub open spec fn described(description: Seq<char>) -> JsonView {
    JsonView::Object(
        seq![
            ("type"@, JsonView::Text("string"@)),
            ("description"@, JsonView::Text(description)),
        ],
    )
}

/// A text with a value where it is left out.
pub open spec fn defaulting(default: Seq<char>) -> JsonView {
    JsonView::Object(
        seq![("type"@, JsonView::Text("string"@)), ("default"@, JsonView::Text(default))],
    )
}

/// A number in a range, with a value where it is left out.
pub open spec fn ranged(minimum: u64, maximum: u64, default: u64) -> JsonView {
    JsonView::Object(
        seq![
            ("type"@, JsonView::Text("integer"@)),
            ("minimum"@, JsonView::Unsigned(minimum)),
            ("maximum"@, JsonView::Unsigned(maximum)),
            ("default"@, JsonView::Unsigned(default)),
        ],
    )
}

pub open spec fn texts(items: Seq<Seq<char>>) -> JsonView {
    JsonView::Array(items.map_values(|t: Seq<char>| JsonView::Text(t)))
}

/// Arguments with these properties, of which some are required, and no others.
pub open spec fn schema(
    properties: Seq<(Seq<char>, JsonView)>,
    required: Seq<Seq<char>>,
) -> JsonView {
    JsonView::Object(
        seq![
            ("type"@, JsonView::Text("object"@)),
            ("properties"@, JsonView::Object(properties)),
            ("required"@, texts(required)),
            ("additionalProperties"@, JsonView::Bool(false)),
        ],
    )
}

fn text_kind() -> (result: Json)
    ensures
        result.deep_view() == of_kind("string"@),
{
    let entries: Vec<(String, Json)> = vec![("type".to_owned(), Json::text("string"))];
    proof {
        json::json_view_object(entries);
        assert(entries.deep_view() =~= of_kind("string"@)->Object_0);
    }
    Json::Object(entries)
}

fn described_text(description: &str) -> (result: Json)
    ensures
        result.deep_view() == described(description@),
{
    let entries: Vec<(String, Json)> = vec![
        ("type".to_owned(), Json::text("string")),
        ("description".to_owned(), Json::text(description)),
    ];
    proof {
        json::json_view_object(entries);
        assert(entries.deep_view() =~= described(description@)->Object_0);
    }
    Json::Object(entries)
}

fn defaulting_text(default: &str) -> (result: Json)
    ensures
        result.deep_view() == defaulting(default@),
{
    let entries: Vec<(String, Json)> = vec![
        ("type".to_owned(), Json::text("string")),
        ("default".to_owned(), Json::text(default)),
    ];
    proof {
        json::json_view_object(entries);
        assert(entries.deep_view() =~= defaulting(default@)->Object_0);
    }
    Json::Object(entries)
}

fn ranged_number(minimum: u64, maximum: u64, default: u64) -> (result: Json)
    ensures
        result.deep_view() == ranged(minimum, maximum, default),
{
    let entries: Vec<(String, Json)> = vec![
        ("type".to_owned(), Json::text("integer")),
        ("minimum".to_owned(), Json::Unsigned(minimum)),
        ("maximum".to_owned(), Json::Unsigned(maximum)),
        ("default".to_owned(), Json::Unsigned(default)),
    ];
    proof {
        json::json_view_object(entries);
        assert(entries.deep_view() =~= ranged(minimum, maximum, default)->Object_0);
    }
    Json::Object(entries)
}

fn text_list(items: Vec<&'static str>) -> (result: Json)
    ensures
        result.deep_view() == texts(items.deep_view()),
{
    let mut list: Vec<Json> = Vec::new();
    let mut i: usize = 0;
    while i < items.len()
        invariant
            i <= items@.len(),
            list@.len() == i,
            forall|k: int|
                0 <= k < i ==> (#[trigger] list@[k]).deep_view() == JsonView::Text(items@[k]@),
        decreases items@.len() - i,
    {
        list.push(Json::text(items[i]));
        i += 1;
    }
    proof {
        json::json_view_array(list);
        assert(list.deep_view() =~= texts(items.deep_view())->Array_0);
    }
    Json::Array(list)
}

fn object(properties: Vec<(String, Json)>, required: Vec<&'static str>) -> (result: Json)
    ensures
        result.deep_view() == schema(properties.deep_view(), required.deep_view()),
{
    let ghost wanted = schema(properties.deep_view(), required.deep_view());
    proof {
        json::json_view_object(properties);
    }
    let entries: Vec<(String, Json)> = vec![
        ("type".to_owned(), Json::text("object")),
        ("properties".to_owned(), Json::Object(properties)),
        ("required".to_owned(), text_list(required)),
        ("additionalProperties".to_owned(), Json::Bool(false)),
    ];
    proof {
        json::json_view_object(entries);
        assert(entries.deep_view() =~= wanted->Object_0);
    }
    Json::Object(entries)
}

// ---------------------------------------------------------------------------
// Tools
// ---------------------------------------------------------------------------

/// What the model is told of `read`.
pub open spec fn read_entry(approval: Approval) -> EntryView {
    EntryView {
        name: "read"@,
        description: "Read a UTF-8 file"@,
        parameters: schema(
            seq![
                ("path"@, of_kind("string"@)),
            ],
            seq!["path"@],
        ),
        vision_only: false,
        approval,
    }
}

impl ReadTool {
    /// What the model is told of the tool.
    pub fn entry(&self, approval: Approval) -> (entry: ToolEntry)
        ensures
            entry.deep_view() == read_entry(approval),
    {
        let properties: Vec<(String, Json)> = vec![
            ("path".to_owned(), text_kind()),
        ];
        let required: Vec<&'static str> = vec!["path"];
        proof {
            let wanted = read_entry(approval).parameters->Object_0;
            assert(properties.deep_view() =~= wanted[1].1->Object_0);
            assert(required.deep_view() =~= seq!["path"@]);
        }
        ToolEntry {
            name: "read".to_owned(),
            description: "Read a UTF-8 file".to_owned(),
            parameters: object(properties, required),
            vision_only: false,
            approval,
        }
    }
}

/// What the model is told of `write`.
pub open spec fn write_entry(approval: Approval) -> EntryView {
    EntryView {
        name: "write"@,
        description: "Write a UTF-8 file, replacing its contents"@,
        parameters: schema(
            seq![
                ("path"@, of_kind("string"@)),
                ("content"@, of_kind("string"@)),
            ],
            seq!["path"@, "content"@],
        ),
        vision_only: false,
        approval,
    }
}

impl WriteTool {
    /// What the model is told of the tool.
    pub fn entry(&self, approval: Approval) -> (entry: ToolEntry)
        ensures
            entry.deep_view() == write_entry(approval),
    {
        let properties: Vec<(String, Json)> = vec![
            ("path".to_owned(), text_kind()),
            ("content".to_owned(), text_kind()),
        ];
        let required: Vec<&'static str> = vec!["path", "content"];
        proof {
            let wanted = write_entry(approval).parameters->Object_0;
            assert(properties.deep_view() =~= wanted[1].1->Object_0);
            assert(required.deep_view() =~= seq!["path"@, "content"@]);
        }
        ToolEntry {
            name: "write".to_owned(),
            description: "Write a UTF-8 file, replacing its contents".to_owned(),
            parameters: object(properties, required),
            vision_only: false,
            approval,
        }
    }
}

/// What the model is told of `edit`.
pub open spec fn edit_entry(approval: Approval) -> EntryView {
    EntryView {
        name: "edit"@,
        description: "Replace one exact string in a UTF-8 file"@,
        parameters: schema(
            seq![
                ("path"@, of_kind("string"@)),
                ("old"@, of_kind("string"@)),
                ("new"@, of_kind("string"@)),
            ],
            seq!["path"@, "old"@, "new"@],
        ),
        vision_only: false,
        approval,
    }
}

impl EditTool {
    /// What the model is told of the tool.
    pub fn entry(&self, approval: Approval) -> (entry: ToolEntry)
        ensures
            entry.deep_view() == edit_entry(approval),
    {
        let properties: Vec<(String, Json)> = vec![
            ("path".to_owned(), text_kind()),
            ("old".to_owned(), text_kind()),
            ("new".to_owned(), text_kind()),
        ];
        let required: Vec<&'static str> = vec!["path", "old", "new"];
        proof {
            let wanted = edit_entry(approval).parameters->Object_0;
            assert(properties.deep_view() =~= wanted[1].1->Object_0);
            assert(required.deep_view() =~= seq!["path"@, "old"@, "new"@]);
        }
        ToolEntry {
            name: "edit".to_owned(),
            description: "Replace one exact string in a UTF-8 file".to_owned(),
            parameters: object(properties, required),
            vision_only: false,
            approval,
        }
    }
}

/// What the model is told of `shell`.
pub open spec fn shell_entry(approval: Approval) -> EntryView {
    EntryView {
        name: "shell"@,
        description: SHELL_TEXT@,
        parameters: schema(
            seq![
                ("command"@, of_kind("string"@)),
                ("yield_time_ms"@, ranged(1, 30_000, 10_000)),
            ],
            seq!["command"@],
        ),
        vision_only: false,
        approval,
    }
}

impl ShellTool {
    /// What the model is told of the tool.
    pub fn entry(&self, approval: Approval) -> (entry: ToolEntry)
        ensures
            entry.deep_view() == shell_entry(approval),
    {
        let properties: Vec<(String, Json)> = vec![
            ("command".to_owned(), text_kind()),
            ("yield_time_ms".to_owned(), ranged_number(1, 30_000, 10_000)),
        ];
        let required: Vec<&'static str> = vec!["command"];
        proof {
            let wanted = shell_entry(approval).parameters->Object_0;
            assert(properties.deep_view() =~= wanted[1].1->Object_0);
            assert(required.deep_view() =~= seq!["command"@]);
        }
        ToolEntry {
            name: "shell".to_owned(),
            description: SHELL_TEXT.to_owned(),
            parameters: object(properties, required),
            vision_only: false,
            approval,
        }
    }
}

/// What the model is told of `shell_poll`.
pub open spec fn shell_poll_entry(approval: Approval) -> EntryView {
    EntryView {
        name: "shell_poll"@,
        description: SHELL_POLL_TEXT@,
        parameters: schema(
            seq![
                ("job_id"@, of_kind("string"@)),
                ("yield_time_ms"@, ranged(1, 30_000, 10_000)),
            ],
            seq!["job_id"@],
        ),
        vision_only: false,
        approval,
    }
}

impl ShellPollTool {
    /// What the model is told of the tool.
    pub fn entry(&self, approval: Approval) -> (entry: ToolEntry)
        ensures
            entry.deep_view() == shell_poll_entry(approval),
    {
        let properties: Vec<(String, Json)> = vec![
            ("job_id".to_owned(), text_kind()),
            ("yield_time_ms".to_owned(), ranged_number(1, 30_000, 10_000)),
        ];
        let required: Vec<&'static str> = vec!["job_id"];
        proof {
            let wanted = shell_poll_entry(approval).parameters->Object_0;
            assert(properties.deep_view() =~= wanted[1].1->Object_0);
            assert(required.deep_view() =~= seq!["job_id"@]);
        }
        ToolEntry {
            name: "shell_poll".to_owned(),
            description: SHELL_POLL_TEXT.to_owned(),
            parameters: object(properties, required),
            vision_only: false,
            approval,
        }
    }
}

/// What the model is told of `shell_cancel`.
pub open spec fn shell_cancel_entry(approval: Approval) -> EntryView {
    EntryView {
        name: "shell_cancel"@,
        description: SHELL_CANCEL_TEXT@,
        parameters: schema(
            seq![
                ("job_id"@, of_kind("string"@)),
            ],
            seq!["job_id"@],
        ),
        vision_only: false,
        approval,
    }
}

impl ShellCancelTool {
    /// What the model is told of the tool.
    pub fn entry(&self, approval: Approval) -> (entry: ToolEntry)
        ensures
            entry.deep_view() == shell_cancel_entry(approval),
    {
        let properties: Vec<(String, Json)> = vec![
            ("job_id".to_owned(), text_kind()),
        ];
        let required: Vec<&'static str> = vec!["job_id"];
        proof {
            let wanted = shell_cancel_entry(approval).parameters->Object_0;
            assert(properties.deep_view() =~= wanted[1].1->Object_0);
            assert(required.deep_view() =~= seq!["job_id"@]);
        }
        ToolEntry {
            name: "shell_cancel".to_owned(),
            description: SHELL_CANCEL_TEXT.to_owned(),
            parameters: object(properties, required),
            vision_only: false,
            approval,
        }
    }
}

/// What the model is told of `search_files`.
pub open spec fn search_files_entry(approval: Approval) -> EntryView {
    EntryView {
        name: "search_files"@,
        description: SEARCH_FILES_TEXT@,
        parameters: schema(
            seq![
                ("pattern"@, of_kind("string"@)),
                ("path"@, defaulting("."@)),
            ],
            seq!["pattern"@],
        ),
        vision_only: false,
        approval,
    }
}

impl SearchFilesTool {
    /// What the model is told of the tool.
    pub fn entry(&self, approval: Approval) -> (entry: ToolEntry)
        ensures
            entry.deep_view() == search_files_entry(approval),
    {
        let properties: Vec<(String, Json)> = vec![
            ("pattern".to_owned(), text_kind()),
            ("path".to_owned(), defaulting_text(".")),
        ];
        let required: Vec<&'static str> = vec!["pattern"];
        proof {
            let wanted = search_files_entry(approval).parameters->Object_0;
            assert(properties.deep_view() =~= wanted[1].1->Object_0);
            assert(required.deep_view() =~= seq!["pattern"@]);
        }
        ToolEntry {
            name: "search_files".to_owned(),
            description: SEARCH_FILES_TEXT.to_owned(),
            parameters: object(properties, required),
            vision_only: false,
            approval,
        }
    }
}

/// What the model is told of `list_files`.
pub open spec fn list_files_entry(approval: Approval) -> EntryView {
    EntryView {
        name: "list_files"@,
        description: "List files matching a glob pattern. Respects ignore files."@,
        parameters: schema(
            seq![
                ("pattern"@, of_kind("string"@)),
            ],
            seq!["pattern"@],
        ),
        vision_only: false,
        approval,
    }
}

impl ListFilesTool {
    /// What the model is told of the tool.
    pub fn entry(&self, approval: Approval) -> (entry: ToolEntry)
        ensures
            entry.deep_view() == list_files_entry(approval),
    {
        let properties: Vec<(String, Json)> = vec![
            ("pattern".to_owned(), text_kind()),
        ];
        let required: Vec<&'static str> = vec!["pattern"];
        proof {
            let wanted = list_files_entry(approval).parameters->Object_0;
            assert(properties.deep_view() =~= wanted[1].1->Object_0);
            assert(required.deep_view() =~= seq!["pattern"@]);
        }
        ToolEntry {
            name: "list_files".to_owned(),
            description: "List files matching a glob pattern. Respects ignore files.".to_owned(),
            parameters: object(properties, required),
            vision_only: false,
            approval,
        }
    }
}

/// What the model is told of `view_image`.
pub open spec fn view_image_entry(approval: Approval) -> EntryView {
    EntryView {
        name: "view_image"@,
        description: "View a local image file"@,
        parameters: schema(
            seq![
                ("path"@, of_kind("string"@)),
            ],
            seq!["path"@],
        ),
        vision_only: true,
        approval,
    }
}

impl ViewImageTool {
    /// What the model is told of the tool.
    pub fn entry(&self, approval: Approval) -> (entry: ToolEntry)
        ensures
            entry.deep_view() == view_image_entry(approval),
    {
        let properties: Vec<(String, Json)> = vec![
            ("path".to_owned(), text_kind()),
        ];
        let required: Vec<&'static str> = vec!["path"];
        proof {
            let wanted = view_image_entry(approval).parameters->Object_0;
            assert(properties.deep_view() =~= wanted[1].1->Object_0);
            assert(required.deep_view() =~= seq!["path"@]);
        }
        ToolEntry {
            name: "view_image".to_owned(),
            description: "View a local image file".to_owned(),
            parameters: object(properties, required),
            vision_only: true,
            approval,
        }
    }
}

/// What the model is told of `org_outline`.
pub open spec fn org_outline_entry(approval: Approval) -> EntryView {
    EntryView {
        name: "org_outline"@,
        description: ORG_OUTLINE_TEXT@,
        parameters: schema(
            seq![
                ("path"@, described("Path to the Org-mode file."@)),
            ],
            seq!["path"@],
        ),
        vision_only: false,
        approval,
    }
}

impl OrgOutlineTool {
    /// What the model is told of the tool.
    pub fn entry(&self, approval: Approval) -> (entry: ToolEntry)
        ensures
            entry.deep_view() == org_outline_entry(approval),
    {
        let properties: Vec<(String, Json)> = vec![
            ("path".to_owned(), described_text("Path to the Org-mode file.")),
        ];
        let required: Vec<&'static str> = vec!["path"];
        proof {
            let wanted = org_outline_entry(approval).parameters->Object_0;
            assert(properties.deep_view() =~= wanted[1].1->Object_0);
            assert(required.deep_view() =~= seq!["path"@]);
        }
        ToolEntry {
            name: "org_outline".to_owned(),
            description: ORG_OUTLINE_TEXT.to_owned(),
            parameters: object(properties, required),
            vision_only: false,
            approval,
        }
    }
}

/// What the model is told of `web_browser`.
pub open spec fn web_browser_entry(approval: Approval) -> EntryView {
    EntryView {
        name: "web_browser"@,
        description: WEB_BROWSER_TEXT@,
        parameters: schema(
            seq![
                ("url"@, described("HTTP(S) URL to open"@)),
            ],
            seq!["url"@],
        ),
        vision_only: false,
        approval,
    }
}

impl WebBrowserTool {
    /// What the model is told of the tool.
    pub fn entry(&self, approval: Approval) -> (entry: ToolEntry)
        ensures
            entry.deep_view() == web_browser_entry(approval),
    {
        let properties: Vec<(String, Json)> = vec![
            ("url".to_owned(), described_text("HTTP(S) URL to open")),
        ];
        let required: Vec<&'static str> = vec!["url"];
        proof {
            let wanted = web_browser_entry(approval).parameters->Object_0;
            assert(properties.deep_view() =~= wanted[1].1->Object_0);
            assert(required.deep_view() =~= seq!["url"@]);
        }
        ToolEntry {
            name: "web_browser".to_owned(),
            description: WEB_BROWSER_TEXT.to_owned(),
            parameters: object(properties, required),
            vision_only: false,
            approval,
        }
    }
}

/// What the model is told of `web_search`.
pub open spec fn web_search_entry(approval: Approval) -> EntryView {
    EntryView {
        name: "web_search"@,
        description: WEB_SEARCH_TEXT@,
        parameters: schema(
            seq![
                ("query"@, described("Search query"@)),
                ("max_results"@, ranged(1, 10, 5)),
            ],
            seq!["query"@],
        ),
        vision_only: false,
        approval,
    }
}

impl WebSearchTool {
    /// What the model is told of the tool.
    pub fn entry(&self, approval: Approval) -> (entry: ToolEntry)
        ensures
            entry.deep_view() == web_search_entry(approval),
    {
        let properties: Vec<(String, Json)> = vec![
            ("query".to_owned(), described_text("Search query")),
            ("max_results".to_owned(), ranged_number(1, 10, 5)),
        ];
        let required: Vec<&'static str> = vec!["query"];
        proof {
            let wanted = web_search_entry(approval).parameters->Object_0;
            assert(properties.deep_view() =~= wanted[1].1->Object_0);
            assert(required.deep_view() =~= seq!["query"@]);
        }
        ToolEntry {
            name: "web_search".to_owned(),
            description: WEB_SEARCH_TEXT.to_owned(),
            parameters: object(properties, required),
            vision_only: false,
            approval,
        }
    }
}

/// The steps of a plan, of which there is one at least.
pub open spec fn plan_schema() -> JsonView {
    JsonView::Object(
        seq![
            ("type"@, JsonView::Text("array"@)),
            ("minItems"@, JsonView::Unsigned(1)),
            (
                "items"@,
                schema(
                    seq![("step"@, of_kind("string"@)), ("status"@, status_schema())],
                    seq!["step"@, "status"@],
                ),
            ),
        ],
    )
}

/// The status of a step.
pub open spec fn status_schema() -> JsonView {
    JsonView::Object(
        seq![
            ("type"@, JsonView::Text("string"@)),
            ("enum"@, texts(seq!["pending"@, "in_progress"@, "completed"@])),
        ],
    )
}

fn plan_steps() -> (result: Json)
    ensures
        result.deep_view() == plan_schema(),
{
    let statuses: Vec<&'static str> = vec!["pending", "in_progress", "completed"];
    assert(statuses.deep_view() =~= seq!["pending"@, "in_progress"@, "completed"@]);
    let status: Vec<(String, Json)> = vec![
        ("type".to_owned(), Json::text("string")),
        ("enum".to_owned(), text_list(statuses)),
    ];
    proof {
        json::json_view_object(status);
        assert(status.deep_view() =~= status_schema()->Object_0);
    }
    let properties: Vec<(String, Json)> = vec![
        ("step".to_owned(), text_kind()),
        ("status".to_owned(), Json::Object(status)),
    ];
    assert(properties.deep_view() =~= seq![
        ("step"@, of_kind("string"@)),
        ("status"@, status_schema()),
    ]);
    let required: Vec<&'static str> = vec!["step", "status"];
    assert(required.deep_view() =~= seq!["step"@, "status"@]);
    let entries: Vec<(String, Json)> = vec![
        ("type".to_owned(), Json::text("array")),
        ("minItems".to_owned(), Json::Unsigned(1)),
        ("items".to_owned(), object(properties, required)),
    ];
    proof {
        json::json_view_object(entries);
        assert(entries.deep_view() =~= plan_schema()->Object_0);
    }
    Json::Object(entries)
}

/// What the model is told of `update_plan`.
pub open spec fn update_plan_entry(approval: Approval) -> EntryView {
    EntryView {
        name: "update_plan"@,
        description: UPDATE_PLAN_TEXT@,
        parameters: schema(
            seq![
                ("explanation"@, described("Optional concise reason why the plan changed"@)),
                ("plan"@, plan_schema()),
            ],
            seq!["plan"@],
        ),
        vision_only: false,
        approval,
    }
}

impl UpdatePlanTool {
    /// What the model is told of the tool.
    pub fn entry(&self, approval: Approval) -> (entry: ToolEntry)
        ensures
            entry.deep_view() == update_plan_entry(approval),
    {
        let properties: Vec<(String, Json)> = vec![
            (
                "explanation".to_owned(),
                described_text("Optional concise reason why the plan changed"),
            ),
            ("plan".to_owned(), plan_steps()),
        ];
        let required: Vec<&'static str> = vec!["plan"];
        proof {
            let wanted = update_plan_entry(approval).parameters->Object_0;
            assert(properties.deep_view() =~= wanted[1].1->Object_0);
            assert(required.deep_view() =~= seq!["plan"@]);
        }
        ToolEntry {
            name: "update_plan".to_owned(),
            description: UPDATE_PLAN_TEXT.to_owned(),
            parameters: object(properties, required),
            vision_only: false,
            approval,
        }
    }
}

/// What the model is told of a program that is a tool: it takes any arguments.
pub open spec fn external_entry(name: Seq<char>, approval: Approval) -> EntryView {
    EntryView {
        name,
        description: "External executable tool"@,
        parameters: JsonView::Object(
            seq![
                ("type"@, JsonView::Text("object"@)),
                ("additionalProperties"@, JsonView::Bool(true)),
            ],
        ),
        vision_only: false,
        approval,
    }
}

impl ExternalTool {
    /// What the model is told of the tool.
    pub fn entry(&self, approval: Approval) -> (entry: ToolEntry)
        ensures
            entry.deep_view() == external_entry(self.name@, approval),
    {
        let entries: Vec<(String, Json)> = vec![
            ("type".to_owned(), Json::text("object")),
            ("additionalProperties".to_owned(), Json::Bool(true)),
        ];
        proof {
            json::json_view_object(entries);
            let wanted = external_entry(self.name@, approval).parameters->Object_0;
            assert(entries.deep_view() =~= wanted);
        }
        ToolEntry {
            name: self.name.clone(),
            description: "External executable tool".to_owned(),
            parameters: Json::Object(entries),
            vision_only: false,
            approval,
        }
    }
}

// ---------------------------------------------------------------------------
// Tools at hand
// ---------------------------------------------------------------------------

/// The tools with more among them, in their order.
pub open spec fn with_tools(tools: Seq<EntryView>, more: Seq<EntryView>) -> Seq<EntryView>
    decreases more.len(),
{
    if more.len() == 0 {
        tools
    } else {
        with_tool(with_tools(tools, more.drop_last()), more.last())
    }
}

/// The tools that come with the program, but for the plan. Only the start of a command
/// asks for approval: what was started may be waited for and stopped.
pub open spec fn own_tools(policies: ToolPolicies, browser: bool) -> Seq<EntryView> {
    seq![
        read_entry(policies.read),
        write_entry(policies.write),
        edit_entry(policies.edit),
        shell_entry(policies.shell),
        shell_poll_entry(Approval::Allow),
        shell_cancel_entry(Approval::Allow),
        search_files_entry(policies.search_files),
        list_files_entry(policies.list_files),
        view_image_entry(policies.read),
        org_outline_entry(policies.read),
    ] + if browser {
        seq![web_browser_entry(policies.web_browser), web_search_entry(policies.web_search)]
    } else {
        Seq::empty()
    }
}

/// The tools at hand: those of the program, programs in the place of those with their
/// names, and the plan.
pub open spec fn all_tools(
    policies: ToolPolicies,
    browser: bool,
    programs: Seq<EntryView>,
) -> Seq<EntryView> {
    with_tool(
        with_tools(with_tools(Seq::empty(), own_tools(policies, browser)), programs),
        update_plan_entry(Approval::Allow),
    )
}

fn own_entries(
    root: &str,
    policies: &ToolPolicies,
    ripgrep: bool,
    browser: bool,
) -> (entries: Vec<ToolEntry>)
    ensures
        entries.deep_view() == own_tools(*policies, browser),
{
    let mut entries: Vec<ToolEntry> = vec![
        ReadTool(root.to_owned()).entry(policies.read),
        WriteTool(root.to_owned()).entry(policies.write),
        EditTool(root.to_owned()).entry(policies.edit),
        ShellTool.entry(policies.shell),
        ShellPollTool.entry(Approval::Allow),
        ShellCancelTool.entry(Approval::Allow),
        SearchFilesTool::new(root.to_owned(), ripgrep).entry(policies.search_files),
        ListFilesTool::new(root.to_owned(), ripgrep).entry(policies.list_files),
        ViewImageTool(root.to_owned()).entry(policies.read),
        OrgOutlineTool(root.to_owned()).entry(policies.read),
    ];
    if browser {
        entries.push(WebBrowserTool.entry(policies.web_browser));
        entries.push(WebSearchTool.entry(policies.web_search));
    }
    assert(entries.deep_view() =~= own_tools(*policies, browser));
    entries
}

fn insert_all(registry: &mut ToolRegistry, entries: Vec<ToolEntry>)
    requires
        old(registry).wf(),
    ensures
        final(registry).wf(),
        final(registry)@ == with_tools(old(registry)@, entries.deep_view()),
{
    let ghost before = registry@;
    let ghost all = entries.deep_view();
    let mut i: usize = 0;
    assert(with_tools(before, all.take(0)) =~= before);
    while i < entries.len()
        invariant
            all == entries.deep_view(),
            i <= entries@.len(),
            registry.wf(),
            registry@ == with_tools(before, all.take(i as int)),
        decreases entries@.len() - i,
    {
        proof {
            assert(all.take(i + 1).drop_last() =~= all.take(i as int));
            assert(all.take(i + 1).last() == entries@[i as int].deep_view());
        }
        registry.insert(entries[i].clone());
        i += 1;
    }
    assert(all.take(i as int) =~= all);
}

/// The tools at hand in a directory. Programs stand in the place of tools with their
/// names, but for the plan.
pub fn discover(
    root: &str,
    policies: &ToolPolicies,
    ripgrep: bool,
    browser: bool,
    programs: &Vec<ExternalTool>,
) -> (registry: ToolRegistry)
    ensures
        registry.wf(),
        registry@ == all_tools(
            *policies,
            browser,
            Seq::new(
                programs@.len(),
                |i: int| external_entry(programs@[i].name@, policies.external),
            ),
        ),
{
    let ghost wanted = Seq::new(
        programs@.len(),
        |i: int| external_entry(programs@[i].name@, policies.external),
    );
    let mut found: Vec<ToolEntry> = Vec::new();
    let mut i: usize = 0;
    while i < programs.len()
        invariant
            i <= programs@.len(),
            found@.len() == i,
            forall|k: int|
                0 <= k < i ==> (#[trigger] found@[k]).deep_view() == external_entry(
                    programs@[k].name@,
                    policies.external,
                ),
        decreases programs@.len() - i,
    {
        found.push(programs[i].entry(policies.external));
        i += 1;
    }
    assert(found.deep_view() =~= wanted);
    let mut registry = ToolRegistry::new();
    assert(registry@ =~= Seq::empty());
    insert_all(&mut registry, own_entries(root, policies, ripgrep, browser));
    insert_all(&mut registry, found);
    registry.insert(UpdatePlanTool.entry(Approval::Allow));
    registry
}

/// The program that runs where the tool `name` is called: the last of that name, but none
/// in the place of the plan.
pub fn find_program(programs: &Vec<ExternalTool>, name: &str) -> (result: Option<usize>)
    ensures
        match result {
            Some(i) => {
                &&& name@ != "update_plan"@
                &&& i < programs@.len()
                &&& programs@[i as int].name@ == name@
                &&& forall|k: int|
                    i < k < programs@.len() ==> (#[trigger] programs@[k]).name@ != name@
            },
            None => name@ == "update_plan"@ || forall|k: int|
                0 <= k < programs@.len() ==> (#[trigger] programs@[k]).name@ != name@,
        },
{
    if text::same(name, "update_plan") {
        return None;
    }
    let mut i: usize = programs.len();
    while i > 0
        invariant
            name@ != "update_plan"@,
            i <= programs@.len(),
            forall|k: int| i <= k < programs@.len() ==> (#[trigger] programs@[k]).name@ != name@,
        decreases i,
    {
        i -= 1;
        if text::same(programs[i].name.as_str(), name) {
            return Some(i);
        }
    }
    None
}

proof fn with_tools_sorted(tools: Seq<EntryView>, more: Seq<EntryView>)
    requires
        by_name(tools),
    ensures
        by_name(with_tools(tools, more)),
    decreases more.len(),
{
    if more.len() > 0 {
        with_tools_sorted(tools, more.drop_last());
        insert_law(with_tools(tools, more.drop_last()), more.last(), Seq::empty());
    }
}

proof fn last_wins(tools: Seq<EntryView>, more: Seq<EntryView>, i: int)
    requires
        by_name(tools),
        0 <= i < more.len(),
        forall|k: int| i < k < more.len() ==> (#[trigger] more[k]).name != more[i].name,
    ensures
        tool_named(with_tools(tools, more), more[i].name) == Some(more[i]),
    decreases more.len(),
{
    let rest = more.drop_last();
    with_tools_sorted(tools, rest);
    insert_law(with_tools(tools, rest), more.last(), more[i].name);
    if i < rest.len() {
        assert(more[more.len() - 1].name != more[i].name);
        assert forall|k: int| i < k < rest.len() implies (#[trigger] rest[k]).name
            != rest[i].name by {
            assert(more[k].name != more[i].name);
        }
        last_wins(tools, rest, i);
    }
}

/// The plan is always at hand, without asking, whatever programs there are.
pub proof fn plan_law(policies: ToolPolicies, browser: bool, programs: Seq<EntryView>)
    ensures
        tool_named(all_tools(policies, browser, programs), "update_plan"@) == Some(
            update_plan_entry(Approval::Allow),
        ),
{
    let own = with_tools(Seq::empty(), own_tools(policies, browser));
    with_tools_sorted(Seq::empty(), own_tools(policies, browser));
    with_tools_sorted(own, programs);
    let plan = update_plan_entry(Approval::Allow);
    insert_law(with_tools(own, programs), plan, "update_plan"@);
}

/// A program stands in the place of a tool with its name, and of programs that were
/// found before it, but never in the place of the plan.
pub proof fn programs_law(
    policies: ToolPolicies,
    browser: bool,
    programs: Seq<EntryView>,
    i: int,
)
    requires
        0 <= i < programs.len(),
        forall|k: int| i < k < programs.len() ==> (#[trigger] programs[k]).name != programs[i].name,
    ensures
        programs[i].name != "update_plan"@ ==> tool_named(
            all_tools(policies, browser, programs),
            programs[i].name,
        ) == Some(programs[i]),
{
    let own = with_tools(Seq::empty(), own_tools(policies, browser));
    with_tools_sorted(Seq::empty(), own_tools(policies, browser));
    with_tools_sorted(own, programs);
    last_wins(own, programs, i);
    let plan = update_plan_entry(Approval::Allow);
    insert_law(with_tools(own, programs), plan, programs[i].name);
}

} // verus!
