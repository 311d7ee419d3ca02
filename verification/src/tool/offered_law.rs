//! What holds of the tools that are offered: that each may do what the policies say, and
//! that it tells what it takes.
use super::offered::{
    all_tools, defaulting, described, edit_entry, external_entry, list_files_entry, of_kind,
    org_outline_entry, own_tools, plan_schema, ranged, read_entry, schema, search_files_entry,
    shell_cancel_entry, shell_entry, shell_poll_entry, status_schema, texts, update_plan_entry,
    view_image_entry, web_browser_entry, web_search_entry, with_tools, write_entry,
};
use super::registry::{by_name, definition, insert_law, tool_index, tool_named, EntryView};
use super::Approval;
use crate::config::ToolPolicies;
use crate::json::JsonView;
use crate::json_law::entry_law;
use vstd::prelude::*;
use vstd::string::*;

verus! {

// ---------------------------------------------------------------------------
// What a tool takes
// ---------------------------------------------------------------------------

/// A list of texts.
pub open spec fn listed(keys: Seq<Seq<char>>) -> JsonView {
    JsonView::Array(Seq::new(keys.len(), |i: int| JsonView::Text(keys[i])))
}

/// A schema names its properties and those that must be given, and takes no others.
pub proof fn schema_law(properties: Seq<(Seq<char>, JsonView)>, required: Seq<Seq<char>>)
    ensures
        schema(properties, required).text_at("type"@) == Some("object"@),
        schema(properties, required).get("properties"@) == Some(JsonView::Object(properties)),
        schema(properties, required).get("additionalProperties"@) == Some(JsonView::Bool(false)),
        schema(properties, required).get("required"@) == Some(listed(required)),
{
    reveal_strlit("type");
    reveal_strlit("properties");
    reveal_strlit("required");
    reveal_strlit("additionalProperties");
    assert("type"@.len() != "properties"@.len());
    assert("type"@.len() != "required"@.len());
    assert("type"@.len() != "additionalProperties"@.len());
    assert("properties"@.len() != "required"@.len());
    assert("properties"@.len() != "additionalProperties"@.len());
    assert("required"@.len() != "additionalProperties"@.len());
    let fields = schema(properties, required)->Object_0;
    assert(fields[0].0 == "type"@);
    assert(fields[1].0 == "properties"@);
    assert(fields[2].0 == "required"@);
    assert(fields[3].0 == "additionalProperties"@);
    entry_law(fields, 0);
    assert forall|k: int| 0 <= k < 1 implies (#[trigger] fields[k]).0 != fields[1].0 by {
        assert(k == 0);
    }
    entry_law(fields, 1);
    assert forall|k: int| 0 <= k < 2 implies (#[trigger] fields[k]).0 != fields[2].0 by {
        assert(k == 0 || k == 1);
    }
    entry_law(fields, 2);
    assert forall|k: int| 0 <= k < 3 implies (#[trigger] fields[k]).0 != fields[3].0 by {
        assert(k == 0 || k == 1 || k == 2);
    }
    entry_law(fields, 3);
    assert(texts(required)->Array_0 =~= listed(required)->Array_0);
}

/// A value is described by its kind, and by its words, its standard and its bounds where it
/// has them.
pub proof fn value_kind_law(text: Seq<char>, minimum: u64, maximum: u64, default: u64)
    ensures
        of_kind(text).text_at("type"@) == Some(text),
        described(text).text_at("type"@) == Some("string"@),
        described(text).text_at("description"@) == Some(text),
        defaulting(text).text_at("type"@) == Some("string"@),
        defaulting(text).text_at("default"@) == Some(text),
        ranged(minimum, maximum, default).text_at("type"@) == Some("integer"@),
        ranged(minimum, maximum, default).get("minimum"@) == Some(JsonView::Unsigned(minimum)),
        ranged(minimum, maximum, default).get("maximum"@) == Some(JsonView::Unsigned(maximum)),
        ranged(minimum, maximum, default).get("default"@) == Some(JsonView::Unsigned(default)),
{
    reveal_strlit("type");
    reveal_strlit("description");
    reveal_strlit("default");
    reveal_strlit("minimum");
    reveal_strlit("maximum");
    assert("type"@.len() != "description"@.len());
    assert("type"@.len() != "default"@.len());
    assert("type"@.len() != "minimum"@.len());
    assert("type"@.len() != "maximum"@.len());
    assert("description"@.len() != "default"@.len());
    assert("description"@.len() != "minimum"@.len());
    assert("description"@.len() != "maximum"@.len());
    assert("default"@[0] != "minimum"@[0]);
    assert("default"@[0] != "maximum"@[0]);
    assert("minimum"@[1] != "maximum"@[1]);
    let a = of_kind(text)->Object_0;
    assert(a[0].0 == "type"@);
    entry_law(a, 0);
    let b = described(text)->Object_0;
    assert(b[0].0 == "type"@);
    assert(b[1].0 == "description"@);
    entry_law(b, 0);
    assert forall|k: int| 0 <= k < 1 implies (#[trigger] b[k]).0 != b[1].0 by {
        assert(k == 0);
    }
    entry_law(b, 1);
    let c = defaulting(text)->Object_0;
    assert(c[0].0 == "type"@);
    assert(c[1].0 == "default"@);
    entry_law(c, 0);
    assert forall|k: int| 0 <= k < 1 implies (#[trigger] c[k]).0 != c[1].0 by {
        assert(k == 0);
    }
    entry_law(c, 1);
    let d = ranged(minimum, maximum, default)->Object_0;
    assert(d[0].0 == "type"@);
    assert(d[1].0 == "minimum"@);
    assert(d[2].0 == "maximum"@);
    assert(d[3].0 == "default"@);
    entry_law(d, 0);
    assert forall|k: int| 0 <= k < 1 implies (#[trigger] d[k]).0 != d[1].0 by {
        assert(k == 0);
    }
    entry_law(d, 1);
    assert forall|k: int| 0 <= k < 2 implies (#[trigger] d[k]).0 != d[2].0 by {
        assert(k == 0 || k == 1);
    }
    entry_law(d, 2);
    assert forall|k: int| 0 <= k < 3 implies (#[trigger] d[k]).0 != d[3].0 by {
        assert(k == 0 || k == 1 || k == 2);
    }
    entry_law(d, 3);
}

/// A plan is a list of at least one step, and a step has words and one of three states.
pub proof fn plan_schema_law()
    ensures
        plan_schema().text_at("type"@) == Some("array"@),
        plan_schema().get("minItems"@) == Some(JsonView::Unsigned(1)),
        plan_schema().get("items"@) is Some,
        ({
            let item = plan_schema().get("items"@)->0;
            &&& item.text_at("type"@) == Some("object"@)
            &&& item.get("properties"@) is Some
            &&& item.get("properties"@)->0.get("step"@) == Some(of_kind("string"@))
            &&& item.get("properties"@)->0.get("status"@) == Some(status_schema())
            &&& item.get("required"@) == Some(listed(seq!["step"@, "status"@]))
        }),
        status_schema().text_at("type"@) == Some("string"@),
        status_schema().get("enum"@) == Some(
            JsonView::Array(
                seq![
                    JsonView::Text("pending"@),
                    JsonView::Text("in_progress"@),
                    JsonView::Text("completed"@),
                ],
            ),
        ),
{
    reveal_strlit("type");
    reveal_strlit("minItems");
    reveal_strlit("items");
    reveal_strlit("step");
    reveal_strlit("status");
    reveal_strlit("enum");
    assert("type"@.len() != "minItems"@.len());
    assert("type"@.len() != "items"@.len());
    assert("type"@[0] != "step"@[0]);
    assert("type"@.len() != "status"@.len());
    assert("type"@[0] != "enum"@[0]);
    assert("minItems"@.len() != "items"@.len());
    assert("minItems"@.len() != "step"@.len());
    assert("minItems"@.len() != "status"@.len());
    assert("minItems"@.len() != "enum"@.len());
    assert("items"@.len() != "step"@.len());
    assert("items"@.len() != "status"@.len());
    assert("items"@.len() != "enum"@.len());
    assert("step"@.len() != "status"@.len());
    assert("step"@[0] != "enum"@[0]);
    assert("status"@.len() != "enum"@.len());
    let fields = plan_schema()->Object_0;
    assert(fields[0].0 == "type"@);
    assert(fields[1].0 == "minItems"@);
    assert(fields[2].0 == "items"@);
    entry_law(fields, 0);
    assert forall|k: int| 0 <= k < 1 implies (#[trigger] fields[k]).0 != fields[1].0 by {
        assert(k == 0);
    }
    entry_law(fields, 1);
    assert forall|k: int| 0 <= k < 2 implies (#[trigger] fields[k]).0 != fields[2].0 by {
        assert(k == 0 || k == 1);
    }
    entry_law(fields, 2);
    let properties = seq![("step"@, of_kind("string"@)), ("status"@, status_schema())];
    schema_law(properties, seq!["step"@, "status"@]);
    let inner = properties;
    assert(inner[0].0 == "step"@);
    assert(inner[1].0 == "status"@);
    entry_law(inner, 0);
    assert forall|k: int| 0 <= k < 1 implies (#[trigger] inner[k]).0 != inner[1].0 by {
        assert(k == 0);
    }
    entry_law(inner, 1);
    let last = status_schema()->Object_0;
    assert(last[0].0 == "type"@);
    assert(last[1].0 == "enum"@);
    entry_law(last, 0);
    assert forall|k: int| 0 <= k < 1 implies (#[trigger] last[k]).0 != last[1].0 by {
        assert(k == 0);
    }
    entry_law(last, 1);
    assert(texts(seq!["pending"@, "in_progress"@, "completed"@])->Array_0 =~= seq![
        JsonView::Text("pending"@),
        JsonView::Text("in_progress"@),
        JsonView::Text("completed"@),
    ]);
}

/// What a tool takes: the property `key` is described by `value`.
pub open spec fn takes(entry: EntryView, key: Seq<char>, value: JsonView) -> bool {
    &&& entry.parameters.get("properties"@) is Some
    &&& entry.parameters.get("properties"@)->0.get(key) == Some(value)
}

/// What a tool cannot do without.
pub open spec fn needs(entry: EntryView, keys: Seq<Seq<char>>) -> bool {
    entry.parameters.get("required"@) == Some(listed(keys))
}

/// Reading takes a path.
pub proof fn read_tool_law(approval: Approval)
    ensures
        read_entry(approval).name == "read"@,
        read_entry(approval).approval == approval,
        !read_entry(approval).vision_only,
        takes(read_entry(approval), "path"@, of_kind("string"@)),
        needs(read_entry(approval), seq!["path"@]),
{
    let properties = seq![("path"@, of_kind("string"@))];
    schema_law(properties, seq!["path"@]);
    reveal_strlit("path");
    let fields = properties;
    assert(fields[0].0 == "path"@);
    entry_law(fields, 0);
}

/// Writing takes a path and what is to stand there.
pub proof fn write_tool_law(approval: Approval)
    ensures
        write_entry(approval).name == "write"@,
        write_entry(approval).approval == approval,
        !write_entry(approval).vision_only,
        takes(write_entry(approval), "path"@, of_kind("string"@)),
        takes(write_entry(approval), "content"@, of_kind("string"@)),
        needs(write_entry(approval), seq!["path"@, "content"@]),
{
    let properties = seq![("path"@, of_kind("string"@)), ("content"@, of_kind("string"@))];
    schema_law(properties, seq!["path"@, "content"@]);
    reveal_strlit("path");
    reveal_strlit("content");
    assert("path"@.len() != "content"@.len());
    let fields = properties;
    assert(fields[0].0 == "path"@);
    assert(fields[1].0 == "content"@);
    entry_law(fields, 0);
    assert forall|k: int| 0 <= k < 1 implies (#[trigger] fields[k]).0 != fields[1].0 by {
        assert(k == 0);
    }
    entry_law(fields, 1);
}

/// Editing takes a path, the text that is there and the one for its place.
pub proof fn edit_tool_law(approval: Approval)
    ensures
        edit_entry(approval).name == "edit"@,
        edit_entry(approval).approval == approval,
        !edit_entry(approval).vision_only,
        takes(edit_entry(approval), "path"@, of_kind("string"@)),
        takes(edit_entry(approval), "old"@, of_kind("string"@)),
        takes(edit_entry(approval), "new"@, of_kind("string"@)),
        needs(edit_entry(approval), seq!["path"@, "old"@, "new"@]),
{
    let properties = seq![("path"@, of_kind("string"@)), ("old"@, of_kind("string"@)), ("new"@, of_kind("string"@))];
    schema_law(properties, seq!["path"@, "old"@, "new"@]);
    reveal_strlit("path");
    reveal_strlit("old");
    reveal_strlit("new");
    assert("path"@.len() != "old"@.len());
    assert("path"@.len() != "new"@.len());
    assert("old"@[0] != "new"@[0]);
    let fields = properties;
    assert(fields[0].0 == "path"@);
    assert(fields[1].0 == "old"@);
    assert(fields[2].0 == "new"@);
    entry_law(fields, 0);
    assert forall|k: int| 0 <= k < 1 implies (#[trigger] fields[k]).0 != fields[1].0 by {
        assert(k == 0);
    }
    entry_law(fields, 1);
    assert forall|k: int| 0 <= k < 2 implies (#[trigger] fields[k]).0 != fields[2].0 by {
        assert(k == 0 || k == 1);
    }
    entry_law(fields, 2);
}

/// A command is run and waited for, ten seconds where nothing else is said.
pub proof fn shell_tool_law(approval: Approval)
    ensures
        shell_entry(approval).name == "shell"@,
        shell_entry(approval).approval == approval,
        !shell_entry(approval).vision_only,
        takes(shell_entry(approval), "command"@, of_kind("string"@)),
        takes(shell_entry(approval), "yield_time_ms"@, ranged(1, 30_000, 10_000)),
        needs(shell_entry(approval), seq!["command"@]),
{
    let properties = seq![("command"@, of_kind("string"@)), ("yield_time_ms"@, ranged(1, 30_000, 10_000))];
    schema_law(properties, seq!["command"@]);
    reveal_strlit("command");
    reveal_strlit("yield_time_ms");
    assert("command"@.len() != "yield_time_ms"@.len());
    let fields = properties;
    assert(fields[0].0 == "command"@);
    assert(fields[1].0 == "yield_time_ms"@);
    entry_law(fields, 0);
    assert forall|k: int| 0 <= k < 1 implies (#[trigger] fields[k]).0 != fields[1].0 by {
        assert(k == 0);
    }
    entry_law(fields, 1);
}

/// A command is asked for by its id.
pub proof fn shell_poll_tool_law(approval: Approval)
    ensures
        shell_poll_entry(approval).name == "shell_poll"@,
        shell_poll_entry(approval).approval == approval,
        !shell_poll_entry(approval).vision_only,
        takes(shell_poll_entry(approval), "job_id"@, of_kind("string"@)),
        takes(shell_poll_entry(approval), "yield_time_ms"@, ranged(1, 30_000, 10_000)),
        needs(shell_poll_entry(approval), seq!["job_id"@]),
{
    let properties = seq![("job_id"@, of_kind("string"@)), ("yield_time_ms"@, ranged(1, 30_000, 10_000))];
    schema_law(properties, seq!["job_id"@]);
    reveal_strlit("job_id");
    reveal_strlit("yield_time_ms");
    assert("job_id"@.len() != "yield_time_ms"@.len());
    let fields = properties;
    assert(fields[0].0 == "job_id"@);
    assert(fields[1].0 == "yield_time_ms"@);
    entry_law(fields, 0);
    assert forall|k: int| 0 <= k < 1 implies (#[trigger] fields[k]).0 != fields[1].0 by {
        assert(k == 0);
    }
    entry_law(fields, 1);
}

/// A command is stopped by its id.
pub proof fn shell_cancel_tool_law(approval: Approval)
    ensures
        shell_cancel_entry(approval).name == "shell_cancel"@,
        shell_cancel_entry(approval).approval == approval,
        !shell_cancel_entry(approval).vision_only,
        takes(shell_cancel_entry(approval), "job_id"@, of_kind("string"@)),
        needs(shell_cancel_entry(approval), seq!["job_id"@]),
{
    let properties = seq![("job_id"@, of_kind("string"@))];
    schema_law(properties, seq!["job_id"@]);
    reveal_strlit("job_id");
    let fields = properties;
    assert(fields[0].0 == "job_id"@);
    entry_law(fields, 0);
}

/// A search takes a pattern, and looks everywhere where no path is given.
pub proof fn search_files_tool_law(approval: Approval)
    ensures
        search_files_entry(approval).name == "search_files"@,
        search_files_entry(approval).approval == approval,
        !search_files_entry(approval).vision_only,
        takes(search_files_entry(approval), "pattern"@, of_kind("string"@)),
        takes(search_files_entry(approval), "path"@, defaulting("."@)),
        needs(search_files_entry(approval), seq!["pattern"@]),
{
    let properties = seq![("pattern"@, of_kind("string"@)), ("path"@, defaulting("."@))];
    schema_law(properties, seq!["pattern"@]);
    reveal_strlit("pattern");
    reveal_strlit("path");
    assert("pattern"@.len() != "path"@.len());
    let fields = properties;
    assert(fields[0].0 == "pattern"@);
    assert(fields[1].0 == "path"@);
    entry_law(fields, 0);
    assert forall|k: int| 0 <= k < 1 implies (#[trigger] fields[k]).0 != fields[1].0 by {
        assert(k == 0);
    }
    entry_law(fields, 1);
}

/// A list of files takes a pattern.
pub proof fn list_files_tool_law(approval: Approval)
    ensures
        list_files_entry(approval).name == "list_files"@,
        list_files_entry(approval).approval == approval,
        !list_files_entry(approval).vision_only,
        takes(list_files_entry(approval), "pattern"@, of_kind("string"@)),
        needs(list_files_entry(approval), seq!["pattern"@]),
{
    let properties = seq![("pattern"@, of_kind("string"@))];
    schema_law(properties, seq!["pattern"@]);
    reveal_strlit("pattern");
    let fields = properties;
    assert(fields[0].0 == "pattern"@);
    entry_law(fields, 0);
}

/// An image is seen by its path, and only by a model that can see.
pub proof fn view_image_tool_law(approval: Approval)
    ensures
        view_image_entry(approval).name == "view_image"@,
        view_image_entry(approval).approval == approval,
        view_image_entry(approval).vision_only,
        takes(view_image_entry(approval), "path"@, of_kind("string"@)),
        needs(view_image_entry(approval), seq!["path"@]),
{
    let properties = seq![("path"@, of_kind("string"@))];
    schema_law(properties, seq!["path"@]);
    reveal_strlit("path");
    let fields = properties;
    assert(fields[0].0 == "path"@);
    entry_law(fields, 0);
}

/// An outline takes a path.
pub proof fn org_outline_tool_law(approval: Approval)
    ensures
        org_outline_entry(approval).name == "org_outline"@,
        org_outline_entry(approval).approval == approval,
        !org_outline_entry(approval).vision_only,
        takes(org_outline_entry(approval), "path"@, described("Path to the Org-mode file."@)),
        needs(org_outline_entry(approval), seq!["path"@]),
{
    let properties = seq![("path"@, described("Path to the Org-mode file."@))];
    schema_law(properties, seq!["path"@]);
    reveal_strlit("path");
    let fields = properties;
    assert(fields[0].0 == "path"@);
    entry_law(fields, 0);
}

/// A page is opened by its address.
pub proof fn web_browser_tool_law(approval: Approval)
    ensures
        web_browser_entry(approval).name == "web_browser"@,
        web_browser_entry(approval).approval == approval,
        !web_browser_entry(approval).vision_only,
        takes(web_browser_entry(approval), "url"@, described("HTTP(S) URL to open"@)),
        needs(web_browser_entry(approval), seq!["url"@]),
{
    let properties = seq![("url"@, described("HTTP(S) URL to open"@))];
    schema_law(properties, seq!["url"@]);
    reveal_strlit("url");
    let fields = properties;
    assert(fields[0].0 == "url"@);
    entry_law(fields, 0);
}

/// A search of the web takes a query, and gives five results where nothing else is said.
pub proof fn web_search_tool_law(approval: Approval)
    ensures
        web_search_entry(approval).name == "web_search"@,
        web_search_entry(approval).approval == approval,
        !web_search_entry(approval).vision_only,
        takes(web_search_entry(approval), "query"@, described("Search query"@)),
        takes(web_search_entry(approval), "max_results"@, ranged(1, 10, 5)),
        needs(web_search_entry(approval), seq!["query"@]),
{
    let properties = seq![("query"@, described("Search query"@)), ("max_results"@, ranged(1, 10, 5))];
    schema_law(properties, seq!["query"@]);
    reveal_strlit("query");
    reveal_strlit("max_results");
    assert("query"@.len() != "max_results"@.len());
    let fields = properties;
    assert(fields[0].0 == "query"@);
    assert(fields[1].0 == "max_results"@);
    entry_law(fields, 0);
    assert forall|k: int| 0 <= k < 1 implies (#[trigger] fields[k]).0 != fields[1].0 by {
        assert(k == 0);
    }
    entry_law(fields, 1);
}

/// A plan takes its steps, and says why it changed where it likes.
pub proof fn update_plan_tool_law(approval: Approval)
    ensures
        update_plan_entry(approval).name == "update_plan"@,
        update_plan_entry(approval).approval == approval,
        !update_plan_entry(approval).vision_only,
        takes(update_plan_entry(approval), "explanation"@, described("Optional concise reason why the plan changed"@)),
        takes(update_plan_entry(approval), "plan"@, plan_schema()),
        needs(update_plan_entry(approval), seq!["plan"@]),
{
    let properties = seq![("explanation"@, described("Optional concise reason why the plan changed"@)), ("plan"@, plan_schema())];
    schema_law(properties, seq!["plan"@]);
    reveal_strlit("explanation");
    reveal_strlit("plan");
    assert("explanation"@.len() != "plan"@.len());
    let fields = properties;
    assert(fields[0].0 == "explanation"@);
    assert(fields[1].0 == "plan"@);
    entry_law(fields, 0);
    assert forall|k: int| 0 <= k < 1 implies (#[trigger] fields[k]).0 != fields[1].0 by {
        assert(k == 0);
    }
    entry_law(fields, 1);
}

/// A program of the user is offered under its own name, and takes what it is given.
pub proof fn program_law(name: Seq<char>, approval: Approval)
    ensures
        external_entry(name, approval).name == name,
        external_entry(name, approval).approval == approval,
        !external_entry(name, approval).vision_only,
        external_entry(name, approval).parameters.text_at("type"@) == Some("object"@),
        external_entry(name, approval).parameters.get("additionalProperties"@) == Some(
            JsonView::Bool(true),
        ),
{
    reveal_strlit("type");
    reveal_strlit("additionalProperties");
    assert("type"@.len() != "additionalProperties"@.len());
    let fields = external_entry(name, approval).parameters->Object_0;
    assert(fields[0].0 == "type"@);
    assert(fields[1].0 == "additionalProperties"@);
    entry_law(fields, 0);
    assert forall|k: int| 0 <= k < 1 implies (#[trigger] fields[k]).0 != fields[1].0 by {
        assert(k == 0);
    }
    entry_law(fields, 1);
}

// ---------------------------------------------------------------------------
// What is offered
// ---------------------------------------------------------------------------

proof fn with_tools_named(tools: Seq<EntryView>, more: Seq<EntryView>, name: Seq<char>)
    requires
        by_name(tools),
    ensures
        by_name(with_tools(tools, more)),
        (forall|k: int| 0 <= k < more.len() ==> (#[trigger] more[k]).name != name) ==> tool_named(
            with_tools(tools, more),
            name,
        ) == tool_named(tools, name),
    decreases more.len(),
{
    if more.len() > 0 {
        let front = more.drop_last();
        with_tools_named(tools, front, name);
        insert_law(with_tools(tools, front), more.last(), name);
        if forall|k: int| 0 <= k < more.len() ==> (#[trigger] more[k]).name != name {
            assert(more[more.len() - 1].name != name);
            assert forall|k: int| 0 <= k < front.len() implies (#[trigger] front[k]).name
                != name by {
                assert(front[k] == more[k]);
            }
        }
    }
}

proof fn last_named(tools: Seq<EntryView>, more: Seq<EntryView>, i: int)
    requires
        by_name(tools),
        0 <= i < more.len(),
        forall|k: int| i < k < more.len() ==> (#[trigger] more[k]).name != more[i].name,
    ensures
        tool_named(with_tools(tools, more), more[i].name) == Some(more[i]),
    decreases more.len(),
{
    let front = more.drop_last();
    with_tools_named(tools, front, more[i].name);
    insert_law(with_tools(tools, front), more.last(), more[i].name);
    if i < more.len() - 1 {
        assert(more[more.len() - 1].name != more[i].name);
        assert forall|k: int| i < k < front.len() implies (#[trigger] front[k]).name
            != front[i].name by {
            assert(front[k] == more[k]);
        }
        last_named(tools, front, i);
    }
}

/// A tool of the library is offered unless a program of the user has its name.
pub proof fn own_tool_law(
    policies: ToolPolicies,
    browser: bool,
    programs: Seq<EntryView>,
    i: int,
)
    requires
        0 <= i < own_tools(policies, browser).len(),
        forall|k: int|
            0 <= k < programs.len() ==> (#[trigger] programs[k]).name != own_tools(
                policies,
                browser,
            )[i].name,
    ensures
        tool_named(all_tools(policies, browser, programs), own_tools(policies, browser)[i].name)
            == Some(own_tools(policies, browser)[i]),
{
    own_names(policies, browser);
    let own = own_tools(policies, browser);
    let name = own[i].name;
    assert forall|k: int| i < k < own.len() implies (#[trigger] own[k]).name != name by {
        assert(own[i].name != own[k].name);
    }
    assert(by_name(Seq::<EntryView>::empty()));
    with_tools_named(Seq::empty(), own, name);
    last_named(Seq::empty(), own, i);
    let some = with_tools(Seq::empty(), own);
    with_tools_named(some, programs, name);
    insert_law(with_tools(some, programs), update_plan_entry(Approval::Allow), name);
}

/// The names of the tools differ, and none is that of the plan.
proof fn own_names(policies: ToolPolicies, browser: bool)
    ensures
        forall|i: int, j: int|
            0 <= i < j < own_tools(policies, browser).len() ==> (#[trigger] own_tools(
                policies,
                browser,
            )[i]).name != (#[trigger] own_tools(policies, browser)[j]).name,
        forall|i: int|
            0 <= i < own_tools(policies, browser).len() ==> (#[trigger] own_tools(
                policies,
                browser,
            )[i]).name != "update_plan"@,
{
    reveal_strlit("read");
    reveal_strlit("write");
    reveal_strlit("edit");
    reveal_strlit("shell");
    reveal_strlit("shell_poll");
    reveal_strlit("shell_cancel");
    reveal_strlit("search_files");
    reveal_strlit("list_files");
    reveal_strlit("view_image");
    reveal_strlit("org_outline");
    reveal_strlit("web_browser");
    reveal_strlit("web_search");
    reveal_strlit("update_plan");
    assert("read"@.len() != "write"@.len());
    assert("read"@[0] != "edit"@[0]);
    assert("read"@.len() != "shell"@.len());
    assert("read"@.len() != "shell_poll"@.len());
    assert("read"@.len() != "shell_cancel"@.len());
    assert("read"@.len() != "search_files"@.len());
    assert("read"@.len() != "list_files"@.len());
    assert("read"@.len() != "view_image"@.len());
    assert("read"@.len() != "org_outline"@.len());
    assert("read"@.len() != "web_browser"@.len());
    assert("read"@.len() != "web_search"@.len());
    assert("read"@.len() != "update_plan"@.len());
    assert("write"@.len() != "edit"@.len());
    assert("write"@[0] != "shell"@[0]);
    assert("write"@.len() != "shell_poll"@.len());
    assert("write"@.len() != "shell_cancel"@.len());
    assert("write"@.len() != "search_files"@.len());
    assert("write"@.len() != "list_files"@.len());
    assert("write"@.len() != "view_image"@.len());
    assert("write"@.len() != "org_outline"@.len());
    assert("write"@.len() != "web_browser"@.len());
    assert("write"@.len() != "web_search"@.len());
    assert("write"@.len() != "update_plan"@.len());
    assert("edit"@.len() != "shell"@.len());
    assert("edit"@.len() != "shell_poll"@.len());
    assert("edit"@.len() != "shell_cancel"@.len());
    assert("edit"@.len() != "search_files"@.len());
    assert("edit"@.len() != "list_files"@.len());
    assert("edit"@.len() != "view_image"@.len());
    assert("edit"@.len() != "org_outline"@.len());
    assert("edit"@.len() != "web_browser"@.len());
    assert("edit"@.len() != "web_search"@.len());
    assert("edit"@.len() != "update_plan"@.len());
    assert("shell"@.len() != "shell_poll"@.len());
    assert("shell"@.len() != "shell_cancel"@.len());
    assert("shell"@.len() != "search_files"@.len());
    assert("shell"@.len() != "list_files"@.len());
    assert("shell"@.len() != "view_image"@.len());
    assert("shell"@.len() != "org_outline"@.len());
    assert("shell"@.len() != "web_browser"@.len());
    assert("shell"@.len() != "web_search"@.len());
    assert("shell"@.len() != "update_plan"@.len());
    assert("shell_poll"@.len() != "shell_cancel"@.len());
    assert("shell_poll"@.len() != "search_files"@.len());
    assert("shell_poll"@[0] != "list_files"@[0]);
    assert("shell_poll"@[0] != "view_image"@[0]);
    assert("shell_poll"@.len() != "org_outline"@.len());
    assert("shell_poll"@.len() != "web_browser"@.len());
    assert("shell_poll"@[0] != "web_search"@[0]);
    assert("shell_poll"@.len() != "update_plan"@.len());
    assert("shell_cancel"@[1] != "search_files"@[1]);
    assert("shell_cancel"@.len() != "list_files"@.len());
    assert("shell_cancel"@.len() != "view_image"@.len());
    assert("shell_cancel"@.len() != "org_outline"@.len());
    assert("shell_cancel"@.len() != "web_browser"@.len());
    assert("shell_cancel"@.len() != "web_search"@.len());
    assert("shell_cancel"@.len() != "update_plan"@.len());
    assert("search_files"@.len() != "list_files"@.len());
    assert("search_files"@.len() != "view_image"@.len());
    assert("search_files"@.len() != "org_outline"@.len());
    assert("search_files"@.len() != "web_browser"@.len());
    assert("search_files"@.len() != "web_search"@.len());
    assert("search_files"@.len() != "update_plan"@.len());
    assert("list_files"@[0] != "view_image"@[0]);
    assert("list_files"@.len() != "org_outline"@.len());
    assert("list_files"@.len() != "web_browser"@.len());
    assert("list_files"@[0] != "web_search"@[0]);
    assert("list_files"@.len() != "update_plan"@.len());
    assert("view_image"@.len() != "org_outline"@.len());
    assert("view_image"@.len() != "web_browser"@.len());
    assert("view_image"@[0] != "web_search"@[0]);
    assert("view_image"@.len() != "update_plan"@.len());
    assert("org_outline"@[0] != "web_browser"@[0]);
    assert("org_outline"@.len() != "web_search"@.len());
    assert("org_outline"@[0] != "update_plan"@[0]);
    assert("web_browser"@.len() != "web_search"@.len());
    assert("web_browser"@[0] != "update_plan"@[0]);
    assert("web_search"@.len() != "update_plan"@.len());
    let own = own_tools(policies, browser);
    assert forall|i: int, j: int| 0 <= i < j < own.len() implies (#[trigger] own[i]).name != (
    #[trigger] own[j]).name by {
        if i == 0 {
            assert(j == 1 || j == 2 || j == 3 || j == 4 || j == 5 || j == 6 || j == 7 || j == 8
                || j == 9 || j == 10 || j == 11);
        }
        if i == 1 {
            assert(j == 2 || j == 3 || j == 4 || j == 5 || j == 6 || j == 7 || j == 8 || j == 9
                || j == 10 || j == 11);
        }
        if i == 2 {
            assert(j == 3 || j == 4 || j == 5 || j == 6 || j == 7 || j == 8 || j == 9 || j == 10
                || j == 11);
        }
        if i == 3 {
            assert(j == 4 || j == 5 || j == 6 || j == 7 || j == 8 || j == 9 || j == 10 || j == 11);
        }
        if i == 4 {
            assert(j == 5 || j == 6 || j == 7 || j == 8 || j == 9 || j == 10 || j == 11);
        }
        if i == 5 {
            assert(j == 6 || j == 7 || j == 8 || j == 9 || j == 10 || j == 11);
        }
        if i == 6 {
            assert(j == 7 || j == 8 || j == 9 || j == 10 || j == 11);
        }
        if i == 7 {
            assert(j == 8 || j == 9 || j == 10 || j == 11);
        }
        if i == 8 {
            assert(j == 9 || j == 10 || j == 11);
        }
        if i == 9 {
            assert(j == 10 || j == 11);
        }
        if i == 10 {
            assert(j == 11);
        }
        if i == 11 {
            assert(false);
        }
    }
    assert forall|i: int| 0 <= i < own.len() implies (#[trigger] own[i]).name
        != "update_plan"@ by {
        assert(i == 0 || i == 1 || i == 2 || i == 3 || i == 4 || i == 5 || i == 6 || i == 7
            || i == 8 || i == 9 || i == 10 || i == 11);
    }
}

/// What may be done is what the policies say: each tool by its own, images and outlines as
/// reading, and a command that was allowed may be asked for and stopped.
pub proof fn policy_law(policies: ToolPolicies, browser: bool)
    ensures
        ({
            let tools = all_tools(policies, browser, Seq::empty());
            &&& tool_named(tools, "read"@) is Some && tool_named(tools, "read"@)->0.approval
                == policies.read
            &&& tool_named(tools, "write"@) is Some && tool_named(tools, "write"@)->0.approval
                == policies.write
            &&& tool_named(tools, "edit"@) is Some && tool_named(tools, "edit"@)->0.approval
                == policies.edit
            &&& tool_named(tools, "shell"@) is Some && tool_named(tools, "shell"@)->0.approval
                == policies.shell
            &&& tool_named(tools, "shell_poll"@) is Some
                && tool_named(tools, "shell_poll"@)->0.approval
                == Approval::Allow
            &&& tool_named(tools, "shell_cancel"@) is Some
                && tool_named(tools, "shell_cancel"@)->0.approval
                == Approval::Allow
            &&& tool_named(tools, "search_files"@) is Some
                && tool_named(tools, "search_files"@)->0.approval
                == policies.search_files
            &&& tool_named(tools, "list_files"@) is Some
                && tool_named(tools, "list_files"@)->0.approval
                == policies.list_files
            &&& tool_named(tools, "view_image"@) is Some
                && tool_named(tools, "view_image"@)->0.approval
                == policies.read
            &&& tool_named(tools, "org_outline"@) is Some
                && tool_named(tools, "org_outline"@)->0.approval
                == policies.read
            &&& browser ==> tool_named(tools, "web_browser"@) is Some
                && tool_named(tools, "web_browser"@)->0.approval
                == policies.web_browser
            &&& browser ==> tool_named(tools, "web_search"@) is Some
                && tool_named(tools, "web_search"@)->0.approval
                == policies.web_search
            &&& !browser ==> tool_named(tools, "web_browser"@) is None
            &&& !browser ==> tool_named(tools, "web_search"@) is None
        }),
{
    let own = own_tools(policies, browser);
    assert(own[0].name == "read"@);
    own_tool_law(policies, browser, Seq::empty(), 0);
    assert(own[1].name == "write"@);
    own_tool_law(policies, browser, Seq::empty(), 1);
    assert(own[2].name == "edit"@);
    own_tool_law(policies, browser, Seq::empty(), 2);
    assert(own[3].name == "shell"@);
    own_tool_law(policies, browser, Seq::empty(), 3);
    assert(own[4].name == "shell_poll"@);
    own_tool_law(policies, browser, Seq::empty(), 4);
    assert(own[5].name == "shell_cancel"@);
    own_tool_law(policies, browser, Seq::empty(), 5);
    assert(own[6].name == "search_files"@);
    own_tool_law(policies, browser, Seq::empty(), 6);
    assert(own[7].name == "list_files"@);
    own_tool_law(policies, browser, Seq::empty(), 7);
    assert(own[8].name == "view_image"@);
    own_tool_law(policies, browser, Seq::empty(), 8);
    assert(own[9].name == "org_outline"@);
    own_tool_law(policies, browser, Seq::empty(), 9);
    if browser {
        assert(own[10].name == "web_browser"@);
        own_tool_law(policies, browser, Seq::empty(), 10);
        assert(own[11].name == "web_search"@);
        own_tool_law(policies, browser, Seq::empty(), 11);
    } else {
        reveal_strlit("read");
        reveal_strlit("write");
        reveal_strlit("edit");
        reveal_strlit("shell");
        reveal_strlit("shell_poll");
        reveal_strlit("shell_cancel");
        reveal_strlit("search_files");
        reveal_strlit("list_files");
        reveal_strlit("view_image");
        reveal_strlit("org_outline");
        reveal_strlit("web_browser");
        reveal_strlit("web_search");
        reveal_strlit("update_plan");
        assert("read"@.len() != "write"@.len());
        assert("read"@[0] != "edit"@[0]);
        assert("read"@.len() != "shell"@.len());
        assert("read"@.len() != "shell_poll"@.len());
        assert("read"@.len() != "shell_cancel"@.len());
        assert("read"@.len() != "search_files"@.len());
        assert("read"@.len() != "list_files"@.len());
        assert("read"@.len() != "view_image"@.len());
        assert("read"@.len() != "org_outline"@.len());
        assert("read"@.len() != "web_browser"@.len());
        assert("read"@.len() != "web_search"@.len());
        assert("read"@.len() != "update_plan"@.len());
        assert("write"@.len() != "edit"@.len());
        assert("write"@[0] != "shell"@[0]);
        assert("write"@.len() != "shell_poll"@.len());
        assert("write"@.len() != "shell_cancel"@.len());
        assert("write"@.len() != "search_files"@.len());
        assert("write"@.len() != "list_files"@.len());
        assert("write"@.len() != "view_image"@.len());
        assert("write"@.len() != "org_outline"@.len());
        assert("write"@.len() != "web_browser"@.len());
        assert("write"@.len() != "web_search"@.len());
        assert("write"@.len() != "update_plan"@.len());
        assert("edit"@.len() != "shell"@.len());
        assert("edit"@.len() != "shell_poll"@.len());
        assert("edit"@.len() != "shell_cancel"@.len());
        assert("edit"@.len() != "search_files"@.len());
        assert("edit"@.len() != "list_files"@.len());
        assert("edit"@.len() != "view_image"@.len());
        assert("edit"@.len() != "org_outline"@.len());
        assert("edit"@.len() != "web_browser"@.len());
        assert("edit"@.len() != "web_search"@.len());
        assert("edit"@.len() != "update_plan"@.len());
        assert("shell"@.len() != "shell_poll"@.len());
        assert("shell"@.len() != "shell_cancel"@.len());
        assert("shell"@.len() != "search_files"@.len());
        assert("shell"@.len() != "list_files"@.len());
        assert("shell"@.len() != "view_image"@.len());
        assert("shell"@.len() != "org_outline"@.len());
        assert("shell"@.len() != "web_browser"@.len());
        assert("shell"@.len() != "web_search"@.len());
        assert("shell"@.len() != "update_plan"@.len());
        assert("shell_poll"@.len() != "shell_cancel"@.len());
        assert("shell_poll"@.len() != "search_files"@.len());
        assert("shell_poll"@[0] != "list_files"@[0]);
        assert("shell_poll"@[0] != "view_image"@[0]);
        assert("shell_poll"@.len() != "org_outline"@.len());
        assert("shell_poll"@.len() != "web_browser"@.len());
        assert("shell_poll"@[0] != "web_search"@[0]);
        assert("shell_poll"@.len() != "update_plan"@.len());
        assert("shell_cancel"@[1] != "search_files"@[1]);
        assert("shell_cancel"@.len() != "list_files"@.len());
        assert("shell_cancel"@.len() != "view_image"@.len());
        assert("shell_cancel"@.len() != "org_outline"@.len());
        assert("shell_cancel"@.len() != "web_browser"@.len());
        assert("shell_cancel"@.len() != "web_search"@.len());
        assert("shell_cancel"@.len() != "update_plan"@.len());
        assert("search_files"@.len() != "list_files"@.len());
        assert("search_files"@.len() != "view_image"@.len());
        assert("search_files"@.len() != "org_outline"@.len());
        assert("search_files"@.len() != "web_browser"@.len());
        assert("search_files"@.len() != "web_search"@.len());
        assert("search_files"@.len() != "update_plan"@.len());
        assert("list_files"@[0] != "view_image"@[0]);
        assert("list_files"@.len() != "org_outline"@.len());
        assert("list_files"@.len() != "web_browser"@.len());
        assert("list_files"@[0] != "web_search"@[0]);
        assert("list_files"@.len() != "update_plan"@.len());
        assert("view_image"@.len() != "org_outline"@.len());
        assert("view_image"@.len() != "web_browser"@.len());
        assert("view_image"@[0] != "web_search"@[0]);
        assert("view_image"@.len() != "update_plan"@.len());
        assert("org_outline"@[0] != "web_browser"@[0]);
        assert("org_outline"@.len() != "web_search"@.len());
        assert("org_outline"@[0] != "update_plan"@[0]);
        assert("web_browser"@.len() != "web_search"@.len());
        assert("web_browser"@[0] != "update_plan"@[0]);
        assert("web_search"@.len() != "update_plan"@.len());
        assert forall|k: int| 0 <= k < own.len() implies (#[trigger] own[k]).name
            != "web_browser"@ by {
            assert(k == 0 || k == 1 || k == 2 || k == 3 || k == 4 || k == 5 || k == 6 || k == 7
                || k == 8 || k == 9);
        }
        with_tools_named(Seq::empty(), own, "web_browser"@);
        with_tools_named(with_tools(Seq::empty(), own), Seq::empty(), "web_browser"@);
        insert_law(
            with_tools(with_tools(Seq::empty(), own), Seq::empty()),
            update_plan_entry(Approval::Allow),
            "web_browser"@,
        );
        assert forall|k: int| 0 <= k < own.len() implies (#[trigger] own[k]).name
            != "web_search"@ by {
            assert(k == 0 || k == 1 || k == 2 || k == 3 || k == 4 || k == 5 || k == 6 || k == 7
                || k == 8 || k == 9);
        }
        with_tools_named(Seq::empty(), own, "web_search"@);
        with_tools_named(with_tools(Seq::empty(), own), Seq::empty(), "web_search"@);
        insert_law(
            with_tools(with_tools(Seq::empty(), own), Seq::empty()),
            update_plan_entry(Approval::Allow),
            "web_search"@,
        );
    }
}

/// A tool is described to the model with its own name, words and parameters.
pub proof fn definition_law(tool: EntryView)
    ensures
        definition(tool).kind == "function"@,
        definition(tool).function.name == tool.name,
        definition(tool).function.description == tool.description,
        definition(tool).function.parameters == tool.parameters,
{
}

proof fn index_from(tools: Seq<EntryView>, name: Seq<char>, from: int)
    requires
        0 <= from <= tools.len(),
    ensures
        from <= tool_index(tools, name, from) <= tools.len(),
        tool_index(tools, name, from) < tools.len() ==> tools[tool_index(tools, name, from)].name
            == name,
        forall|k: int|
            from <= k < tool_index(tools, name, from) ==> (#[trigger] tools[k]).name != name,
    decreases tools.len() - from,
{
    if from < tools.len() && tools[from].name != name {
        index_from(tools, name, from + 1);
    }
}

/// A tool is found by its name, and none is found just where none has it.
pub proof fn named_law(tools: Seq<EntryView>, name: Seq<char>)
    ensures
        match tool_named(tools, name) {
            Some(tool) => tool.name == name && tools.contains(tool),
            None => forall|k: int| 0 <= k < tools.len() ==> (#[trigger] tools[k]).name != name,
        },
{
    index_from(tools, name, 0);
    let i = tool_index(tools, name, 0);
    if i < tools.len() {
        assert(tools.contains(tools[i]));
    }
}

} // verus!
