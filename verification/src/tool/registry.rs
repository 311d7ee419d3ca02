//! The tools that are at hand, by name.
use super::Approval;
use crate::json::{Json, JsonView};
use crate::text;
use crate::text::{less, less_is_total, less_is_transitive};
use vstd::prelude::*;
use vstd::string::*;

verus! {

/// A tool as the model sees it, and whether it may run.
#[derive(Debug, PartialEq)]
pub struct ToolEntry {
    pub name: String,
    pub description: String,
    pub parameters: Json,
    /// Only for models that see images.
    pub vision_only: bool,
    pub approval: Approval,
}

pub struct EntryView {
    pub name: Seq<char>,
    pub description: Seq<char>,
    pub parameters: JsonView,
    pub vision_only: bool,
    pub approval: Approval,
}

impl DeepView for ToolEntry {
    type V = EntryView;

    open spec fn deep_view(&self) -> EntryView {
        EntryView {
            name: self.name@,
            description: self.description@,
            parameters: self.parameters.deep_view(),
            vision_only: self.vision_only,
            approval: self.approval,
        }
    }
}

impl Clone for ToolEntry {
    fn clone(&self) -> (result: Self)
        ensures
            result.deep_view() == self.deep_view(),
    {
        ToolEntry {
            name: self.name.clone(),
            description: self.description.clone(),
            parameters: self.parameters.clone(),
            vision_only: self.vision_only,
            approval: self.approval,
        }
    }
}

/// What a request tells the model of a tool.
#[derive(Debug, PartialEq)]
pub struct FunctionDefinition {
    pub name: String,
    pub description: String,
    pub parameters: Json,
}

pub struct FunctionView {
    pub name: Seq<char>,
    pub description: Seq<char>,
    pub parameters: JsonView,
}

impl DeepView for FunctionDefinition {
    type V = FunctionView;

    open spec fn deep_view(&self) -> FunctionView {
        FunctionView {
            name: self.name@,
            description: self.description@,
            parameters: self.parameters.deep_view(),
        }
    }
}

impl Clone for FunctionDefinition {
    fn clone(&self) -> (result: Self)
        ensures
            result.deep_view() == self.deep_view(),
    {
        FunctionDefinition {
            name: self.name.clone(),
            description: self.description.clone(),
            parameters: self.parameters.clone(),
        }
    }
}

/// A tool as a request names it. `kind` is written `type`.
#[derive(Debug, PartialEq)]
pub struct ToolDefinition {
    pub kind: &'static str,
    pub function: FunctionDefinition,
}

pub struct DefinitionView {
    pub kind: Seq<char>,
    pub function: FunctionView,
}

impl DeepView for ToolDefinition {
    type V = DefinitionView;

    open spec fn deep_view(&self) -> DefinitionView {
        DefinitionView { kind: self.kind@, function: self.function.deep_view() }
    }
}

impl Clone for ToolDefinition {
    fn clone(&self) -> (result: Self)
        ensures
            result.deep_view() == self.deep_view(),
    {
        ToolDefinition { kind: self.kind, function: self.function.clone() }
    }
}

/// The tools that are at hand, in the order of their names.
#[derive(Debug, PartialEq)]
pub struct ToolRegistry {
    pub tools: Vec<ToolEntry>,
}

impl View for ToolRegistry {
    type V = Seq<EntryView>;

    open spec fn view(&self) -> Seq<EntryView> {
        self.tools.deep_view()
    }
}

/// The tools stand in the order of their names, each name once.
pub open spec fn by_name(tools: Seq<EntryView>) -> bool {
    forall|i: int, j: int|
        0 <= i < j < tools.len() ==> less((#[trigger] tools[i]).name, (#[trigger] tools[j]).name)
}

/// The tools with `tool` among them, in the place of one with its name.
pub open spec fn with_tool(tools: Seq<EntryView>, tool: EntryView) -> Seq<EntryView>
    decreases tools.len(),
{
    if tools.len() == 0 {
        seq![tool]
    } else if tools.last().name == tool.name {
        tools.drop_last().push(tool)
    } else if less(tools.last().name, tool.name) {
        tools.push(tool)
    } else {
        with_tool(tools.drop_last(), tool).push(tools.last())
    }
}

/// The index of the tool with `name`; the number of tools where there is none.
pub open spec fn tool_index(tools: Seq<EntryView>, name: Seq<char>, from: int) -> int
    decreases tools.len() - from,
{
    if from < 0 || from >= tools.len() {
        tools.len() as int
    } else if tools[from].name == name {
        from
    } else {
        tool_index(tools, name, from + 1)
    }
}

/// The tool with `name`.
pub open spec fn tool_named(tools: Seq<EntryView>, name: Seq<char>) -> Option<EntryView> {
    let i = tool_index(tools, name, 0);
    if 0 <= i < tools.len() {
        Some(tools[i])
    } else {
        None
    }
}

proof fn tool_index_first(tools: Seq<EntryView>, name: Seq<char>, from: int)
    requires
        0 <= from <= tools.len(),
    ensures
        from <= tool_index(tools, name, from) <= tools.len(),
        tool_index(tools, name, from) < tools.len() ==> tools[tool_index(tools, name, from)].name
            == name,
        forall|i: int|
            from <= i < tool_index(tools, name, from) ==> (#[trigger] tools[i]).name != name,
    decreases tools.len() - from,
{
    if from < tools.len() && tools[from].name != name {
        tool_index_first(tools, name, from + 1);
    }
}

proof fn with_tool_members(tools: Seq<EntryView>, tool: EntryView, i: int)
    requires
        0 <= i < with_tool(tools, tool).len(),
    ensures
        with_tool(tools, tool)[i] == tool || tools.contains(with_tool(tools, tool)[i]),
    decreases tools.len(),
{
    let r = with_tool(tools, tool);
    if tools.len() == 0 {
    } else if tools.last().name == tool.name {
        if i < r.len() - 1 {
            assert(tools[i] == r[i]);
        }
    } else if less(tools.last().name, tool.name) {
        if i < r.len() - 1 {
            assert(tools[i] == r[i]);
        }
    } else {
        let inner = with_tool(tools.drop_last(), tool);
        if i < inner.len() {
            with_tool_members(tools.drop_last(), tool, i);
            assert(r[i] == inner[i]);
            if inner[i] != tool {
                let k = choose|k: int|
                    0 <= k < tools.drop_last().len() && tools.drop_last()[k] == inner[i];
                assert(tools[k] == r[i]);
            }
        } else {
            assert(r[i] == tools[tools.len() - 1]);
        }
    }
}

/// A tool that was entered is found under its name, the others as before, and the
/// order of names is kept.
pub proof fn insert_law(tools: Seq<EntryView>, tool: EntryView, name: Seq<char>)
    requires
        by_name(tools),
    ensures
        by_name(with_tool(tools, tool)),
        tool_named(with_tool(tools, tool), name) == if name == tool.name {
            Some(tool)
        } else {
            tool_named(tools, name)
        },
    decreases tools.len(),
{
    let r = with_tool(tools, tool);
    tool_index_first(tools, name, 0);
    tool_index_first(r, name, 0);
    if tools.len() == 0 {
    } else {
        let rest = tools.drop_last();
        let last = tools.last();
        less_is_total(last.name, tool.name);
        assert(by_name(rest));
        if last.name == tool.name {
            assert forall|i: int, j: int| 0 <= i < j < r.len() implies less(
                (#[trigger] r[i]).name,
                (#[trigger] r[j]).name,
            ) by {
                assert(r[i].name == tools[i].name && r[j].name == tools[j].name);
            }
            lookup_agrees(tools, r, name);
        } else if less(last.name, tool.name) {
            assert forall|i: int, j: int| 0 <= i < j < r.len() implies less(
                (#[trigger] r[i]).name,
                (#[trigger] r[j]).name,
            ) by {
                if j == tools.len() {
                    if i < tools.len() - 1 {
                        assert(less(tools[i].name, tools[tools.len() - 1].name));
                        less_is_transitive(tools[i].name, last.name, tool.name);
                    }
                } else {
                    assert(r[i] == tools[i] && r[j] == tools[j]);
                }
            }
            lookup_unique(r, name);
            lookup_unique(tools, name);
            lookup_push(tools, tool, name);
        } else {
            insert_law(rest, tool, name);
            let inner = with_tool(rest, tool);
            assert forall|i: int, j: int| 0 <= i < j < r.len() implies less(
                (#[trigger] r[i]).name,
                (#[trigger] r[j]).name,
            ) by {
                if j == inner.len() {
                    with_tool_members(rest, tool, i);
                    if inner[i] != tool {
                        let k = choose|k: int| 0 <= k < rest.len() && rest[k] == inner[i];
                        assert(tools[k] == inner[i]);
                        assert(less(tools[k].name, tools[tools.len() - 1].name));
                    }
                } else {
                    assert(r[i] == inner[i] && r[j] == inner[j]);
                }
            }
            lookup_push(inner, last, name);
            lookup_push(rest, last, name);
            assert(rest.push(last) =~= tools);
        }
    }
}

proof fn lookup_unique(tools: Seq<EntryView>, name: Seq<char>)
    ensures
        tool_named(tools, name) matches Some(t) ==> t.name == name,
{
    tool_index_first(tools, name, 0);
}

proof fn lookup_push(tools: Seq<EntryView>, tool: EntryView, name: Seq<char>)
    requires
        by_name(tools.push(tool)),
    ensures
        tool_named(tools.push(tool), name) == if name == tool.name {
            Some(tool)
        } else {
            tool_named(tools, name)
        },
{
    let r = tools.push(tool);
    tool_index_first(tools, name, 0);
    tool_index_first(r, name, 0);
    let a = tool_index(tools, name, 0);
    let b = tool_index(r, name, 0);
    if a < tools.len() {
        assert(r[a] == tools[a]);
        assert(less(r[a].name, r[tools.len() as int].name));
        less_is_total(r[a].name, r[tools.len() as int].name);
        if b < a {
            assert(r[b] == tools[b]);
        }
    } else {
        if b < tools.len() {
            assert(r[b] == tools[b]);
        }
        assert(r[tools.len() as int] == tool);
    }
}

proof fn lookup_agrees(tools: Seq<EntryView>, r: Seq<EntryView>, name: Seq<char>)
    requires
        tools.len() > 0,
        r.len() == tools.len(),
        by_name(tools),
        forall|i: int| 0 <= i < tools.len() - 1 ==> r[i] == tools[i],
        r.last().name == tools.last().name,
    ensures
        tool_named(r, name) == if name == r.last().name {
            Some(r.last())
        } else {
            tool_named(tools, name)
        },
{
    tool_index_first(tools, name, 0);
    tool_index_first(r, name, 0);
    let a = tool_index(tools, name, 0);
    let b = tool_index(r, name, 0);
    let n = tools.len() - 1;
    if name == r.last().name {
        if b < n {
            assert(r[b] == tools[b]);
            assert(less(tools[b].name, tools[n].name));
            less_is_total(tools[b].name, tools[n].name);
        }
        assert(r[n].name == name);
    } else {
        if a < tools.len() {
            assert(a != n);
            assert(r[a] == tools[a]);
        }
        if b < r.len() {
            assert(b != n);
            assert(r[b] == tools[b]);
        }
    }
}

/// The tools that a model is told of.
pub open spec fn is_shown(vision: bool) -> spec_fn(EntryView) -> bool {
    |t: EntryView| vision || !t.vision_only
}

/// What a request tells the model of a tool.
pub open spec fn definition(tool: EntryView) -> DefinitionView {
    DefinitionView {
        kind: "function"@,
        function: FunctionView {
            name: tool.name,
            description: tool.description,
            parameters: tool.parameters,
        },
    }
}

impl ToolRegistry {
    pub open spec fn wf(&self) -> bool {
        by_name(self@)
    }

    pub fn new() -> (result: Self)
        ensures
            result@ == Seq::<EntryView>::empty(),
            result.wf(),
    {
        let tools: Vec<ToolEntry> = Vec::new();
        assert(tools.deep_view() =~= Seq::empty());
        ToolRegistry { tools }
    }

    /// Enters a tool, in the place of one with its name.
    pub fn insert(&mut self, tool: ToolEntry)
        requires
            old(self).wf(),
        ensures
            final(self).wf(),
            final(self)@ == with_tool(old(self)@, tool.deep_view()),
    {
        let ghost all = self@;
        let ghost view = tool.deep_view();
        proof {
            insert_law(all, view, Seq::empty());
        }
        let mut at: usize = self.tools.len();
        proof {
            assert(all.take(at as int) =~= all);
            assert(with_tool(all, view) =~= with_tool(all.take(at as int), view) + all.skip(
                at as int,
            ));
        }
        while at > 0 && !text::same(
            self.tools[at - 1].name.as_str(),
            tool.name.as_str(),
        ) && !text::is_less(self.tools[at - 1].name.as_str(), tool.name.as_str())
            invariant
                at <= self.tools@.len(),
                all == self@,
                view == tool.deep_view(),
                with_tool(all, view) == with_tool(all.take(at as int), view) + all.skip(at as int),
            decreases at,
        {
            proof {
                let s = all.take(at as int);
                assert(s.last() == self.tools@[at - 1].deep_view());
                assert(s.drop_last() =~= all.take(at - 1));
                assert(with_tool(s, view) + all.skip(at as int) =~= with_tool(
                    all.take(at - 1),
                    view,
                ) + all.skip(at - 1));
            }
            at -= 1;
        }
        proof {
            if at > 0 {
                assert(all.take(at as int).last() == self.tools@[at - 1].deep_view());
            }
        }
        if at > 0 && text::same(self.tools[at - 1].name.as_str(), tool.name.as_str()) {
            self.tools[at - 1] = tool;
            assert(self@ =~= all.take(at as int).drop_last().push(view) + all.skip(at as int));
        } else {
            self.tools.insert(at, tool);
            assert(self@ =~= all.take(at as int).push(view) + all.skip(at as int));
        }
        assert(self@ == with_tool(all, view));
    }

    /// The tool with `name`.
    pub fn get(&self, name: &str) -> (result: Result<&ToolEntry, String>)
        ensures
            match result {
                Ok(tool) => tool_named(self@, name@) == Some(tool.deep_view()),
                Err(error) => tool_named(self@, name@) is None && error@ == "unknown tool: "@
                    + name@,
            },
    {
        let ghost all = self@;
        let mut i: usize = 0;
        while i < self.tools.len()
            invariant
                all == self@,
                i <= self.tools@.len(),
                tool_index(all, name@, 0) == tool_index(all, name@, i as int),
            decreases self.tools@.len() - i,
        {
            assert(all[i as int] == self.tools@[i as int].deep_view());
            if text::same(self.tools[i].name.as_str(), name) {
                return Ok(&self.tools[i]);
            }
            i += 1;
        }
        Err(text::join_two("unknown tool: ", name))
    }

    /// What a request tells the model of the tools, in the order of their names.
    pub fn definitions(&self, vision: bool) -> (result: Vec<ToolDefinition>)
        ensures
            result.deep_view() == self@.filter(is_shown(vision)).map_values(
                |t: EntryView| definition(t),
            ),
    {
        let ghost all = self@;
        let ghost keep = is_shown(vision);
        let ghost told = |t: EntryView| definition(t);
        let mut result: Vec<ToolDefinition> = Vec::new();
        let mut i: usize = 0;
        proof {
            reveal(Seq::filter);
            assert(result.deep_view() =~= all.take(0).filter(keep).map_values(told));
        }
        while i < self.tools.len()
            invariant
                all == self@,
                keep == is_shown(vision),
                told == (|t: EntryView| definition(t)),
                i <= self.tools@.len(),
                result.deep_view() == all.take(i as int).filter(keep).map_values(told),
            decreases self.tools@.len() - i,
        {
            let ghost before = result.deep_view();
            let tool = &self.tools[i];
            proof {
                reveal(Seq::filter);
                assert(all.take(i + 1).drop_last() =~= all.take(i as int));
                assert(all.take(i + 1).last() == tool.deep_view());
            }
            if vision || !tool.vision_only {
                result.push(
                    ToolDefinition {
                        kind: "function",
                        function: FunctionDefinition {
                            name: tool.name.clone(),
                            description: tool.description.clone(),
                            parameters: tool.parameters.clone(),
                        },
                    },
                );
                assert(result.deep_view() =~= before.push(definition(tool.deep_view())));
            }
            assert(result.deep_view() =~= all.take(i + 1).filter(keep).map_values(told));
            i += 1;
        }
        assert(all.take(i as int) =~= all);
        result
    }
}

/// A tool that only some models are told of is told to those that see images.
pub proof fn definitions_law(tools: Seq<EntryView>, tool: EntryView, vision: bool)
    requires
        tools.contains(tool),
    ensures
        tools.filter(is_shown(vision)).contains(tool) <==> vision || !tool.vision_only,
{
    let keep = is_shown(vision);
    if keep(tool) {
        let i = choose|i: int| 0 <= i < tools.len() && tools[i] == tool;
        tools.lemma_filter_contains(keep, i);
    } else if tools.filter(keep).contains(tool) {
        let i = choose|i: int|
            0 <= i < tools.filter(keep).len() && tools.filter(keep)[i] == tool;
        tools.lemma_filter_pred(keep, i);
    }
}

} // verus!
