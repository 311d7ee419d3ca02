//! The state of the working directory that a session is about.
use crate::encoding::{lossy_text, utf8_lossy};
use crate::order;
use crate::text;
use crate::text::{index_of, join, less};
use vstd::prelude::*;
use vstd::string::*;

verus! {

/// The working directory, the files in context and what `git` says of it.
#[derive(Debug, PartialEq)]
pub struct ProjectState {
    pub cwd: String,
    pub context: Vec<String>,
    pub git_status: String,
    pub git_diff: String,
    /// The one file that `git_diff` is about, where it is about one.
    pub git_diff_path: Option<String>,
}

pub struct ProjectView {
    pub cwd: Seq<char>,
    pub context: Seq<Seq<char>>,
    pub git_status: Seq<char>,
    pub git_diff: Seq<char>,
    pub git_diff_path: Option<Seq<char>>,
}

impl DeepView for ProjectState {
    type V = ProjectView;

    open spec fn deep_view(&self) -> ProjectView {
        ProjectView {
            cwd: self.cwd@,
            context: self.context.deep_view(),
            git_status: self.git_status@,
            git_diff: self.git_diff@,
            git_diff_path: self.git_diff_path.deep_view(),
        }
    }
}

impl Clone for ProjectState {
    fn clone(&self) -> (result: Self)
        ensures
            result.deep_view() == self.deep_view(),
    {
        let context = self.context.clone();
        assert(context.deep_view() =~= self.context.deep_view());
        ProjectState {
            cwd: self.cwd.clone(),
            context,
            git_status: self.git_status.clone(),
            git_diff: self.git_diff.clone(),
            git_diff_path: self.git_diff_path.clone(),
        }
    }
}

/// A project of which nothing is known.
pub open spec fn empty_project() -> ProjectView {
    ProjectView {
        cwd: Seq::empty(),
        context: Seq::empty(),
        git_status: Seq::empty(),
        git_diff: Seq::empty(),
        git_diff_path: None,
    }
}

impl Default for ProjectState {
    fn default() -> (result: Self)
        ensures
            result.deep_view() == empty_project(),
    {
        let context: Vec<String> = Vec::new();
        assert(context.deep_view() =~= Seq::empty());
        ProjectState {
            cwd: String::new(),
            context,
            git_status: String::new(),
            git_diff: String::new(),
            git_diff_path: None,
        }
    }
}

// ---------------------------------------------------------------------------
// Paths
// ---------------------------------------------------------------------------

/// The parts of an absolute path from index `from` on: what stands between its
/// slashes, without the places where that is nothing or a dot.
pub open spec fn parts_from(path: Seq<char>, from: int) -> Seq<Seq<char>>
    decreases path.len() + 1 - from,
{
    if from < 0 || from > path.len() {
        Seq::empty()
    } else {
        let end = index_of(path, '/', from);
        if end < from || end > path.len() {
            Seq::empty()
        } else {
            let part = path.subrange(from, end);
            let rest = parts_from(path, end + 1);
            if part.len() == 0 || part == "."@ {
                rest
            } else {
                seq![part] + rest
            }
        }
    }
}

/// The parts of an absolute path. Two paths with the same parts are the same path.
pub open spec fn parts(path: Seq<char>) -> Seq<Seq<char>> {
    parts_from(path, 0)
}

/// Whether a part of a path comes before another: the way up comes first.
pub open spec fn part_less(a: Seq<char>, b: Seq<char>) -> bool {
    if a == ".."@ {
        b != ".."@
    } else {
        b != ".."@ && less(a, b)
    }
}

/// Whether parts come before others: by the first part in which they differ.
pub open spec fn parts_less(a: Seq<Seq<char>>, b: Seq<Seq<char>>) -> bool
    decreases a.len(),
{
    if b.len() == 0 {
        false
    } else if a.len() == 0 {
        true
    } else if a[0] == b[0] {
        parts_less(a.skip(1), b.skip(1))
    } else {
        part_less(a[0], b[0])
    }
}

/// The order of paths.
pub open spec fn path_order() -> spec_fn(Seq<char>, Seq<char>) -> bool {
    |a: Seq<char>, b: Seq<char>| parts_less(parts(a), parts(b))
}

/// The path of `name` in `directory`.
pub open spec fn path_in(directory: Seq<char>, name: Seq<char>) -> Seq<char> {
    if directory.len() == 0 || directory.last() == '/' {
        directory + name
    } else {
        directory + "/"@ + name
    }
}

/// The path of `name` in `directory`.
pub fn join_path(directory: &str, name: &str) -> (path: String)
    ensures
        path@ == path_in(directory@, name@),
{
    let chars = text::to_chars(directory);
    if chars.len() == 0 || chars[chars.len() - 1] == '/' {
        text::join_two(directory, name)
    } else {
        text::join_three(directory, "/", name)
    }
}

/// The path that `value` stands for in the directory `cwd`. `rooted` says whether the
/// machine takes `value` for an absolute path; such a path stands for itself.
pub fn absolute(cwd: &str, value: &str, rooted: bool) -> (path: String)
    ensures
        path@ == if rooted {
            value@
        } else {
            path_in(cwd@, value@)
        },
{
    if rooted {
        value.to_owned()
    } else {
        join_path(cwd, value)
    }
}

/// The parts of an absolute path.
pub fn path_parts(path: &str) -> (result: Vec<String>)
    ensures
        result.deep_view() == parts(path@),
{
    let chars = text::to_chars(path);
    let mut result: Vec<String> = Vec::new();
    let mut from: usize = 0;
    let mut more = true;
    assert(result.deep_view() + parts_from(path@, 0) =~= parts(path@));
    while more
        invariant
            chars@ == path@,
            from <= chars@.len(),
            more ==> result.deep_view() + parts_from(path@, from as int) == parts(path@),
            !more ==> result.deep_view() == parts(path@),
        decreases chars@.len() - from, more as int,
    {
        let ghost before = result.deep_view();
        let end: usize = text::next_index(&chars, '/', from);
        let part = text::from_chars(&chars, from, end);
        assert(part@ == path@.subrange(from as int, end as int));
        let kept = !part.as_str().is_empty() && !text::same(part.as_str(), ".");
        if kept {
            result.push(part);
            assert(result.deep_view() =~= before.push(part@));
        }
        proof {
            let rest = parts_from(path@, end + 1);
            assert(before.push(part@) + rest =~= before + (seq![part@] + rest));
        }
        if end < chars.len() {
            from = end + 1;
        } else {
            proof {
                assert(parts_from(path@, end + 1) =~= Seq::empty());
                assert(result.deep_view() + Seq::<Seq<char>>::empty() =~= result.deep_view());
            }
            more = false;
        }
    }
    result
}

fn part_before(a: &str, b: &str) -> (result: bool)
    ensures
        result == part_less(a@, b@),
{
    if text::same(a, "..") {
        !text::same(b, "..")
    } else {
        !text::same(b, "..") && text::is_less(a, b)
    }
}

fn path_before(a: &String, b: &String) -> (result: bool)
    ensures
        result == parts_less(parts(a@), parts(b@)),
{
    let left = path_parts(a.as_str());
    let right = path_parts(b.as_str());
    let ghost l = left.deep_view();
    let ghost r = right.deep_view();
    let mut i: usize = 0;
    assert(l.skip(0) =~= l && r.skip(0) =~= r);
    while i < left.len() && i < right.len()
        invariant
            l == left.deep_view(),
            r == right.deep_view(),
            i <= left@.len(),
            i <= right@.len(),
            l == parts(a@),
            r == parts(b@),
            parts_less(l, r) == parts_less(l.skip(i as int), r.skip(i as int)),
        decreases left@.len() - i,
    {
        proof {
            assert(l.skip(i as int)[0] == left@[i as int]@);
            assert(r.skip(i as int)[0] == right@[i as int]@);
            assert(l.skip(i as int).skip(1) =~= l.skip(i + 1));
            assert(r.skip(i as int).skip(1) =~= r.skip(i + 1));
        }
        if !text::same(left[i].as_str(), right[i].as_str()) {
            return part_before(left[i].as_str(), right[i].as_str());
        }
        i += 1;
    }
    i < right.len()
}

/// Whether two absolute paths are the same.
pub fn same_path(a: &str, b: &str) -> (result: bool)
    ensures
        result == (parts(a@) == parts(b@)),
{
    let left = path_parts(a);
    let right = path_parts(b);
    let ghost l = left.deep_view();
    let ghost r = right.deep_view();
    if left.len() != right.len() {
        assert(l.len() != r.len());
        return false;
    }
    let mut i: usize = 0;
    while i < left.len()
        invariant
            l == left.deep_view(),
            r == right.deep_view(),
            left@.len() == right@.len(),
            i <= left@.len(),
            forall|k: int| 0 <= k < i ==> l[k] == r[k],
            l == parts(a@),
            r == parts(b@),
        decreases left@.len() - i,
    {
        assert(l[i as int] == left@[i as int]@ && r[i as int] == right@[i as int]@);
        if !text::same(left[i].as_str(), right[i].as_str()) {
            return false;
        }
        i += 1;
    }
    assert(l =~= r);
    true
}

// ---------------------------------------------------------------------------
// Files in context
// ---------------------------------------------------------------------------

/// Whether a path is among others.
pub open spec fn has_path(paths: Seq<Seq<char>>, path: Seq<char>) -> bool {
    exists|i: int| 0 <= i < paths.len() && parts(#[trigger] paths[i]) == parts(path)
}

/// The paths that are not a given one.
pub open spec fn without_path(paths: Seq<Seq<char>>, path: Seq<char>) -> Seq<Seq<char>>
    decreases paths.len(),
{
    if paths.len() == 0 {
        paths
    } else if parts(paths.last()) == parts(path) {
        without_path(paths.drop_last(), path)
    } else {
        without_path(paths.drop_last(), path).push(paths.last())
    }
}

/// The files in context with one more.
pub open spec fn with_path(paths: Seq<Seq<char>>, path: Seq<char>) -> Seq<Seq<char>> {
    if has_path(paths, path) {
        paths
    } else {
        order::sorted(paths.push(path), path_order())
    }
}

proof fn without_absent(paths: Seq<Seq<char>>, path: Seq<char>)
    ensures
        without_path(paths, path).len() <= paths.len(),
        has_path(paths, path) <==> without_path(paths, path).len() < paths.len(),
        !has_path(paths, path) ==> without_path(paths, path) == paths,
    decreases paths.len(),
{
    if paths.len() > 0 {
        let rest = paths.drop_last();
        without_absent(rest, path);
        assert(paths =~= rest.push(paths.last()));
        if has_path(rest, path) {
            let i = choose|i: int| 0 <= i < rest.len() && parts(#[trigger] rest[i]) == parts(path);
            assert(parts(paths[i]) == parts(path));
        }
        if has_path(paths, path) && !has_path(rest, path) {
            let i = choose|i: int|
                0 <= i < paths.len() && parts(#[trigger] paths[i]) == parts(path);
            if i < rest.len() {
                assert(parts(rest[i]) == parts(path));
            }
        }
        if parts(paths.last()) == parts(path) {
            assert(parts(paths[paths.len() - 1]) == parts(path));
        }
    }
}

impl ProjectState {
    fn has(&self, path: &str) -> (result: bool)
        ensures
            result == has_path(self.deep_view().context, path@),
    {
        let ghost all = self.context.deep_view();
        let mut i: usize = 0;
        while i < self.context.len()
            invariant
                all == self.context.deep_view(),
                i <= self.context@.len(),
                forall|k: int| 0 <= k < i ==> parts(#[trigger] all[k]) != parts(path@),
            decreases self.context@.len() - i,
        {
            assert(all[i as int] == self.context@[i as int]@);
            if same_path(self.context[i].as_str(), path) {
                return true;
            }
            i += 1;
        }
        false
    }

    /// Takes the file at an absolute path into context.
    pub fn add(&mut self, path: String, is_file: bool) -> (result: Result<(), String>)
        ensures
            match result {
                Ok(_) => {
                    &&& is_file
                    &&& final(self).deep_view() == (ProjectView {
                        context: with_path(old(self).deep_view().context, path@),
                        ..old(self).deep_view()
                    })
                },
                Err(error) => {
                    &&& !is_file
                    &&& error@ == "context file not found: "@ + path@
                    &&& *final(self) == *old(self)
                },
            },
    {
        if !is_file {
            return Err(text::join_two("context file not found: ", path.as_str()));
        }
        if !self.has(path.as_str()) {
            let ghost before = self.context.deep_view();
            let mut paths: Vec<String> = Vec::new();
            std::mem::swap(&mut paths, &mut self.context);
            paths.push(path);
            assert(paths.deep_view() =~= before.push(path@));
            self.context = order::stable_sort(paths, path_before, Ghost(path_order()));
        }
        Ok(())
    }

    /// Takes the file at an absolute path, which the user wrote as `value`, out of
    /// context.
    pub fn drop(&mut self, path: &str, value: &str) -> (result: Result<(), String>)
        ensures
            final(self).deep_view() == (ProjectView {
                context: without_path(old(self).deep_view().context, path@),
                ..old(self).deep_view()
            }),
            match result {
                Ok(_) => has_path(old(self).deep_view().context, path@),
                Err(error) => {
                    &&& !has_path(old(self).deep_view().context, path@)
                    &&& final(self).deep_view() == old(self).deep_view()
                    &&& error@ == "file is not in context: "@ + value@
                },
            },
    {
        let ghost all = self.context.deep_view();
        proof {
            without_absent(all, path@);
        }
        let mut kept: Vec<String> = Vec::new();
        let mut i: usize = 0;
        assert(kept.deep_view() =~= without_path(all.take(0), path@));
        while i < self.context.len()
            invariant
                all == self.context.deep_view(),
                i <= self.context@.len(),
                kept.deep_view() == without_path(all.take(i as int), path@),
            decreases self.context@.len() - i,
        {
            let ghost before = kept.deep_view();
            proof {
                assert(all.take(i + 1).drop_last() =~= all.take(i as int));
                assert(all.take(i + 1).last() == self.context@[i as int]@);
            }
            if !same_path(self.context[i].as_str(), path) {
                kept.push(self.context[i].clone());
                assert(kept.deep_view() =~= before.push(self.context@[i as int]@));
            }
            i += 1;
        }
        assert(all.take(i as int) =~= all);
        assert(kept.deep_view().len() == kept@.len() && all.len() == self.context@.len());
        let lost = kept.len() != self.context.len();
        self.context = kept;
        if lost {
            Ok(())
        } else {
            Err(text::join_two("file is not in context: ", value))
        }
    }
}

proof fn part_order(a: Seq<char>, b: Seq<char>, c: Seq<char>)
    ensures
        part_less(a, b) ==> !part_less(b, a) && a != b,
        part_less(a, c) ==> part_less(a, b) || part_less(b, c),
        a != b ==> part_less(a, b) || part_less(b, a),
{
    text::less_is_total(a, b);
    text::less_is_total(b, c);
    text::less_is_total(a, c);
    if less(b, a) && less(a, c) {
        text::less_is_transitive(b, a, c);
    }
    if less(c, b) && less(a, c) {
        text::less_is_transitive(a, c, b);
    }
}

proof fn parts_order(a: Seq<Seq<char>>, b: Seq<Seq<char>>, c: Seq<Seq<char>>)
    ensures
        parts_less(a, b) ==> !parts_less(b, a),
        parts_less(a, c) ==> parts_less(a, b) || parts_less(b, c),
    decreases a.len(),
{
    if a.len() > 0 && b.len() > 0 {
        part_order(a[0], b[0], b[0]);
        if c.len() > 0 {
            part_order(a[0], b[0], c[0]);
            part_order(b[0], c[0], c[0]);
        }
        if a[0] == b[0] && c.len() > 0 {
            parts_order(a.skip(1), b.skip(1), c.skip(1));
        } else if a[0] == b[0] {
            parts_order(a.skip(1), b.skip(1), b.skip(1));
        }
    }
}

proof fn path_order_is_order()
    ensures
        order::is_order(path_order()),
{
    let before = path_order();
    assert forall|a: Seq<char>, b: Seq<char>| #[trigger] before(a, b) implies !before(b, a) by {
        parts_order(parts(a), parts(b), parts(b));
    }
    assert forall|a: Seq<char>, b: Seq<char>, c: Seq<char>| #[trigger]
        before(a, c) implies before(a, b) || #[trigger] before(b, c) by {
        parts_order(parts(a), parts(b), parts(c));
    }
}

proof fn without_items(paths: Seq<Seq<char>>, path: Seq<char>, q: Seq<char>)
    ensures
        without_path(paths, path).contains(q) <==> paths.contains(q) && parts(q) != parts(path),
    decreases paths.len(),
{
    if paths.len() > 0 {
        let rest = paths.drop_last();
        without_items(rest, path, q);
        assert(paths =~= rest.push(paths.last()));
        pushed_items(rest, paths.last(), q);
        pushed_items(without_path(rest, path), paths.last(), q);
    }
}

proof fn pushed_items(paths: Seq<Seq<char>>, path: Seq<char>, q: Seq<char>)
    ensures
        paths.push(path).contains(q) <==> paths.contains(q) || q == path,
{
    let more = paths.push(path);
    assert(more[paths.len() as int] == path);
    if paths.contains(q) {
        let i = choose|i: int| 0 <= i < paths.len() && paths[i] == q;
        assert(more[i] == q);
    }
    if more.contains(q) && q != path {
        let i = choose|i: int| 0 <= i < more.len() && more[i] == q;
        assert(paths[i] == q);
    }
}

/// What is taken into context is then in context, and what is taken out is not. What
/// was not in context and is taken in and out leaves the files that were there. Files
/// that are in order stay in order.
pub proof fn context_law(paths: Seq<Seq<char>>, path: Seq<char>)
    ensures
        has_path(with_path(paths, path), path),
        !has_path(without_path(paths, path), path),
        !has_path(paths, path) ==> forall|q: Seq<char>|
            without_path(with_path(paths, path), path).contains(q) <==> paths.contains(q),
        order::in_order(paths, path_order()) ==> order::in_order(
            with_path(paths, path),
            path_order(),
        ),
{
    broadcast use vstd::seq_lib::group_to_multiset_ensures;

    path_order_is_order();
    let more = with_path(paths, path);
    order::sorted_law(paths.push(path), path_order());
    let kept = without_path(paths, path);
    if has_path(kept, path) {
        let i = choose|i: int| 0 <= i < kept.len() && parts(#[trigger] kept[i]) == parts(path);
        without_items(paths, path, kept[i]);
        assert(kept.contains(kept[i]));
    }
    if !has_path(paths, path) {
        assert forall|q: Seq<char>| more.contains(q) <==> paths.contains(q) || q == path by {
            pushed_items(paths, path, q);
            assert(more.to_multiset().contains(q) == paths.push(path).to_multiset().contains(q));
        }
        assert(more.contains(path));
        let i = choose|i: int| 0 <= i < more.len() && more[i] == path;
        assert(parts(more[i]) == parts(path));
        assert forall|q: Seq<char>|
            without_path(more, path).contains(q) <==> paths.contains(q) by {
            without_items(more, path, q);
            if paths.contains(q) {
                let k = choose|k: int| 0 <= k < paths.len() && paths[k] == q;
                assert(parts(paths[k]) != parts(path));
            }
        }
    }
}

// ---------------------------------------------------------------------------
// Instructions
// ---------------------------------------------------------------------------

/// A file in context: its path as it is shown, and what is in it.
#[derive(Debug, PartialEq)]
pub struct ContextFile {
    pub name: String,
    pub content: String,
}

pub struct ContextFileView {
    pub name: Seq<char>,
    pub content: Seq<char>,
}

impl DeepView for ContextFile {
    type V = ContextFileView;

    open spec fn deep_view(&self) -> ContextFileView {
        ContextFileView { name: self.name@, content: self.content@ }
    }
}

pub open spec fn global_section(content: Seq<char>) -> Seq<char> {
    "Global instructions (~/.config/rope/AGENTS.md):\n"@ + content
}

pub open spec fn local_section(content: Seq<char>) -> Seq<char> {
    "Project instructions (AGENTS.md):\n"@ + content
}

pub open spec fn cwd_section(cwd: Seq<char>) -> Seq<char> {
    "Current working directory: "@ + cwd + "\nExplicit context files:"@
}

pub open spec fn file_section(file: ContextFileView) -> Seq<char> {
    "--- "@ + file.name + " ---\n"@ + file.content
}

/// A section where there is a text for it.
pub open spec fn optional(section: Option<Seq<char>>) -> Seq<Seq<char>> {
    match section {
        Some(section) => seq![section],
        None => Seq::empty(),
    }
}

/// The sections of the prompt of a project.
pub open spec fn sections(
    cwd: Seq<char>,
    global: Option<Seq<char>>,
    local: Option<Seq<char>>,
    files: Seq<ContextFileView>,
) -> Seq<Seq<char>> {
    optional(
        match global {
            Some(content) => Some(global_section(content)),
            None => None,
        },
    ) + optional(
        match local {
            Some(content) => Some(local_section(content)),
            None => None,
        },
    ) + optional(
        if files.len() > 0 {
            Some(cwd_section(cwd))
        } else {
            None
        },
    ) + Seq::new(files.len(), |i: int| file_section(files[i]))
}

impl ProjectState {
    /// The prompt of the project: the instructions there are, and the files in context,
    /// which were read in their order. Nothing where there is none of these.
    pub fn prompt(&self, global: Option<&str>, local: Option<&str>, files: &Vec<ContextFile>) -> (
        result: Option<String>)
        requires
            files@.len() == self.context@.len(),
        ensures
            ({
                let said = sections(
                    self.cwd@,
                    global.deep_view(),
                    local.deep_view(),
                    files.deep_view(),
                );
                match result {
                    Some(prompt) => said.len() > 0 && prompt@ == join(said, "\n\n"@),
                    None => said.len() == 0,
                }
            }),
    {
        let ghost shown = files.deep_view();
        let mut said: Vec<String> = Vec::new();
        let ghost mut made: Seq<Seq<char>> = Seq::empty();
        assert(said.deep_view() =~= made);
        if let Some(content) = global {
            said.push(
                text::join_two("Global instructions (~/.config/rope/AGENTS.md):\n", content),
            );
            proof {
                made = made + optional(Some(global_section(content@)));
            }
            assert(said.deep_view() =~= made);
        }
        if let Some(content) = local {
            said.push(text::join_two("Project instructions (AGENTS.md):\n", content));
            proof {
                made = made + optional(Some(local_section(content@)));
            }
            assert(said.deep_view() =~= made);
        }
        if self.context.len() > 0 {
            said.push(
                text::join_three(
                    "Current working directory: ",
                    self.cwd.as_str(),
                    "\nExplicit context files:",
                ),
            );
            proof {
                made = made + optional(Some(cwd_section(self.cwd@)));
            }
            assert(said.deep_view() =~= made);
        }
        let mut i: usize = 0;
        assert(said.deep_view() =~= made + Seq::new(0, |k: int| file_section(shown[k])));
        while i < files.len()
            invariant
                shown == files.deep_view(),
                i <= files@.len(),
                said.deep_view() == made + Seq::new(i as nat, |k: int| file_section(shown[k])),
            decreases files@.len() - i,
        {
            let ghost before = said.deep_view();
            let head = text::join_three("--- ", files[i].name.as_str(), " ---\n");
            said.push(text::join_two(head.as_str(), files[i].content.as_str()));
            assert(shown[i as int] == files@[i as int].deep_view());
            assert(said.deep_view() =~= before.push(file_section(shown[i as int])));
            assert(said.deep_view() =~= made + Seq::new(
                (i + 1) as nat,
                |k: int| file_section(shown[k]),
            ));
            i += 1;
        }
        assert(said.deep_view() =~= sections(
            self.cwd@,
            global.deep_view(),
            local.deep_view(),
            shown,
        ));
        if said.len() == 0 {
            None
        } else {
            Some(text::join_all(&said, "\n\n"))
        }
    }
}

/// What a run of `git` says: its output, or nothing where it did not succeed.
pub fn git_output(success: bool, stdout: &Vec<u8>) -> (result: Result<String, String>)
    ensures
        match result {
            Ok(said) => success && said@ == lossy_text(stdout@),
            Err(error) => !success && error@ == "not a git repository"@,
        },
{
    if !success {
        return Err("not a git repository".to_owned());
    }
    Ok(utf8_lossy(stdout.as_slice()))
}

// ---------------------------------------------------------------------------
// Updates
// ---------------------------------------------------------------------------

/// A project as those who watch it are told of it, under a number that grows.
#[derive(Debug, PartialEq)]
pub struct ProjectUpdate {
    pub seq: u64,
    pub project: ProjectState,
}

pub struct ProjectUpdateView {
    pub seq: u64,
    pub project: ProjectView,
}

impl DeepView for ProjectUpdate {
    type V = ProjectUpdateView;

    open spec fn deep_view(&self) -> ProjectUpdateView {
        ProjectUpdateView { seq: self.seq, project: self.project.deep_view() }
    }
}

impl ProjectUpdate {
    /// The first update.
    pub fn new(project: ProjectState) -> (update: ProjectUpdate)
        ensures
            update.deep_view() == (ProjectUpdateView { seq: 0, project: project.deep_view() }),
    {
        ProjectUpdate { seq: 0, project }
    }

    /// The update behind a run of `git`: what it says of the status is told, and no
    /// difference.
    pub fn refreshed(&self, git_status: String) -> (update: ProjectUpdate)
        requires
            self.seq < u64::MAX,
        ensures
            update.deep_view() == (ProjectUpdateView {
                seq: (self.seq + 1) as u64,
                project: ProjectView {
                    git_status: git_status@,
                    git_diff: Seq::empty(),
                    git_diff_path: None,
                    ..self.project.deep_view()
                },
            }),
    {
        let mut project = self.project.clone();
        project.git_status = git_status;
        project.git_diff = String::new();
        project.git_diff_path = None;
        ProjectUpdate { seq: self.seq + 1, project }
    }
}

} // verus!
