//! The headings of an Org file, with the lines of their subtrees.
use super::ToolResult;
use crate::json;
use crate::json::{written, Json, JsonView};
use crate::text;
use crate::text::{digits, index_of, is_space, lower, strip_return, trim, words};
use vstd::prelude::*;
use vstd::string::*;

verus! {

/// One heading: its level, its text, and the first and the last line of its subtree,
/// counted from one.
#[derive(Debug, PartialEq, Eq)]
pub struct OrgNode {
    pub level: usize,
    pub title: String,
    pub start_line: usize,
    pub end_line: usize,
}

pub struct NodeView {
    pub level: usize,
    pub title: Seq<char>,
    pub start_line: usize,
    pub end_line: usize,
}

impl DeepView for OrgNode {
    type V = NodeView;

    open spec fn deep_view(&self) -> NodeView {
        NodeView {
            level: self.level,
            title: self.title@,
            start_line: self.start_line,
            end_line: self.end_line,
        }
    }
}

/// The headings of a file, in the order in which they stand.
#[derive(Debug, PartialEq, Eq)]
pub struct OrgOutline {
    pub line_count: usize,
    pub nodes: Vec<OrgNode>,
}

// ---------------------------------------------------------------------------
// Lines
// ---------------------------------------------------------------------------

/// The parts of `s` from `from` on between the line feeds.
pub open spec fn rows_from(s: Seq<char>, from: int) -> Seq<Seq<char>>
    decreases s.len() + 1 - from,
{
    if from < 0 || from > s.len() {
        Seq::empty()
    } else {
        let end = index_of(s, '\n', from);
        if end < from || end >= s.len() {
            seq![s.skip(from)]
        } else {
            seq![s.subrange(from, end)] + rows_from(s, end + 1)
        }
    }
}

/// The text without a line feed at its end.
pub open spec fn body_of(content: Seq<char>) -> Seq<char> {
    if content.len() > 0 && content.last() == '\n' {
        content.drop_last()
    } else {
        content
    }
}

/// The lines of a file: a line feed at the end opens no further line.
pub open spec fn rows(content: Seq<char>) -> Seq<Seq<char>> {
    rows_from(body_of(content), 0)
}

/// The word behind a marker, in any case, at the beginning of a line.
pub open spec fn keyword(line: Seq<char>, marker: Seq<char>) -> Option<Seq<char>> {
    if line.len() >= marker.len() && lower(line.take(marker.len() as int)) == lower(
        marker,
    ) {
        let rest = words(line.skip(marker.len() as int));
        if rest.len() > 0 {
            Some(rest[0])
        } else {
            None
        }
    } else {
        None
    }
}

/// The number of stars that a line begins with.
pub open spec fn stars(line: Seq<char>) -> nat
    decreases line.len(),
{
    if line.len() > 0 && line[0] == '*' {
        1 + stars(line.skip(1))
    } else {
        0
    }
}

/// The level and the text of a heading: stars at the beginning of the line, white
/// space, and anything.
pub open spec fn heading_of(line: Seq<char>) -> Option<(nat, Seq<char>)> {
    let level = stars(line);
    let rest = line.skip(level as int);
    if level > 0 && rest.len() > 0 && is_space(rest[0]) {
        Some((level, trim(rest)))
    } else {
        None
    }
}

/// A heading, before its subtree is known.
pub struct Head {
    pub level: nat,
    pub title: Seq<char>,
    pub line: int,
}

/// The blocks that are open behind a line: a marker of a beginning opens one, one of
/// an end closes the innermost where that is of its kind.
pub open spec fn open_blocks(blocks: Seq<Seq<char>>, line: Seq<char>) -> Seq<Seq<char>> {
    match keyword(line, "#+begin_"@) {
        Some(kind) => blocks.push(kind),
        None => match keyword(line, "#+end_"@) {
            Some(kind) => if blocks.len() > 0 && lower(blocks.last()) == lower(kind) {
                blocks.drop_last()
            } else {
                blocks
            },
            None => blocks,
        },
    }
}

/// Whether a line begins or ends a block.
pub open spec fn is_marker(line: Seq<char>) -> bool {
    keyword(line, "#+begin_"@) is Some || keyword(line, "#+end_"@) is Some
}

/// The headings of the lines from `i` on that stand outside blocks.
pub open spec fn heads_from(all: Seq<Seq<char>>, i: int, blocks: Seq<Seq<char>>) -> Seq<Head>
    decreases all.len() - i,
{
    if i < 0 || i >= all.len() {
        Seq::empty()
    } else {
        let line = strip_return(all[i]);
        let rest = heads_from(all, i + 1, open_blocks(blocks, line));
        match heading_of(line) {
            Some((level, title)) if blocks.len() == 0 && !is_marker(line) => seq![
                Head { level, title, line: i + 1 },
            ] + rest,
            _ => rest,
        }
    }
}

/// The last line of the subtree of the heading at `i`: the one before the first
/// heading from `j` on that is not deeper, or the last of the file.
pub open spec fn end_from(heads: Seq<Head>, i: int, j: int, line_count: int) -> int
    decreases heads.len() - j,
{
    if j < 0 || j >= heads.len() {
        line_count
    } else if heads[j].level <= heads[i].level {
        heads[j].line - 1
    } else {
        end_from(heads, i, j + 1, line_count)
    }
}

/// A heading with its subtree.
pub open spec fn node_of(heads: Seq<Head>, i: int, line_count: int) -> NodeView {
    NodeView {
        level: heads[i].level as usize,
        title: heads[i].title,
        start_line: heads[i].line as usize,
        end_line: end_from(heads, i, i + 1, line_count) as usize,
    }
}

/// The headings of a file.
pub open spec fn heads(content: Seq<char>) -> Seq<Head> {
    heads_from(rows(content), 0, Seq::empty())
}

/// The headings of a file with their subtrees.
pub open spec fn nodes_of(content: Seq<char>) -> Seq<NodeView> {
    let all = heads(content);
    let count = rows(content).len() as int;
    Seq::new(all.len(), |i: int| node_of(all, i, count))
}

fn split_rows(content: &str) -> (result: Vec<String>)
    requires
        content@.len() > 0,
    ensures
        result.deep_view() == rows(content@),
{
    let chars = text::to_chars(content);
    let size: usize = if chars[chars.len() - 1] == '\n' {
        chars.len() - 1
    } else {
        chars.len()
    };
    let body = text::to_chars(text::from_chars(&chars, 0, size).as_str());
    let ghost all = body_of(content@);
    proof {
        assert(content@.subrange(0, size as int) =~= all);
    }
    let mut result: Vec<String> = Vec::new();
    let mut from: usize = 0;
    let mut going = true;
    assert(result.deep_view() + rows_from(all, 0) =~= rows_from(all, 0));
    while going
        invariant
            body@ == all,
            from <= all.len(),
            going ==> result.deep_view() + rows_from(all, from as int) == rows_from(all, 0),
            !going ==> result.deep_view() == rows_from(all, 0),
        decreases all.len() + 1 - from, going as int,
    {
        let end: usize = text::next_index(&body, '\n', from);
        let ghost before = result.deep_view();
        let row = text::from_chars(&body, from, end);
        let ghost view = row@;
        result.push(row);
        assert(result.deep_view() =~= before.push(view));
        if end >= body.len() {
            going = false;
            proof {
                assert(view =~= all.skip(from as int));
                assert(before + seq![view] =~= before.push(view));
            }
        } else {
            proof {
                let rest = rows_from(all, end + 1);
                assert(before + (seq![view] + rest) =~= before.push(view) + rest);
            }
            from = end + 1;
        }
    }
    result
}

/// The word behind a marker at the beginning of a line.
pub fn block_keyword(line: &str, marker: &str) -> (result: Option<String>)
    ensures
        result.deep_view() == keyword(line@, marker@),
{
    let chars = text::to_chars(line);
    let size: usize = text::to_chars(marker).len();
    if chars.len() < size {
        return None;
    }
    let start = text::from_chars(&chars, 0, size);
    assert(line@.subrange(0, size as int) =~= line@.take(size as int));
    let lowered = text::to_lower(start.as_str());
    let wanted = text::to_lower(marker);
    if !text::same(lowered.as_str(), wanted.as_str()) {
        return None;
    }
    let rest = text::from_chars(&chars, size, chars.len());
    assert(line@.subrange(size as int, line@.len() as int) =~= line@.skip(size as int));
    let found = text::split_words(rest.as_str());
    if found.len() > 0 {
        assert(found.deep_view()[0] == found@[0]@);
        Some(found[0].clone())
    } else {
        None
    }
}

/// The level and the text of a heading.
pub fn heading(line: &str) -> (result: Option<(usize, String)>)
    ensures
        match result {
            Some(found) => heading_of(line@) == Some((found.0 as nat, found.1@)),
            None => heading_of(line@) is None,
        },
{
    let chars = text::to_chars(line);
    let mut level: usize = 0;
    assert(chars@.skip(0) =~= chars@);
    while level < chars.len() && chars[level] == '*'
        invariant
            chars@ == line@,
            level <= chars@.len(),
            stars(line@) == level + stars(chars@.skip(level as int)),
        decreases chars@.len() - level,
    {
        assert(chars@.skip(level as int).skip(1) =~= chars@.skip(level + 1));
        level += 1;
    }
    if level == 0 || level >= chars.len() || !text::is_white_space(chars[level]) {
        return None;
    }
    let rest = text::from_chars(&chars, level, chars.len());
    assert(line@.subrange(level as int, line@.len() as int) =~= line@.skip(level as int));
    Some((level, text::trimmed(rest.as_str())))
}

/// The heads behind a list of nodes whose subtrees are not known yet.
spec fn heads_match(nodes: Seq<OrgNode>, all: Seq<Head>) -> bool {
    &&& nodes.len() == all.len()
    &&& forall|k: int|
        0 <= k < nodes.len() ==> (#[trigger] nodes[k]).level == all[k].level && nodes[k].title@
            == all[k].title && nodes[k].start_line == all[k].line
}

fn find_heads(all: &Vec<String>) -> (nodes: Vec<OrgNode>)
    ensures
        heads_match(nodes@, heads_from(all.deep_view(), 0, Seq::empty())),
{
    let ghost view = all.deep_view();
    let ghost goal = heads_from(view, 0, Seq::empty());
    let mut nodes: Vec<OrgNode> = Vec::new();
    let mut blocks: Vec<String> = Vec::new();
    let ghost mut done: Seq<Head> = Seq::empty();
    let mut i: usize = 0;
    proof {
        assert(blocks.deep_view() =~= Seq::empty());
        assert(done + heads_from(view, 0, blocks.deep_view()) =~= goal);
    }
    while i < all.len()
        invariant
            view == all.deep_view(),
            i <= all@.len(),
            heads_match(nodes@, done),
            done + heads_from(view, i as int, blocks.deep_view()) == goal,
        decreases all@.len() - i,
    {
        let ghost open_now = blocks.deep_view();
        let ghost line_view = strip_return(view[i as int]);
        assert(view[i as int] == all@[i as int]@);
        let chars = text::to_chars(all[i].as_str());
        let size: usize = if chars.len() > 0 && chars[chars.len() - 1] == '\r' {
            chars.len() - 1
        } else {
            chars.len()
        };
        let line = text::from_chars(&chars, 0, size);
        assert(line@ =~= line_view);
        let ghost rest = heads_from(view, i + 1, open_blocks(open_now, line_view));
        match block_keyword(line.as_str(), "#+begin_") {
            Some(kind) => {
                let ghost k = kind@;
                blocks.push(kind);
                assert(blocks.deep_view() =~= open_now.push(k));
            },
            None => match block_keyword(line.as_str(), "#+end_") {
                Some(kind) => {
                    if blocks.len() > 0 {
                        let last = text::to_lower(blocks[blocks.len() - 1].as_str());
                        let this = text::to_lower(kind.as_str());
                        assert(open_now.last() == blocks@[blocks@.len() - 1]@);
                        if text::same(last.as_str(), this.as_str()) {
                            let closed = blocks.pop();
                            assert(blocks.deep_view() =~= open_now.drop_last());
                        }
                    }
                },
                None => {
                    if blocks.len() == 0 {
                        match heading(line.as_str()) {
                            Some(found) => {
                                let (level, title) = found;
                                let ghost head = Head {
                                    level: level as nat,
                                    title: title@,
                                    line: i + 1,
                                };
                                nodes.push(
                                    OrgNode { level, title, start_line: i + 1, end_line: 0 },
                                );
                                proof {
                                    assert(done + (seq![head] + rest) =~= done.push(head) + rest);
                                    done = done.push(head);
                                }
                            },
                            None => {},
                        }
                    }
                },
            },
        }
        i += 1;
    }
    assert(done =~= goal);
    nodes
}

/// A heading that is not deeper is passed by every heading that ends before it.
proof fn end_skips(all: Seq<Head>, i: int, j: int, line_count: int)
    requires
        0 <= i < j < all.len(),
        all[j].level > all[i].level,
    ensures
        end_from(all, i, j, line_count) == end_from(all, i, j + 1, line_count),
{
}

/// The subtrees that are still open at `index`, from the outermost to the innermost.
spec fn open_at(all: Seq<Head>, open: Seq<usize>, index: int, line_count: int) -> bool {
    &&& forall|k: int| 0 <= k < open.len() ==> (#[trigger] open[k]) < index
    &&& forall|a: int, b: int|
        0 <= a < b < open.len() ==> (#[trigger] open[a]) < (#[trigger] open[b])
            && all[open[a] as int].level < all[open[b] as int].level
    &&& forall|k: int|
        0 <= k < open.len() ==> end_from(
            all,
            (#[trigger] open[k]) as int,
            open[k] + 1,
            line_count,
        ) == end_from(all, open[k] as int, index, line_count)
}

/// The subtrees that ended before `index` have their last line.
spec fn ended_before(
    nodes: Seq<OrgNode>,
    all: Seq<Head>,
    open: Seq<usize>,
    index: int,
    line_count: int,
) -> bool {
    forall|k: int|
        0 <= k < index && !open.contains(k as usize) ==> (#[trigger] nodes[k]).end_line == end_from(
            all,
            k,
            k + 1,
            line_count,
        )
}

fn close_subtrees(nodes: &mut Vec<OrgNode>, line_count: usize, Ghost(all): Ghost<Seq<Head>>)
    requires
        heads_match(old(nodes)@, all),
        forall|k: int| 0 <= k < all.len() ==> (#[trigger] all[k]).line >= 1,
    ensures
        heads_match(final(nodes)@, all),
        forall|k: int|
            0 <= k < all.len() ==> (#[trigger] final(nodes)@[k]).end_line == end_from(
                all,
                k,
                k + 1,
                line_count as int,
            ),
{
    let mut open: Vec<usize> = Vec::new();
    let mut index: usize = 0;
    while index < nodes.len()
        invariant
            heads_match(nodes@, all),
            forall|k: int| 0 <= k < all.len() ==> (#[trigger] all[k]).line >= 1,
            index <= all.len(),
            all.len() == nodes@.len(),
            open_at(all, open@, index as int, line_count as int),
            ended_before(nodes@, all, open@, index as int, line_count as int),
        decreases nodes@.len() - index,
    {
        let mut going = true;
        while going && open.len() > 0
            invariant
                heads_match(nodes@, all),
                forall|k: int| 0 <= k < all.len() ==> (#[trigger] all[k]).line >= 1,
                index < all.len(),
                all.len() == nodes@.len(),
                open_at(all, open@, index as int, line_count as int),
                ended_before(nodes@, all, open@, index as int, line_count as int),
                !going ==> open@.len() > 0 && all[open@.last() as int].level
                    < all[index as int].level,
            decreases open@.len(), going as int,
        {
            let top: usize = open[open.len() - 1];
            assert(top < index);
            assert(nodes@[index as int].level == all[index as int].level);
            assert(nodes@[top as int].level == all[top as int].level);
            if nodes[index].level <= nodes[top].level {
                let ghost before = nodes@;
                let ghost open_before = open@;
                assert(nodes@[index as int].start_line == all[index as int].line);
                let end: usize = nodes[index].start_line - 1;
                nodes[top].end_line = end;
                let closed = open.pop();
                proof {
                    assert(end_from(all, top as int, index as int, line_count as int) == end);
                    assert(end_from(all, top as int, top + 1, line_count as int) == end_from(
                        all,
                        open_before[open_before.len() - 1] as int,
                        index as int,
                        line_count as int,
                    ));
                    assert forall|k: int|
                        0 <= k < index && !open@.contains(k as usize) implies (
                    #[trigger] nodes@[k]).end_line == end_from(
                        all,
                        k,
                        k + 1,
                        line_count as int,
                    ) by {
                        if k != top {
                            assert(nodes@[k] == before[k]);
                            if open_before.contains(k as usize) {
                                let m = choose|m: int|
                                    0 <= m < open_before.len() && open_before[m] == k as usize;
                                assert(m < open@.len());
                                assert(open@[m] == k as usize);
                            }
                        }
                    }
                    assert forall|k: int| 0 <= k < nodes@.len() implies (
                    #[trigger] nodes@[k]).level == all[k].level && nodes@[k].title@ == all[k].title
                        && nodes@[k].start_line == all[k].line by {
                        assert(before[k].level == all[k].level);
                    }
                    assert forall|k: int| 0 <= k < open@.len() implies (
                    #[trigger] open@[k]) == open_before[k] by {}
                }
            } else {
                going = false;
            }
        }
        let ghost open_before = open@;
        open.push(index);
        proof {
            assert forall|k: int| 0 <= k < open_before.len() implies all[(
            #[trigger] open_before[k]) as int].level < all[index as int].level by {
                let last = open_before.len() - 1;
                assert(all[open_before[last] as int].level < all[index as int].level);
                if k < last {
                    assert(all[open_before[k] as int].level < all[open_before[last] as int].level);
                }
            }
            let now = open@;
            assert forall|k: int| 0 <= k < now.len() implies end_from(
                all,
                (#[trigger] now[k]) as int,
                now[k] + 1,
                line_count as int,
            ) == end_from(all, now[k] as int, index + 1, line_count as int) by {
                if k < open_before.len() {
                    assert(now[k] == open_before[k]);
                    end_skips(all, now[k] as int, index as int, line_count as int);
                }
            }
            assert forall|a: int, b: int| 0 <= a < b < now.len() implies (#[trigger] now[a]) < (
            #[trigger] now[b]) && all[now[a] as int].level < all[now[b] as int].level by {
                assert(now[a] == open_before[a]);
                if b < open_before.len() {
                    assert(now[b] == open_before[b]);
                }
            }
            assert forall|k: int|
                0 <= k < index + 1 && !now.contains(k as usize) implies (
            #[trigger] nodes@[k]).end_line == end_from(all, k, k + 1, line_count as int) by {
                if k == index {
                    assert(now[open_before.len() as int] == index);
                } else if open_before.contains(k as usize) {
                    let m = choose|m: int|
                        0 <= m < open_before.len() && open_before[m] == k as usize;
                    assert(now[m] == k as usize);
                }
            }
        }
        index += 1;
    }
    let ghost left = open@;
    let ghost fixed = nodes@;
    let mut i: usize = 0;
    while i < open.len()
        invariant
            open@ == left,
            heads_match(nodes@, all),
            all.len() == nodes@.len(),
            open_at(all, left, all.len() as int, line_count as int),
            i <= left.len(),
            forall|k: int|
                0 <= k < all.len() && !left.contains(k as usize) ==> (
                #[trigger] nodes@[k]).end_line == end_from(all, k, k + 1, line_count as int),
            forall|m: int| 0 <= m < i ==> nodes@[(#[trigger] left[m]) as int].end_line == line_count,
        decreases left.len() - i,
    {
        let ghost before = nodes@;
        let at: usize = open[i];
        assert(left[i as int] == at);
        nodes[at].end_line = line_count;
        proof {
            assert forall|k: int| 0 <= k < nodes@.len() implies (
            #[trigger] nodes@[k]).level == all[k].level && nodes@[k].title@ == all[k].title
                && nodes@[k].start_line == all[k].line by {
                assert(before[k].level == all[k].level);
            }
            assert forall|k: int| 0 <= k < all.len() && !left.contains(k as usize) implies (
            #[trigger] nodes@[k]).end_line == end_from(all, k, k + 1, line_count as int) by {
                assert(left.contains(at));
                assert(nodes@[k] == before[k]);
            }
        }
        i += 1;
    }
    proof {
        assert forall|k: int| 0 <= k < all.len() implies (#[trigger] nodes@[k]).end_line
            == end_from(all, k, k + 1, line_count as int) by {
            if left.contains(k as usize) {
                let m = choose|m: int| 0 <= m < left.len() && left[m] == k as usize;
                assert(nodes@[left[m] as int].end_line == line_count);
                assert(end_from(all, left[m] as int, left[m] + 1, line_count as int) == end_from(
                    all,
                    left[m] as int,
                    all.len() as int,
                    line_count as int,
                ));
            }
        }
    }
}

proof fn heads_bounds(all: Seq<Seq<char>>, i: int, blocks: Seq<Seq<char>>)
    requires
        0 <= i,
    ensures
        ({
            let found = heads_from(all, i, blocks);
            &&& forall|k: int| 0 <= k < found.len() ==> i < (#[trigger] found[k]).line <= all.len()
            &&& forall|k: int| 0 <= k < found.len() ==> (#[trigger] found[k]).level > 0
            &&& forall|a: int, b: int|
                0 <= a < b < found.len() ==> (#[trigger] found[a]).line < (#[trigger] found[b]).line
        }),
    decreases all.len() - i,
{
    if i < all.len() {
        let line = strip_return(all[i]);
        let rest = heads_from(all, i + 1, open_blocks(blocks, line));
        heads_bounds(all, i + 1, open_blocks(blocks, line));
        let found = heads_from(all, i, blocks);
        assert(found =~= rest || (found.len() == rest.len() + 1 && found[0].line == i + 1
            && found[0].level > 0 && forall|k: int|
            1 <= k < found.len() ==> #[trigger] found[k] == rest[k - 1]));
    }
}

/// The headings of a file with their subtrees.
pub fn extract_outline(content: &str) -> (outline: OrgOutline)
    ensures
        outline.line_count == if content@.len() == 0 {
            0
        } else {
            rows(content@).len()
        },
        outline.nodes.deep_view() == if content@.len() == 0 {
            Seq::empty()
        } else {
            nodes_of(content@)
        },
{
    if content.is_empty() {
        let nodes: Vec<OrgNode> = Vec::new();
        assert(nodes.deep_view() =~= Seq::empty());
        return OrgOutline { line_count: 0, nodes };
    }
    let all = split_rows(content);
    let line_count: usize = all.len();
    let ghost found = heads(content@);
    let mut nodes = find_heads(&all);
    proof {
        heads_bounds(rows(content@), 0, Seq::empty());
    }
    close_subtrees(&mut nodes, line_count, Ghost(found));
    proof {
        let goal = nodes_of(content@);
        assert(goal.len() == nodes@.len());
        assert forall|k: int| 0 <= k < goal.len() implies nodes.deep_view()[k] == goal[k] by {
            assert(nodes@[k].level == found[k].level);
            assert(nodes@[k].end_line == end_from(found, k, k + 1, line_count as int));
        }
        assert(nodes.deep_view() =~= goal);
    }
    OrgOutline { line_count, nodes }
}

proof fn end_bounds(all: Seq<Head>, i: int, j: int, line_count: int)
    requires
        0 <= i < j <= all.len(),
        forall|a: int, b: int|
            0 <= a < b < all.len() ==> (#[trigger] all[a]).line < (#[trigger] all[b]).line,
        forall|k: int| 0 <= k < all.len() ==> (#[trigger] all[k]).line <= line_count,
    ensures
        all[i].line <= end_from(all, i, j, line_count) <= line_count,
        forall|k: int|
            j <= k < all.len() && all[k].level <= all[i].level ==> end_from(all, i, j, line_count)
                < (#[trigger] all[k]).line,
        (forall|k: int| j <= k < all.len() ==> (#[trigger] all[k]).level > all[i].level)
            ==> end_from(all, i, j, line_count) == line_count,
    decreases all.len() - j,
{
    if j < all.len() {
        assert(all[i].line < all[j].line);
        if all[j].level > all[i].level {
            end_bounds(all, i, j + 1, line_count);
        } else {
            assert forall|k: int|
                j <= k < all.len() && all[k].level <= all[i].level implies all[j].line - 1 < (
            #[trigger] all[k]).line by {
                if k > j {
                    assert(all[j].line < all[k].line);
                }
            }
        }
    }
}

proof fn end_nested(all: Seq<Head>, i: int, k: int, j: int, line_count: int)
    requires
        0 <= i < k < j <= all.len(),
        all[i].level < all[k].level,
        forall|a: int, b: int|
            0 <= a < b < all.len() ==> (#[trigger] all[a]).line < (#[trigger] all[b]).line,
        forall|k: int| 0 <= k < all.len() ==> (#[trigger] all[k]).line <= line_count,
    ensures
        end_from(all, k, j, line_count) <= end_from(all, i, j, line_count),
    decreases all.len() - j,
{
    if j < all.len() {
        if all[j].level > all[k].level {
            end_nested(all, i, k, j + 1, line_count);
        } else if all[j].level > all[i].level {
            end_bounds(all, i, j + 1, line_count);
            if j + 1 <= all.len() {
                end_after(all, i, j + 1, line_count, j);
            }
        }
    }
}

proof fn end_after(all: Seq<Head>, i: int, j: int, line_count: int, m: int)
    requires
        0 <= i < j <= all.len(),
        0 <= m < j,
        forall|a: int, b: int|
            0 <= a < b < all.len() ==> (#[trigger] all[a]).line < (#[trigger] all[b]).line,
        forall|k: int| 0 <= k < all.len() ==> (#[trigger] all[k]).line <= line_count,
    ensures
        end_from(all, i, j, line_count) >= all[m].line,
    decreases all.len() - j,
{
    if j < all.len() {
        assert(all[m].line < all[j].line);
        if all[j].level > all[i].level {
            end_after(all, i, j + 1, line_count, m);
        }
    } else {
        assert(all[m].line <= line_count);
    }
}

/// Subtrees nest: the subtree of a later heading lies inside that of an earlier one
/// and is deeper, or begins behind its end. Every subtree begins with its heading and
/// ends inside the file.
pub proof fn outline_law(content: Seq<char>, i: int, j: int)
    requires
        content.len() > 0,
        0 <= i < j < heads(content).len(),
    ensures
        ({
            let all = heads(content);
            let count = rows(content).len() as int;
            let first = end_from(all, i, i + 1, count);
            let second = end_from(all, j, j + 1, count);
            &&& 1 <= all[i].line < all[j].line <= second <= count
            &&& first < all[j].line || (all[i].level < all[j].level && second <= first)
        }),
{
    let all = heads(content);
    let count = rows(content).len() as int;
    heads_bounds(rows(content), 0, Seq::empty());
    end_bounds(all, i, i + 1, count);
    end_bounds(all, j, j + 1, count);
    if end_from(all, i, i + 1, count) >= all[j].line {
        assert(all[j].level > all[i].level);
        reach(all, i, i + 1, j, count);
        end_nested(all, i, j, j + 1, count);
    }
}

/// The text with a return in front of each line feed.
pub open spec fn with_returns(s: Seq<char>) -> Seq<char>
    decreases s.len(),
{
    if s.len() == 0 {
        s
    } else if s.last() == '\n' {
        with_returns(s.drop_last()).push('\r').push('\n')
    } else {
        with_returns(s.drop_last()).push(s.last())
    }
}

/// How lines end changes nothing: with a return in front of each line feed a file has the
/// same headings, in lines with the same numbers, and so it has with a line feed behind its
/// last line.
pub proof fn line_end_law(content: Seq<char>)
    requires
        content.len() > 0,
        !content.contains('\r'),
    ensures
        with_returns(content).len() > 0,
        rows(with_returns(content)).len() == rows(content).len(),
        nodes_of(with_returns(content)) == nodes_of(content),
        content.last() != '\n' ==> rows(content.push('\n')) == rows(content) && nodes_of(
            content.push('\n'),
        ) == nodes_of(content),
{
    let told = with_returns(content);
    let body = body_of(content);
    assert forall|i: int| 0 <= i < body.len() implies #[trigger] body[i] != '\r' by {
        assert(content.contains(content[i]));
    }
    rows_with_returns(body);
    let plain = rows_from(body, 0);
    let all = rows(told);
    if content.last() == '\n' {
        let before = with_returns(body);
        assert(told.drop_last() =~= before.push('\r'));
        rows_of_push(before, 0, '\r');
    } else {
        assert(body == content);
    }
    assert(all.len() == plain.len());
    assert forall|k: int| 0 <= k < plain.len() implies strip_return(#[trigger] all[k])
        == strip_return(plain[k]) by {
        assert(!plain[k].contains('\r'));
        if plain[k].len() > 0 {
            assert(plain[k].contains(plain[k].last()));
        }
        if all[k] != plain[k] {
            assert(all[k] == plain[k].push('\r'));
            assert(plain[k].push('\r').drop_last() =~= plain[k]);
        }
    }
    same_heads(all, plain, 0, Seq::empty());
    assert(nodes_of(told) =~= nodes_of(content));
    assert(content.push('\n').drop_last() =~= content);
}

proof fn index_of_push(s: Seq<char>, from: int, c: char)
    requires
        0 <= from <= s.len(),
    ensures
        from <= index_of(s, '\n', from) <= s.len(),
        index_of(s.push(c), '\n', from) == if index_of(s, '\n', from) < s.len() || c == '\n' {
            index_of(s, '\n', from)
        } else {
            (s.len() + 1) as int
        },
    decreases s.len() - from,
{
    reveal_with_fuel(index_of, 2);
    if from < s.len() {
        assert(s.push(c)[from] == s[from]);
        index_of_push(s, from + 1, c);
    }
}

/// What one more character does to the lines.
proof fn rows_of_push(s: Seq<char>, from: int, c: char)
    requires
        0 <= from <= s.len(),
    ensures
        rows_from(s, from).len() > 0,
        rows_from(s.push(c), from) == if c == '\n' {
            rows_from(s, from).push(Seq::empty())
        } else {
            rows_from(s, from).drop_last().push(rows_from(s, from).last().push(c))
        },
    decreases s.len() - from,
{
    let more = s.push(c);
    index_of_push(s, from, c);
    let end = index_of(s, '\n', from);
    if end < s.len() {
        rows_of_push(s, end + 1, c);
        let first = seq![s.subrange(from, end)];
        let rest = rows_from(s, end + 1);
        assert(more.subrange(from, end) =~= s.subrange(from, end));
        assert(rows_from(s, from) == first + rest);
        if c == '\n' {
            assert(rows_from(more, from) =~= rows_from(s, from).push(Seq::empty()));
        } else {
            assert((first + rest).last() == rest.last());
            assert(rows_from(more, from) =~= rows_from(s, from).drop_last().push(
                rows_from(s, from).last().push(c),
            ));
        }
    } else if c == '\n' {
        assert(more.subrange(from, end) =~= s.skip(from));
        assert(more.skip(end + 1) =~= Seq::empty());
        reveal_with_fuel(rows_from, 2);
        assert(index_of(more, '\n', end + 1) == more.len());
        assert(rows_from(more, end + 1) =~= seq![Seq::empty()]);
        assert(rows_from(more, from) =~= rows_from(s, from).push(Seq::empty()));
    } else {
        assert(more.skip(from) =~= s.skip(from).push(c));
        assert(rows_from(more, from) =~= rows_from(s, from).drop_last().push(
            rows_from(s, from).last().push(c),
        ));
    }
}

/// With returns in front of the line feeds each line but the last ends in a return.
proof fn rows_with_returns(s: Seq<char>)
    requires
        forall|i: int| 0 <= i < s.len() ==> #[trigger] s[i] != '\r',
    ensures
        ({
            let plain = rows_from(s, 0);
            let told = rows_from(with_returns(s), 0);
            &&& plain.len() > 0
            &&& told.len() == plain.len()
            &&& told.last() == plain.last()
            &&& forall|k: int|
                0 <= k < plain.len() - 1 ==> #[trigger] told[k] == plain[k].push('\r')
            &&& forall|k: int| 0 <= k < plain.len() ==> !(#[trigger] plain[k]).contains('\r')
        }),
    decreases s.len(),
{
    if s.len() == 0 {
        assert(rows_from(s, 0) =~= seq![s.skip(0)]);
        assert(s.skip(0) =~= s);
    } else {
        let before = s.drop_last();
        let c = s.last();
        rows_with_returns(before);
        assert(before.push(c) =~= s);
        rows_of_push(before, 0, c);
        let plain = rows_from(before, 0);
        let told = rows_from(with_returns(before), 0);
        let now = rows_from(s, 0);
        if c == '\n' {
            rows_of_push(with_returns(before), 0, '\r');
            rows_of_push(with_returns(before).push('\r'), 0, '\n');
            let ended = told.drop_last().push(told.last().push('\r'));
            assert(rows_from(with_returns(s), 0) == ended.push(Seq::empty()));
            assert forall|k: int| 0 <= k < now.len() implies !(#[trigger] now[k]).contains(
                '\r',
            ) by {
                if k < plain.len() {
                    assert(now[k] == plain[k]);
                }
            }
            assert forall|k: int| 0 <= k < now.len() - 1 implies #[trigger] rows_from(
                with_returns(s),
                0,
            )[k] == now[k].push('\r') by {
                assert(now[k] == plain[k]);
                if k < plain.len() - 1 {
                    assert(told[k] == plain[k].push('\r'));
                }
            }
        } else {
            rows_of_push(with_returns(before), 0, c);
            assert(c != '\r') by {
                assert(s[s.len() - 1] != '\r');
            }
            assert forall|k: int| 0 <= k < now.len() implies !(#[trigger] now[k]).contains(
                '\r',
            ) by {
                if k < plain.len() - 1 {
                    assert(now[k] == plain[k]);
                } else {
                    let last = plain.last();
                    assert(!last.contains('\r')) by {
                        assert(last == plain[plain.len() - 1]);
                    }
                    assert(now[k] == last.push(c));
                    if last.push(c).contains('\r') {
                        let i = choose|i: int| 0 <= i < last.len() + 1 && last.push(c)[i] == '\r';
                        assert(last[i] == '\r');
                    }
                }
            }
            assert forall|k: int| 0 <= k < now.len() - 1 implies #[trigger] rows_from(
                with_returns(s),
                0,
            )[k] == now[k].push('\r') by {
                assert(told[k] == plain[k].push('\r'));
            }
        }
    }
}

proof fn same_heads(a: Seq<Seq<char>>, b: Seq<Seq<char>>, i: int, blocks: Seq<Seq<char>>)
    requires
        a.len() == b.len(),
        0 <= i,
        forall|k: int|
            0 <= k < b.len() ==> strip_return(#[trigger] a[k]) == strip_return(b[k]),
    ensures
        heads_from(a, i, blocks) == heads_from(b, i, blocks),
    decreases a.len() - i,
{
    if i < a.len() {
        assert(strip_return(a[i]) == strip_return(b[i]));
        same_heads(a, b, i + 1, open_blocks(blocks, strip_return(a[i])));
    }
}

proof fn reach(all: Seq<Head>, i: int, from: int, j: int, count: int)
    requires
        0 <= i < from <= j < all.len(),
        end_from(all, i, from, count) >= all[j].line,
        forall|a: int, b: int|
            0 <= a < b < all.len() ==> (#[trigger] all[a]).line < (#[trigger] all[b]).line,
    ensures
        end_from(all, i, from, count) == end_from(all, i, j + 1, count),
    decreases j - from,
{
    if all[from].level <= all[i].level {
        if from < j {
            assert(all[from].line < all[j].line);
        }
    } else if from < j {
        reach(all, i, from + 1, j, count);
    }
}

// ---------------------------------------------------------------------------
// The result
// ---------------------------------------------------------------------------

/// One heading as JSON.
pub open spec fn node_text(node: NodeView) -> Seq<char> {
    "{\"level\":"@ + digits(node.level as nat) + ",\"title\":"@ + written(
        JsonView::Text(node.title),
    ) + ",\"start_line\":"@ + digits(node.start_line as nat) + ",\"end_line\":"@ + digits(
        node.end_line as nat,
    ) + "}"@
}

/// The headings as JSON, one on a line.
pub open spec fn nodes_text(nodes: Seq<NodeView>) -> Seq<char>
    decreases nodes.len(),
{
    if nodes.len() == 0 {
        Seq::empty()
    } else {
        nodes_text(nodes.drop_last()) + (if nodes.len() > 1 {
            ",\n"@
        } else {
            Seq::empty()
        }) + "    "@ + node_text(nodes.last())
    }
}

/// An outline as JSON.
pub open spec fn outline_text(path: Seq<char>, line_count: usize, nodes: Seq<NodeView>) -> Seq<
    char,
> {
    "{\n"@ + "  \"path\": "@ + written(JsonView::Text(path)) + ",\n"@ + "  \"line_count\": "@
        + digits(line_count as nat) + ",\n"@ + "  \"nodes\": ["@ + nodes_text(nodes) + (
    if nodes.len() > 0 {
        "\n"@
    } else {
        Seq::empty()
    }) + "  ]\n}"@
}

fn node_json(node: &OrgNode) -> (result: String)
    ensures
        result@ == node_text(node.deep_view()),
{
    let mut out = "{\"level\":".to_owned();
    out.append(text::decimal(node.level as u64).as_str());
    out.append(",\"title\":");
    out.append(json::write(&Json::text(node.title.as_str())).as_str());
    out.append(",\"start_line\":");
    out.append(text::decimal(node.start_line as u64).as_str());
    out.append(",\"end_line\":");
    out.append(text::decimal(node.end_line as u64).as_str());
    out.append("}");
    out
}

/// An outline as JSON, one heading on a line.
pub fn render(path: &str, outline: &OrgOutline) -> (result: String)
    ensures
        result@ == outline_text(path@, outline.line_count, outline.nodes.deep_view()),
{
    let mut out = "{\n".to_owned();
    out.append("  \"path\": ");
    out.append(json::write(&Json::text(path)).as_str());
    out.append(",\n");
    out.append("  \"line_count\": ");
    out.append(text::decimal(outline.line_count as u64).as_str());
    out.append(",\n");
    out.append("  \"nodes\": [");
    let ghost opening = out@;
    let ghost all = outline.nodes.deep_view();
    let mut i: usize = 0;
    assert(opening + nodes_text(all.take(0)) =~= opening);
    while i < outline.nodes.len()
        invariant
            all == outline.nodes.deep_view(),
            i <= outline.nodes@.len(),
            out@ == opening + nodes_text(all.take(i as int)),
        decreases outline.nodes@.len() - i,
    {
        if i > 0 {
            out.append(",\n");
        }
        out.append("    ");
        out.append(node_json(&outline.nodes[i]).as_str());
        proof {
            assert(all.take(i + 1).drop_last() =~= all.take(i as int));
            assert(all.take(i + 1).last() == outline.nodes@[i as int].deep_view());
            assert(out@ =~= opening + nodes_text(all.take(i + 1)));
        }
        i += 1;
    }
    assert(all.take(i as int) =~= all);
    if outline.nodes.len() > 0 {
        out.append("\n");
    } else {
        assert(out@ + Seq::<char>::empty() =~= out@);
    }
    out.append("  ]\n}");
    out
}

/// What the tool says of a file that it cannot read.
pub fn tool_error(code: &str, message: &str) -> (result: ToolResult)
    ensures
        result.output@ == written(
            JsonView::Object(
                seq![("error"@, JsonView::Text(code@)), ("message"@, JsonView::Text(message@))],
            ),
        ),
        result.image is None,
        result.diff is None,
{
    let mut entries: Vec<(String, Json)> = Vec::new();
    entries.push(("error".to_owned(), Json::text(code)));
    entries.push(("message".to_owned(), Json::text(message)));
    proof {
        json::json_view_object(entries);
        assert(entries.deep_view() =~= seq![
            ("error"@, JsonView::Text(code@)),
            ("message"@, JsonView::Text(message@)),
        ]);
    }
    ToolResult { output: json::write(&Json::Object(entries)), image: None, diff: None }
}

} // verus!
