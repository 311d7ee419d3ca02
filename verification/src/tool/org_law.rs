//! What holds of outlines: which lines are headings, and how they are told.
use super::org_outline::{
    end_from, heading_of, heads, heads_from, is_marker, keyword, node_of, node_text, nodes_text,
    open_blocks, outline_text, rows, rows_from, stars, Head, NodeView,
};
use crate::json::{written, JsonView};
use crate::text::{digits, has_prefix, has_suffix, index_of, is_space, lower, strip_return, trim, words};
use vstd::prelude::*;
use vstd::string::*;

verus! {

// ---------------------------------------------------------------------------
// Lines
// ---------------------------------------------------------------------------

proof fn feed_at(s: Seq<char>, i: int, from: int)
    requires
        0 <= from <= i <= s.len(),
        forall|k: int| from <= k < i ==> s[k] != '\n',
        i < s.len() ==> s[i] == '\n',
    ensures
        index_of(s, '\n', from) == i,
    decreases i - from,
{
    if from < i {
        feed_at(s, i, from + 1);
    }
}

proof fn first_feed(s: Seq<char>, from: int)
    requires
        0 <= from <= s.len(),
    ensures
        ({
            let i = index_of(s, '\n', from);
            &&& from <= i <= s.len()
            &&& i < s.len() ==> s[i] == '\n'
            &&& forall|k: int| from <= k < i ==> s[k] != '\n'
        }),
    decreases s.len() - from,
{
    if from < s.len() && s[from] != '\n' {
        first_feed(s, from + 1);
    }
}

proof fn rows_behind(a: Seq<char>, b: Seq<char>, from: int)
    requires
        0 <= from <= b.len(),
    ensures
        rows_from(a + b, a.len() + from) == rows_from(b, from),
    decreases b.len() + 1 - from,
{
    let all = a + b;
    let off = a.len() as int;
    first_feed(b, from);
    let end = index_of(b, '\n', from);
    assert forall|k: int| off + from <= k < off + end implies all[k] != '\n' by {
        assert(all[k] == b[k - off]);
    }
    feed_at(all, off + end, off + from);
    if end < b.len() {
        rows_behind(a, b, end + 1);
        assert(all.subrange(off + from, off + end) =~= b.subrange(from, end));
    } else {
        assert(all.skip(off + from) =~= b.skip(from));
    }
}

/// A text is its lines: what stands before a line feed is the first, and the others are those
/// of what stands behind it.
pub proof fn rows_law(line: Seq<char>, rest: Seq<char>)
    requires
        !line.contains('\n'),
    ensures
        rows_from(line + seq!['\n'] + rest, 0) == seq![line] + rows_from(rest, 0),
        rows_from(line, 0) == seq![line],
{
    let all = line + seq!['\n'] + rest;
    let n = line.len() as int;
    assert forall|k: int| 0 <= k < n implies all[k] != '\n' && line[k] != '\n' by {
        assert(line.contains(line[k]));
    }
    feed_at(all, n, 0);
    feed_at(line, n, 0);
    assert(line.skip(0) =~= line);
    assert(all.subrange(0, n) =~= line);
    assert(line + seq!['\n'] + rest =~= (line + seq!['\n']) + rest);
    rows_behind(line + seq!['\n'], rest, 0);
}

// ---------------------------------------------------------------------------
// Headings
// ---------------------------------------------------------------------------

proof fn stars_are(line: Seq<char>)
    ensures
        stars(line) <= line.len(),
        forall|k: int| 0 <= k < stars(line) ==> line[k] == '*',
        stars(line) < line.len() ==> line[stars(line) as int] != '*',
    decreases line.len(),
{
    if line.len() > 0 && line[0] == '*' {
        let rest = line.skip(1);
        stars_are(rest);
        assert forall|k: int| 0 <= k < stars(line) implies line[k] == '*' by {
            if k > 0 {
                assert(line[k] == rest[k - 1]);
            }
        }
    }
}

/// A heading is stars, a space and a title, in that order, and its level is how many stars.
pub proof fn heading_law(line: Seq<char>, level: nat)
    ensures
        heading_of(line) is Some <==> exists|n: int|
            {
                &&& 0 < n < line.len()
                &&& is_space(#[trigger] line[n])
                &&& forall|k: int| 0 <= k < n ==> #[trigger] line[k] == '*'
            },
        0 < level < line.len() && is_space(line[level as int]) && line[level as int] != '*' && (
        forall|k: int| 0 <= k < level ==> #[trigger] line[k] == '*') ==> heading_of(line) == Some(
            (level, trim(line.skip(level as int))),
        ),
{
    stars_are(line);
    let n = stars(line) as int;
    assert(!is_space('*'));
    if exists|m: int|
        {
            &&& 0 < m < line.len()
            &&& is_space(#[trigger] line[m])
            &&& forall|k: int| 0 <= k < m ==> #[trigger] line[k] == '*'
        } {
        let m = choose|m: int|
            {
                &&& 0 < m < line.len()
                &&& is_space(#[trigger] line[m])
                &&& forall|k: int| 0 <= k < m ==> #[trigger] line[k] == '*'
            };
        assert(line[m] != '*');
        assert(m == n);
        assert(line.skip(n)[0] == line[n]);
    }
    if heading_of(line) is Some {
        assert(line.skip(n)[0] == line[n]);
        assert(is_space(line[n]));
    }
    if 0 < level < line.len() && is_space(line[level as int]) && line[level as int] != '*' && (
    forall|k: int| 0 <= k < level ==> #[trigger] line[k] == '*') {
        assert(level == n);
        assert(line.skip(n)[0] == line[n]);
    }
}

/// A block starts or ends with a line that begins with its mark, in whatever letters, and
/// names its kind behind it.
pub proof fn keyword_law(mark: Seq<char>, rest: Seq<char>, marker: Seq<char>)
    requires
        mark.len() == marker.len(),
    ensures
        lower(mark) == lower(marker) && words(rest).len() > 0 ==> keyword(mark + rest, marker)
            == Some(words(rest)[0]),
        lower(mark) == lower(marker) && words(rest).len() == 0 ==> keyword(mark + rest, marker)
            is None,
        lower(mark) != lower(marker) ==> keyword(mark + rest, marker) is None,
{
    let line = mark + rest;
    assert(line.take(marker.len() as int) =~= mark);
    assert(line.skip(marker.len() as int) =~= rest);
}

/// The start of a block opens it; the end of the innermost block closes that one, and no
/// other line opens or closes any.
pub proof fn blocks_law(blocks: Seq<Seq<char>>, line: Seq<char>)
    ensures
        keyword(line, "#+begin_"@) is Some ==> open_blocks(blocks, line) == blocks.push(
            keyword(line, "#+begin_"@)->0,
        ),
        keyword(line, "#+begin_"@) is None && keyword(line, "#+end_"@) is Some && blocks.len() > 0
            && lower(blocks.last()) == lower(keyword(line, "#+end_"@)->0) ==> open_blocks(
            blocks,
            line,
        ).push(blocks.last()) == blocks,
        keyword(line, "#+begin_"@) is None && keyword(line, "#+end_"@) is Some && (blocks.len() == 0
            || lower(blocks.last()) != lower(keyword(line, "#+end_"@)->0)) ==> open_blocks(
            blocks,
            line,
        ) == blocks,
        keyword(line, "#+begin_"@) is None && keyword(line, "#+end_"@) is None ==> open_blocks(
            blocks,
            line,
        ) == blocks,
{
    if blocks.len() > 0 {
        assert(blocks.drop_last().push(blocks.last()) =~= blocks);
    }
}

/// The blocks that are open in front of line `n`.
pub open spec fn open_before(all: Seq<Seq<char>>, n: int) -> Seq<Seq<char>>
    decreases n,
{
    if n <= 0 || n > all.len() {
        Seq::empty()
    } else {
        open_blocks(open_before(all, n - 1), strip_return(all[n - 1]))
    }
}

/// Line `n`, counted from zero, is the heading `head`.
pub open spec fn is_heading(all: Seq<Seq<char>>, n: int, head: Head) -> bool {
    let line = strip_return(all[n]);
    &&& 0 <= n < all.len()
    &&& open_before(all, n).len() == 0
    &&& !is_marker(line)
    &&& heading_of(line) == Some((head.level, head.title))
    &&& head.line == n + 1
}

proof fn heads_are(all: Seq<Seq<char>>, i: int, head: Head)
    requires
        0 <= i <= all.len(),
    ensures
        ({
            let found = heads_from(all, i, open_before(all, i));
            &&& found.contains(head) <==> is_heading(all, head.line - 1, head) && head.line > i
            &&& forall|k: int| 0 <= k < found.len() ==> (#[trigger] found[k]).line > i
            &&& forall|a: int, b: int|
                0 <= a < b < found.len() ==> (#[trigger] found[a]).line < (#[trigger] found[b]).line
        }),
    decreases all.len() - i,
{
    let blocks = open_before(all, i);
    let found = heads_from(all, i, blocks);
    if i < all.len() {
        let line = strip_return(all[i]);
        heads_are(all, i + 1, head);
        let rest = heads_from(all, i + 1, open_before(all, i + 1));
        assert(open_before(all, i + 1) == open_blocks(blocks, line));
        if heading_of(line) is Some && blocks.len() == 0 && !is_marker(line) {
            let first = Head {
                level: (heading_of(line)->0).0,
                title: (heading_of(line)->0).1,
                line: i + 1,
            };
            assert(found == seq![first] + rest);
            assert(is_heading(all, i, first));
            assert(found[0] == first);
            if rest.contains(head) {
                let k = choose|k: int| 0 <= k < rest.len() && rest[k] == head;
                assert(found[k + 1] == head);
            }
            if found.contains(head) {
                let k = choose|k: int| 0 <= k < found.len() && found[k] == head;
                if k > 0 {
                    assert(rest[k - 1] == head);
                    assert(rest.contains(head));
                }
            }
            if is_heading(all, head.line - 1, head) && head.line == i + 1 {
                assert(head == first);
                assert(found.contains(found[0]));
            }
            assert forall|a: int, b: int| 0 <= a < b < found.len() implies (#[trigger] found[a]).line
                < (#[trigger] found[b]).line by {
                assert(found[b] == rest[b - 1]);
                if a > 0 {
                    assert(found[a] == rest[a - 1]);
                }
            }
            assert forall|k: int| 0 <= k < found.len() implies (#[trigger] found[k]).line > i by {
                if k > 0 {
                    assert(found[k] == rest[k - 1]);
                }
            }
        } else {
            assert(found == rest);
        }
    } else {
        assert(found.len() == 0);
    }
}

/// The outline holds just the headings that stand outside blocks, each with the number of its
/// line, as they stand.
pub proof fn heads_law(content: Seq<char>, head: Head)
    ensures
        heads(content).contains(head) <==> is_heading(rows(content), head.line - 1, head),
        forall|a: int, b: int|
            0 <= a < b < heads(content).len() ==> (#[trigger] heads(content)[a]).line < (
            #[trigger] heads(content)[b]).line,
{
    heads_are(rows(content), 0, head);
    assert(open_before(rows(content), 0) =~= Seq::empty());
}

proof fn end_is(all: Seq<Head>, i: int, j: int, count: int)
    requires
        0 <= i < j <= all.len(),
    ensures
        (forall|k: int| j <= k < all.len() ==> (#[trigger] all[k]).level > all[i].level)
            ==> end_from(all, i, j, count) == count,
        forall|m: int|
            j <= m < all.len() && (#[trigger] all[m]).level <= all[i].level && (forall|k: int|
                j <= k < m ==> (#[trigger] all[k]).level > all[i].level) ==> end_from(
                all,
                i,
                j,
                count,
            ) == all[m].line - 1,
    decreases all.len() - j,
{
    if j < all.len() && all[j].level > all[i].level {
        end_is(all, i, j + 1, count);
    }
}

/// A heading reaches to the line before the next of its level or above, or to the end; it is
/// told with its level, its title and its line.
pub proof fn reach_law(all: Seq<Head>, i: int, m: int, count: int)
    requires
        0 <= i < all.len(),
        all[i].level <= usize::MAX,
        0 <= all[i].line <= usize::MAX,
    ensures
        (forall|k: int| i < k < all.len() ==> (#[trigger] all[k]).level > all[i].level)
            ==> end_from(all, i, i + 1, count) == count,
        i < m < all.len() && all[m].level <= all[i].level && (forall|k: int|
            i < k < m ==> (#[trigger] all[k]).level > all[i].level) ==> end_from(
            all,
            i,
            i + 1,
            count,
        ) == all[m].line - 1,
        node_of(all, i, count).level == all[i].level,
        node_of(all, i, count).title == all[i].title,
        node_of(all, i, count).start_line == all[i].line,
        0 <= end_from(all, i, i + 1, count) <= usize::MAX ==> node_of(all, i, count).end_line
            == end_from(all, i, i + 1, count),
{
    end_is(all, i, i + 1, count);
}

// ---------------------------------------------------------------------------
// The outline as it is told
// ---------------------------------------------------------------------------

/// A heading is told with its level, its title, and the lines from which and to which it
/// reaches.
pub proof fn node_law(node: NodeView)
    ensures
        has_prefix(
            node_text(node),
            "{\"level\":"@ + digits(node.level as nat) + ",\"title\":"@ + written(
                JsonView::Text(node.title),
            ) + ",\""@,
        ),
        has_suffix(
            node_text(node),
            "\"start_line\":"@ + digits(node.start_line as nat) + ",\"end_line\":"@ + digits(
                node.end_line as nat,
            ) + "}"@,
        ),
{
    reveal_strlit("{\"level\":");
    reveal_strlit(",\"title\":");
    reveal_strlit(",\"start_line\":");
    reveal_strlit("\"start_line\":");
    reveal_strlit(",\"end_line\":");
    reveal_strlit("}");
    reveal_strlit(",\"");
    let text = node_text(node);
    let front = "{\"level\":"@ + digits(node.level as nat) + ",\"title\":"@ + written(
        JsonView::Text(node.title),
    ) + ",\""@;
    let back = "\"start_line\":"@ + digits(node.start_line as nat) + ",\"end_line\":"@ + digits(
        node.end_line as nat,
    ) + "}"@;
    let head = text.take(text.len() - back.len());
    assert(text =~= head + back);
    assert(text.subrange(0, front.len() as int) =~= front);
    assert(text.subrange(text.len() - back.len(), text.len() as int) =~= back);
}

/// The headings are told one below the other, with a comma between two.
pub proof fn nodes_law(a: Seq<NodeView>, b: Seq<NodeView>)
    requires
        a.len() > 0,
        b.len() > 0,
    ensures
        nodes_text(a + b) == nodes_text(a) + ",\n"@ + nodes_text(b),
        a.len() == 1 ==> nodes_text(a) == "    "@ + node_text(a[0]),
    decreases b.len(),
{
    let all = a + b;
    assert(all.last() == b.last());
    assert(all.drop_last() =~= a + b.drop_last());
    if b.len() == 1 {
        assert(a + b.drop_last() =~= a);
        assert(b.drop_last() =~= Seq::empty());
        assert(nodes_text(b.drop_last()) =~= Seq::empty());
    } else {
        nodes_law(a, b.drop_last());
    }
    assert(nodes_text(all) =~= nodes_text(a) + ",\n"@ + nodes_text(b));
    if a.len() == 1 {
        assert(a.drop_last() =~= Seq::empty());
        assert(nodes_text(a.drop_last()) =~= Seq::empty());
        assert(nodes_text(a) =~= "    "@ + node_text(a[0]));
    }
}

/// An outline is told with its path, how many lines there are, and its headings.
pub proof fn told_law(path: Seq<char>, count: usize, nodes: Seq<NodeView>)
    ensures
        has_prefix(
            outline_text(path, count, nodes),
            "{\n  \"path\": "@ + written(JsonView::Text(path)) + ",\n  \"line_count\": "@ + digits(
                count as nat,
            ) + ",\n  \"nodes\": ["@ + nodes_text(nodes),
        ),
        has_suffix(outline_text(path, count, nodes), "  ]\n}"@),
{
    reveal_strlit("{\n");
    reveal_strlit("  \"path\": ");
    reveal_strlit(",\n");
    reveal_strlit("  \"line_count\": ");
    reveal_strlit("  \"nodes\": [");
    reveal_strlit("  ]\n}");
    reveal_strlit("{\n  \"path\": ");
    reveal_strlit(",\n  \"line_count\": ");
    reveal_strlit(",\n  \"nodes\": [");
    let text = outline_text(path, count, nodes);
    let front = "{\n  \"path\": "@ + written(JsonView::Text(path)) + ",\n  \"line_count\": "@
        + digits(count as nat) + ",\n  \"nodes\": ["@ + nodes_text(nodes);
    assert(text.subrange(0, front.len() as int) =~= front);
    assert(text.subrange(text.len() - 5, text.len() as int) =~= "  ]\n}"@);
}

} // verus!
