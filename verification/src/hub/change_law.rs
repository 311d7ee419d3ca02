//! What holds of a client that follows the changes: what each does to what it has.
use super::model::append_field;
use super::queue::queued_in;
use super::replay::{apply_change, position};
use super::state::{BlockView, ChangeView, SnapshotView};
use crate::tables::shifted;
use vstd::prelude::*;
use vstd::string::*;

verus! {

proof fn position_from(blocks: Seq<BlockView>, id: Seq<char>, from: int)
    requires
        0 <= from <= blocks.len(),
    ensures
        ({
            let i = position(blocks, id, from);
            &&& from <= i <= blocks.len()
            &&& i < blocks.len() ==> blocks[i].id == id
            &&& forall|k: int| from <= k < i ==> (#[trigger] blocks[k]).id != id
        }),
    decreases blocks.len() - from,
{
    if from < blocks.len() && blocks[from].id != id {
        position_from(blocks, id, from + 1);
    }
}

/// A block is found by its id, the first that bears it.
pub proof fn position_law(blocks: Seq<BlockView>, id: Seq<char>)
    ensures
        ({
            let i = position(blocks, id, 0);
            &&& 0 <= i <= blocks.len()
            &&& i < blocks.len() ==> blocks[i].id == id
            &&& forall|k: int| 0 <= k < i ==> (#[trigger] blocks[k]).id != id
        }),
{
    position_from(blocks, id, 0);
}

/// A block that comes in stands in front of the one that is named, and at the end where none
/// is.
pub proof fn inserted_law(
    seen: SnapshotView,
    a: Seq<BlockView>,
    b: Seq<BlockView>,
    block: BlockView,
)
    requires
        seen.blocks == a + b,
        b.len() > 0,
        forall|k: int| 0 <= k < a.len() ==> (#[trigger] a[k]).id != b[0].id,
    ensures
        apply_change(seen, ChangeView::Insert { before: Some(b[0].id), block }) == (SnapshotView {
            blocks: a + seq![block] + b,
            ..seen
        }),
        apply_change(seen, ChangeView::Insert { before: None, block }) == (SnapshotView {
            blocks: seen.blocks.push(block),
            ..seen
        }),
{
    let all = a + b;
    let n = a.len() as int;
    position_law(all, b[0].id);
    let i = position(all, b[0].id, 0);
    assert(all[n] == b[0]);
    if i < n {
        assert(all[i] == a[i]);
    }
    assert(i == n);
    assert(all.insert(n, block) =~= a + seq![block] + b);
    assert(all.insert(all.len() as int, block) =~= all.push(block));
}

/// A block that is replaced, or that text is added to, is the one with its id; all others
/// stay.
pub proof fn replaced_law(
    seen: SnapshotView,
    a: Seq<BlockView>,
    old_block: BlockView,
    b: Seq<BlockView>,
    block: BlockView,
    field: Seq<char>,
    text: Seq<char>,
)
    requires
        seen.blocks == a + seq![old_block] + b,
        old_block.id == block.id,
        forall|k: int| 0 <= k < a.len() ==> (#[trigger] a[k]).id != block.id,
    ensures
        apply_change(seen, ChangeView::Replace { block }) == (SnapshotView {
            blocks: a + seq![block] + b,
            ..seen
        }),
        apply_change(seen, ChangeView::Append { block_id: block.id, field, text }) == (
        SnapshotView { blocks: a + seq![append_field(old_block, field, text)] + b, ..seen }),
{
    let all = a + seq![old_block] + b;
    let n = a.len() as int;
    position_law(all, block.id);
    let i = position(all, block.id, 0);
    assert(all[n] == old_block);
    if i < n {
        assert(all[i] == a[i]);
    }
    assert(i == n);
    assert(all.update(n, block) =~= a + seq![block] + b);
    let longer = append_field(old_block, field, text);
    assert(all.update(n, longer) =~= a + seq![longer] + b);
}

/// Text is added to what a block says, to what its call is given or to what its tool gave, as
/// is said, and to nothing else.
pub proof fn added_law(block: BlockView, text: Seq<char>)
    ensures
        append_field(block, "content"@, text).content == block.content + text,
        append_field(block, "content"@, text).tool == block.tool,
        append_field(block, "arguments"@, text).content == block.content,
        append_field(block, "output"@, text).content == block.content,
        block.tool is Some ==> {
            let arguments = append_field(block, "arguments"@, text).tool;
            let output = append_field(block, "output"@, text).tool;
            &&& arguments is Some
            &&& arguments->0.arguments == block.tool->0.arguments + text
            &&& arguments->0.output == block.tool->0.output
            &&& output is Some
            &&& output->0.arguments == block.tool->0.arguments
            &&& block.tool->0.output is Some ==> output->0.output == Some(
                block.tool->0.output->0 + text,
            )
            &&& block.tool->0.output is None ==> output->0.output == Some(text)
        },
        append_field(block, "content"@, text).id == block.id,
        append_field(block, "arguments"@, text).id == block.id,
        append_field(block, "output"@, text).id == block.id,
{
    reveal_strlit("content");
    reveal_strlit("arguments");
    reveal_strlit("output");
    assert("content"@.len() != "arguments"@.len());
    assert("content"@.len() != "output"@.len());
    assert("arguments"@.len() != "output"@.len());
}

/// State, plan and project are what they are said to be, each by itself.
pub proof fn told_anew_law(seen: SnapshotView, change: ChangeView)
    ensures
        change is State ==> apply_change(seen, change) == (SnapshotView {
            state: change->state,
            ..seen
        }),
        change is Plan ==> apply_change(seen, change) == (SnapshotView {
            plan: change->plan,
            ..seen
        }),
        change is Project ==> apply_change(seen, change) == (SnapshotView {
            project: change->project,
            ..seen
        }),
{
}

/// What is found by its place is found again behind a block that comes in.
pub proof fn shifted_law(blocks: Seq<BlockView>, at: usize, block: BlockView, i: usize)
    requires
        at <= blocks.len() < usize::MAX,
        i < blocks.len(),
    ensures
        blocks.insert(at as int, block)[shifted(i, at) as int] == blocks[i as int],
{
}

/// The messages that wait are counted one by one.
pub proof fn queued_law(a: Seq<BlockView>, b: Seq<BlockView>, block: BlockView)
    ensures
        queued_in(a + b) == queued_in(a) + queued_in(b),
        block.queued ==> queued_in(seq![block]) == 1,
        !block.queued ==> queued_in(seq![block]) == 0,
    decreases b.len(),
{
    if b.len() == 0 {
        assert(a + b =~= a);
    } else {
        assert((a + b).drop_last() =~= a + b.drop_last());
        queued_law(a, b.drop_last(), block);
    }
    assert(seq![block].drop_last() =~= Seq::empty());
    assert(queued_in(seq![block].drop_last()) == 0);
}

} // verus!
