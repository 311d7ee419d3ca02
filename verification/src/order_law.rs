//! What sorting leaves as it was.
use crate::order::{put, sorted};
use vstd::prelude::*;

verus! {

proof fn filter_push<A>(s: Seq<A>, x: A, kept: spec_fn(A) -> bool)
    ensures
        s.push(x).filter(kept) == if kept(x) {
            s.filter(kept).push(x)
        } else {
            s.filter(kept)
        },
{
    reveal(Seq::filter);
    assert(s.push(x).drop_last() =~= s);
}

proof fn put_keeps<A>(s: Seq<A>, x: A, before: spec_fn(A, A) -> bool, tied: spec_fn(A) -> bool)
    requires
        forall|a: A, b: A| tied(a) && tied(b) ==> !#[trigger] before(a, b),
    ensures
        put(s, x, before).filter(tied) == s.push(x).filter(tied),
    decreases s.len(),
{
    if s.len() > 0 && before(x, s.last()) {
        let front = s.drop_last();
        put_keeps(front, x, before, tied);
        filter_push(put(front, x, before), s.last(), tied);
        filter_push(front, x, tied);
        filter_push(front, s.last(), tied);
        filter_push(s, x, tied);
        assert(front.push(s.last()) =~= s);
    }
}

/// Items of which none comes before another stay in the order in which they stood.
pub proof fn stable_law<A>(s: Seq<A>, before: spec_fn(A, A) -> bool, tied: spec_fn(A) -> bool)
    requires
        forall|a: A, b: A| tied(a) && tied(b) ==> !#[trigger] before(a, b),
    ensures
        sorted(s, before).filter(tied) == s.filter(tied),
    decreases s.len(),
{
    if s.len() > 0 {
        let front = s.drop_last();
        let done = sorted(front, before);
        stable_law(front, before, tied);
        put_keeps(done, s.last(), before, tied);
        filter_push(done, s.last(), tied);
        filter_push(front, s.last(), tied);
        assert(front.push(s.last()) =~= s);
    }
}

} // verus!
