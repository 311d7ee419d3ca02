//! Stable sorting by a strict order.
use vstd::prelude::*;
use vstd::seq_lib::*;

verus! {

/// `x` put into `s`, behind all items that it does not come before.
pub open spec fn put<A>(s: Seq<A>, x: A, before: spec_fn(A, A) -> bool) -> Seq<A>
    decreases s.len(),
{
    if s.len() > 0 && before(x, s.last()) {
        put(s.drop_last(), x, before).push(s.last())
    } else {
        s.push(x)
    }
}

/// `s` in the order `before`; items of which neither comes before the other stay
/// in the order in which they stood.
pub open spec fn sorted<A>(s: Seq<A>, before: spec_fn(A, A) -> bool) -> Seq<A>
    decreases s.len(),
{
    if s.len() == 0 {
        s
    } else {
        put(sorted(s.drop_last(), before), s.last(), before)
    }
}

/// A strict order in which "neither comes first" is transitive.
pub open spec fn is_order<A>(before: spec_fn(A, A) -> bool) -> bool {
    &&& forall|a: A, b: A| #[trigger] before(a, b) ==> !before(b, a)
    &&& forall|a: A, b: A, c: A|
        #[trigger] before(a, c) ==> before(a, b) || #[trigger] before(b, c)
}

/// No item comes before one that stands in front of it.
pub open spec fn in_order<A>(s: Seq<A>, before: spec_fn(A, A) -> bool) -> bool {
    forall|i: int, j: int| 0 <= i < j < s.len() ==> !before(#[trigger] s[j], #[trigger] s[i])
}

proof fn put_items<A>(s: Seq<A>, x: A, before: spec_fn(A, A) -> bool)
    ensures
        put(s, x, before).len() == s.len() + 1,
        put(s, x, before).to_multiset() == s.to_multiset().insert(x),
        forall|i: int|
            0 <= i < s.len() + 1 ==> s.contains(#[trigger] put(s, x, before)[i]) || put(
                s,
                x,
                before,
            )[i] == x,
    decreases s.len(),
{
    broadcast use group_to_multiset_ensures;

    if s.len() > 0 && before(x, s.last()) {
        let rest = s.drop_last();
        put_items(rest, x, before);
        assert(s =~= rest.push(s.last()));
        let r = put(s, x, before);
        assert(r.to_multiset() =~= s.to_multiset().insert(x));
        assert forall|i: int| 0 <= i < s.len() + 1 implies s.contains(#[trigger] r[i]) || r[i]
            == x by {
            if i < s.len() {
                let inner = put(rest, x, before);
                assert(r[i] == inner[i]);
                if rest.contains(inner[i]) {
                    let k = choose|k: int| 0 <= k < rest.len() && rest[k] == inner[i];
                    assert(s[k] == inner[i]);
                }
            } else {
                assert(r[i] == s[s.len() - 1]);
            }
        }
    } else {
        let r = put(s, x, before);
        assert forall|i: int| 0 <= i < s.len() + 1 implies s.contains(#[trigger] r[i]) || r[i]
            == x by {
            if i < s.len() {
                assert(s[i] == r[i]);
            }
        }
    }
}

proof fn put_in_order<A>(s: Seq<A>, x: A, before: spec_fn(A, A) -> bool)
    requires
        is_order(before),
        in_order(s, before),
    ensures
        in_order(put(s, x, before), before),
    decreases s.len(),
{
    let r = put(s, x, before);
    if s.len() > 0 && before(x, s.last()) {
        let rest = s.drop_last();
        put_in_order(rest, x, before);
        put_items(rest, x, before);
        let inner = put(rest, x, before);
        assert forall|i: int, j: int| 0 <= i < j < r.len() implies !before(
            #[trigger] r[j],
            #[trigger] r[i],
        ) by {
            if j < inner.len() {
                assert(r[i] == inner[i] && r[j] == inner[j]);
            } else {
                assert(r[i] == inner[i]);
                assert(r[j] == s.last());
                if rest.contains(inner[i]) {
                    let k = choose|k: int| 0 <= k < rest.len() && rest[k] == inner[i];
                    assert(s[k] == inner[i]);
                    assert(!before(s[s.len() - 1], s[k]));
                } else {
                    assert(inner[i] == x);
                }
            }
        }
    } else {
        assert forall|i: int, j: int| 0 <= i < j < r.len() implies !before(
            #[trigger] r[j],
            #[trigger] r[i],
        ) by {
            if j == s.len() {
                assert(r[i] == s[i]);
                if before(x, s[i]) {
                    let last = s[s.len() - 1];
                    if i < s.len() - 1 {
                        assert(!before(last, s[i]));
                        assert(before(x, last) || before(last, s[i]));
                    }
                }
            } else {
                assert(r[i] == s[i] && r[j] == s[j]);
            }
        }
    }
}

/// What `sorted` gives has the same items, in order.
pub proof fn sorted_law<A>(s: Seq<A>, before: spec_fn(A, A) -> bool)
    requires
        is_order(before),
    ensures
        in_order(sorted(s, before), before),
        sorted(s, before).to_multiset() == s.to_multiset(),
        sorted(s, before).len() == s.len(),
    decreases s.len(),
{
    broadcast use group_to_multiset_ensures;

    if s.len() > 0 {
        let rest = s.drop_last();
        sorted_law(rest, before);
        put_in_order(sorted(rest, before), s.last(), before);
        put_items(sorted(rest, before), s.last(), before);
        assert(s =~= rest.push(s.last()));
    }
}

/// `items` in the order that `before` decides.
pub(crate) fn stable_sort<T: DeepView, F: Fn(&T, &T) -> bool>(
    items: Vec<T>,
    before: F,
    Ghost(order): Ghost<spec_fn(T::V, T::V) -> bool>,
) -> (result: Vec<T>)
    requires
        forall|a: &T, b: &T| #[trigger] before.requires((a, b)),
        forall|a: &T, b: &T, r: bool| #[trigger]
            before.ensures((a, b), r) ==> r == order(a.deep_view(), b.deep_view()),
    ensures
        result.deep_view() == sorted(items.deep_view(), order),
{
    let mut left = items;
    let ghost all = items.deep_view();
    let mut result: Vec<T> = Vec::new();
    let mut stack: Vec<T> = Vec::new();
    // Items are taken from the end, so they are turned round first.
    while left.len() > 0
        invariant
            left@.len() + stack@.len() == all.len(),
            forall|k: int| 0 <= k < left@.len() ==> (#[trigger] left@[k]).deep_view() == all[k],
            forall|k: int|
                0 <= k < stack@.len() ==> (#[trigger] stack@[k]).deep_view() == all[all.len() - 1
                    - k],
        decreases left@.len(),
    {
        match left.pop() {
            Some(item) => {
                stack.push(item);
            },
            None => {},
        }
    }
    assert(result.deep_view() =~= sorted(all.take(0), order));
    while stack.len() > 0
        invariant
            forall|a: &T, b: &T| #[trigger] before.requires((a, b)),
            forall|a: &T, b: &T, r: bool| #[trigger]
                before.ensures((a, b), r) ==> r == order(a.deep_view(), b.deep_view()),
            stack@.len() <= all.len(),
            forall|k: int|
                0 <= k < stack@.len() ==> (#[trigger] stack@[k]).deep_view() == all[all.len() - 1
                    - k],
            result.deep_view() == sorted(all.take(all.len() - stack@.len()), order),
        decreases stack@.len(),
    {
        let ghost n = all.len() - stack@.len();
        match stack.pop() {
            Some(item) => {
                let ghost x = item.deep_view();
                let ghost old_result = result.deep_view();
                let mut at: usize = result.len();
                assert(old_result.take(at as int) =~= old_result);
                assert(old_result.skip(at as int) =~= Seq::empty());
                assert(put(old_result, x, order) =~= put(old_result.take(at as int), x, order)
                    + old_result.skip(at as int));
                let mut moving = true;
                while moving && at > 0
                    invariant
                        forall|a: &T, b: &T| #[trigger] before.requires((a, b)),
                        forall|a: &T, b: &T, r: bool| #[trigger]
                            before.ensures((a, b), r) ==> r == order(a.deep_view(), b.deep_view()),
                        x == item.deep_view(),
                        at <= result@.len(),
                        old_result == result.deep_view(),
                        put(old_result, x, order) == put(old_result.take(at as int), x, order)
                            + old_result.skip(at as int),
                        !moving ==> at > 0 && !order(x, old_result[at - 1]),
                    decreases at, moving as int,
                {
                    if before(&item, &result[at - 1]) {
                        proof {
                            let s = old_result.take(at as int);
                            assert(s.last() == old_result[at - 1]);
                            assert(s.drop_last() =~= old_result.take(at - 1));
                            assert(put(s, x, order) + old_result.skip(at as int) =~= put(
                                old_result.take(at - 1),
                                x,
                                order,
                            ) + old_result.skip(at - 1));
                        }
                        at -= 1;
                    } else {
                        moving = false;
                    }
                }
                result.insert(at, item);
                proof {
                    let s = old_result.take(at as int);
                    if at > 0 {
                        assert(s.last() == old_result[at - 1]);
                    }
                    assert(put(s, x, order) == s.push(x));
                    assert(result.deep_view() =~= s.push(x) + old_result.skip(at as int));
                    let seen = all.take(n + 1);
                    assert(seen.drop_last() =~= all.take(n));
                    assert(seen.last() == x);
                }
            },
            None => {},
        }
    }
    assert(all.take(all.len() as int) =~= all);
    result
}

} // verus!
