//! What holds of the entries of objects.
use crate::json::{entry, enter_sorted, fields_of, map_entries, JsonView};
use crate::text::{less, less_is_total, less_is_transitive};
use vstd::prelude::*;

verus! {

/// What stands under a key is the first entry with that key.
pub proof fn entry_law(entries: Seq<(Seq<char>, JsonView)>, i: int)
    requires
        0 <= i < entries.len(),
        forall|k: int| 0 <= k < i ==> (#[trigger] entries[k]).0 != entries[i].0,
    ensures
        entry(entries, entries[i].0) == Some(entries[i].1),
    decreases i,
{
    if i > 0 {
        assert(entries[0].0 != entries[i].0);
        let rest = entries.skip(1);
        assert(rest[i - 1] == entries[i]);
        assert forall|k: int| 0 <= k < i - 1 implies (#[trigger] rest[k]).0 != rest[i - 1].0 by {
            assert(rest[k] == entries[k + 1]);
        }
        entry_law(rest, i - 1);
    }
}

/// Under a key without an entry stands nothing.
pub proof fn no_entry_law(entries: Seq<(Seq<char>, JsonView)>, key: Seq<char>)
    ensures
        entry(entries, key) is None <==> forall|i: int|
            0 <= i < entries.len() ==> (#[trigger] entries[i]).0 != key,
    decreases entries.len(),
{
    if entries.len() > 0 {
        let rest = entries.skip(1);
        no_entry_law(rest, key);
        if entries[0].0 != key {
            if entry(rest, key) is None {
                assert forall|i: int| 0 <= i < entries.len() implies (#[trigger] entries[i]).0
                    != key by {
                    if i > 0 {
                        assert(rest[i - 1] == entries[i]);
                    }
                }
            } else {
                let k = choose|k: int| 0 <= k < rest.len() && (#[trigger] rest[k]).0 == key;
                assert(entries[k + 1].0 == key);
            }
        }
    }
}

/// Of two lists of entries the first is asked first.
pub proof fn entries_law(
    a: Seq<(Seq<char>, JsonView)>,
    b: Seq<(Seq<char>, JsonView)>,
    key: Seq<char>,
)
    ensures
        entry(a + b, key) == match entry(a, key) {
            Some(value) => Some(value),
            None => entry(b, key),
        },
    decreases a.len(),
{
    if a.len() == 0 {
        assert(a + b =~= b);
    } else {
        assert((a + b).skip(1) =~= a.skip(1) + b);
        assert((a + b)[0] == a[0]);
        entries_law(a.skip(1), b, key);
    }
}

/// One entry stands under its own key.
pub proof fn one_entry_law(key: Seq<char>, value: JsonView, q: Seq<char>)
    ensures
        entry(seq![(key, value)], q) == if q == key {
            Some(value)
        } else {
            None
        },
        entry(Seq::empty(), q) is None,
{
    reveal_with_fuel(entry, 2);
    assert(seq![(key, value)].skip(1) =~= Seq::empty());
}

/// Keys in strict order.
pub open spec fn ascends(entries: Seq<(Seq<char>, JsonView)>) -> bool {
    forall|i: int, j: int|
        0 <= i < j < entries.len() ==> less((#[trigger] entries[i]).0, (#[trigger] entries[j]).0)
}

proof fn sorted_entry(entries: Seq<(Seq<char>, JsonView)>, key: Seq<char>, value: JsonView)
    requires
        ascends(entries),
    ensures
        ascends(enter_sorted(entries, key, value)),
        forall|q: Seq<char>| #[trigger]
            entry(enter_sorted(entries, key, value), q) == if q == key {
                Some(value)
            } else {
                entry(entries, q)
            },
        forall|i: int|
            0 <= i < enter_sorted(entries, key, value).len() ==> {
                let found = (#[trigger] enter_sorted(entries, key, value)[i]).0;
                found == key || exists|k: int|
                    0 <= k < entries.len() && (#[trigger] entries[k]).0 == found
            },
    decreases entries.len(),
{
    let done = enter_sorted(entries, key, value);
    if entries.len() == 0 {
        assert forall|q: Seq<char>| #[trigger] entry(done, q) == if q == key {
            Some(value)
        } else {
            entry(entries, q)
        } by {
            one_entry_law(key, value, q);
        }
    } else {
        let rest = entries.drop_last();
        let last = entries.last();
        assert(entries =~= rest + seq![last]);
        less_is_total(last.0, key);
        assert forall|i: int, j: int| 0 <= i < j < rest.len() implies less(
            (#[trigger] rest[i]).0,
            (#[trigger] rest[j]).0,
        ) by {
            assert(rest[i] == entries[i] && rest[j] == entries[j]);
        }
        if last.0 == key {
            assert(done =~= rest + seq![(key, value)]);
            assert forall|i: int, j: int| 0 <= i < j < done.len() implies less(
                (#[trigger] done[i]).0,
                (#[trigger] done[j]).0,
            ) by {
                assert(entries[i].0 == done[i].0 && entries[j].0 == done[j].0);
            }
            assert forall|q: Seq<char>| #[trigger] entry(done, q) == if q == key {
                Some(value)
            } else {
                entry(entries, q)
            } by {
                entries_law(rest, seq![(key, value)], q);
                entries_law(rest, seq![last], q);
                no_entry_law(rest, q);
                if q == key && entry(rest, q) is Some {
                    let k = choose|k: int| 0 <= k < rest.len() && (#[trigger] rest[k]).0 == key;
                    assert(less(entries[k].0, entries[entries.len() - 1].0));
                    less_is_total(key, key);
                }
                one_entry_law(key, value, q);
                one_entry_law(last.0, last.1, q);
                assert(seq![last] =~= seq![(last.0, last.1)]);
            }
            assert forall|i: int| 0 <= i < done.len() implies ({
                let found = (#[trigger] done[i]).0;
                found == key || exists|k: int|
                    0 <= k < entries.len() && (#[trigger] entries[k]).0 == found
            }) by {
                assert(entries[i].0 == done[i].0);
            }
        } else if less(last.0, key) {
            assert(done =~= entries + seq![(key, value)]);
            assert forall|i: int, j: int| 0 <= i < j < done.len() implies less(
                (#[trigger] done[i]).0,
                (#[trigger] done[j]).0,
            ) by {
                if j < entries.len() {
                    assert(entries[i] == done[i] && entries[j] == done[j]);
                } else if i < entries.len() - 1 {
                    assert(less(entries[i].0, entries[entries.len() - 1].0));
                    less_is_transitive(entries[i].0, last.0, key);
                }
            }
            assert forall|q: Seq<char>| #[trigger] entry(done, q) == if q == key {
                Some(value)
            } else {
                entry(entries, q)
            } by {
                entries_law(entries, seq![(key, value)], q);
                no_entry_law(entries, q);
                if q == key && entry(entries, q) is Some {
                    let k = choose|k: int|
                        0 <= k < entries.len() && (#[trigger] entries[k]).0 == key;
                    if k < entries.len() - 1 {
                        assert(less(entries[k].0, entries[entries.len() - 1].0));
                        less_is_total(key, last.0);
                    }
                }
                one_entry_law(key, value, q);
            }
            assert forall|i: int| 0 <= i < done.len() implies ({
                let found = (#[trigger] done[i]).0;
                found == key || exists|k: int|
                    0 <= k < entries.len() && (#[trigger] entries[k]).0 == found
            }) by {
                if i < entries.len() {
                    assert(entries[i].0 == done[i].0);
                }
            }
        } else {
            sorted_entry(rest, key, value);
            let inner = enter_sorted(rest, key, value);
            assert(done =~= inner + seq![last]);
            assert forall|i: int, j: int| 0 <= i < j < done.len() implies less(
                (#[trigger] done[i]).0,
                (#[trigger] done[j]).0,
            ) by {
                if j < inner.len() {
                    assert(inner[i] == done[i] && inner[j] == done[j]);
                } else {
                    let found = inner[i].0;
                    assert(done[i].0 == found);
                    if found != key {
                        let k = choose|k: int|
                            0 <= k < rest.len() && (#[trigger] rest[k]).0 == found;
                        assert(less(entries[k].0, entries[entries.len() - 1].0));
                    }
                }
            }
            assert forall|q: Seq<char>| #[trigger] entry(done, q) == if q == key {
                Some(value)
            } else {
                entry(entries, q)
            } by {
                entries_law(inner, seq![last], q);
                entries_law(rest, seq![last], q);
                assert(entry(inner, q) == if q == key {
                    Some(value)
                } else {
                    entry(rest, q)
                });
            }
            assert forall|i: int| 0 <= i < done.len() implies ({
                let found = (#[trigger] done[i]).0;
                found == key || exists|k: int|
                    0 <= k < entries.len() && (#[trigger] entries[k]).0 == found
            }) by {
                if i < inner.len() {
                    assert(done[i] == inner[i]);
                    if inner[i].0 != key {
                        let k = choose|k: int|
                            0 <= k < rest.len() && (#[trigger] rest[k]).0 == inner[i].0;
                        assert(entries[k].0 == inner[i].0);
                    }
                } else {
                    assert(entries[entries.len() - 1].0 == done[i].0);
                }
            }
        }
    }
}

proof fn map_step(entries: Seq<(Seq<char>, JsonView)>)
    requires
        entries.len() > 0,
        ascends(map_entries(entries.drop_last())),
    ensures
        ascends(map_entries(entries)),
        forall|q: Seq<char>| #[trigger]
            entry(map_entries(entries), q) == if q == entries.last().0 {
                Some(entries.last().1)
            } else {
                entry(map_entries(entries.drop_last()), q)
            },
{
    reveal(map_entries);
    sorted_entry(map_entries(entries.drop_last()), entries.last().0, entries.last().1);
}

proof fn map_ascends(entries: Seq<(Seq<char>, JsonView)>)
    ensures
        ascends(map_entries(entries)),
    decreases entries.len(),
{
    if entries.len() > 0 {
        map_ascends(entries.drop_last());
        map_step(entries);
    } else {
        reveal(map_entries);
    }
}

/// A map holds under each key what came last for it, in the order of the keys.
pub proof fn map_law(entries: Seq<(Seq<char>, JsonView)>, i: int)
    requires
        0 <= i < entries.len(),
        forall|k: int| i < k < entries.len() ==> (#[trigger] entries[k]).0 != entries[i].0,
    ensures
        ascends(map_entries(entries)),
        entry(map_entries(entries), entries[i].0) == Some(entries[i].1),
    decreases entries.len(),
{
    map_ascends(entries);
    map_ascends(entries.drop_last());
    map_step(entries);
    if i < entries.len() - 1 {
        let rest = entries.drop_last();
        assert(entries[entries.len() - 1].0 != entries[i].0);
        assert forall|k: int| i < k < rest.len() implies (#[trigger] rest[k]).0 != rest[i].0 by {
            assert(rest[k] == entries[k]);
        }
        map_law(rest, i);
    }
}

/// A map holds nothing under a key that nothing came for.
pub proof fn map_miss_law(entries: Seq<(Seq<char>, JsonView)>, key: Seq<char>)
    requires
        forall|k: int| 0 <= k < entries.len() ==> (#[trigger] entries[k]).0 != key,
    ensures
        entry(map_entries(entries), key) is None,
    decreases entries.len(),
{
    if entries.len() > 0 {
        let rest = entries.drop_last();
        map_ascends(rest);
        map_step(entries);
        assert(entries[entries.len() - 1].0 != key);
        assert forall|k: int| 0 <= k < rest.len() implies (#[trigger] rest[k]).0 != key by {
            assert(rest[k] == entries[k]);
        }
        map_miss_law(rest, key);
    } else {
        reveal(map_entries);
    }
}

/// A list of fields goes by their names, each in its place, and an object stays as it is.
pub proof fn fields_law(value: JsonView, names: Seq<Seq<char>>, needed: nat, i: int)
    requires
        forall|a: int, b: int| 0 <= a < b < names.len() ==> names[a] != names[b],
    ensures
        value is Object ==> fields_of(value, names, needed) == value,
        value is Array && needed <= value->Array_0.len() <= names.len() && 0 <= i
            < value->Array_0.len() ==> fields_of(value, names, needed).get(names[i]) == Some(
            value->Array_0[i],
        ),
{
    if value is Array && needed <= value->Array_0.len() <= names.len() && 0 <= i
        < value->Array_0.len() {
        entry_law(fields_of(value, names, needed)->Object_0, i);
    }
}

} // verus!
