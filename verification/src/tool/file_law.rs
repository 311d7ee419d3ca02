//! What holds of the tools that work on files, and of plans.
use super::builtin::{
    count_active, count_from, diff_of, has_blank, hits_in, hits_in_files, kept_paths, listing,
    mime_of, plan_fault, replaced, tidy_plan, unified, with_slashes,
};
use super::{PlanStatus, PlanStepView, PlanView};
use crate::order;
use crate::text;
use crate::text::{
    digits, find_from, find_from_is_first, has_text, join, less, lines, lower, occurs_at, trim,
};
use vstd::prelude::*;
use vstd::seq_lib::*;
use vstd::string::*;

verus! {

// ---------------------------------------------------------------------------
// Edits
// ---------------------------------------------------------------------------

/// An edit takes the place of the old text and of nothing else: what stands before and
/// behind it stays, whatever the new text is, and the place is the first one.
pub proof fn edit_law(content: Seq<char>, old_text: Seq<char>, new_text: Seq<char>)
    requires
        count_from(content, old_text, 0) == 1,
    ensures
        exists|head: Seq<char>, tail: Seq<char>|
            {
                &&& content == #[trigger] (head + old_text + tail)
                &&& replaced(content, old_text, new_text) == head + new_text + tail
                &&& forall|k: int| 0 <= k < head.len() ==> !occurs_at(content, old_text, k)
            },
        replaced(content, old_text, new_text).len() == content.len() - old_text.len()
            + new_text.len(),
        new_text == old_text ==> replaced(content, old_text, new_text) == content,
{
    find_from_is_first(content, old_text, 0);
    let i = find_from(content, old_text, 0);
    let head = content.take(i);
    let tail = content.skip(i + old_text.len());
    assert(content.subrange(i, i + old_text.len()) == old_text);
    assert(content =~= head + old_text + tail);
    assert(replaced(content, old_text, new_text) == head + new_text + tail);
}

/// An edit is made just where the old text is met once: it is not where the text is not
/// there or is met again behind its end, and it is where it stands in one place only.
pub proof fn match_law(content: Seq<char>, old_text: Seq<char>)
    ensures
        count_from(content, old_text, 0) == 0 <==> !has_text(content, old_text),
        forall|i: int, j: int|
            old_text.len() > 0 && i + old_text.len() <= j && #[trigger] occurs_at(
                content,
                old_text,
                i,
            ) && #[trigger] occurs_at(content, old_text, j) ==> count_from(content, old_text, 0)
                >= 2,
        old_text.len() > 0 && (exists|i: int| #[trigger]
            occurs_at(content, old_text, i) && forall|j: int| #[trigger]
                occurs_at(content, old_text, j) ==> j == i) ==> count_from(content, old_text, 0)
            == 1,
{
    find_from_is_first(content, old_text, 0);
    let first = find_from(content, old_text, 0);
    if has_text(content, old_text) {
        let i = choose|i: int| occurs_at(content, old_text, i);
        assert(0 <= i);
        assert(first != -1);
    } else {
        assert(!occurs_at(content, old_text, first));
    }
    assert forall|i: int, j: int|
        old_text.len() > 0 && i + old_text.len() <= j && #[trigger] occurs_at(content, old_text, i)
            && #[trigger] occurs_at(content, old_text, j) implies count_from(content, old_text, 0)
        >= 2 by {
        assert(first <= i);
        let next = first + old_text.len();
        find_from_is_first(content, old_text, next);
        assert(next <= j);
        assert(find_from(content, old_text, next) != -1);
        assert(count_from(content, old_text, next) >= 1);
    }
    if old_text.len() > 0 && (exists|i: int| #[trigger]
        occurs_at(content, old_text, i) && forall|j: int| #[trigger]
            occurs_at(content, old_text, j) ==> j == i) {
        let next = first + old_text.len();
        find_from_is_first(content, old_text, next);
        let again = find_from(content, old_text, next);
        if again != -1 {
            assert(occurs_at(content, old_text, again));
            assert(occurs_at(content, old_text, first));
            assert(again == first);
        }
        assert(count_from(content, old_text, next) == 0);
    }
}

/// A difference is told just where there is one, between what was and what is, under the
/// name of the file.
pub proof fn diff_law(path: Seq<char>, before: Option<Seq<char>>, after: Seq<char>)
    ensures
        diff_of(path, before, after) is None <==> before == Some(after),
        before is Some && before->0 != after ==> diff_of(path, before, after) == Some(
            unified(before->0, after, "a/"@ + path, "b/"@ + path),
        ),
        before is None ==> diff_of(path, before, after) == Some(
            unified(Seq::empty(), after, "/dev/null"@, "b/"@ + path),
        ),
{
}

// ---------------------------------------------------------------------------
// Searches
// ---------------------------------------------------------------------------

/// The line with the number `place.1`, counted from one, in the file at `place.0`.
pub open spec fn line_at(files: Seq<(Seq<char>, Seq<char>)>, place: (int, int)) -> Seq<char> {
    lines(files[place.0].1)[place.1 - 1]
}

/// Whether there is a line at a place, and the expression matches it.
pub open spec fn is_hit(
    files: Seq<(Seq<char>, Seq<char>)>,
    found: Set<Seq<char>>,
    place: (int, int),
) -> bool {
    &&& 0 <= place.0 < files.len()
    &&& 1 <= place.1 <= lines(files[place.0].1).len()
    &&& found.contains(line_at(files, place))
}

/// A place in a file before, or in an earlier file.
pub open spec fn comes_first(a: (int, int), b: (int, int)) -> bool {
    a.0 < b.0 || (a.0 == b.0 && a.1 < b.1)
}

/// What is told of a place: the name of its file, the number of its line, and the line.
pub open spec fn tells(files: Seq<(Seq<char>, Seq<char>)>, place: (int, int), told: Seq<char>) -> bool {
    told == files[place.0].0 + ":"@ + digits(place.1 as nat) + ":"@ + line_at(files, place) + "\n"@
}

spec fn places_in(
    files: Seq<(Seq<char>, Seq<char>)>,
    found: Set<Seq<char>>,
    f: int,
    n: int,
) -> Seq<(int, int)>
    decreases n,
{
    if n <= 0 {
        Seq::empty()
    } else if found.contains(lines(files[f].1)[n - 1]) {
        places_in(files, found, f, n - 1).push((f, n))
    } else {
        places_in(files, found, f, n - 1)
    }
}

spec fn all_places(files: Seq<(Seq<char>, Seq<char>)>, found: Set<Seq<char>>, m: int) -> Seq<
    (int, int),
>
    decreases m,
{
    if m <= 0 {
        Seq::empty()
    } else {
        all_places(files, found, m - 1) + places_in(
            files,
            found,
            m - 1,
            lines(files[m - 1].1).len() as int,
        )
    }
}

spec fn told_of(files: Seq<(Seq<char>, Seq<char>)>) -> spec_fn((int, int)) -> Seq<char> {
    |p: (int, int)|
        files[p.0].0 + ":"@ + digits(p.1 as nat) + ":"@ + line_at(files, p) + "\n"@
}

proof fn file_told(files: Seq<(Seq<char>, Seq<char>)>, found: Set<Seq<char>>, f: int, n: int)
    requires
        0 <= f < files.len(),
        n <= lines(files[f].1).len(),
    ensures
        hits_in(files[f].0, lines(files[f].1), found, n) == places_in(files, found, f, n).map_values(
            told_of(files),
        ).flatten(),
    decreases n,
{
    let g = told_of(files);
    if n <= 0 {
        assert(places_in(files, found, f, n).map_values(g).len() == 0);
    } else {
        file_told(files, found, f, n - 1);
        let before = places_in(files, found, f, n - 1);
        if found.contains(lines(files[f].1)[n - 1]) {
            assert(before.push((f, n)).map_values(g) =~= before.map_values(g).push(g((f, n))));
            before.map_values(g).lemma_flatten_push(g((f, n)));
            assert(g((f, n)) == files[f].0 + ":"@ + digits(n as nat) + ":"@ + lines(
                files[f].1,
            )[n - 1] + "\n"@);
        } else {
            assert(hits_in(files[f].0, lines(files[f].1), found, n - 1) + Seq::<char>::empty()
                =~= hits_in(files[f].0, lines(files[f].1), found, n - 1));
        }
    }
}

proof fn files_told(files: Seq<(Seq<char>, Seq<char>)>, found: Set<Seq<char>>, m: int)
    requires
        0 <= m <= files.len(),
    ensures
        hits_in_files(files.take(m), found) == all_places(files, found, m).map_values(
            told_of(files),
        ).flatten(),
    decreases m,
{
    let g = told_of(files);
    if m == 0 {
        assert(all_places(files, found, m).map_values(g).len() == 0);
    } else {
        files_told(files, found, m - 1);
        assert(files.take(m).drop_last() =~= files.take(m - 1));
        assert(files.take(m).last() == files[m - 1]);
        let n = lines(files[m - 1].1).len() as int;
        file_told(files, found, m - 1, n);
        let a = all_places(files, found, m - 1);
        let b = places_in(files, found, m - 1, n);
        assert((a + b).map_values(g) =~= a.map_values(g) + b.map_values(g));
        lemma_flatten_concat(a.map_values(g), b.map_values(g));
    }
}

proof fn places_in_file(files: Seq<(Seq<char>, Seq<char>)>, found: Set<Seq<char>>, f: int, n: int)
    requires
        0 <= f < files.len(),
        n <= lines(files[f].1).len(),
    ensures
        ({
            let all = places_in(files, found, f, n);
            &&& forall|i: int|
                0 <= i < all.len() ==> is_hit(files, found, #[trigger] all[i]) && all[i].0 == f
                    && all[i].1 <= n
            &&& forall|i: int, j: int|
                0 <= i < j < all.len() ==> (#[trigger] all[i]).1 < (#[trigger] all[j]).1
            &&& forall|k: int|
                1 <= k <= n && is_hit(files, found, (f, k)) ==> #[trigger] all.contains((f, k))
        }),
    decreases n,
{
    if n > 0 {
        places_in_file(files, found, f, n - 1);
        let before = places_in(files, found, f, n - 1);
        let all = places_in(files, found, f, n);
        assert forall|k: int| 1 <= k <= n
            && is_hit(files, found, (f, k)) implies #[trigger] all.contains(
            (f, k),
        ) by {
            if k < n {
                assert(before.contains((f, k)));
                let i = choose|i: int| 0 <= i < before.len() && before[i] == (f, k);
                assert(all[i] == (f, k));
            } else {
                assert(all[all.len() - 1] == (f, k));
            }
        }
    }
}

proof fn places_in_files(files: Seq<(Seq<char>, Seq<char>)>, found: Set<Seq<char>>, m: int)
    requires
        0 <= m <= files.len(),
    ensures
        ({
            let all = all_places(files, found, m);
            &&& forall|i: int|
                0 <= i < all.len() ==> is_hit(files, found, #[trigger] all[i]) && all[i].0 < m
            &&& forall|i: int, j: int|
                0 <= i < j < all.len() ==> comes_first(#[trigger] all[i], #[trigger] all[j])
            &&& forall|place: (int, int)|
                place.0 < m && is_hit(files, found, place) ==> #[trigger] all.contains(place)
        }),
    decreases m,
{
    if m > 0 {
        places_in_files(files, found, m - 1);
        let n = lines(files[m - 1].1).len() as int;
        places_in_file(files, found, m - 1, n);
        let a = all_places(files, found, m - 1);
        let b = places_in(files, found, m - 1, n);
        let all = all_places(files, found, m);
        assert forall|i: int| 0 <= i < all.len() implies is_hit(files, found, #[trigger] all[i])
            && all[i].0 < m by {
            if i < a.len() {
                assert(all[i] == a[i]);
            } else {
                assert(all[i] == b[i - a.len()]);
            }
        }
        assert forall|i: int, j: int| 0 <= i < j < all.len() implies comes_first(
            #[trigger] all[i],
            #[trigger] all[j],
        ) by {
            if j < a.len() {
                assert(all[i] == a[i] && all[j] == a[j]);
            } else if i < a.len() {
                assert(all[i] == a[i] && all[j] == b[j - a.len()]);
            } else {
                assert(all[i] == b[i - a.len()] && all[j] == b[j - a.len()]);
            }
        }
        assert forall|place: (int, int)| place.0 < m && is_hit(files, found, place) implies
            #[trigger] all.contains(place) by {
            if place.0 < m - 1 {
                assert(a.contains(place));
                let i = choose|i: int| 0 <= i < a.len() && a[i] == place;
                assert(all[i] == place);
            } else {
                assert(place == (m - 1, place.1));
                assert(b.contains((m - 1, place.1)));
                let i = choose|i: int| 0 <= i < b.len() && b[i] == place;
                assert(all[a.len() + i] == place);
            }
        }
    }
}

/// A search tells each line that matches, and no other, in the order of the files and of
/// the lines, under the name of its file and its number counted from one.
pub proof fn search_law(files: Seq<(Seq<char>, Seq<char>)>, found: Set<Seq<char>>)
    ensures
        exists|places: Seq<(int, int)>, told: Seq<Seq<char>>|
            {
                &&& hits_in_files(files, found) == #[trigger] told.flatten()
                &&& told.len() == #[trigger] places.len()
                &&& forall|i: int|
                    0 <= i < places.len() ==> is_hit(files, found, #[trigger] places[i]) && tells(
                        files,
                        places[i],
                        told[i],
                    )
                &&& forall|i: int, j: int|
                    0 <= i < j < places.len() ==> comes_first(
                        #[trigger] places[i],
                        #[trigger] places[j],
                    )
                &&& forall|place: (int, int)|
                    is_hit(files, found, place) ==> #[trigger] places.contains(place)
            },
{
    let places = all_places(files, found, files.len() as int);
    let told = places.map_values(told_of(files));
    files_told(files, found, files.len() as int);
    places_in_files(files, found, files.len() as int);
    assert(files.take(files.len() as int) =~= files);
    assert(hits_in_files(files, found) == told.flatten());
    assert(told.len() == places.len());
}

// ---------------------------------------------------------------------------
// Lists of files
// ---------------------------------------------------------------------------

proof fn kept_law(paths: Seq<Seq<char>>, keep: Seq<bool>)
    requires
        keep.len() == paths.len(),
    ensures
        forall|i: int|
            0 <= i < paths.len()
                && keep[i] ==> kept_paths(paths, keep).contains(#[trigger] paths[i]),
        forall|path: Seq<char>| #[trigger]
            kept_paths(paths, keep).contains(path) ==> exists|i: int|
                0 <= i < paths.len() && keep[i] && #[trigger] paths[i] == path,
        (forall|i: int| 0 <= i < keep.len() ==> keep[i]) ==> kept_paths(paths, keep) == paths,
    decreases paths.len(),
{
    if paths.len() > 0 {
        let before = paths.drop_last();
        let kept = keep.take(paths.len() - 1);
        kept_law(before, kept);
        let rest = kept_paths(before, kept);
        let all = kept_paths(paths, keep);
        assert forall|i: int| 0 <= i < paths.len() && keep[i] implies all.contains(
            #[trigger] paths[i],
        ) by {
            if i < before.len() {
                assert(before[i] == paths[i] && kept[i]);
                let k = choose|k: int| 0 <= k < rest.len() && rest[k] == paths[i];
                assert(all[k] == paths[i]);
            } else {
                assert(all[all.len() - 1] == paths[i]);
            }
        }
        assert forall|path: Seq<char>| #[trigger] all.contains(path) implies exists|i: int|
            0 <= i < paths.len() && keep[i] && #[trigger] paths[i] == path by {
            let k = choose|k: int| 0 <= k < all.len() && all[k] == path;
            if k < rest.len() {
                assert(rest[k] == path);
                assert(rest.contains(path));
                let i = choose|i: int|
                    0 <= i < before.len() && kept[i] && #[trigger] before[i] == path;
                assert(keep[i] && paths[i] == path);
            } else {
                assert(paths[paths.len() - 1] == path);
            }
        }
        if forall|i: int| 0 <= i < keep.len() ==> keep[i] {
            assert forall|i: int| 0 <= i < kept.len() implies kept[i] by {
                assert(keep[i]);
            }
            assert(keep[paths.len() - 1]);
            assert(rest.push(paths.last()) =~= paths);
        }
    }
}

proof fn less_is_order()
    ensures
        order::is_order(|a: Seq<char>, b: Seq<char>| less(a, b)),
{
    let before = |a: Seq<char>, b: Seq<char>| less(a, b);
    assert forall|a: Seq<char>, b: Seq<char>| #[trigger] before(a, b) implies !before(b, a) by {
        text::less_is_total(a, b);
    }
    assert forall|a: Seq<char>, b: Seq<char>, c: Seq<char>|
        #[trigger] before(a, c) implies before(a, b) || #[trigger] before(b, c) by {
        text::less_is_total(a, b);
        text::less_is_total(b, c);
        if less(b, a) {
            text::less_is_transitive(b, a, c);
        }
    }
}

/// A list of files tells the paths that are kept, and no other, in order, with a line feed
/// between neighbours.
pub proof fn list_law(paths: Seq<Seq<char>>, keep: Seq<bool>)
    requires
        keep.len() == paths.len(),
    ensures
        exists|names: Seq<Seq<char>>|
            {
                &&& listing(paths, keep) == #[trigger] join(names, "\n"@)
                &&& forall|i: int, j: int|
                    0 <= i < j < names.len() ==> !less(#[trigger] names[j], #[trigger] names[i])
                &&& forall|i: int|
                    0 <= i < paths.len() && keep[i] ==> names.contains(#[trigger] paths[i])
                &&& forall|k: int|
                    0 <= k < names.len() ==> exists|i: int|
                        0 <= i < paths.len() && keep[i] && #[trigger] paths[i]
                            == #[trigger] names[k]
                &&& (forall|i: int| 0 <= i < keep.len() ==> keep[i]) ==> names.to_multiset()
                    == paths.to_multiset()
            },
{
    broadcast use group_to_multiset_ensures;

    let before = |a: Seq<char>, b: Seq<char>| less(a, b);
    let kept = kept_paths(paths, keep);
    let names = order::sorted(kept, before);
    less_is_order();
    order::sorted_law(kept, before);
    kept_law(paths, keep);
    assert(listing(paths, keep) == join(names, "\n"@));
    assert forall|i: int, j: int| 0 <= i < j < names.len() implies !less(
        #[trigger] names[j],
        #[trigger] names[i],
    ) by {
        assert(!before(names[j], names[i]));
    }
    assert forall|i: int| 0 <= i < paths.len() && keep[i] implies names.contains(
        #[trigger] paths[i],
    ) by {
        assert(kept.contains(paths[i]));
        assert(kept.to_multiset().count(paths[i]) > 0);
        assert(names.to_multiset().count(paths[i]) > 0);
    }
    assert forall|k: int| 0 <= k < names.len() implies exists|i: int|
        0 <= i < paths.len() && keep[i] && #[trigger] paths[i] == #[trigger] names[k] by {
        assert(names.to_multiset().count(names[k]) > 0);
        assert(kept.to_multiset().count(names[k]) > 0);
        assert(kept.contains(names[k]));
    }
}

/// Other characters of a path stay, and no separator is left but the slash.
pub proof fn slash_law(path: Seq<char>, separator: char)
    ensures
        with_slashes(path, separator).len() == path.len(),
        forall|i: int|
            0 <= i < path.len() ==> if path[i] == separator {
                #[trigger] with_slashes(path, separator)[i] == '/'
            } else {
                with_slashes(path, separator)[i] == path[i]
            },
        separator != '/' ==> !with_slashes(path, separator).contains(separator),
{
}

// ---------------------------------------------------------------------------
// Images
// ---------------------------------------------------------------------------

/// The type of an image goes by the ending of its name, in capital or in small letters, and
/// an image has a type just where its ending is known.
pub proof fn mime_law(extension: Seq<char>)
    ensures
        mime_of(extension) is Some <==> lower(extension) == "png"@ || lower(extension) == "jpg"@
            || lower(extension) == "jpeg"@ || lower(extension) == "gif"@ || lower(extension)
            == "webp"@,
        mime_of(extension) is Some && lower(extension) != "jpg"@ ==> mime_of(extension) == Some(
            "image/"@ + lower(extension),
        ),
        lower(extension) == "jpg"@ ==> mime_of(extension) == Some("image/jpeg"@),
        mime_of(lower(extension)) == mime_of(extension),
{
    crate::text_law::lower_law(extension);
    reveal_strlit("png");
    reveal_strlit("jpg");
    reveal_strlit("jpeg");
    reveal_strlit("gif");
    reveal_strlit("webp");
    reveal_strlit("image/");
    reveal_strlit("image/png");
    reveal_strlit("image/jpeg");
    reveal_strlit("image/gif");
    reveal_strlit("image/webp");
    assert("image/"@ + "png"@ =~= "image/png"@);
    assert("image/"@ + "jpeg"@ =~= "image/jpeg"@);
    assert("image/"@ + "gif"@ =~= "image/gif"@);
    assert("image/"@ + "webp"@ =~= "image/webp"@);
    assert("jpg"@[0] != "png"@[0]);
    assert("jpg"@[0] != "gif"@[0]);
    assert("jpg"@.len() != "jpeg"@.len());
}

// ---------------------------------------------------------------------------
// Plans
// ---------------------------------------------------------------------------

proof fn active_bound(steps: Seq<PlanStepView>)
    ensures
        count_active(steps) == 0 <==> forall|i: int|
            0 <= i < steps.len() ==> (#[trigger] steps[i]).status != PlanStatus::InProgress,
        count_active(steps) <= 1 <==> forall|i: int, j: int|
            0 <= i < j < steps.len() ==> !((#[trigger] steps[i]).status == PlanStatus::InProgress
                && (
            #[trigger] steps[j]).status == PlanStatus::InProgress),
    decreases steps.len(),
{
    if steps.len() > 0 {
        let rest = steps.drop_last();
        active_bound(rest);
        let n = steps.len() - 1;
        if count_active(steps) == 0 {
            assert forall|i: int| 0 <= i < steps.len() implies (#[trigger] steps[i]).status
                != PlanStatus::InProgress by {
                if i < n {
                    assert(rest[i] == steps[i]);
                }
            }
        } else if forall|i: int|
            0 <= i < steps.len() ==> (#[trigger] steps[i]).status != PlanStatus::InProgress {
            assert(steps[n].status != PlanStatus::InProgress);
            assert forall|i: int| 0 <= i < rest.len() implies (#[trigger] rest[i]).status
                != PlanStatus::InProgress by {
                assert(rest[i] == steps[i]);
            }
        }
        if count_active(steps) <= 1 {
            assert forall|i: int, j: int| 0 <= i < j < steps.len() implies !((
            #[trigger] steps[i]).status == PlanStatus::InProgress && (#[trigger] steps[j]).status
                == PlanStatus::InProgress) by {
                assert(rest[i] == steps[i]);
                if j < n {
                    assert(rest[j] == steps[j]);
                }
            }
        } else if forall|i: int, j: int|
            0 <= i < j < steps.len() ==> !((#[trigger] steps[i]).status == PlanStatus::InProgress
                && (
            #[trigger] steps[j]).status == PlanStatus::InProgress) {
            assert forall|i: int, j: int| 0 <= i < j < rest.len() implies !((
            #[trigger] rest[i]).status == PlanStatus::InProgress && (#[trigger] rest[j]).status
                == PlanStatus::InProgress) by {
                assert(rest[i] == steps[i] && rest[j] == steps[j]);
            }
            assert(count_active(rest) <= 1);
            assert(steps[n].status == PlanStatus::InProgress);
            assert forall|i: int| 0 <= i < rest.len() implies (#[trigger] rest[i]).status
                != PlanStatus::InProgress by {
                assert(rest[i] == steps[i]);
                assert(!(steps[i].status == PlanStatus::InProgress && steps[n].status
                    == PlanStatus::InProgress));
            }
        }
    }
}

/// A plan is taken just where it has a step, no two steps are being worked on, and no step
/// is blank.
pub proof fn plan_rule_law(plan: PlanView)
    ensures
        plan_fault(plan) is None <==> {
            &&& plan.plan.len() > 0
            &&& forall|i: int, j: int|
                0 <= i < j < plan.plan.len() ==> !((#[trigger] plan.plan[i]).status
                    == PlanStatus::InProgress && (#[trigger] plan.plan[j]).status
                    == PlanStatus::InProgress)
            &&& forall|i: int|
                0 <= i < plan.plan.len() ==> trim((#[trigger] plan.plan[i]).step).len() > 0
        },
{
    active_bound(plan.plan);
    if !has_blank(plan.plan) {
        assert forall|i: int| 0 <= i < plan.plan.len() implies trim(
            (#[trigger] plan.plan[i]).step,
        ).len() > 0 by {}
    }
}

/// A plan is stored as it was given, but for white space at the ends of its texts: each
/// step in its place, with its status.
pub proof fn plan_kept_law(plan: PlanView)
    ensures
        tidy_plan(plan).plan.len() == plan.plan.len(),
        forall|i: int|
            0 <= i < plan.plan.len() ==> (#[trigger] tidy_plan(plan).plan[i]).status
                == plan.plan[i].status && tidy_plan(plan).plan[i].step == trim(plan.plan[i].step),
        plan.explanation is Some && trim(plan.explanation->0).len() > 0 ==> tidy_plan(
            plan,
        ).explanation == Some(trim(plan.explanation->0)),
        tidy_plan(plan).explanation is Some ==> plan.explanation is Some && trim(
            plan.explanation->0,
        ).len() > 0,
{
}

} // verus!
