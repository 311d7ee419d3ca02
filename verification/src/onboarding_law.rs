//! What holds of setting up: of the line that is typed, and of the models that are offered.
use crate::config::{ModelView, ProviderView};
use crate::model_catalog::{config_of, is_chat_model, rank_order};
use crate::onboarding::{
    after_key, back_over, bound_models, count_name, forth_over, host_name, offered_models, outcome,
    printable, setup_config, spliced, told_apart, word_before, word_behind, Edited, Key, LineView,
};
use crate::order::sorted_law;
use crate::text::{digits, index_of, is_control_char, is_letter_or_digit, lower, trim_end_char};
use vstd::prelude::*;
use vstd::string::*;

verus! {

// ---------------------------------------------------------------------------
// The line
// ---------------------------------------------------------------------------

proof fn back_is(value: Seq<char>, cursor: int, words: bool)
    requires
        0 <= cursor <= value.len(),
    ensures
        ({
            let r = back_over(value, cursor, words);
            &&& 0 <= r <= cursor
            &&& forall|k: int| r <= k < cursor ==> is_letter_or_digit(#[trigger] value[k]) == words
            &&& r > 0 ==> is_letter_or_digit(value[r - 1]) != words
        }),
    decreases cursor,
{
    if cursor > 0 && is_letter_or_digit(value[cursor - 1]) == words {
        back_is(value, cursor - 1, words);
    }
}

proof fn forth_is(value: Seq<char>, cursor: int, words: bool)
    requires
        0 <= cursor <= value.len(),
    ensures
        ({
            let r = forth_over(value, cursor, words);
            &&& cursor <= r <= value.len()
            &&& forall|k: int| cursor <= k < r ==> is_letter_or_digit(#[trigger] value[k]) == words
            &&& r < value.len() ==> is_letter_or_digit(value[r]) != words
        }),
    decreases value.len() - cursor,
{
    if cursor < value.len() && is_letter_or_digit(value[cursor]) == words {
        forth_is(value, cursor + 1, words);
    }
}

/// Up to `end` stand letters and digits, or none, and from there on the other.
pub open spec fn turns_at(value: Seq<char>, from: int, end: int, to: int, words: bool) -> bool {
    &&& from <= end <= to
    &&& forall|k: int| from <= k < end ==> is_letter_or_digit(#[trigger] value[k]) == words
    &&& forall|k: int| end <= k < to ==> is_letter_or_digit(#[trigger] value[k]) != words
}

/// Back by a word is to the start of the last word before the cursor: past what is no word,
/// and past all of that word.
pub proof fn back_law(value: Seq<char>, cursor: int)
    requires
        0 <= cursor <= value.len(),
    ensures
        ({
            let r = word_before(value, cursor);
            &&& 0 <= r <= cursor
            &&& r > 0 ==> !is_letter_or_digit(value[r - 1])
            &&& exists|end: int|
                #[trigger] turns_at(value, r, end, cursor, true) && (r == end ==> r == 0)
        }),
{
    back_is(value, cursor, false);
    let end = back_over(value, cursor, false);
    back_is(value, end, true);
    assert(turns_at(value, word_before(value, cursor), end, cursor, true));
}

/// Forth by a word is to the start of the next word: past the rest of this one, and past what
/// is no word.
pub proof fn forth_law(value: Seq<char>, cursor: int)
    requires
        0 <= cursor <= value.len(),
    ensures
        ({
            let r = word_behind(value, cursor);
            &&& cursor <= r <= value.len()
            &&& r < value.len() ==> is_letter_or_digit(value[r])
            &&& exists|end: int|
                #[trigger] turns_at(value, cursor, end, r, true) && (r == end ==> r == value.len())
        }),
{
    forth_is(value, cursor, true);
    let end = forth_over(value, cursor, true);
    forth_is(value, end, false);
    assert(turns_at(value, cursor, end, word_behind(value, cursor), true));
}

/// A key types, takes out or moves: what is typed stands at the cursor, which goes behind it;
/// what is taken out stood next to the cursor; all else of the line stays.
pub proof fn typed_law(before: Seq<char>, behind: Seq<char>, c: char, alt: bool)
    ensures
        ({
            let line = LineView { value: before + behind, cursor: before.len() as int };
            let back = word_before(before + behind, before.len() as int);
            &&& after_key(line, Key::Char(c), false, alt) == (LineView {
                value: before + seq![c] + behind,
                cursor: before.len() as int + 1,
            })
            &&& after_key(line, Key::Char('u'), true, alt) == (LineView { value: behind, cursor: 0 })
            &&& after_key(line, Key::Char('w'), true, alt) == (LineView {
                value: before.take(back) + behind,
                cursor: back,
            })
            &&& before.len() > 0 ==> after_key(line, Key::Backspace, false, alt) == (LineView {
                value: before.drop_last() + behind,
                cursor: before.len() - 1,
            })
            &&& before.len() == 0 ==> after_key(line, Key::Backspace, false, alt) == line
            &&& behind.len() > 0 ==> after_key(line, Key::Delete, false, alt) == (LineView {
                value: before + behind.drop_first(),
                cursor: before.len() as int,
            })
            &&& behind.len() == 0 ==> after_key(line, Key::Delete, false, alt) == line
        }),
{
    let value = before + behind;
    let line = LineView { value, cursor: before.len() as int };
    let n = before.len() as int;
    back_law(value, n);
    let back = word_before(value, n);
    assert(value.take(n) =~= before);
    assert(value.skip(n) =~= behind);
    assert(value.take(0) + Seq::<char>::empty() + value.skip(n) =~= behind);
    assert(value.take(back) + Seq::<char>::empty() + value.skip(n) =~= before.take(back) + behind);
    assert(value.take(n) + seq![c] + value.skip(n) =~= before + seq![c] + behind);
    if before.len() > 0 {
        assert(value.take(n - 1) + Seq::<char>::empty() + value.skip(n) =~= before.drop_last()
            + behind);
    }
    if behind.len() > 0 {
        assert(value.take(n) + Seq::<char>::empty() + value.skip(n + 1) =~= before
            + behind.drop_first());
    }
}

/// What moves changes nothing of the line.
pub proof fn moved_law(line: LineView, key: Key, control: bool, alt: bool)
    requires
        0 <= line.cursor <= line.value.len(),
    ensures
        ({
            let next = after_key(line, key, control, alt);
            &&& key is Left || key is Right || key is Home || key is End || key is Up || key is Down
                ==> next.value == line.value
            &&& key is Home || key is Up ==> next.cursor == 0
            &&& key is End || key is Down ==> next.cursor == line.value.len()
            &&& key is Left && !alt && line.cursor > 0 ==> next.cursor == line.cursor - 1
            &&& key is Right && !alt && line.cursor < line.value.len() ==> next.cursor
                == line.cursor + 1
            &&& key is Left && alt ==> next.cursor == word_before(line.value, line.cursor)
            &&& key is Right && alt ==> next.cursor == word_behind(line.value, line.cursor)
            &&& 0 <= next.cursor <= next.value.len()
        }),
{
    back_law(line.value, line.cursor);
    forth_law(line.value, line.cursor);
}

/// A line is done with enter, given up with escape, and else open.
pub proof fn outcome_law(key: Key, control: bool)
    ensures
        outcome(key, control) == Edited::Done <==> key is Enter,
        outcome(key, control) == Edited::Cancelled <==> key is Esc || (control && key == Key::Char(
            'c',
        )),
{
}

/// What is pasted stands at the cursor without what cannot be shown.
pub proof fn pasted_law(before: Seq<char>, behind: Seq<char>, pasted: Seq<char>)
    ensures
        printable(pasted) == pasted.filter(|c: char| !is_control_char(c)),
        ({
            let line = LineView { value: before + behind, cursor: before.len() as int };
            spliced(line, line.cursor, line.cursor, printable(pasted)) == (LineView {
                value: before + printable(pasted) + behind,
                cursor: before.len() as int + printable(pasted).len(),
            })
        }),
    decreases pasted.len(),
{
    reveal(Seq::filter);
    if pasted.len() > 0 {
        pasted_law(before, behind, pasted.drop_last());
    }
    let value = before + behind;
    assert(value.take(before.len() as int) =~= before);
    assert(value.skip(before.len() as int) =~= behind);
}

// ---------------------------------------------------------------------------
// Providers
// ---------------------------------------------------------------------------

/// The slashes at the end of an address are dropped, and no more.
pub proof fn address_law(s: Seq<char>, n: nat)
    requires
        s.len() > 0 ==> s.last() != '/',
    ensures
        trim_end_char(s + Seq::new(n, |i: int| '/'), '/') == s,
    decreases n,
{
    let tail = Seq::new(n, |i: int| '/');
    if n > 0 {
        let shorter = Seq::new((n - 1) as nat, |i: int| '/');
        assert((s + tail).drop_last() =~= s + shorter);
        assert((s + tail).last() == '/');
        address_law(s, (n - 1) as nat);
    } else {
        assert(s + tail =~= s);
    }
}

proof fn dot_at(host: Seq<char>, i: int, from: int)
    requires
        0 <= from <= i <= host.len(),
        forall|k: int| 0 <= k < i ==> host[k] != '.',
        i < host.len() ==> host[i] == '.',
    ensures
        index_of(host, '.', from) == i,
    decreases i - from,
{
    if from < i {
        dot_at(host, i, from + 1);
    }
}

/// A provider is named by the first part of its host; that of OpenAI by its name, in whatever
/// letters its host is written, and one on this machine by its number.
pub proof fn provider_law(first: Seq<char>, rest: Seq<char>, number: usize)
    requires
        !first.contains('.'),
    ensures
        lower(first + rest) == "api.openai.com"@ ==> host_name(Some(first + rest), number)
            == "OpenAI"@,
        host_name(Some("localhost"@), number) == "local-"@ + digits(number as nat),
        host_name(Some("127.0.0.1"@), number) == "local-"@ + digits(number as nat),
        host_name(None, number) == "provider"@,
        lower(first + rest) != "api.openai.com"@ && first + rest != "localhost"@ && first + rest
            != "127.0.0.1"@ && (rest.len() == 0 || rest[0] == '.') ==> host_name(
            Some(first + rest),
            number,
        ) == first,
{
    reveal_strlit("api.openai.com");
    reveal_strlit("localhost");
    reveal_strlit("127.0.0.1");
    reveal_strlit("provider");
    assert(lower("localhost"@).len() == 9);
    assert(lower("127.0.0.1"@).len() == 9);
    assert(lower("provider"@).len() == 8);
    assert("provider"@.len() != "localhost"@.len());
    dot_at("provider"@, 8, 0);
    assert("provider"@.take(8) =~= "provider"@);
    let host = first + rest;
    if rest.len() == 0 || rest[0] == '.' {
        assert forall|k: int| 0 <= k < first.len() implies host[k] != '.' by {
            assert(first.contains(first[k]));
        }
        dot_at(host, first.len() as int, 0);
        assert(host.take(first.len() as int) =~= first);
    }
}

// ---------------------------------------------------------------------------
// Models
// ---------------------------------------------------------------------------

proof fn counted(models: Seq<ModelView>, name: Seq<char>, i: int)
    requires
        0 <= i < models.len(),
        models[i].name == name,
    ensures
        count_name(models, name) >= 1,
    decreases models.len(),
{
    if i < models.len() - 1 {
        counted(models.drop_last(), name, i);
    }
}

proof fn counted_twice(models: Seq<ModelView>, name: Seq<char>, i: int, j: int)
    requires
        0 <= i < j < models.len(),
        models[i].name == name,
        models[j].name == name,
    ensures
        count_name(models, name) > 1,
    decreases models.len(),
{
    if j < models.len() - 1 {
        counted_twice(models.drop_last(), name, i, j);
    } else {
        counted(models.drop_last(), name, i);
    }
}

proof fn counted_never(models: Seq<ModelView>, name: Seq<char>)
    requires
        forall|k: int| 0 <= k < models.len() ==> (#[trigger] models[k]).name != name,
    ensures
        count_name(models, name) == 0,
    decreases models.len(),
{
    if models.len() > 0 {
        assert(models[models.len() - 1].name != name);
        let front = models.drop_last();
        assert forall|k: int| 0 <= k < front.len() implies (#[trigger] front[k]).name != name by {
            assert(front[k] == models[k]);
        }
        counted_never(front, name);
    }
}

proof fn counted_once(models: Seq<ModelView>, name: Seq<char>, i: int)
    requires
        0 <= i < models.len(),
        forall|k: int| 0 <= k < models.len() && k != i ==> (#[trigger] models[k]).name != name,
    ensures
        count_name(models, name) <= 1,
    decreases models.len(),
{
    let front = models.drop_last();
    assert forall|k: int| 0 <= k < front.len() && k != i implies (#[trigger] front[k]).name
        != name by {
        assert(front[k] == models[k]);
    }
    if i == models.len() - 1 {
        counted_never(front, name);
    } else {
        assert(models[models.len() - 1].name != name);
        counted_once(front, name, i);
    }
}

/// A model whose name another has too is called by its provider and its id; one that is alone
/// with its name keeps it. Nothing else of it changes.
pub proof fn told_apart_law(models: Seq<ModelView>, i: int, j: int)
    requires
        0 <= i < models.len(),
        0 <= j < models.len(),
    ensures
        i != j && models[i].name == models[j].name ==> told_apart(models, i).name
            == models[i].provider + seq!['/'] + models[i].id,
        (forall|k: int| 0 <= k < models.len() && k != i ==> (#[trigger] models[k]).name
            != models[i].name) ==> told_apart(models, i) == models[i],
        told_apart(models, i).id == models[i].id,
        told_apart(models, i).provider == models[i].provider,
        told_apart(models, i).max_context_tokens == models[i].max_context_tokens,
        told_apart(models, i).reasoning_effort == models[i].reasoning_effort,
        told_apart(models, i).reasoning_efforts == models[i].reasoning_efforts,
        told_apart(models, i).vision == models[i].vision,
        told_apart(models, i).price_per_token == models[i].price_per_token,
{
    reveal_strlit("/");
    assert("/"@ =~= seq!['/']);
    if i < j && models[i].name == models[j].name {
        counted_twice(models, models[i].name, i, j);
    }
    if j < i && models[i].name == models[j].name {
        counted_twice(models, models[i].name, j, i);
    }
    if forall|k: int| 0 <= k < models.len() && k != i ==> (#[trigger] models[k]).name
        != models[i].name {
        counted_once(models, models[i].name, i);
    }
}

/// The models that can talk are offered, in their order and with their provider; those of
/// OpenAI by their rank.
pub proof fn models_law(ids: Seq<Seq<char>>, provider: Seq<char>)
    ensures
        bound_models(ids, provider) == ids.filter(|id: Seq<char>| is_chat_model(id)).map_values(
            |id: Seq<char>| ModelView { provider, ..config_of(id) },
        ),
        offered_models(ids, provider, false) == bound_models(ids, provider),
        offered_models(ids, provider, true).to_multiset() == bound_models(
            ids,
            provider,
        ).to_multiset(),
        crate::order::in_order(offered_models(ids, provider, true), rank_order()),
{
    bound_is(ids, provider);
    sorted_law(bound_models(ids, provider), rank_order());
}

proof fn bound_is(ids: Seq<Seq<char>>, provider: Seq<char>)
    ensures
        bound_models(ids, provider) == ids.filter(|id: Seq<char>| is_chat_model(id)).map_values(
            |id: Seq<char>| ModelView { provider, ..config_of(id) },
        ),
    decreases ids.len(),
{
    reveal(Seq::filter);
    let f = |id: Seq<char>| ModelView { provider, ..config_of(id) };
    if ids.len() > 0 {
        bound_is(ids.drop_last(), provider);
        let rest = ids.drop_last().filter(|id: Seq<char>| is_chat_model(id));
        assert(rest.push(ids.last()).map_values(f) =~= rest.map_values(f).push(f(ids.last())));
    }
    assert(bound_models(ids, provider) =~= ids.filter(|id: Seq<char>| is_chat_model(id)).map_values(
        f,
    ));
}

/// A new setup has the providers and models that were found, and the first model is in use.
pub proof fn new_setup_law(providers: Seq<ProviderView>, models: Seq<ModelView>)
    requires
        models.len() > 0,
    ensures
        setup_config(providers, models).providers == providers,
        setup_config(providers, models).models == models,
        setup_config(providers, models).model == models[0].name,
        setup_config(providers, models).reasoning_effort == models[0].reasoning_effort,
        setup_config(providers, models).base_url.len() == 0,
        setup_config(providers, models).api_key.len() == 0,
{
}

} // verus!
