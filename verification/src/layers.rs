//! Configuration files as trees of values, one layered over the other.
use crate::text;
use vstd::prelude::*;
use vstd::string::*;

verus! {

/// A value of a configuration file. A float is the bit pattern of a double.
#[derive(Debug, PartialEq)]
pub enum Toml {
    Text(String),
    Integer(i64),
    Float(u64),
    Boolean(bool),
    Datetime(String),
    Array(Vec<Toml>),
    Table(Vec<(String, Toml)>),
}

/// The value that a `Toml` stands for.
#[verifier::ext_equal]
pub enum TomlView {
    Text(Seq<char>),
    Integer(i64),
    Float(u64),
    Boolean(bool),
    Datetime(Seq<char>),
    Array(Seq<TomlView>),
    Table(Seq<(Seq<char>, TomlView)>),
}

/// The value that `value` stands for.
pub open spec fn toml_view(value: Toml) -> TomlView
    decreases value,
{
    match value {
        Toml::Text(t) => TomlView::Text(t@),
        Toml::Integer(n) => TomlView::Integer(n),
        Toml::Float(bits) => TomlView::Float(bits),
        Toml::Boolean(b) => TomlView::Boolean(b),
        Toml::Datetime(t) => TomlView::Datetime(t@),
        Toml::Array(items) => TomlView::Array(
            Seq::new(
                items@.len(),
                |i: int|
                    if 0 <= i < items@.len() {
                        toml_view(items@[i])
                    } else {
                        TomlView::Boolean(false)
                    },
            ),
        ),
        Toml::Table(entries) => TomlView::Table(
            Seq::new(
                entries@.len(),
                |i: int|
                    if 0 <= i < entries@.len() {
                        (entries@[i].0@, toml_view(entries@[i].1))
                    } else {
                        (Seq::empty(), TomlView::Boolean(false))
                    },
            ),
        ),
    }
}

impl DeepView for Toml {
    type V = TomlView;

    open spec fn deep_view(&self) -> TomlView {
        toml_view(*self)
    }
}

/// The values of an array, one by one.
pub proof fn toml_view_array(items: Vec<Toml>)
    ensures
        toml_view(Toml::Array(items)) == TomlView::Array(items.deep_view()),
{
    assert(toml_view(Toml::Array(items))->Array_0 =~= items.deep_view());
}

/// The entries of a table, one by one.
pub proof fn toml_view_table(entries: Vec<(String, Toml)>)
    ensures
        toml_view(Toml::Table(entries)) == TomlView::Table(entries.deep_view()),
{
    assert(toml_view(Toml::Table(entries))->Table_0 =~= entries.deep_view());
}

impl Clone for Toml {
    fn clone(&self) -> (result: Self)
        ensures
            result.deep_view() == self.deep_view(),
        decreases self,
    {
        match self {
            Toml::Text(t) => Toml::Text(t.clone()),
            Toml::Integer(n) => Toml::Integer(*n),
            Toml::Float(bits) => Toml::Float(*bits),
            Toml::Boolean(b) => Toml::Boolean(*b),
            Toml::Datetime(t) => Toml::Datetime(t.clone()),
            Toml::Array(items) => {
                let mut copy: Vec<Toml> = Vec::new();
                let mut i: usize = 0;
                while i < items.len()
                    invariant
                        *self == Toml::Array(*items),
                        i <= items@.len(),
                        copy@.len() == i,
                        forall|k: int| 0 <= k < i ==> copy@[k].deep_view() == items@[k].deep_view(),
                    decreases items@.len() - i,
                {
                    proof {
                        assert(decreases_to!(*self => self->Array_0));
                        assert(decreases_to!(items@ => items@[i as int]));
                    }
                    let item = items[i].clone();
                    copy.push(item);
                    i += 1;
                }
                proof {
                    toml_view_array(copy);
                    toml_view_array(*items);
                    assert(copy.deep_view() =~= items.deep_view());
                }
                Toml::Array(copy)
            },
            Toml::Table(entries) => {
                let mut copy: Vec<(String, Toml)> = Vec::new();
                let mut i: usize = 0;
                while i < entries.len()
                    invariant
                        *self == Toml::Table(*entries),
                        i <= entries@.len(),
                        copy@.len() == i,
                        forall|k: int|
                            0 <= k < i ==> copy@[k].deep_view() == entries@[k].deep_view(),
                    decreases entries@.len() - i,
                {
                    proof {
                        assert(decreases_to!(*self => self->Table_0));
                        assert(decreases_to!(entries@ => entries@[i as int]));
                        assert(decreases_to!(entries@[i as int] => entries@[i as int].1));
                    }
                    let key = entries[i].0.clone();
                    let item = entries[i].1.clone();
                    copy.push((key, item));
                    i += 1;
                }
                proof {
                    toml_view_table(copy);
                    toml_view_table(*entries);
                    assert(copy.deep_view() =~= entries.deep_view());
                }
                Toml::Table(copy)
            },
        }
    }
}

// ---------------------------------------------------------------------------
// Tables
// ---------------------------------------------------------------------------

/// The first index from `from` on of an entry with `key`; the length where there is none.
pub open spec fn key_index(
    entries: Seq<(Seq<char>, TomlView)>,
    key: Seq<char>,
    from: int,
) -> int
    decreases entries.len() - from,
{
    if from < 0 || from >= entries.len() {
        entries.len() as int
    } else if entries[from].0 == key {
        from
    } else {
        key_index(entries, key, from + 1)
    }
}

/// Whether a table has an entry with `key`.
pub open spec fn has_key(entries: Seq<(Seq<char>, TomlView)>, key: Seq<char>) -> bool {
    key_index(entries, key, 0) < entries.len()
}

/// The value that a table holds under `key`.
pub open spec fn value_at(entries: Seq<(Seq<char>, TomlView)>, key: Seq<char>) -> Option<
    TomlView,
> {
    if has_key(entries, key) {
        Some(entries[key_index(entries, key, 0)].1)
    } else {
        None
    }
}

/// The index of the first entry with `key`.
fn find_key(entries: &Vec<(String, Toml)>, key: &str) -> (result: Option<usize>)
    ensures
        match result {
            Some(i) => i == key_index(entries.deep_view(), key@, 0) && i < entries@.len(),
            None => key_index(entries.deep_view(), key@, 0) == entries@.len(),
        },
{
    let ghost all = entries.deep_view();
    let mut i: usize = 0;
    while i < entries.len()
        invariant
            all == entries.deep_view(),
            i <= entries@.len(),
            key_index(all, key@, 0) == key_index(all, key@, i as int),
        decreases entries@.len() - i,
    {
        assert(all[i as int] == entries@[i as int].deep_view());
        if text::same(entries[i].0.as_str(), key) {
            return Some(i);
        }
        i += 1;
    }
    None
}

// ---------------------------------------------------------------------------
// Layers
// ---------------------------------------------------------------------------

/// `overlay` over `base`: tables are merged entry by entry, and anything else takes
/// the place of what was there.
pub open spec fn merged(base: TomlView, overlay: TomlView) -> TomlView
    decreases overlay, 0nat,
{
    match (base, overlay) {
        (TomlView::Table(b), TomlView::Table(o)) => TomlView::Table(
            merged_entries(b, o, o.len()),
        ),
        _ => overlay,
    }
}

/// The first `n` entries of `overlay` over the entries of `base`.
pub open spec fn merged_entries(
    base: Seq<(Seq<char>, TomlView)>,
    overlay: Seq<(Seq<char>, TomlView)>,
    n: nat,
) -> Seq<(Seq<char>, TomlView)>
    decreases overlay, n,
{
    if n == 0 || n > overlay.len() {
        base
    } else {
        let rest = merged_entries(base, overlay, (n - 1) as nat);
        let key = overlay[n - 1].0;
        let value = overlay[n - 1].1;
        let i = key_index(rest, key, 0);
        if 0 <= i < rest.len() {
            rest.update(i, (key, merged(rest[i].1, value)))
        } else {
            rest.push((key, value))
        }
    }
}

/// `overlay` over `base`.
fn merge_values(base: &Toml, overlay: &Toml) -> (result: Toml)
    ensures
        result.deep_view() == merged(base.deep_view(), overlay.deep_view()),
    decreases overlay,
{
    match (base, overlay) {
        (Toml::Table(b), Toml::Table(o)) => {
            let mut entries: Vec<(String, Toml)> = Vec::new();
            let mut i: usize = 0;
            let ghost under = b.deep_view();
            let ghost over = o.deep_view();
            while i < b.len()
                invariant
                    i <= b@.len(),
                    entries@.len() == i,
                    forall|k: int| 0 <= k < i ==> entries@[k].deep_view() == b@[k].deep_view(),
                decreases b@.len() - i,
            {
                entries.push((b[i].0.clone(), b[i].1.clone()));
                i += 1;
            }
            assert(entries.deep_view() =~= under);
            let mut n: usize = 0;
            while n < o.len()
                invariant
                    *overlay == Toml::Table(*o),
                    over == o.deep_view(),
                    n <= o@.len(),
                    entries.deep_view() == merged_entries(under, over, n as nat),
                decreases o@.len() - n,
            {
                proof {
                    assert(decreases_to!(*overlay => overlay->Table_0));
                    assert(decreases_to!(o@ => o@[n as int]));
                    assert(decreases_to!(o@[n as int] => o@[n as int].1));
                    assert(over[n as int] == o@[n as int].deep_view());
                }
                let ghost rest = entries.deep_view();
                match find_key(&entries, o[n].0.as_str()) {
                    Some(at) => {
                        assert(rest[at as int] == entries@[at as int].deep_view());
                        let value = merge_values(&entries[at].1, &o[n].1);
                        entries[at] = (o[n].0.clone(), value);
                        assert(entries.deep_view() =~= merged_entries(under, over, (n + 1) as nat));
                    },
                    None => {
                        entries.push((o[n].0.clone(), o[n].1.clone()));
                        assert(entries.deep_view() =~= merged_entries(under, over, (n + 1) as nat));
                    },
                }
                n += 1;
            }
            proof {
                toml_view_table(*b);
                toml_view_table(*o);
                toml_view_table(entries);
            }
            Toml::Table(entries)
        },
        _ => overlay.clone(),
    }
}

/// Puts `overlay` over `base`.
pub fn merge(base: &mut Toml, overlay: Toml)
    ensures
        final(base).deep_view() == merged(old(base).deep_view(), overlay.deep_view()),
{
    let result = merge_values(base, &overlay);
    *base = result;
}

/// No key stands twice.
pub open spec fn keys_differ(entries: Seq<(Seq<char>, TomlView)>) -> bool {
    forall|i: int, j: int|
        0 <= i < j < entries.len() ==> (#[trigger] entries[i]).0 != (#[trigger] entries[j]).0
}

proof fn key_index_first(entries: Seq<(Seq<char>, TomlView)>, key: Seq<char>, from: int)
    requires
        0 <= from <= entries.len(),
    ensures
        from <= key_index(entries, key, from) <= entries.len(),
        key_index(entries, key, from) < entries.len() ==> entries[key_index(
            entries,
            key,
            from,
        )].0 == key,
        forall|i: int| from <= i < key_index(entries, key, from) ==> (#[trigger] entries[i]).0 != key,
    decreases entries.len() - from,
{
    if from < entries.len() && entries[from].0 != key {
        key_index_first(entries, key, from + 1);
    }
}

proof fn key_index_is(entries: Seq<(Seq<char>, TomlView)>, key: Seq<char>, at: int)
    requires
        0 <= at <= entries.len(),
        at < entries.len() ==> entries[at].0 == key,
        forall|i: int| 0 <= i < at ==> (#[trigger] entries[i]).0 != key,
    ensures
        key_index(entries, key, 0) == at,
{
    key_index_first(entries, key, 0);
}

/// What a merged table holds under a key: the merge of both values where both have
/// one, else the one that there is.
pub open spec fn layered(base: Option<TomlView>, overlay: Option<TomlView>) -> Option<TomlView> {
    match (base, overlay) {
        (Some(b), Some(o)) => Some(merged(b, o)),
        (Some(b), None) => Some(b),
        (None, o) => o,
    }
}

proof fn merge_prefix(
    base: Seq<(Seq<char>, TomlView)>,
    overlay: Seq<(Seq<char>, TomlView)>,
    n: nat,
    key: Seq<char>,
)
    requires
        n <= overlay.len(),
        keys_differ(overlay),
    ensures
        value_at(merged_entries(base, overlay, n), key) == layered(
            value_at(base, key),
            value_at(overlay.take(n as int), key),
        ),
    decreases n,
{
    if n == 0 {
        assert(overlay.take(0) =~= Seq::empty());
        assert(value_at(Seq::empty(), key) is None);
    } else {
        let rest = merged_entries(base, overlay, (n - 1) as nat);
        let next = merged_entries(base, overlay, n);
        let k = overlay[n - 1].0;
        let v = overlay[n - 1].1;
        let before = overlay.take(n - 1);
        let after = overlay.take(n as int);
        merge_prefix(base, overlay, (n - 1) as nat, key);
        merge_prefix(base, overlay, (n - 1) as nat, k);
        key_index_first(before, key, 0);
        key_index_first(rest, key, 0);
        key_index_first(rest, k, 0);
        assert(after =~= before.push((k, v)));
        assert(!has_key(before, k)) by {
            key_index_first(before, k, 0);
            if has_key(before, k) {
                let i = key_index(before, k, 0);
                assert(before[i].0 == overlay[i].0);
            }
        }
        if key == k {
            key_index_is(after, key, n - 1);
            assert(value_at(after, key) == Some(v));
            let i = key_index(rest, k, 0);
            if i < rest.len() {
                key_index_is(next, key, i);
            } else {
                key_index_is(next, key, rest.len() as int);
            }
        } else {
            let a = key_index(before, key, 0);
            if a < before.len() {
                key_index_is(after, key, a);
            } else {
                key_index_is(after, key, after.len() as int);
            }
            let i = key_index(rest, key, 0);
            let j = key_index(rest, k, 0);
            if i < rest.len() {
                key_index_is(next, key, i);
            } else {
                key_index_is(next, key, next.len() as int);
            }
        }
    }
}

/// A file whose keys differ takes the place of what lies below it key by key: what
/// it does not name stays, what it alone names is added, and tables under the same
/// key are merged by the same rule.
pub proof fn merge_law(
    base: Seq<(Seq<char>, TomlView)>,
    overlay: Seq<(Seq<char>, TomlView)>,
    key: Seq<char>,
)
    requires
        keys_differ(overlay),
    ensures
        ({
            let result = merged(TomlView::Table(base), TomlView::Table(overlay));
            &&& result is Table
            &&& value_at(result->Table_0, key) == layered(
                value_at(base, key),
                value_at(overlay, key),
            )
        }),
{
    merge_prefix(base, overlay, overlay.len(), key);
    assert(overlay.take(overlay.len() as int) =~= overlay);
}

// ---------------------------------------------------------------------------
// Older files
// ---------------------------------------------------------------------------

/// A list of providers with one, for an endpoint and its key.
pub open spec fn one_provider(base_url: TomlView, api_key: TomlView) -> TomlView {
    TomlView::Array(
        seq![
            TomlView::Table(
                seq![
                    ("name"@, TomlView::Text("default"@)),
                    ("base_url"@, base_url),
                    ("api_key"@, api_key),
                ],
            ),
        ],
    )
}

/// The key that a file names; an empty one where it names none.
pub open spec fn key_of(entries: Seq<(Seq<char>, TomlView)>) -> TomlView {
    match value_at(entries, "api_key"@) {
        Some(api_key) => api_key,
        None => TomlView::Text(Seq::empty()),
    }
}

/// A file that names one endpoint, with that endpoint as its list of providers.
pub open spec fn with_provider(value: TomlView) -> TomlView {
    match value {
        TomlView::Table(entries) => match value_at(entries, "base_url"@) {
            Some(base_url) if !has_key(entries, "providers"@) => TomlView::Table(
                entries.push(("providers"@, one_provider(base_url, key_of(entries)))),
            ),
            _ => value,
        },
        _ => value,
    }
}

/// Turns an endpoint that an older file names into a list of providers.
pub fn promote_legacy_provider(value: &mut Toml)
    ensures
        final(value).deep_view() == with_provider(old(value).deep_view()),
{
    let ghost before = value.deep_view();
    let entries = match value {
        Toml::Table(entries) => entries,
        _ => {
            return;
        },
    };
    proof {
        toml_view_table(*entries);
    }
    let ghost all = entries.deep_view();
    if find_key(entries, "providers").is_some() {
        return;
    }
    let base_url = match find_key(entries, "base_url") {
        Some(i) => {
            assert(all[i as int] == entries@[i as int].deep_view());
            entries[i].1.clone()
        },
        None => {
            return;
        },
    };
    let api_key = match find_key(entries, "api_key") {
        Some(i) => {
            assert(all[i as int] == entries@[i as int].deep_view());
            entries[i].1.clone()
        },
        None => Toml::Text(String::new()),
    };
    let ghost url = base_url.deep_view();
    let ghost secret = api_key.deep_view();
    let mut provider: Vec<(String, Toml)> = Vec::new();
    provider.push(("name".to_owned(), Toml::Text("default".to_owned())));
    provider.push(("base_url".to_owned(), base_url));
    provider.push(("api_key".to_owned(), api_key));
    proof {
        toml_view_table(provider);
        assert(provider.deep_view() =~= seq![
            ("name"@, TomlView::Text("default"@)),
            ("base_url"@, url),
            ("api_key"@, secret),
        ]);
    }
    let one = Toml::Table(provider);
    let ghost row = one.deep_view();
    let mut providers: Vec<Toml> = Vec::new();
    providers.push(one);
    proof {
        toml_view_array(providers);
        assert(providers.deep_view() =~= seq![row]);
    }
    let added = Toml::Array(providers);
    let ghost list = added.deep_view();
    assert(list == one_provider(url, secret));
    entries.push(("providers".to_owned(), added));
    proof {
        toml_view_table(*entries);
        assert(entries.deep_view() =~= all.push(("providers"@, list)));
        assert(secret == key_of(all));
    }
}

/// The entries of all keys but `key`.
pub open spec fn without_key(entries: Seq<(Seq<char>, TomlView)>, key: Seq<char>) -> Seq<
    (Seq<char>, TomlView),
>
    decreases entries.len(),
{
    if entries.len() == 0 {
        entries
    } else {
        let rest = without_key(entries.drop_last(), key);
        if entries.last().0 == key {
            rest
        } else {
            rest.push(entries.last())
        }
    }
}

/// The entries with the key `old_key` renamed, where `new_key` has no value yet.
pub open spec fn renamed(
    entries: Seq<(Seq<char>, TomlView)>,
    old_key: Seq<char>,
    new_key: Seq<char>,
) -> Seq<(Seq<char>, TomlView)> {
    match value_at(entries, old_key) {
        Some(value) if !has_key(entries, new_key) => without_key(entries, old_key).push(
            (new_key, value),
        ),
        _ => without_key(entries, old_key),
    }
}

/// The policies under the names that the tools have now.
pub open spec fn current_policies(entries: Seq<(Seq<char>, TomlView)>) -> Seq<
    (Seq<char>, TomlView),
> {
    renamed(renamed(entries, "grep"@, "search_files"@), "glob"@, "list_files"@)
}

/// A file whose policies are under the names that the tools have now.
pub open spec fn with_current_policies(value: TomlView) -> TomlView {
    match value {
        TomlView::Table(entries) => match value_at(entries, "tools"@) {
            Some(TomlView::Table(tools)) => TomlView::Table(
                entries.update(
                    key_index(entries, "tools"@, 0),
                    ("tools"@, TomlView::Table(current_policies(tools))),
                ),
            ),
            _ => value,
        },
        _ => value,
    }
}

fn rename_key(entries: &Vec<(String, Toml)>, old_key: &str, new_key: &str) -> (result: Vec<
    (String, Toml),
>)
    ensures
        result.deep_view() == renamed(entries.deep_view(), old_key@, new_key@),
{
    let ghost all = entries.deep_view();
    let moved = match find_key(entries, old_key) {
        Some(i) => {
            assert(all[i as int] == entries@[i as int].deep_view());
            Some(entries[i].1.clone())
        },
        None => None,
    };
    let taken = find_key(entries, new_key).is_some();
    let mut result: Vec<(String, Toml)> = Vec::new();
    let mut i: usize = 0;
    assert(result.deep_view() =~= without_key(all.take(0), old_key@));
    while i < entries.len()
        invariant
            all == entries.deep_view(),
            i <= entries@.len(),
            result.deep_view() == without_key(all.take(i as int), old_key@),
        decreases entries@.len() - i,
    {
        let ghost before = result.deep_view();
        proof {
            assert(all.take(i + 1).drop_last() =~= all.take(i as int));
            assert(all.take(i + 1).last() == entries@[i as int].deep_view());
        }
        if !text::same(entries[i].0.as_str(), old_key) {
            result.push((entries[i].0.clone(), entries[i].1.clone()));
            assert(result.deep_view() =~= before.push(entries@[i as int].deep_view()));
        }
        i += 1;
    }
    assert(all.take(i as int) =~= all);
    if !taken {
        match moved {
            Some(value) => {
                let ghost before = result.deep_view();
                let ghost view = value.deep_view();
                result.push((new_key.to_owned(), value));
                assert(result.deep_view() =~= before.push((new_key@, view)));
            },
            None => {},
        }
    }
    result
}

/// Gives the policies of an older file the names that the tools have now.
pub fn promote_legacy_tool_names(value: &mut Toml)
    ensures
        final(value).deep_view() == with_current_policies(old(value).deep_view()),
{
    let entries = match value {
        Toml::Table(entries) => entries,
        _ => {
            return;
        },
    };
    proof {
        toml_view_table(*entries);
    }
    let ghost all = entries.deep_view();
    match find_key(entries, "tools") {
        Some(at) => {
            proof {
                assert(all[at as int] == entries@[at as int].deep_view());
                key_index_first(all, "tools"@, 0);
            }
            let changed = match &entries[at].1 {
                Toml::Table(tools) => {
                    let first = rename_key(tools, "grep", "search_files");
                    let second = rename_key(&first, "glob", "list_files");
                    proof {
                        toml_view_table(*tools);
                        toml_view_table(second);
                    }
                    Toml::Table(second)
                },
                _ => {
                    return;
                },
            };
            let ghost view = changed.deep_view();
            entries[at] = ("tools".to_owned(), changed);
            proof {
                toml_view_table(*entries);
                assert(entries.deep_view() =~= all.update(at as int, ("tools"@, view)));
            }
        },
        None => {},
    }
}

// ---------------------------------------------------------------------------
// Exchange with the `toml` crate
// ---------------------------------------------------------------------------

#[verifier::external_type_specification]
#[verifier::external_body]
pub struct ExTomlValue(toml::Value);

/// What a `toml::Value` holds. A table's entries stand in the order in which its
/// map is walked.
pub uninterp spec fn toml_tree(value: toml::Value) -> TomlView;

/// What `toml::from_str` reads from a text, or what its error says.
pub uninterp spec fn toml_of(text: Seq<char>) -> Result<TomlView, Seq<char>>;

/// The value that a document writes; `None` where it is not TOML.
pub open spec fn read_toml(text: Seq<char>) -> Option<TomlView> {
    match toml_of(text) {
        Ok(value) => Some(value),
        Err(_) => None,
    }
}

/// What is wrong with a document that is not TOML.
pub open spec fn toml_fault(text: Seq<char>) -> Seq<char> {
    match toml_of(text) {
        Ok(_) => Seq::empty(),
        Err(fault) => fault,
    }
}

/// One level of a `toml::Value`.
pub enum TomlParts<'a> {
    Text(String),
    Integer(i64),
    Float(u64),
    Boolean(bool),
    Datetime(String),
    Array(Vec<&'a toml::Value>),
    Table(Vec<(&'a String, &'a toml::Value)>),
}

/// The value that one level with its children stands for.
pub open spec fn toml_parts_tree(parts: TomlParts) -> TomlView {
    match parts {
        TomlParts::Text(t) => TomlView::Text(t@),
        TomlParts::Integer(n) => TomlView::Integer(n),
        TomlParts::Float(bits) => TomlView::Float(bits),
        TomlParts::Boolean(b) => TomlView::Boolean(b),
        TomlParts::Datetime(t) => TomlView::Datetime(t@),
        TomlParts::Array(items) => TomlView::Array(
            Seq::new(items@.len(), |i: int| toml_tree(*items@[i])),
        ),
        TomlParts::Table(entries) => TomlView::Table(
            Seq::new(entries@.len(), |i: int| (entries@[i].0@, toml_tree(*entries@[i].1))),
        ),
    }
}

/// `toml::from_str` into a `toml::Value`: the value that the document writes, or the
/// text of the error.
#[verifier::external_body]
fn parse_document(document: &str) -> (result: Result<toml::Value, String>)
    ensures
        match result {
            Ok(value) => toml_of(document@) == Ok::<TomlView, Seq<char>>(toml_tree(value)),
            Err(fault) => toml_of(document@) == Err::<TomlView, Seq<char>>(fault@),
        },
{
    toml::from_str(document).map_err(|error: toml::de::Error| error.to_string())
}

/// The variants of `toml::Value`, one for one: a float as its bits, a date as its
/// text.
#[verifier::external_body]
fn toml_parts<'a>(value: &'a toml::Value) -> (parts: TomlParts<'a>)
    ensures
        toml_parts_tree(parts) == toml_tree(*value),
{
    match value {
        toml::Value::String(t) => TomlParts::Text(t.clone()),
        toml::Value::Integer(n) => TomlParts::Integer(*n),
        toml::Value::Float(n) => TomlParts::Float(n.to_bits()),
        toml::Value::Boolean(b) => TomlParts::Boolean(*b),
        toml::Value::Datetime(date) => TomlParts::Datetime(date.to_string()),
        toml::Value::Array(items) => TomlParts::Array(items.iter().collect()),
        toml::Value::Table(map) => TomlParts::Table(map.iter().collect()),
    }
}

fn from_toml(value: &toml::Value) -> (result: Toml)
    ensures
        result.deep_view() == toml_tree(*value),
    decreases toml_tree(*value),
{
    match toml_parts(value) {
        TomlParts::Text(t) => Toml::Text(t),
        TomlParts::Integer(n) => Toml::Integer(n),
        TomlParts::Float(bits) => Toml::Float(bits),
        TomlParts::Boolean(b) => Toml::Boolean(b),
        TomlParts::Datetime(t) => Toml::Datetime(t),
        TomlParts::Array(items) => {
            let mut list: Vec<Toml> = Vec::new();
            let mut i: usize = 0;
            let ghost children = Seq::new(items@.len(), |i: int| toml_tree(*items@[i]));
            while i < items.len()
                invariant
                    toml_tree(*value) == TomlView::Array(children),
                    children == Seq::new(items@.len(), |i: int| toml_tree(*items@[i])),
                    i <= items@.len(),
                    list@.len() == i,
                    forall|k: int| 0 <= k < i ==> list@[k].deep_view() == children[k],
                decreases items@.len() - i,
            {
                proof {
                    assert(decreases_to!(toml_tree(*value) => toml_tree(*value)->Array_0));
                    assert(decreases_to!(children => children[i as int]));
                }
                let item = from_toml(items[i]);
                list.push(item);
                i += 1;
            }
            proof {
                toml_view_array(list);
                assert(list.deep_view() =~= children);
            }
            Toml::Array(list)
        },
        TomlParts::Table(entries) => {
            let mut list: Vec<(String, Toml)> = Vec::new();
            let mut i: usize = 0;
            let ghost children = Seq::new(
                entries@.len(),
                |i: int| (entries@[i].0@, toml_tree(*entries@[i].1)),
            );
            while i < entries.len()
                invariant
                    toml_tree(*value) == TomlView::Table(children),
                    children == Seq::new(
                        entries@.len(),
                        |i: int| (entries@[i].0@, toml_tree(*entries@[i].1)),
                    ),
                    i <= entries@.len(),
                    list@.len() == i,
                    forall|k: int| 0 <= k < i ==> list@[k].deep_view() == children[k],
                decreases entries@.len() - i,
            {
                proof {
                    assert(decreases_to!(toml_tree(*value) => toml_tree(*value)->Table_0));
                    assert(decreases_to!(children => children[i as int]));
                    assert(decreases_to!(children[i as int] => children[i as int].1));
                }
                let item = from_toml(entries[i].1);
                let key = entries[i].0.clone();
                list.push((key, item));
                i += 1;
            }
            proof {
                toml_view_table(list);
                assert(list.deep_view() =~= children);
            }
            Toml::Table(list)
        },
    }
}

/// The value that a document writes, or what is wrong with it.
pub fn parse_toml(document: &str) -> (result: Result<Toml, String>)
    ensures
        match result {
            Ok(value) => read_toml(document@) == Some(value.deep_view()),
            Err(error) => read_toml(document@) is None && error@ == toml_fault(document@),
        },
{
    match parse_document(document) {
        Ok(value) => Ok(from_toml(&value)),
        Err(error) => Err(error),
    }
}

/// The settings of `base` under those of a file, which may be an older one.
pub open spec fn layered_over(base: TomlView, file: TomlView) -> TomlView {
    merged(base, with_current_policies(with_provider(file)))
}

/// Puts the settings of a file over those of `base`, or says what is wrong with the
/// file and leaves `base` as it is.
pub fn add_layer(base: &mut Toml, document: &str) -> (result: Result<(), String>)
    ensures
        match result {
            Ok(_) => read_toml(document@) is Some && final(base).deep_view() == layered_over(
                old(base).deep_view(),
                read_toml(document@)->0,
            ),
            Err(error) => {
                &&& read_toml(document@) is None
                &&& error@ == toml_fault(document@)
                &&& *final(base) == *old(base)
            },
        },
{
    match parse_toml(document) {
        Ok(value) => {
            add_overlay(base, value);
            Ok(())
        },
        Err(error) => Err(error),
    }
}

/// Puts the settings of a file, which may be an older one, over those of `base`.
pub fn add_overlay(base: &mut Toml, file: Toml)
    ensures
        final(base).deep_view() == layered_over(old(base).deep_view(), file.deep_view()),
{
    let mut overlay = file;
    promote_legacy_provider(&mut overlay);
    promote_legacy_tool_names(&mut overlay);
    merge(base, overlay);
}

} // verus!
