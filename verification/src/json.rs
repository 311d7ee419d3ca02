//! JSON values, and their exchange with `serde_json`.
use crate::text;
use crate::text::less;
use vstd::prelude::*;
use vstd::string::*;

verus! {

/// A JSON value. An object keeps its entries in the order in which they stand.
#[derive(Debug, PartialEq)]
pub enum Json {
    Null,
    Bool(bool),
    /// An integer that is not negative.
    Unsigned(u64),
    /// A negative integer.
    Signed(i64),
    /// Any other number, as its text.
    Decimal(String),
    Text(String),
    Array(Vec<Json>),
    Object(Vec<(String, Json)>),
}

/// The value that a `Json` stands for.
#[verifier::ext_equal]
pub enum JsonView {
    Null,
    Bool(bool),
    Unsigned(u64),
    Signed(i64),
    Decimal(Seq<char>),
    Text(Seq<char>),
    Array(Seq<JsonView>),
    Object(Seq<(Seq<char>, JsonView)>),
}

/// The value that `json` stands for.
pub open spec fn json_view(json: Json) -> JsonView
    decreases json,
{
    match json {
        Json::Null => JsonView::Null,
        Json::Bool(b) => JsonView::Bool(b),
        Json::Unsigned(n) => JsonView::Unsigned(n),
        Json::Signed(n) => JsonView::Signed(n),
        Json::Decimal(t) => JsonView::Decimal(t@),
        Json::Text(t) => JsonView::Text(t@),
        Json::Array(items) => JsonView::Array(
            Seq::new(
                items@.len(),
                |i: int|
                    if 0 <= i < items@.len() {
                        json_view(items@[i])
                    } else {
                        JsonView::Null
                    },
            ),
        ),
        Json::Object(entries) => JsonView::Object(
            Seq::new(
                entries@.len(),
                |i: int|
                    if 0 <= i < entries@.len() {
                        (entries@[i].0@, json_view(entries@[i].1))
                    } else {
                        (Seq::empty(), JsonView::Null)
                    },
            ),
        ),
    }
}

impl DeepView for Json {
    type V = JsonView;

    open spec fn deep_view(&self) -> JsonView {
        json_view(*self)
    }
}

/// The values of an array, one by one.
pub proof fn json_view_array(items: Vec<Json>)
    ensures
        json_view(Json::Array(items)) == JsonView::Array(items.deep_view()),
{
    assert(json_view(Json::Array(items))->Array_0 =~= items.deep_view());
}

/// The entries of an object, one by one.
pub proof fn json_view_object(entries: Vec<(String, Json)>)
    ensures
        json_view(Json::Object(entries)) == JsonView::Object(entries.deep_view()),
{
    assert(json_view(Json::Object(entries))->Object_0 =~= entries.deep_view());
}

/// Adds an entry.
pub fn enter(entries: &mut Vec<(String, Json)>, key: &str, value: Json)
    ensures
        final(entries).deep_view() == old(entries).deep_view() + seq![(key@, value.deep_view())],
{
    let ghost before = entries.deep_view();
    let ghost view = value.deep_view();
    entries.push((key.to_owned(), value));
    assert(entries.deep_view() =~= before + seq![(key@, view)]);
}

/// No entries.
pub fn no_entries() -> (entries: Vec<(String, Json)>)
    ensures
        entries.deep_view() == Seq::<(Seq<char>, JsonView)>::empty(),
{
    let entries: Vec<(String, Json)> = Vec::new();
    assert(entries.deep_view() =~= Seq::empty());
    entries
}

/// An object with entries.
pub fn object(entries: Vec<(String, Json)>) -> (result: Json)
    ensures
        result.deep_view() == JsonView::Object(entries.deep_view()),
{
    proof {
        json_view_object(entries);
    }
    Json::Object(entries)
}

/// An array of values.
pub fn array(items: Vec<Json>) -> (result: Json)
    ensures
        result.deep_view() == JsonView::Array(items.deep_view()),
{
    proof {
        json_view_array(items);
    }
    Json::Array(items)
}

impl Clone for Json {
    fn clone(&self) -> (result: Self)
        ensures
            result.deep_view() == self.deep_view(),
        decreases self,
    {
        match self {
            Json::Null => Json::Null,
            Json::Bool(b) => Json::Bool(*b),
            Json::Unsigned(n) => Json::Unsigned(*n),
            Json::Signed(n) => Json::Signed(*n),
            Json::Decimal(t) => Json::Decimal(t.clone()),
            Json::Text(t) => Json::Text(t.clone()),
            Json::Array(items) => {
                let mut copy: Vec<Json> = Vec::new();
                let mut i: usize = 0;
                while i < items.len()
                    invariant
                        *self == Json::Array(*items),
                        i <= items@.len(),
                        copy@.len() == i,
                        forall|k: int| 0 <= k < i ==> copy@[k].deep_view() == items@[k].deep_view(),
                    decreases items@.len() - i,
                {
                    proof {
                        assert(decreases_to!(*self => self->Array_0));
                        assert(decreases_to!(items@ => items@[i as int]));
                    }
                    let item = items[i].clone();
                    copy.push(item);
                    i += 1;
                }
                let result = Json::Array(copy);
                proof {
                    json_view_array(copy);
                    json_view_array(*items);
                    assert(copy.deep_view() =~= items.deep_view());
                }
                result
            },
            Json::Object(entries) => {
                let mut copy: Vec<(String, Json)> = Vec::new();
                let mut i: usize = 0;
                while i < entries.len()
                    invariant
                        *self == Json::Object(*entries),
                        i <= entries@.len(),
                        copy@.len() == i,
                        forall|k: int|
                            0 <= k < i ==> copy@[k].deep_view() == entries@[k].deep_view(),
                    decreases entries@.len() - i,
                {
                    proof {
                        assert(decreases_to!(*self => self->Object_0));
                        assert(decreases_to!(entries@ => entries@[i as int]));
                        assert(decreases_to!(entries@[i as int] => entries@[i as int].1));
                    }
                    let key = entries[i].0.clone();
                    let item = entries[i].1.clone();
                    copy.push((key, item));
                    i += 1;
                }
                let result = Json::Object(copy);
                proof {
                    json_view_object(copy);
                    json_view_object(*entries);
                    assert(copy.deep_view() =~= entries.deep_view());
                }
                result
            },
        }
    }
}

// ---------------------------------------------------------------------------
// Reading
// ---------------------------------------------------------------------------

/// The value of the first entry with `key`.
pub open spec fn entry(entries: Seq<(Seq<char>, JsonView)>, key: Seq<char>) -> Option<JsonView>
    decreases entries.len(),
{
    if entries.len() == 0 {
        None
    } else if entries[0].0 == key {
        Some(entries[0].1)
    } else {
        entry(entries.skip(1), key)
    }
}

/// An object whose fields are also written as a list, in the order of `names`: the list by
/// its names. The first `needed` fields cannot be left out of a list. Any other value stays
/// as it is.
pub open spec fn fields_of(value: JsonView, names: Seq<Seq<char>>, needed: nat) -> JsonView {
    match value {
        JsonView::Array(items) => if needed <= items.len() <= names.len() {
            JsonView::Object(Seq::new(items.len(), |i: int| (names[i], items[i])))
        } else {
            value
        },
        _ => value,
    }
}

/// A list of fields by their names; `None` where the value stays as it is.
pub fn by_fields(value: &Json, names: &Vec<&'static str>, needed: usize) -> (result: Option<Json>)
    ensures
        match result {
            Some(object) => fields_of(value.deep_view(), names.deep_view(), needed as nat)
                == object.deep_view(),
            None => fields_of(value.deep_view(), names.deep_view(), needed as nat)
                == value.deep_view(),
        },
{
    let items = match value {
        Json::Array(items) => items,
        _ => {
            return None;
        },
    };
    proof {
        json_view_array(*items);
    }
    assert(items.deep_view().len() == items@.len());
    assert(names.deep_view().len() == names@.len());
    if items.len() < needed || items.len() > names.len() {
        return None;
    }
    let ghost wanted = fields_of(value.deep_view(), names.deep_view(), needed as nat)->Object_0;
    let mut entries: Vec<(String, Json)> = Vec::new();
    let mut i: usize = 0;
    while i < items.len()
        invariant
            wanted == Seq::new(
                items@.len(),
                |k: int| (names.deep_view()[k], items.deep_view()[k]),
            ),
            items@.len() <= names@.len(),
            i <= items@.len(),
            entries@.len() == i,
            forall|k: int| 0 <= k < i ==> (#[trigger] entries@[k]).deep_view() == wanted[k],
        decreases items@.len() - i,
    {
        assert(names.deep_view()[i as int] == names@[i as int]@);
        assert(items.deep_view()[i as int] == items@[i as int].deep_view());
        entries.push((names[i].to_owned(), items[i].clone()));
        i += 1;
    }
    assert(entries.deep_view() =~= wanted);
    Some(object(entries))
}

impl JsonView {
    /// The value that an object holds under `key`.
    pub open spec fn get(self, key: Seq<char>) -> Option<JsonView> {
        match self {
            JsonView::Object(entries) => entry(entries, key),
            _ => None,
        }
    }

    /// The text that an object holds under `key`.
    pub open spec fn text_at(self, key: Seq<char>) -> Option<Seq<char>> {
        match self.get(key) {
            Some(JsonView::Text(t)) => Some(t),
            _ => None,
        }
    }

    /// The unsigned number that an object holds under `key`.
    pub open spec fn number_at(self, key: Seq<char>) -> Option<u64> {
        match self.get(key) {
            Some(JsonView::Unsigned(n)) => Some(n),
            _ => None,
        }
    }

    /// The truth value that an object holds under `key`.
    pub open spec fn bool_at(self, key: Seq<char>) -> Option<bool> {
        match self.get(key) {
            Some(JsonView::Bool(b)) => Some(b),
            _ => None,
        }
    }

    /// The items of an array that an object holds under `key`.
    pub open spec fn array_at(self, key: Seq<char>) -> Option<Seq<JsonView>> {
        match self.get(key) {
            Some(JsonView::Array(items)) => Some(items),
            _ => None,
        }
    }
}

impl Json {
    /// The value that an object holds under `key`.
    pub fn get(&self, key: &str) -> (result: Option<&Json>)
        ensures
            match result {
                Some(value) => self.deep_view().get(key@) == Some(value.deep_view()),
                None => self.deep_view().get(key@) is None,
            },
    {
        match self {
            Json::Object(entries) => {
                proof {
                    json_view_object(*entries);
                    assert(entries.deep_view().skip(0) =~= entries.deep_view());
                }
                let mut i: usize = 0;
                while i < entries.len()
                    invariant
                        i <= entries@.len(),
                        self.deep_view() == JsonView::Object(entries.deep_view()),
                        self.deep_view().get(key@) == entry(
                            entries.deep_view().skip(i as int),
                            key@,
                        ),
                    decreases entries@.len() - i,
                {
                    proof {
                        let rest = entries.deep_view().skip(i as int);
                        assert(rest[0] == entries@[i as int].deep_view());
                        assert(rest.skip(1) =~= entries.deep_view().skip(i + 1));
                    }
                    if text::same(entries[i].0.as_str(), key) {
                        return Some(&entries[i].1);
                    }
                    i += 1;
                }
                None
            },
            _ => None,
        }
    }

    /// The text that an object holds under `key`.
    pub fn text_at(&self, key: &str) -> (result: Option<&String>)
        ensures
            result.deep_view() == self.deep_view().text_at(key@),
    {
        match self.get(key) {
            Some(Json::Text(t)) => Some(t),
            _ => None,
        }
    }

    /// The unsigned number that an object holds under `key`.
    pub fn number_at(&self, key: &str) -> (result: Option<u64>)
        ensures
            result == self.deep_view().number_at(key@),
    {
        match self.get(key) {
            Some(Json::Unsigned(n)) => Some(*n),
            _ => None,
        }
    }

    /// The truth value that an object holds under `key`.
    pub fn bool_at(&self, key: &str) -> (result: Option<bool>)
        ensures
            result == self.deep_view().bool_at(key@),
    {
        match self.get(key) {
            Some(Json::Bool(b)) => Some(*b),
            _ => None,
        }
    }

    /// The items of an array that an object holds under `key`.
    pub fn array_at(&self, key: &str) -> (result: Option<&Vec<Json>>)
        ensures
            match result {
                Some(items) => self.deep_view().array_at(key@) == Some(items.deep_view()),
                None => self.deep_view().array_at(key@) is None,
            },
    {
        match self.get(key) {
            Some(Json::Array(items)) => {
                proof {
                    json_view_array(*items);
                }
                Some(items)
            },
            _ => None,
        }
    }

    /// A text value.
    pub fn text(value: &str) -> (result: Json)
        ensures
            result.deep_view() == JsonView::Text(value@),
    {
        Json::Text(value.to_owned())
    }
}

// ---------------------------------------------------------------------------
// Exchange with serde_json
// ---------------------------------------------------------------------------

#[verifier::external_type_specification]
#[verifier::external_body]
pub struct ExValue(serde_json::Value);

/// What a `serde_json::Value` holds. An object's entries stand in the order in
/// which its map is walked.
pub uninterp spec fn tree(value: serde_json::Value) -> JsonView;

/// What `serde_json::from_str` reads from a text, or what its error says.
pub uninterp spec fn json_of(text: Seq<char>) -> Result<JsonView, Seq<char>>;

/// The value that a text writes; `None` where it is not JSON.
pub open spec fn read_json(text: Seq<char>) -> Option<JsonView> {
    match json_of(text) {
        Ok(value) => Some(value),
        Err(_) => None,
    }
}

/// What is wrong with a text that is not JSON.
pub open spec fn json_fault(text: Seq<char>) -> Seq<char> {
    match json_of(text) {
        Ok(_) => Seq::empty(),
        Err(fault) => fault,
    }
}

/// The text that `serde_json::to_string` writes.
pub uninterp spec fn compact_json(value: JsonView) -> Seq<char>;

/// The text that `serde_json::to_string_pretty` writes.
pub uninterp spec fn pretty_json(value: JsonView) -> Seq<char>;

/// Entries in the order of their keys, with one more; it takes the place of one with its key.
pub open spec fn enter_sorted(
    entries: Seq<(Seq<char>, JsonView)>,
    key: Seq<char>,
    value: JsonView,
) -> Seq<(Seq<char>, JsonView)>
    decreases entries.len(),
{
    if entries.len() == 0 {
        seq![(key, value)]
    } else if entries.last().0 == key {
        entries.drop_last().push((key, value))
    } else if less(entries.last().0, key) {
        entries.push((key, value))
    } else {
        enter_sorted(entries.drop_last(), key, value).push(entries.last())
    }
}

/// The entries of a map that was collected from `entries`: in the order of their keys, and
/// of entries with one key the last.
#[verifier::opaque]
pub open spec fn map_entries(entries: Seq<(Seq<char>, JsonView)>) -> Seq<(Seq<char>, JsonView)>
    decreases entries.len(),
{
    if entries.len() == 0 {
        Seq::empty()
    } else {
        enter_sorted(map_entries(entries.drop_last()), entries.last().0, entries.last().1)
    }
}

proof fn enter_sorted_from(entries: Seq<(Seq<char>, JsonView)>, key: Seq<char>, value: JsonView)
    ensures
        forall|i: int|
            0 <= i < enter_sorted(entries, key, value).len() ==> {
                let found = #[trigger] enter_sorted(entries, key, value)[i];
                found == (key, value) || entries.contains(found)
            },
    decreases entries.len(),
{
    if entries.len() > 0 {
        let rest = entries.drop_last();
        enter_sorted_from(rest, key, value);
        let all = enter_sorted(entries, key, value);
        let inner = enter_sorted(rest, key, value);
        assert forall|i: int| 0 <= i < all.len() implies ({
            let found = #[trigger] all[i];
            found == (key, value) || entries.contains(found)
        }) by {
            let found = all[i];
            if entries.last().0 == key || less(entries.last().0, key) {
                if i < rest.len() {
                    assert(entries[i] == found);
                } else if i == rest.len() && entries.last().0 != key {
                    assert(entries[i] == found);
                }
            } else if i < inner.len() {
                assert(inner[i] == found);
                if rest.contains(found) {
                    let k = choose|k: int| 0 <= k < rest.len() && rest[k] == found;
                    assert(entries[k] == found);
                }
            } else {
                assert(entries[rest.len() as int] == found);
            }
        }
    }
}

/// The entries of a map are among those that it was collected from.
pub proof fn map_entries_from(entries: Seq<(Seq<char>, JsonView)>)
    ensures
        forall|i: int|
            0 <= i < map_entries(entries).len() ==> entries.contains(
                #[trigger] map_entries(entries)[i],
            ),
    decreases entries.len(),
{
    reveal(map_entries);
    if entries.len() > 0 {
        let rest = entries.drop_last();
        map_entries_from(rest);
        enter_sorted_from(map_entries(rest), entries.last().0, entries.last().1);
        let all = map_entries(entries);
        assert forall|i: int| 0 <= i < all.len() implies entries.contains(#[trigger] all[i]) by {
            let found = all[i];
            if found == entries.last() {
                assert(entries[entries.len() - 1] == found);
            } else {
                assert(map_entries(rest).contains(found));
                let m = choose|m: int|
                    0 <= m < map_entries(rest).len() && map_entries(rest)[m] == found;
                assert(rest.contains(map_entries(rest)[m]));
                let k = choose|k: int| 0 <= k < rest.len() && rest[k] == found;
                assert(entries[k] == found);
            }
        }
    }
}

/// One level of a `serde_json::Value`.
pub enum Parts<'a> {
    Null,
    Bool(bool),
    Unsigned(u64),
    Signed(i64),
    Decimal(String),
    Text(String),
    Array(Vec<&'a serde_json::Value>),
    Object(Vec<(&'a String, &'a serde_json::Value)>),
}

/// The value that one level with its children stands for.
pub open spec fn parts_tree(parts: Parts) -> JsonView {
    match parts {
        Parts::Null => JsonView::Null,
        Parts::Bool(b) => JsonView::Bool(b),
        Parts::Unsigned(n) => JsonView::Unsigned(n),
        Parts::Signed(n) => JsonView::Signed(n),
        Parts::Decimal(t) => JsonView::Decimal(t@),
        Parts::Text(t) => JsonView::Text(t@),
        Parts::Array(items) => JsonView::Array(
            Seq::new(items@.len(), |i: int| tree(*items@[i])),
        ),
        Parts::Object(entries) => JsonView::Object(
            Seq::new(entries@.len(), |i: int| (entries@[i].0@, tree(*entries@[i].1))),
        ),
    }
}

/// `serde_json::from_str` into a `serde_json::Value`: the value that the text
/// writes, or the text of the error where it is not JSON.
#[verifier::external_body]
fn parse_value(text: &str) -> (result: Result<serde_json::Value, String>)
    ensures
        match result {
            Ok(value) => json_of(text@) == Ok::<JsonView, Seq<char>>(tree(value)),
            Err(fault) => json_of(text@) == Err::<JsonView, Seq<char>>(fault@),
        },
{
    serde_json::from_str(text).map_err(|error| error.to_string())
}

/// The variants of `serde_json::Value` and of its `Number`, one for one: an
/// integer is an unsigned number where `as_u64` gives one, else a negative one
/// where `as_i64` does; any other number is given as its text.
#[verifier::external_body]
fn value_parts<'a>(value: &'a serde_json::Value) -> (parts: Parts<'a>)
    ensures
        parts_tree(parts) == tree(*value),
{
    match value {
        serde_json::Value::Null => Parts::Null,
        serde_json::Value::Bool(b) => Parts::Bool(*b),
        serde_json::Value::Number(n) => match (n.as_u64(), n.as_i64()) {
            (Some(u), _) => Parts::Unsigned(u),
            (None, Some(i)) => Parts::Signed(i),
            (None, None) => Parts::Decimal(n.to_string()),
        },
        serde_json::Value::String(t) => Parts::Text(t.clone()),
        serde_json::Value::Array(items) => Parts::Array(items.iter().collect()),
        serde_json::Value::Object(map) => Parts::Object(map.iter().collect()),
    }
}

/// The value that a `serde_json::Value` holds.
fn from_value(value: &serde_json::Value) -> (json: Json)
    ensures
        json.deep_view() == tree(*value),
    decreases tree(*value),
{
    match value_parts(value) {
        Parts::Null => Json::Null,
        Parts::Bool(b) => Json::Bool(b),
        Parts::Unsigned(n) => Json::Unsigned(n),
        Parts::Signed(n) => Json::Signed(n),
        Parts::Decimal(t) => Json::Decimal(t),
        Parts::Text(t) => Json::Text(t),
        Parts::Array(items) => {
            let mut list: Vec<Json> = Vec::new();
            let mut i: usize = 0;
            let ghost children = Seq::new(items@.len(), |i: int| tree(*items@[i]));
            while i < items.len()
                invariant
                    tree(*value) == JsonView::Array(children),
                    children == Seq::new(items@.len(), |i: int| tree(*items@[i])),
                    i <= items@.len(),
                    list@.len() == i,
                    forall|k: int| 0 <= k < i ==> list@[k].deep_view() == children[k],
                decreases items@.len() - i,
            {
                proof {
                    assert(decreases_to!(tree(*value) => tree(*value)->Array_0));
                    assert(decreases_to!(children => children[i as int]));
                }
                let item = from_value(items[i]);
                list.push(item);
                i += 1;
            }
            proof {
                json_view_array(list);
                assert(list.deep_view() =~= children);
            }
            Json::Array(list)
        },
        Parts::Object(entries) => {
            let mut list: Vec<(String, Json)> = Vec::new();
            let mut i: usize = 0;
            let ghost children = Seq::new(
                entries@.len(),
                |i: int| (entries@[i].0@, tree(*entries@[i].1)),
            );
            while i < entries.len()
                invariant
                    tree(*value) == JsonView::Object(children),
                    children == Seq::new(
                        entries@.len(),
                        |i: int| (entries@[i].0@, tree(*entries@[i].1)),
                    ),
                    i <= entries@.len(),
                    list@.len() == i,
                    forall|k: int| 0 <= k < i ==> list@[k].deep_view() == children[k],
                decreases entries@.len() - i,
            {
                proof {
                    assert(decreases_to!(tree(*value) => tree(*value)->Object_0));
                    assert(decreases_to!(children => children[i as int]));
                    assert(decreases_to!(children[i as int] => children[i as int].1));
                }
                let item = from_value(entries[i].1);
                let key = entries[i].0.clone();
                list.push((key, item));
                i += 1;
            }
            proof {
                json_view_object(list);
                assert(list.deep_view() =~= children);
            }
            Json::Object(list)
        },
    }
}

/// The value that `text` writes; `None` where it is not JSON.
pub fn parse(text: &str) -> (result: Option<Json>)
    ensures
        result.deep_view() == read_json(text@),
{
    match parse_value(text) {
        Ok(value) => Some(from_value(&value)),
        Err(_) => None,
    }
}

/// The value that `text` writes, or what is wrong with it, behind `what` was to be done.
pub fn parse_for(what: &str, text: &str) -> (result: Result<Json, String>)
    ensures
        match result {
            Ok(value) => read_json(text@) == Some(value.deep_view()),
            Err(error) => read_json(text@) is None && error@ == what@ + ": "@ + json_fault(text@),
        },
{
    match parse_value(text) {
        Ok(value) => Ok(from_value(&value)),
        Err(fault) => Err(text::join_three(what, ": ", fault.as_str())),
    }
}

/// One level of a value to be written.
pub enum Pieces {
    Null,
    Bool(bool),
    Unsigned(u64),
    Signed(i64),
    Decimal(String),
    Text(String),
    Array(Vec<serde_json::Value>),
}

/// What `serde_json` holds for one level; `text` is read again for a number that
/// is given as text.
pub open spec fn pieces_tree(pieces: Pieces) -> JsonView {
    match pieces {
        Pieces::Null => JsonView::Null,
        Pieces::Bool(b) => JsonView::Bool(b),
        Pieces::Unsigned(n) => JsonView::Unsigned(n),
        Pieces::Signed(n) => if n < 0 {
            JsonView::Signed(n)
        } else {
            JsonView::Unsigned(n as u64)
        },
        Pieces::Decimal(t) => match read_json(t@) {
            Some(value) => value,
            None => JsonView::Null,
        },
        Pieces::Text(t) => JsonView::Text(t@),
        Pieces::Array(items) => JsonView::Array(Seq::new(items@.len(), |i: int| tree(items@[i]))),
    }
}

/// The constructors of `serde_json::Value`: `From` for numbers, and `from_str` for
/// a number given as text (null where it does not parse).
#[verifier::external_body]
fn build_value(pieces: Pieces) -> (value: serde_json::Value)
    ensures
        tree(value) == pieces_tree(pieces),
{
    match pieces {
        Pieces::Null => serde_json::Value::Null,
        Pieces::Bool(b) => serde_json::Value::Bool(b),
        Pieces::Unsigned(n) => serde_json::Value::from(n),
        Pieces::Signed(n) => serde_json::Value::from(n),
        Pieces::Decimal(t) => serde_json::from_str(&t).unwrap_or(serde_json::Value::Null),
        Pieces::Text(t) => serde_json::Value::String(t),
        Pieces::Array(items) => serde_json::Value::Array(items),
    }
}

/// The object whose `serde_json::Map` is collected from `entries`: a `BTreeMap`, which
/// keeps its entries in the order of their keys, and of entries with one key the last.
#[verifier::external_body]
fn build_object(entries: Vec<(String, serde_json::Value)>) -> (value: serde_json::Value)
    ensures
        tree(value) == JsonView::Object(
            map_entries(Seq::new(entries@.len(), |i: int| (entries@[i].0@, tree(entries@[i].1)))),
        ),
{
    serde_json::Value::Object(entries.into_iter().collect())
}

/// `value` as `serde_json` holds it.
pub open spec fn stored(value: JsonView) -> JsonView
    decreases value,
{
    match value {
        JsonView::Signed(n) => if n < 0 {
            value
        } else {
            JsonView::Unsigned(n as u64)
        },
        JsonView::Decimal(t) => match read_json(t) {
            Some(number) => number,
            None => JsonView::Null,
        },
        JsonView::Array(items) => JsonView::Array(
            Seq::new(
                items.len(),
                |i: int|
                    if 0 <= i < items.len() {
                        stored(items[i])
                    } else {
                        JsonView::Null
                    },
            ),
        ),
        JsonView::Object(entries) => JsonView::Object(map_entries(stored_entries(entries))),
        _ => value,
    }
}

/// The entries of an object, each value as `serde_json` holds it.
pub open spec fn stored_entries(entries: Seq<(Seq<char>, JsonView)>) -> Seq<(Seq<char>, JsonView)>
    decreases entries,
{
    Seq::new(
        entries.len(),
        |i: int|
            if 0 <= i < entries.len() {
                (entries[i].0, stored(entries[i].1))
            } else {
                (Seq::empty(), JsonView::Null)
            },
    )
}

/// `json` as a `serde_json::Value`.
fn to_value(json: &Json) -> (value: serde_json::Value)
    ensures
        tree(value) == stored(json.deep_view()),
    decreases json,
{
    match json {
        Json::Null => build_value(Pieces::Null),
        Json::Bool(b) => build_value(Pieces::Bool(*b)),
        Json::Unsigned(n) => build_value(Pieces::Unsigned(*n)),
        Json::Signed(n) => build_value(Pieces::Signed(*n)),
        Json::Decimal(t) => build_value(Pieces::Decimal(t.clone())),
        Json::Text(t) => build_value(Pieces::Text(t.clone())),
        Json::Array(items) => {
            let mut list: Vec<serde_json::Value> = Vec::new();
            let mut i: usize = 0;
            while i < items.len()
                invariant
                    *json == Json::Array(*items),
                    i <= items@.len(),
                    list@.len() == i,
                    forall|k: int| 0 <= k < i ==> tree(list@[k]) == stored(items@[k].deep_view()),
                decreases items@.len() - i,
            {
                proof {
                    assert(decreases_to!(*json => json->Array_0));
                    assert(decreases_to!(items@ => items@[i as int]));
                }
                let item = to_value(&items[i]);
                list.push(item);
                i += 1;
            }
            let value = build_value(Pieces::Array(list));
            proof {
                json_view_array(*items);
                let seen = items.deep_view();
                assert(forall|k: int| 0 <= k < seen.len() ==> seen[k] == items@[k].deep_view());
                assert(tree(value)->Array_0 =~= stored(JsonView::Array(seen))->Array_0);
            }
            value
        },
        Json::Object(entries) => {
            let mut list: Vec<(String, serde_json::Value)> = Vec::new();
            let mut i: usize = 0;
            while i < entries.len()
                invariant
                    *json == Json::Object(*entries),
                    i <= entries@.len(),
                    list@.len() == i,
                    forall|k: int|
                        0 <= k < i ==> (#[trigger] list@[k]).0@ == entries@[k].0@ && tree(list@[k].1)
                            == stored(entries@[k].1.deep_view()),
                decreases entries@.len() - i,
            {
                proof {
                    assert(decreases_to!(*json => json->Object_0));
                    assert(decreases_to!(entries@ => entries@[i as int]));
                    assert(decreases_to!(entries@[i as int] => entries@[i as int].1));
                }
                let item = to_value(&entries[i].1);
                let key = entries[i].0.clone();
                list.push((key, item));
                i += 1;
            }
            let ghost held = Seq::new(list@.len(), |i: int| (list@[i].0@, tree(list@[i].1)));
            let value = build_object(list);
            proof {
                json_view_object(*entries);
                let seen = entries.deep_view();
                assert(forall|k: int|
                    0 <= k < seen.len() ==> seen[k] == (entries@[k].0@, entries@[k].1.deep_view()));
                assert(held =~= stored_entries(seen));
            }
            value
        },
    }
}

/// `serde_json::to_string` of a `serde_json::Value`, whose `Display` writes the
/// same text and cannot fail.
#[verifier::external_body]
fn value_text(value: &serde_json::Value) -> (text: String)
    ensures
        text@ == compact_json(tree(*value)),
{
    value.to_string()
}

/// Whether a value comes back from its text for certain: there is no number in it but
/// integers, and it is not deeper than `depth`.
pub open spec fn reads_back(value: JsonView, depth: nat) -> bool
    decreases depth,
{
    match value {
        JsonView::Signed(n) => n < 0,
        JsonView::Decimal(_) => false,
        JsonView::Array(items) => depth > 0 && forall|i: int|
            0 <= i < items.len() ==> reads_back(#[trigger] items[i], (depth - 1) as nat),
        JsonView::Object(entries) => depth > 0 && forall|i: int|
            0 <= i < entries.len() ==> reads_back((#[trigger] entries[i]).1, (depth - 1) as nat),
        _ => true,
    }
}

/// `serde_json::to_string_pretty` of a `serde_json::Value`, as its alternate
/// `Display` writes it. `serde_json::from_str` reads the value back from the text, where the
/// numbers in it are integers and it is not deeper than that function goes.
#[verifier::external_body]
fn value_pretty(value: &serde_json::Value) -> (text: String)
    ensures
        text@ == pretty_json(tree(*value)),
        reads_back(tree(*value), 100) ==> read_json(text@) == Some(tree(*value)),
{
    format!("{value:#}")
}

/// The compact text of a value.
pub open spec fn written(value: JsonView) -> Seq<char> {
    compact_json(stored(value))
}

/// The text of a value, indented.
pub open spec fn written_pretty(value: JsonView) -> Seq<char> {
    pretty_json(stored(value))
}

/// The compact text of `json`.
pub fn write(json: &Json) -> (text: String)
    ensures
        text@ == written(json.deep_view()),
{
    value_text(&to_value(json))
}

/// The text of `json`, indented.
pub fn write_pretty(json: &Json) -> (text: String)
    ensures
        text@ == written_pretty(json.deep_view()),
        reads_back(stored(json.deep_view()), 100) ==> read_json(text@) == Some(
            stored(json.deep_view()),
        ),
{
    value_pretty(&to_value(json))
}

} // verus!
