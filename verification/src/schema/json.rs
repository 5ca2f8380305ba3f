//! JSON values, as far as a schema is written in them.
use crate::schema::texts_view;
use vstd::prelude::*;
use vstd::utf8::{encode_utf8, encode_utf8_decode_utf8};

verus! {

/// A JSON number.
#[derive(Debug, Clone, Copy, PartialEq, Eq, Structural, Hash)]
pub enum Number {
    /// An integer that is not negative.
    PosInt(u64),
    /// An integer that is negative.
    NegInt(i64),
    /// Any other number; its value is not kept.
    Fraction,
}

/// A JSON value. The entries of an object are kept in the order in which
/// they are written; of two entries with one key the later one counts.
#[derive(Debug, PartialEq, Hash)]
pub enum Json {
    /// `null`
    Null,
    /// `true` or `false`
    Bool(bool),
    /// A number
    Number(Number),
    /// A string
    String(String),
    /// An array of values
    Array(Vec<Json>),
    /// An object: entries of a key and a value
    Object(Vec<(String, Json)>),
}

/// What a [`Json`] value is.
pub enum JsonView {
    /// `null`
    Null,
    /// `true` or `false`
    Bool(bool),
    /// A number
    Number(Number),
    /// A string, by its characters
    String(Seq<char>),
    /// An array, by the values in it
    Array(Seq<JsonView>),
    /// An object, by its entries in their order
    Object(Seq<(Seq<char>, JsonView)>),
}

/// The model of a JSON value.
pub open spec fn json_view(json: Json) -> JsonView
    decreases json,
{
    match json {
        Json::Null => JsonView::Null,
        Json::Bool(b) => JsonView::Bool(b),
        Json::Number(n) => JsonView::Number(n),
        Json::String(s) => JsonView::String(s@),
        Json::Array(items) => JsonView::Array(jsons_view(items)),
        Json::Object(entries) => JsonView::Object(entries_view(entries)),
    }
}

/// The models of the values of a list.
pub open spec fn jsons_view(items: Vec<Json>) -> Seq<JsonView>
    decreases items,
{
    Seq::new(
        items@.len(),
        |i: int|
            if 0 <= i < items@.len() {
                json_view(items@[i])
            } else {
                JsonView::Null
            },
    )
}

/// The models of the entries of an object.
pub open spec fn entries_view(entries: Vec<(String, Json)>) -> Seq<(Seq<char>, JsonView)>
    decreases entries,
{
    Seq::new(
        entries@.len(),
        |i: int|
            if 0 <= i < entries@.len() {
                (entries@[i].0@, json_view(entries@[i].1))
            } else {
                (Seq::empty(), JsonView::Null)
            },
    )
}

impl View for Json {
    type V = JsonView;

    open spec fn view(&self) -> JsonView {
        json_view(*self)
    }
}

/// Copies a JSON value.
pub fn clone_json(json: &Json) -> (copy: Json)
    ensures
        copy@ == json@,
    decreases json,
{
    match json {
        Json::Null => Json::Null,
        Json::Bool(b) => Json::Bool(*b),
        Json::Number(n) => Json::Number(*n),
        Json::String(s) => Json::String(s.clone()),
        Json::Array(items) => Json::Array(clone_jsons(items)),
        Json::Object(entries) => Json::Object(clone_entries(entries)),
    }
}

/// Copies a list of JSON values.
pub fn clone_jsons(items: &Vec<Json>) -> (copy: Vec<Json>)
    ensures
        jsons_view(copy) == jsons_view(*items),
    decreases items,
{
    let mut copy: Vec<Json> = Vec::new();
    let mut i: usize = 0;
    while i < items.len()
        invariant
            i <= items@.len(),
            copy@.len() == i,
            forall|k: int| 0 <= k < i ==> json_view(copy@[k]) == json_view(items@[k]),
        decreases items@.len() - i,
    {
        copy.push(clone_json(&items[i]));
        i += 1;
    }
    assert(jsons_view(copy) =~= jsons_view(*items));
    copy
}

/// Copies the entries of an object.
pub fn clone_entries(entries: &Vec<(String, Json)>) -> (copy: Vec<(String, Json)>)
    ensures
        entries_view(copy) == entries_view(*entries),
    decreases entries,
{
    let mut copy: Vec<(String, Json)> = Vec::new();
    let mut i: usize = 0;
    while i < entries.len()
        invariant
            i <= entries@.len(),
            copy@.len() == i,
            forall|k: int|
                0 <= k < i ==> copy@[k].0@ == entries@[k].0@ && json_view(copy@[k].1)
                    == json_view(entries@[k].1),
        decreases entries@.len() - i,
    {
        let key = entries[i].0.clone();
        let value = clone_json(&entries[i].1);
        copy.push((key, value));
        i += 1;
    }
    assert(entries_view(copy) =~= entries_view(*entries));
    copy
}

impl Clone for Json {
    fn clone(&self) -> (copy: Self)
        ensures
            copy@ == self@,
    {
        clone_json(self)
    }
}

/// The place of the last entry with the key `key` among the first `n`
/// entries, or -1 where there is none.
pub open spec fn index_of_last<V>(entries: Seq<(Seq<char>, V)>, key: Seq<char>, n: nat) -> int
    decreases n,
{
    if n == 0 || n > entries.len() {
        -1
    } else if entries[n - 1].0 == key {
        n - 1
    } else {
        index_of_last(entries, key, (n - 1) as nat)
    }
}

/// The value that an object holds under `key`: that of the last entry with
/// this key.
pub open spec fn get<V>(entries: Seq<(Seq<char>, V)>, key: Seq<char>) -> Option<V> {
    let i = index_of_last(entries, key, entries.len());
    if 0 <= i < entries.len() {
        Some(entries[i].1)
    } else {
        None
    }
}

/// `index_of_last` is -1 or the place of an entry with the key.
pub proof fn lemma_index_of_last<V>(entries: Seq<(Seq<char>, V)>, key: Seq<char>, n: nat)
    requires
        n <= entries.len(),
    ensures
        -1 <= index_of_last(entries, key, n) < n,
        index_of_last(entries, key, n) >= 0 ==> entries[index_of_last(entries, key, n)].0 == key,
    decreases n,
{
    if n > 0 && entries[n - 1].0 != key {
        lemma_index_of_last(entries, key, (n - 1) as nat);
    }
}

/// Whether two texts are the same.
pub fn str_eq(a: &str, b: &str) -> (same: bool)
    ensures
        same == (a@ == b@),
{
    let x = a.as_bytes();
    let y = b.as_bytes();
    proof {
        encode_utf8_decode_utf8(a@);
        encode_utf8_decode_utf8(b@);
    }
    if x.len() != y.len() {
        return false;
    }
    let mut i: usize = 0;
    while i < x.len()
        invariant
            x@.len() == y@.len(),
            i <= x@.len(),
            forall|k: int| 0 <= k < i ==> x@[k] == y@[k],
            x@ == encode_utf8(a@),
            y@ == encode_utf8(b@),
        decreases x@.len() - i,
    {
        if x[i] != y[i] {
            return false;
        }
        i += 1;
    }
    assert(x@ =~= y@);
    true
}

/// The place of the entry that counts for `key`, if there is one.
pub fn find(entries: &Vec<(String, Json)>, key: &str) -> (place: Option<usize>)
    ensures
        match place {
            Some(i) => i < entries@.len() && get(entries_view(*entries), key@) == Some(
                entries@[i as int].1@,
            ),
            None => get(entries_view(*entries), key@) is None,
        },
{
    let ghost view = entries_view(*entries);
    let mut n: usize = entries.len();
    while n > 0
        invariant
            n <= entries@.len(),
            view == entries_view(*entries),
            index_of_last(view, key@, view.len()) == index_of_last(view, key@, n as nat),
        decreases n,
    {
        if str_eq(entries[n - 1].0.as_str(), key) {
            return Some(n - 1);
        }
        n -= 1;
    }
    None
}

/// Appends an entry to those of an object.
pub fn put(entries: &mut Vec<(String, Json)>, key: &str, value: Json)
    ensures
        entries_view(*final(entries)) == entries_view(*old(entries)).push((key@, value@)),
{
    entries.push((key.to_owned(), value));
    assert(entries_view(*entries) =~= entries_view(*old(entries)).push((key@, value@)));
}

/// The JSON string with the characters of `text`.
pub fn text(s: &str) -> (json: Json)
    ensures
        json@ == JsonView::String(s@),
{
    Json::String(s.to_owned())
}

/// The JSON array of the strings `texts`.
pub fn texts(list: &Vec<String>) -> (json: Json)
    ensures
        json@ == texts_json(texts_view(*list)),
{
    let mut items: Vec<Json> = Vec::new();
    let mut i: usize = 0;
    while i < list.len()
        invariant
            i <= list@.len(),
            items@.len() == i,
            forall|k: int| 0 <= k < i ==> json_view(items@[k]) == JsonView::String(list@[k]@),
        decreases list@.len() - i,
    {
        items.push(Json::String(list[i].clone()));
        i += 1;
    }
    assert(jsons_view(items) =~= texts_json(texts_view(*list))->Array_0);
    Json::Array(items)
}

/// The JSON array of strings that stands for a list of texts.
pub open spec fn texts_json(texts: Seq<Seq<char>>) -> JsonView {
    JsonView::Array(Seq::new(texts.len(), |i: int| JsonView::String(texts[i])))
}

/// The JSON number that stands for a size.
pub open spec fn size_json(n: usize) -> JsonView {
    JsonView::Number(Number::PosInt(n as u64))
}

/// The JSON number `n`.
pub fn size(n: usize) -> (json: Json)
    ensures
        json@ == size_json(n),
{
    Json::Number(Number::PosInt(n as u64))
}

} // verus!
