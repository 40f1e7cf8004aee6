//! What is read from JSON texts.

use vstd::prelude::*;
use crate::numbers;

verus! {

/// What a JSON text holds under a key.
#[derive(Debug, PartialEq, Eq)]
pub enum JsonMember {
    /// The text is no JSON.
    Invalid,
    /// The JSON value is no object, or has no such key.
    Missing,
    /// A string.
    Text(String),
    /// Another value, as JSON text.
    Other(String),
}

/// What a JSON text holds under a key.
pub ghost enum Member {
    Invalid,
    Missing,
    Text(Seq<char>),
    Other(Seq<char>),
}

impl View for JsonMember {
    type V = Member;

    open spec fn view(&self) -> Member {
        match self {
            JsonMember::Invalid => Member::Invalid,
            JsonMember::Missing => Member::Missing,
            JsonMember::Text(t) => Member::Text(t@),
            JsonMember::Other(t) => Member::Other(t@),
        }
    }
}

/// What `serde_json` finds under `key` in a JSON text.
pub uninterp spec fn json_member_of(text: Seq<char>, key: Seq<char>) -> Member;

/// `serde_json::from_str` to a `Value`, and `Value::get` on it: what the text holds under `key`.
/// It depends on the two texts alone.
#[verifier::external_body]
pub(crate) fn json_member(text: &str, key: &str) -> (r: JsonMember)
    ensures
        r@ == json_member_of(text@, key@),
{
    match serde_json::from_str::<serde_json::Value>(text) {
        Err(_) => JsonMember::Invalid,
        Ok(value) => match value.get(key) {
            None => JsonMember::Missing,
            Some(serde_json::Value::String(s)) => JsonMember::Text(s.clone()),
            Some(other) => JsonMember::Other(other.to_string()),
        },
    }
}

/// The text that `serde_json` reads from a JSON string literal.
pub uninterp spec fn json_string_of(literal: Seq<char>) -> Option<Seq<char>>;

/// The view of an optional text.
pub open spec fn opt_view(t: Option<String>) -> Option<Seq<char>> {
    match t {
        Some(s) => Some(s@),
        None => None,
    }
}

/// `serde_json::from_str` to a `String`: the text of a JSON string literal, or nothing where it is
/// none. It depends on the literal alone.
#[verifier::external_body]
pub(crate) fn json_string(literal: &str) -> (r: Option<String>)
    ensures
        opt_view(r) == json_string_of(literal@),
{
    serde_json::from_str::<String>(literal).ok()
}

/// A text as a Rust string literal.
pub uninterp spec fn debug_form(text: Seq<char>) -> Seq<char>;

/// The `Debug` form of a `str` of std: the text in double quotes, with escapes. It depends on the
/// text alone.
#[verifier::external_body]
pub(crate) fn debug_text(text: &str) -> (r: String)
    ensures
        r@ == debug_form(text@),
{
    format!("{:?}", text)
}

/// A text as a JSON string literal.
pub uninterp spec fn json_quote_of(text: Seq<char>) -> Seq<char>;

/// `serde_json::Value::from` a text, and `Value::to_string`: the text as a JSON string literal. It
/// depends on the text alone.
#[verifier::external_body]
pub(crate) fn json_quoted(text: &str) -> (r: String)
    ensures
        r@ == json_quote_of(text@),
{
    serde_json::Value::from(text).to_string()
}

/// The values of a JSON array, each as JSON text.
pub uninterp spec fn json_items_of(text: Seq<char>) -> Option<Seq<Seq<char>>>;

/// What a list of values holds, where there is one.
pub open spec fn opt_views(v: Option<Vec<String>>) -> Option<Seq<Seq<char>>> {
    match v {
        Some(list) => Some(crate::words::views(list@)),
        None => None,
    }
}

/// `serde_json::from_str` to a `Vec` of `Value`, and `Value::to_string` of each: the values of a
/// JSON array, or nothing where the text is none. It depends on the text alone.
#[verifier::external_body]
pub(crate) fn json_items(text: &str) -> (r: Option<Vec<String>>)
    ensures
        opt_views(r) == json_items_of(text@),
{
    let items = serde_json::from_str::<Vec<serde_json::Value>>(text).ok()?;
    Some(items.iter().map(|v| v.to_string()).collect())
}

/// A `bool` as JSON.
pub open spec fn json_bool(b: bool) -> Seq<char> {
    if b {
        "true"@
    } else {
        "false"@
    }
}

/// A value of a JSON object.
#[derive(Debug, PartialEq, Eq)]
pub enum JsonValue {
    Text(String),
    Number(i64),
    Flag(bool),
    Null,
    /// A value that is given as JSON text; `null` where it is none.
    Json(String),
}

/// What a value of a JSON object holds.
pub ghost enum Datum {
    Text(Seq<char>),
    Number(int),
    Flag(bool),
    Null,
    Json(Seq<char>),
}

impl View for JsonValue {
    type V = Datum;

    open spec fn view(&self) -> Datum {
        match self {
            JsonValue::Text(t) => Datum::Text(t@),
            JsonValue::Number(n) => Datum::Number(*n as int),
            JsonValue::Flag(b) => Datum::Flag(*b),
            JsonValue::Null => Datum::Null,
            JsonValue::Json(t) => Datum::Json(t@),
        }
    }
}

/// A key of a JSON object and its value.
#[derive(Debug, PartialEq, Eq)]
pub struct JsonField {
    pub key: String,
    pub value: JsonValue,
}

/// The keys and values of a JSON object.
pub open spec fn field_views(v: Seq<JsonField>) -> Seq<(Seq<char>, Datum)> {
    Seq::new(v.len(), |i: int| (v[i].key@, v[i].value@))
}

/// The JSON text that `serde_json` writes for an object with the given keys and values.
pub uninterp spec fn json_object_of(fields: Seq<(Seq<char>, Datum)>) -> Seq<char>;

/// No key occurs twice.
pub open spec fn distinct_keys(fields: Seq<(Seq<char>, Datum)>) -> bool {
    forall|i: int, j: int|
        0 <= i < j < fields.len() ==> (#[trigger] fields[i]).0 != (#[trigger] fields[j]).0
}

/// An object that reads back: no key occurs twice, and no value is given as JSON text, which may be
/// nested too deeply to be read inside of an object.
pub open spec fn readable(fields: Seq<(Seq<char>, Datum)>) -> bool {
    &&& distinct_keys(fields)
    &&& forall|i: int| 0 <= i < fields.len() ==> !((#[trigger] fields[i]).1 is Json)
}

/// What is read of a value that was written: a text as a text, and a number, a flag or `null` as
/// its JSON text.
pub open spec fn reads_back(d: Datum, m: Member) -> bool {
    match d {
        Datum::Text(t) => m == Member::Text(t),
        Datum::Number(n) => m == Member::Other(numbers::decimal_int(n)),
        Datum::Flag(b) => m == Member::Other(json_bool(b)),
        Datum::Null => m == Member::Other("null"@),
        Datum::Json(_) => false,
    }
}

/// Reading a JSON object gives back what was written under each key, and nothing under others.
pub open spec fn object_reads_back(fields: Seq<(Seq<char>, Datum)>, text: Seq<char>) -> bool {
    &&& forall|i: int|
        0 <= i < fields.len() ==> reads_back(
            (#[trigger] fields[i]).1,
            json_member_of(text, fields[i].0),
        )
    &&& forall|key: Seq<char>|
        (forall|i: int| 0 <= i < fields.len() ==> (#[trigger] fields[i]).0 != key)
            ==> #[trigger] json_member_of(text, key) == Member::Missing
}

/// `serde_json::Map::insert` for each key, and `Value::to_string` of the object: its JSON text,
/// which depends on the keys and values alone. Where no key occurs twice, and each value is a text,
/// a number, a flag or `null`, reading the text gives back what was written. What is read where a
/// value is given as JSON text is left open.
#[verifier::external_body]
pub(crate) fn json_object(fields: &[JsonField]) -> (r: String)
    ensures
        r@ == json_object_of(field_views(fields@)),
        readable(field_views(fields@)) ==> object_reads_back(field_views(fields@), r@),
{
    let mut map = serde_json::Map::new();
    for field in fields {
        let value = match &field.value {
            JsonValue::Text(t) => serde_json::Value::from(t.as_str()),
            JsonValue::Number(n) => serde_json::Value::from(*n),
            JsonValue::Flag(b) => serde_json::Value::from(*b),
            JsonValue::Null => serde_json::Value::Null,
            JsonValue::Json(t) => serde_json::from_str(t).unwrap_or(serde_json::Value::Null),
        };
        map.insert(field.key.clone(), value);
    }
    serde_json::Value::Object(map).to_string()
}

/// A field of a JSON object.
pub fn field(key: &str, value: JsonValue) -> (r: JsonField)
    ensures
        r.key@ == key@,
        r.value == value,
{
    JsonField { key: key.to_owned(), value }
}

/// A field that holds a text.
pub fn text_field(key: &str, text: &str) -> (r: JsonField)
    ensures
        r.key@ == key@,
        r.value@ == Datum::Text(text@),
{
    JsonField { key: key.to_owned(), value: JsonValue::Text(text.to_owned()) }
}

/// A text, or `null`.
pub open spec fn text_or_null(t: Option<Seq<char>>) -> Datum {
    match t {
        Some(s) => Datum::Text(s),
        None => Datum::Null,
    }
}

/// A field that holds a text or `null`.
pub fn opt_field(key: &str, text: Option<&str>) -> (r: JsonField)
    ensures
        r.key@ == key@,
        r.value@ == text_or_null(
            match text {
                Some(t) => Some(t@),
                None => None,
            },
        ),
{
    let value = match text {
        Some(t) => JsonValue::Text(t.to_owned()),
        None => JsonValue::Null,
    };
    JsonField { key: key.to_owned(), value }
}

/// A JSON object of one field.
pub fn object1(a: JsonField) -> (r: String)
    ensures
        r@ == json_object_of(seq![(a.key@, a.value@)]),
        readable(seq![(a.key@, a.value@)]) ==> object_reads_back(
            seq![(a.key@, a.value@)],
            r@,
        ),
{
    let v = vec![a];
    assert(field_views(v@) =~= seq![(a.key@, a.value@)]);
    json_object(v.as_slice())
}

/// A JSON object of two fields.
pub fn object2(a: JsonField, b: JsonField) -> (r: String)
    ensures
        r@ == json_object_of(seq![(a.key@, a.value@), (b.key@, b.value@)]),
        readable(seq![(a.key@, a.value@), (b.key@, b.value@)]) ==> object_reads_back(
            seq![(a.key@, a.value@), (b.key@, b.value@)],
            r@,
        ),
{
    let v = vec![a, b];
    assert(field_views(v@) =~= seq![(a.key@, a.value@), (b.key@, b.value@)]);
    json_object(v.as_slice())
}

/// A JSON object of three fields.
pub fn object3(a: JsonField, b: JsonField, c: JsonField) -> (r: String)
    ensures
        r@ == json_object_of(seq![(a.key@, a.value@), (b.key@, b.value@), (c.key@, c.value@)]),
        readable(seq![(a.key@, a.value@), (b.key@, b.value@), (c.key@, c.value@)])
            ==> object_reads_back(
            seq![(a.key@, a.value@), (b.key@, b.value@), (c.key@, c.value@)],
            r@,
        ),
{
    let v = vec![a, b, c];
    assert(field_views(v@) =~= seq![(a.key@, a.value@), (b.key@, b.value@), (c.key@, c.value@)]);
    json_object(v.as_slice())
}

/// A JSON object of four fields.
pub fn object4(a: JsonField, b: JsonField, c: JsonField, d: JsonField) -> (r: String)
    ensures
        r@ == json_object_of(
            seq![(a.key@, a.value@), (b.key@, b.value@), (c.key@, c.value@), (d.key@, d.value@)],
        ),
        readable(
            seq![(a.key@, a.value@), (b.key@, b.value@), (c.key@, c.value@), (d.key@, d.value@)],
        ) ==> object_reads_back(
            seq![(a.key@, a.value@), (b.key@, b.value@), (c.key@, c.value@), (d.key@, d.value@)],
            r@,
        ),
{
    let v = vec![a, b, c, d];
    assert(field_views(v@) =~= seq![
        (a.key@, a.value@),
        (b.key@, b.value@),
        (c.key@, c.value@),
        (d.key@, d.value@),
    ]);
    json_object(v.as_slice())
}

/// A JSON array of the given values.
pub open spec fn json_array(v: Seq<Seq<char>>) -> Seq<char> {
    "["@ + crate::words::joined(v, ","@) + "]"@
}

/// A JSON array of the given values.
pub fn array_text(v: &[String]) -> (r: String)
    ensures
        r@ == json_array(crate::words::views(v@)),
{
    let mut s = "[".to_owned();
    s.append(crate::words::join(v, ",").as_str());
    s.append("]");
    s
}

/// One more value stands behind a comma, before the end of the array.
pub proof fn arrays_grow_at_the_end(v: Seq<Seq<char>>, t: Seq<char>)
    ensures
        json_array(Seq::empty()) == seq!['[', ']'],
        json_array(seq![t]) == seq!['['] + t + seq![']'],
        v.len() > 0 ==> json_array(v.push(t)) == json_array(v).drop_last() + seq![','] + t + seq![
            ']',
        ],
{
    reveal_strlit("[");
    reveal_strlit("]");
    reveal_strlit(",");
    assert("["@ =~= seq!['[']);
    assert("]"@ =~= seq![']']);
    assert(","@ =~= seq![',']);
    let none = Seq::<Seq<char>>::empty();
    assert(crate::words::joined(none, ","@) =~= Seq::<char>::empty());
    assert(json_array(none) =~= seq!['[', ']']);
    assert(v.push(t).drop_last() =~= v);
    assert(json_array(v).drop_last() =~= "["@ + crate::words::joined(v, ","@));
    if v.len() > 0 {
        assert(json_array(v.push(t)) =~= json_array(v).drop_last() + seq![','] + t + seq![']']);
    }
}

} // verus!
