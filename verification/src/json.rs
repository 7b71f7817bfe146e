//! JSON documents through serde_json: parsing, reading members, building and
//! updating objects, and pretty printing. A document is an opaque
//! `serde_json::Value`; what the logic reads of it is stated through the
//! names below.

use vstd::prelude::*;

verus! {

/// A JSON document as serde_json holds it. Nothing inside is visible: it may
/// hold floating-point numbers.
#[verifier::external_type_specification]
#[verifier::external_body]
pub struct ExJsonValue(serde_json::Value);

/// What `serde_json::from_str::<Value>` gives for a text: the document, or
/// the text of the parse error.
pub uninterp spec fn json_parse(text: Seq<char>) -> Result<serde_json::Value, Seq<char>>;

/// The members of a document that is an object, by key; `None` for any
/// other document.
pub uninterp spec fn json_object(v: serde_json::Value) -> Option<Map<Seq<char>, serde_json::Value>>;

/// The items of a document that is an array; `None` for any other document.
pub uninterp spec fn json_array_items(v: serde_json::Value) -> Option<Seq<serde_json::Value>>;

/// The text of a document that is a string; `None` for any other document.
pub uninterp spec fn json_str(v: serde_json::Value) -> Option<Seq<char>>;

/// The document `Value::from(s)` for a string.
pub uninterp spec fn json_of_string(s: Seq<char>) -> serde_json::Value;

/// The document `Value::from(n)` for an unsigned number.
pub uninterp spec fn json_of_u64(n: u64) -> serde_json::Value;

/// The document `Value::from(b)` for a boolean.
pub uninterp spec fn json_of_bool(b: bool) -> serde_json::Value;

/// What `serde_json::to_string_pretty` gives for a document: its indented
/// text, or the text of the error.
pub uninterp spec fn json_pretty(v: serde_json::Value) -> Result<Seq<char>, Seq<char>>;

/// What `serde_json::to_string` gives for a document: its compact text, or
/// the text of the error.
pub uninterp spec fn json_compact(v: serde_json::Value) -> Result<Seq<char>, Seq<char>>;

/// Calls `serde_json::from_str::<Value>`; the error is given as its text.
/// The result is named by `json_parse`, a function of the text alone.
#[verifier::external_body]
pub(crate) fn parse_json(text: &str) -> (r: Result<serde_json::Value, String>)
    ensures
        match r {
            Ok(v) => json_parse(text@) == Ok::<serde_json::Value, Seq<char>>(v),
            Err(e) => json_parse(text@) == Err::<serde_json::Value, Seq<char>>(e@),
        },
{
    serde_json::from_str::<serde_json::Value>(text).map_err(|e| e.to_string())
}

/// Calls `Value::is_object`, which is true exactly for an object.
#[verifier::external_body]
pub(crate) fn json_is_object(v: &serde_json::Value) -> (r: bool)
    ensures
        r == json_object(*v) is Some,
{
    v.is_object()
}

/// The member `key` of `v` when it has one.
pub open spec fn json_member_of(v: serde_json::Value, key: Seq<char>) -> Option<serde_json::Value> {
    match json_object(v) {
        Some(m) => if m.dom().contains(key) {
            Some(m[key])
        } else {
            None
        },
        None => None,
    }
}

/// Calls `Value::get` with a string key and clones what it finds: the member
/// `key` of an object, `None` when the object lacks it or `v` is not an
/// object.
#[verifier::external_body]
pub(crate) fn json_member(v: &serde_json::Value, key: &str) -> (r: Option<serde_json::Value>)
    ensures
        r == json_member_of(*v, key@),
{
    v.get(key).cloned()
}

/// Calls `Map::new` and wraps it as a document: an object with no members.
#[verifier::external_body]
pub(crate) fn empty_json_object() -> (r: serde_json::Value)
    ensures
        json_object(r) == Some(Map::<Seq<char>, serde_json::Value>::empty()),
{
    serde_json::Value::Object(serde_json::Map::new())
}

/// Assigns through `IndexMut` with a string key on an object: the member
/// `key` is set to `val` (added or replaced) and every other member keeps its
/// value.
#[verifier::external_body]
pub(crate) fn json_set(v: &mut serde_json::Value, key: &str, val: serde_json::Value)
    requires
        json_object(*old(v)) is Some,
    ensures
        json_object(*final(v)) == Some(json_object(*old(v))->0.insert(key@, val)),
{
    v[key] = val;
}

/// Calls `Value::from` on a string slice.
#[verifier::external_body]
pub(crate) fn json_string(s: &str) -> (r: serde_json::Value)
    ensures
        r == json_of_string(s@),
{
    serde_json::Value::from(s)
}

/// Calls `Value::from` on a `u64`.
#[verifier::external_body]
pub(crate) fn json_u64(n: u64) -> (r: serde_json::Value)
    ensures
        r == json_of_u64(n),
{
    serde_json::Value::from(n)
}

/// Calls `Value::from` on a `bool`.
#[verifier::external_body]
pub(crate) fn json_bool(b: bool) -> (r: serde_json::Value)
    ensures
        r == json_of_bool(b),
{
    serde_json::Value::from(b)
}

/// Calls `Value::from` on a vector of documents: an array of them, in
/// order.
#[verifier::external_body]
pub(crate) fn json_array(items: Vec<serde_json::Value>) -> (r: serde_json::Value)
    ensures
        json_array_items(r) == Some(items@),
{
    serde_json::Value::from(items)
}

/// Calls `Value::as_str` and copies the text.
#[verifier::external_body]
pub(crate) fn json_as_str(v: &serde_json::Value) -> (r: Option<String>)
    ensures
        match r {
            Some(s) => json_str(*v) == Some(s@),
            None => json_str(*v) is None,
        },
{
    v.as_str().map(|s| s.to_string())
}

/// Calls `serde_json::to_string_pretty`; the error is given as its text.
#[verifier::external_body]
pub(crate) fn json_to_pretty(v: &serde_json::Value) -> (r: Result<String, String>)
    ensures
        match r {
            Ok(s) => json_pretty(*v) == Ok::<Seq<char>, Seq<char>>(s@),
            Err(e) => json_pretty(*v) == Err::<Seq<char>, Seq<char>>(e@),
        },
{
    serde_json::to_string_pretty(v).map_err(|e| e.to_string())
}

/// Calls `serde_json::to_string`; the error is given as its text.
#[verifier::external_body]
pub(crate) fn json_to_compact(v: &serde_json::Value) -> (r: Result<String, String>)
    ensures
        match r {
            Ok(s) => json_compact(*v) == Ok::<Seq<char>, Seq<char>>(s@),
            Err(e) => json_compact(*v) == Err::<Seq<char>, Seq<char>>(e@),
        },
{
    serde_json::to_string(v).map_err(|e| e.to_string())
}

/// The document reached from `v` through the members named by `path`.
pub open spec fn json_at(v: serde_json::Value, path: Seq<Seq<char>>) -> Option<serde_json::Value>
    decreases path.len(),
{
    if path.len() == 0 {
        Some(v)
    } else {
        match json_member_of(v, path[0]) {
            Some(m) => json_at(m, path.drop_first()),
            None => None,
        }
    }
}

/// The string found in the JSON text `text` through the members `path`:
/// `None` when the text does not parse, a member is missing, or the value
/// there is not a string.
pub open spec fn json_text_at(text: Seq<char>, path: Seq<Seq<char>>) -> Option<Seq<char>> {
    match json_parse(text) {
        Ok(v) => match json_at(v, path) {
            Some(x) => json_str(x),
            None => None,
        },
        Err(_) => None,
    }
}

/// The string in the document `v` through the members `path`, if any.
pub fn json_string_in(v: &serde_json::Value, path: &Vec<&str>) -> (r: Option<String>)
    ensures
        match r {
            Some(s) => json_at(*v, path@.map_values(|k: &str| k@)) matches Some(x) && json_str(x)
                == Some(s@),
            None => match json_at(*v, path@.map_values(|k: &str| k@)) {
                Some(x) => json_str(x) is None,
                None => true,
            },
        },
{
    let ghost keys = path@.map_values(|k: &str| k@);
    if path.len() == 0 {
        return json_as_str(v);
    }
    assert(keys[0] == path@[0]@);
    assert(keys.drop_first() =~= keys.skip(1));
    let mut cur = match json_member(v, path[0]) {
        Some(m) => m,
        None => {
            return None;
        },
    };
    let mut i: usize = 1;
    while i < path.len()
        invariant
            i <= path.len(),
            keys == path@.map_values(|k: &str| k@),
            json_at(*v, keys) == json_at(cur, keys.skip(i as int)),
        decreases path.len() - i,
    {
        assert(keys.skip(i as int)[0] == path@[i as int]@);
        assert(keys.skip(i as int).drop_first() =~= keys.skip(i + 1));
        match json_member(&cur, path[i]) {
            Some(m) => {
                cur = m;
            },
            None => {
                return None;
            },
        }
        i = i + 1;
    }
    assert(keys.skip(i as int) =~= Seq::<Seq<char>>::empty());
    json_as_str(&cur)
}

/// The string in the JSON text `text` through the members `path`, if any.
pub fn json_string_at(text: &str, path: &Vec<&str>) -> (r: Option<String>)
    ensures
        match r {
            Some(s) => json_text_at(text@, path@.map_values(|k: &str| k@)) == Some(s@),
            None => json_text_at(text@, path@.map_values(|k: &str| k@)) is None,
        },
{
    match parse_json(text) {
        Ok(v) => json_string_in(&v, path),
        Err(_) => None,
    }
}

} // verus!
