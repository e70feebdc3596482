//! A parsed JSON document as plain values, and the one trusted parse.
//!
//! `JsonDoc` mirrors a JSON value variant by variant: objects as entry
//! lists, numbers as their unsigned reading (`None` for a number that
//! has none — the only reading this library ever takes).  The single
//! trusted item parses a text through `serde_json` and converts it;
//! its result is named `json_doc_of`, so that every caller's contract
//! can speak of the document a text denotes.  All navigation below the
//! parse is verified code over `JsonDoc`.
use crate::text::str_eq;
use vstd::prelude::*;

verus! {

/// A JSON document: null, a boolean, a number as its `u64` reading (or
/// none), a string, an array, or an object as its entries in the order
/// the parser hands them out.
#[derive(Debug)]
pub enum JsonDoc {
    Null,
    Bool(bool),
    Num(Option<u64>),
    Text(String),
    Items(Vec<JsonDoc>),
    Entries(Vec<(String, JsonDoc)>),
}

#[verifier::external_type_specification]
#[verifier::external_body]
pub struct ExJsonValue(serde_json::Value);

/// The document a JSON text denotes, or the parser's message when it
/// denotes none.  A fixed text always denotes the same document.
pub uninterp spec fn json_doc_of(s: Seq<char>) -> Result<JsonDoc, String>;

/// Relies on `serde_json::Value`'s six variants: each is carried over
/// one for one, a number as its `as_u64` reading.
#[verifier::external_body]
fn doc_of_value(v: &serde_json::Value) -> JsonDoc {
    match v {
        serde_json::Value::Null => JsonDoc::Null,
        serde_json::Value::Bool(b) => JsonDoc::Bool(*b),
        serde_json::Value::Number(n) => JsonDoc::Num(n.as_u64()),
        serde_json::Value::String(s) => JsonDoc::Text(s.clone()),
        serde_json::Value::Array(a) => JsonDoc::Items(a.iter().map(doc_of_value).collect()),
        serde_json::Value::Object(m) => JsonDoc::Entries(
            m.iter().map(|(k, x)| (k.clone(), doc_of_value(x))).collect(),
        ),
    }
}

/// Relies on `serde_json::from_str::<serde_json::Value>`: reads one JSON
/// document, which `doc_of_value` carries over; the error branch holds
/// serde_json's own message.  The parse depends on the text alone, so
/// the result is the named `json_doc_of`.
#[verifier::external_body]
pub fn parse_json_doc(s: &str) -> (r: Result<JsonDoc, String>)
    ensures
        r == json_doc_of(s@),
{
    serde_json::from_str::<serde_json::Value>(s).map(|v| doc_of_value(&v)).map_err(|e| e.to_string())
}

/// The rendering of a list of documents by the standard formatter; it
/// depends on the listed values alone.
pub uninterp spec fn errors_debug_chars(errs: Seq<JsonDoc>) -> Seq<char>;

/// Relies on std's formatter with `JsonDoc`'s derived `Debug` for the
/// rendering of a remote error list.
#[verifier::external_body]
pub(crate) fn errors_debug(errors: &Vec<JsonDoc>) -> (r: String)
    ensures
        r@ == errors_debug_chars(errors@),
{
    format!("{:?}", errors)
}

/// The document under the first entry with the given key.
pub open spec fn entries_lookup(es: Seq<(String, JsonDoc)>, key: Seq<char>) -> Option<JsonDoc>
    decreases es.len(),
{
    if es.len() == 0 {
        None
    } else if es[0].0@ == key {
        Some(es[0].1)
    } else {
        entries_lookup(es.drop_first(), key)
    }
}

/// The member of an object under a key; `None` for a missing key or a
/// non-object.
pub open spec fn doc_get(d: JsonDoc, key: Seq<char>) -> Option<JsonDoc> {
    match d {
        JsonDoc::Entries(es) => entries_lookup(es@, key),
        _ => None,
    }
}

/// One navigation step deeper: `doc_get` through an optional document.
pub open spec fn doc_sub(d: Option<JsonDoc>, key: Seq<char>) -> Option<JsonDoc> {
    match d {
        Some(x) => doc_get(x, key),
        None => None,
    }
}

/// The elements, when the document is an array.
pub open spec fn doc_items(d: Option<JsonDoc>) -> Option<Seq<JsonDoc>> {
    match d {
        Some(JsonDoc::Items(v)) => Some(v@),
        _ => None,
    }
}

/// The element at an index, when the document is an array that long.
pub open spec fn doc_index(d: Option<JsonDoc>, i: int) -> Option<JsonDoc> {
    match doc_items(d) {
        Some(v) => if 0 <= i < v.len() {
            Some(v[i])
        } else {
            None
        },
        None => None,
    }
}

/// The characters, when the document is a string.
pub open spec fn doc_str(d: Option<JsonDoc>) -> Option<Seq<char>> {
    match d {
        Some(JsonDoc::Text(s)) => Some(s@),
        _ => None,
    }
}

/// The unsigned reading, when the document is a number that has one.
pub open spec fn doc_u64(d: Option<JsonDoc>) -> Option<u64> {
    match d {
        Some(JsonDoc::Num(o)) => o,
        _ => None,
    }
}

/// The boolean, when the document is one.
pub open spec fn doc_bool(d: Option<JsonDoc>) -> Option<bool> {
    match d {
        Some(JsonDoc::Bool(b)) => Some(b),
        _ => None,
    }
}

/// An optional reference's document, for relating borrowed navigation
/// results to the specs above.
pub open spec fn deref_opt(o: Option<&JsonDoc>) -> Option<JsonDoc> {
    match o {
        Some(x) => Some(*x),
        None => None,
    }
}

/// Looks a key up in a document.
pub fn key_of<'a>(d: &'a JsonDoc, key: &str) -> (r: Option<&'a JsonDoc>)
    ensures
        deref_opt(r) == doc_get(*d, key@),
{
    match d {
        JsonDoc::Entries(es) => {
            let n = es.len();
            let mut i: usize = 0;
            proof {
                assert(es@.skip(0) =~= es@);
            }
            while i < n
                invariant
                    i <= n == es@.len(),
                    doc_get(*d, key@) == entries_lookup(es@, key@),
                    entries_lookup(es@, key@) == entries_lookup(es@.skip(i as int), key@),
                decreases n - i,
            {
                proof {
                    assert(es@.skip(i as int)[0] == es@[i as int]);
                }
                if str_eq(es[i].0.as_str(), key) {
                    proof {
                        assert(entries_lookup(es@.skip(i as int), key@) == Some(es@[i as int].1));
                    }
                    return Some(&es[i].1);
                }
                proof {
                    assert(es@.skip(i as int).drop_first() =~= es@.skip(i as int + 1));
                }
                i = i + 1;
            }
            None
        },
        _ => None,
    }
}

/// Looks a key up one step deeper.
pub fn sub_of<'a>(d: Option<&'a JsonDoc>, key: &str) -> (r: Option<&'a JsonDoc>)
    ensures
        deref_opt(r) == doc_sub(deref_opt(d), key@),
{
    match d {
        Some(x) => key_of(x, key),
        None => None,
    }
}

/// The elements of an array document.
pub fn items_of<'a>(d: Option<&'a JsonDoc>) -> (r: Option<&'a Vec<JsonDoc>>)
    ensures
        (match r {
            Some(v) => doc_items(deref_opt(d)) == Some(v@),
            None => doc_items(deref_opt(d)) is None,
        }),
{
    match d {
        Some(JsonDoc::Items(v)) => Some(v),
        _ => None,
    }
}

/// The element of an array document at an index.
pub fn index_of<'a>(d: Option<&'a JsonDoc>, i: usize) -> (r: Option<&'a JsonDoc>)
    ensures
        deref_opt(r) == doc_index(deref_opt(d), i as int),
{
    match items_of(d) {
        Some(v) => {
            if i < v.len() {
                Some(&v[i])
            } else {
                None
            }
        },
        None => None,
    }
}

/// The characters of a string document.
pub fn str_of<'a>(d: Option<&'a JsonDoc>) -> (r: Option<&'a str>)
    ensures
        (match r {
            Some(s) => doc_str(deref_opt(d)) == Some(s@),
            None => doc_str(deref_opt(d)) is None,
        }),
{
    match d {
        Some(JsonDoc::Text(s)) => Some(s.as_str()),
        _ => None,
    }
}

/// The unsigned reading of a number document.
pub fn u64_of(d: Option<&JsonDoc>) -> (r: Option<u64>)
    ensures
        r == doc_u64(deref_opt(d)),
{
    match d {
        Some(JsonDoc::Num(o)) => *o,
        _ => None,
    }
}

/// The boolean of a boolean document.
pub fn bool_of(d: Option<&JsonDoc>) -> (r: Option<bool>)
    ensures
        r == doc_bool(deref_opt(d)),
{
    match d {
        Some(JsonDoc::Bool(b)) => Some(*b),
        _ => None,
    }
}

} // verus!
