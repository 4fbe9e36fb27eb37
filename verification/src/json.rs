//! Best-effort reading of JSON out of free text.
//!
//! A JSON value is handled as text. `serde_json` parses one level of it at a
//! time: the parse yields the value's shape, in which the elements of an
//! array and the members of an object are again JSON text. Everything that
//! is decided about a shape is verified; only the parse itself is trusted.

use crate::string_map::key_index;
use crate::text::{
    find_first, find_last, first_index_of, from_chars, last_index_of, opt_view, to_chars,
};
use serde_json::Value;
use vstd::prelude::*;

verus! {

/// One level of a JSON value.
#[derive(Debug, PartialEq, Eq)]
pub enum JsonShape {
    Null,
    Bool(bool),
    /// The bit pattern of the number read as an IEEE-754 double, where it has
    /// such a reading.
    Number(Option<u64>),
    Str(String),
    /// The elements, each as compact JSON text.
    Array(Vec<String>),
    /// The members in key order, each value as compact JSON text.
    Object(Vec<(String, String)>),
}

/// The shape that `serde_json` reads from a text, or `None` where the text
/// is not one JSON value.
pub uninterp spec fn json_unfold(text: Seq<char>) -> Option<JsonShape>;

/// Trusted: `serde_json::from_str` at type `serde_json::Value`, the result
/// copied variant by variant. A number is read with `Number::as_f64` and
/// kept as that double's bits; elements and member values are printed back
/// with `Value`'s `Display`, which writes compact JSON. The result is a
/// function of the text alone; nothing else is claimed of it.
#[verifier::external_body]
pub(crate) fn unfold(text: &str) -> (r: Option<JsonShape>)
    ensures
        r == json_unfold(text@),
{
    Some(match serde_json::from_str::<Value>(text).ok()? {
        Value::Null => JsonShape::Null,
        Value::Bool(b) => JsonShape::Bool(b),
        Value::Number(n) => JsonShape::Number(n.as_f64().map(|x| x.to_bits())),
        Value::String(s) => JsonShape::Str(s),
        Value::Array(a) => JsonShape::Array(a.iter().map(|v| v.to_string()).collect()),
        Value::Object(m) => JsonShape::Object(
            m.iter().map(|(k, v)| (k.clone(), v.to_string())).collect(),
        ),
    })
}

/// The part of `s` from its first `{` to its last `}`, both included, if the
/// last `}` comes after the first `{`.
pub open spec fn extracted(s: Seq<char>) -> Option<Seq<char>> {
    let a = first_index_of(s, '{');
    let b = last_index_of(s, '}');
    if a < b {
        Some(s.subrange(a, b + 1))
    } else {
        None
    }
}

/// The shape read from a completion: that of the whole text if it is JSON,
/// else that of the part between the outermost braces, if that is JSON.
pub open spec fn document(text: Seq<char>) -> Option<JsonShape> {
    match json_unfold(text) {
        Some(shape) => Some(shape),
        None => match extracted(text) {
            Some(inner) => json_unfold(inner),
            None => None,
        },
    }
}

/// The text of the member `key` of an object; `None` for a shape that is no
/// object or has no such member.
pub open spec fn member_text(shape: JsonShape, key: Seq<char>) -> Option<Seq<char>> {
    match shape {
        JsonShape::Object(members) => {
            let i = key_index(members@, key);
            if i < members@.len() {
                Some(members@[i].1@)
            } else {
                None
            }
        },
        _ => None,
    }
}

/// The string that a JSON text denotes, if it denotes a string.
pub open spec fn string_of(text: Seq<char>) -> Option<Seq<char>> {
    match json_unfold(text) {
        Some(JsonShape::Str(s)) => Some(s@),
        _ => None,
    }
}

/// The number that a JSON text denotes, as a double's bits.
pub open spec fn number_of(text: Seq<char>) -> Option<u64> {
    match json_unfold(text) {
        Some(JsonShape::Number(bits)) => bits,
        _ => None,
    }
}

/// The member `key` of `shape` as a string; `None` where the member is
/// missing or is no string.
pub open spec fn field_string(shape: JsonShape, key: Seq<char>) -> Option<Seq<char>> {
    match member_text(shape, key) {
        Some(t) => string_of(t),
        None => None,
    }
}

/// The member `key` of `shape` as a number; `None` where the member is
/// missing or is no number.
pub open spec fn field_number(shape: JsonShape, key: Seq<char>) -> Option<u64> {
    match member_text(shape, key) {
        Some(t) => number_of(t),
        None => None,
    }
}

/// Of a list of JSON texts, those that denote strings, as those strings.
pub open spec fn strings_among(texts: Seq<String>) -> Seq<Seq<char>>
    decreases texts.len(),
{
    if texts.len() == 0 {
        Seq::empty()
    } else {
        let rest = strings_among(texts.drop_last());
        match string_of(texts.last()@) {
            Some(s) => rest.push(s),
            None => rest,
        }
    }
}

/// The member `key` of `shape` as a list of strings: the string elements of
/// the array, in order. Empty where the member is missing or is no array.
pub open spec fn field_strings(shape: JsonShape, key: Seq<char>) -> Seq<Seq<char>> {
    match member_text(shape, key) {
        Some(t) => match json_unfold(t) {
            Some(JsonShape::Array(items)) => strings_among(items@),
            _ => Seq::empty(),
        },
        None => Seq::empty(),
    }
}

/// The members of the object that the member `key` of `shape` denotes.
/// `None` where the member is missing or is no object.
pub open spec fn field_members(shape: JsonShape, key: Seq<char>) -> Option<Seq<(String, String)>> {
    match member_text(shape, key) {
        Some(t) => match json_unfold(t) {
            Some(JsonShape::Object(members)) => Some(members@),
            _ => None,
        },
        None => None,
    }
}

/// Cuts the outermost brace-delimited span out of `s`: from the first `{` to
/// the last `}`. `None` if either is missing or the last `}` comes first.
pub fn extract_first_json_object(s: &str) -> (r: Option<String>)
    ensures
        opt_view(r) == extracted(s@),
{
    let chars = to_chars(s);
    let start = find_first(&chars, '{');
    match find_last(&chars, '}') {
        Some(end) => {
            if start < end {
                Some(from_chars(&chars, start, end + 1))
            } else {
                None
            }
        },
        None => None,
    }
}

/// Reads a completion as JSON: the whole text if it parses, else the span
/// between its outermost braces if that parses, else nothing.
pub fn parse_document(text: &str) -> (r: Option<JsonShape>)
    ensures
        r == document(text@),
{
    match unfold(text) {
        Some(shape) => Some(shape),
        None => match extract_first_json_object(text) {
            Some(inner) => unfold(inner.as_str()),
            None => None,
        },
    }
}

/// Reads a JSON text and returns the string it denotes, if it denotes one.
pub fn text_as_string(text: &str) -> (r: Option<String>)
    ensures
        opt_view(r) == string_of(text@),
{
    JsonShape::into_string(unfold(text))
}

/// Reads a JSON text and returns the number it denotes, as a double's bits.
pub fn text_as_number(text: &str) -> (r: Option<u64>)
    ensures
        r == number_of(text@),
{
    JsonShape::into_number(unfold(text))
}

impl JsonShape {
    /// The string inside a parse result, if the parse gave a string.
    pub fn into_string(parsed: Option<JsonShape>) -> (r: Option<String>)
        ensures
            opt_view(r) == (match parsed {
                Some(JsonShape::Str(s)) => Some(s@),
                _ => None,
            }),
    {
        match parsed {
            Some(JsonShape::Str(s)) => Some(s),
            _ => None,
        }
    }

    /// The number inside a parse result, if the parse gave a number.
    pub fn into_number(parsed: Option<JsonShape>) -> (r: Option<u64>)
        ensures
            r == (match parsed {
                Some(JsonShape::Number(bits)) => bits,
                _ => None,
            }),
    {
        match parsed {
            Some(JsonShape::Number(bits)) => bits,
            _ => None,
        }
    }

    /// The elements inside a parse result, if the parse gave an array.
    pub fn into_elements(parsed: Option<JsonShape>) -> (r: Option<Vec<String>>)
        ensures
            r == (match parsed {
                Some(JsonShape::Array(items)) => Some(items),
                _ => None,
            }),
    {
        match parsed {
            Some(JsonShape::Array(items)) => Some(items),
            _ => None,
        }
    }

    /// The members inside a parse result, if the parse gave an object.
    pub fn into_members(parsed: Option<JsonShape>) -> (r: Option<Vec<(String, String)>>)
        ensures
            r == (match parsed {
                Some(JsonShape::Object(members)) => Some(members),
                _ => None,
            }),
    {
        match parsed {
            Some(JsonShape::Object(members)) => Some(members),
            _ => None,
        }
    }

    /// The JSON text of the member `key`, if this is an object that has it.
    pub fn member(&self, key: &str) -> (r: Option<&String>)
        ensures
            match r {
                Some(t) => member_text(*self, key@) == Some(t@),
                None => member_text(*self, key@).is_none(),
            },
    {
        match self {
            JsonShape::Object(members) => {
                let mut i: usize = 0;
                while i < members.len()
                    invariant
                        *self == JsonShape::Object(*members),
                        i <= members@.len(),
                        forall|j: int| 0 <= j < i ==> members@[j].0@ != key@,
                    decreases members@.len() - i,
                {
                    if members[i].0.as_str().eq(key) {
                        proof {
                            crate::string_map::lemma_key_index_unique(members@, key@, i as int);
                        }
                        return Some(&members[i].1);
                    }
                    i += 1;
                }
                proof {
                    crate::string_map::lemma_key_index_unique(members@, key@, i as int);
                }
                None
            },
            _ => None,
        }
    }

    /// The member `key` as a string.
    pub fn string_field(&self, key: &str) -> (r: Option<String>)
        ensures
            opt_view(r) == field_string(*self, key@),
    {
        match self.member(key) {
            Some(t) => text_as_string(t.as_str()),
            None => None,
        }
    }

    /// The member `key` as a number, given as a double's bits.
    pub fn number_field(&self, key: &str) -> (r: Option<u64>)
        ensures
            r == field_number(*self, key@),
    {
        match self.member(key) {
            Some(t) => text_as_number(t.as_str()),
            None => None,
        }
    }

    /// The string elements of the array under `key`, in order; empty where
    /// there is no such array.
    pub fn strings_field(&self, key: &str) -> (r: Vec<String>)
        ensures
            crate::text::views(r@) == field_strings(*self, key@),
    {
        let items = match self.member(key) {
            Some(t) => JsonShape::into_elements(unfold(t.as_str())),
            None => None,
        };
        match items {
            Some(items) => strings_of(&items),
            None => Vec::new(),
        }
    }

    /// The members of the object under `key`, each value still as JSON text.
    pub fn members_field(&self, key: &str) -> (r: Option<Vec<(String, String)>>)
        ensures
            match r {
                Some(m) => field_members(*self, key@) == Some(m@),
                None => field_members(*self, key@).is_none(),
            },
    {
        match self.member(key) {
            Some(t) => JsonShape::into_members(unfold(t.as_str())),
            None => None,
        }
    }
}

/// Of a list of JSON texts, those that denote strings, as those strings.
pub fn strings_of(texts: &Vec<String>) -> (r: Vec<String>)
    ensures
        crate::text::views(r@) == strings_among(texts@),
{
    let mut r: Vec<String> = Vec::new();
    let mut i: usize = 0;
    while i < texts.len()
        invariant
            i <= texts.len(),
            crate::text::views(r@) == strings_among(texts@.take(i as int)),
        decreases texts.len() - i,
    {
        proof {
            assert(texts@.take(i + 1).drop_last() =~= texts@.take(i as int));
        }
        match text_as_string(texts[i].as_str()) {
            Some(s) => {
                r.push(s);
            },
            None => {},
        }
        i += 1;
    }
    assert(texts@.take(texts.len() as int) =~= texts@);
    r
}

} // verus!
