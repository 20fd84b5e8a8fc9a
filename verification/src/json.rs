//! JSON documents as the library reads them, the paths into a chat
//! completion reply, and the `serde_json` calls that parse and quote.

use vstd::prelude::*;
use crate::text::str_eq;

verus! {

#[verifier::external_type_specification]
#[verifier::external_body]
pub struct ExJsonValue(serde_json::Value);

/// A JSON value. Numbers are kept as their text; object members keep the
/// order in which `serde_json` yields them.
#[derive(Debug)]
pub enum Json {
    Null,
    Bool(bool),
    Number(String),
    Str(String),
    Array(Vec<Json>),
    Object(Vec<(String, Json)>),
}

/// Names what `serde_json::from_str::<serde_json::Value>` yields for a text:
/// the document it parses (as a [`Json`]), or `None` when the text is not JSON.
pub uninterp spec fn spec_parse_json(text: Seq<char>) -> Option<Json>;

/// `serde_json::from_str::<serde_json::Value>`: parses `text` as one JSON
/// document. The result is a function of the text alone; what JSON text
/// parses to what is `serde_json`'s and is not restated here.
#[verifier::external_body]
pub(crate) fn parse_json(text: &str) -> (r: Option<Json>)
    ensures
        r == spec_parse_json(text@),
{
    serde_json::from_str::<serde_json::Value>(text).ok().map(json_from_value)
}

/// Converts a parsed `serde_json::Value` into a [`Json`], variant by variant
/// (numbers through `Number`'s `Display`).
#[verifier::external_body]
fn json_from_value(v: serde_json::Value) -> Json {
    match v {
        serde_json::Value::Null => Json::Null,
        serde_json::Value::Bool(b) => Json::Bool(b),
        serde_json::Value::Number(n) => Json::Number(n.to_string()),
        serde_json::Value::String(s) => Json::Str(s),
        serde_json::Value::Array(a) => Json::Array(a.into_iter().map(json_from_value).collect()),
        serde_json::Value::Object(m) => Json::Object(
            m.into_iter().map(|(k, x)| (k, json_from_value(x))).collect(),
        ),
    }
}

/// A lower-case hexadecimal digit.
pub open spec fn hex_digit(d: int) -> char {
    if d < 10 {
        (d + 48) as char
    } else {
        (d + 87) as char
    }
}

/// How `serde_json` writes one character inside a string literal: `"` and
/// `\` are escaped, the controls with a short escape get it, the other
/// controls below U+0020 become `\u00XX`, and every other character is
/// written as it is.
pub open spec fn json_escape(c: char) -> Seq<char> {
    if c == '"' {
        seq!['\\', '"']
    } else if c == '\\' {
        seq!['\\', '\\']
    } else if c == '\x08' {
        seq!['\\', 'b']
    } else if c == '\t' {
        seq!['\\', 't']
    } else if c == '\n' {
        seq!['\\', 'n']
    } else if c == '\x0C' {
        seq!['\\', 'f']
    } else if c == '\r' {
        seq!['\\', 'r']
    } else if (c as int) < 32 {
        seq!['\\', 'u', '0', '0', hex_digit((c as int) / 16), hex_digit((c as int) % 16)]
    } else {
        seq![c]
    }
}

/// The escaped characters of `s`.
pub open spec fn json_escaped(s: Seq<char>) -> Seq<char>
    decreases s.len(),
{
    if s.len() == 0 {
        Seq::<char>::empty()
    } else {
        json_escaped(s.drop_last()) + json_escape(s.last())
    }
}

/// The JSON string literal for `s`, as `serde_json` writes it.
pub open spec fn spec_json_quote(s: Seq<char>) -> Seq<char> {
    seq!['"'] + json_escaped(s) + seq!['"']
}

/// `serde_json::to_string` on a `&str`: the JSON string literal for `s`,
/// quoted and escaped by the table in `serde_json`'s serializer.
#[verifier::external_body]
pub(crate) fn json_quote(s: &str) -> (r: String)
    ensures
        r@ == spec_json_quote(s@),
{
    serde_json::to_string(s).unwrap_or_default()
}

/// The value of the first member named `key` among `entries`.
pub open spec fn field(entries: Seq<(String, Json)>, key: Seq<char>) -> Option<Json>
    decreases entries.len(),
{
    if entries.len() == 0 {
        None
    } else if entries[0].0@ == key {
        Some(entries[0].1)
    } else {
        field(entries.drop_first(), key)
    }
}

/// `value[key]` for an object; nothing for any other value.
pub open spec fn get_key(j: Json, key: Seq<char>) -> Option<Json> {
    match j {
        Json::Object(es) => field(es@, key),
        _ => None,
    }
}

/// `value[i]` for an array; nothing for any other value or past its end.
pub open spec fn get_index(j: Json, i: nat) -> Option<Json> {
    match j {
        Json::Array(xs) => if i < xs@.len() {
            Some(xs@[i as int])
        } else {
            None
        },
        _ => None,
    }
}

/// The text of a JSON string; nothing for any other value.
pub open spec fn as_str(j: Json) -> Option<Seq<char>> {
    match j {
        Json::Str(s) => Some(s@),
        _ => None,
    }
}

/// `data["choices"][0][part]["content"]` when it is a string.
pub open spec fn choice_content(data: Json, part: Seq<char>) -> Option<Seq<char>> {
    match get_key(data, "choices"@) {
        Some(choices) => match get_index(choices, 0) {
            Some(choice) => match get_key(choice, part) {
                Some(p) => match get_key(p, "content"@) {
                    Some(c) => as_str(c),
                    None => None,
                },
                None => None,
            },
            None => None,
        },
        None => None,
    }
}

/// The member named `key` of an object's members.
fn find_field<'a>(entries: &'a Vec<(String, Json)>, key: &str) -> (r: Option<&'a Json>)
    ensures
        r matches Some(x) ==> field(entries@, key@) == Some(*x),
        r is None ==> field(entries@, key@) is None,
{
    let mut i: usize = 0;
    assert(entries@.skip(0) =~= entries@);
    while i < entries.len()
        invariant
            i <= entries@.len(),
            field(entries@.skip(i as int), key@) == field(entries@, key@),
        decreases entries@.len() - i,
    {
        let entry = &entries[i];
        assert(entries@.skip(i as int)[0] == *entry);
        assert(entries@.skip(i as int).drop_first() =~= entries@.skip(i + 1));
        if str_eq(entry.0.as_str(), key) {
            return Some(&entry.1);
        }
        i = i + 1;
    }
    assert(entries@.skip(i as int) =~= Seq::<(String, Json)>::empty());
    None
}

/// `value[key]` for an object.
pub fn json_get<'a>(j: &'a Json, key: &str) -> (r: Option<&'a Json>)
    ensures
        r matches Some(x) ==> get_key(*j, key@) == Some(*x),
        r is None ==> get_key(*j, key@) is None,
{
    match j {
        Json::Object(es) => find_field(es, key),
        _ => None,
    }
}

/// `value[i]` for an array.
pub fn json_at<'a>(j: &'a Json, i: usize) -> (r: Option<&'a Json>)
    ensures
        r matches Some(x) ==> get_index(*j, i as nat) == Some(*x),
        r is None ==> get_index(*j, i as nat) is None,
{
    match j {
        Json::Array(xs) => if i < xs.len() {
            Some(&xs[i])
        } else {
            None
        },
        _ => None,
    }
}

/// `data["choices"][0][part]["content"]` when it is a string.
pub fn json_choice_content(data: &Json, part: &str) -> (r: Option<String>)
    ensures
        r matches Some(s) ==> choice_content(*data, part@) == Some(s@),
        r is None ==> choice_content(*data, part@) is None,
{
    let choices = match json_get(data, "choices") {
        Some(c) => c,
        None => return None,
    };
    let choice = match json_at(choices, 0) {
        Some(c) => c,
        None => return None,
    };
    let p = match json_get(choice, part) {
        Some(p) => p,
        None => return None,
    };
    let c = match json_get(p, "content") {
        Some(c) => c,
        None => return None,
    };
    match c {
        Json::Str(s) => Some(s.clone()),
        _ => None,
    }
}

} // verus!
