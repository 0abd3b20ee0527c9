//! JSON documents as plain values. Reading a document from text is left to
//! `serde_json`; looking into one is done here.

use crate::error::{ClientError, ClientResult};
use crate::text::{chars_of, same_text};
use vstd::prelude::*;

verus! {

/// A number of a JSON document.
#[derive(Debug, Clone, PartialEq, Eq)]
pub struct JsonNumber {
    /// The number, if it is an integer from 0 to `u64::MAX`.
    pub unsigned: Option<u64>,
    /// The number, if it is an integer from `i64::MIN` to `i64::MAX`.
    pub signed: Option<i64>,
    /// The number as it is written back.
    pub text: String,
}

/// A member of a JSON object.
#[derive(Debug, PartialEq, Eq)]
pub struct JsonMember {
    pub name: String,
    pub value: JsonValue,
}

/// A JSON document.
#[derive(Debug, PartialEq, Eq)]
pub enum JsonValue {
    Null,
    Bool(bool),
    Number(JsonNumber),
    Text(String),
    Array(Vec<JsonValue>),
    Object(Vec<JsonMember>),
}

/// `serde_json::Value`, a document as `serde_json` reads it, carried
/// through as it is.
#[verifier::external_type_specification]
#[verifier::external_body]
pub struct ExJsonDocument(serde_json::Value);

/// `serde_json::Error`, the error of reading a document, carried through
/// as it is.
#[verifier::external_type_specification]
#[verifier::external_body]
pub struct ExJsonError(serde_json::Error);

/// The document that `text` is read as, where it is well-formed JSON.
pub uninterp spec fn json_document(text: Seq<char>) -> Option<JsonValue>;

/// What a document of `serde_json` holds.
pub uninterp spec fn json_content(v: serde_json::Value) -> JsonValue;

/// The white space that may stand around a JSON value.
pub open spec fn is_json_space(c: char) -> bool {
    c == ' ' || c == '\n' || c == '\t' || c == '\r'
}

/// Reads `text` as one JSON document.
///
/// Trusted: calls `serde_json::from_str` for `serde_json::Value`. Whether it
/// succeeds, and the document it returns, depend on the text alone
/// (`json_document`). It returns an object only for text whose first
/// character other than white space is an opening brace.
#[verifier::external_body]
fn read_json(text: &str) -> (r: Result<serde_json::Value, serde_json::Error>)
    ensures
        r is Ok <==> json_document(text@) is Some,
        r matches Ok(v) ==> json_document(text@) == Some(json_content(v)),
        r matches Ok(v) ==> (json_content(v) is Object ==> text@.len() > 0 && (text@[0] == '{'
            || is_json_space(text@[0]))),
{
    serde_json::from_str::<serde_json::Value>(text)
}

/// Turns a document of `serde_json` into a `JsonValue`, variant by variant.
///
/// Trusted: matches on `serde_json::Value`; a number is taken through
/// `Number::as_u64`, `Number::as_i64` and its `Display`, the members of an
/// object in the order in which its map yields them.
#[verifier::external_body]
fn json_value_of(v: serde_json::Value) -> (r: JsonValue)
    ensures
        r == json_content(v),
{
    match v {
        serde_json::Value::Null => JsonValue::Null,
        serde_json::Value::Bool(b) => JsonValue::Bool(b),
        serde_json::Value::Number(n) => JsonValue::Number(
            JsonNumber { unsigned: n.as_u64(), signed: n.as_i64(), text: n.to_string() },
        ),
        serde_json::Value::String(s) => JsonValue::Text(s),
        serde_json::Value::Array(a) => JsonValue::Array(a.into_iter().map(json_value_of).collect()),
        serde_json::Value::Object(m) => JsonValue::Object(
            m.into_iter().map(|(name, v)| JsonMember { name, value: json_value_of(v) }).collect(),
        ),
    }
}

/// Why reading a document failed, in words.
///
/// Trusted: calls `to_string` on a `serde_json::Error`; nothing is claimed
/// of the text.
#[verifier::external_body]
fn json_error_text(e: &serde_json::Error) -> (r: String) {
    e.to_string()
}

/// Whether `a` and `b` hold the same text.
pub fn str_eq(a: &str, b: &str) -> (r: bool)
    ensures
        r == (a@ == b@),
{
    let x = chars_of(a);
    let y = chars_of(b);
    same_text(&x, &y)
}

/// The value of the first member named `key`.
pub open spec fn member_of(members: Seq<JsonMember>, key: Seq<char>) -> Option<JsonValue>
    decreases members.len(),
{
    if members.len() == 0 {
        None
    } else if members[0].name@ == key {
        Some(members[0].value)
    } else {
        member_of(members.drop_first(), key)
    }
}

impl JsonValue {
    /// The member `key` of an object; nothing for a missing member and for
    /// a value that is no object.
    pub open spec fn member(self, key: Seq<char>) -> Option<JsonValue> {
        match self {
            JsonValue::Object(members) => member_of(members@, key),
            _ => None,
        }
    }

    /// The member `key` of an object.
    pub fn get(&self, key: &str) -> (r: Option<&JsonValue>)
        ensures
            match self.member(key@) {
                Some(v) => r == Some(&v),
                None => r is None,
            },
    {
        match self {
            JsonValue::Object(members) => {
                let mut i: usize = 0;
                assert(members@.skip(0) =~= members@);
                while i < members.len()
                    invariant
                        i <= members.len(),
                        self.member(key@) == member_of(members@, key@),
                        member_of(members@, key@) == member_of(members@.skip(i as int), key@),
                    decreases members.len() - i,
                {
                    assert(members@.skip(i as int)[0] == members@[i as int]);
                    if str_eq(members[i].name.as_str(), key) {
                        return Some(&members[i].value);
                    }
                    proof {
                        assert(members@.skip(i as int).drop_first() =~= members@.skip(i + 1));
                    }
                    i += 1;
                }
                assert(members@.skip(i as int).len() == 0);
                None
            },
            _ => None,
        }
    }

    /// Whether this is an object.
    pub fn is_object(&self) -> (r: bool)
        ensures
            r == (self is Object),
    {
        match self {
            JsonValue::Object(_) => true,
            _ => false,
        }
    }
}

/// Reads `text` as one JSON document. Text that is not well-formed JSON is a
/// parse error.
pub fn parse_json(text: &str) -> (r: ClientResult<JsonValue>)
    ensures
        match json_document(text@) {
            Some(v) => r == Ok::<JsonValue, ClientError>(v),
            None => r matches Err(ClientError::ParseError(_)),
        },
        r matches Ok(v) ==> (v is Object ==> text@.len() > 0 && (text@[0] == '{' || is_json_space(
            text@[0],
        ))),
{
    match read_json(text) {
        Ok(v) => Ok(json_value_of(v)),
        Err(e) => Err(ClientError::ParseError(json_error_text(&e))),
    }
}

} // verus!
