//! JSON documents as values of this library.
//!
//! Reading and writing JSON text is the work of `serde_json`. A document that
//! it has read is turned into a [`Json`] value once, and everything that looks
//! into a document works on that value.

use vstd::prelude::*;
use crate::error::CallError;
use crate::query::{lemma_position_absent, lemma_position_found, position};

verus! {

/// A JSON document.
#[derive(Debug, PartialEq, Eq)]
pub enum Json {
    Null,
    Bool(bool),
    /// A number, with its value where that is a whole number from 0 to
    /// 2^64 - 1.
    Number(Option<u64>),
    Text(String),
    Array(Vec<Json>),
    /// The members of an object, each with its name.
    Object(Vec<(String, Json)>),
}

/// What `serde_json::from_slice` reads from `bytes` as a `serde_json::Value`;
/// `None` where it reports an error.
pub uninterp spec fn parsed_value(bytes: Seq<u8>) -> Option<serde_json::Value>;

/// The document that a `serde_json::Value` holds.
pub uninterp spec fn value_content(value: serde_json::Value) -> Json;

/// The text that `serde_json::to_string` writes for the string `text`, quotes
/// and escapes and all; `None` where it reports an error.
pub uninterp spec fn string_literal(text: Seq<char>) -> Option<Seq<char>>;

/// The document that a JSON text holds; `None` where the text is not JSON.
pub open spec fn json_document(bytes: Seq<u8>) -> Option<Json> {
    match parsed_value(bytes) {
        Some(value) => Some(value_content(value)),
        None => None,
    }
}

/// Reads a JSON text with `serde_json::from_slice`. The contract only gives
/// what was read its name, [`parsed_value`]: it claims that the same bytes are
/// always read alike.
#[verifier::external_body]
fn read_value(bytes: &[u8]) -> (read: Result<serde_json::Value, serde_json::Error>)
    ensures
        read matches Ok(value) ==> parsed_value(bytes@) == Some(value),
        read is Err ==> parsed_value(bytes@) is None,
{
    serde_json::from_slice::<serde_json::Value>(bytes)
}

/// Turns a `serde_json::Value` into a [`Json`], variant by variant: a number
/// through `serde_json::Number::as_u64`, the members of an object in the order
/// of `serde_json::Map::iter`. The contract only gives the outcome its name,
/// [`value_content`]: it claims that equal values are turned alike.
#[verifier::external_body]
fn json_of(value: &serde_json::Value) -> (json: Json)
    ensures
        json == value_content(*value),
{
    match value {
        serde_json::Value::Null => Json::Null,
        serde_json::Value::Bool(flag) => Json::Bool(*flag),
        serde_json::Value::Number(number) => Json::Number(number.as_u64()),
        serde_json::Value::String(text) => Json::Text(text.clone()),
        serde_json::Value::Array(items) => Json::Array(items.iter().map(json_of).collect()),
        serde_json::Value::Object(members) => Json::Object(
            members.iter().map(|(name, member)| (name.clone(), json_of(member))).collect(),
        ),
    }
}

/// Writes a string as a JSON string with `serde_json::to_string`. The
/// contract only gives the text its name, [`string_literal`].
#[verifier::external_body]
fn write_string(text: &str) -> (written: Result<String, serde_json::Error>)
    ensures
        written matches Ok(literal) ==> string_literal(text@) == Some(literal@),
        written is Err ==> string_literal(text@) is None,
{
    serde_json::to_string(text)
}

/// The names of the members, in their order.
pub open spec fn member_names(members: Seq<(String, Json)>) -> Seq<Seq<char>> {
    Seq::new(members.len(), |i: int| members[i].0@)
}

impl Json {
    /// The first member called `name`, where this is an object that has one.
    pub open spec fn member(self, name: Seq<char>) -> Option<Json> {
        match self {
            Json::Object(members) => {
                let place = position(member_names(members@), name);
                if 0 <= place < members@.len() {
                    Some(members@[place].1)
                } else {
                    None
                }
            },
            _ => None,
        }
    }

    /// The text of the member called `name`, where that member is a string.
    pub open spec fn text_at(self, name: Seq<char>) -> Option<Seq<char>> {
        match self.member(name) {
            Some(Json::Text(text)) => Some(text@),
            _ => None,
        }
    }

    /// The value of the member called `name`, where that member is a whole
    /// number from 0 to 2^64 - 1.
    pub open spec fn number_at(self, name: Seq<char>) -> Option<u64> {
        match self.member(name) {
            Some(Json::Number(Some(number))) => Some(number),
            _ => None,
        }
    }

    /// The value of the member called `name`, where that member is `true` or
    /// `false`.
    pub open spec fn flag_at(self, name: Seq<char>) -> Option<bool> {
        match self.member(name) {
            Some(Json::Bool(flag)) => Some(flag),
            _ => None,
        }
    }

    /// Reads a JSON text.
    pub fn parse(bytes: &[u8]) -> (read: Result<Json, CallError>)
        ensures
            read matches Ok(json) ==> json_document(bytes@) == Some(json),
            read matches Err(error) ==> json_document(bytes@) is None && error
                == CallError::Deserialization,
    {
        match read_value(bytes) {
            Ok(value) => Ok(json_of(&value)),
            Err(_) => Err(CallError::Deserialization),
        }
    }

    /// The first member called `name`.
    pub fn get(&self, name: &str) -> (found: Option<&Json>)
        ensures
            found matches Some(json) ==> self.member(name@) == Some(*json),
            found is None ==> self.member(name@) is None,
    {
        match self {
            Json::Object(members) => {
                let key: String = name.to_owned();
                let mut i: usize = 0;
                while i < members.len()
                    invariant
                        i <= members.len(),
                        key@ == name@,
                        *self == Json::Object(*members),
                        forall|j: int| 0 <= j < i ==> member_names(members@)[j] != name@,
                    decreases members.len() - i,
                {
                    if members[i].0 == key {
                        proof {
                            assert(member_names(members@)[i as int] == name@);
                            lemma_position_found(member_names(members@), name@, i as int);
                        }
                        return Some(&members[i].1);
                    }
                    i += 1;
                }
                proof {
                    lemma_position_absent(member_names(members@), name@);
                }
                None
            },
            _ => None,
        }
    }

    /// The text of the member called `name`.
    pub fn get_text(&self, name: &str) -> (found: Option<String>)
        ensures
            found matches Some(text) ==> self.text_at(name@) == Some(text@),
            found is None ==> self.text_at(name@) is None,
    {
        match self.get(name) {
            Some(Json::Text(text)) => Some(text.clone()),
            _ => None,
        }
    }

    /// The value of the member called `name`.
    pub fn get_number(&self, name: &str) -> (found: Option<u64>)
        ensures
            found == self.number_at(name@),
    {
        match self.get(name) {
            Some(Json::Number(Some(number))) => Some(*number),
            _ => None,
        }
    }

    /// The value of the member called `name`.
    pub fn get_flag(&self, name: &str) -> (found: Option<bool>)
        ensures
            found == self.flag_at(name@),
    {
        match self.get(name) {
            Some(Json::Bool(flag)) => Some(*flag),
            _ => None,
        }
    }
}

/// Writes `text` as a JSON string, in quotes and with its escapes.
pub fn json_string(text: &str) -> (written: Result<String, CallError>)
    ensures
        written matches Ok(literal) ==> string_literal(text@) == Some(literal@),
        written matches Err(error) ==> string_literal(text@) is None && error
            == CallError::Serialization,
{
    match write_string(text) {
        Ok(literal) => Ok(literal),
        Err(_) => Err(CallError::Serialization),
    }
}

} // verus!
