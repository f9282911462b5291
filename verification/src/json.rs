//! JSON documents as a tree of the library's own, read from text by
//! `serde_json`.

use vstd::prelude::*;

verus! {

/// A JSON value.
///
/// Of a number the tree keeps what the timetable reads of it: the integer it
/// holds, where it holds one that fits in an `i64`. The members of an object
/// stand in a list; where a key stands twice, the first one counts.
#[derive(Debug, PartialEq, Eq)]
pub enum Json {
    Null,
    Bool(bool),
    Number(Option<i64>),
    Text(String),
    Array(Vec<Json>),
    Object(Vec<(String, Json)>),
}

/// Why an agenda could not be rendered.
#[derive(Clone, Copy, Debug, PartialEq, Eq, Structural)]
pub enum FormatError {
    /// The text is not a JSON document.
    Malformed,
    /// An entry starts or ends at an instant that the calendar cannot hold.
    InstantOutOfRange,
}

/// The value under `key` in a list of members: that of the first member with
/// this key, `Null` where there is none.
pub open spec fn lookup(members: Seq<(String, Json)>, key: Seq<char>) -> Json
    decreases members.len(),
{
    if members.len() == 0 {
        Json::Null
    } else if members[0].0@ == key {
        members[0].1
    } else {
        lookup(members.drop_first(), key)
    }
}

impl Json {
    /// The member `key` of an object; `Null` where the value is no object or
    /// has no such member.
    pub open spec fn member(self, key: Seq<char>) -> Json {
        match self {
            Json::Object(members) => lookup(members@, key),
            _ => Json::Null,
        }
    }

    /// The element at `index` of an array; `Null` where the value is no array
    /// or is too short.
    pub open spec fn element(self, index: int) -> Json {
        match self {
            Json::Array(items) => if 0 <= index < items@.len() {
                items@[index]
            } else {
                Json::Null
            },
            _ => Json::Null,
        }
    }

    /// The integer that a number holds.
    pub open spec fn integer(self) -> Option<i64> {
        match self {
            Json::Number(n) => n,
            _ => None,
        }
    }

    /// The characters of a string value.
    pub open spec fn text(self) -> Option<Seq<char>> {
        match self {
            Json::Text(t) => Some(t@),
            _ => None,
        }
    }

    /// The elements of an array.
    pub open spec fn items(self) -> Option<Seq<Json>> {
        match self {
            Json::Array(items) => Some(items@),
            _ => None,
        }
    }

    /// Looks up the member `key`.
    pub fn get(&self, key: &str) -> (found: &Json)
        ensures
            *found == self.member(key@),
    {
        match self {
            Json::Object(members) => {
                let wanted = key.to_owned();
                let mut i: usize = 0;
                assert(members@.skip(0) =~= members@);
                while i < members.len()
                    invariant
                        i <= members.len(),
                        wanted@ == key@,
                        self.member(key@) == lookup(members@.skip(i as int), key@),
                    decreases members.len() - i,
                {
                    assert(members@.skip(i as int)[0] == members@[i as int]);
                    if members[i].0 == wanted {
                        return &members[i].1;
                    }
                    assert(members@.skip(i as int).drop_first() =~= members@.skip(i + 1));
                    i = i + 1;
                }
                &Json::Null
            },
            _ => &Json::Null,
        }
    }

    /// Looks up the element at `index`.
    pub fn at(&self, index: usize) -> (found: &Json)
        ensures
            *found == self.element(index as int),
    {
        match self {
            Json::Array(items) => if index < items.len() {
                &items[index]
            } else {
                &Json::Null
            },
            _ => &Json::Null,
        }
    }

    /// The integer of a number that holds one.
    pub fn as_integer(&self) -> (found: Option<i64>)
        ensures
            found == self.integer(),
    {
        match self {
            Json::Number(n) => *n,
            _ => None,
        }
    }

    /// The string of a string value.
    pub fn as_text(&self) -> (found: Option<&str>)
        ensures
            match found {
                Some(t) => self.text() == Some(t@),
                None => self.text() is None,
            },
    {
        match self {
            Json::Text(t) => Some(t.as_str()),
            _ => None,
        }
    }

    /// The elements of an array.
    pub fn as_items(&self) -> (found: Option<&Vec<Json>>)
        ensures
            match found {
                Some(items) => self.items() == Some(items@),
                None => self.items() is None,
            },
    {
        match self {
            Json::Array(items) => Some(items),
            _ => None,
        }
    }

    /// Reads a JSON document from `text`.
    pub fn parse(text: &str) -> (read: Result<Json, FormatError>)
        ensures
            match read {
                Ok(document) => json_document(text@) == Some(document),
                Err(error) => error == FormatError::Malformed && json_document(text@) is None,
            },
    {
        match read_value(text) {
            Ok(value) => Ok(tree(&value)),
            Err(_) => Err(FormatError::Malformed),
        }
    }
}

/// `serde_json::Value`: what the parser hands out. It is carried to the copy
/// and nothing of it is read on the way.
#[verifier::external_type_specification]
#[verifier::external_body]
pub struct ExValue(serde_json::Value);

/// `serde_json::Error`: why the parser refused a text. It is dropped for
/// [`FormatError::Malformed`].
#[verifier::external_type_specification]
#[verifier::external_body]
pub struct ExError(serde_json::Error);

/// The document that `serde_json` reads from `text`; `None` where it reports
/// an error.
pub uninterp spec fn json_document(text: Seq<char>) -> Option<Json>;

/// The tree that holds what a `serde_json::Value` holds.
pub uninterp spec fn json_tree(value: serde_json::Value) -> Json;

/// `serde_json::from_str`, reading a `Value`. What it returns depends on the
/// text alone: `json_document` names the tree of the value it gives, and is
/// `None` exactly where it gives an error.
#[verifier::external_body]
fn read_value(text: &str) -> (read: Result<serde_json::Value, serde_json::Error>)
    ensures
        match read {
            Ok(value) => json_document(text@) == Some(json_tree(value)),
            Err(_) => json_document(text@) is None,
        },
{
    serde_json::from_str::<serde_json::Value>(text)
}

/// Copies a `serde_json::Value` into a tree, variant by variant: a number by
/// its `as_i64`, an object by its members in the order in which its map hands
/// them out. `json_tree` names the result.
#[verifier::external_body]
fn tree(value: &serde_json::Value) -> (copy: Json)
    ensures
        copy == json_tree(*value),
{
    match value {
        serde_json::Value::Null => Json::Null,
        serde_json::Value::Bool(b) => Json::Bool(*b),
        serde_json::Value::Number(n) => Json::Number(n.as_i64()),
        serde_json::Value::String(s) => Json::Text(s.clone()),
        serde_json::Value::Array(items) => Json::Array(items.iter().map(tree).collect()),
        serde_json::Value::Object(members) => Json::Object(
            members.iter().map(|(key, member)| (key.clone(), tree(member))).collect(),
        ),
    }
}

} // verus!
