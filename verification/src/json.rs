//! What the library uses of `serde_json`: the members of a JSON object.

use vstd::prelude::*;

verus! {

/// A JSON value.
#[verifier::external_type_specification]
#[verifier::external_body]
pub struct ExValue(serde_json::Value);

/// A JSON syntax error.
#[verifier::external_type_specification]
#[verifier::external_body]
pub struct ExError(serde_json::Error);

/// The members of a JSON object whose value is a string, by their key. A value
/// that is no object has none.
pub uninterp spec fn text_members(value: serde_json::Value) -> Map<Seq<char>, Seq<char>>;

/// The members with a string value in the JSON text `text`, as
/// `serde_json::from_str` reads it, or its error where it finds no JSON value.
pub uninterp spec fn parsed_members(text: Seq<char>) -> Result<
    Map<Seq<char>, Seq<char>>,
    serde_json::Error,
>;

/// Calls `serde_json::from_str`: the text alone decides whether there is a
/// value, what its members are, and otherwise what the error is.
#[verifier::external_body]
pub(crate) fn parse(text: &str) -> (r: Result<serde_json::Value, serde_json::Error>)
    ensures
        match r {
            Ok(value) => parsed_members(text@) == Ok::<_, serde_json::Error>(text_members(value)),
            Err(e) => parsed_members(text@) == Err::<Map<Seq<char>, Seq<char>>, _>(e),
        },
{
    serde_json::from_str(text)
}

/// Indexes a `serde_json::Value` by a key and takes the member with
/// `Value::as_str`: the result is the string under that
/// key, and `None` where the value is no object, has no such key, or has
/// something other than a string there.
#[verifier::external_body]
pub(crate) fn text_member(value: &serde_json::Value, key: &str) -> (r: Option<String>)
    ensures
        r is Some <==> text_members(*value).contains_key(key@),
        r matches Some(s) ==> s@ == text_members(*value)[key@],
{
    value[key].as_str().map(String::from)
}

/// The string under `key` in these members, if there is one.
pub open spec fn member(members: Map<Seq<char>, Seq<char>>, key: Seq<char>) -> Option<Seq<char>> {
    if members.contains_key(key) {
        Some(members[key])
    } else {
        None
    }
}

/// A member is found exactly where the key is there, with the value it has.
pub proof fn law_member(members: Map<Seq<char>, Seq<char>>, key: Seq<char>)
    ensures
        members.contains_key(key) ==> member(members, key) == Some(members[key]),
        !members.contains_key(key) ==> member(members, key) is None,
{
}

} // verus!
