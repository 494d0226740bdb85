//! JSON documents as `serde_json` parses them.
//!
//! A `serde_json::Value` is opaque to the verifier. This module names the
//! document that such a value stands for and states, for each `serde_json`
//! function that the library calls, what it does in terms of that document. These
//! statements are believed, not proved; all reading of documents elsewhere in
//! the library is proved against them.

use crate::details::Text;
use serde_json::Value;
use vstd::prelude::*;

verus! {

/// A JSON document, as far as the library reads it. The members of an object
/// stand in the order in which `serde_json` walks them.
pub enum Json {
    Null,
    Bool,
    Number,
    Text(Text),
    Array(Seq<Json>),
    Object(Seq<(Text, Json)>),
}

/// `serde_json::Value`, of which the verifier sees nothing but `document`.
#[verifier::external_type_specification]
#[verifier::external_body]
pub struct ExValue(Value);

/// `serde_json::Error`, of which the verifier sees nothing.
#[verifier::external_type_specification]
#[verifier::external_body]
pub struct ExJsonError(serde_json::Error);

/// `serde_json::Map`, of which the verifier sees nothing but `members`.
#[verifier::external_type_specification]
#[verifier::external_body]
#[verifier::reject_recursive_types(K)]
#[verifier::reject_recursive_types(V)]
pub struct ExMap<K, V>(serde_json::Map<K, V>);

/// The document that a value holds.
pub uninterp spec fn document(value: Value) -> Json;

/// The members that the map of an object holds, in the order in which
/// `serde_json` walks them.
pub uninterp spec fn members(map: serde_json::Map<String, Value>) -> Seq<(Text, Json)>;

/// The document that `serde_json::from_str` reads from a text, if it reads one.
pub uninterp spec fn parsed(text: Text) -> Option<Json>;

/// Does an object have a member of this name?
pub open spec fn has_member(members: Seq<(Text, Json)>, name: Text) -> bool {
    exists|i: int| 0 <= i < members.len() && (#[trigger] members[i]).0 == name
}

/// The member of an object that goes by `name`; `None` for a document that is
/// no object or has no such member.
pub open spec fn member_of(doc: Json, name: Text) -> Option<Json> {
    match doc {
        Json::Object(members) => if has_member(members, name) {
            Some(
                members[choose|i: int|
                    0 <= i < members.len() && (#[trigger] members[i]).0 == name].1,
            )
        } else {
            None
        },
        _ => None,
    }
}

/// No two members of an object share a name.
pub open spec fn distinct_names(members: Seq<(Text, Json)>) -> bool {
    forall|i: int, j: int|
        0 <= i < j < members.len() ==> (#[trigger] members[i]).0 != (#[trigger] members[j]).0
}

/// The keys are the names of the members, in their order, and no two members
/// share a name.
pub open spec fn names_of(keys: Seq<String>, members: Seq<(Text, Json)>) -> bool {
    &&& distinct_names(members)
    &&& keys.len() == members.len()
    &&& forall|i: int| 0 <= i < keys.len() ==> (#[trigger] keys[i])@ == members[i].0
}

/// In an object without repeated names, the member found under the name of
/// the `i`-th member is the `i`-th member.
pub proof fn lemma_member_at(members: Seq<(Text, Json)>, i: int)
    requires
        distinct_names(members),
        0 <= i < members.len(),
    ensures
        has_member(members, members[i].0),
        member_of(Json::Object(members), members[i].0) == Some(members[i].1),
{
    let name = members[i].0;
    assert(has_member(members, name));
    let j = choose|j: int| 0 <= j < members.len() && (#[trigger] members[j]).0 == name;
    assert(j == i);
}

/// `serde_json::from_str` at type `Value`: a text is either read as one
/// document or refused, and which of the two depends on the text alone.
#[verifier::external_body]
pub(crate) fn parse(text: &str) -> (outcome: Result<Value, serde_json::Error>)
    ensures
        match outcome {
            Ok(value) => parsed(text@) == Some(document(value)),
            Err(_) => parsed(text@) is None,
        },
{
    serde_json::from_str(text)
}

/// `Value::get` with a string index: the member of that name, for an object
/// that has one.
#[verifier::external_body]
pub(crate) fn member<'a>(value: &'a Value, name: &str) -> (found: Option<&'a Value>)
    ensures
        match found {
            Some(child) => member_of(document(*value), name@) == Some(document(*child)),
            None => member_of(document(*value), name@) is None,
        },
{
    value.get(name)
}

/// `Value::as_str`: the characters of a string document, nothing for any other.
#[verifier::external_body]
pub(crate) fn text<'a>(value: &'a Value) -> (found: Option<&'a str>)
    ensures
        match found {
            Some(s) => document(*value) == Json::Text(s@),
            None => !(document(*value) is Text),
        },
{
    value.as_str()
}

/// `Value::is_null`.
#[verifier::external_body]
pub(crate) fn is_null(value: &Value) -> (null: bool)
    ensures
        null == (document(*value) is Null),
{
    value.is_null()
}

/// `Value::as_array`: the elements of an array document, in order.
#[verifier::external_body]
pub(crate) fn items<'a>(value: &'a Value) -> (found: Option<&'a Vec<Value>>)
    ensures
        match found {
            Some(elements) => document(*value) == Json::Array(
                elements@.map_values(|element: Value| document(element)),
            ),
            None => !(document(*value) is Array),
        },
{
    value.as_array()
}

/// `Value::as_object`: the map of an object document, nothing for any other.
#[verifier::external_body]
pub(crate) fn object<'a>(value: &'a Value) -> (found: Option<
    &'a serde_json::Map<String, Value>,
>)
    ensures
        match found {
            Some(map) => document(*value) == Json::Object(members(*map)),
            None => !(document(*value) is Object),
        },
{
    value.as_object()
}

/// `Map::keys`, with a copy of each key: the names of the members, in the
/// order of the members. A map holds no name twice.
#[verifier::external_body]
pub(crate) fn names(map: &serde_json::Map<String, Value>) -> (keys: Vec<String>)
    ensures
        names_of(keys@, members(*map)),
{
    map.keys().cloned().collect()
}

} // verus!
