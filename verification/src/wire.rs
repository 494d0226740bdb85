//! The wire format of the resolution service: how a record, a batch of
//! records and an error report are read from a JSON document.

use crate::cache::Entry;
use crate::details::{text_of, IpDetails, IpDetailsView, Text};
use crate::json::{
    distinct_names, document, is_null, lemma_member_at, member, member_of, names, object, text,
    Json,
};
use crate::rows::entries_of;
use serde_json::Value;
use vstd::prelude::*;

verus! {

/// A member that holds a plain string: a missing one reads as the empty
/// string, one that is no string makes the document malformed (`None`).
pub open spec fn plain_field(doc: Json, name: Text) -> Option<Text> {
    match member_of(doc, name) {
        None => Some(Seq::empty()),
        Some(Json::Text(t)) => Some(t),
        Some(_) => None,
    }
}

/// A member that holds an optional string: a missing one and `null` read as
/// absent, one that is neither string nor `null` makes the document malformed.
pub open spec fn optional_field(doc: Json, name: Text) -> Option<Option<Text>> {
    match member_of(doc, name) {
        None => Some(None),
        Some(Json::Null) => Some(None),
        Some(Json::Text(t)) => Some(Some(t)),
        Some(_) => None,
    }
}

/// A member that must be there and hold a string.
pub open spec fn required_field(doc: Json, name: Text) -> Option<Text> {
    match member_of(doc, name) {
        Some(Json::Text(t)) => Some(t),
        _ => None,
    }
}

/// Does a document describe a record: is it an object whose members `ip`,
/// `city`, `region`, `country` and `loc` are plain strings and whose members
/// `hostname`, `postal` and `timezone` are optional strings?
pub open spec fn is_record(doc: Json) -> bool {
    &&& doc is Object
    &&& plain_field(doc, "ip"@) is Some
    &&& optional_field(doc, "hostname"@) is Some
    &&& plain_field(doc, "city"@) is Some
    &&& plain_field(doc, "region"@) is Some
    &&& plain_field(doc, "country"@) is Some
    &&& plain_field(doc, "loc"@) is Some
    &&& optional_field(doc, "postal"@) is Some
    &&& optional_field(doc, "timezone"@) is Some
}

/// The record that a document describes. Members other than the eight of
/// `is_record` are ignored: the derived fields are never read.
pub open spec fn wire_record(doc: Json) -> Option<IpDetailsView> {
    if is_record(doc) {
        Some(
            IpDetailsView {
                ip: plain_field(doc, "ip"@)->0,
                hostname: optional_field(doc, "hostname"@)->0,
                city: plain_field(doc, "city"@)->0,
                region: plain_field(doc, "region"@)->0,
                country: plain_field(doc, "country"@)->0,
                country_name: None,
                is_eu: None,
                country_flag: None,
                country_currency: None,
                continent: None,
                loc: plain_field(doc, "loc"@)->0,
                postal: optional_field(doc, "postal"@)->0,
                timezone: optional_field(doc, "timezone"@)->0,
            },
        )
    } else {
        None
    }
}

/// A record without any derived field.
pub open spec fn bare(record: IpDetailsView) -> bool {
    &&& record.country_name is None
    &&& record.is_eu is None
    &&& record.country_flag is None
    &&& record.country_currency is None
    &&& record.continent is None
}

/// The message of an error report: the string member `error` of a document.
pub open spec fn wire_error(doc: Json) -> Option<Text> {
    match member_of(doc, "error"@) {
        Some(Json::Text(message)) => Some(message),
        _ => None,
    }
}

/// The rows that a document describes: an object of which every member is
/// read by `one`. The rows stand in the order of the members, each under the
/// name of its member.
pub open spec fn wire_rows<V>(doc: Json, one: spec_fn(Json) -> Option<V>) -> Option<
    Seq<(Text, V)>,
> {
    match doc {
        Json::Object(members) => if forall|i: int|
            0 <= i < members.len() ==> one((#[trigger] members[i]).1) is Some {
            Some(Seq::new(members.len(), |i: int| (members[i].0, one(members[i].1)->0)))
        } else {
            None
        },
        _ => None,
    }
}

/// The batch that a reply document describes: an object with one member for
/// each resolved address, which holds the record of that address. The records
/// stand in the order of the members.
pub open spec fn wire_batch(doc: Json) -> Option<Seq<Entry>> {
    wire_rows(doc, |member: Json| wire_record(member))
}

/// Reads a plain string member.
pub fn read_plain(value: &Value, name: &str) -> (found: Option<String>)
    ensures
        text_of(found) == plain_field(document(*value), name@),
{
    match member(value, name) {
        None => Some(String::new()),
        Some(child) => match text(child) {
            Some(s) => Some(s.to_owned()),
            None => None,
        },
    }
}

/// Reads an optional string member.
pub fn read_optional(value: &Value, name: &str) -> (found: Option<Option<String>>)
    ensures
        match found {
            Some(field) => optional_field(document(*value), name@) == Some(text_of(field)),
            None => optional_field(document(*value), name@) is None,
        },
{
    match member(value, name) {
        None => Some(None),
        Some(child) => match text(child) {
            Some(s) => Some(Some(s.to_owned())),
            None => if is_null(child) {
                Some(None)
            } else {
                None
            },
        },
    }
}

/// Reads a string member that must be there.
pub fn read_required(value: &Value, name: &str) -> (found: Option<String>)
    ensures
        text_of(found) == required_field(document(*value), name@),
{
    match member(value, name) {
        None => None,
        Some(child) => match text(child) {
            Some(s) => Some(s.to_owned()),
            None => None,
        },
    }
}

/// Reads the record that a document describes; `None` for a document that
/// describes none.
pub fn read_record(value: &Value) -> (found: Option<IpDetails>)
    ensures
        match found {
            Some(record) => wire_record(document(*value)) == Some(record@),
            None => wire_record(document(*value)) is None,
        },
{
    if object(value).is_none() {
        return None;
    }
    let ip = match read_plain(value, "ip") {
        Some(s) => s,
        None => { return None; },
    };
    let hostname = match read_optional(value, "hostname") {
        Some(s) => s,
        None => { return None; },
    };
    let city = match read_plain(value, "city") {
        Some(s) => s,
        None => { return None; },
    };
    let region = match read_plain(value, "region") {
        Some(s) => s,
        None => { return None; },
    };
    let country = match read_plain(value, "country") {
        Some(s) => s,
        None => { return None; },
    };
    let loc = match read_plain(value, "loc") {
        Some(s) => s,
        None => { return None; },
    };
    let postal = match read_optional(value, "postal") {
        Some(s) => s,
        None => { return None; },
    };
    let timezone = match read_optional(value, "timezone") {
        Some(s) => s,
        None => { return None; },
    };
    Some(
        IpDetails {
            ip,
            hostname,
            city,
            region,
            country,
            country_name: None,
            is_eu: None,
            country_flag: None,
            country_currency: None,
            continent: None,
            loc,
            postal,
            timezone,
        },
    )
}

/// Reads the message of an error report, if the document is one.
pub fn read_error(value: &Value) -> (found: Option<String>)
    ensures
        text_of(found) == wire_error(document(*value)),
{
    match member(value, "error") {
        None => None,
        Some(child) => match text(child) {
            Some(s) => Some(s.to_owned()),
            None => None,
        },
    }
}

/// Reads the rows that a document describes, each member with `read_one`;
/// `None` for a document that is no object, or has a member that `read_one`
/// refuses.
pub(crate) fn read_rows<V: View, F: Fn(&Value) -> Option<V>>(
    value: &Value,
    read_one: F,
    Ghost(one): Ghost<spec_fn(Json) -> Option<V::V>>,
) -> (found: Option<Vec<(String, V)>>)
    requires
        forall|member: &Value| #[trigger] read_one.requires((member,)),
        forall|member: &Value, read: Option<V>| #[trigger]
            read_one.ensures((member,), read) ==> match read {
                Some(row) => one(document(*member)) == Some(row@),
                None => one(document(*member)) is None,
            },
    ensures
        match found {
            Some(rows) => wire_rows(document(*value), one) == Some(entries_of(rows@)),
            None => wire_rows(document(*value), one) is None,
        },
{
    let keys = match object(value) {
        Some(map) => names(map),
        None => { return None; },
    };
    let ghost members = document(*value)->Object_0;
    let mut rows: Vec<(String, V)> = Vec::new();
    let mut i: usize = 0;
    while i < keys.len()
        invariant
            forall|member: &Value| #[trigger] read_one.requires((member,)),
            forall|member: &Value, read: Option<V>| #[trigger]
                read_one.ensures((member,), read) ==> match read {
                    Some(row) => one(document(*member)) == Some(row@),
                    None => one(document(*member)) is None,
                },
            document(*value) == Json::Object(members),
            distinct_names(members),
            keys@.len() == members.len(),
            forall|k: int| 0 <= k < keys@.len() ==> (#[trigger] keys@[k])@ == members[k].0,
            0 <= i <= keys.len(),
            rows@.len() == i,
            forall|k: int|
                0 <= k < i ==> one((#[trigger] members[k]).1) == Some(rows@[k].1@)
                    && rows@[k].0@ == members[k].0,
        decreases keys.len() - i,
    {
        let name = keys[i].clone();
        proof {
            lemma_member_at(members, i as int);
        }
        let child = match member(value, name.as_str()) {
            Some(child) => child,
            None => { return None; },
        };
        match read_one(child) {
            Some(row) => {
                rows.push((name, row));
            },
            None => {
                assert(one(members[i as int].1) is None);
                return None;
            },
        }
        i = i + 1;
    }
    assert(entries_of(rows@) =~= wire_rows(document(*value), one)->0);
    Some(rows)
}

/// Reads the batch of records that a reply document describes; `None` for a
/// document that is no such batch.
pub fn read_batch(value: &Value) -> (found: Option<Vec<(String, IpDetails)>>)
    ensures
        match found {
            Some(records) => wire_batch(document(*value)) == Some(entries_of(records@)),
            None => wire_batch(document(*value)) is None,
        },
{
    read_rows(value, read_record, Ghost(|member: Json| wire_record(member)))
}

} // verus!
