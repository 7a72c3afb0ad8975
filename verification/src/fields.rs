//! The entries of the provider's record list, field by field, before any of
//! them is judged.

use vstd::prelude::*;
use vstd::string::*;
use crate::json::elements;
use crate::json::flag;
use crate::json::json_content;
use crate::json::json_contents;
use crate::json::member;
use crate::json::text;
use crate::json::unsigned;
use crate::json::Json;
use crate::reply::is_success;
use crate::reply::status_is_success;
use crate::reply::Reply;

verus! {

/// The fields of one entry of the provider's record list. A field is empty
/// where the entry lacks it or holds a value of another JSON type.
#[derive(Debug, PartialEq, Eq)]
pub struct RecordFields {
    pub id: Option<String>,
    pub rtype: Option<String>,
    pub name: Option<String>,
    pub ttl: Option<u64>,
    pub content: Option<String>,
    pub proxied: Option<bool>,
}

/// The mathematical value of a [`RecordFields`].
pub struct RecordFieldsView {
    pub id: Option<Seq<char>>,
    pub rtype: Option<Seq<char>>,
    pub name: Option<Seq<char>>,
    pub ttl: Option<u64>,
    pub content: Option<Seq<char>>,
    pub proxied: Option<bool>,
}

/// The characters of an optional string.
pub open spec fn text_view(text: Option<String>) -> Option<Seq<char>> {
    match text {
        Some(chars) => Some(chars@),
        None => None,
    }
}

impl View for RecordFields {
    type V = RecordFieldsView;

    open spec fn view(&self) -> RecordFieldsView {
        RecordFieldsView {
            id: text_view(self.id),
            rtype: text_view(self.rtype),
            name: text_view(self.name),
            ttl: self.ttl,
            content: text_view(self.content),
            proxied: self.proxied,
        }
    }
}

/// The mathematical values of a list of entries, in order.
pub open spec fn fields_views(entries: Seq<RecordFields>) -> Seq<RecordFieldsView> {
    entries.map_values(|fields: RecordFields| fields@)
}

/// The string under `key`, if the value is an object that holds a string
/// there.
pub open spec fn member_text(json: Json, key: Seq<char>) -> Option<Seq<char>> {
    match json.member(key) {
        Some(inner) => inner.text(),
        None => None,
    }
}

/// The unsigned integer under `key`, if there is one.
pub open spec fn member_unsigned(json: Json, key: Seq<char>) -> Option<u64> {
    match json.member(key) {
        Some(inner) => inner.unsigned(),
        None => None,
    }
}

/// The boolean under `key`, if there is one.
pub open spec fn member_flag(json: Json, key: Seq<char>) -> Option<bool> {
    match json.member(key) {
        Some(inner) => inner.flag(),
        None => None,
    }
}

/// The fields of a record object as the provider sends it: `id`, `type`,
/// `name` and `content` are strings, `ttl` is an integer, `proxied` a
/// boolean.
pub open spec fn fields_of(json: Json) -> RecordFieldsView {
    RecordFieldsView {
        id: member_text(json, "id"@),
        rtype: member_text(json, "type"@),
        name: member_text(json, "name"@),
        ttl: member_unsigned(json, "ttl"@),
        content: member_text(json, "content"@),
        proxied: member_flag(json, "proxied"@),
    }
}

/// The record objects of a list document: the elements of the array under
/// `result`, if the document has one.
pub open spec fn result_items(document: Json) -> Option<Seq<Json>> {
    match document.member("result"@) {
        Some(result) => result.elements(),
        None => None,
    }
}

/// Why the provider's record list could not be had.
#[derive(Debug, PartialEq, Eq)]
pub enum ListFailure {
    /// No response arrived.
    Unreachable,
    /// The provider answered with a status other than success; the body is
    /// kept for diagnostics where it was a JSON document.
    Rejected { status: u16, body: Option<serde_json::Value> },
    /// The body was not a JSON document with an array under `result`.
    Malformed,
}

/// What a reply to the list request comes to: the fields of every entry, in
/// the provider's order, or the reason why there is no list.
pub open spec fn listed_fields(reply: Reply<serde_json::Value>) -> Result<
    Seq<RecordFieldsView>,
    ListFailure,
> {
    match reply {
        Reply::Unreachable => Err(ListFailure::Unreachable),
        Reply::Received { status, body } => if !is_success(status) {
            Err(ListFailure::Rejected { status, body })
        } else {
            match body {
                None => Err(ListFailure::Malformed),
                Some(document) => match result_items(json_content(document)) {
                    None => Err(ListFailure::Malformed),
                    Some(items) => Ok(items.map_values(|item: Json| fields_of(item))),
                },
            }
        },
    }
}

/// Reads the string under `key`.
fn read_text(value: &serde_json::Value, key: &str) -> (found: Option<String>)
    ensures
        text_view(found) == member_text(json_content(*value), key@),
{
    match member(value, key) {
        Some(inner) => match text(inner) {
            Some(chars) => Some(chars.to_owned()),
            None => None,
        },
        None => None,
    }
}

/// Reads the unsigned integer under `key`.
fn read_unsigned(value: &serde_json::Value, key: &str) -> (found: Option<u64>)
    ensures
        found == member_unsigned(json_content(*value), key@),
{
    match member(value, key) {
        Some(inner) => unsigned(inner),
        None => None,
    }
}

/// Reads the boolean under `key`.
fn read_flag(value: &serde_json::Value, key: &str) -> (found: Option<bool>)
    ensures
        found == member_flag(json_content(*value), key@),
{
    match member(value, key) {
        Some(inner) => flag(inner),
        None => None,
    }
}

/// Reads the fields of one record object.
pub fn record_fields(value: &serde_json::Value) -> (fields: RecordFields)
    ensures
        fields@ == fields_of(json_content(*value)),
{
    RecordFields {
        id: read_text(value, "id"),
        rtype: read_text(value, "type"),
        name: read_text(value, "name"),
        ttl: read_unsigned(value, "ttl"),
        content: read_text(value, "content"),
        proxied: read_flag(value, "proxied"),
    }
}

/// Reads the entries out of the reply to a list request. No entry is judged
/// here: an entry that lacks fields comes out with those fields empty.
pub fn cf_list_fields(reply: Reply<serde_json::Value>) -> (listed: Result<
    Vec<RecordFields>,
    ListFailure,
>)
    ensures
        match listed {
            Ok(entries) => listed_fields(reply) == Ok::<Seq<RecordFieldsView>, ListFailure>(
                fields_views(entries@),
            ),
            Err(failure) => listed_fields(reply) == Err::<Seq<RecordFieldsView>, ListFailure>(
                failure,
            ),
        },
{
    match reply {
        Reply::Unreachable => Err(ListFailure::Unreachable),
        Reply::Received { status, body } => {
            if !status_is_success(status) {
                return Err(ListFailure::Rejected { status, body });
            }
            let document = match body {
                Some(document) => document,
                None => return Err(ListFailure::Malformed),
            };
            let result = match member(&document, "result") {
                Some(result) => result,
                None => return Err(ListFailure::Malformed),
            };
            let items = match elements(result) {
                Some(items) => items,
                None => return Err(ListFailure::Malformed),
            };
            let mut entries: Vec<RecordFields> = Vec::new();
            let mut index: usize = 0;
            while index < items.len()
                invariant
                    index <= items.len(),
                    entries.len() == index,
                    forall|i: int|
                        0 <= i < index ==> (#[trigger] entries[i])@ == fields_of(
                            json_content(items[i]),
                        ),
                decreases items.len() - index,
            {
                entries.push(record_fields(&items[index]));
                index += 1;
            }
            assert(fields_views(entries@) =~= json_contents(items@).map_values(
                |item: Json| fields_of(item),
            ));
            Ok(entries)
        },
    }
}

} // verus!
