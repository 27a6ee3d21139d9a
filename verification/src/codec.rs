//! The task record codec: between JSON text and [`TaskRecord`].
//!
//! Parsing and printing JSON is the work of `serde_json`. What this module
//! decides is the shape of a record inside a JSON document: which members
//! must be there, what the others default to, and how a record is laid out
//! when it is written.

use crate::error::{ClaimError, FailureView};
use crate::json::{
    array_value, as_items, as_text, clone_value, is_null, json_array, json_is_null, json_items,
    json_member, json_object, json_optional, json_parse, json_pretty, json_string, json_text,
    keys_distinct, member, members, object_value, optional_value, parse, pretty, text_value,
};
use crate::record::{opt_text, texts, RecordView, TaskRecord};
use serde_json::Value;
use vstd::prelude::*;

verus! {

/// Why a text is not a task record.
#[derive(Debug, Clone, Copy, PartialEq, Eq)]
pub enum ParseError {
    /// The text is not a well-formed JSON document.
    Malformed,
    /// The document lacks `id`, `subject` or `status`, or a member has the
    /// wrong kind of value.
    Schema,
}

/// The text under `key`, which must be there and be a string.
pub open spec fn required_text(v: Value, key: Seq<char>) -> Option<Seq<char>> {
    match json_member(v, key) {
        Some(m) => json_text(m),
        None => None,
    }
}

/// The text under `key`, empty where the member is missing; `None` where it
/// is there and is no string.
pub open spec fn defaulted_text(v: Value, key: Seq<char>) -> Option<Seq<char>> {
    match json_member(v, key) {
        Some(m) => json_text(m),
        None => Some(Seq::empty()),
    }
}

/// The text under `key`, absent where the member is missing or `null`; `None`
/// where it is there and is neither a string nor `null`.
pub open spec fn optional_text(v: Value, key: Seq<char>) -> Option<Option<Seq<char>>> {
    match json_member(v, key) {
        Some(m) => match json_text(m) {
            Some(text) => Some(Some(text)),
            None => if json_is_null(m) {
                Some(None)
            } else {
                None
            },
        },
        None => Some(None),
    }
}

/// Whether every element is a JSON string.
pub open spec fn all_text(items: Seq<Value>) -> bool {
    forall|i: int| 0 <= i < items.len() ==> json_text(#[trigger] items[i]) is Some
}

/// The texts of elements that are all JSON strings.
pub open spec fn item_texts(items: Seq<Value>) -> Seq<Seq<char>> {
    items.map_values(|item: Value| json_text(item)->0)
}

/// The list of texts under `key`, empty where the member is missing; `None`
/// where it is there and is no array of strings.
pub open spec fn text_list(v: Value, key: Seq<char>) -> Option<Seq<Seq<char>>> {
    match json_member(v, key) {
        Some(m) => match json_items(m) {
            Some(items) => if all_text(items) {
                Some(item_texts(items))
            } else {
                None
            },
            None => None,
        },
        None => Some(Seq::empty()),
    }
}

/// The document under `key`, absent where the member is missing or `null`.
pub open spec fn payload(v: Value, key: Seq<char>) -> Option<Value> {
    match json_member(v, key) {
        Some(m) => if json_is_null(m) {
            None
        } else {
            Some(m)
        },
        None => None,
    }
}

/// The record that a JSON document holds, `None` where it holds none.
///
/// `id`, `subject` and `status` are required strings. `description` and
/// `activeForm` default to the empty text, `owner` and `metadata` to absent,
/// `blocks` and `blockedBy` to the empty list. Members under other keys are
/// not part of the record.
pub open spec fn decoded(v: Value) -> Option<RecordView> {
    let id = required_text(v, "id"@);
    let subject = required_text(v, "subject"@);
    let description = defaulted_text(v, "description"@);
    let active_form = defaulted_text(v, "activeForm"@);
    let status = required_text(v, "status"@);
    let owner = optional_text(v, "owner"@);
    let blocks = text_list(v, "blocks"@);
    let blocked_by = text_list(v, "blockedBy"@);
    if id is Some && subject is Some && description is Some && active_form is Some
        && status is Some && owner is Some && blocks is Some && blocked_by is Some {
        Some(
            RecordView {
                id: id->0,
                subject: subject->0,
                description: description->0,
                active_form: active_form->0,
                status: status->0,
                owner: owner->0,
                blocks: blocks->0,
                blocked_by: blocked_by->0,
                metadata: payload(v, "metadata"@),
            },
        )
    } else {
        None
    }
}

/// The JSON strings that hold the given texts.
pub open spec fn string_values(items: Seq<Seq<char>>) -> Seq<Value> {
    items.map_values(|text: Seq<char>| json_string(text))
}

/// The JSON string for a text that may be absent, `null` where it is.
pub open spec fn optional_string(item: Option<Seq<char>>) -> Value {
    json_optional(
        match item {
            Some(text) => Some(json_string(text)),
            None => None,
        },
    )
}

/// The JSON document that a record is written as: one object with the nine
/// members in this order, absent `owner` and `metadata` as `null`.
pub open spec fn record_value(r: RecordView) -> Value {
    json_object(
        seq![
            ("id"@, json_string(r.id)),
            ("subject"@, json_string(r.subject)),
            ("description"@, json_string(r.description)),
            ("activeForm"@, json_string(r.active_form)),
            ("status"@, json_string(r.status)),
            ("owner"@, optional_string(r.owner)),
            ("blocks"@, json_array(string_values(r.blocks))),
            ("blockedBy"@, json_array(string_values(r.blocked_by))),
            ("metadata"@, json_optional(r.metadata)),
        ],
    )
}

impl RecordView {
    /// Whether the record can come out of decoding: metadata that is there is
    /// not JSON `null`.
    pub open spec fn well_formed(self) -> bool {
        self.metadata matches Some(m) ==> !json_is_null(m)
    }
}

fn read_required(v: &Value, key: &str) -> (r: Option<String>)
    ensures
        opt_text(r) == required_text(*v, key@),
{
    match member(v, key) {
        Some(m) => match as_text(m) {
            Some(text) => Some(text.to_owned()),
            None => None,
        },
        None => None,
    }
}

fn read_defaulted(v: &Value, key: &str) -> (r: Option<String>)
    ensures
        opt_text(r) == defaulted_text(*v, key@),
{
    match member(v, key) {
        Some(m) => match as_text(m) {
            Some(text) => Some(text.to_owned()),
            None => None,
        },
        None => Some(String::new()),
    }
}

fn read_optional(v: &Value, key: &str) -> (r: Option<Option<String>>)
    ensures
        match r {
            Some(found) => optional_text(*v, key@) == Some(opt_text(found)),
            None => optional_text(*v, key@) is None,
        },
{
    match member(v, key) {
        Some(m) => match as_text(m) {
            Some(text) => Some(Some(text.to_owned())),
            None => if is_null(m) {
                Some(None)
            } else {
                None
            },
        },
        None => Some(None),
    }
}

fn read_texts(items: &Vec<Value>) -> (r: Option<Vec<String>>)
    ensures
        match r {
            Some(found) => all_text(items@) && texts(found@) == item_texts(items@),
            None => !all_text(items@),
        },
{
    let mut found: Vec<String> = Vec::new();
    let mut i: usize = 0;
    while i < items.len()
        invariant
            i <= items.len(),
            found.len() == i,
            forall|k: int| 0 <= k < i ==> json_text(#[trigger] items[k]) == Some(found[k]@),
        decreases items.len() - i,
    {
        match as_text(&items[i]) {
            Some(text) => {
                found.push(text.to_owned());
            },
            None => {
                return None;
            },
        }
        i += 1;
    }
    assert(texts(found@) =~= item_texts(items@));
    Some(found)
}

fn read_list(v: &Value, key: &str) -> (r: Option<Vec<String>>)
    ensures
        match r {
            Some(found) => text_list(*v, key@) == Some(texts(found@)),
            None => text_list(*v, key@) is None,
        },
{
    match member(v, key) {
        Some(m) => match as_items(m) {
            Some(items) => read_texts(items),
            None => None,
        },
        None => {
            let found: Vec<String> = Vec::new();
            assert(texts(found@) =~= Seq::<Seq<char>>::empty());
            Some(found)
        },
    }
}

fn read_payload(v: &Value, key: &str) -> (r: Option<Value>)
    ensures
        r == payload(*v, key@),
{
    match member(v, key) {
        Some(m) => if is_null(m) {
            None
        } else {
            Some(clone_value(m))
        },
        None => None,
    }
}

/// Reads the record out of a parsed JSON document.
///
/// Gives the record that [`decoded`] describes, and `None` exactly where the
/// document holds none.
pub fn record_from_value(v: &Value) -> (r: Option<TaskRecord>)
    ensures
        match r {
            Some(record) => decoded(*v) == Some(record@),
            None => decoded(*v) is None,
        },
        r matches Some(record) ==> record@.well_formed(),
{
    let id = read_required(v, "id")?;
    let subject = read_required(v, "subject")?;
    let description = read_defaulted(v, "description")?;
    let active_form = read_defaulted(v, "activeForm")?;
    let status = read_required(v, "status")?;
    let owner = read_optional(v, "owner")?;
    let blocks = read_list(v, "blocks")?;
    let blocked_by = read_list(v, "blockedBy")?;
    let metadata = read_payload(v, "metadata");
    Some(
        TaskRecord {
            id,
            subject,
            description,
            active_form,
            status,
            owner,
            blocks,
            blocked_by,
            metadata,
        },
    )
}

/// Decodes the text of a task file.
///
/// Fails with `Malformed` exactly where the text is not a JSON document, and
/// with `Schema` exactly where it is one that holds no record.
pub fn decode(text: &str) -> (r: Result<TaskRecord, ParseError>)
    ensures
        match json_parse(text@) {
            Some(v) => match decoded(v) {
                Some(record) => r is Ok && r->Ok_0@ == record,
                None => r == Err::<TaskRecord, ParseError>(ParseError::Schema),
            },
            None => r == Err::<TaskRecord, ParseError>(ParseError::Malformed),
        },
        r matches Ok(record) ==> record@.well_formed(),
{
    match parse(text) {
        Some(v) => match record_from_value(&v) {
            Some(record) => Ok(record),
            None => Err(ParseError::Schema),
        },
        None => Err(ParseError::Malformed),
    }
}

fn string_items(items: &Vec<String>) -> (r: Vec<Value>)
    ensures
        r@ == string_values(texts(items@)),
        all_text(r@),
        item_texts(r@) == texts(items@),
{
    let mut out: Vec<Value> = Vec::new();
    let mut i: usize = 0;
    while i < items.len()
        invariant
            i <= items.len(),
            out.len() == i,
            forall|k: int|
                0 <= k < i ==> #[trigger] out[k] == json_string(items[k]@) && json_text(out[k])
                    == Some(items[k]@),
        decreases items.len() - i,
    {
        out.push(text_value(items[i].clone()));
        i += 1;
    }
    assert(out@ =~= string_values(texts(items@)));
    assert(item_texts(out@) =~= texts(items@));
    out
}

fn optional_string_value(item: &Option<String>) -> (v: Value)
    ensures
        v == optional_string(opt_text(*item)),
        match *item {
            Some(text) => json_text(v) == Some(text@),
            None => json_is_null(v) && json_text(v) is None,
        },
{
    match item {
        Some(text) => optional_value(Some(text_value(text.clone()))),
        None => optional_value(None),
    }
}

fn optional_payload(item: &Option<Value>) -> (v: Value)
    ensures
        v == json_optional(*item),
        match *item {
            Some(inner) => v == inner,
            None => json_is_null(v),
        },
{
    match item {
        Some(inner) => optional_value(Some(clone_value(inner))),
        None => optional_value(None),
    }
}

/// Lays a record out as a JSON document.
///
/// The document is [`record_value`] of the record, and decoding it gives a
/// well-formed record back.
pub fn record_to_value(record: &TaskRecord) -> (v: Value)
    ensures
        v == record_value(record@),
        record@.well_formed() ==> decoded(v) == Some(record@),
{
    let mut fields: Vec<(String, Value)> = Vec::new();
    fields.push(("id".to_owned(), text_value(record.id.clone())));
    fields.push(("subject".to_owned(), text_value(record.subject.clone())));
    fields.push(("description".to_owned(), text_value(record.description.clone())));
    fields.push(("activeForm".to_owned(), text_value(record.active_form.clone())));
    fields.push(("status".to_owned(), text_value(record.status.clone())));
    fields.push(("owner".to_owned(), optional_string_value(&record.owner)));
    fields.push(("blocks".to_owned(), array_value(string_items(&record.blocks))));
    fields.push(("blockedBy".to_owned(), array_value(string_items(&record.blocked_by))));
    fields.push(("metadata".to_owned(), optional_payload(&record.metadata)));
    proof {
        reveal_strlit("id");
        reveal_strlit("subject");
        reveal_strlit("description");
        reveal_strlit("activeForm");
        reveal_strlit("status");
        reveal_strlit("owner");
        reveal_strlit("blocks");
        reveal_strlit("blockedBy");
        reveal_strlit("metadata");
        let laid = members(fields@);
        assert(laid =~= seq![
            ("id"@, json_string(record@.id)),
            ("subject"@, json_string(record@.subject)),
            ("description"@, json_string(record@.description)),
            ("activeForm"@, json_string(record@.active_form)),
            ("status"@, json_string(record@.status)),
            ("owner"@, optional_string(record@.owner)),
            ("blocks"@, json_array(string_values(record@.blocks))),
            ("blockedBy"@, json_array(string_values(record@.blocked_by))),
            ("metadata"@, json_optional(record@.metadata)),
        ]);
        assert(keys_distinct(laid)) by {
            assert forall|i: int, j: int| 0 <= i < j < laid.len() implies (#[trigger] laid[i]).0
                != (#[trigger] laid[j]).0 by {
                let a = laid[i].0;
                let b = laid[j].0;
                if a.len() == b.len() {
                    assert(a[0] != b[0]);
                }
            }
        }
    }
    let v = object_value(fields);
    proof {
        assert(json_member(v, fields[0].0@) == Some(fields[0].1));
        assert(json_member(v, fields[1].0@) == Some(fields[1].1));
        assert(json_member(v, fields[2].0@) == Some(fields[2].1));
        assert(json_member(v, fields[3].0@) == Some(fields[3].1));
        assert(json_member(v, fields[4].0@) == Some(fields[4].1));
        assert(json_member(v, fields[5].0@) == Some(fields[5].1));
        assert(json_member(v, fields[6].0@) == Some(fields[6].1));
        assert(json_member(v, fields[7].0@) == Some(fields[7].1));
        assert(json_member(v, fields[8].0@) == Some(fields[8].1));
    }
    v
}

/// Writes a record as the text of a task file: indented JSON with the
/// members in the order of [`record_value`].
///
/// Fails only where `serde_json` refuses to print the document, with its
/// message as an `Io` failure. The document that is printed holds the
/// record: decoding it gives a well-formed record back.
pub fn encode(record: &TaskRecord) -> (r: Result<String, ClaimError>)
    ensures
        match json_pretty(record_value(record@)) {
            Ok(text) => r is Ok && r->Ok_0@ == text,
            Err(message) => r is Err && r->Err_0@ == FailureView::Io(message),
        },
        record@.well_formed() ==> decoded(record_value(record@)) == Some(record@),
{
    let v = record_to_value(record);
    match pretty(&v) {
        Ok(text) => Ok(text),
        Err(message) => Err(ClaimError::Io(message)),
    }
}

} // verus!
