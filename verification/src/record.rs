//! The task record: what a stored task holds, and its mathematical view.

use serde_json::Value;
use vstd::prelude::*;

verus! {

/// A task as it is stored in its team directory.
///
/// `status` is free text; `in_progress`, `completed` and `deleted` are the
/// values that close a task to claims. An absent or empty `owner` means that
/// nobody has claimed the task. `metadata` is an arbitrary JSON document that
/// is carried along and never looked into.
#[derive(Debug, Clone, PartialEq, Eq)]
pub struct TaskRecord {
    pub id: String,
    pub subject: String,
    pub description: String,
    pub active_form: String,
    pub status: String,
    pub owner: Option<String>,
    pub blocks: Vec<String>,
    pub blocked_by: Vec<String>,
    pub metadata: Option<Value>,
}

/// A task record as plain mathematical values.
pub struct RecordView {
    pub id: Seq<char>,
    pub subject: Seq<char>,
    pub description: Seq<char>,
    pub active_form: Seq<char>,
    pub status: Seq<char>,
    pub owner: Option<Seq<char>>,
    pub blocks: Seq<Seq<char>>,
    pub blocked_by: Seq<Seq<char>>,
    pub metadata: Option<Value>,
}

/// The texts of a sequence of strings, in order.
pub open spec fn texts(items: Seq<String>) -> Seq<Seq<char>> {
    items.map_values(|s: String| s@)
}

/// The text of an optional string.
pub open spec fn opt_text(item: Option<String>) -> Option<Seq<char>> {
    match item {
        Some(s) => Some(s@),
        None => None,
    }
}

impl View for TaskRecord {
    type V = RecordView;

    open spec fn view(&self) -> RecordView {
        RecordView {
            id: self.id@,
            subject: self.subject@,
            description: self.description@,
            active_form: self.active_form@,
            status: self.status@,
            owner: opt_text(self.owner),
            blocks: texts(self.blocks@),
            blocked_by: texts(self.blocked_by@),
            metadata: self.metadata,
        }
    }
}

impl RecordView {
    /// Whether somebody holds the task: an owner is named and the name is not
    /// empty.
    pub open spec fn is_owned(self) -> bool {
        self.owner matches Some(name) && name.len() > 0
    }
}

} // verus!
