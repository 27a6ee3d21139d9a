//! The claim itself: when a record may be claimed, what claiming changes, and
//! what a claim makes of the text of a task file.

use crate::codec::{decoded, encode, record_from_value, record_value};
use crate::error::{ClaimError, FailureView};
use crate::json::{json_parse, json_pretty, parse};
use crate::record::{RecordView, TaskRecord};
use crate::text::{followed_by, same_text};
use serde_json::Value;
use vstd::prelude::*;

verus! {

/// Why a record cannot be claimed, `None` where it can.
///
/// An owner with a non-empty name comes first. Then the status decides:
/// `in_progress`, `completed` and `deleted` close the task, every other
/// status leaves it open.
pub open spec fn denial(r: RecordView) -> Option<FailureView> {
    if r.is_owned() {
        Some(FailureView::AlreadyClaimed(r.owner->0))
    } else if r.status == "in_progress"@ {
        Some(FailureView::AlreadyInProgress)
    } else if r.status == "completed"@ {
        Some(FailureView::AlreadyCompleted)
    } else if r.status == "deleted"@ {
        Some(FailureView::Deleted)
    } else {
        None
    }
}

/// The record after a claim by `owner`: owned by them and in progress, every
/// other field as it was.
pub open spec fn claimed(r: RecordView, owner: Seq<char>) -> RecordView {
    RecordView { owner: Some(owner), status: "in_progress"@, ..r }
}

/// The record after one attempt to claim it for `owner`: claimed where it
/// was open, unchanged where it was not.
pub open spec fn attempt(r: RecordView, owner: Seq<char>) -> RecordView {
    if denial(r) is None {
        claimed(r, owner)
    } else {
        r
    }
}

/// The record after the given owners have tried to claim it one after the
/// other, in the order in which they held the lock.
pub open spec fn after_attempts(r: RecordView, owners: Seq<Seq<char>>) -> RecordView
    decreases owners.len(),
{
    if owners.len() == 0 {
        r
    } else {
        attempt(after_attempts(r, owners.drop_last()), owners.last())
    }
}

/// What every claimant after the first successful one is told: that the
/// task belongs to the winner, or, where the winner's name is empty, that it
/// is in progress.
pub open spec fn told_after(winner: Seq<char>) -> FailureView {
    if winner.len() > 0 {
        FailureView::AlreadyClaimed(winner)
    } else {
        FailureView::AlreadyInProgress
    }
}

/// Tells whether a record is open to a claim, and if not, why.
pub fn check_claimable(record: &TaskRecord) -> (r: Result<(), ClaimError>)
    ensures
        match r {
            Ok(_) => denial(record@) is None,
            Err(e) => denial(record@) == Some(e@),
        },
{
    match &record.owner {
        Some(existing) => {
            if !existing.as_str().is_empty() {
                return Err(ClaimError::AlreadyClaimed(existing.clone()));
            }
        },
        None => {},
    }
    let status = record.status.as_str();
    if same_text(status, "in_progress") {
        Err(ClaimError::AlreadyInProgress)
    } else if same_text(status, "completed") {
        Err(ClaimError::AlreadyCompleted)
    } else if same_text(status, "deleted") {
        Err(ClaimError::Deleted)
    } else {
        Ok(())
    }
}

/// Claims a record for `owner`.
///
/// A record that is open becomes [`claimed`]. A record that is not is left
/// exactly as it was, and the reason comes back.
pub fn claim_record(record: &mut TaskRecord, owner: &str) -> (r: Result<(), ClaimError>)
    ensures
        match denial(old(record)@) {
            Some(reason) => r is Err && r->Err_0@ == reason && *final(record) == *old(record),
            None => r is Ok && final(record)@ == claimed(old(record)@, owner@),
        },
        final(record)@ == attempt(old(record)@, owner@),
{
    match check_claimable(record) {
        Ok(_) => {
            record.owner = Some(owner.to_owned());
            record.status = "in_progress".to_owned();
            Ok(())
        },
        Err(reason) => Err(reason),
    }
}

/// What a successful claim hands back: the new text of the task file and the
/// message for the caller.
#[derive(Debug, Clone, PartialEq, Eq)]
pub struct Claimed {
    pub content: String,
    pub message: String,
}

/// A successful claim as plain mathematical values.
pub struct ClaimedView {
    pub content: Seq<char>,
    pub message: Seq<char>,
}

impl View for Claimed {
    type V = ClaimedView;

    open spec fn view(&self) -> ClaimedView {
        ClaimedView { content: self.content@, message: self.message@ }
    }
}

/// The result of a claim as plain mathematical values.
pub open spec fn claim_view(result: Result<Claimed, ClaimError>) -> Result<
    ClaimedView,
    FailureView,
> {
    match result {
        Ok(claimed) => Ok(claimed@),
        Err(e) => Err(e@),
    }
}

/// The message for a successful claim.
pub open spec fn claim_message(task_id: Seq<char>, subject: Seq<char>) -> Seq<char> {
    "Claimed task "@ + task_id + ": "@ + subject
}

/// The failure for a task file that holds no record.
pub open spec fn invalid_record(task_id: Seq<char>) -> FailureView {
    FailureView::Parse("invalid JSON in task "@ + task_id)
}

/// What a claim by `owner` makes of a parsed task file.
///
/// A document that holds no record is a parse failure. A record that is
/// closed is refused with its reason. An open record is claimed and printed;
/// the message names the task as the caller did and gives its subject.
pub open spec fn claim_of_value(v: Value, task_id: Seq<char>, owner: Seq<char>) -> Result<
    ClaimedView,
    FailureView,
> {
    match decoded(v) {
        Some(record) => match denial(record) {
            Some(reason) => Err(reason),
            None => match json_pretty(record_value(claimed(record, owner))) {
                Ok(text) => Ok(
                    ClaimedView { content: text, message: claim_message(task_id, record.subject) },
                ),
                Err(message) => Err(FailureView::Io(message)),
            },
        },
        None => Err(invalid_record(task_id)),
    }
}

/// What a claim by `owner` makes of the text of a task file.
pub open spec fn claim_of_text(content: Seq<char>, task_id: Seq<char>, owner: Seq<char>) -> Result<
    ClaimedView,
    FailureView,
> {
    match json_parse(content) {
        Some(v) => claim_of_value(v, task_id, owner),
        None => Err(invalid_record(task_id)),
    }
}

fn invalid_record_error(task_id: &str) -> (e: ClaimError)
    ensures
        e@ == invalid_record(task_id@),
{
    ClaimError::Parse(followed_by("invalid JSON in task ", task_id))
}

/// Whether the document that a successful claim prints holds the claimed
/// record, all of it and nothing else: decoding the document gives the
/// record that was read, with the new owner and status.
pub open spec fn writes_claimed_record(v: Value, owner: Seq<char>) -> bool {
    match decoded(v) {
        Some(record) => denial(record) is None ==> decoded(record_value(claimed(record, owner)))
            == Some(claimed(record, owner)),
        None => true,
    }
}

/// Claims the task held in a parsed task file for `owner`.
///
/// The outcome is [`claim_of_value`], and on success the document printed
/// into the new text holds the claimed record.
pub fn claim_value(v: &Value, task_id: &str, owner: &str) -> (r: Result<Claimed, ClaimError>)
    ensures
        claim_view(r) == claim_of_value(*v, task_id@, owner@),
        writes_claimed_record(*v, owner@),
{
    let mut record = match record_from_value(v) {
        Some(record) => record,
        None => {
            return Err(invalid_record_error(task_id));
        },
    };
    match claim_record(&mut record, owner) {
        Ok(_) => {},
        Err(reason) => {
            return Err(reason);
        },
    }
    let content = match encode(&record) {
        Ok(text) => text,
        Err(e) => {
            return Err(e);
        },
    };
    let mut message = followed_by("Claimed task ", task_id);
    message.append(": ");
    message.append(record.subject.as_str());
    Ok(Claimed { content, message })
}

/// Claims the task whose file holds `content` for `owner`, while the caller
/// holds the team's lock.
///
/// On success the caller writes `content` of the result over the task file.
/// On any failure there is nothing to write: the file stays as it is.
pub fn claim_under_lock(content: &str, task_id: &str, owner: &str) -> (r: Result<
    Claimed,
    ClaimError,
>)
    ensures
        claim_view(r) == claim_of_text(content@, task_id@, owner@),
        json_parse(content@) matches Some(v) ==> writes_claimed_record(v, owner@),
{
    match parse(content) {
        Some(v) => claim_value(&v, task_id, owner),
        None => Err(invalid_record_error(task_id)),
    }
}

/// A task marked `in_progress`, `completed` or `deleted` is refused, whoever
/// asks and whether or not it has an owner, and the attempt leaves the record
/// as it was.
pub proof fn lemma_closed_status_is_refused(r: RecordView, owner: Seq<char>)
    requires
        r.status == "in_progress"@ || r.status == "completed"@ || r.status == "deleted"@,
    ensures
        denial(r) is Some,
        denial(r)->0.is_denial(),
        attempt(r, owner) == r,
{
}

/// A task without an owner, or with an empty owner name, whose status is
/// none of the three closing ones is claimed by whoever asks.
pub proof fn lemma_open_unowned_is_claimed(r: RecordView, owner: Seq<char>)
    requires
        !r.is_owned(),
        r.status != "in_progress"@,
        r.status != "completed"@,
        r.status != "deleted"@,
    ensures
        denial(r) is None,
        attempt(r, owner).owner == Some(owner),
        attempt(r, owner).status == "in_progress"@,
{
}

/// A claim changes the owner and the status and nothing else: identifier,
/// subject, description, active form, both block lists and the metadata are
/// what they were.
pub proof fn lemma_claim_keeps_the_rest(r: RecordView, owner: Seq<char>)
    ensures
        claimed(r, owner).owner == Some(owner),
        claimed(r, owner).status == "in_progress"@,
        claimed(r, owner).id == r.id,
        claimed(r, owner).subject == r.subject,
        claimed(r, owner).description == r.description,
        claimed(r, owner).active_form == r.active_form,
        claimed(r, owner).blocks == r.blocks,
        claimed(r, owner).blocked_by == r.blocked_by,
        claimed(r, owner).metadata == r.metadata,
{
}

/// Once a record has been claimed, no further attempt changes it: it is
/// refused with [`told_after`] the winner.
pub proof fn lemma_claimed_is_closed(r: RecordView, winner: Seq<char>, next: Seq<char>)
    ensures
        denial(claimed(r, winner)) == Some(told_after(winner)),
        attempt(claimed(r, winner), next) == claimed(r, winner),
{
}

/// A task file that holds a claimed record refuses every further claim, and
/// so leaves nothing to write: whoever reads it under the lock is told
/// [`told_after`] the winner.
pub proof fn lemma_claimed_file_is_closed(
    content: Seq<char>,
    r: RecordView,
    winner: Seq<char>,
    task_id: Seq<char>,
    next: Seq<char>,
)
    requires
        json_parse(content) matches Some(v) && decoded(v) == Some(claimed(r, winner)),
    ensures
        claim_of_text(content, task_id, next) == Err::<ClaimedView, FailureView>(
            told_after(winner),
        ),
{
}

/// However many claimants take their turn on an open record, the first one
/// wins and nobody else does: before every later turn the record is already
/// the winner's, that turn is refused as already claimed or already in
/// progress, and in the end the record is owned by the first claimant.
pub proof fn lemma_single_claimant(r: RecordView, owners: Seq<Seq<char>>)
    requires
        denial(r) is None,
        owners.len() > 0,
    ensures
        after_attempts(r, owners) == claimed(r, owners[0]),
        after_attempts(r, owners).owner == Some(owners[0]),
        forall|i: int|
            1 <= i < owners.len() ==> denial(after_attempts(r, #[trigger] owners.take(i)))
                == Some(told_after(owners[0])),
    decreases owners.len(),
{
    let earlier = owners.drop_last();
    if earlier.len() == 0 {
        assert(after_attempts(r, earlier) == r);
    } else {
        lemma_single_claimant(r, earlier);
        assert(earlier[0] == owners[0]);
        lemma_claimed_is_closed(r, owners[0], owners.last());
    }
    assert forall|i: int| 1 <= i < owners.len() implies denial(
        after_attempts(r, #[trigger] owners.take(i)),
    ) == Some(told_after(owners[0])) by {
        if i == owners.len() - 1 {
            assert(owners.take(i) =~= earlier);
            lemma_claimed_is_closed(r, owners[0], owners[0]);
        } else {
            assert(owners.take(i) =~= earlier.take(i));
        }
    }
}

} // verus!
