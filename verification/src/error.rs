//! Why a claim fails, and how a failure and an outcome read as text.

use crate::text::followed_by;
use vstd::prelude::*;

verus! {

/// Why a claim did not go through.
///
/// The variants are the kinds a caller can tell apart. Where a variant
/// carries a text, the text is the description shown to the caller, except
/// for `AlreadyClaimed`, which carries the name of the current owner.
#[derive(Debug, Clone, PartialEq, Eq)]
pub enum ClaimError {
    /// No team could be determined.
    Resolution(String),
    /// The team directory or the task file does not exist.
    NotFound(String),
    /// The task file does not hold a well-formed record.
    Parse(String),
    /// The task has an owner already.
    AlreadyClaimed(String),
    /// The task is unowned but marked `in_progress`.
    AlreadyInProgress,
    /// The task is marked `completed`.
    AlreadyCompleted,
    /// The task is marked `deleted`.
    Deleted,
    /// Locking, reading or writing failed.
    Io(String),
}

/// A claim failure as plain mathematical values.
pub enum FailureView {
    Resolution(Seq<char>),
    NotFound(Seq<char>),
    Parse(Seq<char>),
    AlreadyClaimed(Seq<char>),
    AlreadyInProgress,
    AlreadyCompleted,
    Deleted,
    Io(Seq<char>),
}

impl View for ClaimError {
    type V = FailureView;

    open spec fn view(&self) -> FailureView {
        match *self {
            ClaimError::Resolution(text) => FailureView::Resolution(text@),
            ClaimError::NotFound(text) => FailureView::NotFound(text@),
            ClaimError::Parse(text) => FailureView::Parse(text@),
            ClaimError::AlreadyClaimed(owner) => FailureView::AlreadyClaimed(owner@),
            ClaimError::AlreadyInProgress => FailureView::AlreadyInProgress,
            ClaimError::AlreadyCompleted => FailureView::AlreadyCompleted,
            ClaimError::Deleted => FailureView::Deleted,
            ClaimError::Io(text) => FailureView::Io(text@),
        }
    }
}

impl FailureView {
    /// The sentence that describes the failure.
    pub open spec fn message(self) -> Seq<char> {
        match self {
            FailureView::Resolution(text) => text,
            FailureView::NotFound(text) => text,
            FailureView::Parse(text) => text,
            FailureView::AlreadyClaimed(owner) => "already claimed by "@ + owner,
            FailureView::AlreadyInProgress => "task is already in_progress"@,
            FailureView::AlreadyCompleted => "task is already completed"@,
            FailureView::Deleted => "task is deleted"@,
            FailureView::Io(text) => text,
        }
    }

    /// Whether the failure is one of the four refusals that the state of the
    /// record alone decides.
    pub open spec fn is_denial(self) -> bool {
        self is AlreadyClaimed || self is AlreadyInProgress || self is AlreadyCompleted
            || self is Deleted
    }
}

impl ClaimError {
    /// A copy of the failure, equal to it.
    pub fn duplicate(&self) -> (r: ClaimError)
        ensures
            r == *self,
    {
        match self {
            ClaimError::Resolution(text) => ClaimError::Resolution(text.clone()),
            ClaimError::NotFound(text) => ClaimError::NotFound(text.clone()),
            ClaimError::Parse(text) => ClaimError::Parse(text.clone()),
            ClaimError::AlreadyClaimed(owner) => ClaimError::AlreadyClaimed(owner.clone()),
            ClaimError::AlreadyInProgress => ClaimError::AlreadyInProgress,
            ClaimError::AlreadyCompleted => ClaimError::AlreadyCompleted,
            ClaimError::Deleted => ClaimError::Deleted,
            ClaimError::Io(text) => ClaimError::Io(text.clone()),
        }
    }

    /// The sentence that describes the failure.
    pub fn message(&self) -> (r: String)
        ensures
            r@ == self@.message(),
    {
        match self {
            ClaimError::Resolution(text) => text.clone(),
            ClaimError::NotFound(text) => text.clone(),
            ClaimError::Parse(text) => text.clone(),
            ClaimError::AlreadyClaimed(owner) => followed_by("already claimed by ", owner.as_str()),
            ClaimError::AlreadyInProgress => "task is already in_progress".to_owned(),
            ClaimError::AlreadyCompleted => "task is already completed".to_owned(),
            ClaimError::Deleted => "task is deleted".to_owned(),
            ClaimError::Io(text) => text.clone(),
        }
    }
}

/// The outcome of a claim as plain mathematical values: the success message,
/// or the failure.
pub open spec fn outcome_view(outcome: Result<String, ClaimError>) -> Result<
    Seq<char>,
    FailureView,
> {
    match outcome {
        Ok(message) => Ok(message@),
        Err(e) => Err(e@),
    }
}

/// The line shown to the caller for an outcome.
pub open spec fn rendered(outcome: Result<Seq<char>, FailureView>) -> Seq<char> {
    match outcome {
        Ok(message) => message,
        Err(e) => "Error: "@ + e.message(),
    }
}

/// The line shown to the caller: the success message as it is, a failure as
/// `Error: ` followed by its description.
pub fn render(outcome: &Result<String, ClaimError>) -> (r: String)
    ensures
        r@ == rendered(outcome_view(*outcome)),
{
    match outcome {
        Ok(message) => message.clone(),
        Err(e) => {
            let description = e.message();
            followed_by("Error: ", description.as_str())
        },
    }
}

} // verus!
