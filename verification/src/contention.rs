//! Several claims on one task at once.
//!
//! The claims take their steps in any order. What they share is the text of
//! the task file and the team's lock. This module states what that sharing
//! amounts to and proves that the lock is never held twice and that the task
//! goes to one claimant. Everything here is specification and proof.
//!
//! Three things are taken from the world outside and not proved: the system
//! grants the lock to one claim at a time, the task file is replaced as a
//! whole or not at all, and `serde_json` reads back the record that it
//! printed ([`file_keeps`]).

use crate::claim::{claim_message, claim_of_text, claimed, denial, told_after};
use crate::codec::{decoded, record_value};
use crate::error::FailureView;
use crate::json::{json_parse, json_pretty};
use crate::protocol::{
    began, task_unwritten, ActionView, EventView, PhaseView, RequestView, RunView, StageView,
};
use crate::record::RecordView;
use vstd::prelude::*;

verus! {

/// Claims in progress on one task, with what they share.
pub struct Contest {
    /// The claims, one for each claimant.
    pub runs: Seq<RunView>,
    /// Which claim holds the team's lock, if any does.
    pub holder: Option<int>,
    /// The text of the task file.
    pub content: Seq<char>,
}

impl RunView {
    /// Whether the claim waits for its new text to be written.
    pub open spec fn is_writing(self) -> bool {
        self.phase matches PhaseView::Located { stage, .. } && stage is Writing
    }

    /// Whether the claim has its success decided: the new text is written and
    /// the outcome is the success message.
    pub open spec fn has_won(self) -> bool {
        match self.phase {
            PhaseView::Located { stage, .. } => stage matches StageView::Unlocking {
                outcome: Ok(_),
            },
            PhaseView::Finished { outcome } => outcome is Ok,
            PhaseView::Resolving => false,
        }
    }
}

impl Contest {
    /// Whether the file system can give `event` to the claim `who` now.
    ///
    /// The event answers what that claim asked for. The lock is granted only
    /// while nobody holds it, and a read that succeeds gives the text of the
    /// task file as it is.
    pub open spec fn may_answer(self, who: int, event: EventView) -> bool {
        &&& 0 <= who < self.runs.len()
        &&& self.runs[who].answered_by(event)
        &&& (event matches EventView::Locked(Ok(_)) ==> self.holder is None)
        &&& (event matches EventView::TaskRead(Some(text)) ==> text == self.content)
    }

    /// The contest after the claim `who` has received `event`.
    ///
    /// A granted lock belongs to that claim. An answer to `Unlock` frees the
    /// lock, whatever it says, since the claim is over after it and its lock
    /// file is closed. A write that succeeds replaces the text of the task
    /// file; one that fails leaves it.
    pub open spec fn step(self, who: int, event: EventView) -> Contest {
        Contest {
            runs: self.runs.update(who, self.runs[who].advanced(event)),
            holder: match event {
                EventView::Locked(Ok(_)) => Some(who),
                EventView::Unlocked(_) => None,
                _ => self.holder,
            },
            content: match (self.runs[who].action(), event) {
                (ActionView::WriteTask { content, .. }, EventView::TaskWritten(true)) => content,
                _ => self.content,
            },
        }
    }

    /// Whether the file system can give the events of `schedule` in turn,
    /// each to the claim it is paired with.
    pub open spec fn admits(self, schedule: Seq<(int, EventView)>) -> bool
        decreases schedule.len(),
    {
        schedule.len() == 0 || (self.admits(schedule.drop_last()) && self.after(
            schedule.drop_last(),
        ).may_answer(schedule.last().0, schedule.last().1))
    }

    /// The contest after the events of `schedule`.
    pub open spec fn after(self, schedule: Seq<(int, EventView)>) -> Contest
        decreases schedule.len(),
    {
        if schedule.len() == 0 {
            self
        } else {
            self.after(schedule.drop_last()).step(schedule.last().0, schedule.last().1)
        }
    }

    /// Whether the lock is held by exactly the claim that is recorded as its
    /// holder, and by no other.
    pub open spec fn exclusive(self) -> bool {
        forall|i: int|
            0 <= i < self.runs.len() ==> ((#[trigger] self.runs[i]).holds_lock() <==> self.holder
                == Some(i))
    }
}

/// One step keeps the lock exclusive.
pub proof fn lemma_step_keeps_lock_exclusive(contest: Contest, who: int, event: EventView)
    requires
        contest.exclusive(),
        contest.may_answer(who, event),
    ensures
        contest.step(who, event).exclusive(),
{
    let next = contest.step(who, event);
    assert forall|i: int| 0 <= i < next.runs.len() implies ((#[trigger] next.runs[i]).holds_lock()
        <==> next.holder == Some(i)) by {
        assert(contest.runs[i].holds_lock() <==> contest.holder == Some(i));
        assert(contest.runs[who].holds_lock() <==> contest.holder == Some(who));
    }
}

/// The lock is never held twice. Where nobody holds it at the start, then
/// after any events that the file system can give, at most one claim is
/// between taking the lock and the answer to its release, and that claim is
/// the one to which the lock was granted.
pub proof fn lemma_lock_is_never_held_twice(
    start: Contest,
    schedule: Seq<(int, EventView)>,
    i: int,
    j: int,
)
    requires
        start.exclusive(),
        start.admits(schedule),
        0 <= i < start.runs.len(),
        0 <= j < start.runs.len(),
        start.after(schedule).runs[i].holds_lock(),
        start.after(schedule).runs[j].holds_lock(),
    ensures
        i == j,
        start.after(schedule).holder == Some(i),
{
    lemma_after_keeps_lock_exclusive(start, schedule);
    let end = start.after(schedule);
    assert(end.runs[i].holds_lock() <==> end.holder == Some(i));
    assert(end.runs[j].holds_lock() <==> end.holder == Some(j));
}

/// Any events that the file system can give keep the lock exclusive, and the
/// number of claims as it was.
pub proof fn lemma_after_keeps_lock_exclusive(start: Contest, schedule: Seq<(int, EventView)>)
    requires
        start.exclusive(),
        start.admits(schedule),
    ensures
        start.after(schedule).exclusive(),
        start.after(schedule).runs.len() == start.runs.len(),
    decreases schedule.len(),
{
    if schedule.len() > 0 {
        lemma_after_keeps_lock_exclusive(start, schedule.drop_last());
        lemma_step_keeps_lock_exclusive(
            start.after(schedule.drop_last()),
            schedule.last().0,
            schedule.last().1,
        );
    }
}

/// Whether the task file keeps a record: the record can be printed, and its
/// text is read back as a document that holds the same record.
///
/// This is what the claims rely on `serde_json` for. It is assumed of the
/// records that a contest writes, not proved.
pub open spec fn file_keeps(record: RecordView) -> bool {
    &&& json_pretty(record_value(record)) matches Ok(text)
    &&& json_parse(text) matches Some(document)
    &&& decoded(document) == Some(record)
}

/// The text that a record is printed as.
pub open spec fn printed(record: RecordView) -> Seq<char> {
    json_pretty(record_value(record))->Ok_0
}

/// Claimants who go for the same open task.
pub struct Rivalry {
    pub base: Seq<char>,
    pub team: Seq<char>,
    pub task_id: Seq<char>,
    /// The claimants.
    pub owners: Seq<Seq<char>>,
    /// The text of the task file before any claim.
    pub content: Seq<char>,
    /// The record that the task file holds before any claim.
    pub record: RecordView,
}

impl Rivalry {
    /// Whether the task file holds an open record at the start, and keeps
    /// that record as each of the claimants would write it.
    pub open spec fn well_posed(self) -> bool {
        &&& json_parse(self.content) matches Some(document)
        &&& decoded(document) == Some(self.record)
        &&& denial(self.record) is None
        &&& forall|i: int|
            0 <= i < self.owners.len() ==> file_keeps(claimed(self.record, #[trigger] self.owners[i]))
    }

    /// The contest at its start: every claimant has begun a claim that names
    /// the team, nobody holds the lock, and the task file is untouched.
    pub open spec fn opening(self) -> Contest {
        Contest {
            runs: Seq::new(
                self.owners.len(),
                |i: int|
                    began(
                        RequestView {
                            task_id: self.task_id,
                            owner: self.owners[i],
                            team: Some(self.team),
                        },
                        self.base,
                    ),
            ),
            holder: None,
            content: self.content,
        }
    }

    /// The text of the task file after a claim by the claimant `i`.
    pub open spec fn text_from(self, i: int) -> Seq<char> {
        printed(claimed(self.record, self.owners[i]))
    }

    /// The message that the winner gets.
    pub open spec fn message(self) -> Seq<char> {
        claim_message(self.task_id, self.record.subject)
    }

    /// What holds of a contest among these claimants at every moment, with
    /// `winner` the claimant whose text is in the task file, if any is.
    ///
    /// The lock is exclusive. A claim that waits to write holds the text of
    /// its own claim. Before anybody has written, the task file is as it was
    /// and nobody has won. After the winner has written, the task file holds
    /// the winner's text, nobody else has won, and nobody waits to write.
    pub open spec fn holds_of(self, contest: Contest, winner: Option<int>) -> bool {
        &&& contest.runs.len() == self.owners.len()
        &&& contest.exclusive()
        &&& forall|i: int|
            0 <= i < contest.runs.len() ==> {
                &&& (#[trigger] contest.runs[i]).task_id == self.task_id
                &&& contest.runs[i].owner == self.owners[i]
                &&& contest.runs[i].is_writing() ==> contest.runs[i].phase->stage
                    == (StageView::Writing { content: self.text_from(i), message: self.message() })
            }
        &&& match winner {
            None => {
                &&& contest.content == self.content
                &&& forall|i: int|
                    0 <= i < contest.runs.len() ==> !(#[trigger] contest.runs[i]).has_won()
            },
            Some(w) => {
                &&& 0 <= w < contest.runs.len()
                &&& contest.content == self.text_from(w)
                &&& forall|i: int|
                    0 <= i < contest.runs.len() ==> !(#[trigger] contest.runs[i]).is_writing() && (i
                        != w ==> !contest.runs[i].has_won())
            },
        }
    }
}

/// One step keeps what holds of a contest. The winner stays the winner; a
/// claim becomes the winner by writing when there is none.
pub proof fn lemma_step_keeps_contest(
    rivals: Rivalry,
    contest: Contest,
    winner: Option<int>,
    who: int,
    event: EventView,
) -> (next_winner: Option<int>)
    requires
        rivals.well_posed(),
        rivals.holds_of(contest, winner),
        contest.may_answer(who, event),
    ensures
        rivals.holds_of(contest.step(who, event), next_winner),
        winner is Some ==> next_winner == winner,
{
    let next = contest.step(who, event);
    let run = contest.runs[who];
    let moved = run.advanced(event);
    lemma_step_keeps_lock_exclusive(contest, who, event);
    assert(file_keeps(claimed(rivals.record, rivals.owners[who])));
    assert(run.holds_lock() <==> contest.holder == Some(who));
    let writes = run.is_writing() && event == EventView::TaskWritten(true);
    let next_winner = if writes {
        Some(who)
    } else {
        winner
    };
    if let Some(w) = winner {
        assert(file_keeps(claimed(rivals.record, rivals.owners[w])));
        assert(!run.is_writing());
    }
    if writes {
        assert forall|i: int| 0 <= i < next.runs.len() implies !(#[trigger] next.runs[i]).is_writing()
            && (i != who ==> !next.runs[i].has_won()) by {
            assert(contest.runs[i].holds_lock() <==> contest.holder == Some(i));
            assert(!contest.runs[i].has_won());
        }
    } else {
        assert forall|i: int| 0 <= i < next.runs.len() implies {
            &&& (#[trigger] next.runs[i]).is_writing() ==> next.runs[i].phase->stage
                == (StageView::Writing {
                content: rivals.text_from(i),
                message: rivals.message(),
            })
            &&& (winner is None ==> !next.runs[i].has_won())
            &&& (winner is Some ==> !next.runs[i].is_writing() && (i != winner->0
                ==> !next.runs[i].has_won()))
        } by {
            assert(contest.runs[i].task_id == rivals.task_id);
            assert(!contest.runs[i].is_writing() || contest.runs[i].phase->stage
                == (StageView::Writing {
                content: rivals.text_from(i),
                message: rivals.message(),
            }));
            if winner is None {
                assert(!contest.runs[i].has_won());
            } else {
                assert(!contest.runs[i].is_writing());
            }
        }
    }
    assert forall|i: int| 0 <= i < next.runs.len() implies {
        &&& (#[trigger] next.runs[i]).task_id == rivals.task_id
        &&& next.runs[i].owner == rivals.owners[i]
    } by {
        assert(contest.runs[i].task_id == rivals.task_id);
    }
    next_winner
}

/// No two claimants win. From the start of a contest on an open task, after
/// any events that the file system can give, failures among them: at most
/// one claim has won, and the task file holds either what it held at the
/// start, with nobody having won, or the record as the returned claimant
/// wrote it, with nobody else having won.
pub proof fn lemma_at_most_one_wins(rivals: Rivalry, schedule: Seq<(int, EventView)>) -> (winner:
    Option<int>)
    requires
        rivals.well_posed(),
        rivals.opening().admits(schedule),
    ensures
        rivals.holds_of(rivals.opening().after(schedule), winner),
        forall|i: int, j: int|
            0 <= i < rivals.owners.len() && 0 <= j < rivals.owners.len() && (
            #[trigger] rivals.opening().after(schedule).runs[i]).has_won() && (
            #[trigger] rivals.opening().after(schedule).runs[j]).has_won() ==> i == j,
        match winner {
            Some(w) => 0 <= w < rivals.owners.len() && rivals.opening().after(schedule).content
                == printed(claimed(rivals.record, rivals.owners[w])),
            None => rivals.opening().after(schedule).content == rivals.content,
        },
    decreases schedule.len(),
{
    if schedule.len() == 0 {
        assert(rivals.holds_of(rivals.opening(), None));
        None
    } else {
        let before = lemma_at_most_one_wins(rivals, schedule.drop_last());
        lemma_step_keeps_contest(
            rivals,
            rivals.opening().after(schedule.drop_last()),
            before,
            schedule.last().0,
            schedule.last().1,
        )
    }
}

impl EventView {
    /// Whether the event reports that all went well: what was looked for is
    /// there, and what was tried succeeded.
    pub open spec fn is_favourable(self) -> bool {
        match self {
            EventView::TeamsListed(_) => true,
            EventView::TeamDirProbed(found) => found,
            EventView::TaskFileProbed(found) => found,
            EventView::LockOpened(opened) => opened,
            EventView::Locked(done) => done is Ok,
            EventView::TaskRead(read) => read is Some,
            EventView::TaskWritten(written) => written,
            EventView::Unlocked(done) => done is Ok,
        }
    }
}

impl RunView {
    /// The outcome of the claim once it is decided: while the lock is being
    /// released, and when the claim is over.
    pub open spec fn decided(self) -> Option<Result<Seq<char>, FailureView>> {
        match self.phase {
            PhaseView::Located { stage, .. } => match stage {
                StageView::Unlocking { outcome } => Some(outcome),
                _ => None,
            },
            PhaseView::Finished { outcome } => Some(outcome),
            PhaseView::Resolving => None,
        }
    }
}

impl Rivalry {
    /// What holds in addition while the file system reports no failure.
    ///
    /// Before anybody has written, no claim has its outcome decided. After
    /// the winner has written, the winner's outcome is the success message,
    /// and every other outcome that is decided is the refusal that names the
    /// winner.
    pub open spec fn holds_smoothly(self, contest: Contest, winner: Option<int>) -> bool {
        &&& self.holds_of(contest, winner)
        &&& forall|i: int|
            0 <= i < contest.runs.len() ==> {
                &&& !((#[trigger] contest.runs[i]).phase is Resolving)
                &&& match winner {
                    None => contest.runs[i].decided() is None,
                    Some(w) => if i == w {
                        contest.runs[i].decided() == Some(
                            Ok::<Seq<char>, FailureView>(self.message()),
                        )
                    } else {
                        contest.runs[i].decided() matches Some(outcome) ==> outcome == Err::<
                            Seq<char>,
                            FailureView,
                        >(told_after(self.owners[w]))
                    },
                }
            }
    }
}

/// One favourable step keeps what holds of a contest without failures.
pub proof fn lemma_step_keeps_smooth_contest(
    rivals: Rivalry,
    contest: Contest,
    winner: Option<int>,
    who: int,
    event: EventView,
) -> (next_winner: Option<int>)
    requires
        rivals.well_posed(),
        rivals.holds_smoothly(contest, winner),
        contest.may_answer(who, event),
        event.is_favourable(),
    ensures
        rivals.holds_smoothly(contest.step(who, event), next_winner),
{
    let next = contest.step(who, event);
    let run = contest.runs[who];
    let next_winner = lemma_step_keeps_contest(rivals, contest, winner, who, event);
    assert(file_keeps(claimed(rivals.record, rivals.owners[who])));
    assert(run.task_id == rivals.task_id && run.owner == rivals.owners[who]);
    assert(!(run.phase is Resolving));
    assert(run.is_writing() ==> run.phase->stage == (StageView::Writing {
        content: rivals.text_from(who),
        message: rivals.message(),
    }));
    if let Some(w) = winner {
        assert(file_keeps(claimed(rivals.record, rivals.owners[w])));
        assert(!run.is_writing());
        assert(contest.runs[w].decided() == Some(Ok::<Seq<char>, FailureView>(rivals.message())));
    } else {
        assert(run.decided() is None);
    }
    assert forall|i: int| 0 <= i < next.runs.len() implies {
        &&& !((#[trigger] next.runs[i]).phase is Resolving)
        &&& match next_winner {
            None => next.runs[i].decided() is None,
            Some(w) => if i == w {
                next.runs[i].decided() == Some(Ok::<Seq<char>, FailureView>(rivals.message()))
            } else {
                next.runs[i].decided() matches Some(outcome) ==> outcome == Err::<
                    Seq<char>,
                    FailureView,
                >(told_after(rivals.owners[w]))
            },
        }
    } by {
        assert(!(contest.runs[i].phase is Resolving));
        if i != who {
            assert(next.runs[i] == contest.runs[i]);
            if winner is None {
                assert(contest.runs[i].decided() is None);
            }
        }
    }
    next_winner
}

/// Without failures, the claimant whose text is in the task file is told of
/// success, and nobody has an outcome before somebody has written.
pub proof fn lemma_smooth_contest(rivals: Rivalry, schedule: Seq<(int, EventView)>) -> (winner:
    Option<int>)
    requires
        rivals.well_posed(),
        rivals.opening().admits(schedule),
        forall|k: int| 0 <= k < schedule.len() ==> (#[trigger] schedule[k]).1.is_favourable(),
    ensures
        rivals.holds_smoothly(rivals.opening().after(schedule), winner),
    decreases schedule.len(),
{
    if schedule.len() == 0 {
        assert(rivals.holds_of(rivals.opening(), None));
        None
    } else {
        let earlier = schedule.drop_last();
        assert forall|k: int| 0 <= k < earlier.len() implies (#[trigger] earlier[k]).1.is_favourable() by {
            assert(earlier[k] == schedule[k]);
        }
        let before = lemma_smooth_contest(rivals, earlier);
        assert(schedule.last() == schedule[schedule.len() - 1]);
        lemma_step_keeps_smooth_contest(
            rivals,
            rivals.opening().after(earlier),
            before,
            schedule.last().0,
            schedule.last().1,
        )
    }
}

/// Exactly one claimant wins. Claimants go for the same open task, in any
/// number and taking their steps in any order that the lock allows, and the
/// file system reports no failure. Once all their claims are over, exactly
/// one of them has been told of success; every other one has been refused
/// because the task is already claimed by the winner, or already in progress
/// where the winner's name is empty; and the task file holds the record as
/// the winner claimed it.
pub proof fn lemma_exactly_one_wins(rivals: Rivalry, schedule: Seq<(int, EventView)>) -> (winner:
    int)
    requires
        rivals.well_posed(),
        rivals.owners.len() > 0,
        rivals.opening().admits(schedule),
        forall|k: int| 0 <= k < schedule.len() ==> (#[trigger] schedule[k]).1.is_favourable(),
        forall|i: int|
            0 <= i < rivals.owners.len() ==> (#[trigger] rivals.opening().after(
                schedule,
            ).runs[i]).phase is Finished,
    ensures
        0 <= winner < rivals.owners.len(),
        rivals.opening().after(schedule).runs[winner].phase == (PhaseView::Finished {
            outcome: Ok(claim_message(rivals.task_id, rivals.record.subject)),
        }),
        forall|i: int|
            0 <= i < rivals.owners.len() && i != winner ==> (#[trigger] rivals.opening().after(
                schedule,
            ).runs[i]).phase == (PhaseView::Finished {
                outcome: Err(told_after(rivals.owners[winner])),
            }),
        rivals.opening().after(schedule).content == printed(
            claimed(rivals.record, rivals.owners[winner]),
        ),
        json_parse(rivals.opening().after(schedule).content) matches Some(document) && decoded(
            document,
        ) == Some(claimed(rivals.record, rivals.owners[winner])),
{
    let end = rivals.opening().after(schedule);
    let found = lemma_smooth_contest(rivals, schedule);
    assert(end.runs[0].phase is Finished);
    assert(end.runs[0].decided() is Some);
    let winner = found->0;
    assert(file_keeps(claimed(rivals.record, rivals.owners[winner])));
    assert(end.runs[winner].phase is Finished);
    assert forall|i: int| 0 <= i < rivals.owners.len() && i != winner implies (#[trigger] end.runs[i]).phase
        == (PhaseView::Finished { outcome: Err(told_after(rivals.owners[winner])) }) by {
        assert(end.runs[i].phase is Finished);
    }
    winner
}

} // verus!
