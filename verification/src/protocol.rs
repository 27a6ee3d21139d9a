//! The claim protocol as a state machine.
//!
//! A [`ClaimRun`] holds where one claim stands. [`ClaimRun::action`] names the
//! one file operation to perform next, and [`ClaimRun::advance`] takes what
//! came of it. The caller does nothing but perform and report, so the order
//! of the steps, the reading and rewriting of the record under the lock, and
//! the release of the lock on every path are decided here.

use crate::claim::{claim_of_text, claim_under_lock, Claimed};
use crate::error::{outcome_view, ClaimError, FailureView};
use crate::record::opt_text;
use crate::resolver::{
    lock_path_of, resolve_paths, resolve_team, resolved_team, task_path_of, team_dir,
    team_dir_of, Listing, ListingView,
};
use crate::text::followed_by;
use vstd::prelude::*;

verus! {

/// What a caller asks for: the task, who claims it, and in which team. With
/// no team named, the first team directory found is taken.
#[derive(Debug, Clone, PartialEq, Eq)]
pub struct ClaimRequest {
    pub task_id: String,
    pub owner: String,
    pub team: Option<String>,
}

/// A request as plain mathematical values.
pub struct RequestView {
    pub task_id: Seq<char>,
    pub owner: Seq<char>,
    pub team: Option<Seq<char>>,
}

impl View for ClaimRequest {
    type V = RequestView;

    open spec fn view(&self) -> RequestView {
        RequestView { task_id: self.task_id@, owner: self.owner@, team: opt_text(self.team) }
    }
}

/// Where a claim stands once its team is known.
#[derive(Debug, PartialEq, Eq)]
pub enum Stage {
    /// Waiting to hear whether the team directory exists.
    ProbingTeamDir,
    /// Waiting to hear whether the task file exists.
    ProbingTaskFile,
    /// Waiting for the lock file to be opened.
    OpeningLock,
    /// Waiting for the exclusive lock.
    Locking,
    /// Lock held; waiting for the text of the task file.
    Reading,
    /// Lock held; waiting for the new text to be written.
    Writing { content: String, message: String },
    /// Lock held; waiting for its release, with the outcome decided.
    Unlocking { outcome: Result<String, ClaimError> },
}

/// Where a claim stands.
#[derive(Debug, PartialEq, Eq)]
pub enum Phase {
    /// No team was named; waiting for the listing of the base directory.
    Resolving,
    /// The team is known.
    Located { team: String, stage: Stage },
    /// The claim is over.
    Finished { outcome: Result<String, ClaimError> },
}

/// One claim in progress.
#[derive(Debug, PartialEq, Eq)]
pub struct ClaimRun {
    pub task_id: String,
    pub owner: String,
    pub base: String,
    pub phase: Phase,
}

/// The file operation that a claim waits for.
#[derive(Debug, PartialEq, Eq)]
pub enum Action {
    /// List the entries of the base directory.
    ListTeams { dir: String },
    /// Tell whether `path` is a directory.
    ProbeTeamDir { path: String },
    /// Tell whether `path` exists.
    ProbeTaskFile { path: String },
    /// Open the lock file for writing, creating it if it is not there.
    OpenLock { path: String },
    /// Take the exclusive lock on the open lock file, waiting for it.
    Lock,
    /// Read the whole task file as text.
    ReadTask { path: String },
    /// Replace the task file as a whole: write `content` to `scratch`, then
    /// rename `scratch` to `path`.
    WriteTask { path: String, scratch: String, content: String },
    /// Release the lock.
    Unlock,
    /// Nothing is left to do; close the lock file if it is open.
    Finish { outcome: Result<String, ClaimError> },
}

/// What came of a file operation.
#[derive(Debug, PartialEq, Eq)]
pub enum Event {
    /// The base directory was listed, or could not be.
    TeamsListed(Listing),
    /// Whether the team directory is there.
    TeamDirProbed(bool),
    /// Whether the task file is there.
    TaskFileProbed(bool),
    /// Whether the lock file could be opened.
    LockOpened(bool),
    /// The lock was taken, or the system refused with the given reason.
    Locked(Result<(), String>),
    /// The text of the task file, `None` where it could not be read.
    TaskRead(Option<String>),
    /// Whether the task file was replaced.
    TaskWritten(bool),
    /// The lock was released, or the system refused with the given reason.
    Unlocked(Result<(), String>),
}

/// A stage as plain mathematical values.
pub enum StageView {
    ProbingTeamDir,
    ProbingTaskFile,
    OpeningLock,
    Locking,
    Reading,
    Writing { content: Seq<char>, message: Seq<char> },
    Unlocking { outcome: Result<Seq<char>, FailureView> },
}

/// A phase as plain mathematical values.
pub enum PhaseView {
    Resolving,
    Located { team: Seq<char>, stage: StageView },
    Finished { outcome: Result<Seq<char>, FailureView> },
}

/// A claim in progress as plain mathematical values.
pub struct RunView {
    pub task_id: Seq<char>,
    pub owner: Seq<char>,
    pub base: Seq<char>,
    pub phase: PhaseView,
}

/// An action as plain mathematical values.
pub enum ActionView {
    ListTeams { dir: Seq<char> },
    ProbeTeamDir { path: Seq<char> },
    ProbeTaskFile { path: Seq<char> },
    OpenLock { path: Seq<char> },
    Lock,
    ReadTask { path: Seq<char> },
    WriteTask { path: Seq<char>, scratch: Seq<char>, content: Seq<char> },
    Unlock,
    Finish { outcome: Result<Seq<char>, FailureView> },
}

/// An event as plain mathematical values.
pub enum EventView {
    TeamsListed(ListingView),
    TeamDirProbed(bool),
    TaskFileProbed(bool),
    LockOpened(bool),
    Locked(Result<(), Seq<char>>),
    TaskRead(Option<Seq<char>>),
    TaskWritten(bool),
    Unlocked(Result<(), Seq<char>>),
}

/// What the system said of a lock operation, as plain values.
pub open spec fn done_view(done: Result<(), String>) -> Result<(), Seq<char>> {
    match done {
        Ok(_) => Ok(()),
        Err(reason) => Err(reason@),
    }
}

impl View for Stage {
    type V = StageView;

    open spec fn view(&self) -> StageView {
        match *self {
            Stage::ProbingTeamDir => StageView::ProbingTeamDir,
            Stage::ProbingTaskFile => StageView::ProbingTaskFile,
            Stage::OpeningLock => StageView::OpeningLock,
            Stage::Locking => StageView::Locking,
            Stage::Reading => StageView::Reading,
            Stage::Writing { content, message } => StageView::Writing {
                content: content@,
                message: message@,
            },
            Stage::Unlocking { outcome } => StageView::Unlocking { outcome: outcome_view(outcome) },
        }
    }
}

impl View for Phase {
    type V = PhaseView;

    open spec fn view(&self) -> PhaseView {
        match *self {
            Phase::Resolving => PhaseView::Resolving,
            Phase::Located { team, stage } => PhaseView::Located { team: team@, stage: stage@ },
            Phase::Finished { outcome } => PhaseView::Finished { outcome: outcome_view(outcome) },
        }
    }
}

impl View for ClaimRun {
    type V = RunView;

    open spec fn view(&self) -> RunView {
        RunView {
            task_id: self.task_id@,
            owner: self.owner@,
            base: self.base@,
            phase: self.phase@,
        }
    }
}

impl View for Action {
    type V = ActionView;

    open spec fn view(&self) -> ActionView {
        match *self {
            Action::ListTeams { dir } => ActionView::ListTeams { dir: dir@ },
            Action::ProbeTeamDir { path } => ActionView::ProbeTeamDir { path: path@ },
            Action::ProbeTaskFile { path } => ActionView::ProbeTaskFile { path: path@ },
            Action::OpenLock { path } => ActionView::OpenLock { path: path@ },
            Action::Lock => ActionView::Lock,
            Action::ReadTask { path } => ActionView::ReadTask { path: path@ },
            Action::WriteTask { path, scratch, content } => ActionView::WriteTask {
                path: path@,
                scratch: scratch@,
                content: content@,
            },
            Action::Unlock => ActionView::Unlock,
            Action::Finish { outcome } => ActionView::Finish { outcome: outcome_view(outcome) },
        }
    }
}

impl View for Event {
    type V = EventView;

    open spec fn view(&self) -> EventView {
        match *self {
            Event::TeamsListed(listing) => EventView::TeamsListed(listing@),
            Event::TeamDirProbed(found) => EventView::TeamDirProbed(found),
            Event::TaskFileProbed(found) => EventView::TaskFileProbed(found),
            Event::LockOpened(opened) => EventView::LockOpened(opened),
            Event::Locked(done) => EventView::Locked(done_view(done)),
            Event::TaskRead(content) => EventView::TaskRead(opt_text(content)),
            Event::TaskWritten(written) => EventView::TaskWritten(written),
            Event::Unlocked(done) => EventView::Unlocked(done_view(done)),
        }
    }
}

/// The failure for a team directory that is not there.
pub open spec fn missing_team_dir(path: Seq<char>) -> FailureView {
    FailureView::NotFound("team directory not found: "@ + path)
}

/// The failure for a task file that is not there.
pub open spec fn missing_task_file(path: Seq<char>) -> FailureView {
    FailureView::NotFound("task file not found: "@ + path)
}

/// The failure for a lock file that cannot be opened.
pub open spec fn lock_unopened(path: Seq<char>) -> FailureView {
    FailureView::Io("cannot open lock: "@ + path)
}

/// The failure for a lock that the system refuses to take or to release.
pub open spec fn lock_refused(reason: Seq<char>) -> FailureView {
    FailureView::Io("flock failed: "@ + reason)
}

/// The failure for a task file that cannot be read.
pub open spec fn task_unread(task_id: Seq<char>) -> FailureView {
    FailureView::Io("cannot read task "@ + task_id)
}

/// The failure for a task file that cannot be replaced.
pub open spec fn task_unwritten(task_id: Seq<char>) -> FailureView {
    FailureView::Io("cannot write task "@ + task_id)
}

/// The scratch file through which a task file is replaced.
pub open spec fn scratch_path_of(task_path: Seq<char>) -> Seq<char> {
    task_path + ".tmp"@
}

/// A claim at its start: it goes straight to its team where one is named,
/// and otherwise waits for the listing of the base directory.
pub open spec fn began(request: RequestView, base: Seq<char>) -> RunView {
    RunView {
        task_id: request.task_id,
        owner: request.owner,
        base,
        phase: match request.team {
            Some(team) => PhaseView::Located { team, stage: StageView::ProbingTeamDir },
            None => PhaseView::Resolving,
        },
    }
}

impl RunView {
    /// The path of the task file of a claim in `team`.
    pub open spec fn task_path(self, team: Seq<char>) -> Seq<char> {
        task_path_of(self.base, team, self.task_id)
    }

    /// The operation that the claim waits for.
    pub open spec fn action(self) -> ActionView {
        match self.phase {
            PhaseView::Resolving => ActionView::ListTeams { dir: self.base },
            PhaseView::Located { team, stage } => match stage {
                StageView::ProbingTeamDir => ActionView::ProbeTeamDir {
                    path: team_dir_of(self.base, team),
                },
                StageView::ProbingTaskFile => ActionView::ProbeTaskFile {
                    path: self.task_path(team),
                },
                StageView::OpeningLock => ActionView::OpenLock {
                    path: lock_path_of(self.base, team),
                },
                StageView::Locking => ActionView::Lock,
                StageView::Reading => ActionView::ReadTask { path: self.task_path(team) },
                StageView::Writing { content, message } => ActionView::WriteTask {
                    path: self.task_path(team),
                    scratch: scratch_path_of(self.task_path(team)),
                    content,
                },
                StageView::Unlocking { outcome } => ActionView::Unlock,
            },
            PhaseView::Finished { outcome } => ActionView::Finish { outcome },
        }
    }

    /// The phase after `event`, for a claim whose team is not yet known.
    pub open spec fn after_listing(self, event: EventView) -> PhaseView {
        match event {
            EventView::TeamsListed(listing) => match resolved_team(None, self.base, listing) {
                Ok(team) => PhaseView::Located { team, stage: StageView::ProbingTeamDir },
                Err(e) => PhaseView::Finished { outcome: Err(e) },
            },
            _ => PhaseView::Resolving,
        }
    }

    /// The phase after `event`, for a claim in `team` at `stage`.
    pub open spec fn after_located(
        self,
        team: Seq<char>,
        stage: StageView,
        event: EventView,
    ) -> PhaseView {
        let stay = PhaseView::Located { team, stage };
        match (stage, event) {
            (StageView::ProbingTeamDir, EventView::TeamDirProbed(found)) => if found {
                PhaseView::Located { team, stage: StageView::ProbingTaskFile }
            } else {
                PhaseView::Finished { outcome: Err(missing_team_dir(team_dir_of(self.base, team))) }
            },
            (StageView::ProbingTaskFile, EventView::TaskFileProbed(found)) => if found {
                PhaseView::Located { team, stage: StageView::OpeningLock }
            } else {
                PhaseView::Finished { outcome: Err(missing_task_file(self.task_path(team))) }
            },
            (StageView::OpeningLock, EventView::LockOpened(opened)) => if opened {
                PhaseView::Located { team, stage: StageView::Locking }
            } else {
                PhaseView::Finished { outcome: Err(lock_unopened(lock_path_of(self.base, team))) }
            },
            (StageView::Locking, EventView::Locked(done)) => match done {
                Ok(_) => PhaseView::Located { team, stage: StageView::Reading },
                Err(reason) => PhaseView::Finished { outcome: Err(lock_refused(reason)) },
            },
            (StageView::Reading, EventView::TaskRead(read)) => match read {
                Some(content) => match claim_of_text(content, self.task_id, self.owner) {
                    Ok(claimed) => PhaseView::Located {
                        team,
                        stage: StageView::Writing {
                            content: claimed.content,
                            message: claimed.message,
                        },
                    },
                    Err(e) => PhaseView::Located {
                        team,
                        stage: StageView::Unlocking { outcome: Err(e) },
                    },
                },
                None => PhaseView::Located {
                    team,
                    stage: StageView::Unlocking { outcome: Err(task_unread(self.task_id)) },
                },
            },
            (StageView::Writing { content, message }, EventView::TaskWritten(written)) => PhaseView::Located {
                team,
                stage: StageView::Unlocking {
                    outcome: if written {
                        Ok(message)
                    } else {
                        Err(task_unwritten(self.task_id))
                    },
                },
            },
            (StageView::Unlocking { outcome }, EventView::Unlocked(done)) => PhaseView::Finished {
                outcome: match done {
                    Ok(_) => outcome,
                    Err(reason) => Err(lock_refused(reason)),
                },
            },
            _ => stay,
        }
    }

    /// The claim after `event`.
    ///
    /// An event that answers the pending action moves the claim on. Any other
    /// event leaves it where it is, with the same action pending.
    pub open spec fn advanced(self, event: EventView) -> RunView {
        RunView {
            phase: match self.phase {
                PhaseView::Resolving => self.after_listing(event),
                PhaseView::Located { team, stage } => self.after_located(team, stage, event),
                PhaseView::Finished { outcome } => self.phase,
            },
            ..self
        }
    }
}

fn copy_outcome(outcome: &Result<String, ClaimError>) -> (r: Result<String, ClaimError>)
    ensures
        r == *outcome,
{
    match outcome {
        Ok(message) => Ok(message.clone()),
        Err(e) => Err(e.duplicate()),
    }
}

impl ClaimRun {
    /// Starts a claim under the base directory `base`.
    pub fn begin(request: ClaimRequest, base: String) -> (run: ClaimRun)
        ensures
            run@ == began(request@, base@),
    {
        let ClaimRequest { task_id, owner, team } = request;
        let phase = match team {
            Some(team) => Phase::Located { team, stage: Stage::ProbingTeamDir },
            None => Phase::Resolving,
        };
        ClaimRun { task_id, owner, base, phase }
    }

    /// The operation to perform next.
    pub fn action(&self) -> (a: Action)
        ensures
            a@ == self@.action(),
    {
        match &self.phase {
            Phase::Resolving => Action::ListTeams { dir: self.base.clone() },
            Phase::Located { team, stage } => {
                let base = self.base.as_str();
                match stage {
                    Stage::ProbingTeamDir => Action::ProbeTeamDir {
                        path: team_dir(base, team.as_str()),
                    },
                    Stage::ProbingTaskFile => {
                        let paths = resolve_paths(base, team.as_str(), self.task_id.as_str());
                        Action::ProbeTaskFile { path: paths.0 }
                    },
                    Stage::OpeningLock => {
                        let paths = resolve_paths(base, team.as_str(), self.task_id.as_str());
                        Action::OpenLock { path: paths.1 }
                    },
                    Stage::Locking => Action::Lock,
                    Stage::Reading => {
                        let paths = resolve_paths(base, team.as_str(), self.task_id.as_str());
                        Action::ReadTask { path: paths.0 }
                    },
                    Stage::Writing { content, message } => {
                        let paths = resolve_paths(base, team.as_str(), self.task_id.as_str());
                        let scratch = followed_by(paths.0.as_str(), ".tmp");
                        Action::WriteTask { path: paths.0, scratch, content: content.clone() }
                    },
                    Stage::Unlocking { outcome } => Action::Unlock,
                }
            },
            Phase::Finished { outcome } => Action::Finish { outcome: copy_outcome(outcome) },
        }
    }

    /// Takes what came of the pending action and moves the claim on.
    pub fn advance(self, event: Event) -> (next: ClaimRun)
        ensures
            next@ == self@.advanced(event@),
    {
        let ghost before = self@;
        let ClaimRun { task_id, owner, base, phase } = self;
        let phase = match phase {
            Phase::Resolving => match event {
                Event::TeamsListed(listing) => match resolve_team(None, base.as_str(), &listing) {
                    Ok(team) => Phase::Located { team, stage: Stage::ProbingTeamDir },
                    Err(e) => Phase::Finished { outcome: Err(e) },
                },
                _ => Phase::Resolving,
            },
            Phase::Located { team, stage } => match (stage, event) {
                (Stage::ProbingTeamDir, Event::TeamDirProbed(found)) => if found {
                    Phase::Located { team, stage: Stage::ProbingTaskFile }
                } else {
                    let path = team_dir(base.as_str(), team.as_str());
                    Phase::Finished {
                        outcome: Err(
                            ClaimError::NotFound(
                                followed_by("team directory not found: ", path.as_str()),
                            ),
                        ),
                    }
                },
                (Stage::ProbingTaskFile, Event::TaskFileProbed(found)) => if found {
                    Phase::Located { team, stage: Stage::OpeningLock }
                } else {
                    let paths = resolve_paths(base.as_str(), team.as_str(), task_id.as_str());
                    Phase::Finished {
                        outcome: Err(
                            ClaimError::NotFound(followed_by("task file not found: ", paths.0.as_str())),
                        ),
                    }
                },
                (Stage::OpeningLock, Event::LockOpened(opened)) => if opened {
                    Phase::Located { team, stage: Stage::Locking }
                } else {
                    let paths = resolve_paths(base.as_str(), team.as_str(), task_id.as_str());
                    Phase::Finished {
                        outcome: Err(ClaimError::Io(followed_by("cannot open lock: ", paths.1.as_str()))),
                    }
                },
                (Stage::Locking, Event::Locked(done)) => match done {
                    Ok(_) => Phase::Located { team, stage: Stage::Reading },
                    Err(reason) => Phase::Finished {
                        outcome: Err(ClaimError::Io(followed_by("flock failed: ", reason.as_str()))),
                    },
                },
                (Stage::Reading, Event::TaskRead(read)) => {
                    let outcome = match read {
                        Some(content) => claim_under_lock(
                            content.as_str(),
                            task_id.as_str(),
                            owner.as_str(),
                        ),
                        None => Err(ClaimError::Io(followed_by("cannot read task ", task_id.as_str()))),
                    };
                    match outcome {
                        Ok(claimed) => {
                            let Claimed { content, message } = claimed;
                            Phase::Located { team, stage: Stage::Writing { content, message } }
                        },
                        Err(e) => Phase::Located {
                            team,
                            stage: Stage::Unlocking { outcome: Err(e) },
                        },
                    }
                },
                (Stage::Writing { content, message }, Event::TaskWritten(written)) => {
                    let outcome = if written {
                        Ok(message)
                    } else {
                        Err(ClaimError::Io(followed_by("cannot write task ", task_id.as_str())))
                    };
                    Phase::Located { team, stage: Stage::Unlocking { outcome } }
                },
                (Stage::Unlocking { outcome }, Event::Unlocked(done)) => {
                    let outcome = match done {
                        Ok(_) => outcome,
                        Err(reason) => Err(
                            ClaimError::Io(followed_by("flock failed: ", reason.as_str())),
                        ),
                    };
                    Phase::Finished { outcome }
                },
                (stage, _) => Phase::Located { team, stage },
            },
            Phase::Finished { outcome } => Phase::Finished { outcome },
        };
        ClaimRun { task_id, owner, base, phase }
    }

    /// The outcome of the claim once it is over, `None` before.
    pub fn outcome(&self) -> (r: Option<&Result<String, ClaimError>>)
        ensures
            match r {
                Some(outcome) => self.phase == (Phase::Finished { outcome: *outcome }),
                None => !(self.phase is Finished),
            },
    {
        match &self.phase {
            Phase::Finished { outcome } => Some(outcome),
            _ => None,
        }
    }
}

impl ActionView {
    /// Whether the operation creates or changes a file.
    pub open spec fn mutates(self) -> bool {
        self is OpenLock || self is WriteTask
    }
}

impl RunView {
    /// Whether the claim holds the team's lock: from the moment the lock is
    /// taken until its release is answered.
    pub open spec fn holds_lock(self) -> bool {
        self.phase matches PhaseView::Located { stage, .. } && (stage is Reading
            || stage is Writing || stage is Unlocking)
    }

    /// How many operations the claim can still ask for at most.
    pub open spec fn steps_left(self) -> nat {
        match self.phase {
            PhaseView::Resolving => 8,
            PhaseView::Located { team, stage } => match stage {
                StageView::ProbingTeamDir => 7,
                StageView::ProbingTaskFile => 6,
                StageView::OpeningLock => 5,
                StageView::Locking => 4,
                StageView::Reading => 3,
                StageView::Writing { .. } => 2,
                StageView::Unlocking { .. } => 1,
            },
            PhaseView::Finished { .. } => 0,
        }
    }

    /// Whether `event` is an answer to the pending action.
    pub open spec fn answered_by(self, event: EventView) -> bool {
        match self.action() {
            ActionView::ListTeams { .. } => event is TeamsListed,
            ActionView::ProbeTeamDir { .. } => event is TeamDirProbed,
            ActionView::ProbeTaskFile { .. } => event is TaskFileProbed,
            ActionView::OpenLock { .. } => event is LockOpened,
            ActionView::Lock => event is Locked,
            ActionView::ReadTask { .. } => event is TaskRead,
            ActionView::WriteTask { .. } => event is TaskWritten,
            ActionView::Unlock => event is Unlocked,
            ActionView::Finish { .. } => false,
        }
    }

    /// The claim after the given events, one after the other.
    pub open spec fn after(self, events: Seq<EventView>) -> RunView
        decreases events.len(),
    {
        if events.len() == 0 {
            self
        } else {
            self.after(events.drop_last()).advanced(events.last())
        }
    }
}

/// An answer to the pending action brings the claim strictly nearer to its
/// end; any other event changes nothing. So a claim is over after at most
/// eight answers, and after at most three once it holds the lock.
pub proof fn lemma_answers_make_progress(run: RunView, event: EventView)
    ensures
        run.answered_by(event) ==> run.advanced(event).steps_left() < run.steps_left(),
        !run.answered_by(event) ==> run.advanced(event) == run,
        run.holds_lock() ==> run.steps_left() <= 3,
        run.steps_left() == 0 <==> run.phase is Finished,
{
}

/// The lock is taken in one way only: the pending action is `Lock` and the
/// system reports that it was taken.
pub proof fn lemma_lock_is_taken_by_locking(run: RunView, event: EventView)
    requires
        !run.holds_lock(),
        run.advanced(event).holds_lock(),
    ensures
        run.action() is Lock,
        event is Locked,
        event->Locked_0 is Ok,
{
}

/// A claim that holds the lock keeps it until its release is answered.
/// Whatever happens under the lock, a failure to read, to parse, to claim
/// or to write, the claim goes on to ask for `Unlock`, and it is over only
/// once that has been answered.
pub proof fn lemma_lock_is_left_by_unlocking(run: RunView, event: EventView)
    requires
        run.holds_lock(),
    ensures
        !(run.action() is Finish),
        !run.advanced(event).holds_lock() ==> run.action() is Unlock && event is Unlocked
            && run.advanced(event).phase is Finished,
        run.advanced(event).holds_lock() || run.advanced(event).phase is Finished,
{
}

/// Once the lock is held, a claim that is over has released it. For a claim
/// that holds the lock and any events after that: if the claim is over at
/// the end, then at some point it asked for `Unlock` and was answered.
pub proof fn lemma_over_means_unlocked(run: RunView, events: Seq<EventView>) -> (at: int)
    requires
        run.holds_lock(),
        run.after(events).phase is Finished,
    ensures
        0 <= at < events.len(),
        run.after(events.take(at)).action() is Unlock,
        events[at] is Unlocked,
    decreases events.len(),
{
    let earlier = events.drop_last();
    let before = run.after(earlier);
    lemma_lock_is_kept(run, earlier);
    if before.phase is Finished {
        let at = lemma_over_means_unlocked(run, earlier);
        assert(events.take(at) =~= earlier.take(at));
        at
    } else {
        lemma_lock_is_left_by_unlocking(before, events.last());
        assert(events.take(events.len() - 1) =~= earlier);
        events.len() - 1
    }
}

/// A claim that holds the lock holds it after any events, unless it is over.
pub proof fn lemma_lock_is_kept(run: RunView, events: Seq<EventView>)
    requires
        run.holds_lock(),
    ensures
        run.after(events).holds_lock() || run.after(events).phase is Finished,
    decreases events.len(),
{
    if events.len() > 0 {
        lemma_lock_is_kept(run, events.drop_last());
        let before = run.after(events.drop_last());
        if before.holds_lock() {
            lemma_lock_is_left_by_unlocking(before, events.last());
        }
    }
}

/// The task file is written only as the result of a successful claim: a
/// claim comes to ask for `WriteTask` only from reading, and then what it
/// asks to write over the task file is the text that the claim made of what
/// was read.
pub proof fn lemma_write_follows_claim(run: RunView, event: EventView)
    requires
        !(run.action() is WriteTask),
        run.advanced(event).action() is WriteTask,
    ensures
        run.action() is ReadTask,
        event is TaskRead,
        event->TaskRead_0 is Some,
        claim_of_text(event->TaskRead_0->0, run.task_id, run.owner) is Ok,
        run.advanced(event).action()->WriteTask_content == claim_of_text(
            event->TaskRead_0->0,
            run.task_id,
            run.owner,
        )->Ok_0.content,
        run.advanced(event).action()->WriteTask_path == run.action()->ReadTask_path,
{
}

/// One more event after a sequence of events.
pub proof fn lemma_after_push(run: RunView, events: Seq<EventView>, event: EventView)
    ensures
        run.after(events.push(event)) == run.after(events).advanced(event),
{
    assert(events.push(event).drop_last() =~= events);
}

/// Events never take a claim back: the operations it can still ask for
/// only become fewer.
pub proof fn lemma_after_never_goes_back(run: RunView, events: Seq<EventView>)
    ensures
        run.after(events).steps_left() <= run.steps_left(),
        run.after(events).task_id == run.task_id,
        run.after(events).owner == run.owner,
        run.after(events).base == run.base,
    decreases events.len(),
{
    if events.len() > 0 {
        lemma_after_never_goes_back(run, events.drop_last());
        lemma_answers_make_progress(run.after(events.drop_last()), events.last());
    }
}

/// A refused or failed claim never writes. Where the text read under the
/// lock makes no successful claim, be it unparsable, owned, in progress,
/// completed or deleted, or where it could not be read at all, the claim
/// never asks for `WriteTask`, whatever events follow: the task file stays
/// byte for byte what it was.
pub proof fn lemma_failed_claim_never_writes(
    run: RunView,
    read: Option<Seq<char>>,
    later: Seq<EventView>,
)
    requires
        run.action() is ReadTask,
        read matches Some(text) ==> claim_of_text(text, run.task_id, run.owner) is Err,
    ensures
        !run.advanced(EventView::TaskRead(read)).after(later).action().mutates(),
        run.advanced(EventView::TaskRead(read)).after(later).steps_left() <= 1,
    decreases later.len(),
{
    let refused = run.advanced(EventView::TaskRead(read));
    if later.len() > 0 {
        lemma_failed_claim_never_writes(run, read, later.drop_last());
        lemma_answers_make_progress(refused.after(later.drop_last()), later.last());
    }
}

/// A claim on a task that has no file ends as not found without having
/// created or changed anything. For every sequence of events from the start
/// of a claim: if the answer at position `at` is that the task file is not
/// there, then the claim is over right after it with a `NotFound` failure
/// that names the task file, and at no point, before or after, does it ask
/// for the lock file to be opened or for the task file to be written.
pub proof fn lemma_missing_file_changes_nothing(
    request: RequestView,
    base: Seq<char>,
    events: Seq<EventView>,
    at: int,
    upto: int,
)
    requires
        0 <= at < events.len(),
        0 <= upto <= events.len(),
        began(request, base).after(events.take(at)).action() is ProbeTaskFile,
        events[at] == EventView::TaskFileProbed(false),
    ensures
        began(request, base).after(events.take(at + 1)).phase matches PhaseView::Finished {
            outcome: Err(FailureView::NotFound(_)),
        },
        began(request, base).after(events.take(at + 1)).phase == (PhaseView::Finished {
            outcome: Err(
                missing_task_file(began(request, base).after(events.take(at)).action()->ProbeTaskFile_path),
            ),
        }),
        !began(request, base).after(events.take(upto)).action().mutates(),
    decreases upto,
{
    let start = began(request, base);
    assert(events.take(at + 1) =~= events.take(at).push(events[at]));
    lemma_after_push(start, events.take(at), events[at]);
    if upto <= at {
        // Up to the probe the claim has not come past it.
        let so_far = events.take(upto);
        let rest = events.subrange(upto, at);
        lemma_after_append(start, so_far, rest);
        assert(so_far + rest =~= events.take(at));
        lemma_after_never_goes_back(start.after(so_far), rest);
        lemma_after_never_goes_back(start, so_far);
    } else if upto == at + 1 {
    } else {
        lemma_missing_file_changes_nothing(request, base, events, at, upto - 1);
        assert(events.take(upto) =~= events.take(upto - 1).push(events[upto - 1]));
        lemma_after_push(start, events.take(upto - 1), events[upto - 1]);
        lemma_finished_stays(start.after(events.take(at + 1)), events.subrange(at + 1, upto - 1));
        lemma_after_append(start, events.take(at + 1), events.subrange(at + 1, upto - 1));
        assert(events.take(at + 1) + events.subrange(at + 1, upto - 1) =~= events.take(upto - 1));
    }
}

/// The events of two sequences, one sequence after the other.
pub proof fn lemma_after_append(run: RunView, first: Seq<EventView>, second: Seq<EventView>)
    ensures
        run.after(first + second) == run.after(first).after(second),
    decreases second.len(),
{
    if second.len() == 0 {
        assert(first + second =~= first);
    } else {
        lemma_after_append(run, first, second.drop_last());
        assert((first + second).drop_last() =~= first + second.drop_last());
    }
}

/// A claim that is over stays as it is, whatever events come.
pub proof fn lemma_finished_stays(run: RunView, events: Seq<EventView>)
    requires
        run.phase is Finished,
    ensures
        run.after(events) == run,
    decreases events.len(),
{
    if events.len() > 0 {
        lemma_finished_stays(run, events.drop_last());
    }
}

} // verus!
