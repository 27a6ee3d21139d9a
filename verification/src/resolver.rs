//! From a team name and a task identifier to the paths of a claim: the base
//! directory, the team in it, the task file and the lock file.
//!
//! Paths are texts with `/` between their parts. The library never touches
//! the file system: what a directory holds comes in as a [`Listing`].

use crate::error::{ClaimError, FailureView};
use crate::record::opt_text;
use crate::text::followed_by;
use vstd::prelude::*;

verus! {

/// One entry met while the base directory is listed.
#[derive(Debug, Clone, PartialEq, Eq)]
pub enum Scanned {
    /// The entry or its kind could not be read; the text says why.
    Unreadable(String),
    /// An entry: its name, unless the name is not valid Unicode, and whether
    /// it is a directory.
    Entry { name: Option<String>, is_dir: bool },
}

/// What listing the base directory gave.
#[derive(Debug, Clone, PartialEq, Eq)]
pub enum Listing {
    /// The directory could not be opened for listing.
    Unreadable,
    /// The entries in the order in which the directory gave them.
    Entries(Vec<Scanned>),
}

/// A directory entry as plain mathematical values.
pub enum ScannedView {
    Unreadable(Seq<char>),
    Entry { name: Option<Seq<char>>, is_dir: bool },
}

/// A directory listing as plain mathematical values.
pub enum ListingView {
    Unreadable,
    Entries(Seq<ScannedView>),
}

impl View for Scanned {
    type V = ScannedView;

    open spec fn view(&self) -> ScannedView {
        match *self {
            Scanned::Unreadable(reason) => ScannedView::Unreadable(reason@),
            Scanned::Entry { name, is_dir } => ScannedView::Entry { name: opt_text(name), is_dir },
        }
    }
}

impl View for Listing {
    type V = ListingView;

    open spec fn view(&self) -> ListingView {
        match *self {
            Listing::Unreadable => ListingView::Unreadable,
            Listing::Entries(entries) => ListingView::Entries(
                entries@.map_values(|e: Scanned| e@),
            ),
        }
    }
}

impl ScannedView {
    /// Whether the entry can serve as a team: a directory with a name.
    pub open spec fn is_team(self) -> bool {
        self matches ScannedView::Entry { name: Some(_), is_dir: true }
    }
}

/// `part` placed under `base`, with one `/` between them unless `base` is
/// empty or ends in `/` already.
pub open spec fn joined(base: Seq<char>, part: Seq<char>) -> Seq<char> {
    if base.len() == 0 {
        part
    } else if base.last() == '/' {
        base + part
    } else {
        base + "/"@ + part
    }
}

/// The base directory for a home directory: the directory `tasks` under it,
/// or under `/tmp` where there is no home directory.
pub open spec fn tasks_dir_under(home: Option<Seq<char>>, tasks: Seq<char>) -> Seq<char> {
    joined(
        match home {
            Some(dir) => dir,
            None => "/tmp"@,
        },
        tasks,
    )
}

/// The directory of a team.
pub open spec fn team_dir_of(base: Seq<char>, team: Seq<char>) -> Seq<char> {
    joined(base, team)
}

/// The file of a task in its team directory: the identifier with `.json`
/// behind it.
pub open spec fn task_path_of(base: Seq<char>, team: Seq<char>, task_id: Seq<char>) -> Seq<char> {
    joined(team_dir_of(base, team), task_id + ".json"@)
}

/// The lock file of a team: `.lock` in its directory.
pub open spec fn lock_path_of(base: Seq<char>, team: Seq<char>) -> Seq<char> {
    joined(team_dir_of(base, team), ".lock"@)
}

/// The failure for a base directory that cannot be listed.
pub open spec fn unreadable_base(base: Seq<char>) -> FailureView {
    FailureView::Resolution("cannot read "@ + base)
}

/// The failure for a base directory without a team in it.
pub open spec fn no_teams(base: Seq<char>) -> FailureView {
    FailureView::Resolution("no team directories found in "@ + base)
}

/// The team that a walk through the entries finds: the first directory with
/// a name. An entry that could not be read ends the walk with its reason if
/// it comes before any team.
pub open spec fn first_team(base: Seq<char>, entries: Seq<ScannedView>) -> Result<
    Seq<char>,
    FailureView,
>
    decreases entries.len(),
{
    if entries.len() == 0 {
        Err(no_teams(base))
    } else {
        match entries[0] {
            ScannedView::Unreadable(reason) => Err(FailureView::Resolution(reason)),
            ScannedView::Entry { name: Some(name), is_dir: true } => Ok(name),
            _ => first_team(base, entries.drop_first()),
        }
    }
}

/// The team of a claim: the one asked for, taken as it is, or else the one
/// that the listing of the base directory gives.
pub open spec fn resolved_team(
    requested: Option<Seq<char>>,
    base: Seq<char>,
    listing: ListingView,
) -> Result<Seq<char>, FailureView> {
    match requested {
        Some(team) => Ok(team),
        None => match listing {
            ListingView::Unreadable => Err(unreadable_base(base)),
            ListingView::Entries(entries) => first_team(base, entries),
        },
    }
}

/// The text of a resolved team, or the failure, as plain values.
pub open spec fn team_view(result: Result<String, ClaimError>) -> Result<Seq<char>, FailureView> {
    match result {
        Ok(team) => Ok(team@),
        Err(e) => Err(e@),
    }
}

/// Asks `dirs::home_dir` for the home directory of the current user and
/// turns the path into text, replacing what is not valid Unicode. The answer
/// depends on the environment, so nothing is claimed of it.
#[verifier::external_body]
fn home_dir() -> Option<String> {
    match dirs::home_dir() {
        Some(path) => Some(path.to_string_lossy().into_owned()),
        None => None,
    }
}

/// Places `part` under `base`.
pub fn join(base: &str, part: &str) -> (r: String)
    ensures
        r@ == joined(base@, part@),
{
    let n: usize = base.unicode_len();
    if n == 0 {
        part.to_owned()
    } else if base.get_char(n - 1) == '/' {
        followed_by(base, part)
    } else {
        let mut out = followed_by(base, "/");
        out.append(part);
        out
    }
}

/// The base directory for the given home directory: `tasks`, a path
/// relative to it, placed under it.
pub fn tasks_dir_from(home: Option<&str>, tasks: &str) -> (r: String)
    ensures
        r@ == tasks_dir_under(
            match home {
                Some(dir) => Some(dir@),
                None => None,
            },
            tasks@,
        ),
{
    match home {
        Some(dir) => join(dir, tasks),
        None => join("/tmp", tasks),
    }
}

/// The base directory of the current user: [`tasks_dir_under`] whatever home
/// directory the system reports.
pub fn tasks_dir(tasks: &str) -> (r: String)
    ensures
        exists|home: Option<Seq<char>>| r@ == #[trigger] tasks_dir_under(home, tasks@),
{
    match home_dir() {
        Some(dir) => {
            let r = tasks_dir_from(Some(dir.as_str()), tasks);
            assert(r@ == tasks_dir_under(Some(dir@), tasks@));
            r
        },
        None => {
            let r = tasks_dir_from(None, tasks);
            assert(r@ == tasks_dir_under(None, tasks@));
            r
        },
    }
}

/// The directory of `team` under `base`.
pub fn team_dir(base: &str, team: &str) -> (r: String)
    ensures
        r@ == team_dir_of(base@, team@),
{
    join(base, team)
}

/// The task file and the lock file of a claim, in this order. Nothing is
/// looked up: the paths are made whether or not anything exists there.
pub fn resolve_paths(base: &str, team: &str, task_id: &str) -> (r: (String, String))
    ensures
        r.0@ == task_path_of(base@, team@, task_id@),
        r.1@ == lock_path_of(base@, team@),
{
    let dir = team_dir(base, team);
    let file = followed_by(task_id, ".json");
    let task_path = join(dir.as_str(), file.as_str());
    let lock_path = join(dir.as_str(), ".lock");
    (task_path, lock_path)
}

/// The team of a claim.
///
/// A team that is asked for is returned as it is, whether or not it exists.
/// Without one, the first directory of the listing is the team; a base
/// directory that cannot be listed or holds no directory is a `Resolution`
/// failure.
pub fn resolve_team(requested: Option<&str>, base: &str, listing: &Listing) -> (r: Result<
    String,
    ClaimError,
>)
    ensures
        team_view(r) == resolved_team(
            match requested {
                Some(team) => Some(team@),
                None => None,
            },
            base@,
            listing@,
        ),
{
    if let Some(team) = requested {
        return Ok(team.to_owned());
    }
    let entries = match listing {
        Listing::Unreadable => {
            return Err(ClaimError::Resolution(followed_by("cannot read ", base)));
        },
        Listing::Entries(entries) => entries,
    };
    let ghost all = entries@.map_values(|e: Scanned| e@);
    assert(all.skip(0) =~= all);
    let mut i: usize = 0;
    while i < entries.len()
        invariant
            i <= entries.len(),
            requested is None,
            listing@ == ListingView::Entries(all),
            all == entries@.map_values(|e: Scanned| e@),
            first_team(base@, all) == first_team(base@, all.skip(i as int)),
        decreases entries.len() - i,
    {
        let ghost rest = all.skip(i as int);
        assert(rest[0] == entries[i as int]@);
        assert(rest.drop_first() =~= all.skip(i + 1));
        match &entries[i] {
            Scanned::Unreadable(reason) => {
                return Err(ClaimError::Resolution(reason.clone()));
            },
            Scanned::Entry { name, is_dir } => {
                if *is_dir {
                    if let Some(found) = name {
                        return Ok(found.clone());
                    }
                }
            },
        }
        i += 1;
    }
    assert(all.skip(i as int).len() == 0);
    Err(ClaimError::Resolution(followed_by("no team directories found in ", base)))
}

/// Where the listing holds exactly one directory, every entry could be read
/// and the directory has a name, that directory is the team of a claim that
/// names none.
pub proof fn lemma_single_team_is_found(base: Seq<char>, entries: Seq<ScannedView>, at: int)
    requires
        0 <= at < entries.len(),
        entries[at].is_team(),
        forall|k: int|
            0 <= k < entries.len() && k != at ==> (#[trigger] entries[k]) matches ScannedView::Entry {
                is_dir: false,
                ..
            },
    ensures
        resolved_team(None, base, ListingView::Entries(entries)) == Ok::<Seq<char>, FailureView>(
            entries[at]->name->0,
        ),
    decreases entries.len(),
{
    if at > 0 {
        let rest = entries.drop_first();
        assert(entries[0] matches ScannedView::Entry { is_dir: false, .. });
        assert forall|k: int| 0 <= k < rest.len() && k != at - 1 implies (#[trigger] rest[k]) matches ScannedView::Entry {
            is_dir: false,
            ..
        } by {
            assert(rest[k] == entries[k + 1]);
        }
        lemma_single_team_is_found(base, rest, at - 1);
    }
}

/// Where the listing holds no directory with a name, whether or not
/// it could be read, a claim that names no team fails with a `Resolution`
/// failure.
pub proof fn lemma_no_team_is_a_resolution_failure(base: Seq<char>, listing: ListingView)
    requires
        listing matches ListingView::Entries(entries) ==> forall|k: int|
            0 <= k < entries.len() ==> !(#[trigger] entries[k]).is_team(),
    ensures
        resolved_team(None, base, listing) is Err,
        resolved_team(None, base, listing)->Err_0 is Resolution,
{
    if let ListingView::Entries(entries) = listing {
        lemma_no_team_in(base, entries);
    }
}

proof fn lemma_no_team_in(base: Seq<char>, entries: Seq<ScannedView>)
    requires
        forall|k: int| 0 <= k < entries.len() ==> !(#[trigger] entries[k]).is_team(),
    ensures
        first_team(base, entries) is Err,
        first_team(base, entries)->Err_0 is Resolution,
    decreases entries.len(),
{
    if entries.len() > 0 {
        let rest = entries.drop_first();
        assert(!entries[0].is_team());
        assert forall|k: int| 0 <= k < rest.len() implies !(#[trigger] rest[k]).is_team() by {
            assert(rest[k] == entries[k + 1]);
        }
        lemma_no_team_in(base, rest);
    }
}

} // verus!
