use safe_task_claim::error::{render, ClaimError};
use safe_task_claim::protocol::{Action, ClaimRequest, ClaimRun, Event, Phase, Stage};
use safe_task_claim::resolver::{Listing, Scanned};

const PENDING: &str = "{\"id\":\"7\",\"subject\":\"Write docs\",\"status\":\"pending\",\"owner\":null}";
const CLAIMED: &str = "{\n  \"id\": \"7\",\n  \"subject\": \"Write docs\",\n  \"description\": \"\",\n  \"activeForm\": \"\",\n  \"status\": \"in_progress\",\n  \"owner\": \"agent-x\",\n  \"blocks\": [],\n  \"blockedBy\": [],\n  \"metadata\": null\n}";

fn request(team: Option<&str>) -> ClaimRequest {
    ClaimRequest {
        task_id: "7".to_string(),
        owner: "agent-x".to_string(),
        team: team.map(|name| name.to_string()),
    }
}

fn begin(team: Option<&str>) -> ClaimRun {
    ClaimRun::begin(request(team), "/base".to_string())
}

fn under_lock() -> ClaimRun {
    begin(Some("alpha"))
        .advance(Event::TeamDirProbed(true))
        .advance(Event::TaskFileProbed(true))
        .advance(Event::LockOpened(true))
        .advance(Event::Locked(Ok(())))
}

fn finished(run: &ClaimRun) -> Result<String, ClaimError> {
    match run.action() {
        Action::Finish { outcome } => {
            assert_eq!(run.outcome(), Some(&outcome));
            outcome
        }
        other => panic!("the claim still asks for {:?}", other),
    }
}

#[test]
fn full_run_with_a_named_team() {
    let run = begin(Some("alpha"));
    assert_eq!(run.action(), Action::ProbeTeamDir { path: "/base/alpha".to_string() });
    assert_eq!(run.outcome(), None);

    let run = run.advance(Event::TeamDirProbed(true));
    assert_eq!(run.action(), Action::ProbeTaskFile { path: "/base/alpha/7.json".to_string() });

    let run = run.advance(Event::TaskFileProbed(true));
    assert_eq!(run.action(), Action::OpenLock { path: "/base/alpha/.lock".to_string() });

    let run = run.advance(Event::LockOpened(true));
    assert_eq!(run.action(), Action::Lock);

    let run = run.advance(Event::Locked(Ok(())));
    assert_eq!(run.action(), Action::ReadTask { path: "/base/alpha/7.json".to_string() });

    let run = run.advance(Event::TaskRead(Some(PENDING.to_string())));
    assert_eq!(
        run.action(),
        Action::WriteTask {
            path: "/base/alpha/7.json".to_string(),
            scratch: "/base/alpha/7.json.tmp".to_string(),
            content: CLAIMED.to_string(),
        }
    );

    let run = run.advance(Event::TaskWritten(true));
    assert_eq!(run.action(), Action::Unlock);
    assert_eq!(run.outcome(), None);

    let run = run.advance(Event::Unlocked(Ok(())));
    let outcome = finished(&run);
    assert_eq!(outcome, Ok("Claimed task 7: Write docs".to_string()));
    assert_eq!(render(&outcome), "Claimed task 7: Write docs");
}

#[test]
fn second_claim_on_the_written_text_is_refused() {
    let run = under_lock().advance(Event::TaskRead(Some(CLAIMED.to_string())));
    assert_eq!(run.action(), Action::Unlock);
    let run = run.advance(Event::Unlocked(Ok(())));
    let outcome = finished(&run);
    assert_eq!(outcome, Err(ClaimError::AlreadyClaimed("agent-x".to_string())));
    assert_eq!(render(&outcome), "Error: already claimed by agent-x");
}

#[test]
fn team_is_discovered_when_none_is_named() {
    let run = begin(None);
    assert_eq!(run.phase, Phase::Resolving);
    assert_eq!(run.action(), Action::ListTeams { dir: "/base".to_string() });
    let listing = Listing::Entries(vec![
        Scanned::Entry { name: Some("README".to_string()), is_dir: false },
        Scanned::Entry { name: Some("alpha".to_string()), is_dir: true },
    ]);
    let run = run.advance(Event::TeamsListed(listing));
    assert_eq!(run.action(), Action::ProbeTeamDir { path: "/base/alpha".to_string() });
}

#[test]
fn no_team_ends_the_claim_as_a_resolution_failure() {
    let run = begin(None).advance(Event::TeamsListed(Listing::Entries(vec![])));
    assert_eq!(
        finished(&run),
        Err(ClaimError::Resolution("no team directories found in /base".to_string()))
    );
    let run = begin(None).advance(Event::TeamsListed(Listing::Unreadable));
    assert_eq!(finished(&run), Err(ClaimError::Resolution("cannot read /base".to_string())));
}

#[test]
fn missing_team_directory_is_not_found() {
    let run = begin(Some("alpha")).advance(Event::TeamDirProbed(false));
    let outcome = finished(&run);
    assert_eq!(
        outcome,
        Err(ClaimError::NotFound("team directory not found: /base/alpha".to_string()))
    );
    assert_eq!(render(&outcome), "Error: team directory not found: /base/alpha");
}

#[test]
fn missing_task_file_is_not_found_and_nothing_was_touched() {
    let mut run = begin(None);
    let mut asked = vec![run.action()];
    let events = vec![
        Event::TeamsListed(Listing::Entries(vec![Scanned::Entry {
            name: Some("alpha".to_string()),
            is_dir: true,
        }])),
        Event::TeamDirProbed(true),
        Event::TaskFileProbed(false),
        Event::LockOpened(true),
        Event::TaskWritten(true),
    ];
    for event in events {
        run = run.advance(event);
        asked.push(run.action());
    }
    assert_eq!(
        finished(&run),
        Err(ClaimError::NotFound("task file not found: /base/alpha/7.json".to_string()))
    );
    for action in asked {
        assert!(!matches!(action, Action::OpenLock { .. } | Action::WriteTask { .. }));
    }
}

#[test]
fn lock_file_that_cannot_be_opened_is_an_io_failure() {
    let run = begin(Some("alpha"))
        .advance(Event::TeamDirProbed(true))
        .advance(Event::TaskFileProbed(true))
        .advance(Event::LockOpened(false));
    assert_eq!(
        finished(&run),
        Err(ClaimError::Io("cannot open lock: /base/alpha/.lock".to_string()))
    );
}

#[test]
fn refused_lock_is_an_io_failure() {
    let run = begin(Some("alpha"))
        .advance(Event::TeamDirProbed(true))
        .advance(Event::TaskFileProbed(true))
        .advance(Event::LockOpened(true))
        .advance(Event::Locked(Err("Bad file descriptor (os error 9)".to_string())));
    assert_eq!(
        finished(&run),
        Err(ClaimError::Io("flock failed: Bad file descriptor (os error 9)".to_string()))
    );
}

#[test]
fn every_failure_under_the_lock_releases_it() {
    let denied = "{\"id\":\"7\",\"subject\":\"s\",\"status\":\"completed\"}";
    let cases: Vec<(Option<String>, ClaimError)> = vec![
        (None, ClaimError::Io("cannot read task 7".to_string())),
        (Some("not json".to_string()), ClaimError::Parse("invalid JSON in task 7".to_string())),
        (Some("{\"id\":\"7\"}".to_string()), ClaimError::Parse("invalid JSON in task 7".to_string())),
        (Some(denied.to_string()), ClaimError::AlreadyCompleted),
    ];
    for (read, expected) in cases {
        let run = under_lock().advance(Event::TaskRead(read));
        assert_eq!(run.action(), Action::Unlock);
        assert_eq!(run.outcome(), None);
        let run = run.advance(Event::Unlocked(Ok(())));
        assert_eq!(finished(&run), Err(expected));
    }
}

#[test]
fn failed_write_releases_the_lock_and_reports() {
    let run = under_lock().advance(Event::TaskRead(Some(PENDING.to_string())));
    let run = run.advance(Event::TaskWritten(false));
    assert_eq!(run.action(), Action::Unlock);
    let run = run.advance(Event::Unlocked(Ok(())));
    assert_eq!(finished(&run), Err(ClaimError::Io("cannot write task 7".to_string())));
}

#[test]
fn failed_unlock_replaces_the_outcome() {
    let run = under_lock()
        .advance(Event::TaskRead(Some(PENDING.to_string())))
        .advance(Event::TaskWritten(true))
        .advance(Event::Unlocked(Err("Input/output error (os error 5)".to_string())));
    assert_eq!(
        finished(&run),
        Err(ClaimError::Io("flock failed: Input/output error (os error 5)".to_string()))
    );
}

#[test]
fn events_that_do_not_answer_are_ignored() {
    let run = begin(Some("alpha"));
    let run = run.advance(Event::TaskWritten(true));
    let run = run.advance(Event::Unlocked(Ok(())));
    let run = run.advance(Event::TaskFileProbed(false));
    assert_eq!(run, begin(Some("alpha")));

    let held = under_lock();
    let held = held.advance(Event::Unlocked(Ok(())));
    let held = held.advance(Event::TeamDirProbed(false));
    assert_eq!(held.phase, Phase::Located { team: "alpha".to_string(), stage: Stage::Reading });

    let over = begin(Some("alpha")).advance(Event::TeamDirProbed(false));
    let outcome = finished(&over);
    let over = over.advance(Event::TeamDirProbed(true)).advance(Event::Locked(Ok(())));
    assert_eq!(finished(&over), outcome);
}

#[test]
fn a_claim_is_over_within_eight_answers() {
    let mut run = begin(None);
    let mut answers = 0;
    loop {
        let event = match run.action() {
            Action::ListTeams { .. } => Event::TeamsListed(Listing::Entries(vec![Scanned::Entry {
                name: Some("alpha".to_string()),
                is_dir: true,
            }])),
            Action::ProbeTeamDir { .. } => Event::TeamDirProbed(true),
            Action::ProbeTaskFile { .. } => Event::TaskFileProbed(true),
            Action::OpenLock { .. } => Event::LockOpened(true),
            Action::Lock => Event::Locked(Ok(())),
            Action::ReadTask { .. } => Event::TaskRead(Some(PENDING.to_string())),
            Action::WriteTask { .. } => Event::TaskWritten(true),
            Action::Unlock => Event::Unlocked(Ok(())),
            Action::Finish { .. } => break,
        };
        run = run.advance(event);
        answers += 1;
        assert!(answers <= 8);
    }
    assert_eq!(answers, 8);
    assert_eq!(finished(&run), Ok("Claimed task 7: Write docs".to_string()));
}

struct Contender {
    run: ClaimRun,
    has_lock: bool,
}

/// Lets the owners contend for the pending task. In every round the
/// contenders take one step each, in the order given; one that asks for the
/// lock while another holds it waits for its next turn. Gives the outcomes
/// and the text of the task file in the end.
fn contend(owners: &[&str], order: &[usize]) -> (Vec<Result<String, ClaimError>>, String) {
    let mut file = PENDING.to_string();
    let mut locked = false;
    let mut writes = 0;
    let mut contenders: Vec<Contender> = owners
        .iter()
        .map(|owner| Contender {
            run: ClaimRun::begin(
                ClaimRequest {
                    task_id: "7".to_string(),
                    owner: owner.to_string(),
                    team: Some("alpha".to_string()),
                },
                "/base".to_string(),
            ),
            has_lock: false,
        })
        .collect();

    let mut rounds = 0;
    while contenders.iter().any(|c| c.run.outcome().is_none()) {
        rounds += 1;
        assert!(rounds < 1000);
        for who in order {
            let contender = &mut contenders[*who];
            let event = match contender.run.action() {
                Action::ListTeams { .. } => unreachable!(),
                Action::ProbeTeamDir { .. } => Event::TeamDirProbed(true),
                Action::ProbeTaskFile { .. } => Event::TaskFileProbed(true),
                Action::OpenLock { .. } => Event::LockOpened(true),
                Action::Lock => {
                    if locked {
                        continue;
                    }
                    locked = true;
                    contender.has_lock = true;
                    Event::Locked(Ok(()))
                }
                Action::ReadTask { .. } => {
                    assert!(contender.has_lock);
                    Event::TaskRead(Some(file.clone()))
                }
                Action::WriteTask { content, .. } => {
                    assert!(contender.has_lock);
                    file = content;
                    writes += 1;
                    Event::TaskWritten(true)
                }
                Action::Unlock => {
                    assert!(contender.has_lock);
                    contender.has_lock = false;
                    locked = false;
                    Event::Unlocked(Ok(()))
                }
                Action::Finish { .. } => {
                    assert!(!contender.has_lock);
                    continue;
                }
            };
            let run = std::mem::replace(
                &mut contender.run,
                ClaimRun::begin(request(None), String::new()),
            );
            contender.run = run.advance(event);
        }
    }

    assert!(!locked);
    assert_eq!(writes, 1);
    (contenders.iter().map(|c| finished(&c.run)).collect(), file)
}

fn assert_single_winner(owners: &[&str], outcomes: &[Result<String, ClaimError>], file: &str) {
    let winners: Vec<usize> = (0..owners.len()).filter(|i| outcomes[*i].is_ok()).collect();
    assert_eq!(winners.len(), 1);
    let winner = owners[winners[0]];
    for (i, outcome) in outcomes.iter().enumerate() {
        if i == winners[0] {
            assert_eq!(outcome, &Ok("Claimed task 7: Write docs".to_string()));
        } else {
            assert_eq!(outcome, &Err(ClaimError::AlreadyClaimed(winner.to_string())));
        }
    }
    let stored = safe_task_claim::codec::decode(file).unwrap();
    assert_eq!(stored.owner.as_deref(), Some(winner));
    assert_eq!(stored.status, "in_progress");
}

#[test]
fn single_claimant_under_contention() {
    let owners = ["agent-a", "agent-b", "agent-c", "agent-d", "agent-e"];
    let orders: [&[usize]; 4] =
        [&[0, 1, 2, 3, 4], &[4, 3, 2, 1, 0], &[2, 2, 2, 0, 4, 1, 3], &[3, 0, 3, 1, 3, 2, 3, 4]];
    for order in orders {
        let (outcomes, file) = contend(&owners, order);
        assert_single_winner(&owners, &outcomes, &file);
    }
}

#[test]
fn later_claimants_of_a_nameless_winner_find_the_task_in_progress() {
    let owners = ["", "agent-b", "agent-c"];
    let (outcomes, file) = contend(&owners, &[0, 1, 2]);
    assert_eq!(outcomes[0], Ok("Claimed task 7: Write docs".to_string()));
    assert_eq!(outcomes[1], Err(ClaimError::AlreadyInProgress));
    assert_eq!(outcomes[2], Err(ClaimError::AlreadyInProgress));
    assert_eq!(safe_task_claim::codec::decode(&file).unwrap().owner.as_deref(), Some(""));
}

#[test]
fn a_single_contender_wins() {
    let (outcomes, file) = contend(&["agent-a"], &[0]);
    assert_single_winner(&["agent-a"], &outcomes, &file);
}
