use safe_task_claim::error::{render, ClaimError};
use safe_task_claim::text::{followed_by, same_text};

#[test]
fn every_failure_has_its_sentence() {
    assert_eq!(ClaimError::Resolution("cannot read /base".to_string()).message(), "cannot read /base");
    assert_eq!(
        ClaimError::NotFound("task file not found: /base/a/1.json".to_string()).message(),
        "task file not found: /base/a/1.json"
    );
    assert_eq!(ClaimError::Parse("invalid JSON in task 1".to_string()).message(), "invalid JSON in task 1");
    assert_eq!(ClaimError::AlreadyClaimed("agent-b".to_string()).message(), "already claimed by agent-b");
    assert_eq!(ClaimError::AlreadyInProgress.message(), "task is already in_progress");
    assert_eq!(ClaimError::AlreadyCompleted.message(), "task is already completed");
    assert_eq!(ClaimError::Deleted.message(), "task is deleted");
    assert_eq!(ClaimError::Io("flock failed: EBADF".to_string()).message(), "flock failed: EBADF");
}

#[test]
fn render_passes_success_and_prefixes_failure() {
    assert_eq!(render(&Ok("Claimed task 7: Write docs".to_string())), "Claimed task 7: Write docs");
    assert_eq!(render(&Err(ClaimError::Deleted)), "Error: task is deleted");
    assert_eq!(
        render(&Err(ClaimError::AlreadyClaimed("agent-x".to_string()))),
        "Error: already claimed by agent-x"
    );
}

#[test]
fn duplicate_is_equal() {
    let failures = [
        ClaimError::Resolution("r".to_string()),
        ClaimError::NotFound("n".to_string()),
        ClaimError::Parse("p".to_string()),
        ClaimError::AlreadyClaimed("o".to_string()),
        ClaimError::AlreadyInProgress,
        ClaimError::AlreadyCompleted,
        ClaimError::Deleted,
        ClaimError::Io("i".to_string()),
    ];
    for failure in failures {
        assert_eq!(failure.duplicate(), failure);
    }
}

#[test]
fn same_text_compares_whole_strings() {
    assert!(same_text("", ""));
    assert!(same_text("in_progress", "in_progress"));
    assert!(!same_text("in_progress", "in_progres"));
    assert!(!same_text("in_progress", "in-progress"));
    assert!(!same_text("deleted", "pending"));
    assert!(same_text("gr\u{fc}n", "gr\u{fc}n"));
    assert!(!same_text("gr\u{fc}n", "grun"));
}

#[test]
fn followed_by_appends() {
    assert_eq!(followed_by("Error: ", "task is deleted"), "Error: task is deleted");
    assert_eq!(followed_by("", ""), "");
    assert_eq!(followed_by("", "b"), "b");
    assert_eq!(followed_by("a", ""), "a");
}
