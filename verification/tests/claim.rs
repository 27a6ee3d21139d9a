use safe_task_claim::claim::{check_claimable, claim_record, claim_under_lock, claim_value};
use safe_task_claim::codec::decode;
use safe_task_claim::error::{render, ClaimError};
use safe_task_claim::record::TaskRecord;
use serde_json::Value;

fn setup_team(task_id: &str, status: &str, owner: Option<&str>) -> String {
    let mut task = serde_json::Map::new();
    task.insert("id".to_string(), Value::from(task_id));
    task.insert("subject".to_string(), Value::from("Test task"));
    task.insert("description".to_string(), Value::from("A test"));
    task.insert("activeForm".to_string(), Value::from("Testing"));
    task.insert("status".to_string(), Value::from(status));
    task.insert(
        "owner".to_string(),
        match owner {
            Some(name) => Value::from(name),
            None => Value::Null,
        },
    );
    task.insert("blocks".to_string(), Value::Array(vec![]));
    task.insert("blockedBy".to_string(), Value::Array(vec![]));
    task.insert("metadata".to_string(), Value::Null);
    serde_json::to_string_pretty(&Value::Object(task)).unwrap()
}

fn record(status: &str, owner: Option<&str>) -> TaskRecord {
    TaskRecord {
        id: "9".to_string(),
        subject: "Test task".to_string(),
        description: "A test".to_string(),
        active_form: "Testing".to_string(),
        status: status.to_string(),
        owner: owner.map(|name| name.to_string()),
        blocks: vec!["10".to_string(), "11".to_string()],
        blocked_by: vec!["3".to_string()],
        metadata: Some(Value::from(vec![Value::from(1), Value::from("two")])),
    }
}

#[test]
fn claim_pending_succeeds() {
    let content = setup_team("1", "pending", None);

    let result = claim_under_lock(&content, "1", "agent-a");
    assert!(result.is_ok());
    let claimed = result.unwrap();
    assert!(claimed.message.contains("Claimed task 1"));

    let task: Value = serde_json::from_str(&claimed.content).unwrap();
    assert_eq!(task["owner"].as_str(), Some("agent-a"));
    assert_eq!(task["status"], "in_progress");
}

#[test]
fn claim_already_owned_rejects() {
    let content = setup_team("2", "pending", Some("agent-b"));

    let result = claim_under_lock(&content, "2", "agent-a");
    assert!(result.is_err());
    assert!(result.unwrap_err().message().contains("already claimed by agent-b"));
}

#[test]
fn claim_in_progress_rejects() {
    let content = setup_team("3", "in_progress", None);

    let result = claim_under_lock(&content, "3", "agent-a");
    assert!(result.is_err());
    assert!(result.unwrap_err().message().contains("already in_progress"));
}

#[test]
fn claim_completed_rejects() {
    let content = setup_team("4", "completed", None);

    let result = claim_under_lock(&content, "4", "agent-a");
    assert!(result.is_err());
    assert!(result.unwrap_err().message().contains("already completed"));
}

#[test]
fn claim_deleted_rejects() {
    let content = setup_team("5", "deleted", None);

    let result = claim_under_lock(&content, "5", "agent-a");
    assert_eq!(result, Err(ClaimError::Deleted));
    assert_eq!(ClaimError::Deleted.message(), "task is deleted");
}

#[test]
fn claim_message_names_task_and_subject() {
    let content = setup_team("1", "pending", None);
    let claimed = claim_under_lock(&content, "1", "agent-a").unwrap();
    assert_eq!(claimed.message, "Claimed task 1: Test task");
}

#[test]
fn claim_message_uses_the_identifier_asked_for() {
    let content = setup_team("1", "pending", None);
    let claimed = claim_under_lock(&content, "one", "agent-a").unwrap();
    assert_eq!(claimed.message, "Claimed task one: Test task");
    let task = decode(&claimed.content).unwrap();
    assert_eq!(task.id, "1");
}

#[test]
fn claim_then_second_claimant_is_refused() {
    let stored = "{\"id\":\"7\",\"subject\":\"Write docs\",\"status\":\"pending\",\"owner\":null}";

    let first = claim_under_lock(stored, "7", "agent-x").unwrap();
    assert_eq!(first.message, "Claimed task 7: Write docs");
    let after = decode(&first.content).unwrap();
    assert_eq!(after.status, "in_progress");
    assert_eq!(after.owner.as_deref(), Some("agent-x"));

    let second = claim_under_lock(&first.content, "7", "agent-y");
    let line = render(&second.map(|claimed| claimed.message));
    assert!(line.contains("already claimed by agent-x"));
    assert_eq!(line, "Error: already claimed by agent-x");
}

#[test]
fn claimed_text_is_the_whole_record_in_order() {
    let stored = "{\"status\":\"pending\",\"subject\":\"Write docs\",\"id\":\"7\"}";
    let claimed = claim_under_lock(stored, "7", "agent-x").unwrap();
    let expected = "{\n  \"id\": \"7\",\n  \"subject\": \"Write docs\",\n  \"description\": \"\",\n  \"activeForm\": \"\",\n  \"status\": \"in_progress\",\n  \"owner\": \"agent-x\",\n  \"blocks\": [],\n  \"blockedBy\": [],\n  \"metadata\": null\n}";
    assert_eq!(claimed.content, expected);
}

#[test]
fn owner_wins_over_status() {
    let content = setup_team("6", "completed", Some("agent-b"));
    let result = claim_under_lock(&content, "6", "agent-a");
    assert_eq!(result, Err(ClaimError::AlreadyClaimed("agent-b".to_string())));
}

#[test]
fn empty_owner_counts_as_unclaimed() {
    let content = setup_team("6", "pending", Some(""));
    let claimed = claim_under_lock(&content, "6", "agent-a").unwrap();
    let task = decode(&claimed.content).unwrap();
    assert_eq!(task.owner.as_deref(), Some("agent-a"));
    assert_eq!(task.status, "in_progress");
}

#[test]
fn empty_owner_on_closed_task_is_refused_by_status() {
    let content = setup_team("6", "in_progress", Some(""));
    let result = claim_under_lock(&content, "6", "agent-a");
    assert_eq!(result, Err(ClaimError::AlreadyInProgress));
}

#[test]
fn unrecognised_status_is_claimable() {
    for status in ["pending", "blocked", "", "IN_PROGRESS", "in-progress", "done"] {
        let content = setup_team("8", status, None);
        let claimed = claim_under_lock(&content, "8", "agent-a").unwrap();
        let task = decode(&claimed.content).unwrap();
        assert_eq!(task.status, "in_progress");
        assert_eq!(task.owner.as_deref(), Some("agent-a"));
    }
}

#[test]
fn closed_statuses_are_refused_and_leave_the_record() {
    let cases = [
        ("in_progress", ClaimError::AlreadyInProgress),
        ("completed", ClaimError::AlreadyCompleted),
        ("deleted", ClaimError::Deleted),
    ];
    for (status, expected) in cases {
        let mut task = record(status, None);
        let before = task.clone();
        assert_eq!(claim_record(&mut task, "agent-a"), Err(expected.clone()));
        assert_eq!(task, before);
        assert_eq!(check_claimable(&task), Err(expected));
    }
}

#[test]
fn denial_is_idempotent() {
    let mut task = record("in_progress", None);
    let before = task.clone();
    for _ in 0..3 {
        assert_eq!(claim_record(&mut task, "agent-a"), Err(ClaimError::AlreadyInProgress));
        assert_eq!(task, before);
    }
}

#[test]
fn claim_changes_owner_and_status_only() {
    let mut task = record("pending", None);
    let before = task.clone();
    assert_eq!(check_claimable(&task), Ok(()));
    assert_eq!(claim_record(&mut task, "agent-a"), Ok(()));
    assert_eq!(task.owner.as_deref(), Some("agent-a"));
    assert_eq!(task.status, "in_progress");
    assert_eq!(task.id, before.id);
    assert_eq!(task.subject, before.subject);
    assert_eq!(task.description, before.description);
    assert_eq!(task.active_form, before.active_form);
    assert_eq!(task.blocks, before.blocks);
    assert_eq!(task.blocked_by, before.blocked_by);
    assert_eq!(task.metadata, before.metadata);
}

#[test]
fn claim_through_text_keeps_blocks_and_metadata() {
    let stored = "{\"id\":\"12\",\"subject\":\"Ship\",\"status\":\"pending\",\"blocks\":[\"13\",\"14\"],\"blockedBy\":[\"2\"],\"metadata\":{\"zeta\":[1,2.5,null,true],\"alpha\":{\"nested\":\"yes\"},\"n\":-7}}";
    let before = decode(stored).unwrap();
    let claimed = claim_under_lock(stored, "12", "agent-a").unwrap();
    let after = decode(&claimed.content).unwrap();
    assert_eq!(after.blocks, vec!["13".to_string(), "14".to_string()]);
    assert_eq!(after.blocked_by, vec!["2".to_string()]);
    assert_eq!(after.metadata, before.metadata);
    assert!(after.metadata.is_some());
    assert_eq!(after.id, before.id);
    assert_eq!(after.subject, before.subject);
    let zeta = claimed.content.find("\"zeta\"").unwrap();
    let alpha = claimed.content.find("\"alpha\"").unwrap();
    assert!(zeta < alpha);
}

#[test]
fn single_claimant_among_many() {
    let owners = ["agent-a", "agent-b", "agent-c", "agent-d"];
    let mut task = record("pending", None);
    let mut winners = Vec::new();
    for owner in owners {
        match claim_record(&mut task, owner) {
            Ok(()) => winners.push(owner),
            Err(e) => assert_eq!(e, ClaimError::AlreadyClaimed("agent-a".to_string())),
        }
    }
    assert_eq!(winners, vec!["agent-a"]);
    assert_eq!(task.owner.as_deref(), Some("agent-a"));
}

#[test]
fn single_claimant_through_text() {
    let mut content = setup_team("1", "pending", None);
    let mut successes = 0;
    for owner in ["agent-a", "agent-b", "agent-c"] {
        match claim_under_lock(&content, "1", owner) {
            Ok(claimed) => {
                successes += 1;
                content = claimed.content;
            }
            Err(e) => assert_eq!(e, ClaimError::AlreadyClaimed("agent-a".to_string())),
        }
    }
    assert_eq!(successes, 1);
    assert_eq!(decode(&content).unwrap().owner.as_deref(), Some("agent-a"));
}

#[test]
fn winner_with_empty_name_closes_the_task_by_status() {
    let mut task = record("pending", None);
    assert_eq!(claim_record(&mut task, ""), Ok(()));
    assert_eq!(claim_record(&mut task, "agent-b"), Err(ClaimError::AlreadyInProgress));
    assert_eq!(task.owner.as_deref(), Some(""));
}

#[test]
fn malformed_text_is_a_parse_failure() {
    let result = claim_under_lock("{ not json", "1", "agent-a");
    assert_eq!(result, Err(ClaimError::Parse("invalid JSON in task 1".to_string())));
    let line = render(&result.map(|claimed| claimed.message));
    assert_eq!(line, "Error: invalid JSON in task 1");
}

#[test]
fn record_without_status_is_a_parse_failure() {
    let result = claim_under_lock("{\"id\":\"1\",\"subject\":\"s\"}", "1", "agent-a");
    assert_eq!(result, Err(ClaimError::Parse("invalid JSON in task 1".to_string())));
}

#[test]
fn claim_value_takes_a_parsed_document() {
    let document: Value = serde_json::from_str(&setup_team("1", "pending", None)).unwrap();
    let claimed = claim_value(&document, "1", "agent-a").unwrap();
    assert_eq!(claimed.message, "Claimed task 1: Test task");
    assert_eq!(
        claim_value(&Value::from(3), "1", "agent-a"),
        Err(ClaimError::Parse("invalid JSON in task 1".to_string()))
    );
}
