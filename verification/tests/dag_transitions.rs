//! Status changes and what follows from them.

use ralph::dag::model::{Db, Task};
use ralph::dag::transitions::is_valid_transition;

const NOW: &str = "2024-02-02T00:00:00Z";

fn task(id: &str, title: &str, parent_id: Option<&str>) -> Task {
    Task {
        id: id.to_string(),
        title: title.to_string(),
        description: String::new(),
        status: "pending".to_string(),
        parent_id: parent_id.map(String::from),
        feature_id: None,
        task_type: "feature".to_string(),
        priority: 0,
        retry_count: 0,
        max_retries: 3,
        verification_status: None,
        created_at: "2024-01-01T00:00:00Z".to_string(),
        updated_at: "2024-01-01T00:00:00Z".to_string(),
        claimed_by: None,
    }
}

fn create_task(db: &mut Db, id: &str, title: &str, parent_id: Option<&str>) {
    db.tasks.push(task(id, title, parent_id));
}

fn put_status(db: &mut Db, id: &str, status: &str) {
    let i = db.tasks.iter().position(|t| t.id == id).unwrap();
    db.tasks[i].status = status.to_string();
}

fn stored_status(db: &Db, id: &str) -> String {
    db.get_task(id).unwrap().status
}

fn set_task_status(db: &mut Db, id: &str, status: &str) -> Result<(), String> {
    db.set_task_status(id, status, NOW).map_err(|e| e.message())
}

fn add_dependency(db: &mut Db, blocker: &str, blocked: &str) -> Result<(), String> {
    db.add_dependency(blocker, blocked).map_err(|e| e.message())
}

#[test]
fn test_pending_to_in_progress() -> Result<(), String> {
    let mut db = Db::new();

    create_task(&mut db, "t-task", "Task", None);
    set_task_status(&mut db, "t-task", "in_progress")?;

    let status = stored_status(&db, "t-task");
    assert_eq!(status, "in_progress");

    Ok(())
}

#[test]
fn test_pending_to_blocked() -> Result<(), String> {
    let mut db = Db::new();

    create_task(&mut db, "t-task", "Task", None);
    set_task_status(&mut db, "t-task", "blocked")?;

    let status = stored_status(&db, "t-task");
    assert_eq!(status, "blocked");

    Ok(())
}

#[test]
fn test_in_progress_to_done() -> Result<(), String> {
    let mut db = Db::new();

    create_task(&mut db, "t-task", "Task", None);
    put_status(&mut db, "t-task", "in_progress");
    set_task_status(&mut db, "t-task", "done")?;

    let status = stored_status(&db, "t-task");
    assert_eq!(status, "done");

    Ok(())
}

#[test]
fn test_in_progress_to_failed() -> Result<(), String> {
    let mut db = Db::new();

    create_task(&mut db, "t-task", "Task", None);
    put_status(&mut db, "t-task", "in_progress");
    set_task_status(&mut db, "t-task", "failed")?;

    let status = stored_status(&db, "t-task");
    assert_eq!(status, "failed");

    Ok(())
}

#[test]
fn test_in_progress_to_pending() -> Result<(), String> {
    let mut db = Db::new();

    create_task(&mut db, "t-task", "Task", None);
    put_status(&mut db, "t-task", "in_progress");
    set_task_status(&mut db, "t-task", "pending")?;

    let status = stored_status(&db, "t-task");
    assert_eq!(status, "pending");

    Ok(())
}

#[test]
fn test_blocked_to_pending() -> Result<(), String> {
    let mut db = Db::new();

    create_task(&mut db, "t-task", "Task", None);
    put_status(&mut db, "t-task", "blocked");
    set_task_status(&mut db, "t-task", "pending")?;

    let status = stored_status(&db, "t-task");
    assert_eq!(status, "pending");

    Ok(())
}

#[test]
fn test_failed_to_pending() -> Result<(), String> {
    let mut db = Db::new();

    create_task(&mut db, "t-task", "Task", None);
    put_status(&mut db, "t-task", "failed");
    set_task_status(&mut db, "t-task", "pending")?;

    let status = stored_status(&db, "t-task");
    assert_eq!(status, "pending");

    Ok(())
}

#[test]
fn test_done_to_in_progress_fails() {
    let mut db = Db::new();

    create_task(&mut db, "t-task", "Task", None);
    put_status(&mut db, "t-task", "done");

    let result = set_task_status(&mut db, "t-task", "in_progress");
    assert!(result.is_err());
    assert!(result
        .unwrap_err()
        .to_string()
        .contains("Invalid status transition"));
}

#[test]
fn test_done_to_pending_fails() {
    let mut db = Db::new();

    create_task(&mut db, "t-task", "Task", None);
    put_status(&mut db, "t-task", "done");

    let result = set_task_status(&mut db, "t-task", "pending");
    assert!(result.is_err());
}

#[test]
fn test_auto_unblock_when_blocker_completes() -> Result<(), String> {
    let mut db = Db::new();

    create_task(&mut db, "t-blocker", "Blocker", None);
    create_task(&mut db, "t-blocked", "Blocked", None);
    add_dependency(&mut db, "t-blocker", "t-blocked")?;

    // Set blocked task to blocked status
    put_status(&mut db, "t-blocked", "blocked");

    // Set blocker to in_progress
    put_status(&mut db, "t-blocker", "in_progress");

    // Complete the blocker
    set_task_status(&mut db, "t-blocker", "done")?;

    // Check that blocked task is now pending
    let status = stored_status(&db, "t-blocked");
    assert_eq!(status, "pending");

    Ok(())
}

#[test]
fn test_auto_complete_parent_when_all_children_done() -> Result<(), String> {
    let mut db = Db::new();

    create_task(&mut db, "t-parent", "Parent", None);
    create_task(&mut db, "t-child1", "Child 1", Some("t-parent"));
    create_task(&mut db, "t-child2", "Child 2", Some("t-parent"));

    // Set children to in_progress
    put_status(&mut db, "t-child1", "in_progress");
    put_status(&mut db, "t-child2", "in_progress");

    // Complete first child - parent should not be done yet
    set_task_status(&mut db, "t-child1", "done")?;
    let parent_status = stored_status(&db, "t-parent");
    assert_eq!(parent_status, "pending");

    // Complete second child - parent should now be done
    set_task_status(&mut db, "t-child2", "done")?;
    let parent_status = stored_status(&db, "t-parent");
    assert_eq!(parent_status, "done");

    Ok(())
}

#[test]
fn test_auto_fail_parent_when_child_fails() -> Result<(), String> {
    let mut db = Db::new();

    create_task(&mut db, "t-parent", "Parent", None);
    create_task(&mut db, "t-child", "Child", Some("t-parent"));

    // Set child to in_progress
    put_status(&mut db, "t-child", "in_progress");

    // Fail the child
    set_task_status(&mut db, "t-child", "failed")?;

    // Parent should be failed
    let parent_status = stored_status(&db, "t-parent");
    assert_eq!(parent_status, "failed");

    Ok(())
}

#[test]
fn nothing_leads_away_from_done() {
    for to in ["pending", "in_progress", "blocked", "failed", "done"] {
        assert!(!is_valid_transition("done", to));
    }
    assert!(is_valid_transition("in_progress", "done"));
    assert!(!is_valid_transition("pending", "done"));
}

#[test]
fn a_blocked_task_waits_for_its_last_blocker() {
    let mut db = Db::new();
    create_task(&mut db, "t-1", "One", None);
    create_task(&mut db, "t-2", "Two", None);
    create_task(&mut db, "t-3", "Three", None);
    add_dependency(&mut db, "t-1", "t-3").unwrap();
    add_dependency(&mut db, "t-2", "t-3").unwrap();
    put_status(&mut db, "t-3", "blocked");
    put_status(&mut db, "t-1", "in_progress");
    put_status(&mut db, "t-2", "in_progress");
    set_task_status(&mut db, "t-1", "done").unwrap();
    assert_eq!(stored_status(&db, "t-3"), "blocked");
    set_task_status(&mut db, "t-2", "done").unwrap();
    assert_eq!(stored_status(&db, "t-3"), "pending");
    assert_eq!(db.get_task("t-3").unwrap().updated_at, NOW);
}

#[test]
fn a_failure_fails_every_ancestor() {
    let mut db = Db::new();
    create_task(&mut db, "t-top", "Top", None);
    create_task(&mut db, "t-mid", "Mid", Some("t-top"));
    create_task(&mut db, "t-leaf", "Leaf", Some("t-mid"));
    create_task(&mut db, "t-other", "Other", Some("t-top"));
    put_status(&mut db, "t-leaf", "in_progress");
    set_task_status(&mut db, "t-leaf", "failed").unwrap();
    assert_eq!(stored_status(&db, "t-mid"), "failed");
    assert_eq!(stored_status(&db, "t-top"), "failed");
    assert_eq!(stored_status(&db, "t-other"), "pending");
}

#[test]
fn a_completion_is_passed_up_level_by_level() {
    let mut db = Db::new();
    create_task(&mut db, "t-top", "Top", None);
    create_task(&mut db, "t-mid", "Mid", Some("t-top"));
    create_task(&mut db, "t-leaf", "Leaf", Some("t-mid"));
    put_status(&mut db, "t-leaf", "in_progress");
    set_task_status(&mut db, "t-leaf", "done").unwrap();
    assert_eq!(stored_status(&db, "t-mid"), "done");
    assert_eq!(stored_status(&db, "t-top"), "done");
}

#[test]
fn statuses_can_be_forced() {
    let mut db = Db::new();
    create_task(&mut db, "t-task", "Task", None);
    assert!(set_task_status(&mut db, "t-task", "done").is_err());
    db.force_complete_task("t-task", NOW).unwrap();
    assert_eq!(stored_status(&db, "t-task"), "done");
    db.force_reset_task("t-task", NOW).unwrap();
    assert_eq!(stored_status(&db, "t-task"), "pending");
    db.force_fail_task("t-task", NOW).unwrap();
    assert_eq!(stored_status(&db, "t-task"), "failed");
    assert!(db.force_fail_task("t-none", NOW).is_err());
}
