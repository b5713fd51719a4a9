//! What the run loop reads from the task database.

use ralph::dag::model::{Db, Dependency, Task};

fn insert(db: &mut Db, id: &str, title: &str, description: &str, status: &str, at: &str) {
    db.tasks.push(Task {
        id: id.to_string(),
        title: title.to_string(),
        description: description.to_string(),
        status: status.to_string(),
        parent_id: None,
        feature_id: None,
        task_type: "feature".to_string(),
        priority: 0,
        retry_count: 0,
        max_retries: 3,
        verification_status: None,
        created_at: at.to_string(),
        updated_at: at.to_string(),
        claimed_by: None,
    });
}

fn block(db: &mut Db, blocker: &str, blocked: &str) {
    db.deps.push(Dependency {
        blocker: blocker.to_string(),
        blocked: blocked.to_string(),
    });
}

const NOW: &str = "2024-01-02T00:00:00Z";

#[test]
fn empty_dag_returns_noplan() {
    let db = Db::new();

    // Verify DAG is empty
    let counts = db.get_task_counts();
    assert_eq!(counts.total, 0);

    // This simulates the beginning of the loop:
    // If counts.total == 0, return Outcome::NoPlan
    // (We can't call run() directly without a Config, but we can verify the logic)
    if counts.total == 0 {
        // Would return Outcome::NoPlan
        assert_eq!(counts.total, 0);
    }
}

#[test]
fn ready_tasks_are_picked_in_order() {
    let mut db = Db::new();

    // Create a simple chain: A -> B -> C
    insert(&mut db, "t-task-a", "Task A", "", "pending", "2024-01-01T00:00:00Z");
    insert(&mut db, "t-task-b", "Task B", "", "pending", "2024-01-01T00:00:01Z");
    insert(&mut db, "t-task-c", "Task C", "", "pending", "2024-01-01T00:00:02Z");

    // Add dependencies: A blocks B, B blocks C
    block(&mut db, "t-task-a", "t-task-b");
    block(&mut db, "t-task-b", "t-task-c");

    // First iteration: A should be ready
    let ready = db.get_ready_tasks();
    assert_eq!(ready.len(), 1);
    assert_eq!(ready[0].id, "t-task-a");

    // Claim and complete A
    db.claim_task("t-task-a", "agent-test", NOW).unwrap();
    db.complete_task("t-task-a", NOW).unwrap();

    // Second iteration: B should now be ready
    let ready = db.get_ready_tasks();
    assert_eq!(ready.len(), 1);
    assert_eq!(ready[0].id, "t-task-b");

    // Claim and complete B
    db.claim_task("t-task-b", "agent-test", NOW).unwrap();
    db.complete_task("t-task-b", NOW).unwrap();

    // Third iteration: C should now be ready
    let ready = db.get_ready_tasks();
    assert_eq!(ready.len(), 1);
    assert_eq!(ready[0].id, "t-task-c");

    // Complete C
    db.claim_task("t-task-c", "agent-test", NOW).unwrap();
    db.complete_task("t-task-c", NOW).unwrap();

    // All tasks should be resolved
    assert!(db.all_resolved());
}

#[test]
fn blocked_tasks_return_blocked_outcome() {
    let mut db = Db::new();

    // Create A -> B
    insert(&mut db, "t-task-a", "Task A", "", "pending", "2024-01-01T00:00:00Z");
    insert(&mut db, "t-task-b", "Task B", "", "pending", "2024-01-01T00:00:01Z");

    // Add dependency: A blocks B
    block(&mut db, "t-task-a", "t-task-b");

    // A is ready, claim and fail it
    let ready = db.get_ready_tasks();
    assert_eq!(ready.len(), 1);

    db.claim_task("t-task-a", "agent-test", NOW).unwrap();
    db.fail_task("t-task-a", "Failed intentionally", NOW, NOW).unwrap();

    // B is now blocked (cannot proceed because A failed)
    let ready = db.get_ready_tasks();
    assert_eq!(ready.len(), 0);

    // But tasks still exist and are not all resolved
    let counts = db.get_task_counts();
    assert!(counts.total > 0);
    assert!(!db.all_resolved());

    // This is the Blocked scenario
}

#[test]
fn completed_blockers_are_retrieved() {
    let mut db = Db::new();

    // Create two tasks: A blocks B
    insert(&mut db, "t-a", "Task A", "Description A", "done", "2024-01-01T00:00:00Z");
    insert(&mut db, "t-b", "Task B", "Description B", "pending", "2024-01-01T00:00:01Z");
    block(&mut db, "t-a", "t-b");

    let blockers = db.get_completed_blockers("t-b");
    assert_eq!(blockers.len(), 1);
    assert_eq!(blockers[0].task_id, "t-a");
    assert_eq!(blockers[0].title, "Task A");
}

#[test]
fn last_failure_reason_from_logs() {
    let mut db = Db::new();

    insert(&mut db, "t-x", "Task X", "", "pending", "2024-01-01T00:00:00Z");

    db.add_log("t-x", "First failure", NOW).unwrap();
    db.add_log("t-x", "Second failure", NOW).unwrap();

    let reason = db.get_last_failure_reason("t-x");
    assert_eq!(reason, "Second failure");
}

#[test]
fn last_failure_reason_missing() {
    let db = Db::new();

    let reason = db.get_last_failure_reason("t-nonexistent");
    assert_eq!(reason, "No failure reason recorded");
}
