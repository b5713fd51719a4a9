//! Tasks that are ready.

use ralph::dag::model::{Db, Task};
use ralph::dag::queries::TaskCounts;

fn task(id: &str, title: &str, parent_id: Option<&str>) -> Task {
    Task {
        id: id.to_string(),
        title: title.to_string(),
        description: String::new(),
        status: "pending".to_string(),
        parent_id: parent_id.map(String::from),
        feature_id: None,
        task_type: "feature".to_string(),
        priority: 0,
        retry_count: 0,
        max_retries: 3,
        verification_status: None,
        created_at: "2024-01-01T00:00:00Z".to_string(),
        updated_at: "2024-01-01T00:00:00Z".to_string(),
        claimed_by: None,
    }
}

fn create_task(db: &mut Db, id: &str, title: &str, parent_id: Option<&str>, priority: i32) {
    let mut t = task(id, title, parent_id);
    t.priority = priority;
    db.tasks.push(t);
}

fn create_task_at(db: &mut Db, id: &str, title: &str, created_at: &str) {
    let mut t = task(id, title, None);
    t.created_at = created_at.to_string();
    t.updated_at = created_at.to_string();
    db.tasks.push(t);
}

fn set_task_status(db: &mut Db, id: &str, status: &str) {
    let i = db.tasks.iter().position(|t| t.id == id).unwrap();
    db.tasks[i].status = status.to_string();
}

fn get_ready_tasks(db: &Db) -> Result<Vec<Task>, String> {
    Ok(db.get_ready_tasks())
}

fn add_dependency(db: &mut Db, blocker: &str, blocked: &str) -> Result<(), String> {
    db.add_dependency(blocker, blocked).map_err(|e| e.message())
}

#[test]
fn task_struct_has_required_fields() {
    let task = Task {
        id: "t-abc123".to_string(),
        title: "Test task".to_string(),
        description: "A test task".to_string(),
        status: "pending".to_string(),
        parent_id: None,
        feature_id: None,
        task_type: "feature".to_string(),
        priority: 0,
        retry_count: 0,
        max_retries: 3,
        verification_status: None,
        created_at: "2024-01-01T00:00:00Z".to_string(),
        updated_at: "2024-01-01T00:00:00Z".to_string(),
        claimed_by: None,
    };
    assert_eq!(task.id, "t-abc123");
    assert_eq!(task.title, "Test task");
    assert!(task.parent_id.is_none());
}

#[test]
fn task_counts_struct_has_required_fields() {
    let counts = TaskCounts {
        total: 10,
        ready: 3,
        done: 2,
        blocked: 1,
    };
    assert_eq!(counts.total, 10);
    assert_eq!(counts.ready, 3);
    assert_eq!(counts.done, 2);
    assert_eq!(counts.blocked, 1);
}

#[test]
fn test_ready_task_with_no_deps_no_parent() {
    let mut db = Db::new();

    create_task(&mut db, "t-task1", "Task 1", None, 0);

    let ready = get_ready_tasks(&db).unwrap();
    assert_eq!(ready.len(), 1);
    assert_eq!(ready[0].id, "t-task1");
}

#[test]
fn test_task_with_pending_blocker_not_ready() {
    let mut db = Db::new();

    create_task(&mut db, "t-blocker", "Blocker", None, 0);
    create_task(&mut db, "t-blocked", "Blocked", None, 0);
    add_dependency(&mut db, "t-blocker", "t-blocked").unwrap();

    let ready = get_ready_tasks(&db).unwrap();
    // Only t-blocker should be ready
    assert_eq!(ready.len(), 1);
    assert_eq!(ready[0].id, "t-blocker");
}

#[test]
fn test_task_with_all_blockers_done_is_ready() {
    let mut db = Db::new();

    create_task(&mut db, "t-blocker", "Blocker", None, 0);
    create_task(&mut db, "t-blocked", "Blocked", None, 0);
    add_dependency(&mut db, "t-blocker", "t-blocked").unwrap();

    // Mark blocker as done
    set_task_status(&mut db, "t-blocker", "done");

    let ready = get_ready_tasks(&db).unwrap();
    assert_eq!(ready.len(), 1);
    assert_eq!(ready[0].id, "t-blocked");
}

#[test]
fn test_task_with_failed_parent_not_ready() {
    let mut db = Db::new();

    create_task(&mut db, "t-parent", "Parent", None, 0);
    create_task(&mut db, "t-child", "Child", Some("t-parent"), 0);

    // Mark parent as failed
    set_task_status(&mut db, "t-parent", "failed");

    let ready = get_ready_tasks(&db).unwrap();
    assert_eq!(ready.len(), 0);
}

#[test]
fn test_non_leaf_task_not_ready() {
    let mut db = Db::new();

    create_task(&mut db, "t-parent", "Parent", None, 0);
    create_task(&mut db, "t-child", "Child", Some("t-parent"), 0);

    let ready = get_ready_tasks(&db).unwrap();
    // Only child (leaf) should be ready
    assert_eq!(ready.len(), 1);
    assert_eq!(ready[0].id, "t-child");
}

#[test]
fn test_ready_tasks_ordering() {
    let mut db = Db::new();

    // Create tasks with different priorities
    create_task(&mut db, "t-p1", "Priority 1", None, 1);
    create_task(&mut db, "t-p0", "Priority 0", None, 0);
    create_task(&mut db, "t-p2", "Priority 2", None, 2);

    let ready = get_ready_tasks(&db).unwrap();
    assert_eq!(ready.len(), 3);
    // Should be ordered by priority ASC
    assert_eq!(ready[0].id, "t-p0");
    assert_eq!(ready[1].id, "t-p1");
    assert_eq!(ready[2].id, "t-p2");
}

#[test]
fn test_ready_tasks_ordering_same_priority() {
    let mut db = Db::new();

    // Create tasks with same priority but different created_at
    create_task_at(&mut db, "t-newer", "Newer", "2024-01-02T00:00:00Z");
    create_task_at(&mut db, "t-older", "Older", "2024-01-01T00:00:00Z");

    let ready = get_ready_tasks(&db).unwrap();
    assert_eq!(ready.len(), 2);
    // Should be ordered by created_at ASC (older first)
    assert_eq!(ready[0].id, "t-older");
    assert_eq!(ready[1].id, "t-newer");
}

#[test]
fn counts_are_by_status() {
    let mut db = Db::new();
    create_task(&mut db, "t-1", "One", None, 0);
    create_task(&mut db, "t-2", "Two", None, 0);
    create_task(&mut db, "t-3", "Three", None, 0);
    set_task_status(&mut db, "t-1", "done");
    set_task_status(&mut db, "t-2", "blocked");
    let counts = db.get_task_counts();
    assert_eq!((counts.total, counts.ready, counts.done, counts.blocked), (3, 1, 1, 1));
    assert!(!db.all_resolved());
    set_task_status(&mut db, "t-2", "failed");
    set_task_status(&mut db, "t-3", "done");
    assert!(db.all_resolved());
}

#[test]
fn claims_are_taken_and_given_back() {
    let mut db = Db::new();
    create_task(&mut db, "t-1", "One", None, 0);
    db.claim_task("t-1", "agent-a", "now").unwrap();
    assert_eq!(db.tasks[0].claimed_by.as_deref(), Some("agent-a"));
    assert!(db.get_ready_tasks().is_empty());
    assert!(db.claim_task("t-1", "agent-b", "now").is_err());
    db.release_claim("t-1", "later").unwrap();
    assert_eq!(db.tasks[0].status, "pending");
    assert_eq!(db.tasks[0].claimed_by, None);
    assert_eq!(db.get_ready_tasks().len(), 1);
}

#[test]
fn a_retry_is_counted() {
    let mut db = Db::new();
    create_task(&mut db, "t-1", "One", None, 0);
    db.claim_task("t-1", "agent-a", "now").unwrap();
    db.retry_task("t-1", "later").unwrap();
    assert_eq!(db.tasks[0].retry_count, 1);
    assert_eq!(db.tasks[0].verification_status.as_deref(), Some("failed"));
    assert_eq!(db.tasks[0].status, "pending");
}

#[test]
fn a_failed_task_logs_the_reason() {
    let mut db = Db::new();
    create_task(&mut db, "t-1", "One", None, 0);
    db.claim_task("t-1", "agent-a", "now").unwrap();
    db.fail_task("t-1", "it broke", "now", "later").unwrap();
    let logs = db.get_task_logs("t-1");
    assert_eq!(logs.len(), 1);
    assert_eq!(logs[0].message, "it broke");
    assert_eq!(db.tasks[0].status, "failed");
}

#[test]
fn blockers_and_blocked_tasks_are_found() {
    let mut db = Db::new();
    create_task(&mut db, "t-1", "One", None, 0);
    create_task(&mut db, "t-2", "Two", None, 0);
    add_dependency(&mut db, "t-1", "t-2").unwrap();
    assert_eq!(db.get_task_blockers("t-2")[0].id, "t-1");
    assert_eq!(db.get_tasks_blocked_by("t-1")[0].id, "t-2");
    assert!(db.get_task_blockers("t-1").is_empty());
}

#[test]
fn rows_that_break_the_invariant_are_not_loaded() {
    let good = vec![task("t-1", "One", None), task("t-2", "Two", Some("t-1"))];
    assert!(Db::from_rows(good, vec![], vec![], vec![], vec![], 0).is_some());
    let twice = vec![task("t-1", "One", None), task("t-1", "Again", None)];
    assert!(Db::from_rows(twice, vec![], vec![], vec![], vec![], 0).is_none());
    let orphan = vec![task("t-2", "Two", Some("t-1"))];
    assert!(Db::from_rows(orphan, vec![], vec![], vec![], vec![], 0).is_none());
    let mut odd = task("t-1", "One", None);
    odd.status = "odd".to_string();
    assert!(Db::from_rows(vec![odd], vec![], vec![], vec![], vec![], 0).is_none());
}
