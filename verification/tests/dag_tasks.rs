//! Statuses that follow from children.

use ralph::dag::model::{Db, Task};

fn task(id: &str, title: &str, parent_id: Option<&str>) -> Task {
    Task {
        id: id.to_string(),
        title: title.to_string(),
        description: String::new(),
        status: "pending".to_string(),
        parent_id: parent_id.map(String::from),
        feature_id: None,
        task_type: "feature".to_string(),
        priority: 0,
        retry_count: 0,
        max_retries: 3,
        verification_status: None,
        created_at: "2024-01-01T00:00:00Z".to_string(),
        updated_at: "2024-01-01T00:00:00Z".to_string(),
        claimed_by: None,
    }
}

fn create_task(db: &mut Db, id: &str, title: &str, parent_id: Option<&str>) {
    db.tasks.push(task(id, title, parent_id));
}

fn set_task_status(db: &mut Db, id: &str, status: &str) {
    let i = db.tasks.iter().position(|t| t.id == id).unwrap();
    db.tasks[i].status = status.to_string();
}

fn get_task_status(db: &Db, id: &str) -> Result<String, String> {
    db.get_task_status(id).map_err(|e| e.message())
}

#[test]
fn test_parent_one_done_one_pending() -> Result<(), String> {
    let mut db = Db::new();

    create_task(&mut db, "t-parent", "Parent", None);
    create_task(&mut db, "t-child1", "Child 1", Some("t-parent"));
    create_task(&mut db, "t-child2", "Child 2", Some("t-parent"));

    set_task_status(&mut db, "t-child1", "done");
    set_task_status(&mut db, "t-child2", "pending");

    let status = get_task_status(&db, "t-parent")?;
    assert_eq!(status, "pending");

    Ok(())
}

#[test]
fn test_parent_all_done() -> Result<(), String> {
    let mut db = Db::new();

    create_task(&mut db, "t-parent", "Parent", None);
    create_task(&mut db, "t-child1", "Child 1", Some("t-parent"));
    create_task(&mut db, "t-child2", "Child 2", Some("t-parent"));

    set_task_status(&mut db, "t-child1", "done");
    set_task_status(&mut db, "t-child2", "done");

    let status = get_task_status(&db, "t-parent")?;
    assert_eq!(status, "done");

    Ok(())
}

#[test]
fn test_parent_one_failed() -> Result<(), String> {
    let mut db = Db::new();

    create_task(&mut db, "t-parent", "Parent", None);
    create_task(&mut db, "t-child1", "Child 1", Some("t-parent"));
    create_task(&mut db, "t-child2", "Child 2", Some("t-parent"));

    set_task_status(&mut db, "t-child1", "done");
    set_task_status(&mut db, "t-child2", "failed");

    let status = get_task_status(&db, "t-parent")?;
    assert_eq!(status, "failed");

    Ok(())
}

#[test]
fn test_parent_one_in_progress() -> Result<(), String> {
    let mut db = Db::new();

    create_task(&mut db, "t-parent", "Parent", None);
    create_task(&mut db, "t-child1", "Child 1", Some("t-parent"));
    create_task(&mut db, "t-child2", "Child 2", Some("t-parent"));

    set_task_status(&mut db, "t-child1", "in_progress");
    set_task_status(&mut db, "t-child2", "pending");

    let status = get_task_status(&db, "t-parent")?;
    assert_eq!(status, "in_progress");

    Ok(())
}

#[test]
fn test_three_level_hierarchy() -> Result<(), String> {
    let mut db = Db::new();

    // Create 3-level hierarchy: grandparent -> parent -> child
    create_task(&mut db, "t-gp", "Grandparent", None);
    create_task(&mut db, "t-parent", "Parent", Some("t-gp"));
    create_task(&mut db, "t-child1", "Child 1", Some("t-parent"));
    create_task(&mut db, "t-child2", "Child 2", Some("t-parent"));

    // All children done -> parent done -> grandparent done
    set_task_status(&mut db, "t-child1", "done");
    set_task_status(&mut db, "t-child2", "done");

    let parent_status = get_task_status(&db, "t-parent")?;
    assert_eq!(parent_status, "done");

    let gp_status = get_task_status(&db, "t-gp")?;
    assert_eq!(gp_status, "done");

    Ok(())
}

#[test]
fn test_leaf_task_returns_stored_status() -> Result<(), String> {
    let mut db = Db::new();

    create_task(&mut db, "t-task", "Task", None);
    set_task_status(&mut db, "t-task", "in_progress");

    let status = get_task_status(&db, "t-task")?;
    assert_eq!(status, "in_progress");

    Ok(())
}

#[test]
fn the_status_of_a_missing_task_is_refused() {
    let db = Db::new();
    assert!(get_task_status(&db, "t-none").unwrap_err().contains("t-none"));
}
