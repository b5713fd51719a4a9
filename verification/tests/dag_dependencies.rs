//! Dependencies between tasks.

use ralph::dag::model::{Db, Task};

fn task(id: &str, title: &str, parent_id: Option<&str>) -> Task {
    Task {
        id: id.to_string(),
        title: title.to_string(),
        description: String::new(),
        status: "pending".to_string(),
        parent_id: parent_id.map(String::from),
        feature_id: None,
        task_type: "feature".to_string(),
        priority: 0,
        retry_count: 0,
        max_retries: 3,
        verification_status: None,
        created_at: "2024-01-01T00:00:00Z".to_string(),
        updated_at: "2024-01-01T00:00:00Z".to_string(),
        claimed_by: None,
    }
}

fn create_task(db: &mut Db, id: &str, title: &str) -> Result<(), String> {
    db.tasks.push(task(id, title, None));
    Ok(())
}

fn add_dependency(db: &mut Db, blocker: &str, blocked: &str) -> Result<(), String> {
    db.add_dependency(blocker, blocked).map_err(|e| e.message())
}

fn remove_dependency(db: &mut Db, blocker: &str, blocked: &str) -> Result<(), String> {
    db.remove_dependency(blocker, blocked);
    Ok(())
}

fn count_deps(db: &Db, blocker: &str, blocked: &str) -> usize {
    db.deps.iter().filter(|d| d.blocker == blocker && d.blocked == blocked).count()
}

#[test]
fn test_add_valid_dependency() -> Result<(), String> {
    let mut db = Db::new();

    create_task(&mut db, "t-aaa111", "Task A")?;
    create_task(&mut db, "t-bbb222", "Task B")?;

    add_dependency(&mut db, "t-aaa111", "t-bbb222")?;

    // Verify dependency exists
    let count = count_deps(&db, "t-aaa111", "t-bbb222");

    assert_eq!(count, 1);
    Ok(())
}

#[test]
fn test_direct_cycle_rejected() -> Result<(), String> {
    let mut db = Db::new();

    create_task(&mut db, "t-aaa111", "Task A")?;
    create_task(&mut db, "t-bbb222", "Task B")?;

    // A blocks B
    add_dependency(&mut db, "t-aaa111", "t-bbb222")?;

    // Try B blocks A (would create cycle)
    let result = add_dependency(&mut db, "t-bbb222", "t-aaa111");
    assert!(result.is_err());
    assert!(result
        .unwrap_err()
        .to_string()
        .contains("would create a cycle"));

    Ok(())
}

#[test]
fn test_transitive_cycle_rejected() -> Result<(), String> {
    let mut db = Db::new();

    create_task(&mut db, "t-aaa111", "Task A")?;
    create_task(&mut db, "t-bbb222", "Task B")?;
    create_task(&mut db, "t-ccc333", "Task C")?;

    // A -> B -> C
    add_dependency(&mut db, "t-aaa111", "t-bbb222")?;
    add_dependency(&mut db, "t-bbb222", "t-ccc333")?;

    // Try C -> A (would create cycle)
    let result = add_dependency(&mut db, "t-ccc333", "t-aaa111");
    assert!(result.is_err());
    assert!(result
        .unwrap_err()
        .to_string()
        .contains("would create a cycle"));

    Ok(())
}

#[test]
fn test_remove_dependency() -> Result<(), String> {
    let mut db = Db::new();

    create_task(&mut db, "t-aaa111", "Task A")?;
    create_task(&mut db, "t-bbb222", "Task B")?;

    add_dependency(&mut db, "t-aaa111", "t-bbb222")?;
    remove_dependency(&mut db, "t-aaa111", "t-bbb222")?;

    // Verify dependency is gone
    let count = count_deps(&db, "t-aaa111", "t-bbb222");

    assert_eq!(count, 0);
    Ok(())
}

#[test]
fn test_dependency_on_nonexistent_task_fails() -> Result<(), String> {
    let mut db = Db::new();

    create_task(&mut db, "t-aaa111", "Task A")?;

    // Try to add dependency with nonexistent blocker
    let result = add_dependency(&mut db, "t-nonexistent", "t-aaa111");
    assert!(result.is_err());

    // Try to add dependency with nonexistent blocked
    let result = add_dependency(&mut db, "t-aaa111", "t-nonexistent");
    assert!(result.is_err());

    Ok(())
}

#[test]
fn dependencies_test_self_dependency_rejected() -> Result<(), String> {
    let mut db = Db::new();

    create_task(&mut db, "t-aaa111", "Task A")?;

    // Try to add self-dependency
    let result = add_dependency(&mut db, "t-aaa111", "t-aaa111");
    assert!(result.is_err());

    Ok(())
}

#[test]
fn test_longer_cycle_rejected() -> Result<(), String> {
    let mut db = Db::new();

    create_task(&mut db, "t-aaa111", "Task A")?;
    create_task(&mut db, "t-bbb222", "Task B")?;
    create_task(&mut db, "t-ccc333", "Task C")?;
    create_task(&mut db, "t-ddd444", "Task D")?;

    // A -> B -> C -> D
    add_dependency(&mut db, "t-aaa111", "t-bbb222")?;
    add_dependency(&mut db, "t-bbb222", "t-ccc333")?;
    add_dependency(&mut db, "t-ccc333", "t-ddd444")?;

    // Try D -> A (would create cycle)
    let result = add_dependency(&mut db, "t-ddd444", "t-aaa111");
    assert!(result.is_err());

    // Try D -> B (would create cycle)
    let result = add_dependency(&mut db, "t-ddd444", "t-bbb222");
    assert!(result.is_err());

    Ok(())
}

#[test]
fn test_diamond_structure_allowed() -> Result<(), String> {
    let mut db = Db::new();

    create_task(&mut db, "t-aaa111", "Task A")?;
    create_task(&mut db, "t-bbb222", "Task B")?;
    create_task(&mut db, "t-ccc333", "Task C")?;
    create_task(&mut db, "t-ddd444", "Task D")?;

    // Diamond: A -> B -> D, A -> C -> D (no cycle)
    add_dependency(&mut db, "t-aaa111", "t-bbb222")?;
    add_dependency(&mut db, "t-aaa111", "t-ccc333")?;
    add_dependency(&mut db, "t-bbb222", "t-ddd444")?;
    add_dependency(&mut db, "t-ccc333", "t-ddd444")?;

    // Verify all dependencies exist
    let count = db.deps.len();

    assert_eq!(count, 4);
    Ok(())
}

#[test]
fn test_foreign_key_constraint_enforced() {
    let mut db = Db::new();
    let result = db.add_dependency("t-abc123", "t-def456");
    assert!(result.is_err());
}

#[test]
fn test_duplicate_dependency_rejected() {
    let mut db = Db::new();
    create_task(&mut db, "t-abc123", "Task A").unwrap();
    create_task(&mut db, "t-def456", "Task B").unwrap();
    db.add_dependency("t-abc123", "t-def456").unwrap();
    let result = db.add_dependency("t-abc123", "t-def456");
    assert!(result.is_err());
}

#[test]
fn db_test_self_dependency_rejected() {
    let mut db = Db::new();
    create_task(&mut db, "t-abc123", "Task A").unwrap();
    let result = db.add_dependency("t-abc123", "t-abc123");
    assert!(result.is_err());
}

#[test]
fn a_removed_dependency_lets_its_opposite_in() {
    let mut db = Db::new();
    create_task(&mut db, "t-a", "A").unwrap();
    create_task(&mut db, "t-b", "B").unwrap();
    add_dependency(&mut db, "t-a", "t-b").unwrap();
    assert!(db.would_create_cycle("t-b", "t-a"));
    remove_dependency(&mut db, "t-a", "t-b").unwrap();
    assert!(!db.would_create_cycle("t-b", "t-a"));
    add_dependency(&mut db, "t-b", "t-a").unwrap();
    assert_eq!(count_deps(&db, "t-b", "t-a"), 1);
}
