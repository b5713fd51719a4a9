//! Creating, reading, changing and deleting tasks.

use ralph::dag::crud::{CreateTaskParams, TaskUpdate};
use ralph::dag::ids::{generate_feature_id, generate_task_id};
use ralph::dag::model::{Db, Feature, Task};

/// A time, later with each row.
fn stamp(db: &Db) -> String {
    format!("2024-01-01T00:00:{:02}Z", (db.tasks.len() + db.features.len()) % 60)
}

/// Candidate ids for a new task.
fn ids(db: &Db) -> Vec<String> {
    (0..10).map(|k| generate_task_id(1_700_000_000, (db.tasks.len() * 10 + k) as u64)).collect()
}

fn create_task(
    db: &mut Db,
    title: &str,
    description: Option<&str>,
    parent: Option<&str>,
    priority: i32,
) -> Result<Task, String> {
    let (ids, now) = (ids(db), stamp(db));
    db.create_task(title, description, parent, priority, &ids, &now).map_err(|e| e.message())
}

fn create_task_with_feature(db: &mut Db, params: CreateTaskParams) -> Result<Task, String> {
    let (ids, now) = (ids(db), stamp(db));
    db.create_task_with_feature(params, &ids, &now).map_err(|e| e.message())
}

fn create_feature(db: &mut Db, name: &str) -> Result<Feature, String> {
    let (id, now) = (generate_feature_id(1, db.features.len() as u64), stamp(db));
    db.create_feature(name, &id, &now).map_err(|e| e.message())
}

fn get_task(db: &Db, id: &str) -> Result<Task, String> {
    db.get_task(id).map_err(|e| e.message())
}

fn get_task_tree(db: &Db, id: &str) -> Result<Vec<Task>, String> {
    db.get_task_tree(id).map_err(|e| e.message())
}

fn get_ready_tasks(db: &Db) -> Result<Vec<Task>, String> {
    Ok(db.get_ready_tasks())
}

fn update_task(db: &mut Db, id: &str, fields: TaskUpdate) -> Result<Task, String> {
    let now = stamp(db);
    db.update_task(id, fields, &now).map_err(|e| e.message())
}

fn delete_task(db: &mut Db, id: &str) -> Result<(), String> {
    db.delete_task(id).map_err(|e| e.message())
}

fn delete_tasks_for_feature(db: &mut Db, id: &str) -> Result<usize, String> {
    db.delete_tasks_for_feature(id).map_err(|e| e.message())
}

fn add_dependency(db: &mut Db, blocker: &str, blocked: &str) -> Result<(), String> {
    db.add_dependency(blocker, blocked).map_err(|e| e.message())
}

fn add_log(db: &mut Db, id: &str, message: &str) -> Result<(), String> {
    let now = stamp(db);
    db.add_log(id, message, &now).map_err(|e| e.message())
}

fn claim_task(db: &mut Db, id: &str, agent: &str) -> Result<(), String> {
    let now = stamp(db);
    db.claim_task(id, agent, &now).map_err(|e| e.message())
}

fn complete_task(db: &mut Db, id: &str) -> Result<(), String> {
    let now = stamp(db);
    db.complete_task(id, &now).map_err(|e| e.message())
}

#[test]
fn test_create_task() {
    let mut db = Db::new();

    let task = create_task(&mut db, "Test Task", Some("A test task"), None, 0).unwrap();
    assert_eq!(task.title, "Test Task");
    assert_eq!(task.description, "A test task");
    assert!(task.id.starts_with("t-"));
    assert!(task.parent_id.is_none());
}

#[test]
fn test_create_task_with_parent() {
    let mut db = Db::new();

    let parent = create_task(&mut db, "Parent", None, None, 0).unwrap();
    let child = create_task(&mut db, "Child", None, Some(&parent.id), 0).unwrap();

    assert_eq!(child.parent_id, Some(parent.id));
}

#[test]
fn test_create_task_with_invalid_parent() {
    let mut db = Db::new();

    let result = create_task(&mut db, "Child", None, Some("t-nonexistent"), 0);
    assert!(result.is_err());
    assert!(result.unwrap_err().to_string().contains("does not exist"));
}

#[test]
fn test_get_task() {
    let mut db = Db::new();

    let created = create_task(&mut db, "Test Task", Some("Description"), None, 5).unwrap();
    let retrieved = get_task(&db, &created.id).unwrap();

    assert_eq!(retrieved.id, created.id);
    assert_eq!(retrieved.title, "Test Task");
    assert_eq!(retrieved.description, "Description");
}

#[test]
fn test_get_nonexistent_task() {
    let mut db = Db::new();

    let result = get_task(&db, "t-nonexistent");
    assert!(result.is_err());
}

#[test]
fn test_update_task_title() {
    let mut db = Db::new();

    let task = create_task(&mut db, "Original", None, None, 0).unwrap();
    let update = TaskUpdate {
        title: Some("Updated".to_string()),
        ..Default::default()
    };

    let updated = update_task(&mut db, &task.id, update).unwrap();
    assert_eq!(updated.title, "Updated");
    assert_eq!(updated.description, "");
}

#[test]
fn test_update_task_multiple_fields() {
    let mut db = Db::new();

    let task = create_task(&mut db, "Original", Some("Original desc"), None, 0).unwrap();
    let update = TaskUpdate {
        title: Some("Updated".to_string()),
        description: Some("Updated desc".to_string()),
        priority: Some(10),
    };

    let updated = update_task(&mut db, &task.id, update).unwrap();
    assert_eq!(updated.title, "Updated");
    assert_eq!(updated.description, "Updated desc");
}

#[test]
fn test_update_nonexistent_task() {
    let mut db = Db::new();

    let update = TaskUpdate {
        title: Some("Updated".to_string()),
        ..Default::default()
    };
    let result = update_task(&mut db, "t-nonexistent", update);
    assert!(result.is_err());
}

#[test]
fn test_delete_task() {
    let mut db = Db::new();

    let task = create_task(&mut db, "To Delete", None, None, 0).unwrap();
    delete_task(&mut db, &task.id).unwrap();

    let result = get_task(&db, &task.id);
    assert!(result.is_err());
}

#[test]
fn test_delete_task_cascade_children() {
    let mut db = Db::new();

    let parent = create_task(&mut db, "Parent", None, None, 0).unwrap();
    let child = create_task(&mut db, "Child", None, Some(&parent.id), 0).unwrap();

    delete_task(&mut db, &parent.id).unwrap();

    // Both parent and child should be deleted
    assert!(get_task(&db, &parent.id).is_err());
    assert!(get_task(&db, &child.id).is_err());
}

#[test]
fn test_delete_task_rejects_if_blocker() {
    let mut db = Db::new();

    let blocker = create_task(&mut db, "Blocker", None, None, 0).unwrap();
    let blocked = create_task(&mut db, "Blocked", None, None, 0).unwrap();
    add_dependency(&mut db, &blocker.id, &blocked.id).unwrap();

    let result = delete_task(&mut db, &blocker.id);
    assert!(result.is_err());
    assert!(result
        .unwrap_err()
        .to_string()
        .contains("other tasks depend on it"));
}

#[test]
fn test_delete_task_allows_if_blocked() {
    let mut db = Db::new();

    let blocker = create_task(&mut db, "Blocker", None, None, 0).unwrap();
    let blocked = create_task(&mut db, "Blocked", None, None, 0).unwrap();
    add_dependency(&mut db, &blocker.id, &blocked.id).unwrap();

    // Deleting the blocked task should succeed
    delete_task(&mut db, &blocked.id).unwrap();
    assert!(get_task(&db, &blocked.id).is_err());
}

#[test]
fn test_get_task_tree_single() {
    let mut db = Db::new();

    let task = create_task(&mut db, "Root", None, None, 0).unwrap();
    let tree = get_task_tree(&db, &task.id).unwrap();

    assert_eq!(tree.len(), 1);
    assert_eq!(tree[0].id, task.id);
}

#[test]
fn test_get_task_tree_with_children() {
    let mut db = Db::new();

    let root = create_task(&mut db, "Root", None, None, 0).unwrap();
    let child1 = create_task(&mut db, "Child 1", None, Some(&root.id), 0).unwrap();
    let child2 = create_task(&mut db, "Child 2", None, Some(&root.id), 0).unwrap();
    let grandchild = create_task(&mut db, "Grandchild", None, Some(&child1.id), 0).unwrap();

    let tree = get_task_tree(&db, &root.id).unwrap();

    assert_eq!(tree.len(), 4);
    let ids: Vec<&str> = tree.iter().map(|t| t.id.as_str()).collect();
    assert!(ids.contains(&root.id.as_str()));
    assert!(ids.contains(&child1.id.as_str()));
    assert!(ids.contains(&child2.id.as_str()));
    assert!(ids.contains(&grandchild.id.as_str()));
}

#[test]
fn test_get_task_tree_nonexistent() {
    let mut db = Db::new();

    let result = get_task_tree(&db, "t-nonexistent");
    assert!(result.is_err());
}

#[test]
fn test_add_log() {
    let mut db = Db::new();

    let task = create_task(&mut db, "Task", None, None, 0).unwrap();
    add_log(&mut db, &task.id, "Test log message").unwrap();

    // Verify log was inserted
    let count = db
        .get_task_logs(&task.id)
        .iter()
        .filter(|l| l.message == "Test log message")
        .count();
    assert_eq!(count, 1);
}

#[test]
fn test_add_log_nonexistent_task() {
    let mut db = Db::new();

    let result = add_log(&mut db, "t-nonexistent", "Message");
    assert!(result.is_err());
    assert!(result.unwrap_err().to_string().contains("does not exist"));
}

#[test]
fn test_delete_tasks_for_feature() {
    let mut db = Db::new();

    // Create a feature
    let feat = create_feature(&mut db, "test-feat").unwrap();

    // Create tasks for the feature
    let t1 = create_task_with_feature(&mut db,
        CreateTaskParams {
            title: "Task 1",
            description: None,
            parent_id: None,
            priority: 0,
            feature_id: Some(&feat.id),
            task_type: "feature",
            max_retries: 3,
        },
    )
    .unwrap();
    let t2 = create_task_with_feature(&mut db,
        CreateTaskParams {
            title: "Task 2",
            description: None,
            parent_id: Some(&t1.id),
            priority: 0,
            feature_id: Some(&feat.id),
            task_type: "feature",
            max_retries: 3,
        },
    )
    .unwrap();

    // Add a log entry
    add_log(&mut db, &t1.id, "some log").unwrap();

    // Add a dependency between feature tasks
    add_dependency(&mut db, &t1.id, &t2.id).unwrap();

    // Create a standalone task that should NOT be deleted
    let standalone = create_task(&mut db, "Standalone", None, None, 0).unwrap();

    // Delete feature tasks
    let count = delete_tasks_for_feature(&mut db, &feat.id).unwrap();
    assert_eq!(count, 2);

    // Feature tasks should be gone
    assert!(get_task(&db, &t1.id).is_err());
    assert!(get_task(&db, &t2.id).is_err());

    // Standalone task should still exist
    assert!(get_task(&db, &standalone.id).is_ok());
}

#[test]
fn test_delete_tasks_for_feature_no_tasks() {
    let mut db = Db::new();

    let count = delete_tasks_for_feature(&mut db, "f-nonexistent").unwrap();
    assert_eq!(count, 0);
}

#[test]
fn test_integration_create_graph_claim_complete() {
    let mut db = Db::new();

    // Create: A blocks B, B blocks C
    let a = create_task(&mut db, "Task A", None, None, 0).unwrap();
    let b = create_task(&mut db, "Task B", None, None, 0).unwrap();
    let c = create_task(&mut db, "Task C", None, None, 0).unwrap();

    add_dependency(&mut db, &a.id, &b.id).unwrap();
    add_dependency(&mut db, &b.id, &c.id).unwrap();

    // Initially, only A is ready
    let ready = get_ready_tasks(&db).unwrap();
    assert_eq!(ready.len(), 1);
    assert_eq!(ready[0].id, a.id);

    // Claim A and complete it
    claim_task(&mut db, &a.id, "agent-test").unwrap();
    complete_task(&mut db, &a.id).unwrap();

    // Now B should be ready
    let ready = get_ready_tasks(&db).unwrap();
    assert_eq!(ready.len(), 1);
    assert_eq!(ready[0].id, b.id);

    // Claim B and complete it
    claim_task(&mut db, &b.id, "agent-test").unwrap();
    complete_task(&mut db, &b.id).unwrap();

    // Now C should be ready
    let ready = get_ready_tasks(&db).unwrap();
    assert_eq!(ready.len(), 1);
    assert_eq!(ready[0].id, c.id);
}

#[test]
fn a_refused_deletion_keeps_the_blocker() {
    let mut db = Db::new();
    let blocker = create_task(&mut db, "Blocker", None, None, 0).unwrap();
    let blocked = create_task(&mut db, "Blocked", None, None, 0).unwrap();
    add_dependency(&mut db, &blocker.id, &blocked.id).unwrap();
    let refused = delete_task(&mut db, &blocker.id).unwrap_err();
    assert!(refused.contains(&blocker.id));
    assert_eq!(db.tasks.len(), 2);
    assert_eq!(db.deps.len(), 1);
}

#[test]
fn a_deletion_takes_dependencies_and_logs_with_it() {
    let mut db = Db::new();
    let blocker = create_task(&mut db, "Blocker", None, None, 0).unwrap();
    let blocked = create_task(&mut db, "Blocked", None, None, 0).unwrap();
    add_dependency(&mut db, &blocker.id, &blocked.id).unwrap();
    add_log(&mut db, &blocked.id, "a note").unwrap();
    delete_task(&mut db, &blocked.id).unwrap();
    assert!(db.deps.is_empty());
    assert!(db.logs.is_empty());
    assert!(db.is_wf());
}

#[test]
fn a_child_that_blocks_another_task_stops_the_deletion() {
    let mut db = Db::new();
    let parent = create_task(&mut db, "Parent", None, None, 0).unwrap();
    let first = create_task(&mut db, "First", None, Some(&parent.id), 0).unwrap();
    let second = create_task(&mut db, "Second", None, Some(&parent.id), 0).unwrap();
    let other = create_task(&mut db, "Other", None, None, 0).unwrap();
    add_dependency(&mut db, &second.id, &other.id).unwrap();
    assert!(delete_task(&mut db, &parent.id).is_err());
    assert!(get_task(&db, &first.id).is_err());
    assert!(get_task(&db, &second.id).is_ok());
    assert!(get_task(&db, &parent.id).is_ok());
}

#[test]
fn a_tree_lists_parents_before_children() {
    let mut db = Db::new();
    let root = create_task(&mut db, "Root", None, None, 0).unwrap();
    let a = create_task(&mut db, "A", None, Some(&root.id), 0).unwrap();
    let b = create_task(&mut db, "B", None, Some(&root.id), 0).unwrap();
    let below_a = create_task(&mut db, "Below A", None, Some(&a.id), 0).unwrap();
    create_task(&mut db, "Elsewhere", None, None, 0).unwrap();
    let tree = get_task_tree(&db, &root.id).unwrap();
    let places: Vec<usize> = [&root, &a, &b, &below_a]
        .iter()
        .map(|t| tree.iter().position(|x| x.id == t.id).unwrap())
        .collect();
    assert_eq!(tree.len(), 4);
    assert_eq!(places[0], 0);
    assert!(places[1] < places[3]);
}

#[test]
fn a_task_of_an_unknown_feature_or_kind_is_refused() {
    let mut db = Db::new();
    let params = CreateTaskParams {
        title: "T",
        description: None,
        parent_id: None,
        priority: 0,
        feature_id: Some("f-none"),
        task_type: "feature",
        max_retries: 3,
    };
    assert!(create_task_with_feature(&mut db, params).is_err());
    let odd = CreateTaskParams { feature_id: None, task_type: "odd", ..params };
    assert!(create_task_with_feature(&mut db, odd).is_err());
    assert!(db.tasks.is_empty());
}

#[test]
fn tasks_of_others_keep_the_tasks_of_a_feature() {
    let mut db = Db::new();
    let feat = create_feature(&mut db, "feat").unwrap();
    let own = create_task_with_feature(
        &mut db,
        CreateTaskParams {
            title: "Own",
            description: None,
            parent_id: None,
            priority: 0,
            feature_id: Some(&feat.id),
            task_type: "feature",
            max_retries: 3,
        },
    )
    .unwrap();
    create_task(&mut db, "Child of another", None, Some(&own.id), 0).unwrap();
    assert!(delete_tasks_for_feature(&mut db, &feat.id).is_err());
    assert!(get_task(&db, &own.id).is_ok());
    assert!(db.delete_feature(&feat.id).is_err());
}

#[test]
fn a_deleted_feature_leaves_nothing_behind() {
    let mut db = Db::new();
    let feat = create_feature(&mut db, "feat").unwrap();
    for title in ["One", "Two"] {
        create_task_with_feature(
            &mut db,
            CreateTaskParams {
                title,
                description: None,
                parent_id: None,
                priority: 0,
                feature_id: Some(&feat.id),
                task_type: "feature",
                max_retries: 3,
            },
        )
        .unwrap();
    }
    assert_eq!(delete_tasks_for_feature(&mut db, &feat.id), Ok(2));
    assert!(db.delete_feature(&feat.id).is_ok());
    assert!(db.features.is_empty());
    assert!(db.tasks.is_empty());
}
