//! Task and feature ids.

use std::collections::HashSet;

use ralph::dag::ids::{generate_feature_id, generate_task_id, id_from_digest};
use ralph::dag::model::{Db, Task};

fn task(id: &str) -> Task {
    Task {
        id: id.to_string(),
        title: String::new(),
        description: String::new(),
        status: "pending".to_string(),
        parent_id: None,
        feature_id: None,
        task_type: "standalone".to_string(),
        priority: 0,
        retry_count: 0,
        max_retries: 3,
        verification_status: None,
        created_at: String::new(),
        updated_at: String::new(),
        claimed_by: None,
    }
}

#[test]
fn test_id_format() {
    let id = generate_task_id(1_700_000_000_123_456_789, 7);
    // Should match regex ^t-[0-9a-f]{6}$
    assert!(id.starts_with("t-"));
    assert_eq!(id.len(), 8); // "t-" + 6 hex chars = 8 total
    let hex_part = &id[2..];
    assert_eq!(hex_part.len(), 6);
    assert!(hex_part.chars().all(|c| c.is_ascii_hexdigit()));
}

#[test]
fn test_no_duplicates_in_1000_generates() {
    let mut ids = HashSet::new();
    for counter in 0..1000 {
        let id = generate_task_id(1_700_000_000_000_000_000, counter);
        assert!(ids.insert(id), "Duplicate ID generated");
    }
    assert_eq!(ids.len(), 1000);
}

#[test]
fn test_collision_retry() {
    let seeds: Vec<(u128, u64)> = (0..10).map(|k| (1_700_000_000, k)).collect();
    let mut db = Db::new();
    for (time, counter) in &seeds[..2] {
        db.tasks.push(task(&generate_task_id(*time, *counter)));
    }

    // Collisions on the first two attempts, success on the third
    let result = db.generate_and_insert_task_id(&seeds);
    assert!(result.is_ok());
    assert_eq!(result.unwrap(), generate_task_id(seeds[2].0, seeds[2].1));
}

#[test]
fn test_max_retries_exceeded() {
    let seeds: Vec<(u128, u64)> = (0..3).map(|k| (1_700_000_000, k)).collect();
    let mut db = Db::new();
    for (time, counter) in &seeds {
        db.tasks.push(task(&generate_task_id(*time, *counter)));
    }

    let result = db.generate_and_insert_task_id(&seeds);
    assert!(result.is_err());
    assert!(result
        .unwrap_err()
        .message()
        .contains("Failed to generate unique task ID after 3 attempts"));
}

#[test]
fn ids_are_the_first_bytes_of_a_digest() {
    assert_eq!(id_from_digest("t-", &vec![0xab, 0x01, 0xff, 0x77]), "t-ab01ff");
    // SHA-256 of 24 zero bytes begins with 9d908ecf.
    assert_eq!(generate_task_id(0, 0), "t-9d908e");
    assert_eq!(generate_feature_id(0, 0), "f-9d908e");
}
