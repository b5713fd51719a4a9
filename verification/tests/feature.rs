//! Features.

use ralph::dag::ids::generate_feature_id;
use ralph::dag::model::{Db, Feature};

fn create_feature(db: &mut Db, name: &str) -> Result<Feature, String> {
    let id = generate_feature_id(1_700_000_000, db.features.len() as u64);
    let now = format!("2024-01-01T00:00:{:02}Z", db.features.len());
    db.create_feature(name, &id, &now).map_err(|e| e.message())
}

fn get_feature(db: &Db, name: &str) -> Result<Feature, String> {
    db.get_feature(name).map_err(|e| e.message())
}

fn list_features(db: &Db) -> Result<Vec<Feature>, String> {
    Ok(db.list_features())
}

fn update_feature_status(db: &mut Db, id: &str, status: &str) -> Result<(), String> {
    db.update_feature_status(id, status, "2024-02-02T00:00:00Z").map_err(|e| e.message())
}

fn feature_exists(db: &Db, name: &str) -> Result<bool, String> {
    Ok(db.feature_exists(name))
}

#[test]
fn test_create_feature() {
    let mut db = Db::new();

    let feature = create_feature(&mut db, "auth").unwrap();
    assert!(feature.id.starts_with("f-"));
    assert_eq!(feature.name, "auth");
    assert_eq!(feature.status, "draft");
    assert!(feature.spec_path.is_none());
    assert!(feature.plan_path.is_none());
}

#[test]
fn test_create_duplicate_feature_fails() {
    let mut db = Db::new();

    create_feature(&mut db, "auth").unwrap();
    let result = create_feature(&mut db, "auth");
    assert!(result.is_err());
    assert!(result.unwrap_err().to_string().contains("already exists"));
}

#[test]
fn test_get_feature() {
    let mut db = Db::new();

    let created = create_feature(&mut db, "auth").unwrap();
    let retrieved = get_feature(&db, "auth").unwrap();
    assert_eq!(retrieved.id, created.id);
    assert_eq!(retrieved.name, "auth");
}

#[test]
fn test_get_nonexistent_feature() {
    let mut db = Db::new();

    let result = get_feature(&db, "nonexistent");
    assert!(result.is_err());
}

#[test]
fn test_list_features() {
    let mut db = Db::new();

    create_feature(&mut db, "auth").unwrap();
    create_feature(&mut db, "cache").unwrap();

    let features = list_features(&db).unwrap();
    assert_eq!(features.len(), 2);
}

#[test]
fn test_update_feature_status() {
    let mut db = Db::new();

    let feature = create_feature(&mut db, "auth").unwrap();
    update_feature_status(&mut db, &feature.id, "planned").unwrap();

    let updated = get_feature(&db, "auth").unwrap();
    assert_eq!(updated.status, "planned");
}

#[test]
fn test_feature_exists() {
    let mut db = Db::new();

    assert!(!feature_exists(&db, "auth").unwrap());
    create_feature(&mut db, "auth").unwrap();
    assert!(feature_exists(&db, "auth").unwrap());
}

#[test]
fn features_are_listed_oldest_first() {
    let mut db = Db::new();
    create_feature(&mut db, "zebra").unwrap();
    create_feature(&mut db, "apple").unwrap();
    let names: Vec<String> = list_features(&db).unwrap().iter().map(|f| f.name.clone()).collect();
    assert_eq!(names, vec!["zebra", "apple"]);
}

#[test]
fn documents_are_recorded() {
    let mut db = Db::new();
    let feature = create_feature(&mut db, "auth").unwrap();
    db.update_feature_spec_path(&feature.id, "/s", "now");
    db.update_feature_plan_path(&feature.id, "/p", "now");
    let stored = db.get_feature_by_id(&feature.id).unwrap();
    assert_eq!(stored.spec_path.as_deref(), Some("/s"));
    assert_eq!(stored.plan_path.as_deref(), Some("/p"));
}

#[test]
fn unknown_features_and_statuses_are_refused() {
    let mut db = Db::new();
    let feature = create_feature(&mut db, "auth").unwrap();
    assert!(update_feature_status(&mut db, &feature.id, "odd").is_err());
    assert!(update_feature_status(&mut db, "f-none", "ready").is_err());
    assert_eq!(get_feature(&db, "auth").unwrap().status, "draft");
}

#[test]
fn a_feature_without_tasks_can_be_deleted() {
    let mut db = Db::new();
    let feature = create_feature(&mut db, "auth").unwrap();
    create_feature(&mut db, "cache").unwrap();
    db.delete_feature(&feature.id).unwrap();
    assert!(!db.feature_exists("auth"));
    assert!(db.feature_exists("cache"));
}
