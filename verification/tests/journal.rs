//! The run journal.

use ralph::dag::model::{Db, JournalEntry};
use ralph::journal::{
    build_fts_query, files_column, files_from_column, render_journal_context, render_single_entry,
    search_query, JOURNAL_BUDGET_CHARS,
};

fn make_entry(run_id: &str, iteration: u32, outcome: &str) -> JournalEntry {
    JournalEntry {
        id: 0,
        run_id: run_id.to_string(),
        iteration,
        task_id: None,
        feature_id: None,
        outcome: outcome.to_string(),
        model: Some("sonnet".to_string()),
        duration_secs: format!("{:.1}", 12.5),
        cost_usd: format!("{:.4}", 0.0042),
        files_modified: vec!["src/main.rs".to_string(), "src/lib.rs".to_string()],
        notes: Some(format!("Notes for iteration {} in run {}", iteration, run_id)),
        created_at: format!("2026-02-18T10:{:02}:00Z", iteration),
    }
}

#[test]
fn test_insert_journal_entry() {
    let mut db = Db::new();

    let entry = make_entry("run-aabbccdd", 1, "done");
    let id = db.insert_journal_entry(&entry).unwrap();
    assert!(id > 0, "insert should return a positive rowid");

    // Retrieve via query_journal_recent
    let results = db.query_journal_recent("run-aabbccdd", 10);
    assert_eq!(results.len(), 1);

    let r = &results[0];
    assert_eq!(r.run_id, "run-aabbccdd");
    assert_eq!(r.iteration, 1);
    assert!(r.task_id.is_none());
    assert!(r.feature_id.is_none());
    assert_eq!(r.outcome, "done");
    assert_eq!(r.model.as_deref(), Some("sonnet"));
    assert!((r.duration_secs.parse::<f64>().unwrap() - 12.5).abs() < f64::EPSILON);
    assert!((r.cost_usd.parse::<f64>().unwrap() - 0.0042).abs() < 1e-9);
    assert_eq!(r.files_modified, vec!["src/main.rs", "src/lib.rs"]);
    assert_eq!(r.notes.as_deref(), Some("Notes for iteration 1 in run run-aabbccdd"));
    assert_eq!(r.created_at, "2026-02-18T10:01:00Z");
}

#[test]
fn test_insert_journal_entry_no_notes() {
    let mut db = Db::new();

    let mut entry = make_entry("run-11223344", 1, "failed");
    entry.notes = None;

    // Should not error even with NULL notes (FTS trigger handles NULL gracefully)
    let id = db.insert_journal_entry(&entry).unwrap();
    assert!(id > 0);

    let results = db.query_journal_recent("run-11223344", 10);
    assert_eq!(results.len(), 1);
    assert!(results[0].notes.is_none());
}

#[test]
fn test_query_journal_recent() {
    let mut db = Db::new();

    // Insert 6 entries for run-A and 4 for run-B
    for i in 1..=6 {
        let entry = make_entry("run-A", i, "done");
        db.insert_journal_entry(&entry).unwrap();
    }
    for i in 1..=4 {
        let entry = make_entry("run-B", i, "done");
        db.insert_journal_entry(&entry).unwrap();
    }

    // Query run-A with limit 5 → should get 5 entries in chronological order
    let results_a = db.query_journal_recent("run-A", 5);
    assert_eq!(results_a.len(), 5, "run-A should return 5 (limit)");
    // Chronological order: iterations 2, 3, 4, 5, 6 (most recent 5 reversed)
    assert_eq!(results_a[0].iteration, 2);
    assert_eq!(results_a[4].iteration, 6);

    // Query run-B with limit 10 → should get 4 entries (all of them)
    let results_b = db.query_journal_recent("run-B", 10);
    assert_eq!(results_b.len(), 4, "run-B should return all 4 entries");
    // Chronological order
    assert_eq!(results_b[0].iteration, 1);
    assert_eq!(results_b[3].iteration, 4);

    // Verify only run-A entries come back for run-A
    for r in &results_a {
        assert_eq!(r.run_id, "run-A");
    }
    // Verify only run-B entries come back for run-B
    for r in &results_b {
        assert_eq!(r.run_id, "run-B");
    }
}

#[test]
fn test_build_fts_query_basic() {
    let q = build_fts_query("implement the parser for JSON");
    // Words with length > 2 are kept: "implement" (9), "the" (3), "parser" (6), "for" (3), "JSON" (4)
    assert!(q.contains("implement"));
    assert!(q.contains("parser"));
    assert!(q.contains("JSON"));
    // The filter is `w.len() > 2` so words with 3+ chars pass through
    // Very short words (1-2 chars) would be filtered, e.g., "a" or "is"
    let q2 = build_fts_query("a is implement");
    assert!(!q2.contains(" a ") && !q2.starts_with("a "));
    assert!(!q2.contains(" is ") && !q2.contains("is OR"));
    assert!(q2.contains("implement"));
}

#[test]
fn test_build_fts_query_empty() {
    assert_eq!(build_fts_query(""), "");
    assert_eq!(build_fts_query("  "), "");
    assert_eq!(build_fts_query("a b"), ""); // all words <= 2 chars
}

#[test]
fn test_render_journal_context_format() {
    let entries = vec![
        JournalEntry {
            id: 1,
            run_id: "run-test".to_string(),
            iteration: 1,
            task_id: Some("t-abc123".to_string()),
            feature_id: None,
            outcome: "done".to_string(),
            model: Some("sonnet".to_string()),
            duration_secs: format!("{:.1}", 30.0),
            cost_usd: format!("{:.4}", 0.005),
            files_modified: vec!["src/main.rs".to_string()],
            notes: Some("Fixed the bug in parser".to_string()),
            created_at: "2026-02-18T10:00:00Z".to_string(),
        },
    ];

    let rendered = render_journal_context(&entries);
    assert!(rendered.contains("## Run Journal"));
    assert!(rendered.contains("### Iteration 1 [done]"));
    assert!(rendered.contains("**Task**: t-abc123"));
    assert!(rendered.contains("**Model**: sonnet"));
    assert!(rendered.contains("30.0s"));
    assert!(rendered.contains("$0.0050"));
    assert!(rendered.contains("src/main.rs"));
    assert!(rendered.contains("Fixed the bug in parser"));
}

#[test]
fn test_render_journal_context_empty() {
    let rendered = render_journal_context(&vec![]);
    assert_eq!(rendered, "");
}

#[test]
fn test_render_journal_context_no_notes() {
    let entries = vec![JournalEntry {
        id: 1,
        run_id: "run-test".to_string(),
        iteration: 2,
        task_id: None,
        feature_id: None,
        outcome: "failed".to_string(),
        model: None,
        duration_secs: format!("{:.1}", 5.0),
        cost_usd: format!("{:.4}", 0.001),
        files_modified: vec![],
        notes: None,
        created_at: "2026-02-18T10:00:00Z".to_string(),
    }];

    let rendered = render_journal_context(&entries);
    assert!(rendered.contains("No notes recorded"));
    assert!(rendered.contains("none")); // task_id = none
    assert!(rendered.contains("unknown")); // model = unknown
    assert!(rendered.contains("none")); // files = none
}

#[test]
fn an_entry_is_rendered_line_by_line() {
    let mut entry = make_entry("run-x", 4, "retried");
    entry.task_id = Some("t-1".to_string());
    entry.notes = Some("Tried again".to_string());
    assert_eq!(
        render_single_entry(&entry),
        "### Iteration 4 [retried]\n- **Task**: t-1\n- **Model**: sonnet\n\
         - **Duration**: 12.5s | **Cost**: $0.0042\n- **Files**: src/main.rs, src/lib.rs\n\
         - **Notes**: Tried again\n"
    );
}

#[test]
fn the_rendered_journal_keeps_to_its_budget() {
    let mut long = make_entry("run-x", 1, "done");
    long.notes = Some("n".repeat(JOURNAL_BUDGET_CHARS - 500));
    let mut second = make_entry("run-x", 2, "done");
    second.notes = Some("m".repeat(1000));
    let third = make_entry("run-x", 3, "done");
    let rendered = render_journal_context(&vec![long, second, third]);
    assert!(rendered.contains("### Iteration 1 "));
    assert!(!rendered.contains("### Iteration 2 "));
    assert!(!rendered.contains("### Iteration 3 "));
}

#[test]
fn modified_files_are_read_back_from_their_column() {
    let files = vec!["a \"b\".rs".to_string(), "c\\d".to_string()];
    let column = files_column(&files);
    assert_eq!(column, r#"["a \"b\".rs","c\\d"]"#);
    assert_eq!(files_from_column(Some(&column)), files);
    assert!(files_from_column(Some("not json")).is_empty());
    assert!(files_from_column(Some("[1, 2]")).is_empty());
    assert!(files_from_column(None).is_empty());
}

#[test]
fn searches_take_the_first_ten_long_words() {
    let query = search_query("aaa bbb ccc ddd eee fff", "ggg hhh iii jjj kkk").unwrap();
    assert_eq!(query, "aaa OR bbb OR ccc OR ddd OR eee OR fff OR ggg OR hhh OR iii OR jjj");
    assert!(search_query("a", "is").is_none());
}

#[test]
fn journal_ids_grow_by_one() {
    let mut db = Db::new();
    assert_eq!(db.insert_journal_entry(&make_entry("run-x", 1, "done")).unwrap(), 1);
    assert_eq!(db.insert_journal_entry(&make_entry("run-y", 1, "done")).unwrap(), 2);
    assert_eq!(db.last_entry, 2);
}

#[test]
fn entries_name_tasks_and_features_that_exist() {
    let mut db = Db::new();
    let now = "2024-01-01T00:00:00Z";
    db.create_feature("login", "f-1", now).unwrap();
    db.create_task("A", None, None, 0, &vec!["t-a".to_string()], now).unwrap();
    let mut entry = make_entry("run-x", 1, "done");
    entry.task_id = Some("t-b".to_string());
    let e = db.insert_journal_entry(&entry).unwrap_err();
    assert_eq!(e.message(), "FOREIGN KEY constraint failed");
    entry.task_id = Some("t-a".to_string());
    entry.feature_id = Some("f-2".to_string());
    assert!(db.insert_journal_entry(&entry).is_err());
    assert!(db.journal.is_empty() && db.last_entry == 0);
    entry.feature_id = Some("f-1".to_string());
    assert_eq!(db.insert_journal_entry(&entry).unwrap(), 1);
    assert_eq!(db.journal[0].task_id.as_deref(), Some("t-a"));
    assert!(db.is_wf());
}

#[test]
fn an_entry_id_is_not_given_again() {
    let mut db = Db::new();
    let now = "2024-01-01T00:00:00Z";
    db.create_feature("login", "f-1", now).unwrap();
    let ids = vec!["t-a".to_string()];
    db.add_task("A", None, None, Some("f-1"), 0, 3, &ids, now).unwrap();
    let mut entry = make_entry("run-x", 1, "done");
    entry.task_id = Some("t-a".to_string());
    entry.feature_id = Some("f-1".to_string());
    assert_eq!(db.insert_journal_entry(&entry).unwrap(), 1);
    assert_eq!(db.delete_tasks_for_feature("f-1").unwrap(), 1);
    assert!(db.journal.is_empty());
    assert_eq!(db.insert_journal_entry(&make_entry("run-x", 2, "done")).unwrap(), 2);
    db.last_entry = i64::MAX;
    let e = db.insert_journal_entry(&make_entry("run-x", 3, "done")).unwrap_err();
    assert_eq!(e.message(), "database or disk is full");
}

#[test]
fn the_latest_entries_come_before_what_a_search_found() {
    let mut db = Db::new();
    for i in 1..=3 {
        db.insert_journal_entry(&make_entry("run-now", i, "done")).unwrap();
    }
    let found = vec![make_entry("run-old", 9, "done")];
    let shown = db.select_journal_entries("run-now", 2, &found);
    let seen: Vec<(String, u32)> = shown.iter().map(|e| (e.run_id.clone(), e.iteration)).collect();
    assert_eq!(
        seen,
        vec![
            ("run-now".to_string(), 2),
            ("run-now".to_string(), 3),
            ("run-old".to_string(), 9),
        ]
    );
}
