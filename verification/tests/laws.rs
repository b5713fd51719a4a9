//! What holds of the library as a whole, on concrete values.

use ralph::acp::markdown::format_inline_markdown;
use ralph::acp::sigils::{extract_sigils, parse_next_model_hint};
use ralph::acp::summary::{format_tool_detail_lines, truncate_to_line, Field};
use ralph::acp::tools::{OutputBuffer, MAX_BUF_SIZE};
use ralph::acp::types::{KnowledgeSigil, StopReason, StreamingResult};
use ralph::commands::run::end_run;
use ralph::config::{generate_agent_id, generate_run_id, ModelStrategy};
use ralph::dag::ids::{generate_feature_id, generate_task_id, id_from_digest};
use ralph::dag::model::{Db, JournalEntry, Task};
use ralph::interrupt::append_feedback_to_description;
use ralph::journal::{files_column, files_from_column, render_journal_context, JOURNAL_BUDGET_CHARS};
use ralph::knowledge::dedup::{merge_tags, write_knowledge_entry};
use ralph::knowledge::entry::{parse_knowledge_frontmatter, KnowledgeFile};
use ralph::knowledge::graph::graph_from;
use ralph::knowledge::slug::slugify_title;
use ralph::project::updated_gitignore;
use ralph::run_loop::settle::{ends_run, read_answer};
use ralph::strategy::{level_to_model, model_to_level};
use sha2::Digest;

const NOW: &str = "2024-01-01T00:00:00Z";

fn add(db: &mut Db, id: &str, parent: Option<&str>) {
    db.create_task(id, None, parent, 0, &vec![id.to_string()], NOW).unwrap();
}

fn status(db: &Db, id: &str) -> String {
    db.get_task(id).unwrap().status
}

fn finish(db: &mut Db, id: &str) {
    db.claim_task(id, "agent-1", NOW).unwrap();
    db.complete_task(id, NOW).unwrap();
}

fn strings(v: &[&str]) -> Vec<String> {
    v.iter().map(|s| s.to_string()).collect()
}

#[test]
fn done_is_final() {
    let mut db = Db::new();
    add(&mut db, "t-a", None);
    finish(&mut db, "t-a");
    for s in ["pending", "in_progress", "blocked", "failed", "done"] {
        assert!(db.set_task_status("t-a", s, NOW).is_err());
    }
    let e = db.set_task_status("t-a", "pending", NOW).unwrap_err();
    assert_eq!(e.message(), "Invalid status transition from 'done' to 'pending'");
}

#[test]
fn a_status_takes_hold_and_touches_nothing_else() {
    let mut db = Db::new();
    add(&mut db, "t-a", None);
    add(&mut db, "t-b", None);
    let before = db.get_task("t-a").unwrap();
    db.set_task_status("t-a", "in_progress", "2024-01-02T00:00:00Z").unwrap();
    let after = db.get_task("t-a").unwrap();
    assert_eq!(after.status, "in_progress");
    assert_eq!(after.updated_at, "2024-01-02T00:00:00Z");
    assert_eq!((after.title, after.created_at), (before.title, before.created_at));
    assert_eq!(status(&db, "t-b"), "pending");
}

#[test]
fn the_last_child_completes_its_parent() {
    let mut db = Db::new();
    add(&mut db, "t-p", None);
    add(&mut db, "t-a", Some("t-p"));
    add(&mut db, "t-b", Some("t-p"));
    finish(&mut db, "t-a");
    assert_eq!(status(&db, "t-p"), "pending");
    finish(&mut db, "t-b");
    assert_eq!(status(&db, "t-p"), "done");
}

#[test]
fn completion_unblocks_what_it_alone_held_up() {
    let mut db = Db::new();
    for id in ["t-a", "t-b", "t-c", "t-d"] {
        add(&mut db, id, None);
    }
    db.add_dependency("t-a", "t-c").unwrap();
    db.add_dependency("t-a", "t-d").unwrap();
    db.add_dependency("t-b", "t-d").unwrap();
    db.set_task_status("t-c", "blocked", NOW).unwrap();
    db.set_task_status("t-d", "blocked", NOW).unwrap();
    finish(&mut db, "t-a");
    assert_eq!((status(&db, "t-c").as_str(), status(&db, "t-d").as_str()), ("pending", "blocked"));
}

#[test]
fn failure_fails_every_ancestor() {
    let mut db = Db::new();
    add(&mut db, "t-r", None);
    add(&mut db, "t-p", Some("t-r"));
    add(&mut db, "t-a", Some("t-p"));
    db.claim_task("t-a", "agent-1", NOW).unwrap();
    db.fail_task("t-a", "broken", NOW, NOW).unwrap();
    assert_eq!((status(&db, "t-p").as_str(), status(&db, "t-r").as_str()), ("failed", "failed"));
}

#[test]
fn removing_a_dependency_undoes_adding_it() {
    let mut db = Db::new();
    for id in ["t-a", "t-b", "t-c"] {
        add(&mut db, id, None);
    }
    db.add_dependency("t-a", "t-b").unwrap();
    db.add_dependency("t-b", "t-c").unwrap();
    assert!(db.add_dependency("t-c", "t-a").is_err());
    db.remove_dependency("t-b", "t-c");
    let pairs: Vec<(&str, &str)> =
        db.deps.iter().map(|d| (d.blocker.as_str(), d.blocked.as_str())).collect();
    assert_eq!(pairs, [("t-a", "t-b")]);
    assert!(db.add_dependency("t-c", "t-a").is_ok());
}

#[test]
fn a_deleted_task_leaves_nothing_hanging() {
    let mut db = Db::new();
    for (id, parent) in [("t-p", None), ("t-a", Some("t-p")), ("t-b", None)] {
        add(&mut db, id, parent);
    }
    db.add_dependency("t-b", "t-a").unwrap();
    db.add_log("t-a", "note", NOW).unwrap();
    db.delete_task("t-p").unwrap();
    assert_eq!(db.tasks.len(), 1);
    assert!(db.deps.is_empty() && db.logs.is_empty());
    assert!(db.get_task("t-a").is_err());
    assert!(db.is_wf());
}

#[test]
fn trees_list_parents_before_children() {
    let mut db = Db::new();
    for (id, parent) in
        [("t-r", None), ("t-b", Some("t-r")), ("t-x", None), ("t-a", Some("t-b")), ("t-c", Some("t-r"))]
    {
        add(&mut db, id, parent);
    }
    let ids: Vec<String> = db.get_task_tree("t-r").unwrap().into_iter().map(|t| t.id).collect();
    assert_eq!(ids.len(), 4);
    assert_eq!(ids[0], "t-r");
    let place = |id: &str| ids.iter().position(|x| x == id).unwrap();
    assert!(place("t-b") < place("t-a") && place("t-r") < place("t-c"));
}

#[test]
fn a_released_claim_leaves_the_task_as_it_was() {
    let mut db = Db::new();
    add(&mut db, "t-a", None);
    db.claim_task("t-a", "agent-1", NOW).unwrap();
    assert!(db.get_ready_tasks().is_empty());
    db.release_claim("t-a", NOW).unwrap();
    let t: Task = db.get_task("t-a").unwrap();
    assert_eq!((t.status.as_str(), t.claimed_by, t.retry_count), ("pending", None, 0));
    assert_eq!(db.get_ready_tasks().len(), 1);
}

#[test]
fn equal_tasks_are_listed_in_the_order_they_came() {
    let mut db = Db::new();
    for id in ["t-c", "t-a", "t-b"] {
        add(&mut db, id, None);
    }
    let ids: Vec<String> = db.get_all_tasks().into_iter().map(|t| t.id).collect();
    assert_eq!(ids, ["t-c", "t-a", "t-b"]);
}

#[test]
fn ids_have_their_formats() {
    for id in [generate_task_id(1, 2), generate_feature_id(1, 2)] {
        assert_eq!(id.len(), 8);
        assert!(id[2..].chars().all(|c| c.is_ascii_hexdigit() && !c.is_ascii_uppercase()));
    }
    assert_eq!(id_from_digest("t-", &vec![0xab, 0x01, 0xff, 0x77]), "t-ab01ff");
    assert_ne!(generate_task_id(1, 2), generate_task_id(1, 3));
    assert_ne!(generate_task_id(1, 2), generate_task_id(2, 2));
    assert_eq!(generate_agent_id(0xbeef), "agent-0000beef");
    assert_eq!(generate_run_id(0xbeef), "run-0000beef");
}

#[test]
fn the_digest_is_sha256() {
    let digest = sha2::Sha256::digest([0u8; 24]).to_vec();
    assert_eq!(generate_task_id(0, 0), id_from_digest("t-", &digest));
}

fn entry(run: &str, iteration: u32, notes: &str) -> JournalEntry {
    JournalEntry {
        id: 0,
        run_id: run.to_string(),
        iteration,
        task_id: None,
        feature_id: None,
        outcome: "done".to_string(),
        model: None,
        duration_secs: "1.0".to_string(),
        cost_usd: "0.0000".to_string(),
        files_modified: vec![],
        notes: Some(notes.to_string()),
        created_at: NOW.to_string(),
    }
}

#[test]
fn recent_entries_are_the_latest_of_the_run() {
    let mut db = Db::new();
    for (run, n) in [("r", 1), ("q", 9), ("r", 3), ("r", 2)] {
        db.insert_journal_entry(&entry(run, n, "x")).unwrap();
    }
    let got: Vec<u32> = db.query_journal_recent("r", 2).iter().map(|e| e.iteration).collect();
    assert_eq!(got, [2, 3]);
}

#[test]
fn the_journal_fits_its_budget() {
    let long = "n".repeat(5000);
    let all: Vec<JournalEntry> = (1..=4).map(|n| entry("r", n, &long)).collect();
    let text = render_journal_context(&all);
    assert!(text.contains("### Iteration 2") && !text.contains("### Iteration 3"));
    assert!(text.chars().count() <= JOURNAL_BUDGET_CHARS + 50);
}

#[test]
fn file_columns_read_back() {
    let files = strings(&["src/a.rs", "with \"quotes\"", "ü"]);
    let column = files_column(&files);
    assert_ne!(column, files.join(","));
    assert_eq!(files_from_column(Some(&column)), files);
    assert!(files_from_column(Some("no json")).is_empty());
    assert!(files_from_column(None).is_empty());
}

#[test]
fn initializing_twice_adds_one_entry() {
    let once = updated_gitignore(Some("target\n")).unwrap();
    assert!(once.contains(".ralph/progress.db"));
    assert_eq!(updated_gitignore(Some(&once)), None);
}

#[test]
fn levels_and_strategies_read_back() {
    for level in 0..3 {
        assert_eq!(model_to_level(&level_to_model(level)), level);
    }
    for s in ["fixed", "cost-optimized", "escalate", "plan-then-execute"] {
        assert_eq!(ModelStrategy::from_str(s).unwrap().name(), s);
    }
    assert_eq!(ModelStrategy::from_str("x").unwrap_err(), "invalid model strategy 'x'");
}

#[test]
fn buffers_filled_in_pieces_hold_the_end_of_the_whole() {
    let whole: Vec<u8> = (0..MAX_BUF_SIZE + 500).map(|i| (i % 251) as u8).collect();
    let mut b = OutputBuffer::new();
    for piece in whole.chunks(70_001) {
        b.push_bytes(&piece.to_vec());
    }
    assert_eq!(b.bytes, whole[500..].to_vec());
}

#[test]
fn sigils_read_back_trimmed() {
    let s = extract_sigils("text <task-done> t-1 </task-done> more <journal>\nnote\n</journal>");
    assert_eq!(s.task_done.as_deref(), Some("t-1"));
    assert_eq!(s.journal_notes.as_deref(), Some("note"));
    assert_eq!(parse_next_model_hint("<next-model>gpt</next-model>"), None);
}

#[test]
fn a_failure_sigil_ends_the_run_with_one() {
    let result = StreamingResult {
        full_text: "<task-done>t-1</task-done> <promise>FAILURE</promise>".to_string(),
        files_modified: vec![],
        duration_ms: 1,
        stop_reason: StopReason::EndTurn,
    };
    let outcome = ends_run(read_answer("t-1", &result).reaction).unwrap();
    assert_eq!(end_run(false, outcome).exit_code, 1);
}

#[test]
fn summaries_stay_short() {
    let cut = truncate_to_line(&"ä".repeat(200), 80);
    assert!(cut.chars().count() <= 83);
    let field = |key: &str| Field {
        key: key.to_string(),
        text: Some("v".to_string()),
        json: "\"v\"".to_string(),
    };
    let fields: Vec<Field> =
        ["command", "description", "file_path", "pattern", "path", "url"].iter().map(|k| field(k)).collect();
    for name in ["Bash", "Read", "Grep", "WebFetch", "Mystery"] {
        assert!(format_tool_detail_lines(name, &fields).len() <= 2);
    }
}

#[test]
fn text_without_marks_stays() {
    let line = "No marks [here] _at_ all: 2 + 2 = 4";
    assert_eq!(format_inline_markdown(line), line);
}

#[test]
fn merged_tags_lose_none() {
    let merged = merge_tags(&strings(&["a", "b"]), &strings(&["b", "c"]));
    assert_eq!(merged, ["a", "b", "c"]);
}

#[test]
fn links_run_both_ways() {
    let keys = strings(&["a", "b", "c"]);
    let targets = vec![strings(&["b", "ghost"]), strings(&["a", "c"]), vec![]];
    let g = graph_from(&keys, &targets);
    for x in ["a", "b", "c", "ghost"] {
        for y in ["a", "b", "c", "ghost"] {
            let out = g.outlinks(x).contains(&y.to_string());
            assert_eq!(out, g.backlinks(y).contains(&x.to_string()));
        }
    }
    assert_eq!(g.outlinks("a"), ["b"]);
}

#[test]
fn slugs_have_no_stray_hyphens() {
    for title in ["--A  b--", "a".repeat(79).as_str(), &format!("{} b", "a".repeat(79)), "Ünï çode"] {
        let slug = slugify_title(title);
        assert!(slug.chars().count() <= 80);
        assert!(!slug.starts_with('-') && !slug.ends_with('-') && !slug.contains("--"));
    }
    assert_eq!(slugify_title("Ünï çode"), "ünï-çode");
}

#[test]
fn written_entries_read_back() {
    let sigil = KnowledgeSigil {
        title: "Parsing".to_string(),
        tags: strings(&["parser", "rust"]),
        body: "Tokens first.\n\nThen trees.".to_string(),
    };
    let file = write_knowledge_entry("/kb", &vec![], &sigil, Some("login"), NOW).unwrap();
    assert_eq!(file.path, "/kb/parsing.md");
    let e = parse_knowledge_frontmatter(&file.content).unwrap();
    assert_eq!((e.title.as_str(), e.feature.as_deref()), ("Parsing", Some("login")));
    assert_eq!(e.tags, sigil.tags);
    assert_eq!(e.body, sigil.body);
    assert_eq!(e.created_at, NOW);
}

#[test]
fn feedback_stacks_behind_the_description() {
    let one = append_feedback_to_description("Do it", "first", 1);
    let two = append_feedback_to_description(&one, "second", 2);
    assert!(two.starts_with("Do it"));
    assert!(two.starts_with(&one));
    assert!(two.find("first").unwrap() < two.find("second").unwrap());
}

#[test]
fn a_deleted_feature_leaves_nothing() {
    let mut db = Db::new();
    db.create_feature("login", "f-1", NOW).unwrap();
    let ids = |id: &str| vec![id.to_string()];
    db.add_task("A", None, None, Some("f-1"), 0, 3, &ids("t-a"), NOW).unwrap();
    db.add_task("B", None, None, None, 0, 3, &ids("t-b"), NOW).unwrap();
    db.add_dependency("t-b", "t-a").unwrap();
    db.add_log("t-a", "note", NOW).unwrap();
    assert_eq!(db.delete_tasks_for_feature("f-1").unwrap(), 1);
    assert!(db.deps.is_empty() && db.logs.is_empty());
    assert_eq!(db.tasks.len(), 1);
    db.delete_feature("f-1").unwrap();
    assert!(db.is_wf());
}

#[test]
fn rows_that_break_a_constraint_are_refused() {
    let mut db = Db::new();
    add(&mut db, "t-a", None);
    let rows = |db: Db| {
        Db::from_rows(db.tasks, db.deps, db.logs, db.features, db.journal, db.last_entry)
    };
    let mut db = rows(db).unwrap();
    db.tasks[0].status = "lost".to_string();
    assert!(!db.is_wf());
    assert!(rows(db).is_none());
}

#[test]
fn a_new_task_is_ready_and_its_parent_no_more() {
    let mut db = Db::new();
    add(&mut db, "t-p", None);
    assert_eq!(db.get_ready_tasks()[0].id, "t-p");
    add(&mut db, "t-a", Some("t-p"));
    let ready: Vec<String> = db.get_ready_tasks().into_iter().map(|t| t.id).collect();
    assert_eq!(ready, ["t-a"]);
    assert_eq!(db.get_task("t-a").unwrap().parent_id.as_deref(), Some("t-p"));
    assert_eq!(db.get_task("t-p").unwrap().title, "t-p");
    db.claim_task("t-a", "agent-1", NOW).unwrap();
    db.fail_task("t-a", "broken", NOW, NOW).unwrap();
    add(&mut db, "t-b", Some("t-p"));
    assert!(db.get_ready_tasks().is_empty());
}

#[test]
fn a_new_feature_is_found_by_name_and_id() {
    let mut db = Db::new();
    db.create_feature("one", "f-1", NOW).unwrap();
    db.create_feature("two", "f-2", NOW).unwrap();
    assert_eq!(db.get_feature("two").unwrap().id, "f-2");
    assert_eq!(db.get_feature_by_id("f-1").unwrap().name, "one");
    assert_eq!(db.get_feature("two").unwrap().status, "draft");
    let e = db.create_feature("two", "f-3", NOW).unwrap_err();
    assert_eq!(e.message(), "Feature 'two' already exists");
}

#[test]
fn rows_with_a_broken_journal_are_refused() {
    let mut db = Db::new();
    db.insert_journal_entry(&entry("r", 1, "x")).unwrap();
    db.insert_journal_entry(&entry("r", 2, "y")).unwrap();
    assert!(db.is_wf());
    db.last_entry = 1;
    assert!(!db.is_wf());
    db.last_entry = 2;
    db.journal[0].task_id = Some("t-a".to_string());
    assert!(!db.is_wf());
    db.journal[0].task_id = None;
    db.journal[1].id = 1;
    assert!(!db.is_wf());
}

#[test]
fn what_the_journal_names_is_not_deleted() {
    let mut db = Db::new();
    add(&mut db, "t-p", None);
    add(&mut db, "t-a", Some("t-p"));
    add(&mut db, "t-b", Some("t-p"));
    add(&mut db, "t-c", Some("t-p"));
    add(&mut db, "t-d", None);
    db.add_dependency("t-d", "t-b").unwrap();
    db.add_log("t-b", "note", NOW).unwrap();
    db.add_log("t-c", "note", NOW).unwrap();
    let mut e = entry("r", 1, "x");
    e.task_id = Some("t-b".to_string());
    db.insert_journal_entry(&e).unwrap();
    let refused = db.delete_task("t-p").unwrap_err();
    assert_eq!(refused.message(), "FOREIGN KEY constraint failed");
    let left: Vec<&str> = db.tasks.iter().map(|t| t.id.as_str()).collect();
    assert_eq!(left, ["t-p", "t-b", "t-c", "t-d"]);
    assert!(db.deps.is_empty());
    assert_eq!(db.logs.len(), 1);
    assert_eq!(db.logs[0].task_id, "t-c");
    assert!(db.is_wf());
}

#[test]
fn a_feature_that_the_journal_names_stays() {
    let mut db = Db::new();
    db.create_feature("login", "f-1", NOW).unwrap();
    let ids = vec!["t-a".to_string()];
    db.add_task("A", None, None, Some("f-1"), 0, 3, &ids, NOW).unwrap();
    let mut e = entry("r", 1, "x");
    e.task_id = Some("t-a".to_string());
    db.insert_journal_entry(&e).unwrap();
    let refused = db.delete_tasks_for_feature("f-1").unwrap_err();
    assert_eq!(refused.message(), "FOREIGN KEY constraint failed");
    assert_eq!(db.tasks.len(), 1);
    let mut db = Db::new();
    db.create_feature("login", "f-1", NOW).unwrap();
    let mut e = entry("r", 1, "x");
    e.feature_id = Some("f-1".to_string());
    db.insert_journal_entry(&e).unwrap();
    assert_eq!(db.delete_tasks_for_feature("f-1").unwrap(), 0);
    assert!(db.delete_feature("f-1").is_err());
    assert_eq!(db.features.len(), 1);
}

#[test]
fn each_refusal_has_its_words() {
    let mut db = Db::new();
    add(&mut db, "t-a", None);
    db.create_feature("login", "f-1", NOW).unwrap();
    assert_eq!(db.get_task("t-x").unwrap_err().message(), "Failed to get task 't-x'");
    assert_eq!(db.get_task_tree("t-x").unwrap_err().message(), "Failed to get task 't-x'");
    assert_eq!(db.delete_task("t-x").unwrap_err().message(), "Task 't-x' does not exist");
    assert_eq!(db.add_log("t-x", "m", NOW).unwrap_err().message(), "Task 't-x' does not exist");
    let e = db.claim_task("t-x", "agent-1", NOW).unwrap_err();
    assert_eq!(e.message(), "Failed to get current task status");
    let e = db.release_claim("t-x", NOW).unwrap_err();
    assert_eq!(e.message(), "Query returned no rows");
    assert_eq!(db.get_task_status("t-x").unwrap_err().message(), "Failed to get task status");
    let e = db.compute_parent_status("t-x").unwrap_err();
    assert_eq!(e.message(), "Failed to get parent status");
    let e = db.get_feature_by_id("f-x").unwrap_err();
    assert_eq!(e.message(), "Feature with id 'f-x' not found");
    assert_eq!(db.get_feature("x").unwrap_err().message(), "Feature 'x' not found");
    let e = db.update_feature_status("f-x", "done", NOW).unwrap_err();
    assert_eq!(e.message(), "Feature 'f-x' not found");
    let e = db.update_feature_status("f-1", "odd", NOW).unwrap_err();
    assert_eq!(
        e.message(),
        "CHECK constraint failed: status IN ('draft','planned','ready','running','done','failed')"
    );
    let e = db.create_feature("other", "f-1", NOW).unwrap_err();
    assert_eq!(e.message(), "Failed to create feature");
    let e = db.add_dependency("t-a", "t-x").unwrap_err();
    assert_eq!(e.message(), "Failed to add dependency t-a -> t-x");
}

#[test]
fn a_slug_is_its_own_slug() {
    let long = "Word ".repeat(40);
    for title in ["Hello, World!", "--A--b__C 9", long.as_str(), "x"] {
        let slug = slugify_title(title);
        assert!(!slug.is_empty() && slug.len() <= 80);
        assert!(!slug.starts_with('-') && !slug.ends_with('-') && !slug.contains("--"));
        assert_eq!(slugify_title(&slug), slug);
    }
    assert_eq!(slugify_title("--A--b__C 9"), "a-b-c-9");
    assert_eq!(slugify_title("?!-- --"), "");
}

#[test]
fn a_written_entry_is_read_back() {
    let dir = "/p/.ralph/knowledge";
    let sigil = |title: &str, tags: &[&str], body: &str| KnowledgeSigil {
        title: title.to_string(),
        tags: strings(tags),
        body: body.to_string(),
    };
    let body = "  one\n---\ntwo  ";
    let first = sigil("Use the Arena", &["memory", "rust"], body);
    let file = write_knowledge_entry(dir, &vec![], &first, Some("login"), NOW).unwrap();
    assert_eq!(file.path, "/p/.ralph/knowledge/use-the-arena.md");
    let read = parse_knowledge_frontmatter(&file.content).unwrap();
    assert_eq!(read.title, "Use the Arena");
    assert_eq!(read.body, "one\n---\ntwo");
    assert_eq!(read.feature.as_deref(), Some("login"));
    let second = sigil("USE THE ARENA", &["speed"], &"w ".repeat(600));
    let there = vec![KnowledgeFile {
        name: "use-the-arena.md".to_string(),
        path: file.path.clone(),
        content: file.content,
    }];
    let again = write_knowledge_entry(dir, &there, &second, None, NOW).unwrap();
    assert_eq!(again.path, file.path);
    let read = parse_knowledge_frontmatter(&again.content).unwrap();
    assert_eq!(read.title, "USE THE ARENA");
    assert_eq!(read.tags, ["memory", "rust", "speed"]);
    assert!(read.body.ends_with("w [truncated]"));
    assert_eq!(read.body.split_whitespace().count(), 501);
}

#[test]
fn brackets_in_the_middle_of_a_list_of_tags_read_back() {
    let held = |tags: &str| {
        vec![KnowledgeFile {
            name: "arena.md".to_string(),
            path: "/kb/arena.md".to_string(),
            content: format!("---\ntitle: \"Arena\"\ntags: {tags}\n---\n\nOld."),
        }]
    };
    let sigil = KnowledgeSigil {
        title: "arena".to_string(),
        tags: strings(&["Rust"]),
        body: "New.".to_string(),
    };
    let read = |tags: &str| {
        let file = write_knowledge_entry("/kb", &held(tags), &sigil, None, NOW).unwrap();
        assert_eq!(file.path, "/kb/arena.md");
        let e = parse_knowledge_frontmatter(&file.content).unwrap();
        assert_eq!((e.title.as_str(), e.body.as_str()), ("arena", "New."));
        e.tags
    };
    assert_eq!(read("[a, [b], c]"), ["a", "[b]", "c", "rust"]);
    assert_eq!(read("[ [a], b]"), ["a]", "b", "rust"]);
    assert_eq!(read("[ [[, b]"), ["b", "rust"]);
}
