//! What the commands show and decide.

use ralph::commands::features::{
    ask_delete_feature, deleted_notice, files_notice, ready_notice, require_document, root_notice,
    saved_notice, start_phase, start_tasks,
};
use ralph::commands::lines::colorize_status;
use ralph::commands::run::{agent_command, end_auth, end_run, feature_model, start_auth};
use ralph::commands::tasks::{
    ask, confirm_if_ui_active, must_ask, report_change, show_listing, Question, TaskChange,
};
use ralph::commands::tree::{print_task_tree, render_task_tree_lines};
use ralph::config::RunTarget;
use ralph::dag::crud::TaskUpdate;
use ralph::dag::ids::{generate_feature_id, generate_task_id};
use ralph::dag::model::{Db, Task};
use ralph::output::effect::{Effect, UiEvent};
use ralph::output::style::{Hue, Span, Style};
use ralph::review::DocumentKind;
use ralph::run_loop::start::Outcome;

const NOW: &str = "2024-01-01T00:00:00Z";
const LATER: &str = "2024-01-01T00:00:05Z";

fn flat(spans: &[Span]) -> String {
    spans.iter().map(|s| s.text.as_str()).collect()
}

/// Effects as text, each with where it goes.
fn shown(effects: &[Effect]) -> Vec<String> {
    effects
        .iter()
        .map(|e| match e {
            Effect::Print(s) => format!("print: {}", flat(s)),
            Effect::Line(s) => format!("out: {}", flat(s)),
            Effect::ErrLine(s) => format!("err: {}", flat(s)),
            Effect::Flush => "flush".to_string(),
            Effect::Speak(s) => format!("say: {}", s),
            Effect::Ui(UiEvent::StatusLine(s)) => format!("status: {}", s),
            Effect::Ui(u) => format!("ui: {:?}", u),
            Effect::Explore(t, l) => format!("explore: {}: {}", t, l.join("|")),
        })
        .collect()
}

fn ids(db: &Db) -> Vec<String> {
    (0..10).map(|k| generate_task_id(7, (db.tasks.len() * 10 + k) as u64)).collect()
}

fn add(db: &mut Db, title: &str, parent: Option<&str>, feature: Option<&str>) -> Task {
    let ids = ids(db);
    let now = format!("2024-01-01T00:01:{:02}Z", db.tasks.len());
    db.add_task(title, Some("What to do"), parent, feature, 0, 3, &ids, &now).unwrap()
}

fn feature(db: &mut Db, name: &str) -> String {
    let id = generate_feature_id(3, db.features.len() as u64);
    db.create_feature(name, &id, NOW).unwrap().id
}

#[test]
fn listing_picks_ready_then_all_then_feature() {
    let mut db = Db::new();
    let f = feature(&mut db, "login");
    let alone = add(&mut db, "Alone", None, None);
    let of_feature = add(&mut db, "Form", None, Some(&f));
    assert_eq!(of_feature.feature_id.as_deref(), Some(f.as_str()));
    db.change_task(&alone.id, TaskChange::Block(of_feature.id.clone()), NOW, LATER).unwrap();

    let titles = |v: Vec<Task>| v.into_iter().map(|t| t.title).collect::<Vec<String>>();
    let name = Some("login".to_string());
    assert_eq!(titles(db.tasks_to_list(true, true, &name, &None).unwrap()), ["Alone"]);
    assert_eq!(titles(db.tasks_to_list(false, true, &name, &None).unwrap()), ["Alone", "Form"]);
    assert_eq!(titles(db.tasks_to_list(false, false, &name, &None).unwrap()), ["Form"]);
    assert_eq!(titles(db.tasks_to_list(false, false, &None, &None).unwrap()), ["Alone"]);

    let blocked = Some("blocked".to_string());
    assert!(db.tasks_to_list(false, true, &None, &blocked).unwrap().is_empty());
    let pending = Some("pending".to_string());
    assert_eq!(db.tasks_to_list(false, true, &None, &pending).unwrap().len(), 2);

    let unknown = Some("logout".to_string());
    let refused = db.tasks_to_list(false, false, &unknown, &None).unwrap_err();
    assert_eq!(refused.message(), "Feature 'logout' not found");
}

#[test]
fn add_task_refuses_unknown_ids() {
    let mut db = Db::new();
    let ids = ids(&db);
    let e = db.add_task("T", None, None, Some("f-000000"), 0, 3, &ids, NOW).unwrap_err();
    assert_eq!(e.message(), "Failed to generate unique task ID after 10 attempts");
    let e = db.add_task("T", None, Some("t-000000"), None, 0, 3, &ids, NOW).unwrap_err();
    assert_eq!(e.message(), "Parent task 't-000000' does not exist");
    assert!(db.tasks.is_empty());
}

#[test]
fn a_new_task_is_pending_with_its_fields() {
    let mut db = Db::new();
    let ids = ids(&db);
    let t = db.add_task("T", None, None, None, 4, 7, &ids, NOW).unwrap();
    assert_eq!(t.id, ids[0]);
    assert_eq!((t.priority, t.max_retries, t.retry_count), (4, 7, 0));
    assert_eq!((t.status.as_str(), t.task_type.as_str()), ("pending", "standalone"));
    assert_eq!(t.description, "");
}

#[test]
fn changes_of_a_task() {
    let mut db = Db::new();
    let t = add(&mut db, "Old", None, None);
    let update = TaskUpdate {
        title: Some("New".to_string()),
        description: None,
        priority: Some(9),
    };
    db.change_task(&t.id, TaskChange::Update(update), NOW, LATER).unwrap();
    let now = db.get_task(&t.id).unwrap();
    assert_eq!((now.title.as_str(), now.priority), ("New", 9));
    assert_eq!(now.description, "What to do");

    db.change_task(&t.id, TaskChange::Log("note".to_string()), NOW, LATER).unwrap();
    db.change_task(&t.id, TaskChange::Fail(None), NOW, LATER).unwrap();
    assert_eq!(db.get_task(&t.id).unwrap().status, "failed");
    db.change_task(&t.id, TaskChange::Reset, NOW, LATER).unwrap();
    assert_eq!(db.get_task(&t.id).unwrap().status, "pending");
    db.change_task(&t.id, TaskChange::Fail(Some("broken".to_string())), NOW, LATER).unwrap();
    db.change_task(&t.id, TaskChange::Done, NOW, LATER).unwrap();
    assert_eq!(db.get_task(&t.id).unwrap().status, "done");
    let logged: Vec<String> = db.get_task_logs(&t.id).into_iter().map(|l| l.message).collect();
    assert_eq!(logged, ["note", "Manually marked as failed", "broken"]);

    db.change_task(&t.id, TaskChange::Delete, NOW, LATER).unwrap();
    let gone = db.change_task(&t.id, TaskChange::Done, NOW, LATER).unwrap_err();
    assert_eq!(gone.message(), format!("Task '{}' does not exist", t.id));
}

#[test]
fn dependencies_are_refused_where_they_do_not_hold() {
    let mut db = Db::new();
    let a = add(&mut db, "A", None, None).id;
    let b = add(&mut db, "B", None, None).id;
    let block = |db: &mut Db, x: &str, y: &str| {
        db.change_task(x, TaskChange::Block(y.to_string()), NOW, LATER)
    };
    block(&mut db, &a, &b).unwrap();
    let cycle = block(&mut db, &b, &a).unwrap_err().message();
    assert_eq!(cycle, format!("Adding dependency {} -> {} would create a cycle", b, a));
    assert!(block(&mut db, &a, &b).is_err());
    assert!(block(&mut db, &a, "t-000000").is_err());
    let kept = db.change_task(&a, TaskChange::Delete, NOW, LATER).unwrap_err().message();
    assert_eq!(kept, format!("Cannot delete task '{}': other tasks depend on it", a));
    db.change_task(&a, TaskChange::Unblock(b.clone()), NOW, LATER).unwrap();
    assert!(db.deps.is_empty());
    block(&mut db, &b, &a).unwrap();
}

#[test]
fn changes_are_reported() {
    let report = |c: TaskChange| shown(&report_change(false, "t-1", &c));
    assert_eq!(report(TaskChange::Delete), ["out: Deleted task t-1"]);
    assert_eq!(
        report(TaskChange::Fail(None)),
        ["out: Marked t-1 as failed", "out: Reason: Manually marked as failed"]
    );
    assert_eq!(
        report(TaskChange::Block("t-2".to_string())),
        ["out: Added dependency: t-1 must complete before t-2"]
    );
    assert_eq!(
        shown(&report_change(true, "t-1", &TaskChange::Reset)),
        ["explore: Task Updated: Reset t-1 to pending"]
    );
}

#[test]
fn questions_are_asked_only_in_the_dashboard() {
    assert_eq!(
        ask(Question::Fail, "t-1"),
        ("Mark Task Failed".to_string(), "Mark task 't-1' as failed?".to_string())
    );
    assert_eq!(ask(Question::Reset, "t-1").1, "Reset task 't-1' to pending?");
    assert!(must_ask(true, false) && !must_ask(true, true) && !must_ask(false, false));
    assert!(confirm_if_ui_active(false, false, None));
    assert!(confirm_if_ui_active(true, true, None));
    assert!(!confirm_if_ui_active(true, false, None));
    assert!(!confirm_if_ui_active(true, false, Some(false)));
    assert!(confirm_if_ui_active(true, false, Some(true)));
}

#[test]
fn listings_and_details() {
    let mut db = Db::new();
    let f = feature(&mut db, "login");
    let a = add(&mut db, "A", None, Some(&f));
    let b = add(&mut db, "B", Some(&a.id), None);
    db.change_task(&a.id, TaskChange::Block(b.id.clone()), NOW, LATER).unwrap();
    assert_eq!(
        shown(&show_listing(false, true, &vec![])),
        ["out: No tasks for this feature."]
    );
    assert!(shown(&show_listing(true, true, &vec![])).is_empty());
    assert_eq!(
        shown(&show_listing(true, false, &db.get_all_tasks())),
        [format!("explore: Task Explorer:   {}  [pending]  A|  {}  [pending]  B", a.id, b.id)]
    );

    let lines = db.render_task_details_lines(&a);
    assert_eq!(lines[0], format!("{}  [pending]  A", a.id));
    assert!(lines.contains(&format!(
        "  feature:      login ({})",
        a.feature_id.clone().unwrap()
    )));
    assert!(lines.contains(&"  retries:      0/3".to_string()));
    assert!(lines.contains(&"  verification: none".to_string()));
    assert!(lines.contains(&"    What to do".to_string()));
    assert_eq!(lines[lines.len() - 2], "  Blocks:");
    assert_eq!(lines[lines.len() - 1], format!("    {}  [pending]  B", b.id));
    let lines = db.render_task_details_lines(&b);
    assert_eq!(lines[1], format!("  parent:       {}", a.id));

    assert_eq!(
        shown(&db.show_dependencies(false, &b.id)),
        ["out:   Blocked by:".to_string(), format!("out:     {}  [pending]  A", a.id)]
    );
    assert_eq!(
        shown(&db.show_dependencies(false, "t-000000")),
        ["out: No dependencies for t-000000"]
    );
    db.change_task(&a.id, TaskChange::Log("note".to_string()), NOW, LATER).unwrap();
    assert_eq!(
        shown(&db.show_log(false, &a.id)),
        [format!("out:   [{}]  note", NOW)]
    );
    assert_eq!(
        shown(&db.show_log(true, &b.id)),
        [format!("explore: Task Log: No log entries for {}", b.id)]
    );
}

#[test]
fn trees_are_drawn_with_branches() {
    let mut db = Db::new();
    let root = add(&mut db, "Root", None, None).id;
    let one = add(&mut db, "One", Some(&root), None).id;
    let two = add(&mut db, "Two", Some(&root), None).id;
    let deep = add(&mut db, "Deep", Some(&one), None).id;
    let tree = db.get_task_tree(&root).unwrap();
    assert_eq!(
        render_task_tree_lines(&tree, &root),
        [
            format!("{}  [pending]  Root", root),
            format!("├─ {}  [pending]  One", one),
            format!("│  └─ {}  [pending]  Deep", deep),
            format!("└─ {}  [pending]  Two", two),
        ]
    );
    assert_eq!(
        shown(&print_task_tree(&tree, &one)),
        [
            format!("out: {}  [pending]  One", one),
            format!("out: └─ {}  [pending]  Deep", deep),
        ]
    );
    assert!(render_task_tree_lines(&tree, "t-000000").is_empty());
}

#[test]
fn statuses_have_colours() {
    let style = |s: &str| colorize_status(s).style;
    assert!(matches!(style("pending"), Style::Color(Hue::Yellow)));
    assert!(matches!(style("in_progress"), Style::Color(Hue::Cyan)));
    assert!(matches!(style("done"), Style::Color(Hue::Green)));
    assert!(matches!(style("failed"), Style::Color(Hue::Red)));
    assert!(matches!(style("blocked"), Style::Dimmed));
    assert!(matches!(style("draft"), Style::Plain));
}

#[test]
fn targets_resolve_to_tasks_and_ready_features() {
    let mut db = Db::new();
    let id = feature(&mut db, "login");
    let t = add(&mut db, "A", None, None).id;
    assert!(matches!(db.resolve_target(&t), Ok(RunTarget::Task(x)) if x == t));
    assert_eq!(
        db.resolve_target("t-000000").unwrap_err().message(),
        "Failed to get task 't-000000'"
    );
    assert_eq!(
        db.resolve_target("logout").unwrap_err().message(),
        "Feature 'logout' not found"
    );
    assert_eq!(
        db.resolve_target("login").unwrap_err().message(),
        "Feature 'login' is not ready to run (status: draft). Run 'ralph feature create login' first."
    );
    for status in ["ready", "running"] {
        db.update_feature_status(&id, status, NOW).unwrap();
        assert!(matches!(db.resolve_target("login"), Ok(RunTarget::Feature(x)) if x == "login"));
    }
}

#[test]
fn runs_end_with_their_exit_codes() {
    let code = |o: Outcome| end_run(false, o).exit_code;
    assert_eq!(code(Outcome::Complete), 0);
    assert_eq!(code(Outcome::Failure), 1);
    assert_eq!(code(Outcome::LimitReached), 0);
    assert_eq!(code(Outcome::Blocked), 2);
    assert_eq!(code(Outcome::NoPlan), 3);
    assert_eq!(code(Outcome::Interrupted), 0);
    let ending = end_run(false, Outcome::Complete);
    assert_eq!(ending.summary, "Tasks complete.");
    assert_eq!(shown(&ending.shown), ["out: Tasks complete.", "say: Ralph finished. Tasks complete."]);
    assert_eq!(
        shown(&end_run(true, Outcome::LimitReached).shown),
        ["status: Iteration limit reached", "say: Ralph finished--limit hit."]
    );
    assert_eq!(
        shown(&end_run(false, Outcome::Blocked).shown),
        ["err: Loop blocked: no ready tasks, but incomplete tasks remain"]
    );
}

#[test]
fn the_flag_wins_over_the_variable() {
    let text = |s: &str| Some(s.to_string());
    assert_eq!(agent_command(&text("a"), &text("b"), "c"), "a");
    assert_eq!(agent_command(&None, &text("b"), "c"), "b");
    assert_eq!(agent_command(&None, &None, "c"), "c");
    assert_eq!(feature_model(&None), "opus");
    assert_eq!(feature_model(&text("haiku")), "haiku");
}

#[test]
fn authentication_reports_how_it_ended() {
    assert_eq!(
        shown(&start_auth(false, "agent-cli", &None)).last().unwrap(),
        "out: Running: agent-cli auth login"
    );
    let (effects, code) = end_auth(false, true, Some(0));
    assert_eq!((shown(&effects), code), (vec!["out: Authentication successful.".to_string()], 0));
    let (effects, code) = end_auth(false, false, Some(4));
    assert_eq!(
        (shown(&effects), code),
        (vec!["err: Authentication failed (exit code: 4).".to_string()], 1)
    );
    assert_eq!(
        shown(&end_auth(false, false, None).0),
        ["err: Authentication failed (exit code: -1)."]
    );
}

#[test]
fn features_go_through_their_phases() {
    let mut db = Db::new();
    let f = db.feature_to_create("login", "f-1", NOW).unwrap();
    assert_eq!(f.status, "draft");
    assert_eq!(db.feature_to_create("login", "f-2", LATER).unwrap().id, "f-1");
    assert_eq!(db.features.len(), 1);

    assert_eq!(
        shown(&start_phase(false, DocumentKind::Spec, false, "/s")),
        ["out: Phase 1: Specification", "out: Interview -> write spec -> review"]
    );
    assert_eq!(
        shown(&start_phase(false, DocumentKind::Plan, true, "/p")),
        ["out: Plan already exists at /p, skipping plan phase."]
    );
    assert!(require_document(DocumentKind::Spec, true, "/s").is_ok());
    assert_eq!(
        require_document(DocumentKind::Plan, false, "/p").unwrap_err(),
        "Plan file was not created at /p. Cannot proceed to task creation."
    );
    db.record_document("f-1", DocumentKind::Spec, "/s", NOW).unwrap();
    assert_eq!(db.get_feature("login").unwrap().status, "draft");
    db.record_missing_documents(&f, "/s", "/p", LATER).unwrap();
    let f = db.get_feature("login").unwrap();
    assert_eq!(f.status, "planned");
    assert_eq!((f.spec_path.as_deref(), f.plan_path.as_deref()), (Some("/s"), Some("/p")));

    let ids = ids(&db);
    let root = db.create_root_task("login", "f-1", 3, &ids, NOW).unwrap();
    assert_eq!(root.feature_id.as_deref(), Some("f-1"));
    assert_eq!(
        shown(&db.show_created(false, "login", &root.id).unwrap()),
        [format!("err: Warning: no child tasks were created under {}", root.id)]
    );
    add(&mut db, "Form", Some(&root.id), Some("f-1"));
    let lines = shown(&db.show_created(false, "login", &root.id).unwrap());
    assert_eq!(lines[0], "out: Created 1 tasks for feature 'login'");
    assert_eq!(lines.len(), 3);
}

#[test]
fn features_are_listed_with_their_tasks() {
    let mut db = Db::new();
    assert_eq!(
        shown(&db.show_feature_list(false)),
        ["out: No features. Run 'ralph feature create <name>' to create one."]
    );
    let id = feature(&mut db, "login");
    assert_eq!(shown(&db.show_feature_list(false)), ["out:   login            [draft]  spec only"]);
    let a = add(&mut db, "A", None, Some(&id)).id;
    add(&mut db, "B", None, Some(&id));
    db.change_task(&a, TaskChange::Done, NOW, LATER).unwrap();
    assert_eq!(
        shown(&db.show_feature_list(false)),
        ["out:   login            [draft]  1/2 done, 1 ready"]
    );
    let f = db.get_feature("login").unwrap();
    assert_eq!(
        shown(&db.show_doomed(false, &f)),
        [
            "out: Feature: login",
            "out: Status:  draft",
            "out: Tasks:   2 total (1 done, 0 in progress, 0 blocked)",
            "err: Warning: this feature is partially completed.",
        ]
    );
    assert!(db.delete_feature(&id).is_err());
    assert_eq!(db.delete_tasks_for_feature(&id).unwrap(), 2);
    db.delete_feature(&id).unwrap();
    assert!(!db.feature_exists("login"));
}

#[test]
fn notices_of_features() {
    assert_eq!(shown(&saved_notice(false, DocumentKind::Spec, "/s")), ["out: Spec saved to /s"]);
    assert_eq!(
        shown(&start_tasks(false)),
        ["out: Phase 3: Task Decomposition", "out: Creating task DAG from plan"]
    );
    assert_eq!(
        shown(&root_notice(false, "t-1", "login")),
        ["out: Created root task: t-1 Feature: login"]
    );
    assert_eq!(
        shown(&ready_notice(false, "login")),
        ["out: Feature 'login' is ready. Run 'ralph run login' to start."]
    );
    assert_eq!(shown(&files_notice(false, "/p/x")), ["out: Files:   /p/x/"]);
    assert_eq!(
        shown(&deleted_notice(false, "login", 3)),
        ["out: Deleted feature 'login' (3 tasks removed)."]
    );
    assert!(saved_notice(true, DocumentKind::Plan, "/p").is_empty());
    assert_eq!(
        ask_delete_feature("login").1,
        "Delete feature 'login' and all associated data?"
    );
}
