//! Project configuration and discovery.

use std::collections::{BTreeMap, BTreeSet};

use ralph::init::{dir_failure, finish_init, init_in_dir, Step};
use ralph::project::{discover_from, updated_gitignore, ExecutionConfig, RalphConfig, DEFAULT_CONFIG};

fn config_of(text: &str) -> Option<RalphConfig> {
    let table = text.parse::<toml::Table>().ok()?;
    let execution = table.get("execution").and_then(|v| v.as_table());
    let number = |k: &str| execution.and_then(|t| t.get(k)).and_then(|v| v.as_integer());
    let flag = |k: &str| execution.and_then(|t| t.get(k)).and_then(|v| v.as_bool());
    let execution = ExecutionConfig::from_parts(
        number("max_retries").map(|n| n as u32),
        flag("verify"),
        flag("learn"),
    );
    Some(RalphConfig { execution })
}

#[test]
fn discovers_config_in_cwd() {
    assert_eq!(discover_from(&vec![true, false]), Some(0));
    let config = config_of("[execution]\nmax_retries = 5").unwrap();
    assert_eq!(config.execution.max_retries, 5);
}

#[test]
fn discovers_config_two_directories_up() {
    assert_eq!(discover_from(&vec![false, false, true, false]), Some(2));
    let config = config_of("[execution]\nmax_retries = 5").unwrap();
    assert_eq!(config.execution.max_retries, 5);
}

#[test]
fn empty_toml_parses_to_defaults() {
    let config = config_of("").unwrap();
    assert_eq!(config.execution.max_retries, 3);
}

#[test]
fn partial_config_uses_defaults_for_missing_sections() {
    let config = config_of("[execution]\nmax_retries = 5").unwrap();
    assert_eq!(config.execution.max_retries, 5);
}

#[test]
fn invalid_toml_returns_error() {
    assert!(config_of("[execution\nmax_retries = 3").is_none());
}

#[test]
fn unknown_keys_ignored_for_forward_compat() {
    let config = config_of("[foo]\nbar = 1\n[execution]\nmax_retries = 7").unwrap();
    assert_eq!(config.execution.max_retries, 7);
}

#[test]
fn ralph_config_default_values() {
    let config = RalphConfig::default();
    assert_eq!(config.execution.max_retries, 3);
    assert!(config.execution.verify);
}

/// A directory in memory.
#[derive(Default)]
struct Dir {
    files: BTreeMap<String, String>,
    dirs: BTreeSet<String>,
    said: Vec<String>,
}

const SKILLS: &str = ".agent/skills";

impl Dir {
    fn perform(&mut self, steps: Vec<Step>) {
        for step in steps {
            match step {
                Step::Say(line) => self.said.push(line),
                Step::MakeDir(path) => {
                    self.dirs.insert(path);
                }
                Step::Write(path, content, _) => {
                    self.files.insert(path, content);
                }
            }
        }
    }

    fn init(&mut self) {
        let legacy = self.files.keys().any(|p| p.starts_with(".ralph/skills/"));
        let has = |p: &str| self.files.contains_key(p);
        let first = init_in_dir(has(".ralph.toml"), has(".ralph/progress.db"), legacy, SKILLS);
        self.perform(first);
        let gitignore = self.files.get(".gitignore").cloned();
        self.perform(finish_init(gitignore.as_deref()));
    }
}

#[test]
fn init_creates_all_files_and_directories() {
    let mut tmp = Dir::default();
    tmp.init();
    assert!(tmp.files.contains_key(".ralph.toml"));
    assert!(tmp.dirs.contains(".ralph"));
    assert!(tmp.files.contains_key(".ralph/progress.db"));
    assert!(tmp.files.contains_key(".gitignore"));
    assert!(tmp.files[".gitignore"].contains(".ralph/progress.db"));
    assert!(tmp.files[".ralph.toml"].contains("[execution]"));
}

#[test]
fn init_is_idempotent() {
    let mut tmp = Dir::default();
    tmp.init();
    let first = tmp.files.clone();
    tmp.init();
    assert_eq!(tmp.files, first);
    assert!(tmp.files.contains_key(".ralph.toml"));
    assert!(tmp.files.contains_key(".ralph/progress.db"));
    assert!(tmp.said.contains(&".ralph.toml already exists, skipping.".to_string()));
}

#[test]
fn init_keeps_what_is_there() {
    let mut tmp = Dir::default();
    tmp.files.insert(".ralph.toml".to_string(), "[execution]\nverify = false\n".to_string());
    tmp.files.insert(".ralph/progress.db".to_string(), "rows".to_string());
    tmp.files.insert(".gitignore".to_string(), "target".to_string());
    tmp.init();
    assert_eq!(tmp.files[".ralph.toml"], "[execution]\nverify = false\n");
    assert_eq!(tmp.files[".ralph/progress.db"], "rows");
    assert_eq!(tmp.files[".gitignore"], "target\n.ralph/progress.db\n");
}

#[test]
fn init_appends_to_existing_gitignore() {
    let mut tmp = Dir::default();
    tmp.files.insert(".gitignore".to_string(), "*.log\ntarget/\n".to_string());
    tmp.init();

    // Verify .gitignore has both old and new content
    let gitignore = tmp.files[".gitignore"].clone();
    assert!(gitignore.contains("*.log"));
    assert!(gitignore.contains("target/"));
    assert!(gitignore.contains(".ralph/progress.db"));

    // Verify no duplicate entries if run again
    tmp.init();
    let count = tmp.files[".gitignore"].matches(".ralph/progress.db").count();
    assert_eq!(count, 1, "Should not duplicate .ralph/progress.db entry");
}

#[test]
fn test_init_creates_claude_skills() {
    let mut tmp = Dir::default();
    tmp.init();
    assert!(tmp.dirs.contains(SKILLS), "the skills directory should be created by init");
}

#[test]
fn test_init_creates_knowledge_dir() {
    let mut tmp = Dir::default();
    tmp.init();
    assert!(
        tmp.dirs.contains(".ralph/knowledge"),
        ".ralph/knowledge/ should be created by init"
    );
}

#[test]
fn test_init_no_ralph_skills() {
    let mut tmp = Dir::default();
    tmp.init();
    assert!(!tmp.dirs.contains(".ralph/skills"), ".ralph/skills/ should NOT be created by init");
}

#[test]
fn test_init_legacy_skills_notice() {
    let mut tmp = Dir::default();
    tmp.files.insert(
        ".ralph/skills/some-skill/SKILL.md".to_string(),
        "---\nname: some-skill\n---\nContent".to_string(),
    );
    tmp.init();
    assert!(tmp.dirs.contains(SKILLS));
    assert!(tmp.dirs.contains(".ralph/knowledge"));
    let note = "Note: Skills have moved to .agent/skills/. See migration guide.";
    assert!(tmp.said.contains(&note.to_string()));
}

#[test]
fn test_init_existing_claude_dir() {
    let mut tmp = Dir::default();
    tmp.dirs.insert(".agent".to_string());
    tmp.files.insert(".agent/settings.json".to_string(), "{}".to_string());
    tmp.init();
    assert!(tmp.dirs.contains(SKILLS), "skills should be created in an existing directory");
    assert_eq!(tmp.files[".agent/settings.json"], "{}");
}

#[test]
fn init_names_what_fails() {
    assert_eq!(dir_failure(".ralph/features"), "Failed to create .ralph/features/ directory");
    let steps = init_in_dir(false, true, false, SKILLS);
    assert!(matches!(&steps[0], Step::Write(p, c, f)
        if p == ".ralph.toml" && c == DEFAULT_CONFIG && f == "Failed to create .ralph.toml"));
    let steps = finish_init(Some("target\n"));
    assert!(matches!(&steps[0], Step::Write(_, _, f) if f == "Failed to update .gitignore"));
    let steps = finish_init(None);
    assert!(matches!(&steps[0], Step::Write(_, _, f) if f == "Failed to create .gitignore"));
    assert_eq!(finish_init(Some(".ralph/progress.db\n")).len(), 4);
}

#[test]
fn no_config_is_found_where_there_is_none() {
    assert_eq!(discover_from(&vec![false, false]), None);
    assert_eq!(discover_from(&vec![]), None);
}

#[test]
fn the_default_config_gives_the_defaults() {
    let config = config_of(DEFAULT_CONFIG).unwrap();
    assert_eq!(config.execution.max_retries, 3);
    assert!(config.execution.verify);
}

#[test]
fn a_gitignore_is_created_or_completed() {
    assert_eq!(updated_gitignore(None), Some(".ralph/progress.db\n".to_string()));
    assert_eq!(
        updated_gitignore(Some("target/")),
        Some("target/\n.ralph/progress.db\n".to_string())
    );
    assert_eq!(updated_gitignore(Some("  .ralph/progress.db  \n")), None);
}
