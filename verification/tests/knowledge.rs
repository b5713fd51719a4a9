//! Knowledge entries: reading, linking, matching and writing.

use ralph::acp::types::KnowledgeSigil;
use ralph::knowledge::dedup::write_knowledge_entry;
use ralph::knowledge::entry::{
    discover_knowledge, parse_knowledge_frontmatter, KnowledgeEntry, KnowledgeFile,
};
use ralph::knowledge::graph::{build_link_graph, expand_via_links, get_backlinks};
use ralph::knowledge::links::extract_links;
use ralph::knowledge::matching::match_knowledge_entries;
use ralph::knowledge::render::{render_knowledge_context, render_knowledge_context_with_graph};
use ralph::knowledge::slug::slugify_title;

fn strings(tags: &[&str]) -> Vec<String> {
    tags.iter().map(|s| s.to_string()).collect()
}

fn make_valid_md(title: &str, tags: &[&str], body: &str) -> String {
    let tags_str = tags.join(", ");
    format!(
        "---\ntitle: \"{}\"\ntags: [{}]\ncreated_at: \"2026-02-17T12:00:00Z\"\n---\n\n{}\n",
        title, tags_str, body
    )
}

fn make_entry(title: &str, tags: &[&str]) -> KnowledgeEntry {
    make_entry_with_body(title, tags, "Test body.")
}

fn make_entry_with_body(title: &str, tags: &[&str], body: &str) -> KnowledgeEntry {
    KnowledgeEntry {
        title: title.to_string(),
        tags: strings(tags),
        feature: None,
        body: body.to_string(),
        created_at: "2026-02-17T12:00:00Z".to_string(),
        file_path: String::new(),
    }
}

fn make_sigil(title: &str, tags: &[&str], body: &str) -> KnowledgeSigil {
    KnowledgeSigil {
        title: title.to_string(),
        tags: strings(tags),
        body: body.to_string(),
    }
}

/// The files of a knowledge directory.
struct Kb {
    files: Vec<KnowledgeFile>,
}

impl Kb {
    fn new() -> Kb {
        Kb { files: Vec::new() }
    }

    fn write(&mut self, name: &str, content: &str) {
        self.files.push(KnowledgeFile {
            name: name.to_string(),
            path: format!("/p/.ralph/knowledge/{}", name),
            content: content.to_string(),
        });
    }

    fn discover(&self) -> Vec<KnowledgeEntry> {
        discover_knowledge(&self.files)
    }

    fn read(&self, path: &str) -> String {
        self.files.iter().find(|f| f.path == path).unwrap().content.clone()
    }

    fn record(&mut self, sigil: &KnowledgeSigil, feature: Option<&str>) -> Result<String, String> {
        let w = write_knowledge_entry(
            "/p/.ralph/knowledge",
            &self.files,
            sigil,
            feature,
            "2026-02-17T12:00:00Z",
        )?;
        self.files.retain(|f| f.path != w.path);
        let name = w.path.rsplit('/').next().unwrap().to_string();
        self.write(&name, &w.content);
        Ok(w.path)
    }
}

#[test]
fn test_slugify_title_basic() {
    assert_eq!(slugify_title("Hello World"), "hello-world");
    assert_eq!(slugify_title("Rust Testing"), "rust-testing");
}

#[test]
fn test_slugify_title_special_chars() {
    assert_eq!(
        slugify_title("Rust's testing: a guide!"),
        "rust-s-testing-a-guide"
    );
}

#[test]
fn test_slugify_title_consecutive_hyphens() {
    assert_eq!(slugify_title("Foo--Bar"), "foo-bar");
    assert_eq!(slugify_title("A  B"), "a-b");
}

#[test]
fn test_slugify_title_leading_trailing_hyphens() {
    assert_eq!(slugify_title("!Hello!"), "hello");
    assert_eq!(slugify_title("  spaces  "), "spaces");
}

#[test]
fn test_slugify_title_long() {
    // 100-char title should be truncated to 80 chars without trailing hyphen
    let long_title = "a".repeat(85) + " extra"; // 92 chars
    let slug = slugify_title(&long_title);
    assert!(
        slug.len() <= 80,
        "slug should be at most 80 chars, got {}",
        slug.len()
    );
    assert!(!slug.ends_with('-'), "slug should not end with hyphen");
}

#[test]
fn test_slugify_title_exactly_80_chars() {
    // A title that produces exactly 80 chars in slug form
    let title = "a".repeat(80);
    let slug = slugify_title(&title);
    assert_eq!(slug.len(), 80);
}

#[test]
fn test_parse_knowledge_frontmatter() {
    let content = r#"---
title: "Cargo bench requires nightly toolchain"
tags: [testing, cargo, nightly]
feature: "improved-memory"
created_at: "2026-02-17T12:00:00Z"
---

Running `cargo bench` requires the nightly Rust toolchain.
"#;
    let entry = parse_knowledge_frontmatter(content).expect("should parse valid frontmatter");
    assert_eq!(entry.title, "Cargo bench requires nightly toolchain");
    assert_eq!(entry.tags, vec!["testing", "cargo", "nightly"]);
    assert_eq!(entry.feature.as_deref(), Some("improved-memory"));
    assert_eq!(entry.created_at, "2026-02-17T12:00:00Z");
    assert!(entry.body.contains("cargo bench"));
}

#[test]
fn test_parse_knowledge_frontmatter_no_tags() {
    let content = r#"---
title: "No tags here"
created_at: "2026-02-17T12:00:00Z"
---

Body content.
"#;
    assert!(
        parse_knowledge_frontmatter(content).is_none(),
        "should return None when tags are missing"
    );
}

#[test]
fn test_parse_knowledge_frontmatter_empty_tags() {
    let content = r#"---
title: "Empty tags"
tags: []
---

Body content.
"#;
    assert!(
        parse_knowledge_frontmatter(content).is_none(),
        "should return None when tags array is empty"
    );
}

#[test]
fn test_parse_knowledge_frontmatter_no_frontmatter() {
    let content = "Just a regular markdown file without frontmatter.";
    assert!(
        parse_knowledge_frontmatter(content).is_none(),
        "should return None when no frontmatter block"
    );
}

#[test]
fn test_parse_knowledge_frontmatter_no_title() {
    let content = r#"---
tags: [testing, cargo]
created_at: "2026-02-17T12:00:00Z"
---

Body content.
"#;
    assert!(
        parse_knowledge_frontmatter(content).is_none(),
        "should return None when title is missing"
    );
}

#[test]
fn test_parse_knowledge_frontmatter_optional_feature() {
    // Feature field is optional
    let content = r#"---
title: "No feature field"
tags: [rust, testing]
created_at: "2026-02-17T12:00:00Z"
---

Body content.
"#;
    let entry = parse_knowledge_frontmatter(content).expect("should parse");
    assert!(entry.feature.is_none());
}

#[test]
fn test_discover_knowledge_empty() {
    let kb = Kb::new();
    let entries = kb.discover();
    assert!(
        entries.is_empty(),
        "empty knowledge dir should return empty vec"
    );
}

#[test]
fn test_discover_knowledge_missing_dir() {
    let kb = Kb::new();
    let entries = kb.discover();
    assert!(
        entries.is_empty(),
        "missing knowledge dir should return empty vec"
    );
}

#[test]
fn test_discover_knowledge_parses_files() {
    let mut kb = Kb::new();
    // Write two valid knowledge files
    kb.write("entry-one.md", &make_valid_md("Entry One", &["rust", "testing"], "First entry body."));
    kb.write("entry-two.md", &make_valid_md("Entry Two", &["database", "sqlite"], "Second entry body."));

    let entries = kb.discover();
    assert_eq!(entries.len(), 2, "should discover both valid entries");

    // Check that file_path is set correctly
    for e in &entries {
        assert!(
            kb.files.iter().any(|f| f.path == e.file_path),
            "file_path should point to an existing file"
        );
    }

    // Check titles are parsed
    let titles: Vec<&str> = entries.iter().map(|e| e.title.as_str()).collect();
    assert!(titles.contains(&"Entry One"));
    assert!(titles.contains(&"Entry Two"));
}

#[test]
fn test_discover_knowledge_skips_malformed() {
    let mut kb = Kb::new();
    // Write one valid and one malformed file
    kb.write("valid.md", &make_valid_md("Valid Entry", &["rust"], "Valid body."));
    kb.write("malformed.md", "Just plain text, no frontmatter at all.");

    let entries = kb.discover();
    assert_eq!(
        entries.len(),
        1,
        "should skip malformed file and return 1 entry"
    );
    assert_eq!(entries[0].title, "Valid Entry");
}

#[test]
fn test_discover_knowledge_skips_non_md_files() {
    let mut kb = Kb::new();
    kb.write("valid.md", &make_valid_md("Valid Entry", &["rust"], "Body."));
    kb.write("notes.txt", "Not a markdown file");

    let entries = kb.discover();
    assert_eq!(entries.len(), 1);
}

#[test]
fn test_match_knowledge_entries_by_tags() {
    let entries = vec![
        make_entry("Rust Testing Guide", &["rust", "testing"]),
        make_entry("Python Patterns", &["python", "patterns"]),
    ];

    let matched = match_knowledge_entries(
        &entries,
        "rust implementation",
        "implement rust features",
        None,
        &vec![],
    );

    // "rust" tag matches "rust" in title and description -> score 2 (title) + 2 (desc) ... actually:
    // context_words = {"rust", "implementation", "implement", "features"}
    // "rust" in context_words -> +2
    // "testing" not in context_words
    // score = 2 for "Rust Testing Guide"
    assert!(
        !matched.is_empty(),
        "should find entries matching 'rust' tag"
    );
    assert_eq!(matched[0].0.title, "Rust Testing Guide");
    assert!(matched[0].1 >= 2, "score should be at least 2");

    // Python entry should not match
    let python_matched: Vec<_> = matched
        .iter()
        .filter(|(e, _)| e.title.contains("Python"))
        .collect();
    assert!(python_matched.is_empty(), "Python entry should not match");
}

#[test]
fn test_match_knowledge_feature_bonus() {
    let entries = vec![
        make_entry("Memory System", &["improved-memory", "knowledge"]),
        make_entry("Unrelated Entry", &["css", "frontend"]),
    ];

    let matched = match_knowledge_entries(
        &entries,
        "some task",
        "some description",
        Some("improved-memory"),
        &vec![],
    );

    // "improved-memory" tag matches feature name -> +2
    assert!(!matched.is_empty());
    assert_eq!(matched[0].0.title, "Memory System");
    assert!(matched[0].1 >= 2, "feature bonus should give score >= 2");
}

#[test]
fn test_match_knowledge_file_path_bonus() {
    let entries = vec![
        make_entry("Config Patterns", &["config"]),
        make_entry("Unrelated", &["python"]),
    ];

    let recent_files = vec!["src/config.rs".to_string(), "src/main.rs".to_string()];

    let matched = match_knowledge_entries(
        &entries,
        "update settings",
        "modify configuration",
        None,
        &recent_files,
    );

    // "config" tag: matches "configuration" in description? No, it's an exact word match.
    // context_words = {"update", "settings", "modify", "configuration"}
    // "config" is NOT in context_words (it's not an exact match)
    // file_words from "src/config.rs": split on / . _ - -> ["src", "config", "rs"]
    //   filter > 2 chars: ["src", "config"] (rs is 2 chars, filtered)
    // "config" IS in file_words -> +1
    assert!(!matched.is_empty(), "should match via file path");
    assert_eq!(matched[0].0.title, "Config Patterns");
    assert_eq!(matched[0].1, 1, "file path match should give score 1");
}

#[test]
fn test_match_knowledge_no_match() {
    let entries = vec![
        make_entry("Python Patterns", &["python", "patterns"]),
        make_entry("CSS Tricks", &["css", "frontend"]),
    ];

    let matched = match_knowledge_entries(
        &entries,
        "rust implementation",
        "implement rust features",
        Some("rust-feature"),
        &vec![],
    );

    // None of the tags (python, patterns, css, frontend) match "rust" context
    // feature name "rust-feature" won't match "python" or "css"
    assert!(matched.is_empty(), "no entries should match rust context");
}

#[test]
fn test_match_knowledge_multiple_tags_accumulate() {
    let entries = vec![make_entry("Rust DB", &["rust", "database", "sqlite"])];

    let matched = match_knowledge_entries(
        &entries,
        "rust database implementation",
        "sqlite rust storage",
        None,
        &vec![],
    );

    // context_words = {"rust", "database", "implementation", "sqlite", "storage"}
    // "rust" -> +2, "database" -> +2, "sqlite" -> +2 -> total score 6
    assert!(!matched.is_empty());
    assert!(
        matched[0].1 >= 4,
        "multiple matching tags should accumulate, got {}",
        matched[0].1
    );
}

#[test]
fn test_match_knowledge_sorted_by_score() {
    let entries = vec![
        make_entry("Low Score", &["testing"]),
        make_entry("High Score", &["rust", "testing", "implementation"]),
    ];

    let matched =
        match_knowledge_entries(&entries, "rust implementation", "testing rust", None, &vec![]);

    assert_eq!(matched.len(), 2);
    // High Score should come first (higher score)
    assert!(
        matched[0].1 >= matched[1].1,
        "entries should be sorted by score descending"
    );
    assert_eq!(matched[0].0.title, "High Score");
}

#[test]
fn test_write_knowledge_entry_new() {
    let mut kb = Kb::new();
    let sigil = make_sigil(
        "My New Entry",
        &["rust", "testing"],
        "Some body content here.",
    );

    let path = kb.record(&sigil, None).unwrap();
    assert!(kb.files.iter().any(|f| f.path == path), "file should be created");

    let content = kb.read(&path);
    assert!(content.contains("title: \"My New Entry\""));
    assert!(content.contains("tags: [rust, testing]"));
    assert!(content.contains("Some body content here."));
    assert!(
        !content.contains("feature:"),
        "no feature line when feature=None"
    );

    // Filename should be slug of title
    let filename = path.rsplit('/').next().unwrap();
    assert_eq!(filename, "my-new-entry.md");
}

#[test]
fn test_write_knowledge_entry_with_feature() {
    let mut kb = Kb::new();
    let sigil = make_sigil("Feature Entry", &["rust"], "Body content.");

    let path = kb.record(&sigil, Some("my-feature")).unwrap();
    let content = kb.read(&path);
    assert!(content.contains("feature: \"my-feature\""));
}

#[test]
fn test_write_knowledge_entry_no_tags() {
    let mut kb = Kb::new();
    let sigil = KnowledgeSigil {
        title: "No Tags".to_string(),
        tags: vec![],
        body: "Body content.".to_string(),
    };

    let result = kb.record(&sigil, None);
    assert!(result.is_err(), "should return error when no tags");
}

#[test]
fn test_write_knowledge_entry_dedup_exact_title() {
    let mut kb = Kb::new();

    // Write first entry
    let sigil1 = make_sigil("My Entry", &["rust"], "First content.");
    let path1 = kb.record(&sigil1, None).unwrap();

    // Write second entry with same title — should update, not create new file
    let sigil2 = make_sigil("My Entry", &["rust", "testing"], "Second content wins.");
    let path2 = kb.record(&sigil2, None).unwrap();

    // Should be the same file
    assert_eq!(path1, path2, "dedup should reuse existing file");

    // Count total .md files — should be exactly 1
    let count = kb.files.len();
    assert_eq!(count, 1, "should have exactly 1 file after dedup");

    // Content should be from the second write
    let content = kb.read(&path2);
    assert!(content.contains("Second content wins."));
}

#[test]
fn test_write_knowledge_entry_dedup_tag_overlap() {
    let mut kb = Kb::new();

    // Write initial entry
    let sigil1 = make_sigil(
        "Rust Testing Patterns",
        &["rust", "testing", "patterns"],
        "First.",
    );
    kb.record(&sigil1, None).unwrap();

    // Write similar entry with >50% tag overlap and substring title
    let sigil2 = make_sigil(
        "Rust Testing",
        &["rust", "testing", "new-tag"],
        "Updated content.",
    );
    let path2 = kb.record(&sigil2, None).unwrap();

    // Should update the existing file (tag overlap > 0.5, title match)
    let count = kb.files.len();
    assert_eq!(
        count, 1,
        "should have exactly 1 file after dedup by tag overlap"
    );

    // Tags should be merged
    let content = kb.read(&path2);
    assert!(content.contains("rust"));
    assert!(content.contains("testing"));
    assert!(
        content.contains("patterns") || content.contains("new-tag"),
        "merged tags should contain both old and new tags"
    );
}

#[test]
fn an_entry_without_a_slug_keeps_the_tags_of_its_file() {
    let mut kb = Kb::new();
    let path = kb.record(&make_sigil("???", &["rust"], "One."), None).unwrap();
    assert_eq!(path, "/p/.ralph/knowledge/.md");
    assert!(kb.discover().is_empty());
    assert_eq!(kb.record(&make_sigil("!!!", &["testing"], "Two."), None).unwrap(), path);
    assert_eq!(kb.files.len(), 1);
    assert!(kb.read(&path).contains("tags: [rust, testing]"));
}

#[test]
fn test_write_knowledge_entry_truncation() {
    let mut kb = Kb::new();

    // Create body with 600 words
    let words: Vec<String> = (1..=600).map(|i| format!("word{}", i)).collect();
    let long_body = words.join(" ");

    let sigil = make_sigil("Long Entry", &["test"], &long_body);
    let path = kb.record(&sigil, None).unwrap();

    let content = kb.read(&path);
    assert!(
        content.contains("[truncated]"),
        "body > 500 words should be truncated"
    );

    // Count the words in the body section (after frontmatter)
    let body_start = content.find("---\n\n").unwrap() + 5;
    let body_section = &content[body_start..];
    let word_count = body_section.split_whitespace().count();
    // 500 words + "[truncated]" = 501 items, but "[truncated]" is one token
    // The body has 500 words from the original + [truncated] marker
    assert!(
        word_count <= 502,
        "truncated body should have at most ~501 word tokens, got {}",
        word_count
    );
}

#[test]
fn test_render_knowledge_context() {
    let entries = vec![
        (
            KnowledgeEntry {
                title: "Rust Testing".to_string(),
                tags: vec!["rust".to_string(), "testing".to_string()],
                feature: None,
                body: "Use #[test] attribute.".to_string(),
                created_at: "2026-02-17T12:00:00Z".to_string(),
                file_path: String::new(),
            },
            4u32,
        ),
        (
            KnowledgeEntry {
                title: "SQLite Patterns".to_string(),
                tags: vec!["database".to_string(), "sqlite".to_string()],
                feature: None,
                body: "Use WAL mode for performance.".to_string(),
                created_at: "2026-02-17T12:00:00Z".to_string(),
                file_path: String::new(),
            },
            2u32,
        ),
    ];

    let rendered = render_knowledge_context(&entries);
    assert!(rendered.starts_with("## Project Knowledge\n\n"));
    assert!(rendered.contains("### Rust Testing"));
    assert!(rendered.contains("_Tags: rust, testing_"));
    assert!(rendered.contains("Use #[test] attribute."));
    assert!(rendered.contains("### SQLite Patterns"));
    assert!(rendered.contains("_Tags: database, sqlite_"));
}

#[test]
fn test_render_knowledge_context_empty() {
    let rendered = render_knowledge_context(&vec![]);
    assert_eq!(rendered, "");
}

#[test]
fn test_render_knowledge_context_budget() {
    // Create entries that collectively exceed the 2000-token (8000 char) budget
    let large_body = "x".repeat(2000); // 2000 chars each
    let mut entries = Vec::new();
    for i in 1..=10 {
        entries.push((
            KnowledgeEntry {
                title: format!("Entry {}", i),
                tags: vec!["test".to_string()],
                feature: None,
                body: large_body.clone(),
                created_at: "2026-02-17T12:00:00Z".to_string(),
                file_path: String::new(),
            },
            (10 - i + 1) as u32,
        ));
    }

    let rendered = render_knowledge_context(&entries);
    // Budget is 2000 tokens * 4 chars = 8000 chars
    // Each rendered entry is ~2050+ chars -> at most 3-4 entries fit
    assert!(
        rendered.len() <= 8000 + 200,
        "budget should cap output: got {} chars",
        rendered.len()
    );
    // Must have at least the header
    assert!(rendered.contains("## Project Knowledge"));
    // Should not contain all 10 entries
    assert!(
        !rendered.contains("### Entry 10"),
        "budget should prevent all entries from being included"
    );
}

#[test]
fn test_extract_links_basic() {
    let text = "See [[Rust Testing]] for more details.";
    let links = extract_links(text);
    assert_eq!(links, vec!["Rust Testing"]);
}

#[test]
fn test_extract_links_multiple() {
    let text = "Relates to [[Foo]] and [[Bar]] and also [[Baz]].";
    let links = extract_links(text);
    assert_eq!(links, vec!["Foo", "Bar", "Baz"]);
}

#[test]
fn test_extract_links_deduplicates() {
    let text = "See [[Foo]] and also [[Foo]] again.";
    let links = extract_links(text);
    assert_eq!(links, vec!["Foo"]);
}

#[test]
fn test_extract_links_case_insensitive_dedup() {
    let text = "[[Foo Bar]] and [[foo bar]] should be one.";
    let links = extract_links(text);
    assert_eq!(links.len(), 1);
    assert_eq!(links[0], "Foo Bar"); // first occurrence wins
}

#[test]
fn test_extract_links_empty_link_skipped() {
    let text = "Empty: [[]] and valid: [[Real]].";
    let links = extract_links(text);
    assert_eq!(links, vec!["Real"]);
}

#[test]
fn test_extract_links_no_links() {
    let text = "No links here, just plain text.";
    let links = extract_links(text);
    assert!(links.is_empty());
}

#[test]
fn test_extract_links_unclosed() {
    let text = "Unclosed [[link here but no closing.";
    let links = extract_links(text);
    assert!(links.is_empty());
}

#[test]
fn test_extract_links_whitespace_trimmed() {
    let text = "[[  Trimmed Title  ]] should work.";
    let links = extract_links(text);
    assert_eq!(links, vec!["Trimmed Title"]);
}

#[test]
fn test_build_link_graph_basic() {
    let entries = vec![
        make_entry_with_body("Entry A", &["rust"], "Links to [[Entry B]]."),
        make_entry_with_body("Entry B", &["testing"], "Standalone entry."),
    ];

    let graph = build_link_graph(&entries);

    // A -> B outlink
    let a_outlinks = graph.outlinks("entry a");
    assert!(a_outlinks.contains(&"entry b".to_string()));

    // B has backlink from A
    let b_backlinks = graph.backlinks("entry b");
    assert!(b_backlinks.contains(&"entry a".to_string()));

    // B has no outlinks
    assert!(graph.outlinks("entry b").is_empty());
}

#[test]
fn test_build_link_graph_bidirectional() {
    let entries = vec![
        make_entry_with_body("Entry A", &["rust"], "See [[Entry B]] for details."),
        make_entry_with_body("Entry B", &["testing"], "Related to [[Entry A]]."),
    ];

    let graph = build_link_graph(&entries);

    // A -> B
    assert!(graph.outlinks("entry a").contains(&"entry b".to_string()));
    // B -> A
    assert!(graph.outlinks("entry b").contains(&"entry a".to_string()));
    // A has backlink from B
    assert!(graph.backlinks("entry a").contains(&"entry b".to_string()));
    // B has backlink from A
    assert!(graph.backlinks("entry b").contains(&"entry a".to_string()));
}

#[test]
fn test_build_link_graph_ignores_nonexistent_targets() {
    let entries = vec![make_entry_with_body(
        "Entry A",
        &["rust"],
        "Links to [[Nonexistent Entry]].",
    )];

    let graph = build_link_graph(&entries);

    // Should not have any outlinks (target doesn't exist)
    assert!(graph.outlinks("entry a").is_empty());
}

#[test]
fn test_build_link_graph_case_insensitive() {
    let entries = vec![
        make_entry_with_body("Entry A", &["rust"], "Links to [[entry b]]."),
        make_entry_with_body("Entry B", &["testing"], "Standalone."),
    ];

    let graph = build_link_graph(&entries);

    // Should match despite different case
    let a_outlinks = graph.outlinks("entry a");
    assert!(a_outlinks.contains(&"entry b".to_string()));
}

#[test]
fn test_expand_via_links_one_hop() {
    let entries = vec![
        make_entry_with_body("Matched", &["rust"], "See [[Linked]]."),
        make_entry_with_body("Linked", &["testing"], "Connected to [[Matched]]."),
        make_entry_with_body("Unrelated", &["python"], "No connections."),
    ];

    let graph = build_link_graph(&entries);
    let initial = vec![(entries[0].clone(), 4)]; // Only "Matched" is initially matched

    let expanded = expand_via_links(&entries, &initial, &graph, 2, 2);

    // Should pull in "Linked" (1 hop) but not "Unrelated"
    assert_eq!(expanded.len(), 1);
    assert_eq!(expanded[0].0.title, "Linked");
    assert_eq!(expanded[0].1, 2); // base_bonus=2, hop=1 → 2/1=2
}

#[test]
fn test_expand_via_links_two_hops() {
    let entries = vec![
        make_entry_with_body("A", &["rust"], "Links to [[B]]."),
        make_entry_with_body("B", &["testing"], "Links to [[C]]."),
        make_entry_with_body("C", &["database"], "End of chain."),
    ];

    let graph = build_link_graph(&entries);
    let initial = vec![(entries[0].clone(), 4)]; // Only "A" matched

    let expanded = expand_via_links(&entries, &initial, &graph, 2, 4);

    // Should get B (hop 1, bonus=4/1=4) and C (hop 2, bonus=4/2=2)
    assert_eq!(expanded.len(), 2);
    let titles: Vec<&str> = expanded.iter().map(|e| e.0.title.as_str()).collect();
    assert!(titles.contains(&"B"));
    assert!(titles.contains(&"C"));

    // B should have higher score (closer)
    let b_score = expanded.iter().find(|e| e.0.title == "B").unwrap().1;
    let c_score = expanded.iter().find(|e| e.0.title == "C").unwrap().1;
    assert!(b_score > c_score, "closer entries should score higher");
}

#[test]
fn test_expand_via_links_max_hops_respected() {
    let entries = vec![
        make_entry_with_body("A", &["rust"], "Links to [[B]]."),
        make_entry_with_body("B", &["testing"], "Links to [[C]]."),
        make_entry_with_body("C", &["database"], "Links to [[D]]."),
        make_entry_with_body("D", &["deep"], "Too far away."),
    ];

    let graph = build_link_graph(&entries);
    let initial = vec![(entries[0].clone(), 4)]; // Only "A" matched

    // max_hops=1: should only get B
    let expanded = expand_via_links(&entries, &initial, &graph, 1, 2);
    assert_eq!(expanded.len(), 1);
    assert_eq!(expanded[0].0.title, "B");
}

#[test]
fn test_expand_via_links_no_duplicates_with_initial() {
    let entries = vec![
        make_entry_with_body("A", &["rust"], "Links to [[B]]."),
        make_entry_with_body("B", &["testing"], "Links to [[A]]."),
    ];

    let graph = build_link_graph(&entries);
    // Both A and B are initially matched
    let initial = vec![(entries[0].clone(), 4), (entries[1].clone(), 2)];

    let expanded = expand_via_links(&entries, &initial, &graph, 2, 2);

    // Should not re-add either A or B since both are already in initial
    assert!(
        expanded.is_empty(),
        "should not duplicate already-matched entries"
    );
}

#[test]
fn test_expand_via_links_empty_graph() {
    let entries = vec![
        make_entry_with_body("A", &["rust"], "No links."),
        make_entry_with_body("B", &["testing"], "Also no links."),
    ];

    let graph = build_link_graph(&entries);
    let initial = vec![(entries[0].clone(), 4)];

    let expanded = expand_via_links(&entries, &initial, &graph, 2, 2);
    assert!(expanded.is_empty());
}

#[test]
fn test_get_backlinks() {
    let entries = vec![
        make_entry_with_body("A", &["rust"], "Links to [[B]]."),
        make_entry_with_body("B", &["testing"], "Standalone."),
        make_entry_with_body("C", &["db"], "Also links to [[B]]."),
    ];

    let graph = build_link_graph(&entries);
    let backlinks = get_backlinks(&graph, "B");

    assert_eq!(backlinks.len(), 2);
    assert!(backlinks.contains(&"a".to_string()));
    assert!(backlinks.contains(&"c".to_string()));
}

#[test]
fn test_get_backlinks_none() {
    let entries = vec![make_entry_with_body("A", &["rust"], "No incoming links.")];

    let graph = build_link_graph(&entries);
    let backlinks = get_backlinks(&graph, "A");
    assert!(backlinks.is_empty());
}

#[test]
fn test_render_with_graph_shows_backlinks() {
    let entries = vec![
        make_entry_with_body("Entry A", &["rust"], "Links to [[Entry B]]."),
        make_entry_with_body("Entry B", &["testing"], "Standalone."),
    ];

    let graph = build_link_graph(&entries);
    let scored = vec![(entries[1].clone(), 4u32)]; // Only showing Entry B

    let rendered = render_knowledge_context_with_graph(&scored, Some(&graph));

    assert!(rendered.contains("### Entry B"));
    assert!(
        rendered.contains("Linked from:"),
        "should show backlinks for Entry B"
    );
    assert!(
        rendered.contains("entry a"),
        "backlink should reference entry a"
    );
}

#[test]
fn test_render_with_graph_shows_outlinks() {
    let entries = vec![
        make_entry_with_body("Entry A", &["rust"], "Links to [[Entry B]]."),
        make_entry_with_body("Entry B", &["testing"], "Standalone."),
    ];

    let graph = build_link_graph(&entries);
    let scored = vec![(entries[0].clone(), 4u32)]; // Only showing Entry A

    let rendered = render_knowledge_context_with_graph(&scored, Some(&graph));

    assert!(rendered.contains("### Entry A"));
    assert!(
        rendered.contains("Links to:"),
        "should show outlinks for Entry A"
    );
    assert!(
        rendered.contains("entry b"),
        "outlink should reference entry b"
    );
}

#[test]
fn test_render_without_graph_no_links() {
    let entries = vec![make_entry_with_body(
        "Entry A",
        &["rust"],
        "Links to [[Entry B]].",
    )];
    let scored = vec![(entries[0].clone(), 4u32)];

    let rendered = render_knowledge_context_with_graph(&scored, None);

    assert!(rendered.contains("### Entry A"));
    assert!(
        !rendered.contains("Linked from:"),
        "should not show link metadata without graph"
    );
    assert!(
        !rendered.contains("Links to:"),
        "should not show link metadata without graph"
    );
}

#[test]
fn test_discover_and_build_link_graph() {
    let mut kb = Kb::new();
    kb.write("migrations.md", &make_valid_md(
            "Schema Migrations",
            &["sqlite", "schema"],
            "Use version checks. See [[Task Columns]] for column mapping.",
        ));
    kb.write("columns.md", &make_valid_md(
            "Task Columns",
            &["sqlite", "tasks"],
            "TASK_COLUMNS constant maps SQL to struct. Related: [[Schema Migrations]].",
        ));
    kb.write("unrelated.md", &make_valid_md("Python Tips", &["python"], "Not connected to anything."));

    let entries = kb.discover();
    assert_eq!(entries.len(), 3);

    let graph = build_link_graph(&entries);

    // Schema Migrations -> Task Columns
    let migrations_out = graph.outlinks("schema migrations");
    assert!(migrations_out.contains(&"task columns".to_string()));

    // Task Columns -> Schema Migrations
    let columns_out = graph.outlinks("task columns");
    assert!(columns_out.contains(&"schema migrations".to_string()));

    // Both have backlinks from each other
    let migrations_back = graph.backlinks("schema migrations");
    assert!(migrations_back.contains(&"task columns".to_string()));

    // Python Tips has no links
    assert!(graph.outlinks("python tips").is_empty());
    assert!(graph.backlinks("python tips").is_empty());
}
