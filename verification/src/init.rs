//! Initializing a project: the files and directories that it needs.

use vstd::prelude::*;

use crate::project::{
    gitignore_update, law_gitignore_idempotent, lists_entry, updated_gitignore, DEFAULT_CONFIG,
    GITIGNORE_ENTRY,
};
use crate::text::basic::opt_str;

verus! {

/// A step of an initialization.
#[derive(Debug)]
pub enum Step {
    /// Say a line.
    Say(String),
    /// Make a directory, and those above it.
    MakeDir(String),
    /// Write a file; the third text is what is said where that fails.
    Write(String, String, String),
}

/// A step of an initialization, with its texts by value.
pub enum StepView {
    Say(Seq<char>),
    MakeDir(Seq<char>),
    Write(Seq<char>, Seq<char>, Seq<char>),
}

impl View for Step {
    type V = StepView;

    open spec fn view(&self) -> StepView {
        match self {
            Step::Say(a) => StepView::Say(a@),
            Step::MakeDir(a) => StepView::MakeDir(a@),
            Step::Write(a, b, c) => StepView::Write(a@, b@, c@),
        }
    }
}

/// The views of a list of steps.
pub open spec fn step_views(v: Seq<Step>) -> Seq<StepView> {
    v.map_values(|s: Step| s@)
}

/// The configuration is written where there is none.
pub open spec fn config_steps(has_config: bool) -> Seq<StepView> {
    if has_config {
        seq![StepView::Say(".ralph.toml already exists, skipping."@)]
    } else {
        seq![
            StepView::Write(".ralph.toml"@, DEFAULT_CONFIG@, "Failed to create .ralph.toml"@),
            StepView::Say("Created .ralph.toml"@),
        ]
    }
}

/// The directories are made; skills that lie where they once did are noted.
pub open spec fn dir_steps(legacy_skills: bool, skills: Seq<char>) -> Seq<StepView> {
    let made = seq![
        StepView::MakeDir(".ralph"@),
        StepView::MakeDir(".ralph/features"@),
        StepView::MakeDir(".ralph/knowledge"@),
        StepView::MakeDir(skills),
        StepView::Say("Created .ralph/ directory structure"@),
    ];
    if legacy_skills {
        made.push(
            StepView::Say("Note: Skills have moved to "@ + skills + "/. See migration guide."@),
        )
    } else {
        made
    }
}

/// The task database is made, empty, where there is none.
pub open spec fn database_steps(has_database: bool) -> Seq<StepView> {
    if has_database {
        Seq::empty()
    } else {
        seq![
            StepView::Write(
                GITIGNORE_ENTRY@,
                Seq::empty(),
                "Failed to create .ralph/progress.db"@,
            ),
            StepView::Say("Created .ralph/progress.db"@),
        ]
    }
}

/// The task database is kept out of version control.
pub open spec fn gitignore_steps(content: Option<Seq<char>>) -> Seq<StepView> {
    match gitignore_update(content) {
        Some(new) => match content {
            Some(_) => seq![
                StepView::Write(".gitignore"@, new, "Failed to update .gitignore"@),
                StepView::Say("Added .ralph/progress.db to .gitignore"@),
            ],
            None => seq![
                StepView::Write(".gitignore"@, new, "Failed to create .gitignore"@),
                StepView::Say("Created .gitignore with .ralph/progress.db"@),
            ],
        },
        None => Seq::empty(),
    }
}

/// What is said at the end.
pub open spec fn closing_steps() -> Seq<StepView> {
    seq![
        StepView::Say("\nRalph project initialized successfully!"@),
        StepView::Say("Next steps:"@),
        StepView::Say("  - Run 'ralph feature spec <name>' to define a feature"@),
        StepView::Say("  - Or run 'ralph task new' to create a standalone task"@),
    ]
}

/// The files of a directory, by their paths in it.
pub type Files = Map<Seq<char>, Seq<char>>;

/// The files after some steps.
pub open spec fn after_steps(files: Files, steps: Seq<StepView>) -> Files
    decreases steps.len(),
{
    if steps.len() == 0 {
        files
    } else {
        let before = after_steps(files, steps.drop_last());
        match steps.last() {
            StepView::Write(path, content, _) => before.insert(path, content),
            _ => before,
        }
    }
}

/// What a file holds, where it is there.
pub open spec fn held(files: Files, path: Seq<char>) -> Option<Seq<char>> {
    if files.contains_key(path) {
        Some(files[path])
    } else {
        None
    }
}

/// All steps of an initialization in a directory with these files.
pub open spec fn init_plan(files: Files, legacy_skills: bool, skills: Seq<char>) -> Seq<StepView> {
    config_steps(files.contains_key(".ralph.toml"@)) + dir_steps(legacy_skills, skills)
        + database_steps(files.contains_key(GITIGNORE_ENTRY@)) + gitignore_steps(
        held(files, ".gitignore"@),
    ) + closing_steps()
}

/// The files after an initialization.
pub open spec fn initialized(files: Files, legacy_skills: bool, skills: Seq<char>) -> Files {
    after_steps(files, init_plan(files, legacy_skills, skills))
}

/// Steps one after the other.
proof fn lemma_after_both(files: Files, a: Seq<StepView>, b: Seq<StepView>)
    ensures
        after_steps(files, a + b) == after_steps(after_steps(files, a), b),
    decreases b.len(),
{
    if b.len() == 0 {
        assert(a + b =~= a);
    } else {
        lemma_after_both(files, a, b.drop_last());
        assert((a + b).drop_last() =~= a + b.drop_last());
        assert((a + b).last() == b.last());
    }
}

/// Steps that write nothing change no file.
proof fn lemma_nothing_written(files: Files, s: Seq<StepView>)
    requires
        forall|i: int| 0 <= i < s.len() ==> !(#[trigger] s[i] is Write),
    ensures
        after_steps(files, s) == files,
    decreases s.len(),
{
    if s.len() > 0 {
        let d = s.drop_last();
        assert forall|i: int| 0 <= i < d.len() implies !(#[trigger] d[i] is Write) by {
            assert(d[i] == s[i]);
        }
        lemma_nothing_written(files, d);
        assert(!(s[s.len() - 1] is Write));
    }
}

/// One file written, and then a line said.
proof fn lemma_one_written(files: Files, w: StepView, said: StepView)
    requires
        w is Write,
        !(said is Write),
    ensures
        after_steps(files, seq![w, said]) == files.insert(w->Write_0, w->Write_1),
{
    let s = seq![w, said];
    assert(s.drop_last() =~= seq![w]);
    assert(seq![w].drop_last() =~= Seq::<StepView>::empty());
    assert(after_steps(files, Seq::<StepView>::empty()) == files);
    assert(after_steps(files, seq![w]) == files.insert(w->Write_0, w->Write_1));
}

/// The file, with this content where it is not there.
pub open spec fn with_default(files: Files, path: Seq<char>, content: Seq<char>) -> Files {
    if files.contains_key(path) {
        files
    } else {
        files.insert(path, content)
    }
}

/// The files after an initialization, one by one.
proof fn lemma_initialized(files: Files, legacy_skills: bool, skills: Seq<char>)
    ensures
        ({
            let a = with_default(files, ".ralph.toml"@, DEFAULT_CONFIG@);
            let b = with_default(a, GITIGNORE_ENTRY@, Seq::empty());
            initialized(files, legacy_skills, skills) == (match gitignore_update(
                held(files, ".gitignore"@),
            ) {
                Some(new) => b.insert(".gitignore"@, new),
                None => b,
            })
        }),
{
    lemma_paths_differ();
    let s1 = config_steps(files.contains_key(".ralph.toml"@));
    let s2 = dir_steps(legacy_skills, skills);
    let s3 = database_steps(files.contains_key(GITIGNORE_ENTRY@));
    let s4 = gitignore_steps(held(files, ".gitignore"@));
    let s5 = closing_steps();
    let a = with_default(files, ".ralph.toml"@, DEFAULT_CONFIG@);
    let b = with_default(a, GITIGNORE_ENTRY@, Seq::empty());
    if files.contains_key(".ralph.toml"@) {
        lemma_nothing_written(files, s1);
    } else {
        lemma_one_written(files, s1[0], s1[1]);
        assert(s1 =~= seq![s1[0], s1[1]]);
    }
    assert(after_steps(files, s1) == a);
    lemma_nothing_written(a, s2);
    lemma_after_both(files, s1, s2);
    assert(after_steps(files, s1 + s2) == a);
    if !files.contains_key(GITIGNORE_ENTRY@) {
        lemma_one_written(a, s3[0], s3[1]);
        assert(s3 =~= seq![s3[0], s3[1]]);
    }
    lemma_after_both(files, s1 + s2, s3);
    assert(after_steps(files, s1 + s2 + s3) == b);
    if gitignore_update(held(files, ".gitignore"@)) is Some {
        lemma_one_written(b, s4[0], s4[1]);
        assert(s4 =~= seq![s4[0], s4[1]]);
    }
    lemma_after_both(files, s1 + s2 + s3, s4);
    lemma_nothing_written(after_steps(b, s4), s5);
    lemma_after_both(files, s1 + s2 + s3 + s4, s5);
}

proof fn lemma_paths_differ()
    ensures
        ".ralph.toml"@ != GITIGNORE_ENTRY@,
        ".ralph.toml"@ != ".gitignore"@,
        GITIGNORE_ENTRY@ != ".gitignore"@,
{
    reveal_strlit(".ralph.toml");
    reveal_strlit(".ralph/progress.db");
    reveal_strlit(".gitignore");
    assert(".ralph.toml"@[6] != GITIGNORE_ENTRY@[6]);
    assert(".ralph.toml"@[1] != ".gitignore"@[1]);
    assert(GITIGNORE_ENTRY@[1] != ".gitignore"@[1]);
}

/// An initialization leaves what was there: the configuration and the task
/// database stay as they were, the `.gitignore` is a beginning of the new one,
/// and every other file stays. Behind it all three are there, and the
/// `.gitignore` lists the task database.
pub proof fn law_init_keeps_what_is_there(files: Files, legacy_skills: bool, skills: Seq<char>)
    ensures
        ({
            let after = initialized(files, legacy_skills, skills);
            &&& after.contains_key(".ralph.toml"@)
            &&& after.contains_key(GITIGNORE_ENTRY@)
            &&& after.contains_key(".gitignore"@)
            &&& lists_entry(after[".gitignore"@])
            &&& forall|p: Seq<char>| #[trigger]
                files.contains_key(p) && p != ".gitignore"@ ==> after.contains_key(p) && after[p]
                    == files[p]
            &&& files.contains_key(".gitignore"@) ==> files[".gitignore"@].is_prefix_of(
                after[".gitignore"@],
            )
        }),
{
    lemma_paths_differ();
    lemma_initialized(files, legacy_skills, skills);
    law_gitignore_idempotent(held(files, ".gitignore"@));
    let after = initialized(files, legacy_skills, skills);
    if files.contains_key(".gitignore"@) {
        let c = files[".gitignore"@];
        assert(after[".gitignore"@].take(c.len() as int) =~= c);
    }
}

/// A second initialization changes no file.
pub proof fn law_init_is_idempotent(
    files: Files,
    legacy_skills: bool,
    again_legacy: bool,
    skills: Seq<char>,
)
    ensures
        initialized(initialized(files, legacy_skills, skills), again_legacy, skills)
            == initialized(files, legacy_skills, skills),
{
    let after = initialized(files, legacy_skills, skills);
    law_init_keeps_what_is_there(files, legacy_skills, skills);
    lemma_initialized(after, again_legacy, skills);
}

/// Adds a line to be said.
fn say(steps: &mut Vec<Step>, line: &str)
    ensures
        step_views(final(steps)@) == step_views(old(steps)@).push(StepView::Say(line@)),
{
    let ghost before = steps@;
    steps.push(Step::Say(line.to_owned()));
    assert(step_views(steps@) =~= step_views(before).push(StepView::Say(line@)));
}

/// Adds a directory to be made.
fn make_dir(steps: &mut Vec<Step>, path: &str)
    ensures
        step_views(final(steps)@) == step_views(old(steps)@).push(StepView::MakeDir(path@)),
{
    let ghost before = steps@;
    steps.push(Step::MakeDir(path.to_owned()));
    assert(step_views(steps@) =~= step_views(before).push(StepView::MakeDir(path@)));
}

/// Adds a file to be written.
fn write_file(steps: &mut Vec<Step>, path: &str, content: &str, failure: &str)
    ensures
        step_views(final(steps)@) == step_views(old(steps)@).push(
            StepView::Write(path@, content@, failure@),
        ),
{
    let ghost before = steps@;
    steps.push(Step::Write(path.to_owned(), content.to_owned(), failure.to_owned()));
    assert(step_views(steps@) =~= step_views(before).push(
        StepView::Write(path@, content@, failure@),
    ));
}

/// What is said where a directory cannot be made.
pub fn dir_failure(path: &str) -> (r: String)
    ensures
        r@ == "Failed to create "@ + path@ + "/ directory"@,
{
    let mut r = "Failed to create ".to_owned();
    r.append(path);
    r.append("/ directory");
    r
}

/// The first steps of an initialization: the configuration, the directories and
/// the task database, each where it is not there yet.
pub fn init_in_dir(
    has_config: bool,
    has_database: bool,
    legacy_skills: bool,
    skills: &str,
) -> (r: Vec<Step>)
    ensures
        step_views(r@) == config_steps(has_config) + dir_steps(legacy_skills, skills@)
            + database_steps(has_database),
{
    let mut r: Vec<Step> = Vec::new();
    if has_config {
        say(&mut r, ".ralph.toml already exists, skipping.");
    } else {
        write_file(&mut r, ".ralph.toml", DEFAULT_CONFIG, "Failed to create .ralph.toml");
        say(&mut r, "Created .ralph.toml");
    }
    assert(step_views(r@) =~= config_steps(has_config));
    make_dir(&mut r, ".ralph");
    make_dir(&mut r, ".ralph/features");
    make_dir(&mut r, ".ralph/knowledge");
    make_dir(&mut r, skills);
    say(&mut r, "Created .ralph/ directory structure");
    if legacy_skills {
        let mut line = "Note: Skills have moved to ".to_owned();
        line.append(skills);
        line.append("/. See migration guide.");
        say(&mut r, line.as_str());
    }
    assert(step_views(r@) =~= config_steps(has_config) + dir_steps(legacy_skills, skills@));
    if !has_database {
        proof {
            reveal_strlit("");
        }
        assert(""@ =~= Seq::<char>::empty());
        write_file(&mut r, GITIGNORE_ENTRY, "", "Failed to create .ralph/progress.db");
        say(&mut r, "Created .ralph/progress.db");
    }
    assert(step_views(r@) =~= config_steps(has_config) + dir_steps(legacy_skills, skills@)
        + database_steps(has_database));
    r
}

/// The last steps of an initialization, given what the `.gitignore` holds: it
/// lists the task database, and the next commands are named.
pub fn finish_init(gitignore: Option<&str>) -> (r: Vec<Step>)
    ensures
        step_views(r@) == gitignore_steps(opt_str(gitignore)) + closing_steps(),
{
    let mut r: Vec<Step> = Vec::new();
    match updated_gitignore(gitignore) {
        Some(new) => match gitignore {
            Some(_) => {
                write_file(&mut r, ".gitignore", new.as_str(), "Failed to update .gitignore");
                say(&mut r, "Added .ralph/progress.db to .gitignore");
            },
            None => {
                write_file(&mut r, ".gitignore", new.as_str(), "Failed to create .gitignore");
                say(&mut r, "Created .gitignore with .ralph/progress.db");
            },
        },
        None => {},
    }
    assert(step_views(r@) =~= gitignore_steps(opt_str(gitignore)));
    say(&mut r, "\nRalph project initialized successfully!");
    say(&mut r, "Next steps:");
    say(&mut r, "  - Run 'ralph feature spec <name>' to define a feature");
    say(&mut r, "  - Or run 'ralph task new' to create a standalone task");
    assert(step_views(r@) =~= gitignore_steps(opt_str(gitignore)) + closing_steps());
    r
}

} // verus!
