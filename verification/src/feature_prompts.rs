//! Prompt and context builders used by `feature create` and task-creation flows.

use vstd::prelude::*;

use crate::dag::model::{feature_views, task_views, Db, DbView, FeatureView, Task, TaskView};
use crate::dag::queries::{selected, Select};
use crate::feature::listed_features;
use crate::review::{lemma_inside, lemma_part};
use crate::sandbox::profile::lemma_joined_holds;
use crate::text::basic::{chars_of, opt_str, slice_text, texts};
use crate::text::search::{
    contains, lemma_contains_left, lemma_contains_right, lemma_contains_self,
};
use crate::text::shape::{join, joined};

verus! {

/// How many characters of a context file are shown.
pub const MAX_CONTEXT_FILE_CHARS: usize = 10000;

/// Part 1 of the prompt for writing a feature's spec.
pub const SPEC_PROMPT_A: &'static str = r#"You are co-authoring a specification for a new project or feature with the user - ""#;

/// Part 2 of the prompt for writing a feature's spec.
pub const SPEC_PROMPT_B: &'static str = r#"".

## Your Role

Interview the user thoroughly to understand their requirements, then write a comprehensive specification document.

## Scope — SPECIFICATION DOCUMENT ONLY

This is a SPECIFICATION session. You are authoring a spec document — nothing else.

Your ONLY deliverable is the spec document at `"#;

/// Part 3 of the prompt for writing a feature's spec.
pub const SPEC_PROMPT_C: &'static str = r#"`. You must NOT:
- Write or modify any source code, tests, or configuration files
- Run build commands, test commands, or any implementation steps
- Create any files other than the spec document itself
- Start implementing the spec — that happens in later phases of `ralph feature create` and via `ralph run`

IMPORTANT: Once you have written the spec document to `"#;

/// Part 4 of the prompt for writing a feature's spec.
pub const SPEC_PROMPT_D: &'static str = r#"`, your work is DONE.
Do NOT proceed to implement anything. Do NOT try to create tasks. Do NOT run any commands.
Tell the user the spec is written and emit the completion sigil: `<phase-complete>spec</phase-complete>`

## Workflow

1. **Interview** — Ask the user about requirements, constraints, edge cases, and acceptance criteria.
2. **Write** — Once you have enough information, write the spec to `"#;

/// Part 5 of the prompt for writing a feature's spec.
pub const SPEC_PROMPT_E: &'static str = r#"`.
3. **Signal completion** — After writing the spec file, tell the user it's done and emit `<phase-complete>spec</phase-complete>`. Do NOT continue working.

## Interview Style

- Ask ONE focused question at a time. Wait for the user's answer before asking the next.
- For choices, present numbered options so the user can reply with just a number:
  ```
  How should auth tokens be stored?
  1. HTTP-only cookies
  2. localStorage
  3. In-memory only
  ```
- Summarize what you've learned periodically and ask if anything is missing.
- The user has multi-line input — they can provide detailed answers. Don't rush them.

## Guidelines

- Ask about:
  - What the feature should do (functional requirements)
  - Technical constraints and preferences
  - Expected behavior and edge cases
  - Testing requirements and acceptance criteria
  - Dependencies and integration points

- The spec should be:
  - Detailed & clear enough for one or more AI agents to implement without prior context
  - Structured with markdown sections
  - Concrete with examples and schemas
  - Testable with clear acceptance criteria

"#;

/// Part 6 of the prompt for writing a feature's spec.
pub const SPEC_PROMPT_F: &'static str = r#"

## Output

Write the final spec to: `"#;

/// Part 7 of the prompt for writing a feature's spec.
pub const SPEC_PROMPT_G: &'static str = r#"`

Include sections for:
1. **Overview** - What this feature does
2. **Requirements** - Functional and non-functional
3. **Architecture** - Components, data flow
4. **API / Interface** - Function signatures, contracts
5. **Data Models** - Types, schemas, validation
6. **Testing** - Test cases, acceptance criteria
7. **Dependencies** - Libraries, services"#;

/// The prompt for writing a feature's spec.
pub open spec fn spec_prompt(
    name: Seq<char>,
    spec_path: Seq<char>,
    context: Seq<char>,
) -> Seq<char> {
    SPEC_PROMPT_A@ + name + SPEC_PROMPT_B@ + spec_path + SPEC_PROMPT_C@ + spec_path
        + SPEC_PROMPT_D@ + spec_path + SPEC_PROMPT_E@ + context + SPEC_PROMPT_F@ + spec_path
        + SPEC_PROMPT_G@
}

/// Builds the system prompt for writing a feature's spec.
pub fn build_feature_spec_system_prompt(name: &str, spec_path: &str, context: &str) -> (r: String)
    ensures
        r@ == spec_prompt(name@, spec_path@, context@),
{
    let mut r = SPEC_PROMPT_A.to_owned();
    r.append(name);
    r.append(SPEC_PROMPT_B);
    r.append(spec_path);
    r.append(SPEC_PROMPT_C);
    r.append(spec_path);
    r.append(SPEC_PROMPT_D);
    r.append(spec_path);
    r.append(SPEC_PROMPT_E);
    r.append(context);
    r.append(SPEC_PROMPT_F);
    r.append(spec_path);
    r.append(SPEC_PROMPT_G);
    r
}

/// Part 1 of the prompt for writing a feature's plan.
pub const PLAN_PROMPT_A: &'static str = r#"You are helping the user create an implementation plan for feature ""#;

/// Part 2 of the prompt for writing a feature's plan.
pub const PLAN_PROMPT_B: &'static str = r#"".

## Your Role

Interview the user to discuss implementation approach and trade-offs, then write a detailed implementation plan document. The plan should break down the work into logical phases.

## Scope — PLANNING DOCUMENT ONLY

This is a PLANNING session. You are authoring a plan document — nothing else.

Your ONLY deliverable is the plan document at `"#;

/// Part 3 of the prompt for writing a feature's plan.
pub const PLAN_PROMPT_C: &'static str = r#"`. You must NOT:
- Write or modify any source code, tests, or configuration files
- Run build commands, test commands, or any implementation steps
- Create any files other than the plan document itself
- Read source code for the purpose of starting implementation
- Start implementing the plan — that happens in later phases of `ralph feature create` and via `ralph run`

IMPORTANT: Once you have written the plan document to `"#;

/// Part 4 of the prompt for writing a feature's plan.
pub const PLAN_PROMPT_D: &'static str = r#"`, your work is DONE.
Do NOT proceed to implement anything. Do NOT try to create tasks. Do NOT run any commands.
Tell the user the plan is written and emit the completion sigil: `<phase-complete>plan</phase-complete>`

## Workflow

1. **Interview** — Discuss the spec with the user. Ask about implementation preferences,
   architectural choices, ordering, and any ambiguities. You may read the codebase to
   understand existing patterns relevant to planning.
2. **Write** — Once the user agrees on the approach, write the plan to `"#;

/// Part 5 of the prompt for writing a feature's plan.
pub const PLAN_PROMPT_E: &'static str = r#"`.
3. **Signal completion** — After writing the plan file, tell the user it's done and emit `<phase-complete>plan</phase-complete>`. Do NOT continue working.

## Interview Style

- Ask ONE focused question at a time. Wait for the user's answer before asking the next.
- For choices, present numbered options so the user can reply with just a number:
  ```
  Which pattern should we use for state management?
  1. Single global store
  2. Per-component local state
  3. Hybrid approach
  ```
- Summarize what you've learned periodically and ask if anything is missing.
- The user has multi-line input — they can provide detailed answers. Don't rush them.

## Guidelines

- Ask clarifying questions about anything ambiguous in the spec
- Consider implementation order and dependencies
- Include verification criteria for each section
- Reference the spec sections by name

"#;

/// Part 6 of the prompt for writing a feature's plan.
pub const PLAN_PROMPT_F: &'static str = r#"

## Specification

"#;

/// Part 7 of the prompt for writing a feature's plan.
pub const PLAN_PROMPT_G: &'static str = r#"

## Output

Write the final plan to: `"#;

/// Part 8 of the prompt for writing a feature's plan.
pub const PLAN_PROMPT_H: &'static str = r#"`

The plan should include:
1. **Implementation phases** - Ordered list of work to do
2. **Per-phase details** - What to implement, what to test
3. **Verification criteria** - How to know each phase is done
4. **Risk areas** - Things that might go wrong

After writing the plan file, STOP. Do not implement anything."#;

/// The prompt for writing a feature's plan.
pub open spec fn plan_prompt(
    name: Seq<char>,
    spec_content: Seq<char>,
    plan_path: Seq<char>,
    context: Seq<char>,
) -> Seq<char> {
    PLAN_PROMPT_A@ + name + PLAN_PROMPT_B@ + plan_path + PLAN_PROMPT_C@ + plan_path
        + PLAN_PROMPT_D@ + plan_path + PLAN_PROMPT_E@ + context + PLAN_PROMPT_F@ + spec_content
        + PLAN_PROMPT_G@ + plan_path + PLAN_PROMPT_H@
}

/// Builds the system prompt for writing a feature's plan.
pub fn build_feature_plan_system_prompt(
    name: &str,
    spec_content: &str,
    plan_path: &str,
    context: &str,
) -> (r: String)
    ensures
        r@ == plan_prompt(name@, spec_content@, plan_path@, context@),
{
    let mut r = PLAN_PROMPT_A.to_owned();
    r.append(name);
    r.append(PLAN_PROMPT_B);
    r.append(plan_path);
    r.append(PLAN_PROMPT_C);
    r.append(plan_path);
    r.append(PLAN_PROMPT_D);
    r.append(plan_path);
    r.append(PLAN_PROMPT_E);
    r.append(context);
    r.append(PLAN_PROMPT_F);
    r.append(spec_content);
    r.append(PLAN_PROMPT_G);
    r.append(plan_path);
    r.append(PLAN_PROMPT_H);
    r
}

/// The opening of the prompt for creating a feature's tasks, up to the name of
/// the agent.
pub const BUILD_PROMPT_START: &'static str = r#"You are a planning agent for Ralph, an autonomous AI agent loop that drives "#;

/// What follows it, up to the next name of the agent.
pub const BUILD_PROMPT_LOOP: &'static str = r#" Code.

Decompose the feature's plan into a task DAG by creating tasks using the `ralph` CLI.

## How Ralph Executes Tasks

- Picks ONE ready leaf task per iteration, assigns it to a fresh "#;

/// Part 1 of the prompt for creating a feature's tasks.
pub const BUILD_PROMPT_A: &'static str = r#" Code session
- The session gets: task title, description, parent context, completed prerequisite summaries, plus the full spec and plan content
- Only leaf tasks execute — parent tasks auto-complete when all children complete

## Specification

"#;

/// Part 2 of the prompt for creating a feature's tasks.
pub const BUILD_PROMPT_B: &'static str = r#"

## Plan

"#;

/// Part 3 of the prompt for creating a feature's tasks.
pub const BUILD_PROMPT_C: &'static str = r#"

## Root Task

A root task has already been created for this feature:
- **Root Task ID:** `"#;

/// Part 4 of the prompt for creating a feature's tasks.
pub const BUILD_PROMPT_D: &'static str = r#"`
- **Feature ID:** `"#;

/// Part 5 of the prompt for creating a feature's tasks.
pub const BUILD_PROMPT_E: &'static str = r#"`

All tasks you create should be children of this root task (or children of other tasks you create under it).

## CLI Commands

Use these `ralph` commands via the Bash tool to create the task DAG:

### Create a task
```bash
ralph task add "Short imperative title" \
  -d "Detailed description: what to do, which files to touch, how to verify." \
  --parent "#;

/// Part 6 of the prompt for creating a feature's tasks.
pub const BUILD_PROMPT_F: &'static str = r#" \
  --feature "#;

/// Part 7 of the prompt for creating a feature's tasks.
pub const BUILD_PROMPT_G: &'static str = r#"
```

This prints the new task ID (e.g., `t-a1b2c3`) to stdout. Capture it:
```bash
ID=$(ralph task add "Title" -d "Description" --parent "#;

/// Part 8 of the prompt for creating a feature's tasks.
pub const BUILD_PROMPT_H: &'static str = r#" --feature "#;

/// Part 9 of the prompt for creating a feature's tasks.
pub const BUILD_PROMPT_I: &'static str = r#")
```

### Create a child task under another task
```bash
CHILD=$(ralph task add "Child task" -d "Description" --parent $PARENT_ID --feature "#;

/// Part 10 of the prompt for creating a feature's tasks.
pub const BUILD_PROMPT_J: &'static str = r#")
```

### Add a dependency (A must complete before B)
```bash
ralph task deps add $BLOCKER_ID $BLOCKED_ID
```

## Decomposition Rules

1. **Right-size tasks**: One coherent unit of work per task. Good tasks touch 1-3 files.
2. **Reference spec/plan sections**: Each task description must reference which spec/plan section it implements
3. **Include acceptance criteria**: Each task must include how to verify it's done
4. **Parent tasks for grouping**: Parents organize related children, they never execute
5. **Dependencies for ordering**: Only when task B needs artifacts from task A
6. **Foundation first**: Schemas and types before the code that uses them

## Completion Signal

When you are done creating all tasks and dependencies, emit the completion sigil:
`<phase-complete>build</phase-complete>`

This tells Ralph the task DAG is complete and it can print a summary.

## Instructions

1. Read the spec and plan carefully
2. Create parent tasks for logical groupings (as children of `"#;

/// Part 11 of the prompt for creating a feature's tasks.
pub const BUILD_PROMPT_K: &'static str = r#"`)
3. Create leaf tasks under each parent
4. Add dependencies between tasks where order matters
5. Emit `<phase-complete>build</phase-complete>` when done"#;

/// The prompt for creating a feature's tasks.
pub open spec fn build_prompt(
    agent: Seq<char>,
    spec_content: Seq<char>,
    plan_content: Seq<char>,
    root_id: Seq<char>,
    feature_id: Seq<char>,
) -> Seq<char> {
    BUILD_PROMPT_START@ + agent + BUILD_PROMPT_LOOP@ + agent + BUILD_PROMPT_A@ + spec_content
        + BUILD_PROMPT_B@ + plan_content + BUILD_PROMPT_C@ + root_id + BUILD_PROMPT_D@
        + feature_id + BUILD_PROMPT_E@ + root_id + BUILD_PROMPT_F@ + feature_id
        + BUILD_PROMPT_G@ + root_id + BUILD_PROMPT_H@ + feature_id + BUILD_PROMPT_I@
        + feature_id + BUILD_PROMPT_J@ + root_id + BUILD_PROMPT_K@
}

/// Builds the system prompt for creating a feature's tasks.
pub fn build_feature_build_system_prompt(
    agent: &str,
    spec_content: &str,
    plan_content: &str,
    root_id: &str,
    feature_id: &str,
) -> (r: String)
    ensures
        r@ == build_prompt(agent@, spec_content@, plan_content@, root_id@, feature_id@),
{
    let mut r = BUILD_PROMPT_START.to_owned();
    r.append(agent);
    r.append(BUILD_PROMPT_LOOP);
    r.append(agent);
    r.append(BUILD_PROMPT_A);
    r.append(spec_content);
    r.append(BUILD_PROMPT_B);
    r.append(plan_content);
    r.append(BUILD_PROMPT_C);
    r.append(root_id);
    r.append(BUILD_PROMPT_D);
    r.append(feature_id);
    r.append(BUILD_PROMPT_E);
    r.append(root_id);
    r.append(BUILD_PROMPT_F);
    r.append(feature_id);
    r.append(BUILD_PROMPT_G);
    r.append(root_id);
    r.append(BUILD_PROMPT_H);
    r.append(feature_id);
    r.append(BUILD_PROMPT_I);
    r.append(feature_id);
    r.append(BUILD_PROMPT_J);
    r.append(root_id);
    r.append(BUILD_PROMPT_K);
    r
}

/// Part 1 of the prompt for creating a standalone task.
pub const TASK_PROMPT_A: &'static str = r#"You are helping the user create a standalone task for Ralph, an autonomous AI agent loop.

## Your Role

Interview the user about what they want done, then create a standalone task in the Ralph database.

## Interview Style

- Ask ONE focused question at a time. Wait for the user's answer before asking the next.
- For choices, present numbered options so the user can reply with just a number.
- The user has multi-line input — they can provide detailed answers. Don't rush them.

## Guidelines

- Ask the user:
  - What they want accomplished
  - Any specific files or areas of the codebase
  - Acceptance criteria (how to know it's done)
  - Priority level

- Keep the task focused — one logical unit of work

"#;

/// Part 2 of the prompt for creating a standalone task.
pub const TASK_PROMPT_B: &'static str = r#"

## Creating the Task

After gathering requirements, create the task by running the `ralph task add` command via the terminal.

Usage: `ralph task add <TITLE> -d <DESCRIPTION> --priority <N>`

Example:
```
ralph task add "Refactor auth module" -d "Extract token validation into a separate function. Acceptance criteria: all existing tests pass, new unit test for the extracted function." --priority 0
```

The command prints the new task ID on success. Confirm the task was created by showing the ID to the user.

After creating the task, emit the completion sigil: `<tasks-created></tasks-created>`
This tells Ralph the task has been created and the session can end.

IMPORTANT: You MUST use the terminal to run `ralph task add`. Do NOT just output JSON — it will not be processed."#;

/// The prompt for creating a standalone task.
pub open spec fn task_prompt(context: Seq<char>) -> Seq<char> {
    TASK_PROMPT_A@ + context + TASK_PROMPT_B@
}

/// Builds the system prompt for creating a standalone task.
pub fn build_task_new_system_prompt(context: &str) -> (r: String)
    ensures
        r@ == task_prompt(context@),
{
    let mut r = TASK_PROMPT_A.to_owned();
    r.append(context);
    r.append(TASK_PROMPT_B);
    r
}

/// At most `limit` characters of a text, with a notice where it has more.
pub open spec fn cut_context(content: Seq<char>, limit: nat, hint: Seq<char>) -> Seq<char> {
    if content.len() <= limit {
        content
    } else {
        content.take(limit as int) + "\n\n[Truncated -- full file at "@ + hint + "]"@
    }
}

/// Truncates content to a character limit with a notice.
pub fn truncate_context(content: &str, limit: usize, file_hint: &str) -> (r: String)
    ensures
        r@ == cut_context(content@, limit as nat, file_hint@),
{
    let cs = chars_of(content);
    if cs.len() <= limit {
        return content.to_owned();
    }
    let mut r = slice_text(&cs, 0, limit);
    assert(r@ =~= content@.take(limit as int));
    r.append("\n\n[Truncated -- full file at ");
    r.append(file_hint);
    r.append("]");
    r
}

/// A mark where there is something.
pub open spec fn mark(o: Option<Seq<char>>) -> Seq<char> {
    if o is Some {
        "✓"@
    } else {
        Seq::empty()
    }
}

/// The row of a feature.
pub open spec fn feature_row(f: FeatureView) -> Seq<char> {
    "| "@ + f.name + " | "@ + f.status + " | "@ + mark(f.spec_path) + " | "@ + mark(f.plan_path)
        + " |\n"@
}

/// The rows of features.
pub open spec fn feature_rows(s: Seq<FeatureView>) -> Seq<char>
    decreases s.len(),
{
    if s.len() == 0 {
        Seq::empty()
    } else {
        feature_rows(s.drop_last()) + feature_row(s.last())
    }
}

/// The line of a task.
pub open spec fn task_line(t: TaskView) -> Seq<char> {
    "- **"@ + t.id + "** ("@ + t.status + "): "@ + t.title + "\n"@
}

/// The lines of tasks.
pub open spec fn task_lines(s: Seq<TaskView>) -> Seq<char>
    decreases s.len(),
{
    if s.len() == 0 {
        Seq::empty()
    } else {
        task_lines(s.drop_last()) + task_line(s.last())
    }
}

/// The section, where it is to be shown.
pub open spec fn when(show: bool, section: Seq<char>) -> Seq<Seq<char>> {
    if show {
        seq![section]
    } else {
        Seq::empty()
    }
}

/// The sections of the project context: the notes for agents, the
/// configuration, the features, and the standalone tasks.
pub open spec fn context_sections(
    guide: Seq<char>,
    notes: Option<Seq<char>>,
    config_toml: Option<Seq<char>>,
    features: Seq<FeatureView>,
    tasks: Seq<TaskView>,
) -> Seq<Seq<char>> {
    seq![
        match notes {
            Some(c) => "### "@ + guide + "\n\n"@ + cut_context(
                c,
                MAX_CONTEXT_FILE_CHARS as nat,
                guide,
            ),
            None => "### "@ + guide + "\n\n[Not found]"@,
        },
    ] + (match config_toml {
        Some(c) => seq!["### Configuration (.ralph.toml)\n\n```toml\n"@ + c + "\n```"@],
        None => Seq::empty(),
    }) + when(
        features.len() > 0,
        "### Existing Features\n\n| Name | Status | Has Spec | Has Plan |\n|------|--------|----------|----------|\n"@
            + feature_rows(features),
    ) + when(tasks.len() > 0, "### Existing Standalone Tasks\n\n"@ + task_lines(tasks))
}

/// The project context.
pub open spec fn project_context(
    db: DbView,
    guide: Seq<char>,
    notes: Option<Seq<char>>,
    config_toml: Option<Seq<char>>,
    include_tasks: bool,
) -> Seq<char> {
    "## Project Context\n\n"@ + join(
        context_sections(
            guide,
            notes,
            config_toml,
            listed_features(db.features),
            if include_tasks {
                selected(db, Select::Standalone)
            } else {
                Seq::empty()
            },
        ),
        "\n\n"@,
    )
}

/// A file for the context is shown whole up to its limit; a longer one is cut
/// there, and told where it stands.
pub proof fn law_context_is_cut(content: Seq<char>, limit: nat, hint: Seq<char>)
    ensures
        content.len() <= limit ==> cut_context(content, limit, hint) == content,
        content.len() > limit ==> cut_context(content, limit, hint) == content.take(limit as int)
            + "\n\n[Truncated -- full file at "@ + hint + "]"@,
{
}

/// The project's context holds the project's notes, or tells that they are
/// missing, its configuration, a row for each feature, and, where tasks are asked
/// for, a line for each standalone task.
pub proof fn law_project_context_tells(
    db: DbView,
    guide: Seq<char>,
    notes: Option<Seq<char>>,
    config_toml: Option<Seq<char>>,
    f: FeatureView,
    t: TaskView,
)
    ensures
        ({
            let all = project_context(db, guide, notes, config_toml, true);
            let some = project_context(db, guide, notes, config_toml, false);
            let mark = |o: Option<Seq<char>>|
                if o is Some {
                    "✓"@
                } else {
                    Seq::<char>::empty()
                };
            let row = "| "@ + f.name + " | "@ + f.status + " | "@ + mark(f.spec_path) + " | "@
                + mark(f.plan_path) + " |\n"@;
            &&& notes is None ==> contains(all, "### "@ + guide + "\n\n[Not found]"@)
            &&& notes is Some && notes->0.len() <= 10000 ==> contains(
                all,
                "### "@ + guide + "\n\n"@ + notes->0,
            )
            &&& config_toml is Some ==> contains(all, "```toml\n"@ + config_toml->0 + "\n```"@)
            &&& listed_features(db.features).contains(f) ==> contains(all, row) && contains(
                some,
                row,
            )
            &&& selected(db, Select::Standalone).contains(t) ==> contains(
                all,
                "- **"@ + t.id + "** ("@ + t.status + "): "@ + t.title + "\n"@,
            )
        }),
{
    let fs = listed_features(db.features);
    let ts = selected(db, Select::Standalone);
    let none = Seq::<TaskView>::empty();
    lemma_context_told(guide, notes, config_toml, fs, ts, f, t);
    lemma_context_told(guide, notes, config_toml, fs, none, f, t);
    let a = context_sections(guide, notes, config_toml, fs, ts);
    let b = context_sections(guide, notes, config_toml, fs, none);
    let head = "## Project Context\n\n"@;
    let e = Seq::<char>::empty();
    assert(head + join(a, "\n\n"@) + e =~= head + join(a, "\n\n"@));
    assert(head + join(b, "\n\n"@) + e =~= head + join(b, "\n\n"@));
    lemma_part(head, join(a, "\n\n"@), e);
    lemma_part(head, join(b, "\n\n"@), e);
    let all = project_context(db, guide, notes, config_toml, true);
    let some = project_context(db, guide, notes, config_toml, false);
    if notes is None {
        lemma_inside(all, join(a, "\n\n"@), "### "@ + guide + "\n\n[Not found]"@);
    } else if notes->0.len() <= 10000 {
        lemma_inside(all, join(a, "\n\n"@), "### "@ + guide + "\n\n"@ + notes->0);
    }
    if config_toml is Some {
        lemma_inside(all, join(a, "\n\n"@), "```toml\n"@ + config_toml->0 + "\n```"@);
    }
    if fs.contains(f) {
        lemma_inside(all, join(a, "\n\n"@), feature_row(f));
        lemma_inside(some, join(b, "\n\n"@), feature_row(f));
    }
    if ts.contains(t) {
        lemma_inside(all, join(a, "\n\n"@), task_line(t));
    }
}

proof fn lemma_context_told(
    guide: Seq<char>,
    notes: Option<Seq<char>>,
    config_toml: Option<Seq<char>>,
    fs: Seq<FeatureView>,
    ts: Seq<TaskView>,
    f: FeatureView,
    t: TaskView,
)
    ensures
        ({
            let s = join(context_sections(guide, notes, config_toml, fs, ts), "\n\n"@);
            &&& notes is None ==> contains(s, "### "@ + guide + "\n\n[Not found]"@)
            &&& notes is Some && notes->0.len() <= 10000 ==> contains(
                s,
                "### "@ + guide + "\n\n"@ + notes->0,
            )
            &&& config_toml is Some ==> contains(s, "```toml\n"@ + config_toml->0 + "\n```"@)
            &&& fs.contains(f) ==> contains(s, feature_row(f))
            &&& ts.contains(t) ==> contains(s, task_line(t))
        }),
{
    let p = context_sections(guide, notes, config_toml, fs, ts);
    let s = join(p, "\n\n"@);
    let k = if config_toml is Some {
        1int
    } else {
        0
    };
    let m = if fs.len() > 0 {
        1int
    } else {
        0
    };
    lemma_section_places(guide, notes, config_toml, fs, ts);
    lemma_joined_holds(p, "\n\n"@, 0);
    if config_toml is Some {
        let told = "```toml\n"@ + config_toml->0 + "\n```"@;
        lemma_joined_holds(p, "\n\n"@, 1);
        lemma_toml_told(config_toml->0);
        lemma_inside(s, p[1], told);
    }
    if fs.contains(f) {
        lemma_joined_holds(p, "\n\n"@, 1 + k);
        lemma_row_told(fs, f);
        lemma_contains_right("### Existing Features\n\n| Name | Status | Has Spec | Has Plan |\n|------|--------|----------|----------|\n"@, feature_rows(fs), feature_row(f));
        lemma_inside(s, p[1 + k], feature_row(f));
    }
    if ts.contains(t) {
        lemma_joined_holds(p, "\n\n"@, 1 + k + m);
        lemma_line_told(ts, t);
        lemma_contains_right("### Existing Standalone Tasks\n\n"@, task_lines(ts), task_line(t));
        lemma_inside(s, p[1 + k + m], task_line(t));
    }
}

/// Where the sections of the context stand.
proof fn lemma_section_places(
    guide: Seq<char>,
    notes: Option<Seq<char>>,
    config_toml: Option<Seq<char>>,
    fs: Seq<FeatureView>,
    ts: Seq<TaskView>,
)
    ensures
        ({
            let p = context_sections(guide, notes, config_toml, fs, ts);
            let k = if config_toml is Some {
                1int
            } else {
                0
            };
            let m = if fs.len() > 0 {
                1int
            } else {
                0
            };
            &&& p.len() >= 1 + k + m
            &&& notes is None ==> p[0] == "### "@ + guide + "\n\n[Not found]"@
            &&& notes is Some && notes->0.len() <= 10000 ==> p[0] == "### "@ + guide + "\n\n"@
                + notes->0
            &&& config_toml is Some ==> p[1] == "### Configuration (.ralph.toml)\n\n```toml\n"@
                + config_toml->0 + "\n```"@
            &&& fs.len() > 0 ==> p[1 + k] == "### Existing Features\n\n| Name | Status | Has Spec | Has Plan |\n|------|--------|----------|----------|\n"@ + feature_rows(fs)
            &&& ts.len() > 0 ==> p.len() > 1 + k + m && p[1 + k + m]
                == "### Existing Standalone Tasks\n\n"@ + task_lines(ts)
        }),
{
}

proof fn lemma_toml_told(c: Seq<char>)
    ensures
        contains(
            "### Configuration (.ralph.toml)\n\n```toml\n"@ + c + "\n```"@,
            "```toml\n"@ + c + "\n```"@,
        ),
{
    let h = "### Configuration (.ralph.toml)\n\n"@;
    let told = "```toml\n"@ + c + "\n```"@;
    let e = Seq::<char>::empty();
    assert("### Configuration (.ralph.toml)\n\n```toml\n"@ =~= h + "```toml\n"@) by {
        reveal_strlit("### Configuration (.ralph.toml)\n\n```toml\n");
        reveal_strlit("### Configuration (.ralph.toml)\n\n");
        reveal_strlit("```toml\n");
    }
    assert("### Configuration (.ralph.toml)\n\n```toml\n"@ + c + "\n```"@ =~= h + told + e);
    lemma_part(h, told, e);
}

proof fn lemma_row_told(fs: Seq<FeatureView>, f: FeatureView)
    requires
        fs.contains(f),
    ensures
        contains(feature_rows(fs), feature_row(f)),
    decreases fs.len(),
{
    let d = fs.drop_last();
    if d.contains(f) {
        lemma_row_told(d, f);
        lemma_contains_left(feature_rows(d), feature_row(fs.last()), feature_row(f));
    } else {
        let i = choose|i: int| 0 <= i < fs.len() && fs[i] == f;
        if i < d.len() {
            assert(d[i] == f);
        }
        lemma_contains_self(feature_row(f));
        lemma_contains_right(feature_rows(d), feature_row(fs.last()), feature_row(f));
    }
}

proof fn lemma_line_told(ts: Seq<TaskView>, t: TaskView)
    requires
        ts.contains(t),
    ensures
        contains(task_lines(ts), task_line(t)),
    decreases ts.len(),
{
    let d = ts.drop_last();
    if d.contains(t) {
        lemma_line_told(d, t);
        lemma_contains_left(task_lines(d), task_line(ts.last()), task_line(t));
    } else {
        let i = choose|i: int| 0 <= i < ts.len() && ts[i] == t;
        if i < d.len() {
            assert(d[i] == t);
        }
        lemma_contains_self(task_line(t));
        lemma_contains_right(task_lines(d), task_line(ts.last()), task_line(t));
    }
}

/// The prompts of the phases name what they are about: the feature, the file to
/// write, the spec and the plan, and the project's context.
pub proof fn law_phase_prompts_tell(
    name: Seq<char>,
    path: Seq<char>,
    spec_content: Seq<char>,
    plan_content: Seq<char>,
    context: Seq<char>,
    agent: Seq<char>,
    root_id: Seq<char>,
    feature_id: Seq<char>,
)
    ensures
        contains(spec_prompt(name, path, context), path),
        contains(spec_prompt(name, path, context), context),
        contains(plan_prompt(name, spec_content, path, context), path),
        contains(plan_prompt(name, spec_content, path, context), spec_content),
        contains(build_prompt(agent, spec_content, plan_content, root_id, feature_id), root_id),
        contains(build_prompt(agent, spec_content, plan_content, root_id, feature_id), feature_id),
        contains(task_prompt(context), context),
{
    let a = SPEC_PROMPT_A@ + name + SPEC_PROMPT_B@ + path + SPEC_PROMPT_C@ + path + SPEC_PROMPT_D@
        + path + SPEC_PROMPT_E@;
    let b = a + context + SPEC_PROMPT_F@;
    lemma_part(a, context, SPEC_PROMPT_F@);
    lemma_part(b, path, SPEC_PROMPT_G@);
    lemma_contains_left(b, path, context);
    lemma_contains_left(b + path, SPEC_PROMPT_G@, context);
    let c = PLAN_PROMPT_A@ + name + PLAN_PROMPT_B@ + path + PLAN_PROMPT_C@ + path + PLAN_PROMPT_D@
        + path + PLAN_PROMPT_E@ + context + PLAN_PROMPT_F@;
    let d = c + spec_content + PLAN_PROMPT_G@;
    lemma_part(c, spec_content, PLAN_PROMPT_G@);
    lemma_part(d, path, PLAN_PROMPT_H@);
    lemma_contains_left(d, path, spec_content);
    lemma_contains_left(d + path, PLAN_PROMPT_H@, spec_content);
    let f = BUILD_PROMPT_START@ + agent + BUILD_PROMPT_LOOP@ + agent + BUILD_PROMPT_A@
        + spec_content + BUILD_PROMPT_B@ + plan_content + BUILD_PROMPT_C@ + root_id
        + BUILD_PROMPT_D@ + feature_id + BUILD_PROMPT_E@ + root_id + BUILD_PROMPT_F@ + feature_id
        + BUILD_PROMPT_G@ + root_id + BUILD_PROMPT_H@ + feature_id + BUILD_PROMPT_I@;
    let g = f + feature_id + BUILD_PROMPT_J@;
    lemma_part(f, feature_id, BUILD_PROMPT_J@);
    lemma_part(g, root_id, BUILD_PROMPT_K@);
    lemma_contains_left(g, root_id, feature_id);
    lemma_contains_left(g + root_id, BUILD_PROMPT_K@, feature_id);
    lemma_part(TASK_PROMPT_A@, context, TASK_PROMPT_B@);
}

/// Adds a section.
fn push_section(sections: &mut Vec<String>, s: String)
    ensures
        texts(final(sections)@) == texts(old(sections)@).push(s@),
{
    let ghost before = sections@;
    let ghost sv = s@;
    sections.push(s);
    assert(texts(sections@) =~= texts(before).push(sv));
}

/// A mark where there is something.
fn mark_of(o: &Option<String>) -> (r: String)
    ensures
        r@ == mark(crate::text::basic::opt_text(*o)),
{
    match o {
        Some(_) => "✓".to_owned(),
        None => {
            let r = String::new();
            assert(r@ =~= Seq::empty());
            r
        },
    }
}

impl Db {
    /// The rows of the features.
    fn show_features(&self) -> (r: (usize, String))
        requires
            self@.wf(),
        ensures
            r.0 == listed_features(self@.features).len(),
            r.1@ == feature_rows(listed_features(self@.features)),
    {
        let features = self.list_features();
        let ghost all = feature_views(features@);
        assert(all.len() == features@.len());
        let mut out = String::new();
        let mut i: usize = 0;
        assert(out@ =~= feature_rows(all.take(0)));
        while i < features.len()
            invariant
                i <= features@.len(),
                all == feature_views(features@),
                out@ == feature_rows(all.take(i as int)),
            decreases features@.len() - i,
        {
            assert(all.take(i + 1).drop_last() =~= all.take(i as int));
            assert(all[i as int] == features@[i as int]@);
            let f = &features[i];
            let mut row = "| ".to_owned();
            row.append(f.name.as_str());
            row.append(" | ");
            row.append(f.status.as_str());
            row.append(" | ");
            row.append(mark_of(&f.spec_path).as_str());
            row.append(" | ");
            row.append(mark_of(&f.plan_path).as_str());
            row.append(" |\n");
            out.append(row.as_str());
            i = i + 1;
        }
        assert(all.take(all.len() as int) =~= all);
        (features.len(), out)
    }

    /// Gathers project context for interactive session system prompts, from the
    /// notes for agents in the file `guide` and .ralph.toml, where they could be
    /// read, the features, and optionally the standalone tasks.
    pub fn gather_project_context(
        &self,
        guide: &str,
        notes: Option<&str>,
        config_toml: Option<&str>,
        include_tasks: bool,
    ) -> (r: String)
        requires
            self@.wf(),
        ensures
            r@ == project_context(
                self@,
                guide@,
                opt_str(notes),
                opt_str(config_toml),
                include_tasks,
            ),
    {
        let mut sections: Vec<String> = Vec::new();
        assert(texts(sections@) =~= Seq::empty());
        match notes {
            Some(c) => {
                let mut s = "### ".to_owned();
                s.append(guide);
                s.append("\n\n");
                s.append(truncate_context(c, MAX_CONTEXT_FILE_CHARS, guide).as_str());
                push_section(&mut sections, s);
            },
            None => {
                let mut s = "### ".to_owned();
                s.append(guide);
                s.append("\n\n[Not found]");
                push_section(&mut sections, s);
            },
        }
        match config_toml {
            Some(c) => {
                let mut s = "### Configuration (.ralph.toml)\n\n```toml\n".to_owned();
                s.append(c);
                s.append("\n```");
                push_section(&mut sections, s);
            },
            None => {},
        }
        let (n, rows) = self.show_features();
        if n > 0 {
            let mut s =
                "### Existing Features\n\n| Name | Status | Has Spec | Has Plan |\n|------|--------|----------|----------|\n".to_owned();
            s.append(rows.as_str());
            push_section(&mut sections, s);
        }
        let ghost shown = if include_tasks {
            selected(self@, Select::Standalone)
        } else {
            Seq::empty()
        };
        if include_tasks {
            let tasks = self.get_standalone_tasks();
            let ghost all = task_views(tasks@);
            assert(all.len() == tasks@.len());
            if tasks.len() > 0 {
                let mut lines = String::new();
                let mut i: usize = 0;
                assert(lines@ =~= task_lines(all.take(0)));
                while i < tasks.len()
                    invariant
                        i <= tasks@.len(),
                        all == task_views(tasks@),
                        lines@ == task_lines(all.take(i as int)),
                    decreases tasks@.len() - i,
                {
                    assert(all.take(i + 1).drop_last() =~= all.take(i as int));
                    assert(all[i as int] == tasks@[i as int]@);
                    let mut line = "- **".to_owned();
                    line.append(tasks[i].id.as_str());
                    line.append("** (");
                    line.append(tasks[i].status.as_str());
                    line.append("): ");
                    line.append(tasks[i].title.as_str());
                    line.append("\n");
                    lines.append(line.as_str());
                    i = i + 1;
                }
                assert(all.take(all.len() as int) =~= all);
                let mut s = "### Existing Standalone Tasks\n\n".to_owned();
                s.append(lines.as_str());
                push_section(&mut sections, s);
            }
        }
        assert(texts(sections@) =~= context_sections(
            guide@,
            opt_str(notes),
            opt_str(config_toml),
            listed_features(self@.features),
            shown,
        ));
        let mut r = "## Project Context\n\n".to_owned();
        r.append(joined(&sections, "\n\n").as_str());
        r
    }
}

/// A feature's name between two texts.
fn named(before: &str, name: &str, after: &str) -> (r: String)
    ensures
        r@ == before@ + name@ + after@,
{
    let mut r = before.to_owned();
    r.append(name);
    r.append(after);
    r
}

/// Builds the initial message for the feature spec interview.
pub fn build_initial_message_spec(name: &str, resuming: bool) -> (r: String)
    ensures
        r@ == (if resuming {
            "Resume the spec interview for feature \""@ + name@
                + "\". The current spec draft is in your system prompt."@
        } else {
            "Start the spec interview for feature \""@ + name@ + "\"."@
        }),
{
    if resuming {
        named(
            "Resume the spec interview for feature \"",
            name,
            "\". The current spec draft is in your system prompt.",
        )
    } else {
        named("Start the spec interview for feature \"", name, "\".")
    }
}

/// Builds the initial message for the feature plan interview.
pub fn build_initial_message_plan(name: &str, resuming: bool) -> (r: String)
    ensures
        r@ == (if resuming {
            "Resume the plan interview for feature \""@ + name@
                + "\". The current plan draft is in your system prompt."@
        } else {
            "Start the plan interview for feature \""@ + name@
                + "\". The spec is included in your system prompt. Discuss the implementation approach with me before writing the plan file."@
        }),
{
    if resuming {
        named(
            "Resume the plan interview for feature \"",
            name,
            "\". The current plan draft is in your system prompt.",
        )
    } else {
        named(
            "Start the plan interview for feature \"",
            name,
            "\". The spec is included in your system prompt. Discuss the implementation approach with me before writing the plan file.",
        )
    }
}

/// Builds the initial message for the task creation interview.
pub fn build_initial_message_task_new() -> (r: String)
    ensures
        r@ == "Start the task creation interview."@,
{
    "Start the task creation interview.".to_owned()
}

} // verus!
