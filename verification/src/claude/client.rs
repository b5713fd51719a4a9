//! Prompts and arguments of an agent process, and what its end means.

use vstd::prelude::*;

use crate::acp::prompt::{build_assignment, parent_view, task_context};
use crate::acp::types::{blocker_views, TaskInfoView};
use crate::claude::events::ResultEvent;
use crate::config::{Config, ConfigView};
use crate::output::logger::{joined_path, path_join};
use crate::review::{lemma_grown, lemma_part};
use crate::text::basic::{clone_texts, texts};
use crate::text::number::{decimal, decimal_text};
use crate::text::search::contains;
use crate::text::shape::{join, joined};

pub use crate::acp::types::{BlockerContext, ParentContext};

verus! {

/// The system prompt up to the prompt file.
pub const SYSTEM_PROMPT_A: &'static str = r#"You are operating in a Ralph loop - an autonomous, iterative coding workflow.

## Your Task

1. Read "#;

/// Between the prompt file and the progress database.
pub const SYSTEM_PROMPT_B: &'static str = r#" to understand what to do
2. Read "#;

/// Between the first two mentions of the progress database.
pub const SYSTEM_PROMPT_C: &'static str = r#" to see what has already been completed
3. Find the SINGLE highest-priority incomplete task
4. Implement that ONE task only - do not work on multiple tasks
5. Run tests and type checks to verify your work
6. Append a terse summary of what you did to "#;

/// Behind the second mention of the progress database.
pub const SYSTEM_PROMPT_D: &'static str = r#"
7. Commit your changes with a descriptive message; load the committing:git skill first.

## Critical Rules

- ONE TASK PER LOOP. This is essential. Do not implement multiple features.
- Do not assume code exists - search the codebase before implementing
- Do not implement placeholders or stubs - implement fully working code
- If tests fail, fix them before completing
- Update "#;

/// Behind the third mention of the progress database.
pub const SYSTEM_PROMPT_E: &'static str = r#" with what was actually done, not what was planned
- Update AGENTS.md if you encounter any problems and learn how to solve them, e.g.:
    - Bash tool calls that took multiple attempts to write correctly
- The progress file is always gitignored

## Completion

When ALL tasks and specs are complete, output exactly:
<promise>COMPLETE</promise>

Only output this sigil when there is genuinely no more work to do.

## Critical Failure

If you encounter a situation where you cannot continue and further iterations would
be futile, output exactly:
<promise>FAILURE</promise>

Use this when:
- The prompt contains contradictory or impossible requirements
- You are stuck in a loop making no progress after multiple attempts

Document the reason for failure in "#;

/// The rest of the system prompt.
pub const SYSTEM_PROMPT_F: &'static str = r#" before outputting the sigil.

## Model Hint

You can influence which model Ralph selects for the NEXT iteration by emitting a
model hint sigil anywhere in your output:

- `<next-model>opus</next-model>` — request the most capable (and expensive) model
- `<next-model>sonnet</next-model>` — request the balanced model
- `<next-model>haiku</next-model>` — request the fastest and cheapest model

Rules:
- The hint applies to the NEXT iteration only; it is not persistent
- Valid values are exactly: `opus`, `sonnet`, `haiku`
- If omitted, Ralph's configured model strategy decides automatically
- Use this when you can tell the next task is trivial (hint haiku) or complex (hint opus)"#;

/// Information about a task assigned to the agent for the current iteration.
#[derive(Debug)]
pub struct TaskInfo {
    pub task_id: String,
    pub title: String,
    pub description: String,
    pub parent: Option<ParentContext>,
    pub completed_blockers: Vec<BlockerContext>,
    /// The directories whose specs are to be read.
    pub specs_dirs: Vec<String>,
}

/// The task, its parent and its completed prerequisites.
pub open spec fn assignment(t: TaskInfo) -> TaskInfoView {
    TaskInfoView {
        task_id: t.task_id@,
        title: t.title@,
        description: t.description@,
        parent: parent_view(t.parent),
        completed_blockers: blocker_views(t.completed_blockers@),
    }
}

/// The section on specs, where there are any.
pub open spec fn specs_section(dirs: Seq<Seq<char>>) -> Seq<char> {
    if dirs.len() == 0 {
        Seq::empty()
    } else {
        "\n### Reference Specs\nRead all files in: "@ + join(dirs, ", "@) + "\n"@
    }
}

/// Builds a task context block for the assigned task.
///
/// Returns a formatted markdown block with task details, parent context,
/// completed prerequisites, and specs directory references.
pub fn build_task_context(task: &TaskInfo) -> (r: String)
    ensures
        r@ == task_context(assignment(*task)) + specs_section(texts(task.specs_dirs@)),
{
    let mut r = build_assignment(
        task.task_id.as_str(),
        task.title.as_str(),
        task.description.as_str(),
        &task.parent,
        &task.completed_blockers,
    );
    let ghost head = r@;
    assert(texts(task.specs_dirs@).len() == task.specs_dirs@.len());
    if task.specs_dirs.len() > 0 {
        let list = joined(&task.specs_dirs, ", ");
        let mut more = "\n### Reference Specs\nRead all files in: ".to_owned();
        more.append(list.as_str());
        more.append("\n");
        r.append(more.as_str());
    } else {
        assert(r@ =~= head + specs_section(texts(task.specs_dirs@)));
    }
    r
}

/// The path of the progress database.
pub open spec fn progress_db(root: Seq<char>) -> Seq<char> {
    path_join(root, ".ralph/progress.db"@)
}

/// The system prompt of a run.
pub open spec fn system_prompt(c: ConfigView) -> Seq<char> {
    let db = progress_db(c.project_root);
    SYSTEM_PROMPT_A@ + c.prompt_file + SYSTEM_PROMPT_B@ + db + SYSTEM_PROMPT_C@ + db
        + SYSTEM_PROMPT_D@ + db + SYSTEM_PROMPT_E@ + db + SYSTEM_PROMPT_F@
}

/// Builds the system prompt of a run.
pub fn build_system_prompt(config: &Config) -> (r: String)
    ensures
        r@ == system_prompt(config@),
{
    let db = joined_path(config.project_root.as_str(), ".ralph/progress.db");
    let mut r = SYSTEM_PROMPT_A.to_owned();
    r.append(config.prompt_file.as_str());
    r.append(SYSTEM_PROMPT_B);
    r.append(db.as_str());
    r.append(SYSTEM_PROMPT_C);
    r.append(db.as_str());
    r.append(SYSTEM_PROMPT_D);
    r.append(db.as_str());
    r.append(SYSTEM_PROMPT_E);
    r.append(db.as_str());
    r.append(SYSTEM_PROMPT_F);
    r
}

/// The arguments of the agent command. In the sandbox it may do anything;
/// outside it has a list of tools.
pub open spec fn claude_args(c: ConfigView) -> Seq<Seq<char>> {
    seq![
        "--print"@,
        "--verbose"@,
        "--output-format"@,
        "stream-json"@,
        "--no-session-persistence"@,
        "--model"@,
        c.current_model,
        "--system-prompt"@,
        system_prompt(c),
        "@"@ + c.prompt_file,
    ] + (if c.use_sandbox {
        seq!["--dangerously-skip-permissions"@]
    } else {
        seq!["--allowed-tools"@, join(c.allowed_tools, " "@)]
    })
}

/// Adds an argument.
fn push_arg(args: &mut Vec<String>, a: String)
    ensures
        texts(final(args)@) == texts(old(args)@).push(a@),
{
    let ghost before = args@;
    let ghost av = a@;
    args.push(a);
    assert(texts(args@) =~= texts(before).push(av));
}

/// Builds the CLI args for invoking the agent command.
pub fn build_claude_args(config: &Config) -> (r: Vec<String>)
    ensures
        texts(r@) == claude_args(config@),
{
    let prompt = build_system_prompt(config);
    let mut file = "@".to_owned();
    file.append(config.prompt_file.as_str());
    let mut args: Vec<String> = Vec::new();
    push_arg(&mut args, "--print".to_owned());
    push_arg(&mut args, "--verbose".to_owned());
    push_arg(&mut args, "--output-format".to_owned());
    push_arg(&mut args, "stream-json".to_owned());
    push_arg(&mut args, "--no-session-persistence".to_owned());
    push_arg(&mut args, "--model".to_owned());
    push_arg(&mut args, config.current_model.clone());
    push_arg(&mut args, "--system-prompt".to_owned());
    push_arg(&mut args, prompt);
    push_arg(&mut args, file);
    if config.use_sandbox {
        push_arg(&mut args, "--dangerously-skip-permissions".to_owned());
    } else {
        let tools = joined(&config.allowed_tools, " ");
        push_arg(&mut args, "--allowed-tools".to_owned());
        push_arg(&mut args, tools);
    }
    assert(texts(args@) =~= claude_args(config@));
    args
}

/// The agent is started with the model that was selected, is pointed at the
/// prompt file, and skips permissions in a sandbox only; outside one it gets the
/// list of tools that are allowed.
pub proof fn law_agent_arguments(c: ConfigView)
    ensures
        ({
            let a = claude_args(c);
            &&& a[5] == "--model"@ && a[6] == c.current_model
            &&& a[7] == "--system-prompt"@ && a[8] == system_prompt(c)
            &&& a[9] == "@"@ + c.prompt_file
            &&& c.use_sandbox ==> a.len() == 11 && a[10] == "--dangerously-skip-permissions"@
            &&& !c.use_sandbox ==> a.len() == 12 && a[10] == "--allowed-tools"@ && a[11] == join(
                c.allowed_tools,
                " "@,
            )
        }),
{
}

/// The system prompt names the prompt file and the progress database.
pub proof fn law_system_prompt_names_its_files(c: ConfigView)
    ensures
        contains(system_prompt(c), c.prompt_file),
        contains(system_prompt(c), path_join(c.project_root, ".ralph/progress.db"@)),
{
    let db = path_join(c.project_root, ".ralph/progress.db"@);
    let p = system_prompt(c);
    let a = SYSTEM_PROMPT_A@ + c.prompt_file + SYSTEM_PROMPT_B@;
    let front = a + db + SYSTEM_PROMPT_C@ + db + SYSTEM_PROMPT_D@ + db + SYSTEM_PROMPT_E@;
    lemma_part(SYSTEM_PROMPT_A@, c.prompt_file, SYSTEM_PROMPT_B@);
    assert(a.is_prefix_of(p)) by {
        assert(p.subrange(0, a.len() as int) =~= a);
    }
    lemma_grown(p, a, c.prompt_file);
    lemma_part(front, db, SYSTEM_PROMPT_F@);
}

/// The arguments of `sandbox-exec` in front of those of the agent.
pub open spec fn sandbox_prefix(
    profile_path: Seq<char>,
    project_dir: Seq<char>,
    home: Seq<char>,
    git_dir: Seq<char>,
    agent: Seq<char>,
) -> Seq<Seq<char>> {
    seq![
        "-f"@,
        profile_path,
        "-D"@,
        "PROJECT_DIR="@ + project_dir,
        "-D"@,
        "HOME="@ + home,
        "-D"@,
        "ROOT_GIT_DIR="@ + git_dir,
        agent,
    ]
}

/// The sandbox gets its profile and, each under its own name, the project, the
/// home and the git directory; the agent's command comes last.
pub proof fn law_sandbox_arguments(
    profile_path: Seq<char>,
    project_dir: Seq<char>,
    home: Seq<char>,
    git_dir: Seq<char>,
    agent: Seq<char>,
)
    ensures
        ({
            let a = sandbox_prefix(profile_path, project_dir, home, git_dir, agent);
            &&& a[0] == "-f"@ && a[1] == profile_path
            &&& a[2] == "-D"@ && a[3] == "PROJECT_DIR="@ + project_dir
            &&& a[4] == "-D"@ && a[5] == "HOME="@ + home
            &&& a[6] == "-D"@ && a[7] == "ROOT_GIT_DIR="@ + git_dir
            &&& a.len() == 9 && a[8] == agent
        }),
{
}

/// A definition for the sandbox profile.
fn define(name: &str, value: &str) -> (r: String)
    ensures
        r@ == name@ + value@,
{
    let mut r = name.to_owned();
    r.append(value);
    r
}

/// Builds the args for running the agent in the sandbox.
pub fn build_sandbox_args(
    profile_path: &str,
    project_dir: &str,
    home: &str,
    git_dir: &str,
    agent: &str,
    args: &Vec<String>,
) -> (r: Vec<String>)
    ensures
        texts(r@) == sandbox_prefix(profile_path@, project_dir@, home@, git_dir@, agent@) + texts(args@),
{
    let mut r: Vec<String> = Vec::new();
    push_arg(&mut r, "-f".to_owned());
    push_arg(&mut r, profile_path.to_owned());
    push_arg(&mut r, "-D".to_owned());
    push_arg(&mut r, define("PROJECT_DIR=", project_dir));
    push_arg(&mut r, "-D".to_owned());
    push_arg(&mut r, define("HOME=", home));
    push_arg(&mut r, "-D".to_owned());
    push_arg(&mut r, define("ROOT_GIT_DIR=", git_dir));
    push_arg(&mut r, agent.to_owned());
    let ghost head = sandbox_prefix(profile_path@, project_dir@, home@, git_dir@, agent@);
    assert(texts(r@) =~= head);
    let mut more = clone_texts(args);
    let ghost mid = r@;
    r.append(&mut more);
    assert(texts(r@) =~= head + texts(args@));
    r
}

/// The error on a process that did not succeed.
pub fn exit_error(program: &str, status: &str, stderr: &str) -> (r: String)
    ensures
        r@ == program@ + " exited with status: "@ + status@ + (if stderr@.len() == 0 {
            Seq::empty()
        } else {
            "\nstderr: "@ + stderr@
        }),
{
    let mut r = program.to_owned();
    r.append(" exited with status: ");
    r.append(status);
    let ghost head = r@;
    if !stderr.is_empty() {
        let mut more = "\nstderr: ".to_owned();
        more.append(stderr);
        r.append(more.as_str());
    } else {
        assert(r@ =~= head + Seq::empty());
    }
    r
}

/// A number mixed from the nanoseconds of a point in time.
pub fn rand_simple(nanos: u32) -> (r: u32)
    ensures
        r == (((nanos * 1103515245) % 0x1_0000_0000) + 12345) % 0x1_0000_0000,
{
    nanos.wrapping_mul(1103515245).wrapping_add(12345)
}

/// The file name of a sandbox profile.
pub fn profile_name(random: u32) -> (r: String)
    ensures
        r@ == "ralph-sandbox-"@ + decimal(random as nat) + ".sb"@,
{
    let mut r = "ralph-sandbox-".to_owned();
    r.append(decimal_text(random as u64).as_str());
    r.append(".sb");
    r
}

/// The result that counts is the last one of the stream.
pub fn last_result(results: Vec<ResultEvent>) -> (r: Option<ResultEvent>)
    ensures
        results@.len() == 0 ==> r is None,
        results@.len() > 0 ==> r == Some(results@.last()),
{
    let mut results = results;
    results.pop()
}

/// The task is told by its own id, title and description, and the directories of
/// specs are named where there are any.
pub proof fn law_assignment_tells(t: TaskInfo, dirs: Seq<Seq<char>>)
    ensures
        assignment(t).task_id == t.task_id@,
        assignment(t).title == t.title@,
        assignment(t).description == t.description@,
        t.parent is None <==> assignment(t).parent is None,
        assignment(t).completed_blockers.len() == t.completed_blockers@.len(),
        dirs.len() == 0 <==> specs_section(dirs).len() == 0,
        dirs.len() > 0 ==> contains(specs_section(dirs), join(dirs, ", "@)),
{
    reveal_strlit("\n");
    if dirs.len() > 0 {
        let a = "\n### Reference Specs\nRead all files in: "@;
        lemma_part(a, join(dirs, ", "@), "\n"@);
    }
}

} // verus!
