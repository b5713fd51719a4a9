//! The loop instructions: the rules, and the sigils that the agent may emit.

use vstd::prelude::*;

use crate::text::case::{ascii_lower, ascii_lowercase};
use crate::text::search::{contains, lemma_contains_left, lemma_contains_right, occurs_at};

verus! {

/// What the agent is part of.
pub const OPENING: &'static str = r#"You are operating in a Ralph loop - an autonomous, iterative coding workflow.

"#;

/// What the agent is to do.
pub const YOUR_TASK: &'static str = r#"## Your Task

Ralph assigns you ONE task per iteration. Your job is to:

1. Read the assigned task context (provided below)
2. Implement ONLY the assigned task - do not work on multiple tasks
3. Do not assume code exists - search the codebase before implementing
4. Do not implement placeholders or stubs - implement fully working code
5. Run tests and type checks to verify your work
6. Commit your changes with a descriptive message; load the committing:git skill first
7. Signal task completion or failure using the appropriate sigil

"#;

/// The rules that it keeps to.
pub const CRITICAL_RULES: &'static str = r#"## Critical Rules

- ONE TASK PER LOOP. This is essential. Do not implement multiple features.
- Work on the assigned task only - do not pick or reorder tasks
- Do not assume code exists - search the codebase before implementing
- Do not implement placeholders or stubs - implement fully working code
- If tests fail, fix them before completing
- Update AGENTS.md if you encounter any problems and learn how to solve them, e.g.:
    - Bash tool calls that took multiple attempts to write correctly

"#;

/// The sigils for the end of a task.
pub const TASK_SIGILS: &'static str = r#"## Task Completion Sigils

After completing your work, signal the result:

- `<task-done>{task_id}</task-done>` — Task completed successfully
- `<task-failed>{task_id}</task-failed>` — Task cannot be completed (provide reason in output)

Emit one of these sigils every iteration with the task ID you were assigned.

"#;

/// The sigil for the end of the project.
pub const PROJECT_COMPLETION: &'static str = r#"## Project Completion

When the ENTIRE project/DAG is complete (not just your assigned task), output:
<promise>COMPLETE</promise>

Ralph will verify this against the task database. Only use when genuinely no more work exists.

"#;

/// The sigil for a failure of the whole.
pub const CRITICAL_FAILURE: &'static str = r#"## Critical Failure

If you encounter an unrecoverable situation where further iterations would be futile, output:
<promise>FAILURE</promise>

Use this when:
- The prompt contains contradictory or impossible requirements
- You are stuck in a loop making no progress after multiple attempts

"#;

/// The sigils for the model of the next iteration.
pub const MODEL_HINT: &'static str = r#"## Model Hint

You can influence which model Ralph selects for the NEXT iteration by emitting a
model hint sigil anywhere in your output:

- `<next-model>opus</next-model>` — request Opus 4.6, the most capable (and expensive) model
- `<next-model>sonnet</next-model>` — request Sonnet 4.6, the balanced model
- `<next-model>haiku</next-model>` — request Haiku 4.5, the fastest and cheapest model

Rules:
- The hint applies to the NEXT iteration only; it is not persistent
- Valid values are exactly: `opus`, `sonnet`, `haiku`
- If omitted, Ralph's configured model strategy decides automatically
- Use this when you can tell the next task is trivial (hint haiku) or complex (hint opus)"#;

/// The loop instructions, the same for every run.
pub open spec fn system_text() -> Seq<char> {
    OPENING@ + YOUR_TASK@ + CRITICAL_RULES@ + TASK_SIGILS@ + PROJECT_COMPLETION@
        + CRITICAL_FAILURE@ + MODEL_HINT@
}

/// The loop instructions.
pub fn system_instructions() -> (r: String)
    ensures
        r@ == system_text(),
{
    let mut r = OPENING.to_owned();
    r.append(YOUR_TASK);
    r.append(CRITICAL_RULES);
    r.append(TASK_SIGILS);
    r.append(PROJECT_COMPLETION);
    r.append(CRITICAL_FAILURE);
    r.append(MODEL_HINT);
    r
}

/// What is in a part of the instructions is in the instructions.
proof fn lemma_in_part(part: int, pat: Seq<char>)
    requires
        0 <= part < 7,
        contains(parts()[part], pat),
    ensures
        contains(system_text(), pat),
{
    let a = OPENING@ + YOUR_TASK@;
    let b = a + CRITICAL_RULES@;
    let c = b + TASK_SIGILS@;
    let d = c + PROJECT_COMPLETION@;
    let e = d + CRITICAL_FAILURE@;
    if part == 6 {
        lemma_contains_right(e, MODEL_HINT@, pat);
    } else {
        if part == 5 {
            lemma_contains_right(d, CRITICAL_FAILURE@, pat);
        } else {
            if part == 4 {
                lemma_contains_right(c, PROJECT_COMPLETION@, pat);
            } else {
                if part == 3 {
                    lemma_contains_right(b, TASK_SIGILS@, pat);
                } else {
                    if part == 2 {
                        lemma_contains_right(a, CRITICAL_RULES@, pat);
                    } else {
                        if part == 1 {
                            lemma_contains_right(OPENING@, YOUR_TASK@, pat);
                        } else {
                            lemma_contains_left(OPENING@, YOUR_TASK@, pat);
                        }
                        lemma_contains_left(a, CRITICAL_RULES@, pat);
                    }
                    lemma_contains_left(b, TASK_SIGILS@, pat);
                }
                lemma_contains_left(c, PROJECT_COMPLETION@, pat);
            }
            lemma_contains_left(d, CRITICAL_FAILURE@, pat);
        }
        lemma_contains_left(e, MODEL_HINT@, pat);
    }
}

/// The parts of the instructions.
spec fn parts() -> Seq<Seq<char>> {
    seq![
        OPENING@,
        YOUR_TASK@,
        CRITICAL_RULES@,
        TASK_SIGILS@,
        PROJECT_COMPLETION@,
        CRITICAL_FAILURE@,
        MODEL_HINT@,
    ]
}

/// Neither `.tx` nor `_fi` stands here, nor `ppe` in any letter case.
spec fn clean_at(s: Seq<char>, i: int) -> bool {
    &&& !(s[i] == '.' && s[i + 1] == 't' && s[i + 2] == 'x')
    &&& !(s[i] == '_' && s[i + 1] == 'f' && s[i + 2] == 'i')
    &&& !(ascii_lower(s[i]) == 'p' && ascii_lower(s[i + 1]) == 'p' && ascii_lower(s[i + 2])
        == 'e')
}

/// None of them stands before `n`.
spec fn clean_to(s: Seq<char>, n: int) -> bool
    decreases n,
{
    n <= 0 || (clean_at(s, n - 1) && clean_to(s, n - 1))
}

/// None of them stands anywhere.
spec fn clean(s: Seq<char>) -> bool {
    forall|i: int| 0 <= i && i + 2 < s.len() ==> #[trigger] clean_at(s, i)
}

proof fn lemma_clean(s: Seq<char>, n: int)
    requires
        clean_to(s, n),
    ensures
        forall|i: int| 0 <= i < n ==> #[trigger] clean_at(s, i),
    decreases n,
{
    if n > 0 {
        lemma_clean(s, n - 1);
    }
}

/// A text that ends its last line, and what follows it.
proof fn lemma_clean_both(a: Seq<char>, b: Seq<char>)
    requires
        clean(a),
        clean(b),
        a.len() > 0,
        a.last() == '\n',
    ensures
        clean(a + b),
{
    let s = a + b;
    assert forall|i: int| 0 <= i && i + 2 < s.len() implies #[trigger] clean_at(s, i) by {
        if i + 2 < a.len() {
            assert(clean_at(a, i));
        } else if i >= a.len() {
            assert(clean_at(b, i - a.len()));
        } else {
            assert(s[a.len() - 1] == '\n');
        }
    }
}

/// What the opening holds and does not hold, read off its characters: the literal
/// stands here once more, as that is what can be revealed.
proof fn lemma_opening()
    ensures
        clean(OPENING@),
        OPENING@.len() > 0,
        OPENING@.last() == '\n',
{
    let s = OPENING@;
    reveal_strlit(
        r#"You are operating in a Ralph loop - an autonomous, iterative coding workflow.

"#,
    );
    reveal_with_fuel(clean_to, 21);
    assert(clean_to(s, 20));
    assert(clean_to(s, 40));
    assert(clean_to(s, 60));
    assert(clean_to(s, 77));
    lemma_clean(s, 77);
}

/// What the part on the task holds and does not hold.
proof fn lemma_your_task()
    ensures
        clean(YOUR_TASK@),
        YOUR_TASK@.len() > 0,
        YOUR_TASK@.last() == '\n',
{
    let s = YOUR_TASK@;
    reveal_strlit(
        r#"## Your Task

Ralph assigns you ONE task per iteration. Your job is to:

1. Read the assigned task context (provided below)
2. Implement ONLY the assigned task - do not work on multiple tasks
3. Do not assume code exists - search the codebase before implementing
4. Do not implement placeholders or stubs - implement fully working code
5. Run tests and type checks to verify your work
6. Commit your changes with a descriptive message; load the committing:git skill first
7. Signal task completion or failure using the appropriate sigil

"#,
    );
    reveal_with_fuel(clean_to, 21);
    assert(clean_to(s, 20));
    assert(clean_to(s, 40));
    assert(clean_to(s, 60));
    assert(clean_to(s, 80));
    assert(clean_to(s, 100));
    assert(clean_to(s, 120));
    assert(clean_to(s, 140));
    assert(clean_to(s, 160));
    assert(clean_to(s, 180));
    assert(clean_to(s, 200));
    assert(clean_to(s, 220));
    assert(clean_to(s, 240));
    assert(clean_to(s, 260));
    assert(clean_to(s, 280));
    assert(clean_to(s, 300));
    assert(clean_to(s, 320));
    assert(clean_to(s, 340));
    assert(clean_to(s, 360));
    assert(clean_to(s, 380));
    assert(clean_to(s, 400));
    assert(clean_to(s, 420));
    assert(clean_to(s, 440));
    assert(clean_to(s, 460));
    assert(clean_to(s, 480));
    assert(clean_to(s, 500));
    assert(clean_to(s, 520));
    assert(clean_to(s, 536));
    lemma_clean(s, 536);
}

/// What the part on the rules holds and does not hold.
proof fn lemma_critical_rules()
    ensures
        clean(CRITICAL_RULES@),
        CRITICAL_RULES@.len() > 0,
        CRITICAL_RULES@.last() == '\n',
        contains(CRITICAL_RULES@, "ONE TASK PER LOOP"@),
{
    let s = CRITICAL_RULES@;
    reveal_strlit(
        r#"## Critical Rules

- ONE TASK PER LOOP. This is essential. Do not implement multiple features.
- Work on the assigned task only - do not pick or reorder tasks
- Do not assume code exists - search the codebase before implementing
- Do not implement placeholders or stubs - implement fully working code
- If tests fail, fix them before completing
- Update AGENTS.md if you encounter any problems and learn how to solve them, e.g.:
    - Bash tool calls that took multiple attempts to write correctly

"#,
    );
    assert(occurs_at(s, "ONE TASK PER LOOP"@, 21)) by {
        reveal_strlit("ONE TASK PER LOOP");
        assert(s.subrange(21, 38) =~= "ONE TASK PER LOOP"@);
    }
    reveal_with_fuel(clean_to, 21);
    assert(clean_to(s, 20));
    assert(clean_to(s, 40));
    assert(clean_to(s, 60));
    assert(clean_to(s, 80));
    assert(clean_to(s, 100));
    assert(clean_to(s, 120));
    assert(clean_to(s, 140));
    assert(clean_to(s, 160));
    assert(clean_to(s, 180));
    assert(clean_to(s, 200));
    assert(clean_to(s, 220));
    assert(clean_to(s, 240));
    assert(clean_to(s, 260));
    assert(clean_to(s, 280));
    assert(clean_to(s, 300));
    assert(clean_to(s, 320));
    assert(clean_to(s, 340));
    assert(clean_to(s, 360));
    assert(clean_to(s, 380));
    assert(clean_to(s, 400));
    assert(clean_to(s, 420));
    assert(clean_to(s, 440));
    assert(clean_to(s, 460));
    assert(clean_to(s, 480));
    assert(clean_to(s, 497));
    lemma_clean(s, 497);
}

/// What the part on the end of a task holds and does not hold.
proof fn lemma_task_sigils()
    ensures
        clean(TASK_SIGILS@),
        TASK_SIGILS@.len() > 0,
        TASK_SIGILS@.last() == '\n',
        contains(TASK_SIGILS@, "<task-done>"@),
        contains(TASK_SIGILS@, "<task-failed>"@),
{
    let s = TASK_SIGILS@;
    reveal_strlit(
        r#"## Task Completion Sigils

After completing your work, signal the result:

- `<task-done>{task_id}</task-done>` — Task completed successfully
- `<task-failed>{task_id}</task-failed>` — Task cannot be completed (provide reason in output)

Emit one of these sigils every iteration with the task ID you were assigned.

"#,
    );
    assert(occurs_at(s, "<task-done>"@, 78)) by {
        reveal_strlit("<task-done>");
        assert(s.subrange(78, 89) =~= "<task-done>"@);
    }
    assert(occurs_at(s, "<task-failed>"@, 145)) by {
        reveal_strlit("<task-failed>");
        assert(s.subrange(145, 158) =~= "<task-failed>"@);
    }
    reveal_with_fuel(clean_to, 21);
    assert(clean_to(s, 20));
    assert(clean_to(s, 40));
    assert(clean_to(s, 60));
    assert(clean_to(s, 80));
    assert(clean_to(s, 100));
    assert(clean_to(s, 120));
    assert(clean_to(s, 140));
    assert(clean_to(s, 160));
    assert(clean_to(s, 180));
    assert(clean_to(s, 200));
    assert(clean_to(s, 220));
    assert(clean_to(s, 240));
    assert(clean_to(s, 260));
    assert(clean_to(s, 280));
    assert(clean_to(s, 300));
    assert(clean_to(s, 314));
    lemma_clean(s, 314);
}

/// What the part on the end of the project holds and does not hold.
proof fn lemma_project_completion()
    ensures
        clean(PROJECT_COMPLETION@),
        PROJECT_COMPLETION@.len() > 0,
        PROJECT_COMPLETION@.last() == '\n',
        contains(PROJECT_COMPLETION@, "<promise>COMPLETE</promise>"@),
{
    let s = PROJECT_COMPLETION@;
    reveal_strlit(
        r#"## Project Completion

When the ENTIRE project/DAG is complete (not just your assigned task), output:
<promise>COMPLETE</promise>

Ralph will verify this against the task database. Only use when genuinely no more work exists.

"#,
    );
    assert(occurs_at(s, "<promise>COMPLETE</promise>"@, 102)) by {
        reveal_strlit("<promise>COMPLETE</promise>");
        assert(s.subrange(102, 129) =~= "<promise>COMPLETE</promise>"@);
    }
    reveal_with_fuel(clean_to, 21);
    assert(clean_to(s, 20));
    assert(clean_to(s, 40));
    assert(clean_to(s, 60));
    assert(clean_to(s, 80));
    assert(clean_to(s, 100));
    assert(clean_to(s, 120));
    assert(clean_to(s, 140));
    assert(clean_to(s, 160));
    assert(clean_to(s, 180));
    assert(clean_to(s, 200));
    assert(clean_to(s, 220));
    assert(clean_to(s, 225));
    lemma_clean(s, 225);
}

/// What the part on failures holds and does not hold.
proof fn lemma_critical_failure()
    ensures
        clean(CRITICAL_FAILURE@),
        CRITICAL_FAILURE@.len() > 0,
        CRITICAL_FAILURE@.last() == '\n',
        contains(CRITICAL_FAILURE@, "<promise>FAILURE</promise>"@),
{
    let s = CRITICAL_FAILURE@;
    reveal_strlit(
        r#"## Critical Failure

If you encounter an unrecoverable situation where further iterations would be futile, output:
<promise>FAILURE</promise>

Use this when:
- The prompt contains contradictory or impossible requirements
- You are stuck in a loop making no progress after multiple attempts

"#,
    );
    assert(occurs_at(s, "<promise>FAILURE</promise>"@, 115)) by {
        reveal_strlit("<promise>FAILURE</promise>");
        assert(s.subrange(115, 141) =~= "<promise>FAILURE</promise>"@);
    }
    reveal_with_fuel(clean_to, 21);
    assert(clean_to(s, 20));
    assert(clean_to(s, 40));
    assert(clean_to(s, 60));
    assert(clean_to(s, 80));
    assert(clean_to(s, 100));
    assert(clean_to(s, 120));
    assert(clean_to(s, 140));
    assert(clean_to(s, 160));
    assert(clean_to(s, 180));
    assert(clean_to(s, 200));
    assert(clean_to(s, 220));
    assert(clean_to(s, 240));
    assert(clean_to(s, 260));
    assert(clean_to(s, 280));
    assert(clean_to(s, 289));
    lemma_clean(s, 289);
}

/// What the part on models holds and does not hold.
proof fn lemma_model_hint()
    ensures
        clean(MODEL_HINT@),
        contains(MODEL_HINT@, "<next-model>opus</next-model>"@),
        contains(MODEL_HINT@, "<next-model>sonnet</next-model>"@),
        contains(MODEL_HINT@, "<next-model>haiku</next-model>"@),
{
    let s = MODEL_HINT@;
    reveal_strlit(
        r#"## Model Hint

You can influence which model Ralph selects for the NEXT iteration by emitting a
model hint sigil anywhere in your output:

- `<next-model>opus</next-model>` — request Opus 4.6, the most capable (and expensive) model
- `<next-model>sonnet</next-model>` — request Sonnet 4.6, the balanced model
- `<next-model>haiku</next-model>` — request Haiku 4.5, the fastest and cheapest model

Rules:
- The hint applies to the NEXT iteration only; it is not persistent
- Valid values are exactly: `opus`, `sonnet`, `haiku`
- If omitted, Ralph's configured model strategy decides automatically
- Use this when you can tell the next task is trivial (hint haiku) or complex (hint opus)"#,
    );
    assert(occurs_at(s, "<next-model>opus</next-model>"@, 142)) by {
        reveal_strlit("<next-model>opus</next-model>");
        assert(s.subrange(142, 171) =~= "<next-model>opus</next-model>"@);
    }
    assert(occurs_at(s, "<next-model>sonnet</next-model>"@, 235)) by {
        reveal_strlit("<next-model>sonnet</next-model>");
        assert(s.subrange(235, 266) =~= "<next-model>sonnet</next-model>"@);
    }
    assert(occurs_at(s, "<next-model>haiku</next-model>"@, 312)) by {
        reveal_strlit("<next-model>haiku</next-model>");
        assert(s.subrange(312, 342) =~= "<next-model>haiku</next-model>"@);
    }
    reveal_with_fuel(clean_to, 21);
    assert(clean_to(s, 20));
    assert(clean_to(s, 40));
    assert(clean_to(s, 60));
    assert(clean_to(s, 80));
    assert(clean_to(s, 100));
    assert(clean_to(s, 120));
    assert(clean_to(s, 140));
    assert(clean_to(s, 160));
    assert(clean_to(s, 180));
    assert(clean_to(s, 200));
    assert(clean_to(s, 220));
    assert(clean_to(s, 240));
    assert(clean_to(s, 260));
    assert(clean_to(s, 280));
    assert(clean_to(s, 300));
    assert(clean_to(s, 320));
    assert(clean_to(s, 340));
    assert(clean_to(s, 360));
    assert(clean_to(s, 380));
    assert(clean_to(s, 400));
    assert(clean_to(s, 420));
    assert(clean_to(s, 440));
    assert(clean_to(s, 460));
    assert(clean_to(s, 480));
    assert(clean_to(s, 500));
    assert(clean_to(s, 520));
    assert(clean_to(s, 540));
    assert(clean_to(s, 560));
    assert(clean_to(s, 580));
    assert(clean_to(s, 600));
    assert(clean_to(s, 620));
    assert(clean_to(s, 640));
    assert(clean_to(s, 660));
    assert(clean_to(s, 680));
    assert(clean_to(s, 683));
    lemma_clean(s, 683);
}

/// The instructions name every sigil that the agent may emit to end a task, the
/// project or the run, or to choose a model, and the rule of one task per loop.
pub proof fn law_instructions_name_the_sigils()
    ensures
        contains(system_text(), "ONE TASK PER LOOP"@),
        contains(system_text(), "<task-done>"@),
        contains(system_text(), "<task-failed>"@),
        contains(system_text(), "<promise>COMPLETE</promise>"@),
        contains(system_text(), "<promise>FAILURE</promise>"@),
        contains(system_text(), "<next-model>opus</next-model>"@),
        contains(system_text(), "<next-model>sonnet</next-model>"@),
        contains(system_text(), "<next-model>haiku</next-model>"@),
{
    lemma_critical_rules();
    lemma_task_sigils();
    lemma_project_completion();
    lemma_critical_failure();
    lemma_model_hint();
    lemma_in_part(2, "ONE TASK PER LOOP"@);
    lemma_in_part(3, "<task-done>"@);
    lemma_in_part(3, "<task-failed>"@);
    lemma_in_part(4, "<promise>COMPLETE</promise>"@);
    lemma_in_part(5, "<promise>FAILURE</promise>"@);
    lemma_in_part(6, "<next-model>opus</next-model>"@);
    lemma_in_part(6, "<next-model>sonnet</next-model>"@);
    lemma_in_part(6, "<next-model>haiku</next-model>"@);
}

/// The instructions speak of no progress file: not of `progress.txt`, not of
/// `progress_file`, and they tell the agent to append nothing, in any letter
/// case.
pub proof fn law_instructions_name_no_progress_file()
    ensures
        !contains(system_text(), "progress.txt"@),
        !contains(system_text(), "progress_file"@),
        !contains(ascii_lowercase(system_text()), "append"@),
{
    lemma_opening();
    lemma_your_task();
    lemma_critical_rules();
    lemma_task_sigils();
    lemma_project_completion();
    lemma_critical_failure();
    lemma_model_hint();
    let a = OPENING@ + YOUR_TASK@;
    let b = a + CRITICAL_RULES@;
    let c = b + TASK_SIGILS@;
    let d = c + PROJECT_COMPLETION@;
    let e = d + CRITICAL_FAILURE@;
    lemma_clean_both(OPENING@, YOUR_TASK@);
    lemma_clean_both(a, CRITICAL_RULES@);
    lemma_clean_both(b, TASK_SIGILS@);
    lemma_clean_both(c, PROJECT_COMPLETION@);
    lemma_clean_both(d, CRITICAL_FAILURE@);
    lemma_clean_both(e, MODEL_HINT@);
    lemma_clean_of_words(system_text());
}

/// A clean text holds none of the words.
proof fn lemma_clean_of_words(s: Seq<char>)
    requires
        clean(s),
    ensures
        !contains(s, "progress.txt"@),
        !contains(s, "progress_file"@),
        !contains(ascii_lowercase(s), "append"@),
{
    reveal_strlit("progress.txt");
    reveal_strlit("progress_file");
    reveal_strlit("append");
    if contains(s, "progress.txt"@) {
        let k = choose|k: int| #[trigger] occurs_at(s, "progress.txt"@, k);
        let t = s.subrange(k, k + 12);
        assert(t[8] == s[k + 8] && t[9] == s[k + 9] && t[10] == s[k + 10]);
        assert(clean_at(s, k + 8));
    }
    if contains(s, "progress_file"@) {
        let k = choose|k: int| #[trigger] occurs_at(s, "progress_file"@, k);
        let t = s.subrange(k, k + 13);
        assert(t[8] == s[k + 8] && t[9] == s[k + 9] && t[10] == s[k + 10]);
        assert(clean_at(s, k + 8));
    }
    let l = ascii_lowercase(s);
    if contains(l, "append"@) {
        let k = choose|k: int| #[trigger] occurs_at(l, "append"@, k);
        let t = l.subrange(k, k + 6);
        assert(t[1] == l[k + 1] && t[2] == l[k + 2] && t[3] == l[k + 3]);
        assert(clean_at(s, k + 1));
    }
}

} // verus!
