//! Prompt text construction for agent sessions.

use vstd::prelude::*;

use crate::acp::instructions::{system_instructions, system_text};
use crate::acp::types::{
    blocker_views, BlockerContext, BlockerView, IterationContext, IterationView, ParentContext,
    RetryInfo, TaskInfo, TaskInfoView,
};
use crate::agent::{AgentNames, AgentNamesView};
use crate::config::Config;
use crate::text::number::{decimal_int, decimal_int_text};
use crate::text::search::{
    contains, ends_with, lemma_contains_left, lemma_contains_right, lemma_contains_self,
    starts_with,
};

verus! {

/// The heading of the section on how to record what was learned.
pub const MEMORY_HEADING: &'static str = "\n## Memory\n\n";

/// How to record what was learned, up to the name of the notes for the agent.
pub const MEMORY_INSTRUCTIONS: &'static str = r#"You have access to a persistent memory system. Use these sigils to record knowledge:

### End-of-Task Journal
At the end of your work on the task, emit a `<journal>` sigil summarizing key decisions,
discoveries, and context that would help the next iteration:

```
<journal>
What you decided and why. What you discovered. What the next task should know.
</journal>
```

### Project Knowledge
When you discover reusable project knowledge (patterns, gotchas, conventions,
environment quirks), emit a `<knowledge>` sigil:

```
<knowledge tags="tag1,tag2" title="Short descriptive title">
Detailed explanation of the knowledge. Maximum ~500 words.
</knowledge>
```

Tags should be lowercase, relevant keywords. At least one tag is required.

You should also continue to update "#;

/// What follows the name of the notes, up to that of the agent.
pub const MEMORY_NOTES: &'static str = r#" with project-wide knowledge that
benefits all future "#;

/// What follows the name of the agent.
pub const MEMORY_END: &'static str = r#" sessions (not just Ralph runs).
"#;

/// How to record what was learned.
pub open spec fn memory_text(agent: AgentNamesView) -> Seq<char> {
    MEMORY_HEADING@ + MEMORY_INSTRUCTIONS@ + agent.guide + MEMORY_NOTES@ + agent.title
        + MEMORY_END@
}

/// How to record what was learned.
fn memory_instructions(agent: &AgentNames) -> (r: String)
    ensures
        r@ == memory_text(agent@),
{
    let mut r = MEMORY_HEADING.to_owned();
    r.append(MEMORY_INSTRUCTIONS);
    r.append(agent.guide.as_str());
    r.append(MEMORY_NOTES);
    r.append(agent.title.as_str());
    r.append(MEMORY_END);
    r
}

/// One completed prerequisite.
pub open spec fn blocker_line(b: BlockerView) -> Seq<char> {
    "- ["@ + b.task_id + "] "@ + b.title + ": "@ + b.summary + "\n"@
}

/// The completed prerequisites, one after the other.
pub open spec fn blocker_lines(s: Seq<BlockerView>) -> Seq<char>
    decreases s.len(),
{
    if s.len() == 0 {
        Seq::empty()
    } else {
        blocker_lines(s.drop_last()) + blocker_line(s.last())
    }
}

/// The section on the parent task, where there is one.
pub open spec fn parent_section(p: Option<(Seq<char>, Seq<char>)>) -> Seq<char> {
    match p {
        Some((title, description)) => "\n### Parent Context\n**Parent:** "@ + title + "\n"@
            + description + "\n"@,
        None => Seq::empty(),
    }
}

/// The section on completed prerequisites, where there are any.
pub open spec fn blocker_section(s: Seq<BlockerView>) -> Seq<char> {
    if s.len() == 0 {
        Seq::empty()
    } else {
        "\n### Completed Prerequisites\n"@ + blocker_lines(s)
    }
}

/// The assigned task as markdown.
pub open spec fn task_context(t: TaskInfoView) -> Seq<char> {
    "## Assigned Task\n\n**ID:** "@ + t.task_id + "\n**Title:** "@ + t.title
        + "\n\n### Description\n"@ + t.description + "\n"@ + parent_section(t.parent)
        + blocker_section(t.completed_blockers)
}

/// A section with a heading around a text, where there is one.
pub open spec fn section(heading: Seq<char>, content: Option<Seq<char>>) -> Seq<char> {
    match content {
        Some(c) => heading + c + "\n"@,
        None => Seq::empty(),
    }
}

/// The section on the retry, where this is one.
pub open spec fn retry_section(r: Option<(i32, i32, Seq<char>)>) -> Seq<char> {
    match r {
        Some((attempt, max, reason)) => "\n## Retry Information\n\n**This is retry attempt "@
            + decimal_int(attempt as int) + " of "@ + decimal_int(max as int)
            + ".**\n\nThe previous attempt failed verification with the following reason:\n\n> "@
            + reason
            + "\n\nFix the issues identified above before marking the task as done.\n"@,
        None => Seq::empty(),
    }
}

/// A rendered block behind an empty line, where it is not empty.
pub open spec fn block(s: Seq<char>) -> Seq<char> {
    if s.len() == 0 {
        Seq::empty()
    } else {
        "\n"@ + s
    }
}

/// The full prompt.
pub open spec fn prompt_text(agent: AgentNamesView, c: IterationView) -> Seq<char> {
    system_text() + "\n\n"@ + task_context(c.task) + section(
        "\n## Feature Specification\n\n"@,
        c.spec_content,
    ) + section("\n## Feature Plan\n\n"@, c.plan_content) + retry_section(c.retry_info) + block(
        c.journal_context,
    ) + block(c.knowledge_context) + memory_text(agent)
}

/// The prompt holds the instructions, the assigned task, and what the context
/// adds to them.
pub proof fn law_prompt_holds_its_parts(agent: AgentNamesView, c: IterationView)
    ensures
        contains(prompt_text(agent, c), system_text()),
        contains(prompt_text(agent, c), task_context(c.task)),
        contains(prompt_text(agent, c), memory_text(agent)),
        c.spec_content is Some ==> contains(prompt_text(agent, c), c.spec_content->0),
        c.plan_content is Some ==> contains(prompt_text(agent, c), c.plan_content->0),
        contains(prompt_text(agent, c), retry_section(c.retry_info)),
        contains(prompt_text(agent, c), c.journal_context),
        contains(prompt_text(agent, c), c.knowledge_context),
{
    let s0 = system_text();
    let s1 = s0 + "\n\n"@;
    let s2 = s1 + task_context(c.task);
    let h3 = "\n## Feature Specification\n\n"@;
    let s3 = s2 + section(h3, c.spec_content);
    let h4 = "\n## Feature Plan\n\n"@;
    let s4 = s3 + section(h4, c.plan_content);
    let s5 = s4 + retry_section(c.retry_info);
    let s6 = s5 + block(c.journal_context);
    let s7 = s6 + block(c.knowledge_context);
    let s8 = s7 + memory_text(agent);
    lemma_contains_self(s0);
    lemma_contains_left(s0, "\n\n"@, s0);
    lemma_contains_left(s1, task_context(c.task), s0);
    lemma_contains_self(task_context(c.task));
    lemma_contains_right(s1, task_context(c.task), task_context(c.task));
    lemma_keep(s2, section(h3, c.spec_content), s0, task_context(c.task));
    if c.spec_content is Some {
        let x = c.spec_content->0;
        lemma_contains_self(x);
        lemma_contains_right(h3, x, x);
        lemma_contains_left(h3 + x, "\n"@, x);
        lemma_contains_right(s2, section(h3, c.spec_content), x);
        lemma_contains_left(s3, section(h4, c.plan_content), x);
        lemma_contains_left(s4, retry_section(c.retry_info), x);
        lemma_contains_left(s5, block(c.journal_context), x);
        lemma_contains_left(s6, block(c.knowledge_context), x);
        lemma_contains_left(s7, memory_text(agent), x);
    }
    lemma_keep(s3, section(h4, c.plan_content), s0, task_context(c.task));
    if c.plan_content is Some {
        let x = c.plan_content->0;
        lemma_contains_self(x);
        lemma_contains_right(h4, x, x);
        lemma_contains_left(h4 + x, "\n"@, x);
        lemma_contains_right(s3, section(h4, c.plan_content), x);
        lemma_contains_left(s4, retry_section(c.retry_info), x);
        lemma_contains_left(s5, block(c.journal_context), x);
        lemma_contains_left(s6, block(c.knowledge_context), x);
        lemma_contains_left(s7, memory_text(agent), x);
    }
    lemma_keep(s4, retry_section(c.retry_info), s0, task_context(c.task));
    let r = retry_section(c.retry_info);
    lemma_contains_self(r);
    lemma_contains_right(s4, r, r);
    lemma_contains_left(s5, block(c.journal_context), r);
    lemma_contains_left(s6, block(c.knowledge_context), r);
    lemma_contains_left(s7, memory_text(agent), r);
    lemma_keep(s5, block(c.journal_context), s0, task_context(c.task));
    lemma_block(s5, c.journal_context);
    lemma_contains_left(s6, block(c.knowledge_context), c.journal_context);
    lemma_contains_left(s7, memory_text(agent), c.journal_context);
    lemma_keep(s6, block(c.knowledge_context), s0, task_context(c.task));
    lemma_block(s6, c.knowledge_context);
    lemma_contains_left(s7, memory_text(agent), c.knowledge_context);
    lemma_keep(s7, memory_text(agent), s0, task_context(c.task));
    lemma_contains_self(memory_text(agent));
    lemma_contains_right(s7, memory_text(agent), memory_text(agent));
}

/// The prompt begins with the instructions and the assigned task and ends with
/// how to record what was learned, the same for every context. A section stands
/// between them exactly where the context has something for it.
pub proof fn law_prompt_sections(agent: AgentNamesView, c: IterationView)
    ensures
        ({
            let spec_part = section("\n## Feature Specification\n\n"@, c.spec_content);
            let plan_part = section("\n## Feature Plan\n\n"@, c.plan_content);
            let retry_part = retry_section(c.retry_info);
            &&& prompt_text(agent, c) == system_text() + "\n\n"@ + task_context(c.task) + spec_part
                + plan_part + retry_part + block(c.journal_context) + block(c.knowledge_context)
                + memory_text(agent)
            &&& starts_with(prompt_text(agent, c), system_text() + "\n\n"@ + task_context(c.task))
            &&& ends_with(prompt_text(agent, c), memory_text(agent))
            &&& starts_with(memory_text(agent), MEMORY_HEADING@)
            &&& c.spec_content is None <==> spec_part.len() == 0
            &&& c.plan_content is None <==> plan_part.len() == 0
            &&& c.retry_info is None <==> retry_part.len() == 0
            &&& c.journal_context.len() == 0 <==> block(c.journal_context).len() == 0
            &&& c.knowledge_context.len() == 0 <==> block(c.knowledge_context).len() == 0
        }),
{
    reveal_strlit("\n");
    let head = system_text() + "\n\n"@ + task_context(c.task);
    let tail = memory_text(agent);
    let all = prompt_text(agent, c);
    assert(all.subrange(0, head.len() as int) =~= head);
    assert(all.subrange(all.len() - tail.len(), all.len() as int) =~= tail);
    assert(tail.subrange(0, MEMORY_HEADING@.len() as int) =~= MEMORY_HEADING@);
}

proof fn lemma_keep(a: Seq<char>, b: Seq<char>, x: Seq<char>, y: Seq<char>)
    requires
        contains(a, x),
        contains(a, y),
    ensures
        contains(a + b, x),
        contains(a + b, y),
{
    lemma_contains_left(a, b, x);
    lemma_contains_left(a, b, y);
}

proof fn lemma_block(a: Seq<char>, s: Seq<char>)
    ensures
        contains(a + block(s), s),
{
    lemma_contains_self(s);
    if s.len() > 0 {
        lemma_contains_right("\n"@, s, s);
        lemma_contains_right(a, block(s), s);
    } else {
        let all = a + block(s);
        assert(all.subrange(0, 0) =~= s);
        assert(crate::text::search::occurs_at(all, s, 0));
    }
}

/// Builds the system instructions portion of a prompt: the loop instructions
/// and sigil definitions, the same for every run.
pub fn build_system_instructions(_config: &Config) -> (r: String)
    ensures
        r@ == system_text(),
{
    system_instructions()
}

/// Appends the completed prerequisites.
fn push_blockers(out: &mut String, v: &Vec<BlockerContext>)
    ensures
        final(out)@ == old(out)@ + blocker_section(blocker_views(v@)),
{
    let ghost all = blocker_views(v@);
    let ghost start = out@;
    if v.len() == 0 {
        assert(all.len() == 0);
        assert(out@ + blocker_section(all) =~= out@);
        return ;
    }
    out.append("\n### Completed Prerequisites\n");
    let ghost head = out@;
    let mut i: usize = 0;
    assert(head + blocker_lines(all.take(0)) =~= head);
    while i < v.len()
        invariant
            i <= v@.len(),
            all == blocker_views(v@),
            out@ == head + blocker_lines(all.take(i as int)),
        decreases v@.len() - i,
    {
        assert(all[i as int] == v@[i as int]@);
        out.append("- [");
        out.append(v[i].task_id.as_str());
        out.append("] ");
        out.append(v[i].title.as_str());
        out.append(": ");
        out.append(v[i].summary.as_str());
        out.append("\n");
        assert(all.take(i + 1).drop_last() =~= all.take(i as int));
        assert(out@ =~= head + blocker_lines(all.take(i + 1)));
        i = i + 1;
    }
    assert(all.take(all.len() as int) =~= all);
    assert(out@ =~= start + blocker_section(all));
}

/// What is said of a parent.
pub open spec fn parent_view(p: Option<ParentContext>) -> Option<(Seq<char>, Seq<char>)> {
    match p {
        Some(c) => Some(c@),
        None => None,
    }
}

/// Builds the block on a task, its parent and its completed prerequisites.
pub(crate) fn build_assignment(
    task_id: &str,
    title: &str,
    description: &str,
    parent: &Option<ParentContext>,
    blockers: &Vec<BlockerContext>,
) -> (r: String)
    ensures
        r@ == task_context(
            TaskInfoView {
                task_id: task_id@,
                title: title@,
                description: description@,
                parent: parent_view(*parent),
                completed_blockers: blocker_views(blockers@),
            },
        ),
{
    let mut output = "## Assigned Task\n\n**ID:** ".to_owned();
    output.append(task_id);
    output.append("\n**Title:** ");
    output.append(title);
    output.append("\n\n### Description\n");
    output.append(description);
    output.append("\n");
    let ghost head = output@;
    match parent {
        Some(parent) => {
            output.append("\n### Parent Context\n**Parent:** ");
            output.append(parent.title.as_str());
            output.append("\n");
            output.append(parent.description.as_str());
            output.append("\n");
        },
        None => {},
    }
    assert(output@ =~= head + parent_section(parent_view(*parent)));
    push_blockers(&mut output, blockers);
    output
}

/// Builds a task context block for the assigned task: a markdown block with
/// task details, parent context, and completed prerequisites.
pub fn build_task_context(task: &TaskInfo) -> (r: String)
    ensures
        r@ == task_context(task@),
{
    build_assignment(
        task.task_id.as_str(),
        task.title.as_str(),
        task.description.as_str(),
        &task.parent,
        &task.completed_blockers,
    )
}

/// Appends a section with a heading around a text, where there is one.
fn push_section(out: &mut String, heading: &str, content: &Option<String>)
    ensures
        final(out)@ == old(out)@ + section(heading@, crate::text::basic::opt_text(*content)),
{
    let ghost start = out@;
    match content {
        Some(c) => {
            out.append(heading);
            out.append(c.as_str());
            out.append("\n");
        },
        None => {},
    }
    assert(out@ =~= start + section(heading@, crate::text::basic::opt_text(*content)));
}

/// Appends the section on the retry, where this is one.
fn push_retry(out: &mut String, info: &Option<RetryInfo>)
    ensures
        final(out)@ == old(out)@ + retry_section(
            match *info {
                Some(r) => Some(r@),
                None => None,
            },
        ),
{
    let ghost start = out@;
    match info {
        Some(retry) => {
            let mut s = "\n## Retry Information\n\n**This is retry attempt ".to_owned();
            s.append(decimal_int_text(retry.attempt as i64).as_str());
            s.append(" of ");
            s.append(decimal_int_text(retry.max_retries as i64).as_str());
            s.append(
                ".**\n\nThe previous attempt failed verification with the following reason:\n\n> ",
            );
            s.append(retry.previous_failure_reason.as_str());
            s.append("\n\nFix the issues identified above before marking the task as done.\n");
            out.append(s.as_str());
        },
        None => {
            assert(start + Seq::<char>::empty() =~= start);
        },
    }
}

/// Appends a rendered block behind an empty line, where it is not empty.
fn push_block(out: &mut String, s: &str)
    ensures
        final(out)@ == old(out)@ + block(s@),
{
    let ghost start = out@;
    if !s.is_empty() {
        out.append("\n");
        out.append(s);
    }
    assert(out@ =~= start + block(s@));
}

/// Builds the full prompt text for an iteration.
///
/// The loop instructions come first, followed by task assignment, spec and
/// plan, retry info, journal and knowledge context, and how to record what was
/// learned.
pub fn build_prompt_text(config: &Config, context: &IterationContext) -> (r: String)
    ensures
        r@ == prompt_text(config.agent@, context@),
{
    let mut prompt = build_system_instructions(config);
    prompt.append("\n\n");
    prompt.append(build_task_context(&context.task).as_str());
    push_section(&mut prompt, "\n## Feature Specification\n\n", &context.spec_content);
    push_section(&mut prompt, "\n## Feature Plan\n\n", &context.plan_content);
    push_retry(&mut prompt, &context.retry_info);
    push_block(&mut prompt, context.journal_context.as_str());
    push_block(&mut prompt, context.knowledge_context.as_str());
    prompt.append(memory_instructions(&config.agent).as_str());
    prompt
}

} // verus!
