//! Prompts of an iteration.

use ralph::acp::prompt::{build_prompt_text, build_system_instructions, build_task_context};
use ralph::acp::types::{BlockerContext, IterationContext, ParentContext, RetryInfo, TaskInfo};
use ralph::agent::AgentNames;
use ralph::config::{Config, RunArgs, RunEnv};
use ralph::project::{ProjectConfig, RalphConfig};

fn names() -> AgentNames {
    AgentNames {
        command: "agent".to_string(),
        title: "Agent".to_string(),
        guide: "NOTES.md".to_string(),
    }
}

fn env() -> RunEnv {
    RunEnv {
        agent: names(),
        iteration: None,
        total: None,
        agent_hash: 1,
        run_hash: 1,
    }
}

fn test_project() -> ProjectConfig {
    ProjectConfig { root: "/test".to_string(), config: RalphConfig::default() }
}

fn run_args(model: Option<&str>, strategy: Option<&str>) -> RunArgs {
    RunArgs {
        prompt_file: None,
        once: false,
        no_sandbox: false,
        limit: None,
        allow: vec![],
        model_strategy: strategy.map(String::from),
        model: model.map(String::from),
        max_retries_override: None,
        skip_verify: false,
    }
}

fn test_config() -> Config {
    let args = run_args(None, Some("cost-optimized"));
    Config::from_run_args(args, test_project(), None, env()).unwrap()
}

fn test_iteration_context(journal: &str, knowledge: &str) -> IterationContext {
    IterationContext {
        task: TaskInfo {
            task_id: "t-test01".to_string(),
            title: "Test task".to_string(),
            description: "A test task".to_string(),
            parent: None,
            completed_blockers: vec![],
        },
        spec_content: None,
        plan_content: None,
        retry_info: None,
        run_id: "run-00000001".to_string(),
        journal_context: journal.to_string(),
        knowledge_context: knowledge.to_string(),
    }
}

#[test]
fn prompt_system_prompt_contains_next_model_tag() {
    let config = test_config();
    let prompt = build_system_instructions(&config);
    assert!(
        prompt.contains("<next-model>"),
        "system prompt should document the <next-model> sigil"
    );
}

#[test]
fn prompt_system_prompt_contains_all_three_model_names() {
    let config = test_config();
    let prompt = build_system_instructions(&config);
    assert!(prompt.contains("opus"), "system prompt should mention opus");
    assert!(
        prompt.contains("sonnet"),
        "system prompt should mention sonnet"
    );
    assert!(
        prompt.contains("haiku"),
        "system prompt should mention haiku"
    );
}

#[test]
fn prompt_system_prompt_contains_next_model_opus_example() {
    let config = test_config();
    let prompt = build_system_instructions(&config);
    assert!(
        prompt.contains("<next-model>opus</next-model>"),
        "system prompt should show opus example"
    );
}

#[test]
fn prompt_system_prompt_contains_next_model_sonnet_example() {
    let config = test_config();
    let prompt = build_system_instructions(&config);
    assert!(
        prompt.contains("<next-model>sonnet</next-model>"),
        "system prompt should show sonnet example"
    );
}

#[test]
fn prompt_system_prompt_contains_next_model_haiku_example() {
    let config = test_config();
    let prompt = build_system_instructions(&config);
    assert!(
        prompt.contains("<next-model>haiku</next-model>"),
        "system prompt should show haiku example"
    );
}

#[test]
fn prompt_system_prompt_contains_completion_sigils() {
    let config = test_config();
    let prompt = build_system_instructions(&config);
    assert!(
        prompt.contains("<promise>COMPLETE</promise>"),
        "system prompt should document COMPLETE sigil"
    );
    assert!(
        prompt.contains("<promise>FAILURE</promise>"),
        "system prompt should document FAILURE sigil"
    );
}

#[test]
fn system_prompt_contains_one_task_per_loop() {
    let config = test_config();
    let prompt = build_system_instructions(&config);
    assert!(
        prompt.contains("ONE TASK PER LOOP"),
        "system prompt should contain ONE TASK PER LOOP rule"
    );
}

#[test]
fn system_prompt_contains_task_sigils() {
    let config = test_config();
    let prompt = build_system_instructions(&config);
    assert!(
        prompt.contains("<task-done>"),
        "system prompt should document task-done sigil"
    );
    assert!(
        prompt.contains("<task-failed>"),
        "system prompt should document task-failed sigil"
    );
}

#[test]
fn system_prompt_no_progress_file_references() {
    let config = test_config();
    let prompt = build_system_instructions(&config);
    assert!(
        !prompt.contains("progress.txt"),
        "system prompt should not reference progress.txt"
    );
    assert!(
        !prompt.contains("progress_file"),
        "system prompt should not reference progress_file"
    );
    assert!(
        !prompt.to_lowercase().contains("append"),
        "system prompt should not have append instructions (for progress file)"
    );
}

#[test]
fn prompt_task_context_with_all_fields() {
    let task = TaskInfo {
        task_id: "t-abc123".to_string(),
        title: "Implement feature X".to_string(),
        description: "Add the new feature X to the codebase.".to_string(),
        parent: Some(ParentContext {
            title: "Epic Y".to_string(),
            description: format!("The larger epic Y that encompasses {} task.", "this"),
        }),
        completed_blockers: vec![
            BlockerContext {
                task_id: "t-prereq1".to_string(),
                title: "Setup foundation".to_string(),
                summary: "Created the base structure".to_string(),
            },
            BlockerContext {
                task_id: "t-prereq2".to_string(),
                title: "Add dependencies".to_string(),
                summary: "Installed required packages".to_string(),
            },
        ],
    };

    let output = build_task_context(&task);

    assert!(output.contains("## Assigned Task"));
    assert!(output.contains("**ID:** t-abc123"));
    assert!(output.contains("**Title:** Implement feature X"));
    assert!(output.contains("### Description"));
    assert!(output.contains("Add the new feature X to the codebase."));
    assert!(output.contains("### Parent Context"));
    assert!(output.contains("**Parent:** Epic Y"));
    assert!(output.contains(&format!("The larger epic Y that encompasses {} task.", "this")));
    assert!(output.contains("### Completed Prerequisites"));
    assert!(output.contains("- [t-prereq1] Setup foundation: Created the base structure"));
    assert!(output.contains("- [t-prereq2] Add dependencies: Installed required packages"));
}

#[test]
fn prompt_task_context_no_parent_omits_parent_section() {
    let task = TaskInfo {
        task_id: "t-xyz789".to_string(),
        title: "Standalone task".to_string(),
        description: "A task with no parent.".to_string(),
        parent: None,
        completed_blockers: vec![],
    };

    let output = build_task_context(&task);

    assert!(output.contains("## Assigned Task"));
    assert!(output.contains("**ID:** t-xyz789"));
    assert!(output.contains("**Title:** Standalone task"));
    assert!(
        !output.contains("### Parent Context"),
        "Should not contain parent section"
    );
    assert!(
        !output.contains("**Parent:**"),
        "Should not contain parent field"
    );
}

#[test]
fn prompt_task_context_no_blockers_omits_prerequisites_section() {
    let task = TaskInfo {
        task_id: "t-def456".to_string(),
        title: "Initial task".to_string(),
        description: "A task with no prerequisites.".to_string(),
        parent: Some(ParentContext {
            title: "Parent task".to_string(),
            description: "Parent description.".to_string(),
        }),
        completed_blockers: vec![],
    };

    let output = build_task_context(&task);

    assert!(output.contains("## Assigned Task"));
    assert!(output.contains("**ID:** t-def456"));
    assert!(output.contains("### Parent Context"));
    assert!(
        !output.contains("### Completed Prerequisites"),
        "Should not contain prerequisites section"
    );
}

#[test]
fn prompt_task_context_with_two_blockers() {
    let task = TaskInfo {
        task_id: "t-multi".to_string(),
        title: "Task with multiple blockers".to_string(),
        description: "Depends on two tasks.".to_string(),
        parent: None,
        completed_blockers: vec![
            BlockerContext {
                task_id: "t-blocker1".to_string(),
                title: "First blocker".to_string(),
                summary: "Completed first".to_string(),
            },
            BlockerContext {
                task_id: "t-blocker2".to_string(),
                title: "Second blocker".to_string(),
                summary: "Completed second".to_string(),
            },
        ],
    };

    let output = build_task_context(&task);

    assert!(output.contains("### Completed Prerequisites"));
    assert!(output.contains("- [t-blocker1] First blocker: Completed first"));
    assert!(output.contains("- [t-blocker2] Second blocker: Completed second"));
}

#[test]
fn prompt_task_context_verbatim_fields() {
    let task = TaskInfo {
        task_id: "t-verbatim-123".to_string(),
        title: "Special chars: <>&\"'".to_string(),
        description: "Description with\nnewlines and\ttabs.".to_string(),
        parent: None,
        completed_blockers: vec![],
    };

    let output = build_task_context(&task);

    assert!(output.contains("**ID:** t-verbatim-123"));
    assert!(output.contains("**Title:** Special chars: <>&\"'"));
    assert!(output.contains("Description with\nnewlines and\ttabs."));
}

#[test]
fn test_system_prompt_includes_journal() {
    let config = test_config();
    let journal_md = "## Run Journal\n\n### Iteration 1 [done]\n- **Task**: t-abc123\n- **Notes**: Did some work\n";
    let ctx = test_iteration_context(journal_md, "");
    let prompt = build_prompt_text(&config, &ctx);
    assert!(
        prompt.contains("## Run Journal"),
        "system prompt should include the Run Journal section when journal_context is non-empty"
    );
    assert!(
        prompt.contains("Iteration 1 [done]"),
        "system prompt should include journal entry content"
    );
}

#[test]
fn test_system_prompt_no_journal_when_empty() {
    let config = test_config();
    let ctx = test_iteration_context("", "");
    let prompt = build_prompt_text(&config, &ctx);
    assert!(
        !prompt.contains("## Run Journal"),
        "system prompt should NOT include Run Journal section when journal_context is empty"
    );
}

#[test]
fn test_system_prompt_includes_knowledge() {
    let config = test_config();
    let knowledge_md = "## Project Knowledge\n\n### Cargo bench requires nightly toolchain\n_Tags: testing, cargo_\n\nSome knowledge content.\n\n";
    let ctx = test_iteration_context("", knowledge_md);
    let prompt = build_prompt_text(&config, &ctx);
    assert!(
        prompt.contains("## Project Knowledge"),
        "system prompt should include the Project Knowledge section when knowledge_context is non-empty"
    );
    assert!(
        prompt.contains("Cargo bench requires nightly toolchain"),
        "system prompt should include knowledge entry content"
    );
}

#[test]
fn test_system_prompt_no_knowledge_when_empty() {
    let config = test_config();
    let ctx = test_iteration_context("", "");
    let prompt = build_prompt_text(&config, &ctx);
    // The knowledge section header uses "## Project Knowledge" (2 hashes), not the
    // "### Project Knowledge" (3 hashes) used inside the Memory Instructions.
    // We check the prompt does not contain a standalone "## Project Knowledge" line.
    assert!(
        !prompt.contains("\n## Project Knowledge\n"),
        "system prompt should NOT include a standalone '## Project Knowledge' section when knowledge_context is empty"
    );
}

#[test]
fn test_system_prompt_includes_memory_instructions() {
    let config = test_config();
    let ctx = test_iteration_context("", "");
    let prompt = build_prompt_text(&config, &ctx);
    assert!(
        prompt.contains("## Memory"),
        "system prompt should always include the Memory section"
    );
    assert!(
        prompt.contains("<journal>"),
        "system prompt Memory section should document the journal sigil"
    );
    assert!(
        prompt.contains("<knowledge tags="),
        "system prompt Memory section should document the knowledge sigil"
    );
    assert!(
        prompt.contains("End-of-Task Journal"),
        "system prompt should include journal instructions"
    );
    assert!(
        prompt.contains("Project Knowledge"),
        "system prompt should include knowledge instructions"
    );
    assert!(
        prompt.contains("NOTES.md"),
        "system prompt should mention NOTES.md updates"
    );
}

#[test]
fn test_system_prompt_no_skills_section() {
    let config = test_config();
    // Test with build_system_instructions (no context)
    let prompt_no_ctx = build_system_instructions(&config);
    assert!(
        !prompt_no_ctx.contains("Available Skills"),
        "system prompt should NOT contain 'Available Skills' section (removed in favor of native skill discovery)"
    );
    // Test with build_prompt_text (with context)
    let ctx = test_iteration_context("", "");
    let prompt_with_ctx = build_prompt_text(&config, &ctx);
    assert!(
        !prompt_with_ctx.contains("Available Skills"),
        "system prompt should NOT contain 'Available Skills' section even with context"
    );
}

#[test]
fn test_system_prompt_no_learning_section() {
    let config = test_config();
    let ctx = test_iteration_context("", "");
    let prompt = build_prompt_text(&config, &ctx);
    // The old "Learning" section had text about SKILL.md creation
    assert!(
        !prompt.contains("## Learning"),
        "system prompt should NOT contain the old '## Learning' section"
    );
    assert!(
        !prompt.contains("skill creation"),
        "system prompt should NOT contain old skill creation instructions"
    );
}

#[test]
fn test_iteration_context_fields_no_skills_summary() {
    // Compile-time check: verify IterationContext has the new fields
    let ctx = test_iteration_context("journal content", "knowledge content");
    assert_eq!(ctx.run_id, "run-00000001");
    assert_eq!(ctx.journal_context, "journal content");
    assert_eq!(ctx.knowledge_context, "knowledge content");
}

#[test]
fn the_prompt_names_the_agent() {
    let prompt = build_prompt_text(&test_config(), &test_iteration_context("", ""));
    assert!(prompt.contains("continue to update NOTES.md with project-wide knowledge that"));
    assert!(prompt.contains("benefits all future Agent sessions (not just Ralph runs).\n"));
}

#[test]
fn the_prompt_holds_documents_and_the_retry() {
    let mut ctx = test_iteration_context("", "");
    ctx.spec_content = Some("What to build".to_string());
    ctx.plan_content = Some("How to build it".to_string());
    ctx.retry_info = Some(RetryInfo {
        attempt: 2,
        max_retries: 3,
        previous_failure_reason: "tests fail".to_string(),
    });
    let prompt = build_prompt_text(&test_config(), &ctx);
    let parts = [
        "## Assigned Task",
        "\n## Feature Specification\n\nWhat to build\n",
        "\n## Feature Plan\n\nHow to build it\n",
        "**This is retry attempt 2 of 3.**",
        "> tests fail\n",
        "\n## Memory\n",
    ];
    let mut from = 0;
    for part in parts {
        let at = prompt[from..].find(part).unwrap();
        from += at + part.len();
    }
}
