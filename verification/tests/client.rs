//! Prompts and arguments of an agent process.

use ralph::agent::AgentNames;
use ralph::claude::client::{
    build_claude_args, build_sandbox_args, build_system_prompt, build_task_context, exit_error,
    last_result, profile_name, rand_simple, BlockerContext, ParentContext, TaskInfo,
};
use ralph::claude::events::ResultEvent;
use ralph::config::{Config, RunArgs, RunEnv};
use ralph::project::{ProjectConfig, RalphConfig};

fn names() -> AgentNames {
    AgentNames {
        command: "agent".to_string(),
        title: "Agent".to_string(),
        guide: "NOTES.md".to_string(),
    }
}

fn env() -> RunEnv {
    RunEnv {
        agent: names(),
        iteration: None,
        total: None,
        agent_hash: 1,
        run_hash: 1,
    }
}

fn test_project() -> ProjectConfig {
    ProjectConfig { root: "/test".to_string(), config: RalphConfig::default() }
}

fn run_args(model: Option<&str>, strategy: Option<&str>) -> RunArgs {
    RunArgs {
        prompt_file: None,
        once: false,
        no_sandbox: false,
        limit: None,
        allow: vec![],
        model_strategy: strategy.map(String::from),
        model: model.map(String::from),
        max_retries_override: None,
        skip_verify: false,
    }
}

fn config_of(model: Option<&str>, strategy: &str) -> Config {
    let args = run_args(model, Some(strategy));
    Config::from_run_args(args, test_project(), None, env()).unwrap()
}

fn test_config() -> Config {
    config_of(None, "cost-optimized")
}

#[test]
fn client_system_prompt_contains_next_model_tag() {
    let config = test_config();
    let prompt = build_system_prompt(&config);
    assert!(
        prompt.contains("<next-model>"),
        "system prompt should document the <next-model> sigil"
    );
}

#[test]
fn client_system_prompt_contains_all_three_model_names() {
    let config = test_config();
    let prompt = build_system_prompt(&config);
    assert!(prompt.contains("opus"), "system prompt should mention opus");
    assert!(
        prompt.contains("sonnet"),
        "system prompt should mention sonnet"
    );
    assert!(
        prompt.contains("haiku"),
        "system prompt should mention haiku"
    );
}

#[test]
fn client_system_prompt_contains_next_model_opus_example() {
    let config = test_config();
    let prompt = build_system_prompt(&config);
    assert!(
        prompt.contains("<next-model>opus</next-model>"),
        "system prompt should show opus example"
    );
}

#[test]
fn client_system_prompt_contains_next_model_sonnet_example() {
    let config = test_config();
    let prompt = build_system_prompt(&config);
    assert!(
        prompt.contains("<next-model>sonnet</next-model>"),
        "system prompt should show sonnet example"
    );
}

#[test]
fn client_system_prompt_contains_next_model_haiku_example() {
    let config = test_config();
    let prompt = build_system_prompt(&config);
    assert!(
        prompt.contains("<next-model>haiku</next-model>"),
        "system prompt should show haiku example"
    );
}

#[test]
fn client_system_prompt_contains_completion_sigils() {
    let config = test_config();
    let prompt = build_system_prompt(&config);
    assert!(
        prompt.contains("<promise>COMPLETE</promise>"),
        "system prompt should document COMPLETE sigil"
    );
    assert!(
        prompt.contains("<promise>FAILURE</promise>"),
        "system prompt should document FAILURE sigil"
    );
}

#[test]
fn system_prompt_contains_prompt_file() {
    let config = test_config();
    let prompt = build_system_prompt(&config);
    assert!(
        prompt.contains(&config.prompt_file),
        "system prompt should reference the prompt file"
    );
}

#[test]
fn system_prompt_contains_progress_db() {
    let config = test_config();
    let prompt = build_system_prompt(&config);
    assert!(
        prompt.contains(".ralph/progress.db"),
        "system prompt should reference the progress database"
    );
}

#[test]
fn claude_args_contain_model_flag() {
    let config = test_config();
    let args = build_claude_args(&config);
    assert!(
        args.contains(&"--model".to_string()),
        "args should contain --model flag"
    );
}

#[test]
fn claude_args_model_flag_followed_by_model_name() {
    let config = test_config();
    let args = build_claude_args(&config);
    let model_idx = args.iter().position(|a| a == "--model").unwrap();
    assert_eq!(
        args[model_idx + 1], config.current_model,
        "args --model should be followed by the current model name"
    );
}

#[test]
fn claude_args_model_reflects_fixed_strategy() {
    let config = config_of(Some("opus"), "fixed");
    let cli_args = build_claude_args(&config);
    let model_idx = cli_args.iter().position(|a| a == "--model").unwrap();
    assert_eq!(
        cli_args[model_idx + 1], "opus",
        "fixed strategy with --model=opus should pass opus to the agent CLI"
    );
}

#[test]
fn claude_args_model_reflects_escalate_strategy() {
    let config = config_of(None, "escalate");
    let cli_args = build_claude_args(&config);
    let model_idx = cli_args.iter().position(|a| a == "--model").unwrap();
    assert_eq!(
        cli_args[model_idx + 1], "haiku",
        "escalate strategy should initially pass haiku to the agent CLI"
    );
}

#[test]
fn claude_args_model_reflects_plan_then_execute_strategy() {
    let config = config_of(None, "plan-then-execute");
    let cli_args = build_claude_args(&config);
    let model_idx = cli_args.iter().position(|a| a == "--model").unwrap();
    assert_eq!(
        cli_args[model_idx + 1], "opus",
        "plan-then-execute strategy should initially pass opus to the agent CLI"
    );
}

#[test]
fn client_task_context_with_all_fields() {
    let task = TaskInfo {
        task_id: "t-abc123".to_string(),
        title: "Implement feature X".to_string(),
        description: "Add the new feature X to the codebase.".to_string(),
        parent: Some(ParentContext {
            title: "Epic Y".to_string(),
            description: format!("The larger epic Y that encompasses {} task.", "this"),
        }),
        completed_blockers: vec![
            BlockerContext {
                task_id: "t-prereq1".to_string(),
                title: "Setup foundation".to_string(),
                summary: "Created the base structure".to_string(),
            },
            BlockerContext {
                task_id: "t-prereq2".to_string(),
                title: "Add dependencies".to_string(),
                summary: "Installed required packages".to_string(),
            },
        ],
        specs_dirs: vec!["specs/api".to_string(), "specs/infra".to_string()],
    };

    let output = build_task_context(&task);

    assert!(output.contains("## Assigned Task"));
    assert!(output.contains("**ID:** t-abc123"));
    assert!(output.contains("**Title:** Implement feature X"));
    assert!(output.contains("### Description"));
    assert!(output.contains("Add the new feature X to the codebase."));
    assert!(output.contains("### Parent Context"));
    assert!(output.contains("**Parent:** Epic Y"));
    assert!(output.contains(&format!("The larger epic Y that encompasses {} task.", "this")));
    assert!(output.contains("### Completed Prerequisites"));
    assert!(output.contains("- [t-prereq1] Setup foundation: Created the base structure"));
    assert!(output.contains("- [t-prereq2] Add dependencies: Installed required packages"));
    assert!(output.contains("### Reference Specs"));
    assert!(output.contains("Read all files in: specs/api, specs/infra"));
}

#[test]
fn client_task_context_no_parent_omits_parent_section() {
    let task = TaskInfo {
        task_id: "t-xyz789".to_string(),
        title: "Standalone task".to_string(),
        description: "A task with no parent.".to_string(),
        parent: None,
        completed_blockers: vec![],
        specs_dirs: vec![".ralph/specs".to_string()],
    };

    let output = build_task_context(&task);

    assert!(output.contains("## Assigned Task"));
    assert!(output.contains("**ID:** t-xyz789"));
    assert!(output.contains("**Title:** Standalone task"));
    assert!(!output.contains("### Parent Context"), "Should not contain parent section");
    assert!(!output.contains("**Parent:**"), "Should not contain parent field");
}

#[test]
fn client_task_context_no_blockers_omits_prerequisites_section() {
    let task = TaskInfo {
        task_id: "t-def456".to_string(),
        title: "Initial task".to_string(),
        description: "A task with no prerequisites.".to_string(),
        parent: Some(ParentContext {
            title: "Parent task".to_string(),
            description: "Parent description.".to_string(),
        }),
        completed_blockers: vec![],
        specs_dirs: vec![".ralph/specs".to_string()],
    };

    let output = build_task_context(&task);

    assert!(output.contains("## Assigned Task"));
    assert!(output.contains("**ID:** t-def456"));
    assert!(output.contains("### Parent Context"));
    assert!(!output.contains("### Completed Prerequisites"), "Should not contain prerequisites section");
}

#[test]
fn client_task_context_with_two_blockers() {
    let task = TaskInfo {
        task_id: "t-multi".to_string(),
        title: "Task with multiple blockers".to_string(),
        description: "Depends on two tasks.".to_string(),
        parent: None,
        completed_blockers: vec![
            BlockerContext {
                task_id: "t-blocker1".to_string(),
                title: "First blocker".to_string(),
                summary: "Completed first".to_string(),
            },
            BlockerContext {
                task_id: "t-blocker2".to_string(),
                title: "Second blocker".to_string(),
                summary: "Completed second".to_string(),
            },
        ],
        specs_dirs: vec![],
    };

    let output = build_task_context(&task);

    assert!(output.contains("### Completed Prerequisites"));
    assert!(output.contains("- [t-blocker1] First blocker: Completed first"));
    assert!(output.contains("- [t-blocker2] Second blocker: Completed second"));
}

#[test]
fn client_task_context_verbatim_fields() {
    let task = TaskInfo {
        task_id: "t-verbatim-123".to_string(),
        title: "Special chars: <>&\"'".to_string(),
        description: "Description with\nnewlines and\ttabs.".to_string(),
        parent: None,
        completed_blockers: vec![],
        specs_dirs: vec![],
    };

    let output = build_task_context(&task);

    assert!(output.contains("**ID:** t-verbatim-123"));
    assert!(output.contains("**Title:** Special chars: <>&\"'"));
    assert!(output.contains("Description with\nnewlines and\ttabs."));
}

#[test]
fn tools_are_listed_outside_the_sandbox() {
    let mut config = test_config();
    assert!(build_claude_args(&config).contains(&"--dangerously-skip-permissions".to_string()));
    config.use_sandbox = false;
    let args = build_claude_args(&config);
    assert_eq!(args[args.len() - 2], "--allowed-tools");
    assert!(args[args.len() - 1].starts_with("Bash Edit "));
}

#[test]
fn sandbox_arguments_come_before_those_of_the_agent() {
    let args = build_sandbox_args("/p.sb", "/proj", "/home", "/git", "agent", &vec!["-x".to_string()]);
    assert_eq!(
        args,
        vec![
            "-f",
            "/p.sb",
            "-D",
            "PROJECT_DIR=/proj",
            "-D",
            "HOME=/home",
            "-D",
            "ROOT_GIT_DIR=/git",
            "agent",
            "-x"
        ]
    );
}

#[test]
fn failures_tell_what_the_process_said() {
    assert_eq!(exit_error("agent", "exit status: 2", ""), "agent exited with status: exit status: 2");
    assert_eq!(exit_error("a", "1", "oops"), "a exited with status: 1\nstderr: oops");
}

#[test]
fn profile_names_hold_a_number() {
    assert_eq!(rand_simple(0), 12345);
    assert_eq!(rand_simple(1), 1103527590);
    assert_eq!(rand_simple(u32::MAX), 3191464396);
    assert_eq!(profile_name(7), "ralph-sandbox-7.sb");
}

#[test]
fn the_last_result_counts() {
    assert!(last_result(vec![]).is_none());
    let first = ResultEvent::default();
    let mut second = ResultEvent::default();
    second.result = Some("final".to_string());
    assert_eq!(last_result(vec![first, second]).unwrap().result, Some("final".to_string()));
}
