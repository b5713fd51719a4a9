//! The configuration of a run.

use std::collections::hash_map::RandomState;
use std::hash::{BuildHasher, Hasher};

use ralph::agent::AgentNames;
use ralph::config::{Config, ModelStrategy, RunArgs, RunEnv};
use ralph::project::{ExecutionConfig, ProjectConfig, RalphConfig};

fn names() -> AgentNames {
    AgentNames {
        command: "agent".to_string(),
        title: "Agent".to_string(),
        guide: "NOTES.md".to_string(),
    }
}

fn env() -> RunEnv {
    RunEnv {
        agent: names(),
        iteration: None,
        total: None,
        agent_hash: RandomState::new().build_hasher().finish(),
        run_hash: RandomState::new().build_hasher().finish(),
    }
}

fn test_project() -> ProjectConfig {
    ProjectConfig { root: "/test".to_string(), config: RalphConfig::default() }
}

fn run_args(model: Option<&str>, strategy: Option<&str>) -> RunArgs {
    RunArgs {
        prompt_file: None,
        once: false,
        no_sandbox: false,
        limit: None,
        allow: vec![],
        model_strategy: strategy.map(String::from),
        model: model.map(String::from),
        max_retries_override: None,
        skip_verify: false,
    }
}

fn config_from_run(model: Option<&str>, strategy: Option<&str>) -> Result<Config, String> {
    Config::from_run_args(run_args(model, strategy), test_project(), None, env())
}

#[test]
fn config_default_strategy_is_cost_optimized() {
    let config = config_from_run(None, None).unwrap();
    assert_eq!(config.model_strategy, ModelStrategy::CostOptimized);
    assert_eq!(config.model, None);
    assert_eq!(config.current_model, "sonnet");
}

#[test]
fn config_fixed_strategy_requires_model() {
    let result = config_from_run(None, Some("fixed"));
    assert!(result.is_err());
}

#[test]
fn config_fixed_strategy_with_model() {
    let config = config_from_run(Some("opus"), Some("fixed")).unwrap();
    assert_eq!(config.model_strategy, ModelStrategy::Fixed);
    assert_eq!(config.model, Some("opus".to_string()));
    assert_eq!(config.current_model, "opus");
}

#[test]
fn config_model_alone_implies_fixed() {
    let config = config_from_run(Some("haiku"), None).unwrap();
    assert_eq!(config.model_strategy, ModelStrategy::Fixed);
    assert_eq!(config.current_model, "haiku");
}

#[test]
fn config_escalate_starts_at_haiku() {
    let config = config_from_run(None, Some("escalate")).unwrap();
    assert_eq!(config.model_strategy, ModelStrategy::Escalate);
    assert_eq!(config.current_model, "haiku");
}

#[test]
fn config_plan_then_execute_starts_at_opus() {
    let config = config_from_run(None, Some("plan-then-execute")).unwrap();
    assert_eq!(config.model_strategy, ModelStrategy::PlanThenExecute);
    assert_eq!(config.current_model, "opus");
}

#[test]
fn config_next_iteration_preserves_strategy() {
    let config = config_from_run(Some("sonnet"), Some("fixed")).unwrap();
    let next = config.next_iteration();
    assert_eq!(next.model_strategy, ModelStrategy::Fixed);
    assert_eq!(next.model, Some("sonnet".to_string()));
    assert_eq!(next.current_model, "sonnet");
    assert_eq!(next.iteration, 2);
}

#[test]
fn model_strategy_display() {
    assert_eq!(ModelStrategy::Fixed.name(), "fixed");
    assert_eq!(ModelStrategy::CostOptimized.name(), "cost-optimized");
    assert_eq!(ModelStrategy::Escalate.name(), "escalate");
    assert_eq!(
        ModelStrategy::PlanThenExecute.name(),
        "plan-then-execute"
    );
}

#[test]
fn model_strategy_from_str_valid() {
    assert_eq!(
        ModelStrategy::from_str("fixed").unwrap(),
        ModelStrategy::Fixed
    );
    assert_eq!(
        ModelStrategy::from_str("cost-optimized").unwrap(),
        ModelStrategy::CostOptimized
    );
    assert_eq!(
        ModelStrategy::from_str("escalate").unwrap(),
        ModelStrategy::Escalate
    );
    assert_eq!(
        ModelStrategy::from_str("plan-then-execute").unwrap(),
        ModelStrategy::PlanThenExecute
    );
}

#[test]
fn model_strategy_from_str_invalid() {
    assert!(ModelStrategy::from_str("invalid").is_err());
}

#[test]
fn config_has_agent_id() {
    let config = config_from_run(None, None).unwrap();
    assert!(!config.agent_id.is_empty());
    assert!(config.agent_id.starts_with("agent-"));
}

#[test]
fn agent_id_matches_format() {
    let config = config_from_run(None, None).unwrap();
    // Format: agent-{8 hex chars}
    assert_eq!(config.agent_id.len(), 14); // "agent-" (6) + 8 hex chars
    assert!(config
        .agent_id
        .chars()
        .skip(6)
        .all(|c| c.is_ascii_hexdigit()));
}

#[test]
fn agent_id_different_on_separate_invocations() {
    let config1 = config_from_run(None, None).unwrap();
    let config2 = config_from_run(None, None).unwrap();

    // Two invocations should (very likely) produce different IDs
    // Note: this is probabilistic, but collision chance is extremely low with 32-bit hash
    assert_ne!(config1.agent_id, config2.agent_id);
}

#[test]
fn agent_id_preserved_across_iterations() {
    let config = config_from_run(None, None).unwrap();
    let agent_id_1 = config.agent_id.clone();

    let next = config.next_iteration();
    assert_eq!(next.agent_id, agent_id_1);
}

#[test]
fn test_config_has_run_id() {
    let config = config_from_run(None, None).unwrap();
    assert!(!config.run_id.is_empty());
    assert!(config.run_id.starts_with("run-"));
    // Format: run-{8 hex chars}
    assert_eq!(config.run_id.len(), 12); // "run-" (4) + 8 hex chars
    assert!(config.run_id.chars().skip(4).all(|c| c.is_ascii_hexdigit()));
}

#[test]
fn test_execution_config_backward_compat() {
    // TOML with learn = false should parse without error (backward compat)
    let toml_content = r#"
[execution]
learn = false
max_retries = 3
verify = true
"#;
    let table = toml_content.parse::<toml::Table>().unwrap();
    let execution = table["execution"].as_table().unwrap();
    let config = ExecutionConfig::from_parts(
        execution["max_retries"].as_integer().map(|n| n as u32),
        execution["verify"].as_bool(),
        execution["learn"].as_bool(),
    );
    // learn field is retained in ExecutionConfig for backward compat
    assert_eq!(config.max_retries, 3);
    assert!(config.verify);
}

#[test]
fn once_admits_one_iteration() {
    let mut args = run_args(None, None);
    args.once = true;
    let config = Config::from_run_args(args, test_project(), None, env()).unwrap();
    assert_eq!(config.limit, 1);
    assert_eq!(config.iteration, 1);
    assert!(config.limit_reached());
}

#[test]
fn once_and_limit_exclude_each_other() {
    let mut args = run_args(None, None);
    args.once = true;
    args.limit = Some(5);
    let refused = Config::from_run_args(args, test_project(), None, env());
    assert_eq!(refused.unwrap_err(), "--once and --limit are mutually exclusive");
}

#[test]
fn limit_of_five_is_reached_at_the_fifth_iteration() {
    let mut args = run_args(None, None);
    args.limit = Some(5);
    let mut config = Config::from_run_args(args, test_project(), None, env()).unwrap();
    for i in 1..5 {
        assert_eq!(config.iteration, i);
        assert!(!config.limit_reached());
        config = config.next_iteration();
    }
    assert!(config.limit_reached());
}

#[test]
fn no_limit_is_never_reached() {
    let mut config = config_from_run(None, None).unwrap();
    config.iteration = 4_000_000_000;
    assert!(!config.limit_reached());
}

#[test]
fn numbers_of_the_environment_are_read() {
    let surroundings = RunEnv {
        agent: names(),
        iteration: Some("7".to_string()),
        total: Some("many".to_string()),
        agent_hash: 0x1234_5678_9abc_def0,
        run_hash: 0xff,
    };
    let mut args = run_args(None, None);
    args.limit = Some(9);
    let config = Config::from_run_args(args, test_project(), None, surroundings).unwrap();
    assert_eq!(config.iteration, 7);
    assert_eq!(config.total, 9);
    assert_eq!(config.agent_id, "agent-9abcdef0");
    assert_eq!(config.run_id, "run-000000ff");
    assert_eq!(config.agent.title, "Agent");
}

#[test]
fn project_settings_and_their_overrides() {
    let mut project = test_project();
    project.config.execution.max_retries = 8;
    project.config.execution.verify = false;
    let config = Config::from_run_args(run_args(None, None), project, None, env()).unwrap();
    assert_eq!(config.max_retries, 8);
    assert!(!config.verify);

    let mut args = run_args(None, None);
    args.max_retries_override = Some(2);
    args.skip_verify = true;
    let config = Config::from_run_args(args, test_project(), None, env()).unwrap();
    assert_eq!(config.max_retries, 2);
    assert!(!config.verify);
    assert_eq!(config.allowed_tools.len(), 12);
    assert_eq!(config.prompt_file, "prompt");
    assert!(config.use_sandbox);
}
