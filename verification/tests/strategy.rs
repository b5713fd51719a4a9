//! Model selection.

use std::collections::hash_map::RandomState;
use std::hash::{BuildHasher, Hasher};

use ralph::agent::AgentNames;
use ralph::config::{Config, ModelStrategy, RunArgs, RunEnv};
use ralph::project::{ProjectConfig, RalphConfig};
use ralph::strategy::{
    analyze_progress, assess_escalation_need, level_to_model, model_to_level, override_line,
    select_model, select_plan_then_execute, ModelSelection,
};

fn names() -> AgentNames {
    AgentNames {
        command: "agent".to_string(),
        title: "Agent".to_string(),
        guide: "NOTES.md".to_string(),
    }
}

fn env() -> RunEnv {
    RunEnv {
        agent: names(),
        iteration: None,
        total: None,
        agent_hash: RandomState::new().build_hasher().finish(),
        run_hash: RandomState::new().build_hasher().finish(),
    }
}

fn test_project() -> ProjectConfig {
    ProjectConfig { root: "/test".to_string(), config: RalphConfig::default() }
}

fn run_args(model: Option<&str>, strategy: Option<&str>) -> RunArgs {
    RunArgs {
        prompt_file: None,
        once: false,
        no_sandbox: false,
        limit: None,
        allow: vec![],
        model_strategy: strategy.map(String::from),
        model: model.map(String::from),
        max_retries_override: None,
        skip_verify: false,
    }
}

fn fixed_config(model: &str) -> Config {
    let args = run_args(Some(model), Some("fixed"));
    Config::from_run_args(args, test_project(), None, env()).unwrap()
}

fn strategy_config(strategy: &str) -> Config {
    Config::from_run_args(run_args(None, Some(strategy)), test_project(), None, env()).unwrap()
}

fn escalate_config() -> Config {
    strategy_config("escalate")
}

fn plan_then_execute_config() -> Config {
    strategy_config("plan-then-execute")
}

#[test]
fn fixed_strategy_returns_configured_model() {
    let mut config = fixed_config("opus");
    assert_eq!(select_model(&mut config, None, "").model, "opus");
}

#[test]
fn fixed_strategy_returns_haiku_when_configured() {
    let mut config = fixed_config("haiku");
    assert_eq!(select_model(&mut config, None, "").model, "haiku");
}

#[test]
fn fixed_strategy_returns_sonnet_when_configured() {
    let mut config = fixed_config("sonnet");
    assert_eq!(select_model(&mut config, None, "").model, "sonnet");
}

#[test]
fn fixed_strategy_same_model_across_iterations() {
    let mut config = fixed_config("opus");
    for i in 1..=10 {
        assert_eq!(
            select_model(&mut config, None, "").model,
            "opus",
            "iteration {} should still return opus",
            i
        );
        config = config.next_iteration();
    }
}

#[test]
fn fixed_strategy_ignores_iteration_number() {
    let config = fixed_config("haiku");
    // Simulate being at iteration 50
    let mut cfg = config;
    for _ in 0..49 {
        cfg = cfg.next_iteration();
    }
    assert_eq!(cfg.iteration, 50);
    assert_eq!(select_model(&mut cfg, None, "").model, "haiku");
}

#[test]
fn hint_overrides_fixed_strategy() {
    let mut config = fixed_config("haiku");
    let selection = select_model(&mut config, Some("opus"), "");
    assert_eq!(selection.model, "opus");
    assert!(selection.was_overridden);
    assert_eq!(selection.strategy_choice, "haiku");
    assert_eq!(selection.hint, Some("opus".to_string()));
}

#[test]
fn cost_optimized_empty_progress_returns_sonnet() {
    assert_eq!(analyze_progress("", 1), "sonnet");
}

#[test]
fn cost_optimized_ambiguous_progress_returns_sonnet() {
    assert_eq!(
        analyze_progress("Some work was done but unclear status.", 3),
        "sonnet"
    );
}

#[test]
fn cost_optimized_error_signals_return_opus() {
    let content = "[R1] DONE — Implemented feature X\n\
                    [R2] FAILED — Tests are broken, error in parser";
    assert_eq!(analyze_progress(content, 3), "opus");
}

#[test]
fn cost_optimized_failure_signal_returns_opus() {
    let content = "Iteration 5: stuck on a regression in the build system.";
    assert_eq!(analyze_progress(content, 5), "opus");
}

#[test]
fn cost_optimized_stuck_signal_returns_opus() {
    let content = "Cannot proceed, stuck on dependency issue.";
    assert_eq!(analyze_progress(content, 2), "opus");
}

#[test]
fn cost_optimized_steady_completions_return_haiku() {
    let content = "[R1] DONE — Added CLI flags\n\
                    [R2] DONE — Added config fields\n\
                    [R3] DONE — Implemented fixed strategy";
    assert_eq!(analyze_progress(content, 4), "haiku");
}

#[test]
fn cost_optimized_two_completions_still_returns_sonnet() {
    // Only 2 DONE entries — not enough to confidently use haiku
    let content = "[R1] DONE — Added CLI flags\n\
                    [R2] DONE — Added config fields";
    assert_eq!(analyze_progress(content, 3), "sonnet");
}

#[test]
fn cost_optimized_errors_override_completions() {
    // Even with many completions, error signals take priority
    let content = "[R1] DONE — Added CLI flags\n\
                    [R2] DONE — Added config fields\n\
                    [R3] DONE — Implemented strategy\n\
                    [R4] Error: tests are failing";
    assert_eq!(analyze_progress(content, 5), "opus");
}

#[test]
fn cost_optimized_default_iteration_1_returns_sonnet() {
    assert_eq!(analyze_progress("", 1), "sonnet");
}

#[test]
fn hint_overrides_cost_optimized_strategy() {
    // Even though analyze_progress would return sonnet for empty content,
    // the hint should win
    let mut config = strategy_config("cost-optimized");
    assert_eq!(select_model(&mut config, Some("haiku"), "").model, "haiku");
}

#[test]
fn escalate_starts_at_haiku() {
    let config = escalate_config();
    assert_eq!(config.current_model, "haiku");
    assert_eq!(config.escalation_level, 0);
}

#[test]
fn escalate_no_distress_stays_haiku() {
    assert_eq!(assess_escalation_need(""), 0);
    assert_eq!(assess_escalation_need("[R1] DONE — Added CLI flags"), 0);
}

#[test]
fn escalate_moderate_distress_returns_sonnet_level() {
    assert_eq!(
        assess_escalation_need("[R2] FAILED — Tests have an error"),
        1
    );
    assert_eq!(assess_escalation_need("There is a bug in the parser"), 1);
}

#[test]
fn escalate_severe_distress_returns_opus_level() {
    assert_eq!(
        assess_escalation_need("Stuck on a regression in the build system"),
        2
    );
    assert_eq!(
        assess_escalation_need("Cannot proceed, broken dependency"),
        2
    );
    assert_eq!(assess_escalation_need("Unable to resolve the panic"), 2);
}

#[test]
fn escalate_never_auto_de_escalates() {
    let mut config = escalate_config();
    // Manually set escalation level to sonnet (1)
    config.escalation_level = 1;

    // With clean progress, assess_escalation_need returns 0,
    // but escalation_level should stay at 1
    let result = assess_escalation_need("");
    assert_eq!(result, 0); // need is 0
                           // But select_escalate keeps max(current, needed)
                           // We can't call select_escalate directly (reads file), so test the logic:
    let new_level = std::cmp::max(config.escalation_level, result);
    assert_eq!(new_level, 1); // stays at 1, not de-escalated to 0
    assert_eq!(level_to_model(new_level), "sonnet");
}

#[test]
fn escalate_escalation_sequence_haiku_to_sonnet_to_opus() {
    // Level 0 → haiku
    assert_eq!(level_to_model(0), "haiku");
    // Level 1 → sonnet
    assert_eq!(level_to_model(1), "sonnet");
    // Level 2 → opus
    assert_eq!(level_to_model(2), "opus");
}

#[test]
fn escalate_hint_de_escalates_level() {
    let mut config = escalate_config();
    config.escalation_level = 2; // at opus level

    // Hint to haiku should de-escalate
    let selection = select_model(&mut config, Some("haiku"), "");
    assert_eq!(selection.model, "haiku");
    assert_eq!(config.escalation_level, 0); // level reset to haiku
}

#[test]
fn escalate_hint_can_escalate_level() {
    let mut config = escalate_config();
    assert_eq!(config.escalation_level, 0); // starts at haiku

    // Hint to opus should escalate
    let selection = select_model(&mut config, Some("opus"), "");
    assert_eq!(selection.model, "opus");
    assert_eq!(config.escalation_level, 2); // level moved to opus
}

#[test]
fn escalate_model_to_level_mapping() {
    assert_eq!(model_to_level("haiku"), 0);
    assert_eq!(model_to_level("sonnet"), 1);
    assert_eq!(model_to_level("opus"), 2);
    assert_eq!(model_to_level("unknown"), 1); // fallback
}

#[test]
fn escalate_stays_at_escalated_level_across_iterations() {
    let mut config = escalate_config();
    config.escalation_level = 2; // already at opus

    // Even with no distress, level stays at 2
    let needed = assess_escalation_need("[R1] DONE — All good");
    assert_eq!(needed, 0);
    let level = std::cmp::max(config.escalation_level, needed);
    assert_eq!(level, 2);
    assert_eq!(level_to_model(level), "opus");

    // Advance iteration, level persists via clone
    let next_config = config.next_iteration();
    assert_eq!(next_config.escalation_level, 2);
}

#[test]
fn plan_then_execute_iteration_1_returns_opus() {
    let mut config = plan_then_execute_config();
    assert_eq!(config.iteration, 1);
    assert_eq!(select_model(&mut config, None, "").model, "opus");
}

#[test]
fn plan_then_execute_iteration_2_returns_sonnet() {
    let mut config = plan_then_execute_config();
    config = config.next_iteration(); // iteration 2
    assert_eq!(config.iteration, 2);
    assert_eq!(select_model(&mut config, None, "").model, "sonnet");
}

#[test]
fn plan_then_execute_iteration_5_returns_sonnet() {
    let mut config = plan_then_execute_config();
    for _ in 1..5 {
        config = config.next_iteration();
    }
    assert_eq!(config.iteration, 5);
    assert_eq!(select_model(&mut config, None, "").model, "sonnet");
}

#[test]
fn plan_then_execute_hint_overrides_to_haiku() {
    let mut config = plan_then_execute_config();
    config = config.next_iteration(); // iteration 2
                                      // Hint to haiku for simple cleanup
    assert_eq!(select_model(&mut config, Some("haiku"), "").model, "haiku");
}

#[test]
fn plan_then_execute_hint_overrides_to_opus() {
    let mut config = plan_then_execute_config();
    config = config.next_iteration(); // iteration 2
    config = config.next_iteration(); // iteration 3
                                      // Hint to opus for a hard sub-task
    assert_eq!(select_model(&mut config, Some("opus"), "").model, "opus");
}

#[test]
fn plan_then_execute_hint_overrides_iteration_1() {
    let mut config = plan_then_execute_config();
    assert_eq!(config.iteration, 1);
    // Even on iteration 1, hint can override to a different model
    assert_eq!(select_model(&mut config, Some("haiku"), "").model, "haiku");
}

#[test]
fn plan_then_execute_config_starts_at_opus() {
    let config = plan_then_execute_config();
    assert_eq!(config.current_model, "opus");
    assert_eq!(config.model_strategy, ModelStrategy::PlanThenExecute);
}

#[test]
fn plan_then_execute_direct_function_iteration_1() {
    let config = plan_then_execute_config();
    assert_eq!(select_plan_then_execute(&config), "opus");
}

#[test]
fn plan_then_execute_direct_function_iteration_2_plus() {
    let config_iter2 = plan_then_execute_config().next_iteration();
    assert_eq!(select_plan_then_execute(&config_iter2), "sonnet");

    let config_iter10 = {
        let mut c = plan_then_execute_config();
        for _ in 1..10 {
            c = c.next_iteration();
        }
        c
    };
    assert_eq!(config_iter10.iteration, 10);
    assert_eq!(select_plan_then_execute(&config_iter10), "sonnet");
}

#[test]
fn no_hint_means_no_override() {
    let mut config = fixed_config("opus");
    let selection = select_model(&mut config, None, "");
    assert!(!selection.was_overridden);
    assert_eq!(selection.hint, None);
    assert_eq!(selection.strategy_choice, "opus");
    assert_eq!(selection.model, "opus");
}

#[test]
fn hint_matching_strategy_is_not_override() {
    let mut config = fixed_config("opus");
    let selection = select_model(&mut config, Some("opus"), "");
    assert!(!selection.was_overridden);
    assert_eq!(selection.hint, Some("opus".to_string()));
    assert_eq!(selection.strategy_choice, "opus");
    assert_eq!(selection.model, "opus");
}

#[test]
fn hint_differing_from_strategy_is_override() {
    let mut config = fixed_config("haiku");
    let selection = select_model(&mut config, Some("opus"), "");
    assert!(selection.was_overridden);
    assert_eq!(selection.strategy_choice, "haiku");
    assert_eq!(selection.hint, Some("opus".to_string()));
    assert_eq!(selection.model, "opus");
}

#[test]
fn override_logged_to_progress_file() {
    let selection = ModelSelection {
        model: "opus".to_string(),
        strategy_choice: "sonnet".to_string(),
        hint: Some("opus".to_string()),
        was_overridden: true,
    };

    let content = override_line(3, &selection);
    assert!(content.contains("[model-override]"));
    assert!(content.contains("iteration=3"));
    assert!(content.contains("strategy_choice=sonnet"));
    assert!(content.contains("hint=opus"));
}

#[test]
fn no_override_means_no_log_entry() {
    let mut config = fixed_config("opus");
    let selection = select_model(&mut config, None, "");

    // The loop logs an override only when there is one.
    assert!(!selection.was_overridden);
}

#[test]
fn override_appends_to_existing_progress_file() {
    let mut content = "[R1] DONE — stuff\n".to_string();

    let selection = ModelSelection {
        model: "haiku".to_string(),
        strategy_choice: "sonnet".to_string(),
        hint: Some("haiku".to_string()),
        was_overridden: true,
    };

    content.push_str(&override_line(5, &selection));

    assert!(content.starts_with("[R1] DONE"));
    assert!(content.contains("[model-override]"));
    assert!(content.contains("iteration=5"));
    assert!(content.contains("hint=haiku"));
}

#[test]
fn plan_then_execute_override_detected_on_iteration_2() {
    // Plan-then-execute would choose sonnet at iteration 2,
    // but hint overrides to opus — should be detected as override
    let mut config = plan_then_execute_config();
    config = config.next_iteration(); // iteration 2
    let selection = select_model(&mut config, Some("opus"), "");
    assert!(selection.was_overridden);
    assert_eq!(selection.strategy_choice, "sonnet");
    assert_eq!(selection.model, "opus");
}

#[test]
fn plan_then_execute_no_override_when_hint_matches() {
    // Plan-then-execute chooses opus at iteration 1,
    // hint also says opus — no override
    let mut config = plan_then_execute_config();
    let selection = select_model(&mut config, Some("opus"), "");
    assert!(!selection.was_overridden);
    assert_eq!(selection.strategy_choice, "opus");
    assert_eq!(selection.model, "opus");
}

#[test]
fn escalate_override_detected_when_hint_differs() {
    let mut config = escalate_config();
    // Escalate starts at haiku (level 0), hint overrides to opus
    let selection = select_model(&mut config, Some("opus"), "");
    assert!(selection.was_overridden);
    assert_eq!(selection.strategy_choice, "haiku");
    assert_eq!(selection.model, "opus");
}

#[test]
fn escalation_follows_the_progress_upward() {
    let mut config = escalate_config();
    assert_eq!(select_model(&mut config, None, "There is a bug").model, "sonnet");
    assert_eq!(config.escalation_level, 1);
    assert_eq!(select_model(&mut config, None, "STUCK").model, "opus");
    assert_eq!(select_model(&mut config, None, "").model, "opus");
    assert_eq!(config.escalation_level, 2);
}

#[test]
fn levels_and_models_undo_each_other() {
    for level in 0..=2 {
        assert_eq!(model_to_level(&level_to_model(level)), level);
    }
}

#[test]
fn cost_optimized_reads_the_progress() {
    let mut config = strategy_config("cost-optimized");
    let done = "[R1] DONE\n[R2] DONE\n[R3] DONE\n";
    assert_eq!(select_model(&mut config, None, done).model, "haiku");
    let selection = select_model(&mut config, Some("opus"), done);
    assert_eq!(selection.strategy_choice, "haiku");
    assert!(selection.was_overridden);
}
