//! Model and strategy arguments.

use ralph::cli::{is_task_target, resolve_model_strategy, valid_models, valid_strategies};

#[test]
fn model_alone_implies_fixed() {
    let model = Some("opus".to_string());
    let strategy = None;
    let (resolved_strategy, resolved_model) =
        resolve_model_strategy(&model, &strategy).unwrap();
    assert_eq!(resolved_strategy, "fixed");
    assert_eq!(resolved_model, Some("opus".to_string()));
}

#[test]
fn fixed_without_model_errors() {
    let model = None;
    let strategy = Some("fixed".to_string());
    let result = resolve_model_strategy(&model, &strategy);
    assert!(result.is_err());
    assert!(result.unwrap_err().contains("requires --model"));
}

#[test]
fn default_is_cost_optimized() {
    let model = None;
    let strategy = None;
    let (resolved_strategy, resolved_model) =
        resolve_model_strategy(&model, &strategy).unwrap();
    assert_eq!(resolved_strategy, "cost-optimized");
    assert_eq!(resolved_model, None);
}

#[test]
fn invalid_model_name_errors() {
    let model = Some("gpt4".to_string());
    let strategy = None;
    let result = resolve_model_strategy(&model, &strategy);
    assert!(result.is_err());
    assert!(result.unwrap_err().contains("invalid model"));
}

#[test]
fn invalid_strategy_name_errors() {
    let model = None;
    let strategy = Some("random".to_string());
    let result = resolve_model_strategy(&model, &strategy);
    assert!(result.is_err());
    assert!(result.unwrap_err().contains("invalid model strategy"));
}

#[test]
fn valid_models_accepted() {
    for model_name in valid_models() {
        let model = Some(model_name.to_string());
        let strategy = None;
        assert!(
            resolve_model_strategy(&model, &strategy).is_ok(),
            "model '{}' should be valid",
            model_name
        );
    }
}

#[test]
fn valid_strategies_accepted() {
    for strategy_name in valid_strategies() {
        // Non-fixed strategies don't require --model
        if strategy_name != "fixed" {
            let model = None;
            let strategy = Some(strategy_name.to_string());
            assert!(
                resolve_model_strategy(&model, &strategy).is_ok(),
                "strategy '{}' should be valid",
                strategy_name
            );
        }
    }
}

#[test]
fn fixed_with_model_works() {
    let model = Some("haiku".to_string());
    let strategy = Some("fixed".to_string());
    let (resolved_strategy, resolved_model) =
        resolve_model_strategy(&model, &strategy).unwrap();
    assert_eq!(resolved_strategy, "fixed");
    assert_eq!(resolved_model, Some("haiku".to_string()));
}

#[test]
fn non_fixed_strategy_with_model_works() {
    let model = Some("opus".to_string());
    let strategy = Some("escalate".to_string());
    let (resolved_strategy, resolved_model) =
        resolve_model_strategy(&model, &strategy).unwrap();
    assert_eq!(resolved_strategy, "escalate");
    assert_eq!(resolved_model, Some("opus".to_string()));
}

#[test]
fn refusals_name_what_was_given() {
    let refused = resolve_model_strategy(&Some("gpt4".to_string()), &None).unwrap_err();
    assert_eq!(refused, "invalid model 'gpt4': must be one of opus, sonnet, haiku");
    let refused = resolve_model_strategy(&None, &Some("random".to_string())).unwrap_err();
    assert_eq!(
        refused,
        "invalid model strategy 'random': must be one of fixed, cost-optimized, escalate, plan-then-execute"
    );
    let refused = resolve_model_strategy(&None, &Some("fixed".to_string())).unwrap_err();
    assert_eq!(refused, "--model-strategy=fixed requires --model to be set");
}

#[test]
fn task_ids_are_told_from_feature_names() {
    assert!(is_task_target("t-abc123"));
    assert!(!is_task_target("task"));
    assert!(!is_task_target("my-t-feature"));
}
