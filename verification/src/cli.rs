//! Commands, and the rules on model and strategy arguments.

use vstd::prelude::*;

use crate::text::basic::{opt_text, same};

verus! {

/// The command line.
#[derive(Debug)]
pub struct Args {
    pub command: Option<Command>,
}

/// Available subcommands.
#[allow(inconsistent_fields)]
#[derive(Debug)]
pub enum Command {
    /// Initialize a new Ralph project
    Init,
    /// Manage features (spec, plan, build, list)
    Feature { action: FeatureAction },
    /// Manage tasks
    Task { action: TaskAction },
    /// Authenticate with the agent
    Auth { agent: Option<String> },
    /// Run the agent loop on a feature or task
    Run {
        target: String,
        once: bool,
        limit: Option<u32>,
        model_strategy: Option<String>,
        model: Option<String>,
        max_retries: Option<u32>,
        skip_verify: bool,
        agent: Option<String>,
    },
}

/// Feature subcommands.
#[derive(Debug)]
pub enum FeatureAction {
    /// Interactively craft a specification for a feature
    Spec { name: String, model: Option<String>, agent: Option<String> },
    /// Interactively create an implementation plan
    Plan { name: String, model: Option<String>, agent: Option<String> },
    /// Decompose a plan into a task DAG
    Build { name: String, model: Option<String>, agent: Option<String> },
    /// List all features and their status
    List,
}

/// Task subcommands.
#[allow(inconsistent_fields)]
#[derive(Debug)]
pub enum TaskAction {
    /// Add a new task
    Add {
        title: String,
        description: Option<String>,
        parent: Option<String>,
        feature: Option<String>,
        priority: i32,
        max_retries: i32,
    },
    /// Interactively create a new standalone task
    Create { model: Option<String>, agent: Option<String> },
    /// Show full task details
    Show { id: String, json: bool },
    /// List tasks
    List {
        feature: Option<String>,
        status: Option<String>,
        ready: bool,
        all: bool,
        json: bool,
    },
    /// Update task fields
    Update {
        id: String,
        title: Option<String>,
        description: Option<String>,
        priority: Option<i32>,
    },
    /// Delete a task
    Delete { id: String },
    /// Mark a task as done
    Done { id: String },
    /// Mark a task as failed
    Fail { id: String, reason: Option<String> },
    /// Reset a task to pending
    Reset { id: String },
    /// Add or view task log entries
    Log { id: String, message: Option<String> },
    /// Manage task dependencies
    Deps { action: DepsAction },
    /// Show task tree
    Tree { id: String, json: bool },
}

/// Dependency subcommands.
#[derive(Debug)]
pub enum DepsAction {
    /// Add a dependency: A must complete before B
    Add { blocker: String, blocked: String },
    /// Remove a dependency
    Rm { blocker: String, blocked: String },
    /// List dependencies for a task
    List { id: String },
}

/// The names of models.
pub open spec fn valid_model(s: Seq<char>) -> bool {
    s == "opus"@ || s == "sonnet"@ || s == "haiku"@
}

/// The names of strategies.
pub open spec fn valid_strategy(s: Seq<char>) -> bool {
    s == "fixed"@ || s == "cost-optimized"@ || s == "escalate"@ || s == "plan-then-execute"@
}

/// What the model and strategy arguments come to: the strategy and the model,
/// or why they are refused.
pub open spec fn resolved(model: Option<Seq<char>>, strategy: Option<Seq<char>>) -> Result<
    (Seq<char>, Option<Seq<char>>),
    Seq<char>,
> {
    if model is Some && !valid_model(model->0) {
        Err("invalid model '"@ + model->0 + "': must be one of opus, sonnet, haiku"@)
    } else if strategy is Some && !valid_strategy(strategy->0) {
        Err(
            "invalid model strategy '"@ + strategy->0
                + "': must be one of fixed, cost-optimized, escalate, plan-then-execute"@,
        )
    } else {
        match (strategy, model) {
            (None, Some(m)) => Ok(("fixed"@, Some(m))),
            (Some(s), None) => if s == "fixed"@ {
                Err("--model-strategy=fixed requires --model to be set"@)
            } else {
                Ok((s, None))
            },
            (Some(s), Some(m)) => Ok((s, Some(m))),
            (None, None) => Ok(("cost-optimized"@, None)),
        }
    }
}

/// Valid model names.
pub fn valid_models() -> (r: Vec<String>)
    ensures
        crate::text::basic::texts(r@) == seq!["opus"@, "sonnet"@, "haiku"@],
{
    let mut r: Vec<String> = Vec::new();
    r.push("opus".to_owned());
    r.push("sonnet".to_owned());
    r.push("haiku".to_owned());
    assert(crate::text::basic::texts(r@) =~= seq!["opus"@, "sonnet"@, "haiku"@]);
    r
}

/// Valid strategy names.
pub fn valid_strategies() -> (r: Vec<String>)
    ensures
        crate::text::basic::texts(r@) == seq![
            "fixed"@,
            "cost-optimized"@,
            "escalate"@,
            "plan-then-execute"@,
        ],
{
    let mut r: Vec<String> = Vec::new();
    r.push("fixed".to_owned());
    r.push("cost-optimized".to_owned());
    r.push("escalate".to_owned());
    r.push("plan-then-execute".to_owned());
    assert(crate::text::basic::texts(r@) =~= seq![
        "fixed"@,
        "cost-optimized"@,
        "escalate"@,
        "plan-then-execute"@,
    ]);
    r
}

/// Validates and resolves model/strategy arguments.
/// Returns (strategy, model) where strategy is always set.
pub fn resolve_model_strategy(model: &Option<String>, model_strategy: &Option<String>) -> (r: Result<
    (String, Option<String>),
    String,
>)
    ensures
        match resolved(opt_text(*model), opt_text(*model_strategy)) {
            Ok(v) => r is Ok && r->Ok_0.0@ == v.0 && opt_text(r->Ok_0.1) == v.1,
            Err(e) => r is Err && r->Err_0@ == e,
        },
{
    if let Some(m) = model {
        if !(same(m.as_str(), "opus") || same(m.as_str(), "sonnet") || same(
            m.as_str(),
            "haiku",
        )) {
            let mut e = "invalid model '".to_owned();
            e.append(m.as_str());
            e.append("': must be one of opus, sonnet, haiku");
            return Err(e);
        }
    }
    if let Some(s) = model_strategy {
        if !(same(s.as_str(), "fixed") || same(s.as_str(), "cost-optimized") || same(
            s.as_str(),
            "escalate",
        ) || same(s.as_str(), "plan-then-execute")) {
            let mut e = "invalid model strategy '".to_owned();
            e.append(s.as_str());
            e.append("': must be one of fixed, cost-optimized, escalate, plan-then-execute");
            return Err(e);
        }
    }
    match (model_strategy, model) {
        (None, Some(m)) => Ok(("fixed".to_owned(), Some(m.clone()))),
        (Some(s), None) => {
            if same(s.as_str(), "fixed") {
                Err("--model-strategy=fixed requires --model to be set".to_owned())
            } else {
                Ok((s.clone(), None))
            }
        },
        (Some(s), Some(m)) => Ok((s.clone(), Some(m.clone()))),
        (None, None) => Ok(("cost-optimized".to_owned(), None)),
    }
}

/// The run target that a name stands for: task ids begin with `t-`.
pub fn is_task_target(target: &str) -> (r: bool)
    ensures
        r == crate::text::search::starts_with(target@, "t-"@),
{
    crate::text::search::begins(target, "t-")
}

/// A model or a strategy that does not exist is refused by its name, the model
/// first, and the refusal tells which there are; the fixed strategy is refused
/// without a model. A strategy goes before the one that a model alone stands for.
pub proof fn law_refused_model_arguments(m: Seq<char>, s: Seq<char>, other: Option<Seq<char>>)
    ensures
        m != "opus"@ && m != "sonnet"@ && m != "haiku"@ ==> resolved(Some(m), other) == Err::<
            (Seq<char>, Option<Seq<char>>),
            Seq<char>,
        >("invalid model '"@ + m + "': must be one of opus, sonnet, haiku"@),
        s != "fixed"@ && s != "cost-optimized"@ && s != "escalate"@ && s != "plan-then-execute"@
            ==> resolved(None, Some(s)) == Err::<(Seq<char>, Option<Seq<char>>), Seq<char>>(
            "invalid model strategy '"@ + s
                + "': must be one of fixed, cost-optimized, escalate, plan-then-execute"@,
        ),
        resolved(None, Some("fixed"@)) is Err,
        resolved(Some(m), Some(s)) matches Ok(r) ==> r == (s, Some(m)),
        resolved(Some(m), None) matches Ok(r) ==> r == ("fixed"@, Some(m)),
        resolved(None, Some(s)) matches Ok(r) ==> r == (s, None::<Seq<char>>),
        resolved(None, None) == Ok::<(Seq<char>, Option<Seq<char>>), Seq<char>>(
            ("cost-optimized"@, None),
        ),
{
}

} // verus!
