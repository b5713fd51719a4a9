//! Run configuration and validation.

use vstd::prelude::*;

use crate::agent::{AgentNames, AgentNamesView};
use crate::cli::{resolve_model_strategy, resolved, valid_strategy};
use crate::project::{ProjectConfig, RalphConfig};
use crate::text::basic::{clone_opt, clone_texts, opt_text, same, texts};
use crate::text::number::{hex, hex_text, is_hex_digit, lemma_hex, parse_u32, parsed_u32};

verus! {

/// Target for the `ralph run` command.
#[derive(Debug)]
pub enum RunTarget {
    /// Run a feature by name.
    Feature(String),
    /// Run a standalone task by ID (t-...).
    Task(String),
}

/// What a run target names.
pub enum RunTargetView {
    Feature(Seq<char>),
    Task(Seq<char>),
}

impl View for RunTarget {
    type V = RunTargetView;

    open spec fn view(&self) -> RunTargetView {
        match self {
            RunTarget::Feature(n) => RunTargetView::Feature(n@),
            RunTarget::Task(n) => RunTargetView::Task(n@),
        }
    }
}

impl Clone for RunTarget {
    fn clone(&self) -> (r: Self)
        ensures
            r@ == self@,
    {
        match self {
            RunTarget::Feature(n) => RunTarget::Feature(n.clone()),
            RunTarget::Task(n) => RunTarget::Task(n.clone()),
        }
    }
}

/// Model strategy for selecting models across loop iterations.
#[derive(Debug, Clone, Copy, PartialEq, Eq, Structural)]
pub enum ModelStrategy {
    /// Always use the configured model.
    Fixed,
    /// Pick cheapest model that can handle each iteration based on heuristics.
    CostOptimized,
    /// Start cheap, escalate on failure signals.
    Escalate,
    /// Use opus for planning (iteration 1), sonnet for execution.
    PlanThenExecute,
}

/// The name of a strategy.
pub open spec fn strategy_name(m: ModelStrategy) -> Seq<char> {
    match m {
        ModelStrategy::Fixed => "fixed"@,
        ModelStrategy::CostOptimized => "cost-optimized"@,
        ModelStrategy::Escalate => "escalate"@,
        ModelStrategy::PlanThenExecute => "plan-then-execute"@,
    }
}

/// The strategy of a name.
pub open spec fn strategy_of(s: Seq<char>) -> Option<ModelStrategy> {
    if s == "fixed"@ {
        Some(ModelStrategy::Fixed)
    } else if s == "cost-optimized"@ {
        Some(ModelStrategy::CostOptimized)
    } else if s == "escalate"@ {
        Some(ModelStrategy::Escalate)
    } else if s == "plan-then-execute"@ {
        Some(ModelStrategy::PlanThenExecute)
    } else {
        None
    }
}

proof fn lemma_strategy_names()
    ensures
        "fixed"@ != "cost-optimized"@,
        "fixed"@ != "escalate"@,
        "fixed"@ != "plan-then-execute"@,
        "cost-optimized"@ != "escalate"@,
        "cost-optimized"@ != "plan-then-execute"@,
        "escalate"@ != "plan-then-execute"@,
{
    reveal_strlit("fixed");
    reveal_strlit("cost-optimized");
    reveal_strlit("escalate");
    reveal_strlit("plan-then-execute");
    assert("fixed"@[0] != "cost-optimized"@[0]);
    assert("fixed"@[0] != "escalate"@[0]);
    assert("fixed"@[0] != "plan-then-execute"@[0]);
    assert("cost-optimized"@[0] != "escalate"@[0]);
    assert("cost-optimized"@[0] != "plan-then-execute"@[0]);
    assert("escalate"@[0] != "plan-then-execute"@[0]);
}

/// Reading the name of a strategy gives the strategy back.
pub proof fn law_strategy_name_round_trip(m: ModelStrategy)
    ensures
        strategy_of(strategy_name(m)) == Some(m),
{
    lemma_strategy_names();
}

impl ModelStrategy {
    /// Parses a strategy name string into a ModelStrategy enum variant.
    pub fn from_str(s: &str) -> (r: Result<Self, String>)
        ensures
            match strategy_of(s@) {
                Some(m) => r == Ok::<Self, String>(m),
                None => r is Err && r->Err_0@ == "invalid model strategy '"@ + s@ + "'"@,
            },
    {
        if same(s, "fixed") {
            Ok(ModelStrategy::Fixed)
        } else if same(s, "cost-optimized") {
            Ok(ModelStrategy::CostOptimized)
        } else if same(s, "escalate") {
            Ok(ModelStrategy::Escalate)
        } else if same(s, "plan-then-execute") {
            Ok(ModelStrategy::PlanThenExecute)
        } else {
            let mut e = "invalid model strategy '".to_owned();
            e.append(s);
            e.append("'");
            Err(e)
        }
    }

    /// The name of the strategy.
    pub fn name(&self) -> (r: String)
        ensures
            r@ == strategy_name(*self),
    {
        match self {
            ModelStrategy::Fixed => "fixed".to_owned(),
            ModelStrategy::CostOptimized => "cost-optimized".to_owned(),
            ModelStrategy::Escalate => "escalate".to_owned(),
            ModelStrategy::PlanThenExecute => "plan-then-execute".to_owned(),
        }
    }
}

/// Generates an agent ID: `agent-` and the low 32 bits of a hash.
pub fn generate_agent_id(hash: u64) -> (r: String)
    ensures
        r@ == "agent-"@ + hex(hash as nat, 8),
{
    let mut r = "agent-".to_owned();
    r.append(hex_text(hash, 8).as_str());
    r
}

/// Generates a run ID: `run-` and the low 32 bits of a hash.
pub fn generate_run_id(hash: u64) -> (r: String)
    ensures
        r@ == "run-"@ + hex(hash as nat, 8),
{
    let mut r = "run-".to_owned();
    r.append(hex_text(hash, 8).as_str());
    r
}

/// Agent and run ids end in eight hexadecimal digits.
pub proof fn law_run_ids_format(prefix: Seq<char>, hash: u64)
    ensures
        (prefix + hex(hash as nat, 8)).len() == prefix.len() + 8,
        forall|i: int|
            prefix.len() <= i < prefix.len() + 8 ==> is_hex_digit(
                #[trigger] (prefix + hex(hash as nat, 8))[i],
            ),
{
    lemma_hex(hash as nat, 8);
    assert forall|i: int| prefix.len() <= i < prefix.len() + 8 implies is_hex_digit(
        #[trigger] (prefix + hex(hash as nat, 8))[i],
    ) by {
        assert((prefix + hex(hash as nat, 8))[i] == hex(hash as nat, 8)[i - prefix.len()]);
    }
}

/// What a run takes from its surroundings: what the agent is called, the
/// environment variables `RALPH_ITERATION` and `RALPH_TOTAL`, and two hashes
/// for the ids.
#[derive(Debug)]
pub struct RunEnv {
    pub agent: AgentNames,
    pub iteration: Option<String>,
    pub total: Option<String>,
    pub agent_hash: u64,
    pub run_hash: u64,
}

/// The arguments of the `run` command.
#[derive(Debug)]
pub struct RunArgs {
    pub prompt_file: Option<String>,
    pub once: bool,
    pub no_sandbox: bool,
    pub limit: Option<u32>,
    pub allow: Vec<String>,
    pub model_strategy: Option<String>,
    pub model: Option<String>,
    pub max_retries_override: Option<u32>,
    pub skip_verify: bool,
}

/// The configuration of a run.
#[derive(Debug)]
pub struct Config {
    pub prompt_file: String,
    pub limit: u32,
    pub iteration: u32,
    pub total: u32,
    pub use_sandbox: bool,
    pub allowed_tools: Vec<String>,
    pub allow_rules: Vec<String>,
    /// The active model strategy for this run.
    pub model_strategy: ModelStrategy,
    /// The model name for `Fixed` strategy (only required when strategy is Fixed).
    pub model: Option<String>,
    /// The model selected for the current iteration, updated each loop.
    pub current_model: String,
    /// Escalation level for the `Escalate` strategy (0=haiku, 1=sonnet, 2=opus).
    /// Tracks the minimum model tier; the strategy never auto-de-escalates below this.
    pub escalation_level: u8,
    /// Project root directory (directory containing .ralph.toml).
    pub project_root: String,
    /// Parsed project configuration.
    pub ralph_config: RalphConfig,
    /// What the agent is called.
    pub agent: AgentNames,
    /// Unique agent ID for this run (format: agent-{8 hex chars}).
    pub agent_id: String,
    /// Maximum retries for failed tasks.
    pub max_retries: u32,
    /// Whether to enable autonomous verification.
    pub verify: bool,
    /// Unique run ID for this invocation (format: run-{8 hex chars}).
    pub run_id: String,
    /// The target for this run (feature or standalone task).
    pub run_target: Option<RunTarget>,
}

/// What a configuration holds.
pub struct ConfigView {
    pub prompt_file: Seq<char>,
    pub limit: u32,
    pub iteration: u32,
    pub total: u32,
    pub use_sandbox: bool,
    pub allowed_tools: Seq<Seq<char>>,
    pub allow_rules: Seq<Seq<char>>,
    pub model_strategy: ModelStrategy,
    pub model: Option<Seq<char>>,
    pub current_model: Seq<char>,
    pub escalation_level: u8,
    pub project_root: Seq<char>,
    pub ralph_config: RalphConfig,
    pub agent: AgentNamesView,
    pub agent_id: Seq<char>,
    pub max_retries: u32,
    pub verify: bool,
    pub run_id: Seq<char>,
    pub run_target: Option<RunTargetView>,
}

impl View for Config {
    type V = ConfigView;

    open spec fn view(&self) -> ConfigView {
        ConfigView {
            prompt_file: self.prompt_file@,
            limit: self.limit,
            iteration: self.iteration,
            total: self.total,
            use_sandbox: self.use_sandbox,
            allowed_tools: texts(self.allowed_tools@),
            allow_rules: texts(self.allow_rules@),
            model_strategy: self.model_strategy,
            model: opt_text(self.model),
            current_model: self.current_model@,
            escalation_level: self.escalation_level,
            project_root: self.project_root@,
            ralph_config: self.ralph_config,
            agent: self.agent@,
            agent_id: self.agent_id@,
            max_retries: self.max_retries,
            verify: self.verify,
            run_id: self.run_id@,
            run_target: target_view(self.run_target),
        }
    }
}

/// What an optional run target names.
pub open spec fn target_view(o: Option<RunTarget>) -> Option<RunTargetView> {
    match o {
        Some(t) => Some(t@),
        None => None,
    }
}

impl Clone for Config {
    fn clone(&self) -> (r: Self)
        ensures
            r@ == self@,
    {
        Config {
            prompt_file: self.prompt_file.clone(),
            limit: self.limit,
            iteration: self.iteration,
            total: self.total,
            use_sandbox: self.use_sandbox,
            allowed_tools: clone_texts(&self.allowed_tools),
            allow_rules: clone_texts(&self.allow_rules),
            model_strategy: self.model_strategy,
            model: clone_opt(&self.model),
            current_model: self.current_model.clone(),
            escalation_level: self.escalation_level,
            project_root: self.project_root.clone(),
            ralph_config: self.ralph_config,
            agent: self.agent.clone(),
            agent_id: self.agent_id.clone(),
            max_retries: self.max_retries,
            verify: self.verify,
            run_id: self.run_id.clone(),
            run_target: match &self.run_target {
                Some(t) => Some(t.clone()),
                None => None,
            },
        }
    }
}

/// The tools that are allowed by default when not using the sandbox.
pub open spec fn default_tools() -> Seq<Seq<char>> {
    seq![
        "Bash"@,
        "Edit"@,
        "Write"@,
        "Read"@,
        "Glob"@,
        "Grep"@,
        "Task"@,
        "TodoWrite"@,
        "NotebookEdit"@,
        "WebFetch"@,
        "WebSearch"@,
        "mcp__*"@,
    ]
}

/// The number that an environment variable gives, or another where it is not
/// set or no number.
pub open spec fn env_number(v: Option<Seq<char>>, other: u32) -> u32 {
    match v {
        Some(t) => match parsed_u32(t) {
            Some(n) => n as u32,
            None => other,
        },
        None => other,
    }
}

/// The model that the first iteration uses.
pub open spec fn first_model(strategy: Seq<char>, model: Option<Seq<char>>) -> Seq<char> {
    match strategy_of(strategy) {
        Some(ModelStrategy::Fixed) => model->0,
        Some(ModelStrategy::CostOptimized) => "sonnet"@,
        Some(ModelStrategy::Escalate) => "haiku"@,
        _ => "opus"@,
    }
}

/// The configuration of a run, or why its arguments are refused.
pub open spec fn run_config(
    args: RunArgs,
    project: ProjectConfig,
    target: Option<RunTarget>,
    env: RunEnv,
) -> Result<ConfigView, Seq<char>> {
    if args.once && args.limit is Some && args.limit->0 > 0 {
        Err("--once and --limit are mutually exclusive"@)
    } else {
        match resolved(opt_text(args.model), opt_text(args.model_strategy)) {
            Err(e) => Err(e),
            Ok(v) => {
                let limit = if args.once {
                    1u32
                } else {
                    match args.limit {
                        Some(n) => n,
                        None => 0u32,
                    }
                };
                Ok(
                    ConfigView {
                        prompt_file: match args.prompt_file {
                            Some(p) => p@,
                            None => "prompt"@,
                        },
                        limit,
                        iteration: env_number(opt_text(env.iteration), 1),
                        total: env_number(opt_text(env.total), limit),
                        use_sandbox: !args.no_sandbox,
                        allowed_tools: default_tools(),
                        allow_rules: texts(args.allow@),
                        model_strategy: strategy_of(v.0)->0,
                        model: v.1,
                        current_model: first_model(v.0, v.1),
                        escalation_level: 0,
                        project_root: project.root@,
                        ralph_config: project.config,
                        agent: env.agent@,
                        agent_id: "agent-"@ + hex(env.agent_hash as nat, 8),
                        max_retries: match args.max_retries_override {
                            Some(n) => n,
                            None => project.config.execution.max_retries,
                        },
                        verify: !args.skip_verify && project.config.execution.verify,
                        run_id: "run-"@ + hex(env.run_hash as nat, 8),
                        run_target: target_view(target),
                    },
                )
            },
        }
    }
}

/// What the arguments, the project and the environment make of a run: `--once`
/// is a limit of one iteration and excludes another limit; without either there
/// is none; the environment can set the iteration and the total; retries come
/// from the arguments before the project; verification needs both to agree.
pub proof fn law_run_settings(
    args: RunArgs,
    project: ProjectConfig,
    target: Option<RunTarget>,
    env: RunEnv,
)
    ensures
        args.once && args.limit is Some && args.limit->0 >= 1 ==> run_config(
            args,
            project,
            target,
            env,
        ) is Err,
        run_config(args, project, target, env) is Err ==> args.once && args.limit is Some
            && args.limit->0 >= 1 || resolved(opt_text(args.model), opt_text(args.model_strategy))
            is Err,
        run_config(args, project, target, env) matches Ok(c) ==> {
            &&& args.once ==> c.limit == 1
            &&& !args.once && args.limit is Some ==> c.limit == args.limit->0
            &&& !args.once && args.limit is None ==> c.limit == 0
            &&& env.iteration is None ==> c.iteration == 1
            &&& env.total is None ==> c.total == c.limit
            &&& args.max_retries_override is Some ==> c.max_retries == args.max_retries_override->0
            &&& args.max_retries_override is None ==> c.max_retries
                == project.config.execution.max_retries
            &&& c.verify <==> !args.skip_verify && project.config.execution.verify
            &&& c.use_sandbox <==> !args.no_sandbox
            &&& args.prompt_file is Some ==> c.prompt_file == args.prompt_file->0@
            &&& args.prompt_file is None ==> c.prompt_file == "prompt"@
            &&& c.allow_rules == texts(args.allow@)
            &&& c.allowed_tools == default_tools()
            &&& c.escalation_level == 0
            &&& c.project_root == project.root@
            &&& c.run_target == target_view(target)
        },
{
}

/// A number that the environment gives as digits is taken; anything else is as
/// if nothing were given.
pub proof fn law_environment_numbers(n: u32, text: Seq<char>, other: u32)
    ensures
        env_number(Some(crate::text::number::decimal(n as nat)), other) == n,
        env_number(None, other) == other,
        parsed_u32(text) is None ==> env_number(Some(text), other) == other,
{
    crate::text::number::law_u32_round_trip(n);
}

/// What the model arguments make of a run: a model alone fixes it; a strategy
/// alone is followed, unless it is the fixed one, which needs a model; with
/// neither the run optimizes its cost. A name that is no model or no strategy is
/// refused. The first iteration uses the model that the strategy begins with.
pub proof fn law_model_arguments(
    args: RunArgs,
    project: ProjectConfig,
    target: Option<RunTarget>,
    env: RunEnv,
)
    requires
        args.limit is None,
    ensures
        ({
            let r = run_config(args, project, target, env);
            let model = opt_text(args.model);
            let strategy = opt_text(args.model_strategy);
            let known = |m: Seq<char>| m == "opus"@ || m == "sonnet"@ || m == "haiku"@;
            let named = |s: Seq<char>|
                s == "fixed"@ || s == "cost-optimized"@ || s == "escalate"@ || s
                    == "plan-then-execute"@;
            &&& r is Ok <==> (model is Some ==> known(model->0)) && (strategy is Some ==> named(
                strategy->0,
            )) && (strategy == Some("fixed"@) ==> model is Some)
            &&& r matches Ok(c) ==> {
                &&& c.model == model
                &&& model is None && strategy is None ==> c.model_strategy
                    == ModelStrategy::CostOptimized
                &&& model is Some && strategy is None ==> c.model_strategy == ModelStrategy::Fixed
                &&& strategy == Some("fixed"@) ==> c.model_strategy == ModelStrategy::Fixed
                &&& strategy == Some("cost-optimized"@) ==> c.model_strategy
                    == ModelStrategy::CostOptimized
                &&& strategy == Some("escalate"@) ==> c.model_strategy == ModelStrategy::Escalate
                &&& strategy == Some("plan-then-execute"@) ==> c.model_strategy
                    == ModelStrategy::PlanThenExecute
                &&& c.model_strategy == ModelStrategy::Fixed ==> Some(c.current_model) == model
                &&& c.model_strategy == ModelStrategy::CostOptimized ==> c.current_model
                    == "sonnet"@
                &&& c.model_strategy == ModelStrategy::Escalate ==> c.current_model == "haiku"@
                &&& c.model_strategy == ModelStrategy::PlanThenExecute ==> c.current_model
                    == "opus"@
            }
        }),
{
    lemma_strategy_names();
}

/// The number that an environment variable gives.
fn number_from_env(v: &Option<String>, other: u32) -> (r: u32)
    ensures
        r == env_number(opt_text(*v), other),
{
    match v {
        Some(t) => match parse_u32(t.as_str()) {
            Some(n) => n,
            None => other,
        },
        None => other,
    }
}

/// The tools that are allowed by default.
fn default_tool_list() -> (r: Vec<String>)
    ensures
        texts(r@) == default_tools(),
{
    let mut r: Vec<String> = Vec::new();
    r.push("Bash".to_owned());
    r.push("Edit".to_owned());
    r.push("Write".to_owned());
    r.push("Read".to_owned());
    r.push("Glob".to_owned());
    r.push("Grep".to_owned());
    r.push("Task".to_owned());
    r.push("TodoWrite".to_owned());
    r.push("NotebookEdit".to_owned());
    r.push("WebFetch".to_owned());
    r.push("WebSearch".to_owned());
    r.push("mcp__*".to_owned());
    assert(texts(r@) =~= default_tools());
    r
}

impl Config {
    /// Builds the config from run command args and project config.
    pub fn from_run_args(
        args: RunArgs,
        project: ProjectConfig,
        run_target: Option<RunTarget>,
        env: RunEnv,
    ) -> (r: Result<Self, String>)
        ensures
            match run_config(args, project, run_target, env) {
                Ok(c) => r is Ok && r->Ok_0@ == c,
                Err(e) => r is Err && r->Err_0@ == e,
            },
            r is Ok ==> r->Ok_0@.model_strategy == ModelStrategy::Fixed ==> r->Ok_0@.model is Some,
    {
        if args.once {
            match args.limit {
                Some(n) => {
                    if n > 0 {
                        return Err("--once and --limit are mutually exclusive".to_owned());
                    }
                },
                None => {},
            }
        }
        let (strategy_text, model) = match resolve_model_strategy(
            &args.model,
            &args.model_strategy,
        ) {
            Err(e) => {
                return Err(e);
            },
            Ok(v) => v,
        };
        proof {
            lemma_strategy_names();
            assert(valid_strategy(strategy_text@));
        }
        let strategy = match ModelStrategy::from_str(strategy_text.as_str()) {
            Err(e) => {
                return Err(e);
            },
            Ok(m) => m,
        };
        let current_model = match strategy {
            ModelStrategy::Fixed => match &model {
                Some(m) => m.clone(),
                None => String::new(),
            },
            ModelStrategy::CostOptimized => "sonnet".to_owned(),
            ModelStrategy::Escalate => "haiku".to_owned(),
            ModelStrategy::PlanThenExecute => "opus".to_owned(),
        };
        let limit: u32 = if args.once {
            1
        } else {
            match args.limit {
                Some(n) => n,
                None => 0,
            }
        };
        let max_retries: u32 = match args.max_retries_override {
            Some(n) => n,
            None => project.config.execution.max_retries,
        };
        let config = Config {
            prompt_file: match args.prompt_file {
                Some(p) => p,
                None => "prompt".to_owned(),
            },
            limit,
            iteration: number_from_env(&env.iteration, 1),
            total: number_from_env(&env.total, limit),
            use_sandbox: !args.no_sandbox,
            allowed_tools: default_tool_list(),
            allow_rules: args.allow,
            model_strategy: strategy,
            model,
            current_model,
            escalation_level: 0,
            project_root: project.root,
            ralph_config: project.config,
            agent: env.agent,
            agent_id: generate_agent_id(env.agent_hash),
            max_retries,
            verify: !args.skip_verify && project.config.execution.verify,
            run_id: generate_run_id(env.run_hash),
            run_target,
        };
        Ok(config)
    }

    /// The config for the next iteration.
    pub fn next_iteration(&self) -> (r: Self)
        requires
            self.iteration < u32::MAX,
        ensures
            r@ == (ConfigView { iteration: (self.iteration + 1) as u32, ..self@ }),
    {
        let mut r = self.clone();
        r.iteration = self.iteration + 1;
        r
    }

    /// Whether the iteration limit has been reached: the current iteration is
    /// the last that the limit admits. A limit of 0 admits any number.
    pub fn limit_reached(&self) -> (r: bool)
        ensures
            r == (self.limit > 0 && self.iteration >= self.limit),
    {
        self.limit > 0 && self.iteration >= self.limit
    }
}

/// A tool is allowed by default exactly where it is one of these.
pub proof fn law_default_tools(tool: Seq<char>)
    ensures
        default_tools().contains(tool) <==> tool == "Bash"@ || tool == "Edit"@ || tool == "Write"@
            || tool == "Read"@ || tool == "Glob"@ || tool == "Grep"@ || tool == "Task"@ || tool
            == "TodoWrite"@ || tool == "NotebookEdit"@ || tool == "WebFetch"@ || tool
            == "WebSearch"@ || tool == "mcp__*"@,
{
    let t = default_tools();
    assert(t[0] == "Bash"@ && t[1] == "Edit"@ && t[2] == "Write"@ && t[3] == "Read"@);
    assert(t[4] == "Glob"@ && t[5] == "Grep"@ && t[6] == "Task"@ && t[7] == "TodoWrite"@);
    assert(t[8] == "NotebookEdit"@ && t[9] == "WebFetch"@ && t[10] == "WebSearch"@);
    assert(t[11] == "mcp__*"@);
}

} // verus!
