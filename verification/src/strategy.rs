//! Model strategy selection logic.
//!
//! Determines which model to use for each iteration based on the configured
//! strategy.

use vstd::prelude::*;

use crate::config::{Config, ConfigView, ModelStrategy};
use crate::text::basic::{opt_str, opt_text, same};
use crate::text::case::{lower, lowercase};
use crate::text::number::{decimal, decimal_text};
use crate::text::search::{
    contains, count_from, count_text, has, law_count_is_largest, lemma_contains_is_find, occurs_at,
};
use crate::text::shape::{trim, trimmed};

verus! {

/// Result of model selection, including override information for logging.
#[derive(Debug)]
pub struct ModelSelection {
    /// The model that will actually be used.
    pub model: String,
    /// The model the strategy would have chosen (before hint override).
    pub strategy_choice: String,
    /// The hint from the agent, if any.
    pub hint: Option<String>,
    /// True when the hint overrode the strategy's choice (hint != strategy_choice).
    pub was_overridden: bool,
}

/// The text speaks of an error, a failure or being stuck.
pub open spec fn shows_trouble(lower: Seq<char>) -> bool {
    contains(lower, "error"@) || contains(lower, "failure"@) || contains(lower, "failed"@)
        || contains(lower, "bug"@) || shows_distress(lower)
}

/// The text speaks of being stuck.
pub open spec fn shows_distress(lower: Seq<char>) -> bool {
    contains(lower, "stuck"@) || contains(lower, "cannot"@) || contains(lower, "unable"@)
        || contains(lower, "panic"@) || contains(lower, "crash"@) || contains(lower, "broken"@)
        || contains(lower, "regression"@)
}

/// How many completions the text reports.
pub open spec fn completions(lower: Seq<char>) -> nat {
    count_from(lower, "done"@, 0) + count_from(lower, "completed"@, 0) + count_from(
        lower,
        "✓"@,
        0,
    )
}

/// The cheapest model that is adequate for this progress: `opus` where it shows
/// trouble, else `haiku` where it reports three completions, else `sonnet`.
pub open spec fn cheapest(lower: Seq<char>, content: Seq<char>) -> Seq<char> {
    if shows_trouble(lower) {
        "opus"@
    } else if completions(lower) >= 3 && trim(content).len() > 0 {
        "haiku"@
    } else {
        "sonnet"@
    }
}

/// The escalation level that the progress warrants: 2 where it speaks of being
/// stuck, 1 where it speaks of errors or failures, else 0.
pub open spec fn needed_level(lower: Seq<char>) -> u8 {
    if shows_distress(lower) {
        2
    } else if shows_trouble(lower) {
        1
    } else {
        0
    }
}

/// The level of a model.
pub open spec fn level_of(model: Seq<char>) -> u8 {
    if model == "haiku"@ {
        0
    } else if model == "sonnet"@ {
        1
    } else if model == "opus"@ {
        2
    } else {
        1
    }
}

/// The model of a level.
pub open spec fn model_of(level: u8) -> Seq<char> {
    if level == 0 {
        "haiku"@
    } else if level == 1 {
        "sonnet"@
    } else {
        "opus"@
    }
}

/// The level after an escalation: never lower than it was.
pub open spec fn escalated(level: u8, lower: Seq<char>) -> u8 {
    if needed_level(lower) > level {
        needed_level(lower)
    } else {
        level
    }
}

/// What the strategy chooses, given the progress and its lower case.
pub open spec fn choice(c: ConfigView, content: Seq<char>, lower: Seq<char>) -> Seq<char> {
    match c.model_strategy {
        ModelStrategy::Fixed => c.model->0,
        ModelStrategy::CostOptimized => cheapest(lower, content),
        ModelStrategy::Escalate => model_of(escalated(c.escalation_level, lower)),
        ModelStrategy::PlanThenExecute => if c.iteration <= 1 {
            "opus"@
        } else {
            "sonnet"@
        },
    }
}

/// The escalation level after a selection: a hint sets it, and otherwise it
/// only rises. Only the escalate strategy changes it.
pub open spec fn level_after(c: ConfigView, hint: Option<Seq<char>>, lower: Seq<char>) -> u8 {
    if c.model_strategy == ModelStrategy::Escalate {
        match hint {
            Some(h) => level_of(h),
            None => escalated(c.escalation_level, lower),
        }
    } else {
        c.escalation_level
    }
}

proof fn lemma_model_names()
    ensures
        "haiku"@ != "sonnet"@,
        "haiku"@ != "opus"@,
        "sonnet"@ != "opus"@,
{
    reveal_strlit("haiku");
    reveal_strlit("sonnet");
    reveal_strlit("opus");
    assert("haiku"@[0] != "sonnet"@[0]);
    assert("haiku"@[0] != "opus"@[0]);
    assert("sonnet"@[0] != "opus"@[0]);
}

/// The levels and the models correspond.
pub proof fn law_levels_round_trip(level: u8)
    requires
        level <= 2,
    ensures
        level_of(model_of(level)) == level,
{
    lemma_model_names();
}

/// Without a hint the escalation level never falls.
pub proof fn law_escalation_is_monotonic(c: ConfigView, lower: Seq<char>)
    ensures
        level_after(c, None, lower) >= c.escalation_level,
        c.model_strategy == ModelStrategy::Escalate ==> level_after(c, None, lower)
            >= needed_level(lower),
{
}

/// Progress that names any of these words, in whatever letter case, makes the
/// cost-optimized strategy choose `opus`, and nothing else does.
pub proof fn law_trouble_calls_for_opus(c: ConfigView, content: Seq<char>, lower: Seq<char>)
    requires
        c.model_strategy == ModelStrategy::CostOptimized,
    ensures
        choice(c, content, lower) == "opus"@ <==> (contains(lower, "error"@) || contains(
            lower,
            "failure"@,
        ) || contains(lower, "failed"@) || contains(lower, "stuck"@) || contains(lower, "cannot"@)
            || contains(lower, "unable"@) || contains(lower, "panic"@) || contains(lower, "crash"@)
            || contains(lower, "bug"@) || contains(lower, "broken"@) || contains(
            lower,
            "regression"@,
        )),
        cheapest(lower, content) == choice(c, content, lower),
{
    lemma_model_names();
}

/// Without any of those words the cost-optimized strategy chooses `haiku` where
/// the progress is not blank and reports at least three completions, and else
/// `sonnet`. Three places that each say "done" are three completions.
pub proof fn law_steady_progress_calls_for_haiku(
    c: ConfigView,
    content: Seq<char>,
    lower: Seq<char>,
)
    requires
        c.model_strategy == ModelStrategy::CostOptimized,
        choice(c, content, lower) != "opus"@,
    ensures
        choice(c, content, lower) == "haiku"@ <==> (trim(content).len() > 0 && count_from(
            lower,
            "done"@,
            0,
        ) + count_from(lower, "completed"@, 0) + count_from(lower, "✓"@, 0) >= 3),
        choice(c, content, lower) == "haiku"@ || choice(c, content, lower) == "sonnet"@,
        forall|i: int, j: int, k: int|
            #![trigger occurs_at(lower, "done"@, i), occurs_at(lower, "done"@, j), occurs_at(lower, "done"@, k)]
            trim(content).len() > 0 && occurs_at(lower, "done"@, i) && occurs_at(
                lower,
                "done"@,
                j,
            ) && occurs_at(lower, "done"@, k) && i + 4 <= j && j + 4 <= k ==> choice(
                c,
                content,
                lower,
            ) == "haiku"@,
        !contains(lower, "done"@) && !contains(lower, "completed"@) && !contains(lower, "✓"@)
            ==> choice(c, content, lower) == "sonnet"@,
{
    lemma_model_names();
    reveal_strlit("done");
    assert forall|i: int, j: int, k: int|
        #![trigger occurs_at(lower, "done"@, i), occurs_at(lower, "done"@, j), occurs_at(lower, "done"@, k)]
        trim(content).len() > 0 && occurs_at(lower, "done"@, i) && occurs_at(lower, "done"@, j)
            && occurs_at(lower, "done"@, k) && i + 4 <= j && j + 4 <= k implies choice(
        c,
        content,
        lower,
    ) == "haiku"@ by {
        law_count_is_largest(lower, "done"@, seq![i, j, k]);
    }
    lemma_contains_is_find(lower, "done"@);
    lemma_contains_is_find(lower, "completed"@);
    lemma_contains_is_find(lower, "✓"@);
}

/// Progress that names a word of being stuck makes the escalate strategy choose
/// `opus` and stay there; one that only names an error or a failure lifts it to
/// `sonnet` at least; any other progress leaves it where it is.
pub proof fn law_distress_escalates(c: ConfigView, content: Seq<char>, lower: Seq<char>)
    requires
        c.model_strategy == ModelStrategy::Escalate,
        c.escalation_level <= 2,
    ensures
        ({
            let distress = contains(lower, "stuck"@) || contains(lower, "cannot"@) || contains(
                lower,
                "unable"@,
            ) || contains(lower, "panic"@) || contains(lower, "crash"@) || contains(
                lower,
                "broken"@,
            ) || contains(lower, "regression"@);
            let trouble = contains(lower, "error"@) || contains(lower, "failure"@) || contains(
                lower,
                "failed"@,
            ) || contains(lower, "bug"@);
            let after = level_after(c, None, lower);
            &&& distress ==> choice(c, content, lower) == "opus"@ && after == 2
            &&& !distress && trouble ==> after == if c.escalation_level == 2 {
                2int
            } else {
                1int
            }
            &&& !distress && trouble && c.escalation_level <= 1 ==> choice(c, content, lower)
                == "sonnet"@
            &&& !distress && !trouble ==> after == c.escalation_level
            &&& choice(c, content, lower) == "haiku"@ <==> after == 0
            &&& choice(c, content, lower) == "sonnet"@ <==> after == 1
            &&& choice(c, content, lower) == "opus"@ <==> after == 2
        }),
{
    lemma_model_names();
}

/// A hint sets the escalation level to that of the model it names, whatever the
/// progress says; a name that is no model counts as `sonnet`. Other strategies
/// keep the level.
pub proof fn law_hint_sets_level(c: ConfigView, hint: Seq<char>, lower: Seq<char>)
    ensures
        c.model_strategy == ModelStrategy::Escalate ==> {
            &&& level_after(c, Some(hint), lower) == 0 <==> hint == "haiku"@
            &&& level_after(c, Some(hint), lower) == 2 <==> hint == "opus"@
            &&& level_after(c, Some(hint), lower) <= 2
        },
        c.model_strategy != ModelStrategy::Escalate ==> level_after(c, Some(hint), lower)
            == c.escalation_level && level_after(c, None, lower) == c.escalation_level,
{
    lemma_model_names();
}

/// The plan-then-execute strategy chooses `opus` for the first iteration and
/// `sonnet` for every later one; the fixed strategy chooses the configured
/// model. Neither looks at the progress.
pub proof fn law_progress_blind_choices(c: ConfigView, content: Seq<char>, lower: Seq<char>)
    ensures
        c.model_strategy == ModelStrategy::PlanThenExecute ==> {
            &&& choice(c, content, lower) == "opus"@ <==> c.iteration < 2
            &&& choice(c, content, lower) == "sonnet"@ <==> c.iteration >= 2
        },
        c.model_strategy == ModelStrategy::Fixed && c.model is Some ==> Some(
            choice(c, content, lower),
        ) == c.model,
{
    lemma_model_names();
}

/// Analyzes progress file content, given with its lower case, to select the
/// cheapest adequate model.
pub fn analyze_lowered(lower: &str, content: &str) -> (r: String)
    ensures
        r@ == cheapest(lower@, content@),
{
    if has_trouble(lower) {
        return "opus".to_owned();
    }
    proof {
        reveal_strlit("done");
        reveal_strlit("completed");
        reveal_strlit("✓");
    }
    let done: u128 = count_text(lower, "done") as u128 + count_text(lower, "completed") as u128
        + count_text(lower, "✓") as u128;
    if done >= 3 && !trimmed(content).as_str().is_empty() {
        return "haiku".to_owned();
    }
    "sonnet".to_owned()
}

/// Whether the text speaks of being stuck.
fn has_distress(lower: &str) -> (r: bool)
    ensures
        r == shows_distress(lower@),
{
    has(lower, "stuck") || has(lower, "cannot") || has(lower, "unable") || has(lower, "panic")
        || has(lower, "crash") || has(lower, "broken") || has(lower, "regression")
}

/// Whether the text speaks of an error, a failure or being stuck.
fn has_trouble(lower: &str) -> (r: bool)
    ensures
        r == shows_trouble(lower@),
{
    has(lower, "error") || has(lower, "failure") || has(lower, "failed") || has(lower, "bug")
        || has_distress(lower)
}

/// Analyzes progress file content to select the cheapest adequate model.
///
/// Rules (in priority order):
/// 1. If progress mentions errors, failures, or being stuck: `opus`
/// 2. If progress shows steady completion of simple tasks (multiple DONE
///    entries with no error signals): `haiku`
/// 3. Otherwise (empty, ambiguous, early iterations): `sonnet`
pub fn analyze_progress(content: &str, _iteration: u32) -> (r: String)
    ensures
        r@ == cheapest(lowercase(content@), content@),
{
    analyze_lowered(lower(content).as_str(), content)
}

/// Maps a model name to an escalation level: haiku=0, sonnet=1, opus=2. Any
/// other name is at sonnet's level.
pub fn model_to_level(model: &str) -> (r: u8)
    ensures
        r == level_of(model@),
{
    if same(model, "haiku") {
        0
    } else if same(model, "sonnet") {
        1
    } else if same(model, "opus") {
        2
    } else {
        1
    }
}

/// Maps an escalation level to a model name.
pub fn level_to_model(level: u8) -> (r: String)
    ensures
        r@ == model_of(level),
{
    if level == 0 {
        "haiku".to_owned()
    } else if level == 1 {
        "sonnet".to_owned()
    } else {
        "opus".to_owned()
    }
}

/// Assesses what escalation level the lower case of the progress warrants.
pub fn level_needed(lower: &str) -> (r: u8)
    ensures
        r == needed_level(lower@),
{
    if has_distress(lower) {
        2
    } else if has_trouble(lower) {
        1
    } else {
        0
    }
}

/// Assesses what escalation level the progress file content warrants.
///
/// Returns 0 (haiku) when everything looks fine, 1 (sonnet) for moderate
/// complexity signals, 2 (opus) for clear failure/stuck signals.
pub fn assess_escalation_need(content: &str) -> (r: u8)
    ensures
        r == needed_level(lowercase(content@)),
{
    level_needed(lower(content).as_str())
}

/// Plan-then-execute strategy: use opus for iteration 1 (planning), sonnet for
/// iterations 2+ (execution).
pub fn select_plan_then_execute(config: &Config) -> (r: String)
    ensures
        r@ == (if config.iteration <= 1 {
            "opus"@
        } else {
            "sonnet"@
        }),
{
    if config.iteration <= 1 {
        "opus".to_owned()
    } else {
        "sonnet".to_owned()
    }
}

/// Selects the model for the current iteration, given the progress and its
/// lower case.
pub fn select_model_from(
    config: &mut Config,
    next_model_hint: Option<&str>,
    progress: &str,
    lowered: &str,
) -> (r: ModelSelection)
    requires
        old(config)@.model_strategy == ModelStrategy::Fixed ==> old(config)@.model is Some,
    ensures
        r.strategy_choice@ == choice(old(config)@, progress@, lowered@),
        opt_text(r.hint) == opt_str(next_model_hint),
        r.model@ == (match next_model_hint {
            Some(h) => h@,
            None => r.strategy_choice@,
        }),
        r.was_overridden == (next_model_hint is Some && next_model_hint->0@
            != r.strategy_choice@),
        final(config)@ == (ConfigView {
            escalation_level: level_after(old(config)@, opt_str(next_model_hint), lowered@),
            ..old(config)@
        }),
{
    let strategy_choice = match config.model_strategy {
        ModelStrategy::Fixed => match &config.model {
            Some(m) => m.clone(),
            None => String::new(),
        },
        ModelStrategy::CostOptimized => analyze_lowered(lowered, progress),
        ModelStrategy::Escalate => {
            let needed: u8 = level_needed(lowered);
            if needed > config.escalation_level {
                config.escalation_level = needed;
            }
            level_to_model(config.escalation_level)
        },
        ModelStrategy::PlanThenExecute => select_plan_then_execute(config),
    };
    match next_model_hint {
        Some(hint) => {
            if config.model_strategy == ModelStrategy::Escalate {
                config.escalation_level = model_to_level(hint);
            }
            let was_overridden = !same(hint, strategy_choice.as_str());
            ModelSelection {
                model: hint.to_owned(),
                strategy_choice,
                hint: Some(hint.to_owned()),
                was_overridden,
            }
        },
        None => ModelSelection {
            model: strategy_choice.clone(),
            strategy_choice,
            hint: None,
            was_overridden: false,
        },
    }
}

/// Selects the model for the current iteration based on the active strategy
/// and the content of the progress file.
///
/// The `next_model_hint` parameter allows the agent to override the strategy's
/// choice via the `<next-model>` sigil.
///
/// For the `Escalate` strategy, this changes `config.escalation_level` to track
/// upward movement through the model tiers; a hint can also de-escalate it.
pub fn select_model(config: &mut Config, next_model_hint: Option<&str>, progress: &str) -> (r:
    ModelSelection)
    requires
        old(config)@.model_strategy == ModelStrategy::Fixed ==> old(config)@.model is Some,
    ensures
        r.strategy_choice@ == choice(old(config)@, progress@, lowercase(progress@)),
        opt_text(r.hint) == opt_str(next_model_hint),
        r.model@ == (match next_model_hint {
            Some(h) => h@,
            None => r.strategy_choice@,
        }),
        r.was_overridden == (next_model_hint is Some && next_model_hint->0@
            != r.strategy_choice@),
        final(config)@ == (ConfigView {
            escalation_level: level_after(
                old(config)@,
                opt_str(next_model_hint),
                lowercase(progress@),
            ),
            ..old(config)@
        }),
{
    let lowered = lower(progress);
    select_model_from(config, next_model_hint, progress, lowered.as_str())
}

/// The line that records a model override in the progress file.
pub fn override_line(iteration: u32, selection: &ModelSelection) -> (r: String)
    ensures
        r@ == "[model-override] iteration="@ + decimal(iteration as nat) + " strategy_choice="@
            + selection.strategy_choice@ + " hint="@ + (match selection.hint {
            Some(h) => h@,
            None => "none"@,
        }) + "\n"@,
{
    let mut r = "[model-override] iteration=".to_owned();
    r.append(decimal_text(iteration as u64).as_str());
    r.append(" strategy_choice=");
    r.append(selection.strategy_choice.as_str());
    r.append(" hint=");
    match &selection.hint {
        Some(h) => {
            r.append(h.as_str());
        },
        None => {
            r.append("none");
        },
    }
    r.append("\n");
    r
}

} // verus!
