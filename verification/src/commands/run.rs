//! The commands that run the loop, and what they end with.

use vstd::prelude::*;

use crate::acp::sigils::FAILURE_SIGIL;
use crate::acp::types::StopReason;
use crate::config::{RunTarget, RunTargetView};
use crate::dag::messages::error_text;
use crate::dag::model::{has_task, DagError, DagErrorView, Db, DbView};
use crate::feature::{has_name, name_pos};
use crate::output::effect::{
    effect_views, info_shown, push_effects, unless_ui, Effect, EffectView, UiEventView,
};
use crate::output::formatter::{
    print_complete, print_error, print_failure, print_info, print_limit_reached, print_warning,
};
use crate::output::style::{hued, plain, Hue};
use crate::run_loop::settle::{counted_sigils, ended_by, reaction};
use crate::run_loop::start::Outcome;
use crate::text::basic::{opt_text, same};
use crate::text::number::{decimal_int, decimal_int_text};
use crate::text::search::{begins, contains, starts_with};

verus! {

/// Why a target cannot be run.
#[derive(Debug)]
pub enum RunRefusal {
    /// There is no such task, or no such feature.
    Unknown(DagError),
    /// The feature of this name has a status in which it cannot be run.
    NotReady(String, String),
}

/// Why a target cannot be run, with texts by value.
pub enum RunRefusalView {
    Unknown(DagErrorView),
    NotReady(Seq<char>, Seq<char>),
}

impl View for RunRefusal {
    type V = RunRefusalView;

    open spec fn view(&self) -> RunRefusalView {
        match self {
            RunRefusal::Unknown(e) => RunRefusalView::Unknown(e@),
            RunRefusal::NotReady(n, s) => RunRefusalView::NotReady(n@, s@),
        }
    }
}

/// What is said of a refusal.
pub open spec fn refusal_text(v: RunRefusalView) -> Seq<char> {
    match v {
        RunRefusalView::Unknown(e) => error_text(e),
        RunRefusalView::NotReady(n, s) => "Feature '"@ + n + "' is not ready to run (status: "@ + s
            + "). Run 'ralph feature create "@ + n + "' first."@,
    }
}

impl RunRefusal {
    /// What is said of the refusal.
    pub fn message(&self) -> (r: String)
        ensures
            r@ == refusal_text(self@),
    {
        match self {
            RunRefusal::Unknown(e) => e.message(),
            RunRefusal::NotReady(n, s) => {
                let mut r = "Feature '".to_owned();
                r.append(n.as_str());
                r.append("' is not ready to run (status: ");
                r.append(s.as_str());
                r.append("). Run 'ralph feature create ");
                r.append(n.as_str());
                r.append("' first.");
                r
            },
        }
    }
}

/// What a target stands for: a task, where it begins as task ids do, and else
/// a feature, which must be ready or running.
pub open spec fn run_target(db: DbView, target: Seq<char>) -> Result<
    RunTargetView,
    RunRefusalView,
> {
    if starts_with(target, "t-"@) {
        if has_task(db.tasks, target) {
            Ok(RunTargetView::Task(target))
        } else {
            Err(RunRefusalView::Unknown(DagErrorView::TaskLookup(target)))
        }
    } else if !has_name(db.features, target) {
        Err(RunRefusalView::Unknown(DagErrorView::NoFeature(target)))
    } else {
        let status = db.features[name_pos(db.features, target)].feature.status;
        if status == "ready"@ || status == "running"@ {
            Ok(RunTargetView::Feature(target))
        } else {
            Err(RunRefusalView::NotReady(target, status))
        }
    }
}

impl Db {
    /// What a target stands for.
    pub fn resolve_target(&self, target: &str) -> (r: Result<RunTarget, RunRefusal>)
        requires
            self@.wf(),
        ensures
            match run_target(self@, target@) {
                Ok(t) => r is Ok && r->Ok_0@ == t,
                Err(e) => r is Err && r->Err_0@ == e,
            },
    {
        if begins(target, "t-") {
            match self.get_task(target) {
                Ok(_) => Ok(RunTarget::Task(target.to_owned())),
                Err(e) => Err(RunRefusal::Unknown(e)),
            }
        } else {
            match self.get_feature(target) {
                Ok(f) => {
                    if same(f.status.as_str(), "ready") || same(f.status.as_str(), "running") {
                        Ok(RunTarget::Feature(target.to_owned()))
                    } else {
                        Err(RunRefusal::NotReady(target.to_owned(), f.status))
                    }
                },
                Err(e) => Err(RunRefusal::Unknown(e)),
            }
        }
    }
}

/// The exit code of a run.
pub open spec fn exit_code(o: Outcome) -> u8 {
    match o {
        Outcome::Failure => 1,
        Outcome::Blocked => 2,
        Outcome::NoPlan => 3,
        _ => 0,
    }
}

/// The line that is left behind when the dashboard closes.
pub open spec fn summary_text(o: Outcome) -> Seq<char> {
    match o {
        Outcome::Complete => "Tasks complete."@,
        Outcome::Failure => "Critical failure. See progress file for details."@,
        Outcome::LimitReached => "Iteration limit reached."@,
        Outcome::Blocked => "Loop blocked."@,
        Outcome::NoPlan => "No plan available."@,
        Outcome::Interrupted => "Run interrupted by user."@,
    }
}

/// What a warning shows.
pub open spec fn warning_shown(ui: bool, message: Seq<char>) -> Seq<EffectView> {
    unless_ui(ui, EffectView::ErrLine(seq![hued(Hue::Yellow, message)]))
}

/// What the end of a run shows.
pub open spec fn end_shown(ui: bool, o: Outcome) -> Seq<EffectView> {
    match o {
        Outcome::Complete => (if ui {
            seq![EffectView::Ui(UiEventView::StatusLine("Run complete"@))]
        } else {
            seq![EffectView::Line(seq![plain("Tasks complete."@)])]
        }) + seq![EffectView::Speak("Ralph finished. Tasks complete."@)],
        Outcome::Failure => (if ui {
            seq![EffectView::Ui(UiEventView::StatusLine("Run failed"@))]
        } else {
            seq![
                EffectView::ErrLine(
                    seq![hued(Hue::Red, "Critical failure. See progress file for details."@)],
                ),
            ]
        }) + seq![EffectView::Speak("Ralph failed--critical failure."@)],
        Outcome::LimitReached => (if ui {
            seq![EffectView::Ui(UiEventView::StatusLine("Iteration limit reached"@))]
        } else {
            Seq::empty()
        }) + seq![EffectView::Speak("Ralph finished--limit hit."@)],
        Outcome::Blocked => warning_shown(
            ui,
            "Loop blocked: no ready tasks, but incomplete tasks remain"@,
        ),
        Outcome::NoPlan => warning_shown(
            ui,
            "No plan: DAG is empty. Run 'ralph feature create <name>' to create tasks"@,
        ),
        Outcome::Interrupted => warning_shown(ui, "Run interrupted by user."@),
    }
}

/// An agent that ends its turn with the failure sigil ends the run, with exit
/// code 1, whatever else it says.
pub proof fn law_failure_sigil_exits_with_one(task_id: Seq<char>, text: Seq<char>)
    requires
        contains(text, FAILURE_SIGIL@),
    ensures
        ({
            let answer = reaction(
                task_id,
                StopReason::EndTurn,
                counted_sigils(StopReason::EndTurn, text),
            );
            ended_by(answer) is Some && exit_code(ended_by(answer)->0) == 1
        }),
{
}

/// How a run ends.
#[derive(Debug)]
pub struct Ending {
    pub exit_code: u8,
    pub shown: Vec<Effect>,
    pub summary: String,
}

/// How a run with this outcome ends.
pub fn end_run(ui: bool, outcome: Outcome) -> (r: Ending)
    ensures
        r.exit_code == exit_code(outcome),
        effect_views(r.shown@) == end_shown(ui, outcome),
        r.summary@ == summary_text(outcome),
{
    match outcome {
        Outcome::Complete => Ending {
            exit_code: 0,
            shown: print_complete(ui),
            summary: "Tasks complete.".to_owned(),
        },
        Outcome::Failure => Ending {
            exit_code: 1,
            shown: print_failure(ui),
            summary: "Critical failure. See progress file for details.".to_owned(),
        },
        Outcome::LimitReached => Ending {
            exit_code: 0,
            shown: print_limit_reached(ui),
            summary: "Iteration limit reached.".to_owned(),
        },
        Outcome::Blocked => Ending {
            exit_code: 2,
            shown: print_warning(ui, "Loop blocked: no ready tasks, but incomplete tasks remain"),
            summary: "Loop blocked.".to_owned(),
        },
        Outcome::NoPlan => Ending {
            exit_code: 3,
            shown: print_warning(
                ui,
                "No plan: DAG is empty. Run 'ralph feature create <name>' to create tasks",
            ),
            summary: "No plan available.".to_owned(),
        },
        Outcome::Interrupted => Ending {
            exit_code: 0,
            shown: print_warning(ui, "Run interrupted by user."),
            summary: "Run interrupted by user.".to_owned(),
        },
    }
}

/// The agent command: the flag, else the variable `RALPH_AGENT`, else that of
/// the configuration.
pub fn agent_command(flag: &Option<String>, variable: &Option<String>, configured: &str) -> (r:
    String)
    ensures
        r@ == match (opt_text(*flag), opt_text(*variable)) {
            (Some(f), _) => f,
            (None, Some(v)) => v,
            (None, None) => configured@,
        },
{
    match (flag, variable) {
        (Some(f), _) => f.clone(),
        (None, Some(v)) => v.clone(),
        (None, None) => configured.to_owned(),
    }
}

/// The model for creating a feature: the one asked for, or `opus`.
pub fn feature_model(model: &Option<String>) -> (r: String)
    ensures
        r@ == match opt_text(*model) {
            Some(m) => m,
            None => "opus"@,
        },
{
    match model {
        Some(m) => m.clone(),
        None => "opus".to_owned(),
    }
}

/// What is shown before authentication.
pub open spec fn auth_start_shown(ui: bool, command: Seq<char>, agent: Option<Seq<char>>) -> Seq<
    EffectView,
> {
    (match agent {
        Some(a) => info_shown(
            ui,
            "Auth is delegated to `"@ + command + " auth login`; ignoring --agent="@ + a + "."@,
        ),
        None => Seq::empty(),
    }) + info_shown(ui, "Running: "@ + command + " auth login"@)
}

/// Says that authentication begins.
pub fn start_auth(ui: bool, command: &str, agent: &Option<String>) -> (r: Vec<Effect>)
    ensures
        effect_views(r@) == auth_start_shown(ui, command@, opt_text(*agent)),
{
    let mut r: Vec<Effect> = Vec::new();
    assert(effect_views(r@) =~= Seq::empty());
    match agent {
        Some(a) => {
            let mut line = "Auth is delegated to `".to_owned();
            line.append(command);
            line.append(" auth login`; ignoring --agent=");
            line.append(a.as_str());
            line.append(".");
            push_effects(&mut r, print_info(ui, line.as_str()));
        },
        None => {},
    }
    let mut running = "Running: ".to_owned();
    running.append(command);
    running.append(" auth login");
    push_effects(&mut r, print_info(ui, running.as_str()));
    assert(effect_views(r@) =~= auth_start_shown(ui, command@, opt_text(*agent)));
    r
}

/// What is shown after authentication.
pub open spec fn auth_end_shown(ui: bool, success: bool, code: Option<i32>) -> Seq<EffectView> {
    if success {
        info_shown(ui, "Authentication successful."@)
    } else {
        let n = match code {
            Some(n) => n as int,
            None => -1,
        };
        unless_ui(
            ui,
            EffectView::ErrLine(
                seq![
                    hued(
                        Hue::Red,
                        "Authentication failed (exit code: "@ + decimal_int(n) + ")."@,
                    ),
                ],
            ),
        )
    }
}

/// Says how authentication ended, and gives the exit code.
pub fn end_auth(ui: bool, success: bool, code: Option<i32>) -> (r: (Vec<Effect>, u8))
    ensures
        effect_views(r.0@) == auth_end_shown(ui, success, code),
        r.1 == if success {
            0u8
        } else {
            1u8
        },
{
    if success {
        return (print_info(ui, "Authentication successful."), 0);
    }
    let n: i64 = match code {
        Some(n) => n as i64,
        None => -1,
    };
    let mut line = "Authentication failed (exit code: ".to_owned();
    line.append(decimal_int_text(n).as_str());
    line.append(").");
    (print_error(ui, line.as_str()), 1)
}

} // verus!
