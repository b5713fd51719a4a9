//! The lines of a run, styled for the terminal, or as events for the dashboard.

use vstd::prelude::*;

use crate::acp::types::StopReason;
use crate::config::{strategy_name, Config, ConfigView};
use crate::output::effect::{
    effect_views, show_either, show_unless_ui, unless_ui, Effect, EffectView, UiEvent, UiEventView,
};
use crate::output::style::{
    dim, dim_span, hued, hued_span, plain, plain_span, span_views, Hue, Span, Style,
};
use crate::run_loop::settle::Reaction;
use crate::text::number::{decimal, decimal_int, decimal_int_text, decimal_text};

verus! {

/// Prints a plain info line.
///
/// Where the dashboard is active these are dropped: its panels carry all the
/// information the operator needs.
pub fn print_info(ui: bool, message: &str) -> (r: Vec<Effect>)
    ensures
        effect_views(r@) == unless_ui(ui, EffectView::Line(seq![plain(message@)])),
{
    let mut spans: Vec<Span> = Vec::new();
    spans.push(plain_span(message));
    assert(span_views(spans@) =~= seq![plain(message@)]);
    show_unless_ui(ui, Effect::Line(spans))
}

/// Prints a warning line.
pub fn print_warning(ui: bool, message: &str) -> (r: Vec<Effect>)
    ensures
        effect_views(r@) == unless_ui(ui, EffectView::ErrLine(seq![hued(Hue::Yellow, message@)])),
{
    let mut spans: Vec<Span> = Vec::new();
    spans.push(hued_span(Hue::Yellow, message));
    assert(span_views(spans@) =~= seq![hued(Hue::Yellow, message@)]);
    show_unless_ui(ui, Effect::ErrLine(spans))
}

/// Prints an error line.
pub fn print_error(ui: bool, message: &str) -> (r: Vec<Effect>)
    ensures
        effect_views(r@) == unless_ui(ui, EffectView::ErrLine(seq![hued(Hue::Red, message@)])),
{
    let mut spans: Vec<Span> = Vec::new();
    spans.push(hued_span(Hue::Red, message));
    assert(span_views(spans@) =~= seq![hued(Hue::Red, message@)]);
    show_unless_ui(ui, Effect::ErrLine(spans))
}

/// The counts of tasks on one line.
pub open spec fn dag_text(total: nat, ready: nat, done: nat, blocked: nat) -> Seq<char> {
    "DAG: "@ + decimal(total) + " tasks, "@ + decimal(ready) + " ready, "@ + decimal(done)
        + " done, "@ + decimal(blocked) + " blocked"@
}

/// Prints the DAG summary.
pub fn print_dag_summary(
    ui: bool,
    total: usize,
    ready: usize,
    done: usize,
    blocked: usize,
) -> (r: Vec<Effect>)
    ensures
        ({
            let text = dag_text(total as nat, ready as nat, done as nat, blocked as nat);
            effect_views(r@) == seq![
                if ui {
                    EffectView::Ui(UiEventView::DagSummary(text))
                } else {
                    EffectView::Line(seq![plain(text)])
                },
            ]
        }),
{
    let mut text = "DAG: ".to_owned();
    text.append(decimal_text(total as u64).as_str());
    text.append(" tasks, ");
    text.append(decimal_text(ready as u64).as_str());
    text.append(" ready, ");
    text.append(decimal_text(done as u64).as_str());
    text.append(" done, ");
    text.append(decimal_text(blocked as u64).as_str());
    text.append(" blocked");
    let mut spans: Vec<Span> = Vec::new();
    spans.push(plain_span(text.as_str()));
    assert(span_views(spans@) =~= seq![plain(text@)]);
    show_either(ui, UiEvent::DagSummary(text), Effect::Line(spans))
}

/// Prints a clickable file hyperlink.
pub fn hyperlink(ui: bool, path: &str) -> (r: Vec<Effect>)
    ensures
        effect_views(r@) == unless_ui(
            ui,
            EffectView::Line(
                seq![
                    plain("\x1b]8;;file://"@ + path@ + "\x1b\\"@ + path@ + "\x1b]8;;\x1b\\"@),
                ],
            ),
        ),
{
    let mut text = "\x1b]8;;file://".to_owned();
    text.append(path);
    text.append("\x1b\\");
    text.append(path);
    text.append("\x1b]8;;\x1b\\");
    let mut spans: Vec<Span> = Vec::new();
    spans.push(plain_span(text.as_str()));
    assert(span_views(spans@) =~= seq![
        plain("\x1b]8;;file://"@ + path@ + "\x1b\\"@ + path@ + "\x1b]8;;\x1b\\"@),
    ]);
    show_unless_ui(ui, Effect::Line(spans))
}

/// Prints the verification start message.
pub fn print_verification_start(ui: bool, iteration: u32, task_id: &str) -> (r: Vec<Effect>)
    ensures
        effect_views(r@) == unless_ui(
            ui,
            EffectView::Line(
                seq![
                    plain("[iter "@ + decimal(iteration as nat) + "] "@),
                    hued(Hue::Yellow, "Verifying:"@),
                    plain(" "@),
                    hued(Hue::Cyan, task_id@),
                ],
            ),
        ),
{
    let mut head = "[iter ".to_owned();
    head.append(decimal_text(iteration as u64).as_str());
    head.append("] ");
    let mut spans: Vec<Span> = Vec::new();
    spans.push(plain_span(head.as_str()));
    spans.push(hued_span(Hue::Yellow, "Verifying:"));
    spans.push(plain_span(" "));
    spans.push(hued_span(Hue::Cyan, task_id));
    assert(span_views(spans@) =~= seq![
        plain("[iter "@ + decimal(iteration as nat) + "] "@),
        hued(Hue::Yellow, "Verifying:"@),
        plain(" "@),
        hued(Hue::Cyan, task_id@),
    ]);
    show_unless_ui(ui, Effect::Line(spans))
}

/// Prints the verification passed message.
pub fn print_verification_passed(ui: bool, iteration: u32, task_id: &str) -> (r: Vec<Effect>)
    ensures
        effect_views(r@) == unless_ui(
            ui,
            EffectView::Line(
                seq![
                    plain("[iter "@ + decimal(iteration as nat) + "] "@),
                    hued(Hue::Green, "Done"@),
                    plain(" (verified): "@),
                    hued(Hue::Cyan, task_id@),
                ],
            ),
        ),
{
    let mut head = "[iter ".to_owned();
    head.append(decimal_text(iteration as u64).as_str());
    head.append("] ");
    let mut spans: Vec<Span> = Vec::new();
    spans.push(plain_span(head.as_str()));
    spans.push(hued_span(Hue::Green, "Done"));
    spans.push(plain_span(" (verified): "));
    spans.push(hued_span(Hue::Cyan, task_id));
    assert(span_views(spans@) =~= seq![
        plain("[iter "@ + decimal(iteration as nat) + "] "@),
        hued(Hue::Green, "Done"@),
        plain(" (verified): "@),
        hued(Hue::Cyan, task_id@),
    ]);
    show_unless_ui(ui, Effect::Line(spans))
}

/// Prints the verification failed message.
pub fn print_verification_failed(ui: bool, iteration: u32, task_id: &str, reason: &str) -> (r: Vec<Effect>)
    ensures
        effect_views(r@) == unless_ui(
            ui,
            EffectView::Line(
                seq![
                    plain("[iter "@ + decimal(iteration as nat) + "] "@),
                    hued(Hue::Red, "Failed"@),
                    plain(" verification: "@),
                    hued(Hue::Cyan, task_id@),
                    plain(" — "@ + reason@),
                ],
            ),
        ),
{
    let mut head = "[iter ".to_owned();
    head.append(decimal_text(iteration as u64).as_str());
    head.append("] ");
    let mut tail = " — ".to_owned();
    tail.append(reason);
    let mut spans: Vec<Span> = Vec::new();
    spans.push(plain_span(head.as_str()));
    spans.push(hued_span(Hue::Red, "Failed"));
    spans.push(plain_span(" verification: "));
    spans.push(hued_span(Hue::Cyan, task_id));
    spans.push(plain_span(tail.as_str()));
    assert(span_views(spans@) =~= seq![
        plain("[iter "@ + decimal(iteration as nat) + "] "@),
        hued(Hue::Red, "Failed"@),
        plain(" verification: "@),
        hued(Hue::Cyan, task_id@),
        plain(" — "@ + reason@),
    ]);
    show_unless_ui(ui, Effect::Line(spans))
}

/// Prints the retry message.
pub fn print_retry(ui: bool, iteration: u32, task_id: &str, attempt: i32, max: i32) -> (r: Vec<Effect>)
    ensures
        effect_views(r@) == unless_ui(
            ui,
            EffectView::Line(
                seq![
                    plain("[iter "@ + decimal(iteration as nat) + "] Retrying "@),
                    hued(Hue::Cyan, task_id@),
                    plain(" (attempt "@ + decimal_int(attempt as int) + "/"@ + decimal_int(max as int) + ")"@),
                ],
            ),
        ),
{
    let mut head = "[iter ".to_owned();
    head.append(decimal_text(iteration as u64).as_str());
    head.append("] Retrying ");
    let mut tail = " (attempt ".to_owned();
    tail.append(decimal_int_text(attempt as i64).as_str());
    tail.append("/");
    tail.append(decimal_int_text(max as i64).as_str());
    tail.append(")");
    let mut spans: Vec<Span> = Vec::new();
    spans.push(plain_span(head.as_str()));
    spans.push(hued_span(Hue::Cyan, task_id));
    spans.push(plain_span(tail.as_str()));
    assert(span_views(spans@) =~= seq![
        plain("[iter "@ + decimal(iteration as nat) + "] Retrying "@),
        hued(Hue::Cyan, task_id@),
        plain(" (attempt "@ + decimal_int(attempt as int) + "/"@ + decimal_int(max as int) + ")"@),
    ]);
    show_unless_ui(ui, Effect::Line(spans))
}

/// Prints the message that the retries are exhausted.
pub fn print_max_retries_exhausted(ui: bool, iteration: u32, task_id: &str) -> (r: Vec<Effect>)
    ensures
        effect_views(r@) == unless_ui(
            ui,
            EffectView::Line(
                seq![
                    plain("[iter "@ + decimal(iteration as nat) + "] "@),
                    hued(Hue::Red, "Failed"@),
                    plain(" (max retries exhausted): "@),
                    hued(Hue::Cyan, task_id@),
                ],
            ),
        ),
{
    let mut head = "[iter ".to_owned();
    head.append(decimal_text(iteration as u64).as_str());
    head.append("] ");
    let mut spans: Vec<Span> = Vec::new();
    spans.push(plain_span(head.as_str()));
    spans.push(hued_span(Hue::Red, "Failed"));
    spans.push(plain_span(" (max retries exhausted): "));
    spans.push(hued_span(Hue::Cyan, task_id));
    assert(span_views(spans@) =~= seq![
        plain("[iter "@ + decimal(iteration as nat) + "] "@),
        hued(Hue::Red, "Failed"@),
        plain(" (max retries exhausted): "@),
        hued(Hue::Cyan, task_id@),
    ]);
    show_unless_ui(ui, Effect::Line(spans))
}

/// Prints the task done message.
pub fn print_task_done(ui: bool, iteration: u32, task_id: &str) -> (r: Vec<Effect>)
    ensures
        effect_views(r@) == unless_ui(
            ui,
            EffectView::Line(
                seq![
                    plain("[iter "@ + decimal(iteration as nat) + "] "@),
                    hued(Hue::Green, "Done"@),
                    plain(": "@),
                    hued(Hue::Cyan, task_id@),
                ],
            ),
        ),
{
    let mut head = "[iter ".to_owned();
    head.append(decimal_text(iteration as u64).as_str());
    head.append("] ");
    let mut spans: Vec<Span> = Vec::new();
    spans.push(plain_span(head.as_str()));
    spans.push(hued_span(Hue::Green, "Done"));
    spans.push(plain_span(": "));
    spans.push(hued_span(Hue::Cyan, task_id));
    assert(span_views(spans@) =~= seq![
        plain("[iter "@ + decimal(iteration as nat) + "] "@),
        hued(Hue::Green, "Done"@),
        plain(": "@),
        hued(Hue::Cyan, task_id@),
    ]);
    show_unless_ui(ui, Effect::Line(spans))
}

/// Prints the task failed message.
pub fn print_task_failed(ui: bool, iteration: u32, task_id: &str) -> (r: Vec<Effect>)
    ensures
        effect_views(r@) == unless_ui(
            ui,
            EffectView::Line(
                seq![
                    plain("[iter "@ + decimal(iteration as nat) + "] "@),
                    hued(Hue::Red, "Failed"@),
                    plain(": "@),
                    hued(Hue::Cyan, task_id@),
                ],
            ),
        ),
{
    let mut head = "[iter ".to_owned();
    head.append(decimal_text(iteration as u64).as_str());
    head.append("] ");
    let mut spans: Vec<Span> = Vec::new();
    spans.push(plain_span(head.as_str()));
    spans.push(hued_span(Hue::Red, "Failed"));
    spans.push(plain_span(": "));
    spans.push(hued_span(Hue::Cyan, task_id));
    assert(span_views(spans@) =~= seq![
        plain("[iter "@ + decimal(iteration as nat) + "] "@),
        hued(Hue::Red, "Failed"@),
        plain(": "@),
        hued(Hue::Cyan, task_id@),
    ]);
    show_unless_ui(ui, Effect::Line(spans))
}

/// Prints the task incomplete (no sigil) message.
pub fn print_task_incomplete(ui: bool, iteration: u32, task_id: &str) -> (r: Vec<Effect>)
    ensures
        effect_views(r@) == unless_ui(
            ui,
            EffectView::Line(
                seq![
                    plain("[iter "@ + decimal(iteration as nat) + "] Incomplete (no sigil): "@),
                    hued(Hue::Cyan, task_id@),
                ],
            ),
        ),
{
    let mut head = "[iter ".to_owned();
    head.append(decimal_text(iteration as u64).as_str());
    head.append("] Incomplete (no sigil): ");
    let mut spans: Vec<Span> = Vec::new();
    spans.push(plain_span(head.as_str()));
    spans.push(hued_span(Hue::Cyan, task_id));
    assert(span_views(spans@) =~= seq![
        plain("[iter "@ + decimal(iteration as nat) + "] Incomplete (no sigil): "@),
        hued(Hue::Cyan, task_id@),
    ]);
    show_unless_ui(ui, Effect::Line(spans))
}

/// Prints the task working message.
pub fn print_task_working(ui: bool, iteration: u32, task_id: &str, title: &str) -> (r: Vec<Effect>)
    ensures
        effect_views(r@) == seq![
            if ui {
                EffectView::Ui(UiEventView::CurrentTask("Task: "@ + task_id@ + " — "@ + title@))
            } else {
                EffectView::Line(
                    seq![
                        plain("[iter "@ + decimal(iteration as nat) + "] Working on: "@),
                        hued(Hue::Cyan, task_id@),
                        plain(" -- "@ + title@),
                    ],
                )
            },
        ],
{
    let mut head = "[iter ".to_owned();
    head.append(decimal_text(iteration as u64).as_str());
    head.append("] Working on: ");
    let mut tail = " -- ".to_owned();
    tail.append(title);
    let mut spans: Vec<Span> = Vec::new();
    spans.push(plain_span(head.as_str()));
    spans.push(hued_span(Hue::Cyan, task_id));
    spans.push(plain_span(tail.as_str()));
    assert(span_views(spans@) =~= seq![
        plain("[iter "@ + decimal(iteration as nat) + "] Working on: "@),
        hued(Hue::Cyan, task_id@),
        plain(" -- "@ + title@),
    ]);
    let mut event = "Task: ".to_owned();
    event.append(task_id);
    event.append(" — ");
    event.append(title);
    show_either(ui, UiEvent::CurrentTask(event), Effect::Line(spans))
}

/// Prints the review loop start message.
pub fn print_review_start(ui: bool, kind: &str, feature_name: &str) -> (r: Vec<Effect>)
    ensures
        effect_views(r@) == unless_ui(
            ui,
            EffectView::Line(
                seq![
                    plain("\n"@),
                    hued(Hue::Cyan, "Reviewing "@ + kind@ + " for '"@ + feature_name@ + "'..."@),
                ],
            ),
        ),
{
    let mut text = "Reviewing ".to_owned();
    text.append(kind);
    text.append(" for '");
    text.append(feature_name);
    text.append("'...");
    let mut spans: Vec<Span> = Vec::new();
    spans.push(plain_span("\n"));
    spans.push(hued_span(Hue::Cyan, text.as_str()));
    assert(span_views(spans@) =~= seq![
        plain("\n"@),
        hued(Hue::Cyan, "Reviewing "@ + kind@ + " for '"@ + feature_name@ + "'..."@),
    ]);
    show_unless_ui(ui, Effect::Line(spans))
}

/// What is said at the start of a review round.
pub open spec fn round_text(kind: Seq<char>, round: nat, max: nat) -> Seq<char> {
    kind + " review round "@ + decimal(round) + "/"@ + decimal(max)
}

/// Prints the review round start message.
pub fn print_review_round(ui: bool, round: u32, max: u32, kind: &str) -> (r: Vec<Effect>)
    ensures
        effect_views(r@) == unless_ui(
            ui,
            EffectView::Line(
                seq![
                    plain("  "@),
                    hued(Hue::Cyan, round_text(kind@, round as nat, max as nat)),
                    plain(" "@),
                    dim("→"@),
                ],
            ),
        ),
{
    let mut text = kind.to_owned();
    text.append(" review round ");
    text.append(decimal_text(round as u64).as_str());
    text.append("/");
    text.append(decimal_text(max as u64).as_str());
    let mut spans: Vec<Span> = Vec::new();
    spans.push(plain_span("  "));
    spans.push(hued_span(Hue::Cyan, text.as_str()));
    spans.push(plain_span(" "));
    spans.push(dim_span("→"));
    assert(span_views(spans@) =~= seq![
        plain("  "@),
        hued(Hue::Cyan, round_text(kind@, round as nat, max as nat)),
        plain(" "@),
        dim("→"@),
    ]);
    show_unless_ui(ui, Effect::Line(spans))
}

/// What is said at the end of the last review round.
pub open spec fn limit_text(kind: Seq<char>, feature: Seq<char>, max: nat) -> Seq<char> {
    "Review limit: '"@ + feature + "' "@ + kind + " stabilized after "@ + decimal(max)
        + " rounds."@
}

/// Prints the message that the review limit was reached.
pub fn print_review_max_rounds(ui: bool, kind: &str, feature_name: &str, max: u32) -> (r: Vec<Effect>)
    ensures
        effect_views(r@) == unless_ui(
            ui,
            EffectView::Line(
                seq![
                    hued(Hue::Yellow, limit_text(kind@, feature_name@, max as nat)),
                ],
            ),
        ),
{
    let mut text = "Review limit: '".to_owned();
    text.append(feature_name);
    text.append("' ");
    text.append(kind);
    text.append(" stabilized after ");
    text.append(decimal_text(max as u64).as_str());
    text.append(" rounds.");
    let mut spans: Vec<Span> = Vec::new();
    spans.push(hued_span(Hue::Yellow, text.as_str()));
    assert(span_views(spans@) =~= seq![
        hued(Hue::Yellow, limit_text(kind@, feature_name@, max as nat)),
    ]);
    show_unless_ui(ui, Effect::Line(spans))
}

/// Prints the interrupted message.
pub fn print_interrupted(ui: bool, iteration: u32, task_id: &str, title: &str) -> (r: Vec<Effect>)
    ensures
        effect_views(r@) == unless_ui(
            ui,
            EffectView::Line(
                seq![
                    plain("\n[iter "@ + decimal(iteration as nat) + "] "@),
                    (Style::BoldYellow, "Interrupted"@),
                    plain(" "@),
                    hued(Hue::Cyan, task_id@),
                    plain(" — \""@ + title@ + "\""@),
                ],
            ),
        ),
{
    let mut head = "\n[iter ".to_owned();
    head.append(decimal_text(iteration as u64).as_str());
    head.append("] ");
    let mut tail = " — \"".to_owned();
    tail.append(title);
    tail.append("\"");
    let mut spans: Vec<Span> = Vec::new();
    spans.push(plain_span(head.as_str()));
    spans.push(Span { style: Style::BoldYellow, text: "Interrupted".to_owned() });
    spans.push(plain_span(" "));
    spans.push(hued_span(Hue::Cyan, task_id));
    spans.push(plain_span(tail.as_str()));
    assert(span_views(spans@) =~= seq![
        plain("\n[iter "@ + decimal(iteration as nat) + "] "@),
        (Style::BoldYellow, "Interrupted"@),
        plain(" "@),
        hued(Hue::Cyan, task_id@),
        plain(" — \""@ + title@ + "\""@),
    ]);
    show_unless_ui(ui, Effect::Line(spans))
}

/// The line on the iteration.
pub open spec fn iteration_line(c: ConfigView) -> Seq<char> {
    if c.limit == 1 {
        "Running once only"@
    } else if c.total == 0 {
        "Iteration "@ + decimal(c.iteration as nat) + " (unlimited)"@
    } else {
        "Iteration "@ + decimal(c.iteration as nat) + " of "@ + decimal(c.total as nat)
    }
}

/// Prints iteration information.
pub fn print_iteration_info(ui: bool, config: &Config) -> (r: Vec<Effect>)
    ensures
        effect_views(r@) == seq![
            if ui {
                EffectView::Ui(
                    UiEventView::StatusLine(
                        iteration_line(config@) + " | model="@ + config.current_model@
                            + " | strategy="@ + strategy_name(config.model_strategy),
                    ),
                )
            } else {
                EffectView::Line(seq![plain(iteration_line(config@))])
            },
        ],
{
    let mut line = String::new();
    if config.limit == 1 {
        line = "Running once only".to_owned();
    } else if config.total == 0 {
        line = "Iteration ".to_owned();
        line.append(decimal_text(config.iteration as u64).as_str());
        line.append(" (unlimited)");
    } else {
        line = "Iteration ".to_owned();
        line.append(decimal_text(config.iteration as u64).as_str());
        line.append(" of ");
        line.append(decimal_text(config.total as u64).as_str());
    }
    let mut spans: Vec<Span> = Vec::new();
    spans.push(plain_span(line.as_str()));
    assert(span_views(spans@) =~= seq![plain(iteration_line(config@))]);
    let mut status = line;
    status.append(" | model=");
    status.append(config.current_model.as_str());
    status.append(" | strategy=");
    status.append(config.model_strategy.name().as_str());
    show_either(ui, UiEvent::StatusLine(status), Effect::Line(spans))
}

/// What the end of a run shows: its status on the dashboard, what is printed
/// without one, and what is spoken.
fn ending(ui: bool, status: &str, printed: Vec<Effect>, spoken: &str) -> (r: Vec<Effect>)
    ensures
        effect_views(r@) == (if ui {
            seq![EffectView::Ui(UiEventView::StatusLine(status@))]
        } else {
            Seq::empty()
        }) + effect_views(printed@) + seq![EffectView::Speak(spoken@)],
{
    let mut r: Vec<Effect> = Vec::new();
    let ghost head = if ui {
        seq![EffectView::Ui(UiEventView::StatusLine(status@))]
    } else {
        Seq::empty()
    };
    if ui {
        r.push(Effect::Ui(UiEvent::StatusLine(status.to_owned())));
    }
    assert(effect_views(r@) =~= head);
    let ghost mid = effect_views(printed@);
    let ghost before = r@;
    let mut printed = printed;
    r.append(&mut printed);
    assert(effect_views(r@) =~= head + mid);
    let ghost most = r@;
    r.push(Effect::Speak(spoken.to_owned()));
    assert(effect_views(r@) =~= effect_views(most).push(EffectView::Speak(spoken@)));
    assert(effect_views(r@) =~= head + mid + seq![EffectView::Speak(spoken@)]);
    r
}

/// Prints the completion message.
pub fn print_complete(ui: bool) -> (r: Vec<Effect>)
    ensures
        effect_views(r@) == (if ui {
            seq![EffectView::Ui(UiEventView::StatusLine("Run complete"@))]
        } else {
            seq![EffectView::Line(seq![plain("Tasks complete."@)])]
        }) + seq![EffectView::Speak("Ralph finished. Tasks complete."@)],
{
    let r = ending(
        ui,
        "Run complete",
        print_info(ui, "Tasks complete."),
        "Ralph finished. Tasks complete.",
    );
    assert(effect_views(r@) =~= (if ui {
        seq![EffectView::Ui(UiEventView::StatusLine("Run complete"@))]
    } else {
        seq![EffectView::Line(seq![plain("Tasks complete."@)])]
    }) + seq![EffectView::Speak("Ralph finished. Tasks complete."@)]);
    r
}

/// Prints the failure message.
pub fn print_failure(ui: bool) -> (r: Vec<Effect>)
    ensures
        effect_views(r@) == (if ui {
            seq![EffectView::Ui(UiEventView::StatusLine("Run failed"@))]
        } else {
            seq![
                EffectView::ErrLine(
                    seq![hued(Hue::Red, "Critical failure. See progress file for details."@)],
                ),
            ]
        }) + seq![EffectView::Speak("Ralph failed--critical failure."@)],
{
    let r = ending(
        ui,
        "Run failed",
        print_error(ui, "Critical failure. See progress file for details."),
        "Ralph failed--critical failure.",
    );
    assert(effect_views(r@) =~= (if ui {
        seq![EffectView::Ui(UiEventView::StatusLine("Run failed"@))]
    } else {
        seq![
            EffectView::ErrLine(
                seq![hued(Hue::Red, "Critical failure. See progress file for details."@)],
            ),
        ]
    }) + seq![EffectView::Speak("Ralph failed--critical failure."@)]);
    r
}

/// Prints the message that the limit was reached.
pub fn print_limit_reached(ui: bool) -> (r: Vec<Effect>)
    ensures
        effect_views(r@) == (if ui {
            seq![EffectView::Ui(UiEventView::StatusLine("Iteration limit reached"@))]
        } else {
            Seq::empty()
        }) + seq![EffectView::Speak("Ralph finished--limit hit."@)],
{
    let none: Vec<Effect> = Vec::new();
    assert(effect_views(none@) =~= Seq::empty());
    let r = ending(ui, "Iteration limit reached", none, "Ralph finished--limit hit.");
    assert(effect_views(r@) =~= (if ui {
        seq![EffectView::Ui(UiEventView::StatusLine("Iteration limit reached"@))]
    } else {
        Seq::empty()
    }) + seq![EffectView::Speak("Ralph finished--limit hit."@)]);
    r
}

/// So many hyphens.
pub open spec fn hyphens(n: nat) -> Seq<char> {
    Seq::new(n, |i: int| '-')
}

/// Prints the iteration separator, as wide as the terminal.
pub fn print_separator(ui: bool, width: usize) -> (r: Vec<Effect>)
    ensures
        effect_views(r@) == unless_ui(ui, EffectView::Line(seq![dim(hyphens(width as nat))])),
{
    let mut line = String::new();
    let mut i: usize = 0;
    assert(line@ =~= hyphens(0));
    while i < width
        invariant
            i <= width,
            line@ == hyphens(i as nat),
        decreases width - i,
    {
        line.push('-');
        assert(hyphens((i + 1) as nat) =~= hyphens(i as nat).push('-'));
        i = i + 1;
    }
    let mut spans: Vec<Span> = Vec::new();
    spans.push(dim_span(line.as_str()));
    assert(span_views(spans@) =~= seq![dim(hyphens(width as nat))]);
    show_unless_ui(ui, Effect::Line(spans))
}

/// Prints a file location line with label.
pub fn print_log_location(ui: bool, label: &str, path: &str) -> (r: Vec<Effect>)
    ensures
        effect_views(r@) == unless_ui(ui, EffectView::Line(seq![plain(label@)])) + unless_ui(
            ui,
            EffectView::Line(
                seq![
                    plain(
                        "\x1b]8;;file://"@ + path@ + "\x1b\\"@ + path@ + "\x1b]8;;\x1b\\"@,
                    ),
                ],
            ),
        ),
{
    let mut r = print_info(ui, label);
    let ghost head = effect_views(r@);
    let mut more = hyperlink(ui, path);
    let ghost tail = effect_views(more@);
    r.append(&mut more);
    assert(effect_views(r@) =~= head + tail);
    r
}

/// Emits an iteration divider into the agent stream panel of the dashboard.
pub fn emit_iteration_divider(ui: bool, iteration: u32) -> (r: Vec<Effect>)
    ensures
        effect_views(r@) == (if ui {
            seq![EffectView::Ui(UiEventView::IterationDivider(iteration))]
        } else {
            Seq::empty()
        }),
{
    let mut r: Vec<Effect> = Vec::new();
    if ui {
        r.push(Effect::Ui(UiEvent::IterationDivider(iteration)));
        assert(effect_views(r@) =~= seq![EffectView::Ui(UiEventView::IterationDivider(iteration))]);
    } else {
        assert(effect_views(r@) =~= Seq::empty());
    }
    r
}

/// Prints the review round result.
pub fn print_review_result(ui: bool, passed: bool, changes_summary: &str, kind: &str) -> (r: Vec<
    Effect,
>)
    ensures
        effect_views(r@) == unless_ui(
            ui,
            EffectView::Line(
                if passed {
                    seq![
                        plain("  "@),
                        hued(Hue::Green, "Pass"@),
                        plain(" "@ + kind@ + " review: "@),
                        dim("no major issues found"@),
                    ]
                } else {
                    seq![
                        plain("  "@),
                        hued(Hue::Yellow, "Changes"@),
                        plain(" "@ + kind@ + " review: "@),
                        dim(changes_summary@),
                    ]
                },
            ),
        ),
{
    let mut mid = " ".to_owned();
    mid.append(kind);
    mid.append(" review: ");
    let mut spans: Vec<Span> = Vec::new();
    spans.push(plain_span("  "));
    if passed {
        spans.push(hued_span(Hue::Green, "Pass"));
        spans.push(plain_span(mid.as_str()));
        spans.push(dim_span("no major issues found"));
        assert(span_views(spans@) =~= seq![
            plain("  "@),
            hued(Hue::Green, "Pass"@),
            plain(" "@ + kind@ + " review: "@),
            dim("no major issues found"@),
        ]);
    } else {
        spans.push(hued_span(Hue::Yellow, "Changes"));
        spans.push(plain_span(mid.as_str()));
        spans.push(dim_span(changes_summary));
        assert(span_views(spans@) =~= seq![
            plain("  "@),
            hued(Hue::Yellow, "Changes"@),
            plain(" "@ + kind@ + " review: "@),
            dim(changes_summary@),
        ]);
    }
    show_unless_ui(ui, Effect::Line(spans))
}

/// The number of rounds in words.
pub open spec fn rounds_text(n: u32) -> Seq<char> {
    if n == 1 {
        "1 round"@
    } else {
        decimal(n as nat) + " rounds"@
    }
}

/// Prints the review complete message.
pub fn print_review_complete(ui: bool, kind: &str, feature_name: &str, rounds: u32) -> (r: Vec<
    Effect,
>)
    ensures
        effect_views(r@) == unless_ui(
            ui,
            EffectView::Line(
                seq![
                    hued(
                        Hue::Green,
                        "Review complete: '"@ + feature_name@ + "' "@ + kind@
                            + " finalized after "@ + rounds_text(rounds) + "."@,
                    ),
                ],
            ),
        ),
{
    let mut count = String::new();
    if rounds == 1 {
        count = "1 round".to_owned();
    } else {
        count = decimal_text(rounds as u64);
        count.append(" rounds");
    }
    let mut line = "Review complete: '".to_owned();
    line.append(feature_name);
    line.append("' ");
    line.append(kind);
    line.append(" finalized after ");
    line.append(count.as_str());
    line.append(".");
    let mut spans: Vec<Span> = Vec::new();
    spans.push(hued_span(Hue::Green, line.as_str()));
    assert(span_views(spans@) =~= seq![hued(Hue::Green, line@)]);
    show_unless_ui(ui, Effect::Line(spans))
}

/// What is said of an answer that leaves its task as it was given, or fails it
/// without the agent's own word.
pub open spec fn notice(
    reaction: Reaction,
    stop: StopReason,
    shown: Seq<char>,
    named: Seq<char>,
    id: Seq<char>,
) -> Option<Seq<char>> {
    match reaction {
        Reaction::Incomplete => Some(
            match stop {
                StopReason::Cancelled =>
                    "ralph: agent reported Cancelled stop reason (unexpected), releasing task claim"@,
                StopReason::MaxTokens | StopReason::MaxTurnRequests =>
                    "ralph: agent hit token/turn limit ("@ + shown + "), releasing task claim"@,
                _ => "ralph: agent stopped with unknown reason: "@ + shown
                    + ", releasing task claim"@,
            },
        ),
        Reaction::Refused => Some("ralph: agent refused the request, failing task"@),
        Reaction::WrongDone => Some(
            "Warning: task-done sigil ID "@ + named + " does not match assigned task "@ + id,
        ),
        Reaction::WrongFailed => Some(
            "Warning: task-failed sigil ID "@ + named + " does not match assigned task "@ + id,
        ),
        _ => None,
    }
}

/// The message for standard error on an answer. `shown` is the name of the stop
/// reason, `named` the id that a sigil gave.
pub fn reaction_notice(
    reaction: Reaction,
    stop: StopReason,
    shown: &str,
    named: &str,
    task_id: &str,
) -> (r: Option<String>)
    ensures
        crate::text::basic::opt_text(r) == notice(reaction, stop, shown@, named@, task_id@),
{
    match reaction {
        Reaction::Incomplete => {
            let mut m = String::new();
            match stop {
                StopReason::Cancelled => {
                    m =
                    "ralph: agent reported Cancelled stop reason (unexpected), releasing task claim".to_owned();
                },
                StopReason::MaxTokens | StopReason::MaxTurnRequests => {
                    m = "ralph: agent hit token/turn limit (".to_owned();
                    m.append(shown);
                    m.append("), releasing task claim");
                },
                _ => {
                    m = "ralph: agent stopped with unknown reason: ".to_owned();
                    m.append(shown);
                    m.append(", releasing task claim");
                },
            }
            Some(m)
        },
        Reaction::Refused => Some("ralph: agent refused the request, failing task".to_owned()),
        Reaction::WrongDone => {
            let mut m = "Warning: task-done sigil ID ".to_owned();
            m.append(named);
            m.append(" does not match assigned task ");
            m.append(task_id);
            Some(m)
        },
        Reaction::WrongFailed => {
            let mut m = "Warning: task-failed sigil ID ".to_owned();
            m.append(named);
            m.append(" does not match assigned task ");
            m.append(task_id);
            Some(m)
        },
        _ => None,
    }
}

} // verus!
