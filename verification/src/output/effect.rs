//! What is to be shown, and where.

use vstd::prelude::*;

use crate::output::style::{plain, plain_span, span_views, Span, Style};
use crate::text::basic::texts;

verus! {

/// An event for the dashboard.
#[derive(Debug)]
pub enum UiEvent {
    StatusLine(String),
    DagSummary(String),
    CurrentTask(String),
    IterationDivider(u32),
    AgentText(String),
    AgentThinking(String),
    ToolActivity(String, String),
    ToolDetail(String),
    /// An error for the log panel.
    LogError(String),
}

/// What an event says.
pub enum UiEventView {
    StatusLine(Seq<char>),
    DagSummary(Seq<char>),
    CurrentTask(Seq<char>),
    IterationDivider(u32),
    AgentText(Seq<char>),
    AgentThinking(Seq<char>),
    ToolActivity(Seq<char>, Seq<char>),
    ToolDetail(Seq<char>),
    LogError(Seq<char>),
}

impl View for UiEvent {
    type V = UiEventView;

    open spec fn view(&self) -> UiEventView {
        match self {
            UiEvent::StatusLine(s) => UiEventView::StatusLine(s@),
            UiEvent::DagSummary(s) => UiEventView::DagSummary(s@),
            UiEvent::CurrentTask(s) => UiEventView::CurrentTask(s@),
            UiEvent::IterationDivider(n) => UiEventView::IterationDivider(*n),
            UiEvent::AgentText(s) => UiEventView::AgentText(s@),
            UiEvent::AgentThinking(s) => UiEventView::AgentThinking(s@),
            UiEvent::ToolActivity(s, t) => UiEventView::ToolActivity(s@, t@),
            UiEvent::ToolDetail(s) => UiEventView::ToolDetail(s@),
            UiEvent::LogError(s) => UiEventView::LogError(s@),
        }
    }
}

/// One thing to be done to show something.
#[derive(Debug)]
pub enum Effect {
    /// Prints to standard output.
    Print(Vec<Span>),
    /// Prints a line to standard output.
    Line(Vec<Span>),
    /// Prints a line to standard error.
    ErrLine(Vec<Span>),
    /// Flushes standard output.
    Flush,
    /// Speaks a message.
    Speak(String),
    /// Sends an event to the dashboard.
    Ui(UiEvent),
    /// Shows lines under a title, full screen, until the user leaves.
    Explore(String, Vec<String>),
}

/// What an effect shows.
pub enum EffectView {
    Print(Seq<(Style, Seq<char>)>),
    Line(Seq<(Style, Seq<char>)>),
    ErrLine(Seq<(Style, Seq<char>)>),
    Flush,
    Speak(Seq<char>),
    Ui(UiEventView),
    Explore(Seq<char>, Seq<Seq<char>>),
}

impl View for Effect {
    type V = EffectView;

    open spec fn view(&self) -> EffectView {
        match self {
            Effect::Print(v) => EffectView::Print(span_views(v@)),
            Effect::Line(v) => EffectView::Line(span_views(v@)),
            Effect::ErrLine(v) => EffectView::ErrLine(span_views(v@)),
            Effect::Flush => EffectView::Flush,
            Effect::Speak(s) => EffectView::Speak(s@),
            Effect::Ui(e) => EffectView::Ui(e@),
            Effect::Explore(t, v) => EffectView::Explore(t@, texts(v@)),
        }
    }
}

/// The views of a list of effects.
pub open spec fn effect_views(v: Seq<Effect>) -> Seq<EffectView> {
    v.map_values(|e: Effect| e@)
}

/// The effect, unless the dashboard is active.
pub open spec fn unless_ui(ui: bool, e: EffectView) -> Seq<EffectView> {
    if ui {
        Seq::empty()
    } else {
        seq![e]
    }
}

/// The effect, unless the dashboard is active.
pub fn show_unless_ui(ui: bool, e: Effect) -> (r: Vec<Effect>)
    ensures
        effect_views(r@) == unless_ui(ui, e@),
{
    let mut r: Vec<Effect> = Vec::new();
    if !ui {
        let ghost ev = e@;
        r.push(e);
        assert(effect_views(r@) =~= seq![ev]);
    } else {
        assert(effect_views(r@) =~= Seq::empty());
    }
    r
}

/// One effect where the dashboard is active, another where it is not.
pub fn show_either(ui: bool, event: UiEvent, e: Effect) -> (r: Vec<Effect>)
    ensures
        effect_views(r@) == seq![
            if ui {
                EffectView::Ui(event@)
            } else {
                e@
            },
        ],
{
    let mut r: Vec<Effect> = Vec::new();
    let chosen = if ui {
        Effect::Ui(event)
    } else {
        e
    };
    let ghost cv = chosen@;
    r.push(chosen);
    assert(effect_views(r@) =~= seq![cv]);
    r
}

/// What a plain info line shows.
pub open spec fn info_shown(ui: bool, message: Seq<char>) -> Seq<EffectView> {
    unless_ui(ui, EffectView::Line(seq![plain(message)]))
}

/// Adds effects behind others.
pub fn push_effects(out: &mut Vec<Effect>, more: Vec<Effect>)
    ensures
        effect_views(final(out)@) == effect_views(old(out)@) + effect_views(more@),
{
    let ghost before = out@;
    let ghost added = more@;
    let mut more = more;
    out.append(&mut more);
    assert(effect_views(out@) =~= effect_views(before) + effect_views(added));
}

/// Lines, each printed as it is.
pub open spec fn plain_lines(lines: Seq<Seq<char>>) -> Seq<EffectView> {
    lines.map_values(|l: Seq<char>| EffectView::Line(seq![plain(l)]))
}

/// Lines under a title, or, without a dashboard, printed.
pub open spec fn explored(
    ui: bool,
    title: Seq<char>,
    lines: Seq<Seq<char>>,
) -> Seq<EffectView> {
    if ui {
        seq![EffectView::Explore(title, lines)]
    } else {
        plain_lines(lines)
    }
}

/// Shows lines under a title where the dashboard is active, and prints them
/// where it is not.
pub fn show_result_if_ui_active(ui: bool, title: &str, lines: Vec<String>) -> (r: Vec<Effect>)
    ensures
        effect_views(r@) == explored(ui, title@, texts(lines@)),
{
    let mut r: Vec<Effect> = Vec::new();
    if ui {
        let ghost ls = texts(lines@);
        r.push(Effect::Explore(title.to_owned(), lines));
        assert(effect_views(r@) =~= seq![EffectView::Explore(title@, ls)]);
        return r;
    }
    let ghost all = texts(lines@);
    let mut i: usize = 0;
    assert(effect_views(r@) =~= plain_lines(all.take(0)));
    while i < lines.len()
        invariant
            i <= lines@.len(),
            all == texts(lines@),
            effect_views(r@) == plain_lines(all.take(i as int)),
        decreases lines@.len() - i,
    {
        let ghost before = r@;
        let mut spans: Vec<Span> = Vec::new();
        spans.push(plain_span(lines[i].as_str()));
        assert(span_views(spans@) =~= seq![plain(all[i as int])]);
        let e = Effect::Line(spans);
        let ghost ev = e@;
        r.push(e);
        assert(effect_views(r@) =~= effect_views(before).push(ev));
        assert(plain_lines(all.take(i + 1)) =~= plain_lines(all.take(i as int)).push(ev));
        i = i + 1;
    }
    assert(all.take(all.len() as int) =~= all);
    r
}

} // verus!
