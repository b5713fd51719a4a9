//! Streaming display of session updates.
//!
//! Maps session updates to output with visually distinct formatting per type:
//! - Tool calls: blue name `->` light gray metadata (single line)
//! - LLM responses: purple model name `->` markdown-formatted text
//! - Errors: red name `->` bright red details
//! - Thinking: dim/gray, truncated to 100 chars
//! - Tool progress: suppressed (too noisy)

use vstd::prelude::*;

use crate::acp::markdown::{is_fence, line_plan, markdown_spans};
use crate::acp::summary::{
    cut_line, format_tool_summary, input_details, json_fields, summary, tool_details,
    truncate_to_line,
};
use crate::output::effect::{effect_views, Effect, EffectView, UiEvent, UiEventView};
use crate::output::style::{
    dim, dim_span, hued, hued_span, plain, plain_span, span_views, Hue, Span, Style,
};
use crate::text::basic::{chars_of, clone_opt, opt_text, slice_text, texts};
use crate::text::case::lowercase;
use crate::text::search::{contains, find_chars, find_from, lemma_find_least, occurs_at};
use crate::text::shape::{trim_start, trimmed_start, Class};

verus! {

/// Messages that describe session updates.
#[derive(Debug)]
pub enum SessionUpdateMsg {
    /// A chunk of agent-generated text content.
    AgentText(String),
    /// A chunk of agent reasoning / thought content.
    AgentThought(String),
    /// Tool calls follow.
    ToolCallPreamble,
    /// The agent invoked a tool.
    ToolCall { name: String, input: String, locations: Vec<String> },
    /// The input of a tool call arrived later.
    ToolCallDetail { name: String, detail_lines: Vec<String> },
    /// A tool call returned an error.
    ToolCallError { name: String, error: String },
    /// A tool call status/content update (streaming progress).
    ToolCallProgress { title: Option<String>, content: String },
    /// The session has finished (prompt completed).
    Finished,
}

/// What an update says.
pub enum UpdateView {
    AgentText(Seq<char>),
    AgentThought(Seq<char>),
    ToolCallPreamble,
    ToolCall(Seq<char>, Seq<char>, Seq<Seq<char>>),
    ToolCallDetail(Seq<Seq<char>>),
    ToolCallError(Seq<char>, Seq<char>),
    ToolCallProgress,
    Finished,
}

impl View for SessionUpdateMsg {
    type V = UpdateView;

    open spec fn view(&self) -> UpdateView {
        match self {
            SessionUpdateMsg::AgentText(t) => UpdateView::AgentText(t@),
            SessionUpdateMsg::AgentThought(t) => UpdateView::AgentThought(t@),
            SessionUpdateMsg::ToolCallPreamble => UpdateView::ToolCallPreamble,
            SessionUpdateMsg::ToolCall { name, input, locations } => UpdateView::ToolCall(
                name@,
                input@,
                texts(locations@),
            ),
            SessionUpdateMsg::ToolCallDetail { name, detail_lines } => UpdateView::ToolCallDetail(
                texts(detail_lines@),
            ),
            SessionUpdateMsg::ToolCallError { name, error } => UpdateView::ToolCallError(
                name@,
                error@,
            ),
            SessionUpdateMsg::ToolCallProgress { title, content } => UpdateView::ToolCallProgress,
            SessionUpdateMsg::Finished => UpdateView::Finished,
        }
    }
}

/// State carried across render calls within a single session.
///
/// Tracks the model name (for the `model ->` prefix), whether the current
/// text chunk is the first one after a tool call or session start, and a
/// line buffer for markdown formatting.
#[derive(Debug)]
pub struct RenderState {
    pub model_name: String,
    pub is_first_chunk: bool,
    pub line_buffer: String,
    pub in_code_block: bool,
    /// Tracks whether we are inside a multi-line sigil tag (e.g. `<journal>`).
    pub in_sigil: Option<String>,
}

/// What a render state holds.
pub struct RenderView {
    pub model_name: Seq<char>,
    pub is_first_chunk: bool,
    pub line_buffer: Seq<char>,
    pub in_code_block: bool,
    pub in_sigil: Option<Seq<char>>,
}

impl View for RenderState {
    type V = RenderView;

    open spec fn view(&self) -> RenderView {
        RenderView {
            model_name: self.model_name@,
            is_first_chunk: self.is_first_chunk,
            line_buffer: self.line_buffer@,
            in_code_block: self.in_code_block,
            in_sigil: opt_text(self.in_sigil),
        }
    }
}

impl RenderState {
    /// The state at the start of a session.
    pub fn new(model_name: String) -> (r: Self)
        ensures
            r@ == (RenderView {
                model_name: model_name@,
                is_first_chunk: true,
                line_buffer: Seq::empty(),
                in_code_block: false,
                in_sigil: None,
            }),
    {
        let r = RenderState {
            model_name,
            is_first_chunk: true,
            line_buffer: String::new(),
            in_code_block: false,
            in_sigil: None,
        };
        assert(r.line_buffer@ =~= Seq::empty());
        r
    }
}

/// Effects, and the state behind them.
pub struct Rendered {
    pub effects: Seq<EffectView>,
    pub state: RenderView,
}

/// The state behind a line.
pub open spec fn behind_line(st: RenderView, line: Seq<char>) -> RenderView {
    RenderView {
        in_code_block: if is_fence(line) {
            !st.in_code_block
        } else {
            st.in_code_block
        },
        in_sigil: line_plan(line, st.in_code_block, st.in_sigil).in_sigil,
        ..st
    }
}

/// The spans of a line.
pub open spec fn line_spans(st: RenderView, line: Seq<char>) -> Seq<(Style, Seq<char>)> {
    line_plan(line, st.in_code_block, st.in_sigil).spans
}

/// Shows all complete lines of the buffer; what is behind the last line end
/// stays in it.
pub open spec fn drained(st: RenderView) -> Rendered
    decreases st.line_buffer.len(),
{
    let b = st.line_buffer;
    match find_from(b, "\n"@, 0) {
        Some(i) => if 0 <= i < b.len() {
            let line = b.take(i);
            let rest = drained(RenderView { line_buffer: b.skip(i + 1), ..behind_line(st, line) });
            Rendered {
                effects: seq![EffectView::Line(line_spans(st, line))] + rest.effects,
                state: rest.state,
            }
        } else {
            Rendered { effects: Seq::empty(), state: st }
        },
        None => Rendered { effects: Seq::empty(), state: st },
    }
}

proof fn lemma_no_line_end(b: Seq<char>)
    requires
        find_from(b, "\n"@, 0) is None,
    ensures
        !b.contains('\n'),
{
    reveal_strlit("\n");
    lemma_find_least(b, "\n"@, 0);
    if b.contains('\n') {
        let k = choose|k: int| 0 <= k < b.len() && b[k] == '\n';
        assert(b.subrange(k, k + 1) =~= "\n"@);
        assert(occurs_at(b, "\n"@, k));
    }
}

proof fn lemma_line_end(b: Seq<char>)
    requires
        find_from(b, "\n"@, 0) is Some,
    ensures
        0 <= find_from(b, "\n"@, 0)->0 < b.len(),
{
    reveal_strlit("\n");
    lemma_find_least(b, "\n"@, 0);
}

/// Where the buffer holds a line, draining it is draining what follows the
/// line.
proof fn lemma_drained_step(st: RenderView) -> (next: RenderView)
    requires
        find_from(st.line_buffer, "\n"@, 0) is Some,
    ensures
        next.line_buffer == st.line_buffer.skip(find_from(st.line_buffer, "\n"@, 0)->0 + 1),
        drained(st).state == drained(next).state,
{
    let b = st.line_buffer;
    lemma_line_end(b);
    let i = find_from(b, "\n"@, 0)->0;
    RenderView { line_buffer: b.skip(i + 1), ..behind_line(st, b.take(i)) }
}

/// What stays in the buffer is the end of it, and has no line end.
pub proof fn law_drained_buffer(st: RenderView)
    ensures
        ({
            let left = drained(st).state.line_buffer;
            &&& left.len() <= st.line_buffer.len()
            &&& left == st.line_buffer.skip(st.line_buffer.len() - left.len())
            &&& !left.contains('\n')
        }),
    decreases st.line_buffer.len(),
{
    let b = st.line_buffer;
    match find_from(b, "\n"@, 0) {
        Some(i) => {
            lemma_line_end(b);
            let next = lemma_drained_step(st);
            law_drained_buffer(next);
            let left = drained(next).state.line_buffer;
            assert(b.skip(b.len() - left.len()) =~= b.skip(i + 1).skip(
                b.skip(i + 1).len() - left.len(),
            ));
        },
        None => {
            assert(b.skip(0) =~= b);
            lemma_no_line_end(b);
        },
    }
}

/// Shows what is left in the buffer, where anything is.
pub open spec fn flushed(st: RenderView) -> Rendered {
    if st.line_buffer.len() == 0 {
        Rendered { effects: Seq::empty(), state: st }
    } else {
        let b = st.line_buffer;
        Rendered {
            effects: seq![EffectView::Print(line_spans(st, b)), EffectView::Flush],
            state: RenderView { line_buffer: Seq::empty(), ..behind_line(st, b) },
        }
    }
}

/// The detail lines of a tool call.
pub open spec fn detail_effects(ui: bool, p: Seq<Seq<char>>) -> Seq<EffectView> {
    p.map_values(
        |t: Seq<char>|
            if ui {
                EffectView::Ui(UiEventView::ToolDetail(t))
            } else {
                EffectView::Line(
                    seq![plain("  "@), dim("|"@), plain(" "@), hued(Hue::BrightBlack, t)],
                )
            },
    )
}

/// A tool call with its summary and its detail lines.
pub open spec fn call_effects(
    ui: bool,
    name: Seq<char>,
    summary: Seq<char>,
    details: Seq<Seq<char>>,
) -> Seq<EffectView> {
    seq![
        if ui {
            EffectView::Ui(UiEventView::ToolActivity(name, summary))
        } else {
            EffectView::Line(
                seq![
                    hued(Hue::Blue, name),
                    plain(" "@),
                    dim("->"@),
                    plain(" "@),
                    hued(Hue::BrightBlack, summary),
                ],
            )
        },
    ] + detail_effects(ui, details)
}

/// What the dashboard shows of an update.
pub open spec fn ui_effects(u: UpdateView) -> Seq<EffectView> {
    match u {
        UpdateView::AgentText(t) => seq![EffectView::Ui(UiEventView::AgentText(t))],
        UpdateView::AgentThought(t) => if t.len() == 0 {
            Seq::empty()
        } else {
            seq![EffectView::Ui(UiEventView::AgentThinking(t))]
        },
        UpdateView::ToolCall(name, input, locations) => call_effects(
            true,
            name,
            summary(lowercase(name), input, json_fields(input), locations),
            input_details(name, input),
        ),
        UpdateView::ToolCallDetail(p) => detail_effects(true, p),
        UpdateView::ToolCallError(name, error) => seq![
            EffectView::Ui(UiEventView::LogError(name + ": "@ + error)),
        ],
        UpdateView::ToolCallPreamble | UpdateView::Finished => seq![
            EffectView::Ui(UiEventView::AgentText("\n"@)),
        ],
        UpdateView::ToolCallProgress => Seq::empty(),
    }
}

/// The prefix of an agent's text.
pub open spec fn model_prefix(model: Seq<char>) -> EffectView {
    EffectView::Print(
        seq![plain("\n"@), hued(Hue::Magenta, model), plain(" "@), dim("->"@), plain(" "@)],
    )
}

/// A chunk of text: the first gets the model in front, without leading white
/// space; one that is nothing but white space waits for more.
pub open spec fn text_step(st: RenderView, t: Seq<char>) -> Rendered {
    let shown = if st.is_first_chunk {
        trim_start(t, Class::Space)
    } else {
        t
    };
    if st.is_first_chunk && shown.len() == 0 {
        Rendered { effects: Seq::empty(), state: st }
    } else {
        let head = if st.is_first_chunk {
            seq![model_prefix(st.model_name)]
        } else {
            Seq::empty()
        };
        let d = drained(
            RenderView { is_first_chunk: false, line_buffer: st.line_buffer + shown, ..st },
        );
        Rendered { effects: head + d.effects + seq![EffectView::Flush], state: d.state }
    }
}

/// What is shown of an update, and the state behind it.
pub open spec fn render_step(ui: bool, u: UpdateView, st: RenderView) -> Rendered {
    if ui {
        Rendered { effects: ui_effects(u), state: st }
    } else {
        match u {
            UpdateView::AgentText(t) => text_step(st, t),
            UpdateView::AgentThought(t) => Rendered {
                effects: if cut_line(t, 100).len() == 0 {
                    Seq::empty()
                } else {
                    seq![EffectView::Print(seq![dim(cut_line(t, 100))]), EffectView::Flush]
                },
                state: st,
            },
            UpdateView::ToolCallPreamble => Rendered {
                effects: flushed(st).effects + (if st.is_first_chunk {
                    Seq::empty()
                } else {
                    seq![EffectView::Line(Seq::empty())]
                }),
                state: RenderView { is_first_chunk: true, ..flushed(st).state },
            },
            UpdateView::ToolCall(name, input, locations) => Rendered {
                effects: call_effects(
                    false,
                    name,
                    summary(lowercase(name), input, json_fields(input), locations),
                    input_details(name, input),
                ),
                state: st,
            },
            UpdateView::ToolCallDetail(p) => Rendered {
                effects: detail_effects(false, p),
                state: st,
            },
            UpdateView::ToolCallError(name, error) => Rendered {
                effects: seq![
                    EffectView::ErrLine(
                        seq![
                            hued(Hue::Red, "ERROR"@),
                            plain(" "@),
                            dim("->"@),
                            plain(" "@),
                            hued(Hue::BrightRed, name + ": "@ + error),
                        ],
                    ),
                ],
                state: st,
            },
            UpdateView::ToolCallProgress => Rendered { effects: Seq::empty(), state: st },
            UpdateView::Finished => Rendered {
                effects: flushed(st).effects + seq![
                    EffectView::Line(Seq::empty()),
                    EffectView::Flush,
                ],
                state: flushed(st).state,
            },
        }
    }
}

/// Adds an effect to a list.
fn push_effect(out: &mut Vec<Effect>, e: Effect)
    ensures
        effect_views(final(out)@) == effect_views(old(out)@).push(e@),
{
    let ghost before = out@;
    let ghost ev = e@;
    out.push(e);
    assert(effect_views(out@) =~= effect_views(before).push(ev));
}

/// Shows the detail lines of a tool call.
fn push_details(out: &mut Vec<Effect>, ui: bool, lines: &Vec<String>)
    ensures
        effect_views(final(out)@) == effect_views(old(out)@) + detail_effects(ui, texts(lines@)),
{
    let ghost start = effect_views(out@);
    let ghost all = texts(lines@);
    let ghost goal = detail_effects(ui, all);
    let mut i: usize = 0;
    assert(effect_views(out@) =~= start + goal.take(0));
    while i < lines.len()
        invariant
            i <= lines@.len(),
            all == texts(lines@),
            goal == detail_effects(ui, all),
            effect_views(out@) == start + goal.take(i as int),
        decreases lines@.len() - i,
    {
        assert(all[i as int] == lines@[i as int]@);
        if ui {
            push_effect(out, Effect::Ui(UiEvent::ToolDetail(lines[i].clone())));
        } else {
            let mut spans: Vec<Span> = Vec::new();
            spans.push(plain_span("  "));
            spans.push(dim_span("|"));
            spans.push(plain_span(" "));
            spans.push(hued_span(Hue::BrightBlack, lines[i].as_str()));
            assert(span_views(spans@) =~= seq![
                plain("  "@),
                dim("|"@),
                plain(" "@),
                hued(Hue::BrightBlack, all[i as int]),
            ]);
            push_effect(out, Effect::Line(spans));
        }
        assert(goal.take(i + 1) =~= goal.take(i as int).push(goal[i as int]));
        assert(start + goal.take(i + 1) =~= (start + goal.take(i as int)).push(goal[i as int]));
        i = i + 1;
    }
    assert(goal.take(goal.len() as int) =~= goal);
}

/// Shows a tool call with its summary and its detail lines.
pub fn render_tool_call(ui: bool, name: &str, summary: &str, details: &Vec<String>) -> (r: Vec<
    Effect,
>)
    ensures
        effect_views(r@) == call_effects(ui, name@, summary@, texts(details@)),
{
    let mut out: Vec<Effect> = Vec::new();
    assert(effect_views(out@) =~= Seq::empty());
    if ui {
        push_effect(
            &mut out,
            Effect::Ui(UiEvent::ToolActivity(name.to_owned(), summary.to_owned())),
        );
    } else {
        let mut spans: Vec<Span> = Vec::new();
        spans.push(hued_span(Hue::Blue, name));
        spans.push(plain_span(" "));
        spans.push(dim_span("->"));
        spans.push(plain_span(" "));
        spans.push(hued_span(Hue::BrightBlack, summary));
        assert(span_views(spans@) =~= seq![
            hued(Hue::Blue, name@),
            plain(" "@),
            dim("->"@),
            plain(" "@),
            hued(Hue::BrightBlack, summary@),
        ]);
        push_effect(&mut out, Effect::Line(spans));
    }
    push_details(&mut out, ui, details);
    assert(effect_views(out@) =~= call_effects(ui, name@, summary@, texts(details@)));
    out
}

impl RenderState {
    /// Works out how a line is shown, and goes behind it.
    fn show_line(&mut self, line: &str) -> (r: Vec<Span>)
        ensures
            span_views(r@) == line_spans(old(self)@, line@),
            final(self)@ == behind_line(old(self)@, line@),
    {
        let mut in_code = self.in_code_block;
        let mut in_sigil = clone_opt(&self.in_sigil);
        let spans = markdown_spans(line, &mut in_code, &mut in_sigil);
        self.in_code_block = in_code;
        self.in_sigil = in_sigil;
        spans
    }

    /// Shows all complete lines of the buffer.
    fn drain_lines(&mut self, out: &mut Vec<Effect>)
        ensures
            effect_views(final(out)@) == effect_views(old(out)@) + drained(old(self)@).effects,
            final(self)@ == drained(old(self)@).state,
    {
        let ghost goal = drained(self@);
        let ghost start = effect_views(out@);
        let nl = chars_of("\n");
        proof {
            reveal_strlit("\n");
        }
        assert(start + goal.effects =~= effect_views(out@) + drained(self@).effects);
        let mut go = true;
        while go
            invariant
                nl@ == "\n"@,
                nl@.len() == 1,
                drained(self@).state == goal.state,
                effect_views(out@) + drained(self@).effects == start + goal.effects,
                !go ==> drained(self@).effects.len() == 0 && drained(self@).state == self@,
            decreases self.line_buffer@.len() + (if go { 1int } else { 0int }),
        {
            let ghost before = self@;
            let ghost shown = effect_views(out@);
            let cs = chars_of(self.line_buffer.as_str());
            let n: usize = cs.len();
            match find_chars(&cs, &nl, 0) {
                Some(i) => {
                    let line = slice_text(&cs, 0, i);
                    assert(line@ =~= before.line_buffer.take(i as int));
                    let rest = slice_text(&cs, i + 1, n);
                    assert(rest@ =~= before.line_buffer.skip(i + 1));
                    let spans = self.show_line(line.as_str());
                    self.line_buffer = rest;
                    push_effect(out, Effect::Line(spans));
                    assert(drained(before).effects == seq![
                        EffectView::Line(line_spans(before, line@)),
                    ] + drained(self@).effects);
                    assert(effect_views(out@) + drained(self@).effects =~= shown + drained(
                        before,
                    ).effects);
                },
                None => {
                    go = false;
                },
            }
        }
        assert(effect_views(out@) =~= start + goal.effects);
    }

    /// Shows what is left in the buffer, where anything is.
    fn flush_line_buffer(&mut self, out: &mut Vec<Effect>)
        ensures
            effect_views(final(out)@) == effect_views(old(out)@) + flushed(old(self)@).effects,
            final(self)@ == flushed(old(self)@).state,
    {
        let ghost before = self@;
        let ghost start = effect_views(out@);
        if !self.line_buffer.as_str().is_empty() {
            let line = self.line_buffer.clone();
            let spans = self.show_line(line.as_str());
            self.line_buffer = String::new();
            assert(self.line_buffer@ =~= Seq::empty());
            push_effect(out, Effect::Print(spans));
            push_effect(out, Effect::Flush);
        }
        assert(effect_views(out@) =~= start + flushed(before).effects);
    }

    /// Shows a chunk of the agent's text.
    fn render_text(&mut self, text: &str) -> (r: Vec<Effect>)
        ensures
            effect_views(r@) == text_step(old(self)@, text@).effects,
            final(self)@ == text_step(old(self)@, text@).state,
    {
        let ghost before = self@;
        let mut out: Vec<Effect> = Vec::new();
        assert(effect_views(out@) =~= Seq::empty());
        let shown = if self.is_first_chunk {
            trimmed_start(text, Class::Space)
        } else {
            text.to_owned()
        };
        let ghost head = if before.is_first_chunk {
            seq![model_prefix(before.model_name)]
        } else {
            Seq::empty()
        };
        if self.is_first_chunk {
            if shown.as_str().is_empty() {
                return out;
            }
            let mut spans: Vec<Span> = Vec::new();
            spans.push(plain_span("\n"));
            spans.push(hued_span(Hue::Magenta, self.model_name.as_str()));
            spans.push(plain_span(" "));
            spans.push(dim_span("->"));
            spans.push(plain_span(" "));
            assert(span_views(spans@) =~= seq![
                plain("\n"@),
                hued(Hue::Magenta, before.model_name),
                plain(" "@),
                dim("->"@),
                plain(" "@),
            ]);
            push_effect(&mut out, Effect::Print(spans));
            self.is_first_chunk = false;
        }
        assert(effect_views(out@) =~= head);
        self.line_buffer.append(shown.as_str());
        let ghost mid = self@;
        self.drain_lines(&mut out);
        push_effect(&mut out, Effect::Flush);
        assert(effect_views(out@) =~= head + drained(mid).effects + seq![EffectView::Flush]);
        out
    }
}

/// Renders a single session update: what is to be shown, in order, while the
/// state goes on.
///
/// - `AgentText`: model prefix on first chunk, then markdown-formatted
/// - `AgentThought`: dim/gray, truncated to 100 chars
/// - `ToolCallPreamble`: flush text buffer, newline separator, reset first chunk
/// - `ToolCall`: summary and detail lines
/// - `ToolCallError`: name and error in red
/// - `ToolCallProgress`: suppressed
/// - `Finished`: flush buffer and newline
#[verifier::rlimit(60)]
pub fn render_session_update(ui: bool, update: &SessionUpdateMsg, state: &mut RenderState) -> (r:
    Vec<Effect>)
    ensures
        effect_views(r@) == render_step(ui, update@, old(state)@).effects,
        final(state)@ == render_step(ui, update@, old(state)@).state,
{
    let ghost before = state@;
    let ghost goal = render_step(ui, update@, before);
    let mut out: Vec<Effect> = Vec::new();
    assert(effect_views(out@) =~= Seq::empty());
    match update {
        SessionUpdateMsg::AgentText(text) => {
            if ui {
                push_effect(&mut out, Effect::Ui(UiEvent::AgentText(text.clone())));
            } else {
                return state.render_text(text.as_str());
            }
        },
        SessionUpdateMsg::AgentThought(text) => {
            if ui {
                if !text.as_str().is_empty() {
                    push_effect(&mut out, Effect::Ui(UiEvent::AgentThinking(text.clone())));
                }
            } else {
                let cut = truncate_to_line(text.as_str(), 100);
                if !cut.as_str().is_empty() {
                    let mut spans: Vec<Span> = Vec::new();
                    spans.push(dim_span(cut.as_str()));
                    assert(span_views(spans@) =~= seq![dim(cut@)]);
                    push_effect(&mut out, Effect::Print(spans));
                    push_effect(&mut out, Effect::Flush);
                }
            }
        },
        SessionUpdateMsg::ToolCallPreamble => {
            if ui {
                push_effect(&mut out, Effect::Ui(UiEvent::AgentText("\n".to_owned())));
            } else {
                let was_streaming = !state.is_first_chunk;
                state.flush_line_buffer(&mut out);
                if was_streaming {
                    let none: Vec<Span> = Vec::new();
                    assert(span_views(none@) =~= Seq::empty());
                    push_effect(&mut out, Effect::Line(none));
                }
                state.is_first_chunk = true;
            }
        },
        SessionUpdateMsg::ToolCall { name, input, locations } => {
            let line = format_tool_summary(name.as_str(), input.as_str(), locations);
            let details = tool_details(name.as_str(), input.as_str());
            return render_tool_call(ui, name.as_str(), line.as_str(), &details);
        },
        SessionUpdateMsg::ToolCallDetail { name, detail_lines } => {
            push_details(&mut out, ui, detail_lines);
        },
        SessionUpdateMsg::ToolCallError { name, error } => {
            let mut text = name.clone();
            text.append(": ");
            text.append(error.as_str());
            if ui {
                push_effect(&mut out, Effect::Ui(UiEvent::LogError(text)));
            } else {
                let mut spans: Vec<Span> = Vec::new();
                spans.push(hued_span(Hue::Red, "ERROR"));
                spans.push(plain_span(" "));
                spans.push(dim_span("->"));
                spans.push(plain_span(" "));
                spans.push(hued_span(Hue::BrightRed, text.as_str()));
                assert(span_views(spans@) =~= seq![
                    hued(Hue::Red, "ERROR"@),
                    plain(" "@),
                    dim("->"@),
                    plain(" "@),
                    hued(Hue::BrightRed, name@ + ": "@ + error@),
                ]);
                push_effect(&mut out, Effect::ErrLine(spans));
            }
        },
        SessionUpdateMsg::ToolCallProgress { title, content } => {},
        SessionUpdateMsg::Finished => {
            if ui {
                push_effect(&mut out, Effect::Ui(UiEvent::AgentText("\n".to_owned())));
            } else {
                state.flush_line_buffer(&mut out);
                let none: Vec<Span> = Vec::new();
                assert(span_views(none@) =~= Seq::empty());
                push_effect(&mut out, Effect::Line(none));
                push_effect(&mut out, Effect::Flush);
            }
        },
    }
    assert(effect_views(out@) =~= goal.effects);
    out
}

} // verus!
