//! Interactive sessions: what the user types, and when a session ends.

use vstd::prelude::*;

use crate::acp::sigils::{extract_interactive_sigils, phase_complete, tasks_created};
use crate::interrupt::feedback_line;
use crate::output::effect::{Effect, EffectView};
use crate::output::style::{hued, hued_span, plain, plain_span, span_views, Hue, Span};
use crate::text::basic::texts;
use crate::text::laws::law_join;
use crate::text::shape::{join, joined, trim_end, Class};

verus! {

/// What the user entered.
#[derive(Debug)]
pub enum MultilineResult {
    Input(String),
    Exit,
    Interrupted,
}

/// What the user entered, by its text.
pub enum MultilineView {
    Input(Seq<char>),
    Exit,
    Interrupted,
}

impl View for MultilineResult {
    type V = MultilineView;

    open spec fn view(&self) -> MultilineView {
        match self {
            MultilineResult::Input(t) => MultilineView::Input(t@),
            MultilineResult::Exit => MultilineView::Exit,
            MultilineResult::Interrupted => MultilineView::Interrupted,
        }
    }
}

/// The lines that the user has entered so far.
#[derive(Debug)]
pub struct MultilineInput {
    pub lines: Vec<String>,
}

/// A line without its line end.
pub open spec fn bare_line(line: Seq<char>) -> Seq<char> {
    trim_end(trim_end(line, Class::Only('\n')), Class::Only('\r'))
}

/// The input is over at the end of the file and at an empty line: it is sent,
/// or, where there is nothing yet, the session is left.
pub open spec fn input_over(lines: Seq<Seq<char>>) -> MultilineView {
    if lines.len() == 0 {
        MultilineView::Exit
    } else {
        MultilineView::Input(join(lines, "\n"@))
    }
}

impl MultilineInput {
    /// No line so far.
    pub fn new() -> (r: Self)
        ensures
            texts(r.lines@) == Seq::<Seq<char>>::empty(),
    {
        let r = MultilineInput { lines: Vec::new() };
        assert(texts(r.lines@) =~= Seq::empty());
        r
    }

    /// The prompt in front of the next line.
    pub fn prompt(&self) -> (r: Effect)
        ensures
            r@ == EffectView::Print(
                if self.lines@.len() == 0 {
                    seq![plain("\n"@), hued(Hue::BrightCyan, ">"@), plain(" "@)]
                } else {
                    seq![hued(Hue::BrightBlack, "|"@), plain(" "@)]
                },
            ),
    {
        let mut spans: Vec<Span> = Vec::new();
        if self.lines.len() == 0 {
            spans.push(plain_span("\n"));
            spans.push(hued_span(Hue::BrightCyan, ">"));
            spans.push(plain_span(" "));
            assert(span_views(spans@) =~= seq![
                plain("\n"@),
                hued(Hue::BrightCyan, ">"@),
                plain(" "@),
            ]);
        } else {
            spans.push(hued_span(Hue::BrightBlack, "|"));
            spans.push(plain_span(" "));
            assert(span_views(spans@) =~= seq![hued(Hue::BrightBlack, "|"@), plain(" "@)]);
        }
        Effect::Print(spans)
    }

    /// Takes the next line in; none at the end of the file. Gives the input
    /// once it is over.
    pub fn take_line(&mut self, line: Option<&str>) -> (r: Option<MultilineResult>)
        ensures
            ({
                let over = match line {
                    None => true,
                    Some(l) => bare_line(l@).len() == 0,
                };
                if over {
                    r is Some && r->0@ == input_over(texts(old(self).lines@))
                        && final(self).lines@ == old(self).lines@
                } else {
                    r is None && texts(final(self).lines@) == texts(old(self).lines@).push(
                        bare_line(line->0@),
                    )
                }
            }),
    {
        let next = match line {
            Some(l) => feedback_line(l),
            None => None,
        };
        match next {
            Some(l) => {
                let ghost before = self.lines@;
                let ghost lv = l@;
                self.lines.push(l);
                assert(texts(self.lines@) =~= texts(before).push(lv));
                None
            },
            None => {
                assert(texts(self.lines@).len() == self.lines@.len());
                if self.lines.len() == 0 {
                    Some(MultilineResult::Exit)
                } else {
                    Some(MultilineResult::Input(joined(&self.lines, "\n")))
                }
            },
        }
    }
}

/// What happened in an interactive session.
#[derive(Debug)]
pub enum SessionEvent {
    /// The agent answered; this is all its text so far.
    Answered(String),
    /// The prompt failed.
    Failed,
    /// The user interrupted the agent.
    Interrupted,
    /// The user entered something; the flag says whether an interrupt came with
    /// it.
    Entered(MultilineResult, bool),
}

/// What is to be done in an interactive session.
#[derive(Debug)]
pub enum SessionAction {
    /// Ask the user.
    Ask,
    /// Send a prompt.
    Send(String),
    /// End the session.
    Finish,
    /// Cancel the prompt and end the session.
    CancelAndFinish,
}

/// The agent's text says that its work is complete.
pub open spec fn signals_end(text: Seq<char>) -> bool {
    phase_complete(text) is Some || tasks_created(text)
}

/// What follows from an event. A session ends on its own where the agent
/// reports a completed phase or created tasks.
pub fn next_action(event: SessionEvent) -> (r: SessionAction)
    ensures
        match event {
            SessionEvent::Answered(text) => if signals_end(text@) {
                r is Finish
            } else {
                r is Ask
            },
            SessionEvent::Failed => r is Finish,
            SessionEvent::Interrupted => r is CancelAndFinish,
            SessionEvent::Entered(MultilineResult::Input(t), interrupted) => if interrupted {
                r is CancelAndFinish
            } else {
                r is Send && r->Send_0@ == t@
            },
            SessionEvent::Entered(MultilineResult::Exit, _) => r is Finish,
            SessionEvent::Entered(MultilineResult::Interrupted, _) => r is CancelAndFinish,
        },
{
    match event {
        SessionEvent::Answered(text) => {
            let found = extract_interactive_sigils(text.as_str());
            if found.phase_complete.is_some() || found.tasks_created {
                SessionAction::Finish
            } else {
                SessionAction::Ask
            }
        },
        SessionEvent::Failed => SessionAction::Finish,
        SessionEvent::Interrupted => SessionAction::CancelAndFinish,
        SessionEvent::Entered(entered, interrupted) => match entered {
            MultilineResult::Input(t) => if interrupted {
                SessionAction::CancelAndFinish
            } else {
                SessionAction::Send(t)
            },
            MultilineResult::Exit => SessionAction::Finish,
            MultilineResult::Interrupted => SessionAction::CancelAndFinish,
        },
    }
}

/// A line counts without its line end; lines that were entered are sent with a
/// line end between each two, and where there are none the session is left.
pub proof fn law_entered_lines(line: Seq<char>, lines: Seq<Seq<char>>)
    requires
        line.len() == 0 || line.last() != '\n' && line.last() != '\r',
    ensures
        bare_line(line) == line,
        bare_line(line.push('\n')) == line,
        bare_line(line.push('\r').push('\n')) == line,
        input_over(Seq::empty()) is Exit,
        input_over(seq![line]) == MultilineView::Input(line),
        lines.len() > 0 ==> input_over(lines) is Input && input_over(lines.push(line))
            == MultilineView::Input(input_over(lines)->Input_0 + "\n"@ + line),
{
    let a = line.push('\n');
    let b = line.push('\r');
    let c = b.push('\n');
    assert(a.drop_last() =~= line && b.drop_last() =~= line && c.drop_last() =~= b);
    assert(trim_end(a, Class::Only('\n')) == trim_end(line, Class::Only('\n')));
    assert(trim_end(c, Class::Only('\n')) == trim_end(b, Class::Only('\n')));
    assert(trim_end(b, Class::Only('\r')) == trim_end(line, Class::Only('\r')));
    law_join(lines, line, "\n"@);
}

} // verus!
