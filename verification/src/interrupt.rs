//! Interrupt flags, feedback collection and description changes for mid-loop
//! interrupt support.

use vstd::prelude::*;

use crate::text::basic::{same, texts};
use crate::text::case::{lower, lowercase};
use crate::text::number::{decimal, decimal_text};
use crate::text::shape::{join, joined, trim, trim_end, trimmed, trimmed_end, Class};

verus! {

/// The exit code of a hard shutdown on a repeated SIGINT.
pub const SHUTDOWN_CODE: i32 = 130;

/// The interrupt flags of a run.
///
/// The shutdown flag is apart from the interrupt flag: a Ctrl+C that the user
/// interface reads sets the interrupt flag alone, so that a later signal is not
/// taken for a repeated one.
#[derive(Debug, Clone, Copy, PartialEq, Eq, Structural)]
pub struct InterruptFlags {
    pub interrupt: bool,
    pub shutdown: bool,
}

impl InterruptFlags {
    /// The flags before any interrupt.
    pub fn new() -> (r: Self)
        ensures
            r == (InterruptFlags { interrupt: false, shutdown: false }),
    {
        InterruptFlags { interrupt: false, shutdown: false }
    }

    /// Whether the interrupt flag is set.
    pub fn is_interrupted(&self) -> (r: bool)
        ensures
            r == self.interrupt,
    {
        self.interrupt
    }

    /// Clears the flags so the next iteration starts clean.
    pub fn clear_interrupt(&mut self)
        ensures
            *final(self) == (InterruptFlags { interrupt: false, shutdown: false }),
    {
        self.interrupt = false;
        self.shutdown = false;
    }

    /// Sets the interrupt flag programmatically.
    pub fn request_interrupt(&mut self)
        ensures
            *final(self) == (InterruptFlags { interrupt: true, ..*old(self) }),
    {
        self.interrupt = true;
    }

    /// A SIGINT arrived: the first sets both flags, one that finds the shutdown
    /// flag set ends the process with the code that is given.
    pub fn on_signal(&mut self) -> (r: Option<i32>)
        ensures
            r == (if old(self).shutdown {
                Some(SHUTDOWN_CODE)
            } else {
                None
            }),
            r is Some ==> r->0 == 130,
            *final(self) == (InterruptFlags { interrupt: true, shutdown: true }),
    {
        let ends = if self.shutdown {
            Some(SHUTDOWN_CODE)
        } else {
            None
        };
        self.interrupt = true;
        self.shutdown = true;
        ends
    }
}

/// A line of feedback without its line end; none where it is empty, which ends
/// the feedback.
pub fn feedback_line(line: &str) -> (r: Option<String>)
    ensures
        ({
            let t = trim_end(trim_end(line@, Class::Only('\n')), Class::Only('\r'));
            match r {
                Some(s) => s@ == t && t.len() > 0,
                None => t.len() == 0,
            }
        }),
{
    let t = trimmed_end(trimmed_end(line, Class::Only('\n')).as_str(), Class::Only('\r'));
    if t.as_str().is_empty() {
        None
    } else {
        Some(t)
    }
}

/// The lines of feedback as one text; none where there is no line.
pub fn feedback_text(lines: &Vec<String>) -> (r: Option<String>)
    ensures
        match r {
            Some(s) => lines@.len() > 0 && s@ == join(texts(lines@), "\n"@),
            None => lines@.len() == 0,
        },
{
    if lines.len() == 0 {
        None
    } else {
        Some(joined(lines, "\n"))
    }
}

/// The feedback that was typed into a form; none where it is blank.
pub fn form_feedback(text: String) -> (r: Option<String>)
    ensures
        match r {
            Some(s) => s@ == text@ && trim(text@).len() > 0,
            None => trim(text@).len() == 0,
        },
{
    if trimmed(text.as_str()).as_str().is_empty() {
        None
    } else {
        Some(text)
    }
}

/// The description with feedback behind it.
pub open spec fn with_feedback(
    description: Seq<char>,
    feedback: Seq<char>,
    iteration: u32,
) -> Seq<char> {
    description + "\n\n---\n**User Guidance (iteration "@ + decimal(iteration as nat) + "):**\n"@
        + feedback + "\n---"@
}

/// Interventions stack at the end; the original description stays at the top.
pub proof fn law_feedback_stacks(
    description: Seq<char>,
    first: Seq<char>,
    a: u32,
    second: Seq<char>,
    b: u32,
)
    ensures
        ({
            let once = with_feedback(description, first, a);
            let twice = with_feedback(once, second, b);
            &&& description.is_prefix_of(once)
            &&& once.is_prefix_of(twice)
            &&& description.is_prefix_of(twice)
        }),
{
    let once = with_feedback(description, first, a);
    let twice = with_feedback(once, second, b);
    assert(once.subrange(0, description.len() as int) =~= description);
    assert(twice.subrange(0, once.len() as int) =~= once);
    assert(twice.subrange(0, description.len() as int) =~= description);
}

/// The feedback stands behind the description, between two rules, under a line
/// that tells the iteration.
pub proof fn law_feedback_is_marked(
    description: Seq<char>,
    feedback: Seq<char>,
    iteration: u32,
)
    ensures
        ({
            let r = with_feedback(description, feedback, iteration);
            r.skip(description.len() as int) == "\n\n---\n**User Guidance (iteration "@ + decimal(
                iteration as nat,
            ) + "):**\n"@ + feedback + "\n---"@
        }),
{
    let r = with_feedback(description, feedback, iteration);
    assert(r.skip(description.len() as int) =~= "\n\n---\n**User Guidance (iteration "@ + decimal(
        iteration as nat,
    ) + "):**\n"@ + feedback + "\n---"@);
}

/// Only nothing, `y` and `yes` ask to go on.
pub proof fn law_only_yes_goes_on(answer: Seq<char>)
    ensures
        is_yes(answer) <==> answer.len() == 0 || (answer.len() == 1 && answer[0] == 'y') || (
        answer.len() == 3 && answer[0] == 'y' && answer[1] == 'e' && answer[2] == 's'),
{
    reveal_strlit("y");
    reveal_strlit("yes");
    if answer.len() == 1 && answer[0] == 'y' {
        assert(answer =~= "y"@);
    }
    if answer.len() == 3 && answer[0] == 'y' && answer[1] == 'e' && answer[2] == 's' {
        assert(answer =~= "yes"@);
    }
}

/// Appends user feedback to a task description with a clear delimiter.
///
/// Multiple interventions stack at the end; the original description stays
/// at the top.
pub fn append_feedback_to_description(description: &str, feedback: &str, iteration: u32) -> (r:
    String)
    ensures
        r@ == with_feedback(description@, feedback@, iteration),
{
    let mut r = description.to_owned();
    r.append("\n\n---\n**User Guidance (iteration ");
    r.append(decimal_text(iteration as u64).as_str());
    r.append("):**\n");
    r.append(feedback);
    r.append("\n---");
    r
}

/// The answer, trimmed and in lower case, asks to go on: it is empty, `y` or
/// `yes`.
pub open spec fn is_yes(answer: Seq<char>) -> bool {
    answer.len() == 0 || answer == "y"@ || answer == "yes"@
}

/// Whether the answer, trimmed and in lower case, asks to go on.
pub fn says_yes(answer: &str) -> (r: bool)
    ensures
        r == is_yes(answer@),
{
    answer.is_empty() || same(answer, "y") || same(answer, "yes")
}

/// Whether the run loop continues, by what the user typed: `true` for "Y"
/// (default) or `false` for "n".
pub fn should_continue(input: &str) -> (r: bool)
    ensures
        r == is_yes(lowercase(trim(input@))),
{
    says_yes(lower(trimmed(input).as_str()).as_str())
}

} // verus!
