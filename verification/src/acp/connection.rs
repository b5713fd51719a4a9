//! Agent sessions: the agent's command, its environment, the noise it writes to
//! standard error, and what a finished prompt means.

use vstd::prelude::*;

use crate::acp::types::{RunResult, StopReason, StreamingResult};
use crate::text::basic::{chars_of, texts};
use crate::text::number::{decimal, decimal_text};
use crate::text::search::{begins, contains, has, starts_with};

verus! {

/// Options for restricting a session's capabilities.
#[derive(Debug)]
pub struct SessionRestrictions {
    /// If `false`, terminal (bash) capability is disabled.
    pub allow_terminal: bool,
    /// If set, file writes are restricted to only these paths.
    pub allowed_write_paths: Option<Vec<String>>,
}

impl Default for SessionRestrictions {
    fn default() -> (r: Self)
        ensures
            !r.allow_terminal,
            r.allowed_write_paths is None,
    {
        SessionRestrictions { allow_terminal: false, allowed_write_paths: None }
    }
}

/// The words of a shell command; none where a quote is not closed or an escape
/// not finished.
pub uninterp spec fn shell_words(command: Seq<char>) -> Option<Seq<Seq<char>>>;

/// `shlex::split` splits a text into words by the rules of the POSIX shell, and
/// gives nothing for an erroneous text. It depends on the text alone.
#[verifier::external_body]
fn split_words(command: &str) -> (r: Option<Vec<String>>)
    ensures
        match r {
            Some(v) => shell_words(command@) == Some(texts(v@)),
            None => shell_words(command@) is None,
        },
{
    shlex::split(command)
}

/// Takes the words of an agent command, where it could be split, apart into
/// program and arguments.
pub fn command_parts(command: &str, words: Option<Vec<String>>) -> (r: Result<
    (String, Vec<String>),
    String,
>)
    ensures
        match words {
            None => r is Err && r->Err_0@ == "invalid agent command: failed to parse \""@
                + command@ + "\""@,
            Some(v) => if v@.len() == 0 {
                r is Err && r->Err_0@ == "agent command is empty"@
            } else {
                r matches Ok((program, args)) && program@ == v@[0]@ && texts(args@) == texts(
                    v@,
                ).skip(1)
            },
        },
{
    match words {
        None => {
            let mut e = "invalid agent command: failed to parse \"".to_owned();
            e.append(command);
            e.append("\"");
            Err(e)
        },
        Some(v) => {
            if v.len() == 0 {
                return Err("agent command is empty".to_owned());
            }
            let ghost all = texts(v@);
            let program = v[0].clone();
            let mut args: Vec<String> = Vec::new();
            let mut i: usize = 1;
            assert(texts(args@) =~= all.subrange(1, 1));
            while i < v.len()
                invariant
                    1 <= i <= v@.len(),
                    all == texts(v@),
                    texts(args@) == all.subrange(1, i as int),
                decreases v@.len() - i,
            {
                let ghost before = args@;
                assert(all[i as int] == v@[i as int]@);
                args.push(v[i].clone());
                assert(texts(args@) =~= texts(before).push(all[i as int]));
                assert(all.subrange(1, i + 1) =~= all.subrange(1, i as int).push(all[i as int]));
                i = i + 1;
            }
            assert(all.subrange(1, all.len() as int) =~= all.skip(1));
            Ok((program, args))
        },
    }
}

/// Parses the agent command string into (program, args), with POSIX-style shell
/// tokenisation that supports quoted arguments and escaped spaces.
pub fn parse_agent_command(command: &str) -> (r: Result<(String, Vec<String>), String>)
    ensures
        match shell_words(command@) {
            None => r is Err && r->Err_0@ == "invalid agent command: failed to parse \""@
                + command@ + "\""@,
            Some(w) => if w.len() == 0 {
                r is Err && r->Err_0@ == "agent command is empty"@
            } else {
                r matches Ok((program, args)) && program@ == w[0] && texts(args@) == w.skip(1)
            },
        },
{
    let words = split_words(command);
    proof {
        if words is Some {
            let v = words->0;
            assert(texts(v@).len() == v@.len());
            if v@.len() > 0 {
                assert(texts(v@)[0] == v@[0]@);
            }
        }
    }
    command_parts(command, words)
}

/// The model that a session's environment names: the override, or else the
/// session's model.
pub fn session_model(model_override: Option<&str>, model: &str) -> (r: String)
    ensures
        r@ == (match model_override {
            Some(m) => m@,
            None => model@,
        }),
{
    match model_override {
        Some(m) => m.to_owned(),
        None => model.to_owned(),
    }
}

/// The environment variables of an agent process.
pub fn session_env(model: &str, iteration: u32, total: u32) -> (r: Vec<(String, String)>)
    ensures
        r@.len() == 3,
        r@[0].0@ == "RALPH_MODEL"@,
        r@[0].1@ == model@,
        r@[1].0@ == "RALPH_ITERATION"@,
        r@[1].1@ == decimal(iteration as nat),
        r@[2].0@ == "RALPH_TOTAL"@,
        r@[2].1@ == decimal(total as nat),
{
    let mut r: Vec<(String, String)> = Vec::new();
    r.push(("RALPH_MODEL".to_owned(), model.to_owned()));
    r.push(("RALPH_ITERATION".to_owned(), decimal_text(iteration as u64)));
    r.push(("RALPH_TOTAL".to_owned(), decimal_text(total as u64)));
    r
}

/// The single prompt that instructions and a message become.
pub open spec fn prompt_of(instructions: Seq<char>, message: Seq<char>) -> Seq<char> {
    instructions + "\n\n---\n\n"@ + message
}

/// Joins instructions and a message into a single prompt.
pub fn join_prompt(instructions: &str, message: &str) -> (r: String)
    ensures
        r@ == prompt_of(instructions@, message@),
{
    let mut r = instructions.to_owned();
    r.append("\n\n---\n\n");
    r.append(message);
    r
}

/// The net change of depth by the first `n` characters: `{` adds 1, `}`
/// subtracts 1.
pub open spec fn braces(s: Seq<char>) -> int
    decreases s.len(),
{
    if s.len() == 0 {
        0
    } else {
        braces(s.drop_last()) + (if s.last() == '{' {
            1int
        } else if s.last() == '}' {
            -1int
        } else {
            0int
        })
    }
}

/// Counts net brace depth change in a line: `{` adds 1, `}` subtracts 1.
pub fn count_braces(line: &str) -> (r: i128)
    ensures
        r == braces(line@),
        -0x1_0000_0000_0000_0000 < r < 0x1_0000_0000_0000_0000,
{
    let cs = chars_of(line);
    let n: usize = cs.len();
    let mut depth: i128 = 0;
    let mut i: usize = 0;
    assert(cs@.take(0) =~= Seq::empty());
    while i < n
        invariant
            i <= n,
            n == cs@.len(),
            depth == braces(cs@.take(i as int)),
            -(i as int) <= depth <= i,
        decreases n - i,
    {
        assert(cs@.take(i + 1).drop_last() =~= cs@.take(i as int));
        if cs[i] == '{' {
            depth = depth + 1;
        } else if cs[i] == '}' {
            depth = depth - 1;
        }
        i = i + 1;
    }
    assert(cs@.take(n as int) =~= cs@);
    depth
}

/// The greatest depth that the filter counts.
pub const MAX_DEPTH: i128 = 0x1_0000_0000_0000_0000_0000_0000;

/// Keeps the noise of an agent out of its standard error: dumps of requests
/// over several lines, missing hooks and rate limit events.
#[derive(Debug, Clone, Copy, PartialEq, Eq, Structural)]
pub struct StderrFilter {
    /// A dump is being left out.
    pub suppressing: bool,
    /// How many of its braces are open.
    pub depth: i128,
}

/// The line begins the dump of a request.
pub open spec fn begins_dump(line: Seq<char>) -> bool {
    starts_with(line, "Error handling request {"@)
}

/// The line is noise by itself.
pub open spec fn is_noise(line: Seq<char>) -> bool {
    contains(line, "onPostToolUseHook"@) || starts_with(line, "Unexpected case:"@)
}

/// The depth, as far as it is counted.
pub open spec fn capped(d: int) -> int {
    if d > MAX_DEPTH {
        MAX_DEPTH as int
    } else if d < -MAX_DEPTH {
        -MAX_DEPTH
    } else {
        d
    }
}

/// The filter behind a line.
pub open spec fn filtered(f: StderrFilter, line: Seq<char>) -> StderrFilter {
    if begins_dump(line) {
        StderrFilter { suppressing: true, depth: braces(line) as i128 }
    } else if is_noise(line) || !f.suppressing {
        f
    } else {
        let d = capped(f.depth + braces(line));
        StderrFilter { suppressing: d > 0, depth: d as i128 }
    }
}

/// The line passes the filter.
pub open spec fn passes(f: StderrFilter, line: Seq<char>) -> bool {
    !begins_dump(line) && !is_noise(line) && !f.suppressing
}

impl StderrFilter {
    /// The filter before the first line.
    pub fn new() -> (r: Self)
        ensures
            r == (StderrFilter { suppressing: false, depth: 0 }),
    {
        StderrFilter { suppressing: false, depth: 0 }
    }

    /// Takes a line in. Returns whether it is passed on.
    pub fn take_line(&mut self, line: &str) -> (r: bool)
        requires
            -MAX_DEPTH <= old(self).depth <= MAX_DEPTH,
        ensures
            r == passes(*old(self), line@),
            *final(self) == filtered(*old(self), line@),
            -MAX_DEPTH <= final(self).depth <= MAX_DEPTH,
    {
        if begins(line, "Error handling request {") {
            self.suppressing = true;
            self.depth = count_braces(line);
            return false;
        }
        if has(line, "onPostToolUseHook") || begins(line, "Unexpected case:") {
            return false;
        }
        if self.suppressing {
            let sum: i128 = self.depth + count_braces(line);
            self.depth = if sum > MAX_DEPTH {
                MAX_DEPTH
            } else if sum < -MAX_DEPTH {
                -MAX_DEPTH
            } else {
                sum
            };
            if self.depth <= 0 {
                self.suppressing = false;
            }
            return false;
        }
        true
    }
}

/// What a finished prompt means: an interrupt where the agent was cancelled,
/// and else what the session gave.
pub fn prompt_result(
    stop_reason: StopReason,
    full_text: String,
    files_modified: Vec<String>,
    duration_ms: u64,
) -> (r: RunResult)
    ensures
        r == (if stop_reason == StopReason::Cancelled {
            RunResult::Interrupted
        } else {
            RunResult::Completed(
                StreamingResult { full_text, files_modified, duration_ms, stop_reason },
            )
        }),
{
    match stop_reason {
        StopReason::Cancelled => RunResult::Interrupted,
        _ => RunResult::Completed(
            StreamingResult { full_text, files_modified, duration_ms, stop_reason },
        ),
    }
}

/// The session of an autonomous run that was interrupted is an error.
pub fn autonomous_result(result: RunResult) -> (r: Result<StreamingResult, String>)
    ensures
        match result {
            RunResult::Completed(s) => r == Ok::<StreamingResult, String>(s),
            RunResult::Interrupted => r is Err && r->Err_0@
                == "autonomous session was interrupted"@,
        },
{
    match result {
        RunResult::Completed(s) => Ok(s),
        RunResult::Interrupted => Err("autonomous session was interrupted".to_owned()),
    }
}

} // verus!
