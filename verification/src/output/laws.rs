//! What holds of the texts that are shown.

use vstd::prelude::*;

use crate::acp::types::StopReason;
use crate::config::ConfigView;
use crate::output::effect::{explored, info_shown, EffectView};
use crate::output::formatter::{
    dag_text, hyphens, iteration_line, limit_text, notice, round_text, rounds_text,
};
use crate::output::logger::{log_dir, path_join};
use crate::output::style::{escaped, hue_code, plain, restyled, style_codes, Hue, Style};
use crate::run_loop::settle::Reaction;
use crate::text::number::decimal;
use crate::text::search::{contains, ends_with, lemma_find_least, starts_with};

verus! {

/// The line on an iteration tells that it is the only one, or which one it is
/// and of how many, where there is a last one.
pub proof fn law_iteration_line(c: ConfigView)
    ensures
        c.limit == 1 ==> iteration_line(c) == "Running once only"@,
        c.limit != 1 && c.total == 0 ==> iteration_line(c) == "Iteration "@ + decimal(
            c.iteration as nat,
        ) + " (unlimited)"@,
        c.limit != 1 && c.total > 0 ==> iteration_line(c) == "Iteration "@ + decimal(
            c.iteration as nat,
        ) + " of "@ + decimal(c.total as nat),
{
}

/// The counts of tasks and the rounds of a review are told by their numbers, and
/// one round is not told in the plural.
pub proof fn law_counts_are_told(
    total: nat,
    ready: nat,
    done: nat,
    blocked: nat,
    kind: Seq<char>,
    feature: Seq<char>,
    round: nat,
    n: u32,
)
    ensures
        dag_text(total, ready, done, blocked) == "DAG: "@ + decimal(total) + " tasks, "@ + decimal(
            ready,
        ) + " ready, "@ + decimal(done) + " done, "@ + decimal(blocked) + " blocked"@,
        round_text(kind, round, total) == kind + " review round "@ + decimal(round) + "/"@
            + decimal(total),
        limit_text(kind, feature, total) == "Review limit: '"@ + feature + "' "@ + kind
            + " stabilized after "@ + decimal(total) + " rounds."@,
        n == 1 ==> rounds_text(n) == "1 round"@,
        n != 1 ==> rounds_text(n) == decimal(n as nat) + " rounds"@,
        hyphens(total).len() == total,
        forall|i: int| 0 <= i < total ==> #[trigger] hyphens(total)[i] == '-',
{
}

/// A notice is given of an answer that does not settle the task as it should: of
/// an early stop, of a refusal, and of a report on another task, which names
/// both; of any other answer none is given.
pub proof fn law_notices(
    reaction: Reaction,
    stop: StopReason,
    shown: Seq<char>,
    named: Seq<char>,
    id: Seq<char>,
)
    ensures
        notice(reaction, stop, shown, named, id) is Some <==> reaction == Reaction::Incomplete
            || reaction == Reaction::Refused || reaction == Reaction::WrongDone || reaction
            == Reaction::WrongFailed,
        reaction == Reaction::WrongDone ==> notice(reaction, stop, shown, named, id) == Some(
            "Warning: task-done sigil ID "@ + named + " does not match assigned task "@ + id,
        ),
        reaction == Reaction::WrongFailed ==> notice(reaction, stop, shown, named, id) == Some(
            "Warning: task-failed sigil ID "@ + named + " does not match assigned task "@ + id,
        ),
        reaction == Reaction::Refused ==> notice(reaction, stop, shown, named, id) == Some(
            "ralph: agent refused the request, failing task"@,
        ),
        reaction == Reaction::Incomplete && (stop == StopReason::MaxTokens || stop
            == StopReason::MaxTurnRequests) ==> notice(reaction, stop, shown, named, id) == Some(
            "ralph: agent hit token/turn limit ("@ + shown + "), releasing task claim"@,
        ),
{
}

/// A text is styled by its codes in front of it and a reset behind it; a text
/// that holds no reset itself stays as it is between them.
pub proof fn law_styled_text(s: Seq<char>, codes: Seq<char>)
    requires
        !contains(s, "\x1b[0m"@),
    ensures
        escaped(s, codes) == "\x1b["@ + codes + "m"@ + s + "\x1b[0m"@,
{
    lemma_find_least(s, "\x1b[0m"@, 0);
    let start = "\x1b["@ + codes + "m"@;
    assert(s.subrange(0, s.len() as int) =~= s);
    assert(restyled(s, start, 0) =~= s);
}

/// The codes of the styles and colours.
pub proof fn law_style_codes(h: Hue)
    ensures
        style_codes(Style::Color(h)) == hue_code(h),
        style_codes(Style::Bold) == "1"@,
        style_codes(Style::Dimmed) == "2"@,
        style_codes(Style::BoldYellow) == "1;33"@,
        h == Hue::Red ==> hue_code(h) == "31"@,
        h == Hue::Green ==> hue_code(h) == "32"@,
        h == Hue::Yellow ==> hue_code(h) == "33"@,
        h == Hue::Blue ==> hue_code(h) == "34"@,
        h == Hue::Magenta ==> hue_code(h) == "35"@,
        h == Hue::Cyan ==> hue_code(h) == "36"@,
        h == Hue::BrightBlack ==> hue_code(h) == "90"@,
        h == Hue::BrightRed ==> hue_code(h) == "91"@,
        h == Hue::BrightCyan ==> hue_code(h) == "96"@,
{
}

/// With a dashboard lines are handed to it under their title, and a message is
/// left out; without one each line is printed, in its order.
pub proof fn law_dashboard_or_lines(title: Seq<char>, lines: Seq<Seq<char>>, i: int)
    ensures
        explored(true, title, lines) == seq![EffectView::Explore(title, lines)],
        explored(false, title, lines).len() == lines.len(),
        0 <= i < lines.len() ==> explored(false, title, lines)[i] == EffectView::Line(
            seq![plain(lines[i])],
        ),
        info_shown(true, title).len() == 0,
        info_shown(false, title) == seq![EffectView::Line(seq![plain(title)])],
{
}

/// One separator stands between the parts of a joined path, and a path from the
/// root stands by itself.
pub proof fn law_joined_paths(base: Seq<char>, rest: Seq<char>)
    ensures
        rest.len() > 0 && rest[0] == '/' ==> path_join(base, rest) == rest,
        (rest.len() == 0 || rest[0] != '/') && base.len() > 0 && base.last() != '/' ==> path_join(
            base,
            rest,
        ) == base + "/"@ + rest,
        (rest.len() == 0 || rest[0] != '/') && base.len() > 0 && base.last() == '/' ==> path_join(
            base,
            rest,
        ) == base + rest,
{
    reveal_strlit("/");
    if rest.len() > 0 && rest[0] == '/' {
        assert(rest.subrange(0, 1) =~= "/"@);
        assert(starts_with(rest, "/"@));
    } else if starts_with(rest, "/"@) {
        assert(rest.subrange(0, 1)[0] == rest[0]);
    }
    if base.len() > 0 {
        let n = base.len() as int;
        if base.last() == '/' {
            assert(base.subrange(n - 1, n) =~= "/"@);
            assert(ends_with(base, "/"@));
        } else if ends_with(base, "/"@) {
            assert(base.subrange(n - 1, n)[0] == base[n - 1]);
        }
    }
}

/// Logs stand below the temporary directory, else below the runtime directory,
/// else below `/tmp`, in a directory of the project.
pub proof fn law_log_directory(
    tmpdir: Option<Seq<char>>,
    runtime_dir: Option<Seq<char>>,
    project: Option<Seq<char>>,
)
    ensures
        ({
            let below = |base: Seq<char>, name: Seq<char>|
                path_join(path_join(path_join(base, "ralph"@), "logs"@), name);
            let name = if project is Some {
                project->0
            } else {
                "unknown"@
            };
            &&& tmpdir is Some ==> log_dir(tmpdir, runtime_dir, project) == below(tmpdir->0, name)
            &&& tmpdir is None && runtime_dir is Some ==> log_dir(tmpdir, runtime_dir, project)
                == below(runtime_dir->0, name)
            &&& tmpdir is None && runtime_dir is None ==> log_dir(tmpdir, runtime_dir, project)
                == below("/tmp"@, name)
        }),
{
}

} // verus!
