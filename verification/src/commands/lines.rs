//! Lines about tasks.

use vstd::prelude::*;

use crate::dag::model::{log_views, task_views, LogEntry, LogView, Task, TaskView};
use crate::output::style::{hued, plain, plain_span, Hue, Span, Style};
use crate::text::basic::{same, texts};

verus! {

/// Adds a line.
pub fn push_line(out: &mut Vec<String>, line: String)
    ensures
        texts(final(out)@) == texts(old(out)@).push(line@),
{
    let ghost before = out@;
    let ghost l = line@;
    out.push(line);
    assert(texts(out@) =~= texts(before).push(l));
}

/// Adds lines.
pub fn push_lines(out: &mut Vec<String>, lines: Vec<String>)
    ensures
        texts(final(out)@) == texts(old(out)@) + texts(lines@),
{
    let ghost start = texts(out@);
    let ghost all = texts(lines@);
    let mut i: usize = 0;
    assert(start + all.take(0) =~= start);
    while i < lines.len()
        invariant
            i <= lines@.len(),
            all == texts(lines@),
            texts(out@) == start + all.take(i as int),
        decreases lines@.len() - i,
    {
        push_line(out, lines[i].clone());
        assert(start + all.take(i + 1) =~= (start + all.take(i as int)).push(all[i as int]));
        i = i + 1;
    }
    assert(all.take(all.len() as int) =~= all);
}

/// A task on one line, behind `indent`.
pub open spec fn task_text(indent: Seq<char>, t: TaskView) -> Seq<char> {
    indent + t.id + "  ["@ + t.status + "]  "@ + t.title
}

/// Tasks, each on a line behind `indent`.
pub open spec fn task_texts(indent: Seq<char>, tasks: Seq<TaskView>) -> Seq<Seq<char>> {
    tasks.map_values(|t: TaskView| task_text(indent, t))
}

/// A task on one line, behind `indent`.
pub fn task_line(indent: &str, t: &Task) -> (r: String)
    ensures
        r@ == task_text(indent@, t@),
{
    let mut r = indent.to_owned();
    r.append(t.id.as_str());
    r.append("  [");
    r.append(t.status.as_str());
    r.append("]  ");
    r.append(t.title.as_str());
    r
}

/// Tasks, each on a line behind `indent`.
pub fn task_lines(indent: &str, tasks: &Vec<Task>) -> (r: Vec<String>)
    ensures
        texts(r@) == task_texts(indent@, task_views(tasks@)),
{
    let ghost all = task_views(tasks@);
    let mut r: Vec<String> = Vec::new();
    let mut i: usize = 0;
    assert(texts(r@) =~= task_texts(indent@, all.take(0)));
    while i < tasks.len()
        invariant
            i <= tasks@.len(),
            all == task_views(tasks@),
            texts(r@) == task_texts(indent@, all.take(i as int)),
        decreases tasks@.len() - i,
    {
        assert(all[i as int] == tasks@[i as int]@);
        push_line(&mut r, task_line(indent, &tasks[i]));
        assert(task_texts(indent@, all.take(i + 1)) =~= task_texts(
            indent@,
            all.take(i as int),
        ).push(task_text(indent@, all[i as int])));
        i = i + 1;
    }
    assert(all.take(all.len() as int) =~= all);
    r
}

/// Log entries, each on a line: when, and what.
pub open spec fn log_texts(logs: Seq<LogView>) -> Seq<Seq<char>> {
    logs.map_values(|l: LogView| "  ["@ + l.timestamp + "]  "@ + l.message)
}

/// Log entries, each on a line.
pub fn log_lines(logs: &Vec<LogEntry>) -> (r: Vec<String>)
    ensures
        texts(r@) == log_texts(log_views(logs@)),
{
    let ghost all = log_views(logs@);
    let mut r: Vec<String> = Vec::new();
    let mut i: usize = 0;
    assert(texts(r@) =~= log_texts(all.take(0)));
    while i < logs.len()
        invariant
            i <= logs@.len(),
            all == log_views(logs@),
            texts(r@) == log_texts(all.take(i as int)),
        decreases logs@.len() - i,
    {
        assert(all[i as int] == logs@[i as int]@);
        let mut line = "  [".to_owned();
        line.append(logs[i].timestamp.as_str());
        line.append("]  ");
        line.append(logs[i].message.as_str());
        let ghost lv = line@;
        push_line(&mut r, line);
        assert(log_texts(all.take(i + 1)) =~= log_texts(all.take(i as int)).push(lv));
        i = i + 1;
    }
    assert(all.take(all.len() as int) =~= all);
    r
}

/// A status in its colour.
pub open spec fn status_span(s: Seq<char>) -> (Style, Seq<char>) {
    if s == "pending"@ {
        hued(Hue::Yellow, s)
    } else if s == "in_progress"@ {
        hued(Hue::Cyan, s)
    } else if s == "done"@ {
        hued(Hue::Green, s)
    } else if s == "failed"@ {
        hued(Hue::Red, s)
    } else if s == "blocked"@ {
        (Style::Dimmed, s)
    } else {
        plain(s)
    }
}

/// Colorizes a status for terminal display.
pub fn colorize_status(status: &str) -> (r: Span)
    ensures
        r@ == status_span(status@),
{
    let style = if same(status, "pending") {
        Style::Color(Hue::Yellow)
    } else if same(status, "in_progress") {
        Style::Color(Hue::Cyan)
    } else if same(status, "done") {
        Style::Color(Hue::Green)
    } else if same(status, "failed") {
        Style::Color(Hue::Red)
    } else if same(status, "blocked") {
        Style::Dimmed
    } else {
        return plain_span(status);
    };
    Span { style, text: status.to_owned() }
}

} // verus!
