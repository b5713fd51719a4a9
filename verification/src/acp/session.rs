//! What holds of a session with the agent: what it may do, what is kept of it
//! and what is shown.

use vstd::prelude::*;

use crate::acp::client::{
    file_part, is_write, late_details, notified, pending_place, rejects, window, with_pending,
    ClientView, NotificationView, OptionKind, PendingView, ToolKind,
};
use crate::acp::connection::{braces, filtered, passes, StderrFilter, MAX_DEPTH};
use crate::acp::interactive::signals_end;
use crate::acp::prompt::{
    blocker_line, blocker_lines, blocker_section, parent_section, prompt_text, retry_section,
    task_context,
};
use crate::acp::streaming::{
    behind_line, drained, line_spans, model_prefix, render_step, RenderView, UpdateView,
};
use crate::acp::summary::{
    cut_line, field, field_from, is_filled, short_path, short_paths, string_at, summary,
    tail_start, FieldView,
};
use crate::acp::tools::kept;
use crate::acp::types::{BlockerView, IterationView, TaskInfoView};
use crate::agent::AgentNamesView;
use crate::output::effect::EffectView;
use crate::output::style::dim;
use crate::review::{lemma_inside, lemma_part};
use crate::text::number::decimal_int;
use crate::text::search::{contains, find_from, lemma_find_least, occurs_at, starts_with};
use crate::text::shape::{first_line, join, lines, trim, trim_start, Class};

verus! {

/// A session ends by itself once the agent reports a finished phase or that tasks
/// were created.
pub proof fn law_signs_of_the_end(s: Seq<char>)
    ensures
        contains(s, "<tasks-created>"@) || contains(s, "<tasks-created/>"@) || contains(
            s,
            "<tasks-created />"@,
        ) ==> signals_end(s),
        crate::acp::sigils::phase_complete(s) is Some ==> signals_end(s),
        !contains(s, "<phase-complete>"@) && !contains(s, "<tasks-created>"@) && !contains(
            s,
            "<tasks-created/>"@,
        ) && !contains(s, "<tasks-created />"@) ==> !signals_end(s),
{
    crate::acp::laws::law_signs_read_back(s);
}

/// Of a terminal's output the last 1048576 bytes are kept: all of it where it is
/// no longer, and never a byte from before them.
pub proof fn law_output_keeps_its_end(s: Seq<u8>, i: int)
    ensures
        s.len() <= 1048576 ==> kept(s) == s,
        s.len() > 1048576 ==> kept(s).len() == 1048576,
        0 <= i < kept(s).len() ==> kept(s)[i] == s[s.len() - kept(s).len() + i],
{
}

/// Writing is editing, deleting and moving, and nothing else; rejecting is
/// rejecting once or always.
pub proof fn law_what_writes(kind: ToolKind, option: OptionKind)
    ensures
        !is_write(kind) <==> kind == ToolKind::Read || kind == ToolKind::Search || kind
            == ToolKind::Execute || kind == ToolKind::Think || kind == ToolKind::Fetch || kind
            == ToolKind::Other,
        !rejects(option) <==> option == OptionKind::AllowOnce || option == OptionKind::AllowAlways
            || option == OptionKind::Other,
{
}

/// The part of a file that is read: all of it where nothing is said; else the
/// lines from the one that is named, which counts from 1, at most as many as
/// asked for, without a line end behind the last.
pub proof fn law_file_part(content: Seq<char>, line: u32, limit: u32, k: int)
    requires
        line >= 1,
    ensures
        file_part(content, None, None) == content,
        ({
            let all = lines(content);
            let part = window(all, line - 1, limit as int);
            &&& file_part(content, Some(line), Some(limit)) == join(part, "\n"@)
            &&& file_part(content, Some(0), Some(limit)) == file_part(content, Some(1), Some(limit))
            &&& file_part(content, None, Some(limit)) == file_part(content, Some(1), Some(limit))
            &&& part.len() <= limit
            &&& part.len() < limit ==> line - 1 + part.len() >= all.len()
            &&& line - 1 + part.len() <= all.len() || part.len() == 0
            &&& 0 <= k < part.len() ==> part[k] == all[line - 1 + k]
            &&& line - 1 <= all.len() ==> file_part(content, Some(line), None) == join(
                all.skip(line - 1),
                "\n"@,
            )
        }),
{
    let all = lines(content);
    if line - 1 == all.len() {
        assert(all.skip(line - 1) =~= Seq::empty());
    }
}

/// A tool call that is noted is found under its id; one with the same id takes
/// the place of the earlier one, and every other stays.
pub proof fn law_pending_calls(s: Seq<PendingView>, p: PendingView, other: Seq<char>)
    ensures
        ({
            let after = with_pending(s, p);
            let i = pending_place(after, p.id, 0);
            &&& i is Some && 0 <= i->0 < after.len() && after[i->0] == p
            &&& other != p.id ==> {
                let a = pending_place(s, other, 0);
                let b = pending_place(after, other, 0);
                &&& a is Some <==> b is Some
                &&& a is Some ==> after[b->0] == s[a->0]
            }
            &&& after.len() == s.len() + if pending_place(s, p.id, 0) is Some {
                0int
            } else {
                1int
            }
        }),
{
    lemma_place(s, p.id, 0);
    let after = with_pending(s, p);
    lemma_place(after, p.id, 0);
    lemma_place(s, other, 0);
    lemma_place(after, other, 0);
    match pending_place(s, p.id, 0) {
        Some(i) => {
            assert(after[i].id == p.id);
        },
        None => {
            assert(after[s.len() as int] == p);
            assert forall|j: int| 0 <= j < s.len() implies (#[trigger] after[j]).id == s[j].id by {}
        },
    }
    if other != p.id {
        let a = pending_place(s, other, 0);
        let b = pending_place(after, other, 0);
        if a is Some {
            assert(after[a->0].id == other);
        }
        if b is Some {
            assert(b->0 < s.len());
            assert(s[b->0].id == other);
        }
    }
}

proof fn lemma_place(s: Seq<PendingView>, id: Seq<char>, from: int)
    requires
        0 <= from,
    ensures
        match pending_place(s, id, from) {
            Some(i) => from <= i < s.len() && s[i].id == id && forall|j: int|
                from <= j < i ==> (#[trigger] s[j]).id != id,
            None => forall|j: int| from <= j < s.len() ==> (#[trigger] s[j]).id != id,
        },
    decreases s.len() - from,
{
    if from < s.len() && s[from].id != id {
        lemma_place(s, id, from + 1);
    }
}

/// The details of a tool call are shown once: with the call, where it came with
/// its input; else with the first update that brings it, and never again.
pub proof fn law_details_are_shown_once(
    ui: bool,
    c: ClientView,
    id: Seq<char>,
    title: Seq<char>,
    input: Seq<char>,
    locations: Seq<Seq<char>>,
    again: Seq<char>,
)
    ensures
        ({
            let told = notified(
                ui,
                c,
                NotificationView::ToolCall(id, title, Some(input), locations),
            ).1;
            let untold = notified(ui, c, NotificationView::ToolCall(id, title, None, locations)).1;
            let update = NotificationView::ToolCallUpdate(id, Some(input));
            let first = notified(ui, untold, update);
            &&& notified(ui, told, update).0.len() == 0
            &&& notified(ui, told, update).1 == told
            &&& first.0.len() == 0 ==> late_details(title, input).len() == 0
            &&& notified(ui, first.1, NotificationView::ToolCallUpdate(id, Some(again))).0.len()
                == 0
        }),
{
    let told = PendingView { id, name: title, metadata_rendered: true };
    let untold = PendingView { id, name: title, metadata_rendered: false };
    law_pending_calls(c.pending_tool_calls, told, id);
    law_pending_calls(c.pending_tool_calls, untold, id);
    let s = with_pending(c.pending_tool_calls, untold);
    let i = pending_place(s, id, 0)->0;
    let marked = PendingView { metadata_rendered: true, ..untold };
    let t = s.update(i, marked);
    lemma_place(s, id, 0);
    lemma_place(t, id, 0);
    assert(t[i].id == id);
    if pending_place(t, id, 0)->0 != i {
        let j = pending_place(t, id, 0)->0;
        assert(t[j].id == id);
    }
}

/// How the text comes in does not matter: two pieces, one after the other, show
/// the same lines and leave the same state as the whole.
pub proof fn law_pieces_show_as_the_whole(st: RenderView, a: Seq<char>, b: Seq<char>)
    requires
        st.line_buffer == a,
    ensures
        ({
            let first = drained(st);
            let second = drained(
                RenderView { line_buffer: first.state.line_buffer + b, ..first.state },
            );
            let whole = drained(RenderView { line_buffer: a + b, ..st });
            &&& whole.effects == first.effects + second.effects
            &&& whole.state == second.state
        }),
    decreases a.len(),
{
    let nl = "\n"@;
    let whole = RenderView { line_buffer: a + b, ..st };
    match find_from(a, nl, 0) {
        None => {
            assert(drained(st).effects =~= Seq::<EffectView>::empty());
            assert(drained(st).effects + drained(whole).effects =~= drained(whole).effects);
        },
        Some(i) => {
            lemma_line_end_kept(a, b);
            let line = a.take(i);
            let rest = a.skip(i + 1);
            let next = RenderView { line_buffer: rest, ..behind_line(st, line) };
            law_pieces_show_as_the_whole(next, rest, b);
            let shown = seq![EffectView::Line(line_spans(st, line))];
            let first = drained(next);
            let second = drained(
                RenderView { line_buffer: first.state.line_buffer + b, ..first.state },
            );
            let behind = drained(RenderView { line_buffer: rest + b, ..next });
            assert(drained(st).effects == shown + first.effects);
            assert(drained(whole).effects == shown + behind.effects);
            assert(shown + (first.effects + second.effects) =~= (shown + first.effects)
                + second.effects);
        },
    }
}

/// The first line of a text is the first line of every text that it begins.
proof fn lemma_line_end_kept(a: Seq<char>, b: Seq<char>)
    requires
        find_from(a, "\n"@, 0) is Some,
    ensures
        ({
            let i = find_from(a, "\n"@, 0)->0;
            &&& 0 <= i < a.len()
            &&& find_from(a + b, "\n"@, 0) == Some(i)
            &&& (a + b).take(i) == a.take(i)
            &&& (a + b).skip(i + 1) == a.skip(i + 1) + b
        }),
{
    let nl = "\n"@;
    assert(nl.len() == 1) by {
        reveal_strlit("\n");
    }
    lemma_find_least(a, nl, 0);
    let i = find_from(a, nl, 0)->0;
    let s = a + b;
    assert(s.subrange(i, i + 1) =~= a.subrange(i, i + 1));
    assert(occurs_at(s, nl, i));
    assert forall|j: int| 0 <= j < i implies !#[trigger] occurs_at(s, nl, j) by {
        if occurs_at(s, nl, j) {
            assert(s.subrange(j, j + 1) =~= a.subrange(j, j + 1));
            assert(occurs_at(a, nl, j));
        }
    }
    lemma_find_least(s, nl, 0);
    assert(s.take(i) =~= a.take(i));
    assert(s.skip(i + 1) =~= a.skip(i + 1) + b);
}

/// The model's name is shown once before a text: blank pieces at its start show
/// nothing, the first other one shows the name and loses its leading white space,
/// and later pieces show no name. A call of a tool starts anew.
pub proof fn law_name_is_shown_once(st: RenderView, t: Seq<char>)
    ensures
        ({
            let r = render_step(false, UpdateView::AgentText(t), st);
            let again = render_step(false, UpdateView::ToolCallPreamble, st);
            let shown = trim_start(t, Class::Space);
            &&& st.is_first_chunk && shown.len() == 0 ==> r.effects.len() == 0 && r.state == st
            &&& st.is_first_chunk && shown.len() > 0 ==> {
                &&& r.effects.len() > 0
                &&& r.effects[0] == model_prefix(st.model_name)
                &&& !r.state.is_first_chunk
            }
            &&& !st.is_first_chunk ==> {
                let d = drained(RenderView { line_buffer: st.line_buffer + t, ..st });
                &&& r.effects == d.effects.push(EffectView::Flush)
                &&& r.state == d.state
            }
            &&& again.state.is_first_chunk && again.state.line_buffer.len() == 0
        }),
{
    let shown = trim_start(t, Class::Space);
    if st.is_first_chunk && shown.len() > 0 {
        lemma_drained_keeps(
            RenderView { is_first_chunk: false, line_buffer: st.line_buffer + shown, ..st },
        );
    }
    if !st.is_first_chunk {
        let d = drained(RenderView { line_buffer: st.line_buffer + t, ..st });
        assert(RenderView { is_first_chunk: false, line_buffer: st.line_buffer + t, ..st } == (
        RenderView { line_buffer: st.line_buffer + t, ..st }));
        assert(Seq::<EffectView>::empty() + d.effects + seq![EffectView::Flush] =~= d.effects.push(
            EffectView::Flush,
        ));
    }
}

proof fn lemma_drained_keeps(st: RenderView)
    ensures
        drained(st).state.is_first_chunk == st.is_first_chunk,
        drained(st).state.model_name == st.model_name,
    decreases st.line_buffer.len(),
{
    let b = st.line_buffer;
    if find_from(b, "\n"@, 0) is Some {
        let i = find_from(b, "\n"@, 0)->0;
        if 0 <= i < b.len() {
            let line = b.take(i);
            lemma_drained_keeps(
                RenderView { line_buffer: b.skip(i + 1), ..behind_line(st, line) },
            );
        }
    }
}

/// A thought is shown by its first line, at most 100 characters of it, dimmed; an
/// empty one is not shown.
pub proof fn law_thoughts_are_cut(st: RenderView, t: Seq<char>)
    ensures
        ({
            let r = render_step(false, UpdateView::AgentThought(t), st);
            &&& r.state == st
            &&& first_line(t).len() == 0 ==> r.effects.len() == 0
            &&& first_line(t).len() > 0 ==> r.effects == seq![
                EffectView::Print(seq![dim(cut_line(t, 100))]),
                EffectView::Flush,
            ]
        }),
{
    reveal_strlit("...");
}

/// A line of the agent's error output is left out where it begins a dump, is
/// noise, or stands inside a dump; a dump ends with the line that closes its
/// last brace. Noise does not end it.
pub proof fn law_error_output_filter(f: StderrFilter, dump: Seq<char>, line: Seq<char>)
    requires
        starts_with(dump, "Error handling request {"@),
        !starts_with(line, "Error handling request {"@),
        -MAX_DEPTH <= braces(dump) <= MAX_DEPTH,
        -MAX_DEPTH <= braces(dump) + braces(line) <= MAX_DEPTH,
    ensures
        ({
            let noise = contains(line, "onPostToolUseHook"@) || starts_with(
                line,
                "Unexpected case:"@,
            );
            let inside = filtered(f, dump);
            &&& !passes(f, dump)
            &&& inside.suppressing
            &&& !passes(inside, line)
            &&& noise ==> filtered(inside, line) == inside && !passes(f, line) && filtered(f, line)
                == f
            &&& !noise ==> (filtered(inside, line).suppressing <==> braces(dump) + braces(line) > 0)
            &&& !noise && !f.suppressing ==> passes(f, line) && filtered(f, line) == f
        }),
{
}

/// Braces are counted one by one, an opening one up and a closing one down.
pub proof fn law_braces(a: Seq<char>, b: Seq<char>)
    ensures
        braces(a + b) == braces(a) + braces(b),
        braces(seq!['{']) == 1,
        braces(seq!['}']) == -1,
        !a.contains('{') && !a.contains('}') ==> braces(a) == 0,
    decreases a.len() + b.len(),
{
    let none = Seq::<char>::empty();
    assert(seq!['{'].drop_last() =~= none);
    assert(seq!['}'].drop_last() =~= none);
    assert(braces(none) == 0);
    assert(seq!['{'].last() == '{' && seq!['}'].last() == '}');
    if b.len() == 0 {
        assert(a + b =~= a);
        if a.len() > 0 && !a.contains('{') && !a.contains('}') {
            let d = a.drop_last();
            assert forall|x: char| d.contains(x) implies a.contains(x) by {
                let i = choose|i: int| 0 <= i < d.len() && d[i] == x;
                assert(a[i] == x);
            }
            law_braces(d, b);
            assert(a.contains(a.last()));
        }
    } else {
        law_braces(a, b.drop_last());
        assert((a + b).drop_last() =~= a + b.drop_last());
    }
}

/// A line that is too long is cut behind as many characters as are allowed, with
/// three dots behind them.
pub proof fn law_cut_line(s: Seq<char>, max: nat)
    ensures
        first_line(s).len() <= max ==> cut_line(s, max) == first_line(s),
        first_line(s).len() > max ==> {
            &&& cut_line(s, max).len() == max + 3
            &&& cut_line(s, max).take(max as int) == first_line(s).take(max as int)
            &&& cut_line(s, max).skip(max as int) == "..."@
        },
{
    reveal_strlit("...");
    if first_line(s).len() > max {
        let head = first_line(s).take(max as int);
        assert((head + "..."@).take(max as int) =~= head);
        assert((head + "..."@).skip(max as int) =~= "..."@);
    }
}

/// Of a path the last three parts are shown: what stands behind the third
/// separator from the end.
pub proof fn law_short_path(s: Seq<char>, i: int, j: int, k: int)
    requires
        0 <= i < j < k < s.len(),
        s[i] == '/' && s[j] == '/' && s[k] == '/',
        forall|m: int| i < m < s.len() && m != j && m != k ==> #[trigger] s[m] != '/',
    ensures
        short_path(s) == s.skip(i + 1),
{
    lemma_tail_over(s, k + 1, s.len() as int, 3);
    lemma_tail_over(s, j + 1, k, 2);
    lemma_tail_over(s, i + 1, j, 1);
}

/// A path with at most two separators stays as it is.
pub proof fn law_short_path_stays(s: Seq<char>, j: int, k: int)
    requires
        j <= k,
        forall|m: int| 0 <= m < s.len() && m != j && m != k ==> #[trigger] s[m] != '/',
    ensures
        short_path(s) == s,
{
    assert(s.skip(0) =~= s);
    let n = s.len() as int;
    lemma_tail_end(s, n, 3, j, k);
}

proof fn lemma_tail_end(s: Seq<char>, i: int, count: int, j: int, k: int)
    requires
        0 <= i <= s.len(),
        count >= 1,
        forall|m: int| 0 <= m < i && m != j && m != k ==> #[trigger] s[m] != '/',
        count >= 3 || (count == 2 && !(0 <= k < i && j != k)) || (count == 2 && !(0 <= j < i))
            || (count == 1 && !(0 <= j < i) && !(0 <= k < i)),
        j <= k,
    ensures
        tail_start(s, i, count) == 0,
    decreases i,
{
    if i > 0 {
        if s[i - 1] == '/' {
            assert(i - 1 == j || i - 1 == k);
            lemma_tail_end(s, i - 1, count - 1, j, k);
        } else {
            lemma_tail_end(s, i - 1, count, j, k);
        }
    }
}

/// The search for the part to show passes over characters that are no separator.
proof fn lemma_tail_over(s: Seq<char>, lo: int, hi: int, count: int)
    requires
        0 <= lo <= hi <= s.len(),
        forall|m: int| lo <= m < hi ==> #[trigger] s[m] != '/',
    ensures
        tail_start(s, hi, count) == tail_start(s, lo, count),
    decreases hi - lo,
{
    if lo < hi {
        assert(s[hi - 1] != '/');
        lemma_tail_over(s, lo, hi - 1, count);
    }
}

/// What is shown of a tool call: where it happens, if that is told; else what its
/// input says in the field that its kind of tool has; a file by the end of its
/// path, a command and an address by 120 characters, a description by 80.
pub proof fn law_call_summary(
    name: Seq<char>,
    raw_input: Seq<char>,
    f: Seq<FieldView>,
    locations: Seq<Seq<char>>,
    text: Seq<char>,
)
    ensures
        ({
            let none = Seq::<Seq<char>>::empty();
            let shown = summary(name, raw_input, Some(f), none);
            let file = contains(name, "read"@) || contains(name, "edit"@) || contains(
                name,
                "write"@,
            ) || contains(name, "notebook"@);
            let shell = contains(name, "bash"@) || contains(name, "terminal"@) || name
                == "execute"@;
            let search = contains(name, "grep"@) || contains(name, "search"@) || contains(
                name,
                "glob"@,
            );
            let web = contains(name, "fetch"@) || contains(name, "web"@);
            let task = contains(name, "task"@) || contains(name, "agent"@);
            &&& locations.len() > 0 ==> summary(name, raw_input, Some(f), locations) == join(
                short_paths(locations),
                ", "@,
            )
            &&& file && string_at(f, "file_path"@) == Some(text) ==> shown == short_path(text)
            &&& shell && !file && string_at(f, "command"@) == Some(text) ==> shown == cut_line(
                text,
                120,
            )
            &&& search && !file && !shell && string_at(f, "pattern"@) == Some(text) && field(
                f,
                "path"@,
            ) is None ==> shown == "/"@ + text + "/"@
            &&& web && !file && !shell && !search && string_at(f, "url"@) == Some(text) ==> shown
                == cut_line(text, 120)
            &&& task && !file && !shell && !search && !web && string_at(f, "description"@) == Some(
                text,
            ) ==> shown == cut_line(text, 80)
            &&& trim(raw_input).len() == 0 ==> summary(name, raw_input, None, none).len() == 0
            &&& trim(raw_input) == "{}"@ || trim(raw_input) == "null"@ ==> summary(
                name,
                raw_input,
                None,
                none,
            ).len() == 0
            &&& is_filled(trim(raw_input)) ==> summary(name, raw_input, None, none) == cut_line(
                raw_input,
                120,
            )
        }),
{
}

/// A field is the first one with its key.
pub proof fn law_first_field(f: Seq<FieldView>, key: Seq<char>)
    ensures
        match field(f, key) {
            Some(x) => exists|i: int|
                0 <= i < f.len() && #[trigger] f[i] == x && x.key == key && forall|j: int|
                    0 <= j < i ==> (#[trigger] f[j]).key != key,
            None => forall|i: int| 0 <= i < f.len() ==> (#[trigger] f[i]).key != key,
        },
{
    lemma_field(f, key, 0);
}

proof fn lemma_field(f: Seq<FieldView>, key: Seq<char>, from: int)
    requires
        0 <= from,
    ensures
        match field_from(f, key, from) {
            Some(x) => exists|i: int|
                from <= i < f.len() && #[trigger] f[i] == x && x.key == key && forall|j: int|
                    from <= j < i ==> (#[trigger] f[j]).key != key,
            None => forall|i: int| from <= i < f.len() ==> (#[trigger] f[i]).key != key,
        },
    decreases f.len() - from,
{
    if from < f.len() {
        if f[from].key == key {
            assert(f[from] == field_from(f, key, from)->0);
        } else {
            lemma_field(f, key, from + 1);
            if field_from(f, key, from + 1) is Some {
                let x = field_from(f, key, from + 1)->0;
                let i = choose|i: int|
                    from + 1 <= i < f.len() && #[trigger] f[i] == x && x.key == key && forall|j: int|
                        from + 1 <= j < i ==> (#[trigger] f[j]).key != key;
                assert(f[i] == x);
            }
        }
    }
}

/// The prompt names the task's id, title and description, each completed blocker
/// by its id, title and summary, and for a retry which attempt it is, how many
/// are allowed and why the last one failed.
pub proof fn law_prompt_names_the_work(agent: AgentNamesView, c: IterationView, b: BlockerView)
    ensures
        ({
            let p = prompt_text(agent, c);
            &&& contains(p, "**ID:** "@ + c.task.task_id + "\n**Title:** "@ + c.task.title)
            &&& contains(p, c.task.description)
            &&& c.task.completed_blockers.contains(b) ==> contains(
                p,
                "- ["@ + b.task_id + "] "@ + b.title + ": "@ + b.summary + "\n"@,
            )
            &&& c.task.parent matches Some((title, description)) ==> contains(
                p,
                "**Parent:** "@ + title + "\n"@ + description,
            )
            &&& c.retry_info matches Some((attempt, max, reason)) ==> contains(
                p,
                "**This is retry attempt "@ + decimal_int(attempt as int) + " of "@ + decimal_int(
                    max as int,
                ) + ".**"@,
            ) && contains(p, "\n\n> "@ + reason + "\n\n"@)
        }),
{
    let p = prompt_text(agent, c);
    let t = task_context(c.task);
    crate::acp::prompt::law_prompt_holds_its_parts(agent, c);
    let names = "**ID:** "@ + c.task.task_id + "\n**Title:** "@ + c.task.title;
    lemma_task_told(c.task);
    lemma_inside(p, t, names);
    lemma_inside(p, t, c.task.description);
    if c.task.parent is Some {
        let (title, description) = c.task.parent->0;
        lemma_parent_told(c.task, title, description);
        lemma_inside(p, t, "**Parent:** "@ + title + "\n"@ + description);
    }
    if c.task.completed_blockers.contains(b) {
        lemma_blockers_told(c.task, b);
        lemma_inside(p, t, blocker_line(b));
    }
    if c.retry_info is Some {
        lemma_retry_told(c.retry_info->0);
        let (attempt, max, reason) = c.retry_info->0;
        let r = retry_section(c.retry_info);
        lemma_inside(
            p,
            r,
            "**This is retry attempt "@ + decimal_int(attempt as int) + " of "@ + decimal_int(
                max as int,
            ) + ".**"@,
        );
        lemma_inside(p, r, "\n\n> "@ + reason + "\n\n"@);
    }
}

proof fn lemma_task_told(t: TaskInfoView)
    ensures
        contains(task_context(t), "**ID:** "@ + t.task_id + "\n**Title:** "@ + t.title),
        contains(task_context(t), t.description),
{
    let s = task_context(t);
    let names = "**ID:** "@ + t.task_id + "\n**Title:** "@ + t.title;
    let heading = "## Assigned Task\n\n"@;
    let mark = "\n\n### Description\n"@;
    assert("## Assigned Task\n\n**ID:** "@ =~= heading + "**ID:** "@) by {
        reveal_strlit("## Assigned Task\n\n**ID:** ");
        reveal_strlit("## Assigned Task\n\n");
        reveal_strlit("**ID:** ");
    }
    let rest = parent_section(t.parent) + blocker_section(t.completed_blockers);
    assert(s =~= heading + names + (mark + t.description + "\n"@ + rest));
    lemma_part(heading, names, mark + t.description + "\n"@ + rest);
    assert(s =~= (heading + names + mark) + t.description + ("\n"@ + rest));
    lemma_part(heading + names + mark, t.description, "\n"@ + rest);
}

proof fn lemma_parent_told(t: TaskInfoView, title: Seq<char>, description: Seq<char>)
    requires
        t.parent == Some((title, description)),
    ensures
        contains(task_context(t), "**Parent:** "@ + title + "\n"@ + description),
{
    let told = "**Parent:** "@ + title + "\n"@ + description;
    let heading = "\n### Parent Context\n"@;
    assert("\n### Parent Context\n**Parent:** "@ =~= heading + "**Parent:** "@) by {
        reveal_strlit("\n### Parent Context\n**Parent:** ");
        reveal_strlit("\n### Parent Context\n");
        reveal_strlit("**Parent:** ");
    }
    let parent = parent_section(t.parent);
    assert(parent =~= heading + told + "\n"@);
    lemma_part(heading, told, "\n"@);
    let front = "## Assigned Task\n\n**ID:** "@ + t.task_id + "\n**Title:** "@ + t.title
        + "\n\n### Description\n"@ + t.description + "\n"@;
    lemma_part(front, parent, blocker_section(t.completed_blockers));
    lemma_inside(task_context(t), parent, told);
}

proof fn lemma_blockers_told(t: TaskInfoView, b: BlockerView)
    requires
        t.completed_blockers.contains(b),
    ensures
        contains(task_context(t), blocker_line(b)),
{
    let all = blocker_lines(t.completed_blockers);
    let heading = "\n### Completed Prerequisites\n"@;
    let none = Seq::<char>::empty();
    lemma_blocker_told(t.completed_blockers, b);
    let section = blocker_section(t.completed_blockers);
    assert(section =~= heading + all + none);
    lemma_part(heading, all, none);
    lemma_inside(section, all, blocker_line(b));
    let front = "## Assigned Task\n\n**ID:** "@ + t.task_id + "\n**Title:** "@ + t.title
        + "\n\n### Description\n"@ + t.description + "\n"@ + parent_section(t.parent);
    assert(task_context(t) =~= front + section + none);
    lemma_part(front, section, none);
    lemma_inside(task_context(t), section, blocker_line(b));
}

proof fn lemma_retry_told(info: (i32, i32, Seq<char>))
    ensures
        contains(
            retry_section(Some(info)),
            "**This is retry attempt "@ + decimal_int(info.0 as int) + " of "@ + decimal_int(
                info.1 as int,
            ) + ".**"@,
        ),
        contains(retry_section(Some(info)), "\n\n> "@ + info.2 + "\n\n"@),
{
    let r = retry_section(Some(info));
    let head = "\n## Retry Information\n\n"@;
    let mid = "\n\nThe previous attempt failed verification with the following reason:"@;
    let tail = "Fix the issues identified above before marking the task as done.\n"@;
    let told = "**This is retry attempt "@ + decimal_int(info.0 as int) + " of "@ + decimal_int(
        info.1 as int,
    ) + ".**"@;
    let why = "\n\n> "@ + info.2 + "\n\n"@;
    reveal_strlit("\n## Retry Information\n\n");
    reveal_strlit("**This is retry attempt ");
    reveal_strlit("\n## Retry Information\n\n**This is retry attempt ");
    assert("\n## Retry Information\n\n**This is retry attempt "@ =~= head
        + "**This is retry attempt "@);
    reveal_strlit(".**");
    reveal_strlit("\n\nThe previous attempt failed verification with the following reason:");
    reveal_strlit("\n\n> ");
    reveal_strlit(
        ".**\n\nThe previous attempt failed verification with the following reason:\n\n> ",
    );
    assert(".**\n\nThe previous attempt failed verification with the following reason:\n\n> "@
        =~= ".**"@ + mid + "\n\n> "@);
    reveal_strlit("\n\n");
    reveal_strlit("Fix the issues identified above before marking the task as done.\n");
    reveal_strlit("\n\nFix the issues identified above before marking the task as done.\n");
    assert("\n\nFix the issues identified above before marking the task as done.\n"@ =~= "\n\n"@
        + tail);
    assert(r =~= head + told + (mid + why + tail));
    lemma_part(head, told, mid + why + tail);
    assert(r =~= (head + told + mid) + why + tail);
    lemma_part(head + told + mid, why, tail);
}

proof fn lemma_blocker_told(s: Seq<BlockerView>, b: BlockerView)
    requires
        s.contains(b),
    ensures
        contains(blocker_lines(s), blocker_line(b)),
    decreases s.len(),
{
    let d = s.drop_last();
    if d.contains(b) {
        lemma_blocker_told(d, b);
        crate::text::search::lemma_contains_left(
            blocker_lines(d),
            blocker_line(s.last()),
            blocker_line(b),
        );
    } else {
        let i = choose|i: int| 0 <= i < s.len() && s[i] == b;
        if i < d.len() {
            assert(d[i] == b);
        }
        crate::text::search::lemma_contains_self(blocker_line(b));
        crate::text::search::lemma_contains_right(
            blocker_lines(d),
            blocker_line(s.last()),
            blocker_line(b),
        );
    }
}

} // verus!
