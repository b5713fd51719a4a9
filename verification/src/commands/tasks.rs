//! The commands on tasks.

use vstd::prelude::*;

use crate::commands::lines::{
    log_lines, log_texts, push_line, push_lines, task_line, task_lines, task_text, task_texts,
};
use crate::dag::claims::{after_status, with_log};
use crate::dag::crud::{
    after_delete, delete_from, delete_refusal, first_free, updated, CreateTaskParams, TaskUpdate,
};
use crate::dag::dependencies::{closes_cycle, other_than};
use crate::dag::model::{
    has_feature, has_task, lemma_pos_of, pos, task_views, DagError, DagErrorView, Db, DbView, Task,
    TaskView,
};
use crate::dag::queries::{
    blocked_of, blockers_of, listed, logs_of, selected, Select,
};
use crate::dag::transitions::lemma_status_set_keeps;
use crate::feature::{feature_pos, has_name, name_pos};
use crate::output::effect::{
    effect_views, explored, show_result_if_ui_active, unless_ui, Effect, EffectView,
};
use crate::output::formatter::print_info;
use crate::output::style::plain;
use crate::seqs::lemma_filter_step;
use crate::text::basic::{opt_str, opt_text, same, texts};
use crate::text::number::{decimal_int, decimal_int_text};
use crate::text::shape::{lines, lines_of};

verus! {

/// The tasks of a feature.
pub open spec fn of_feature(id: Seq<char>) -> spec_fn(TaskView) -> bool {
    |t: TaskView| t.feature_id == Some(id)
}

/// The tasks with a status.
pub open spec fn with_status(s: Seq<char>) -> spec_fn(TaskView) -> bool {
    |t: TaskView| t.status == s
}

/// The tasks that a listing is about: those that are ready, or else all, or
/// else those of the feature of this name, or else those of no feature.
pub open spec fn chosen_tasks(
    db: DbView,
    ready: bool,
    all: bool,
    feature: Option<Seq<char>>,
) -> Result<Seq<TaskView>, DagErrorView> {
    if ready {
        Ok(selected(db, Select::Ready))
    } else if all {
        Ok(selected(db, Select::All))
    } else {
        match feature {
            Some(name) => if has_name(db.features, name) {
                let f = db.features[name_pos(db.features, name)].feature;
                Ok(listed(db.tasks.filter(of_feature(f.id))))
            } else {
                Err(DagErrorView::NoFeature(name))
            },
            None => Ok(selected(db, Select::Standalone)),
        }
    }
}

/// Those of the tasks that have the status, where one is asked for.
pub open spec fn narrowed(tasks: Seq<TaskView>, status: Option<Seq<char>>) -> Seq<TaskView> {
    match status {
        Some(s) => tasks.filter(with_status(s)),
        None => tasks,
    }
}

/// What a listing of tasks shows.
pub open spec fn listing_shown(ui: bool, of_feature: bool, tasks: Seq<TaskView>) -> Seq<
    EffectView,
> {
    if tasks.len() > 0 {
        explored(ui, "Task Explorer"@, task_texts("  "@, tasks))
    } else {
        unless_ui(
            ui,
            EffectView::Line(
                seq![
                    plain(
                        if of_feature {
                            "No tasks for this feature."@
                        } else {
                            "No tasks found. Run 'ralph task add' or 'ralph task create' to create one."@
                        },
                    ),
                ],
            ),
        )
    }
}

/// Tasks under a heading, where there are any.
pub open spec fn section(heading: Seq<char>, tasks: Seq<TaskView>) -> Seq<Seq<char>> {
    if tasks.len() == 0 {
        Seq::empty()
    } else {
        seq![heading] + task_texts("    "@, tasks)
    }
}

/// A blank line in front of lines, where there are any.
pub open spec fn set_off(lines: Seq<Seq<char>>) -> Seq<Seq<char>> {
    if lines.len() == 0 {
        lines
    } else {
        seq![""@] + lines
    }
}

/// The line on the feature of a task.
pub open spec fn feature_text(db: DbView, id: Seq<char>) -> Seq<char> {
    if has_feature(db.features, id) {
        let f = db.features[feature_pos(db.features, id)].feature;
        "  feature:      "@ + f.name + " ("@ + id + ")"@
    } else {
        "  feature:      "@ + id
    }
}

/// Lines, each behind four blanks.
pub open spec fn set_in(ls: Seq<Seq<char>>) -> Seq<Seq<char>> {
    ls.map_values(|l: Seq<char>| "    "@ + l)
}

/// The lines on what a task belongs to, and its plain fields.
pub open spec fn field_texts(db: DbView, t: TaskView) -> Seq<Seq<char>> {
    seq![task_text(""@, t)] + (match t.parent_id {
        Some(p) => seq!["  parent:       "@ + p],
        None => Seq::empty(),
    }) + (match t.feature_id {
        Some(f) => seq![feature_text(db, f)],
        None => Seq::empty(),
    }) + seq![
        "  priority:     "@ + decimal_int(t.priority as int),
        "  retries:      "@ + decimal_int(t.retry_count as int) + "/"@ + decimal_int(
            t.max_retries as int,
        ),
        "  verification: "@ + (match t.verification_status {
            Some(v) => v,
            None => "none"@,
        }),
        "  created:      "@ + t.created_at,
    ]
}

/// The lines on the description of a task.
pub open spec fn description_texts(d: Seq<char>) -> Seq<Seq<char>> {
    if d.len() == 0 {
        Seq::empty()
    } else {
        seq!["  Description:"@] + set_in(lines(d))
    }
}

/// All there is to say about a task.
pub open spec fn detail_texts(db: DbView, t: TaskView) -> Seq<Seq<char>> {
    field_texts(db, t) + set_off(description_texts(t.description)) + set_off(
        section("  Blocked by:"@, blockers_of(db, t.id)),
    ) + set_off(section("  Blocks:"@, blocked_of(db, t.id)))
}

/// What blocks a task, and what it blocks.
pub open spec fn dependency_texts(db: DbView, id: Seq<char>) -> Seq<Seq<char>> {
    section("  Blocked by:"@, blockers_of(db, id)) + section("  Blocks:"@, blocked_of(db, id))
}

/// What the dependencies of a task are shown as.
pub open spec fn dependencies_shown(db: DbView, ui: bool, id: Seq<char>) -> Seq<EffectView> {
    if blockers_of(db, id).len() == 0 && blocked_of(db, id).len() == 0 {
        unless_ui(ui, EffectView::Line(seq![plain("No dependencies for "@ + id)]))
    } else {
        explored(ui, "Dependencies for "@ + id, dependency_texts(db, id))
    }
}

/// What the log of a task is shown as.
pub open spec fn log_shown(db: DbView, ui: bool, id: Seq<char>) -> Seq<EffectView> {
    if logs_of(db, id).len() == 0 {
        explored(ui, "Task Log"@, seq!["No log entries for "@ + id])
    } else {
        explored(ui, "Task Log "@ + id, log_texts(logs_of(db, id)))
    }
}

/// A change of a task that a command makes.
#[derive(Debug)]
pub enum TaskChange {
    Update(TaskUpdate),
    Delete,
    Done,
    /// Marks the task failed, for a reason.
    Fail(Option<String>),
    Reset,
    Log(String),
    /// The task must complete before the one named.
    Block(String),
    /// The task need not complete before the one named.
    Unblock(String),
}

/// The reason that is logged for a task that is marked failed.
pub open spec fn fail_reason(reason: Option<Seq<char>>) -> Seq<char> {
    match reason {
        Some(r) => r,
        None => "Manually marked as failed"@,
    }
}

/// What a change makes of the database, and why it is refused, where it is.
pub open spec fn after_change(
    db: DbView,
    id: Seq<char>,
    change: TaskChange,
    now: Seq<char>,
    later: Seq<char>,
) -> (DbView, Option<DagErrorView>) {
    if change is Block {
        let to = change->Block_0@;
        if closes_cycle(db.deps, id, to) {
            (db, Some(DagErrorView::Cycle(id, to)))
        } else if !has_task(db.tasks, id) || !has_task(db.tasks, to) || db.deps.contains(
            (id, to),
        ) {
            (db, Some(DagErrorView::NotAdded(id, to)))
        } else {
            (DbView { deps: db.deps.push((id, to)), ..db }, None)
        }
    } else if change is Unblock {
        (DbView { deps: db.deps.filter(other_than((id, change->Unblock_0@))), ..db }, None)
    } else if !has_task(db.tasks, id) {
        (db, Some(DagErrorView::NoTask(id)))
    } else {
        let i = pos(db.tasks, id);
        match change {
            TaskChange::Update(u) => (
                DbView { tasks: db.tasks.update(i, updated(db.tasks[i], u, now)), ..db },
                None,
            ),
            TaskChange::Delete => {
                let d = delete_from(db, i, Set::empty());
                (after_delete(db, d), delete_refusal(db.tasks, d.1))
            },
            TaskChange::Done => (after_status(db, id, "done"@, now), None),
            TaskChange::Fail(r) => (
                with_log(after_status(db, id, "failed"@, now), id, fail_reason(opt_text(r)), later),
                None,
            ),
            TaskChange::Reset => (after_status(db, id, "pending"@, now), None),
            TaskChange::Log(m) => (with_log(db, id, m@, now), None),
            TaskChange::Block(_) => (db, None),
            TaskChange::Unblock(_) => (db, None),
        }
    }
}

/// What is said of a change: a title, and lines.
pub open spec fn change_report(id: Seq<char>, change: TaskChange) -> (Seq<char>, Seq<Seq<char>>) {
    match change {
        TaskChange::Update(_) => ("Task Updated"@, seq!["Updated task "@ + id]),
        TaskChange::Delete => ("Task Deleted"@, seq!["Deleted task "@ + id]),
        TaskChange::Done => ("Task Updated"@, seq!["Marked "@ + id + " as done"@]),
        TaskChange::Fail(r) => (
            "Task Updated"@,
            seq!["Marked "@ + id + " as failed"@, "Reason: "@ + fail_reason(opt_text(r))],
        ),
        TaskChange::Reset => ("Task Updated"@, seq!["Reset "@ + id + " to pending"@]),
        TaskChange::Log(_) => ("Task Log Updated"@, seq!["Added log entry to "@ + id]),
        TaskChange::Block(b) => (
            "Dependency Added"@,
            seq!["Added dependency: "@ + id + " must complete before "@ + b@],
        ),
        TaskChange::Unblock(b) => (
            "Dependency Removed"@,
            seq!["Removed dependency: "@ + id + " -> "@ + b@],
        ),
    }
}

/// A text between two others.
fn wrapped(a: &str, b: &str, c: &str) -> (r: String)
    ensures
        r@ == a@ + b@ + c@,
{
    let mut r = a.to_owned();
    r.append(b);
    r.append(c);
    r
}

/// One line alone.
fn one_line(line: String) -> (r: Vec<String>)
    ensures
        texts(r@) == seq![line@],
{
    let mut r: Vec<String> = Vec::new();
    let ghost l = line@;
    push_line(&mut r, line);
    assert(texts(r@) =~= seq![l]);
    r
}

/// Says of a change what it did.
pub fn report_change(ui: bool, id: &str, change: &TaskChange) -> (r: Vec<Effect>)
    ensures
        effect_views(r@) == explored(
            ui,
            change_report(id@, *change).0,
            change_report(id@, *change).1,
        ),
{
    proof {
        reveal_strlit("");
    }
    match change {
        TaskChange::Update(_) => {
            let line = wrapped("Updated task ", id, "");
            assert(line@ =~= "Updated task "@ + id@);
            show_result_if_ui_active(ui, "Task Updated", one_line(line))
        },
        TaskChange::Delete => {
            let line = wrapped("Deleted task ", id, "");
            assert(line@ =~= "Deleted task "@ + id@);
            show_result_if_ui_active(ui, "Task Deleted", one_line(line))
        },
        TaskChange::Done => show_result_if_ui_active(
            ui,
            "Task Updated",
            one_line(wrapped("Marked ", id, " as done")),
        ),
        TaskChange::Fail(reason) => {
            let mut ls = one_line(wrapped("Marked ", id, " as failed"));
            let mut line = "Reason: ".to_owned();
            match reason {
                Some(x) => line.append(x.as_str()),
                None => line.append("Manually marked as failed"),
            }
            push_line(&mut ls, line);
            assert(texts(ls@) =~= change_report(id@, *change).1);
            show_result_if_ui_active(ui, "Task Updated", ls)
        },
        TaskChange::Reset => show_result_if_ui_active(
            ui,
            "Task Updated",
            one_line(wrapped("Reset ", id, " to pending")),
        ),
        TaskChange::Log(_) => {
            let line = wrapped("Added log entry to ", id, "");
            assert(line@ =~= "Added log entry to "@ + id@);
            show_result_if_ui_active(ui, "Task Log Updated", one_line(line))
        },
        TaskChange::Block(b) => {
            let mut line = wrapped("Added dependency: ", id, " must complete before ");
            line.append(b.as_str());
            show_result_if_ui_active(ui, "Dependency Added", one_line(line))
        },
        TaskChange::Unblock(b) => {
            let mut line = wrapped("Removed dependency: ", id, " -> ");
            line.append(b.as_str());
            show_result_if_ui_active(ui, "Dependency Removed", one_line(line))
        },
    }
}

/// A change that the user is asked about.
#[derive(Debug, Clone, Copy, PartialEq, Eq, Structural)]
pub enum Question {
    Delete,
    Done,
    Fail,
    Reset,
}

/// The title of a question, and the question.
pub open spec fn question_text(q: Question, id: Seq<char>) -> (Seq<char>, Seq<char>) {
    match q {
        Question::Delete => ("Delete Task"@, "Delete task '"@ + id + "'?"@),
        Question::Done => ("Mark Task Done"@, "Mark task '"@ + id + "' as done?"@),
        Question::Fail => ("Mark Task Failed"@, "Mark task '"@ + id + "' as failed?"@),
        Question::Reset => ("Reset Task"@, "Reset task '"@ + id + "' to pending?"@),
    }
}

/// The title of a question, and the question.
pub fn ask(q: Question, id: &str) -> (r: (String, String))
    ensures
        (r.0@, r.1@) == question_text(q, id@),
{
    match q {
        Question::Delete => ("Delete Task".to_owned(), wrapped("Delete task '", id, "'?")),
        Question::Done => ("Mark Task Done".to_owned(), wrapped("Mark task '", id, "' as done?")),
        Question::Fail => (
            "Mark Task Failed".to_owned(),
            wrapped("Mark task '", id, "' as failed?"),
        ),
        Question::Reset => (
            "Reset Task".to_owned(),
            wrapped("Reset task '", id, "' to pending?"),
        ),
    }
}

/// Whether the user must be asked: not where the question is waived, nor where
/// there is no dashboard to ask it in.
pub fn must_ask(ui: bool, bypass: bool) -> (r: bool)
    ensures
        r == (ui && !bypass),
{
    ui && !bypass
}

/// Whether a change goes ahead, by the answer where the user was asked. No
/// answer is a refusal.
pub fn confirm_if_ui_active(ui: bool, bypass: bool, answer: Option<bool>) -> (r: bool)
    ensures
        r == (bypass || !ui || answer == Some(true)),
{
    if !must_ask(ui, bypass) {
        return true;
    }
    match answer {
        Some(a) => a,
        None => false,
    }
}

/// Shows a listing of tasks.
pub fn show_listing(ui: bool, of_feature: bool, tasks: &Vec<Task>) -> (r: Vec<Effect>)
    ensures
        effect_views(r@) == listing_shown(ui, of_feature, task_views(tasks@)),
{
    if tasks.len() == 0 {
        if of_feature {
            print_info(ui, "No tasks for this feature.")
        } else {
            print_info(
                ui,
                "No tasks found. Run 'ralph task add' or 'ralph task create' to create one.",
            )
        }
    } else {
        show_result_if_ui_active(ui, "Task Explorer", task_lines("  ", tasks))
    }
}

/// Adds tasks under a heading, where there are any.
fn push_section(out: &mut Vec<String>, heading: &str, tasks: &Vec<Task>)
    ensures
        texts(final(out)@) == texts(old(out)@) + section(heading@, task_views(tasks@)),
{
    let ghost before = texts(out@);
    if tasks.len() > 0 {
        push_line(out, heading.to_owned());
        push_lines(out, task_lines("    ", tasks));
        assert(texts(out@) =~= before + section(heading@, task_views(tasks@)));
    } else {
        assert(texts(out@) =~= before + section(heading@, task_views(tasks@)));
    }
}

/// Adds the description of a task, set off by a blank line.
fn push_description(out: &mut Vec<String>, description: &str)
    ensures
        texts(final(out)@) == texts(old(out)@) + set_off(description_texts(description@)),
{
    let ghost start = texts(out@);
    if description.is_empty() {
        assert(texts(out@) =~= start + set_off(description_texts(description@)));
        return;
    }
    push_line(out, "".to_owned());
    push_line(out, "  Description:".to_owned());
    let ls = lines_of(description);
    let ghost all = texts(ls@);
    let ghost head = start.push(""@).push("  Description:"@);
    let mut i: usize = 0;
    assert(head + set_in(all.take(0)) =~= head);
    while i < ls.len()
        invariant
            i <= ls@.len(),
            all == texts(ls@),
            texts(out@) == head + set_in(all.take(i as int)),
        decreases ls@.len() - i,
    {
        let mut line = "    ".to_owned();
        line.append(ls[i].as_str());
        let ghost lv = line@;
        push_line(out, line);
        assert(head + set_in(all.take(i + 1)) =~= (head + set_in(all.take(i as int))).push(lv));
        i = i + 1;
    }
    assert(all.take(all.len() as int) =~= all);
    assert(texts(out@) =~= start + set_off(description_texts(description@)));
}

impl Db {
    /// The tasks that a listing is about.
    pub fn tasks_to_list(
        &self,
        ready: bool,
        all: bool,
        feature: &Option<String>,
        status: &Option<String>,
    ) -> (r: Result<Vec<Task>, DagError>)
        requires
            self@.wf(),
        ensures
            match chosen_tasks(self@, ready, all, opt_text(*feature)) {
                Ok(v) => r is Ok && task_views(r->Ok_0@) == narrowed(v, opt_text(*status)),
                Err(e) => r is Err && r->Err_0@ == e,
            },
    {
        let chosen = if ready {
            self.get_ready_tasks()
        } else if all {
            self.get_all_tasks()
        } else {
            match feature {
                Some(name) => match self.get_feature(name.as_str()) {
                    Ok(f) => {
                        let id = f.id.as_str();
                        assert(Select::OfFeature(id).pred(self@) =~= of_feature(id@));
                        self.get_all_tasks_for_feature(id)
                    },
                    Err(e) => {
                        return Err(e);
                    },
                },
                None => self.get_standalone_tasks(),
            }
        };
        match status {
            None => Ok(chosen),
            Some(s) => {
                let ghost v = task_views(chosen@);
                let ghost p = with_status(s@);
                let mut kept: Vec<Task> = Vec::new();
                let mut i: usize = 0;
                assert(task_views(kept@) =~= v.take(0).filter(p)) by {
                    reveal(Seq::filter);
                }
                while i < chosen.len()
                    invariant
                        i <= chosen@.len(),
                        v == task_views(chosen@),
                        p == with_status(s@),
                        task_views(kept@) == v.take(i as int).filter(p),
                    decreases chosen@.len() - i,
                {
                    assert(v[i as int] == chosen@[i as int]@);
                    proof {
                        lemma_filter_step(v, p, i as int);
                    }
                    if same(chosen[i].status.as_str(), s.as_str()) {
                        let ghost before = kept@;
                        kept.push(chosen[i].clone());
                        assert(task_views(kept@) =~= task_views(before).push(v[i as int]));
                    }
                    i = i + 1;
                }
                assert(v.take(v.len() as int) =~= v);
                Ok(kept)
            },
        }
    }

    /// The line on the feature of a task.
    fn feature_line(&self, id: &str) -> (r: String)
        requires
            self@.wf(),
        ensures
            r@ == feature_text(self@, id@),
    {
        let mut line = "  feature:      ".to_owned();
        match self.get_feature_by_id(id) {
            Ok(f) => {
                line.append(f.name.as_str());
                line.append(" (");
                line.append(id);
                line.append(")");
            },
            Err(_) => {
                line.append(id);
            },
        }
        line
    }

    /// All there is to say about a task, line by line.
    pub fn render_task_details_lines(&self, task: &Task) -> (r: Vec<String>)
        requires
            self@.wf(),
        ensures
            texts(r@) == detail_texts(self@, task@),
    {
        let ghost db = self@;
        let ghost t = task@;
        let mut out: Vec<String> = Vec::new();
        push_line(&mut out, task_line("", task));
        assert(texts(out@) =~= seq![task_text(""@, t)]);
        match &task.parent_id {
            Some(p) => {
                push_line(&mut out, wrapped("  parent:       ", p.as_str(), ""));
            },
            None => {},
        }
        match &task.feature_id {
            Some(f) => {
                push_line(&mut out, self.feature_line(f.as_str()));
            },
            None => {},
        }
        push_line(
            &mut out,
            wrapped("  priority:     ", decimal_int_text(task.priority as i64).as_str(), ""),
        );
        let mut retries = wrapped(
            "  retries:      ",
            decimal_int_text(task.retry_count as i64).as_str(),
            "/",
        );
        retries.append(decimal_int_text(task.max_retries as i64).as_str());
        push_line(&mut out, retries);
        let verification = match &task.verification_status {
            Some(v) => wrapped("  verification: ", v.as_str(), ""),
            None => wrapped("  verification: ", "none", ""),
        };
        push_line(&mut out, verification);
        push_line(&mut out, wrapped("  created:      ", task.created_at.as_str(), ""));
        proof {
            reveal_strlit("");
            assert(forall|a: Seq<char>| #[trigger] (a + ""@) =~= a);
            assert(texts(out@) =~= field_texts(db, t));
        }
        push_description(&mut out, task.description.as_str());
        let blockers = self.get_task_blockers(task.id.as_str());
        let ghost before = texts(out@);
        if blockers.len() > 0 {
            push_line(&mut out, "".to_owned());
        }
        push_section(&mut out, "  Blocked by:", &blockers);
        assert(texts(out@) =~= before + set_off(section("  Blocked by:"@, blockers_of(db, t.id))));
        let blocks = self.get_tasks_blocked_by(task.id.as_str());
        let ghost before2 = texts(out@);
        if blocks.len() > 0 {
            push_line(&mut out, "".to_owned());
        }
        push_section(&mut out, "  Blocks:", &blocks);
        assert(texts(out@) =~= before2 + set_off(section("  Blocks:"@, blocked_of(db, t.id))));
        out
    }

    /// Shows what blocks a task, and what it blocks.
    pub fn show_dependencies(&self, ui: bool, id: &str) -> (r: Vec<Effect>)
        requires
            self@.wf(),
        ensures
            effect_views(r@) == dependencies_shown(self@, ui, id@),
    {
        let blockers = self.get_task_blockers(id);
        let blocks = self.get_tasks_blocked_by(id);
        proof {
            reveal_strlit("");
            assert(forall|a: Seq<char>| #[trigger] (a + ""@) =~= a);
        }
        if blockers.len() == 0 && blocks.len() == 0 {
            return print_info(ui, wrapped("No dependencies for ", id, "").as_str());
        }
        let mut out: Vec<String> = Vec::new();
        push_section(&mut out, "  Blocked by:", &blockers);
        push_section(&mut out, "  Blocks:", &blocks);
        assert(texts(out@) =~= dependency_texts(self@, id@));
        show_result_if_ui_active(ui, wrapped("Dependencies for ", id, "").as_str(), out)
    }

    /// Shows the log of a task.
    pub fn show_log(&self, ui: bool, id: &str) -> (r: Vec<Effect>)
        ensures
            effect_views(r@) == log_shown(self@, ui, id@),
    {
        let logs = self.get_task_logs(id);
        proof {
            reveal_strlit("");
            assert(forall|a: Seq<char>| #[trigger] (a + ""@) =~= a);
        }
        if logs.len() == 0 {
            show_result_if_ui_active(
                ui,
                "Task Log",
                one_line(wrapped("No log entries for ", id, "")),
            )
        } else {
            show_result_if_ui_active(ui, wrapped("Task Log ", id, "").as_str(), log_lines(&logs))
        }
    }

    /// Adds a task, of a feature where one is named, and else of none.
    pub fn add_task(
        &mut self,
        title: &str,
        description: Option<&str>,
        parent: Option<&str>,
        feature: Option<&str>,
        priority: i32,
        max_retries: i32,
        ids: &Vec<String>,
        now: &str,
    ) -> (r: Result<Task, DagError>)
        requires
            old(self)@.wf(),
            ids@.len() > 0,
        ensures
            final(self)@.wf(),
            ({
                let db = old(self)@;
                let free = first_free(db.tasks, texts(ids@), 0);
                if parent is Some && !has_task(db.tasks, parent->0@) {
                    r is Err && r->Err_0@ == DagErrorView::NoParent(parent->0@) && final(self)@
                        == db
                } else if free is None || (feature is Some && !has_feature(
                    db.features,
                    feature->0@,
                )) {
                    r is Err && r->Err_0@ == DagErrorView::IdsExhausted(ids@.len()) && final(self)@
                        == db
                } else {
                    let row = TaskView {
                        id: texts(ids@)[free->0],
                        title: title@,
                        description: match description {
                            Some(d) => d@,
                            None => Seq::empty(),
                        },
                        status: "pending"@,
                        parent_id: opt_str(parent),
                        feature_id: opt_str(feature),
                        task_type: if feature is Some {
                            "feature"@
                        } else {
                            "standalone"@
                        },
                        priority,
                        retry_count: 0,
                        max_retries,
                        verification_status: None,
                        created_at: now@,
                        updated_at: now@,
                        claimed_by: None,
                    };
                    r is Ok && r->Ok_0@ == row && final(self)@ == (DbView {
                        tasks: db.tasks.push(row),
                        ..db
                    })
                }
            }),
    {
        let task_type = match feature {
            Some(_) => "feature",
            None => "standalone",
        };
        self.create_task_with_feature(
            CreateTaskParams {
                title,
                description,
                parent_id: parent,
                priority,
                feature_id: feature,
                task_type,
                max_retries,
            },
            ids,
            now,
        )
    }

    /// Makes a change of a task.
    pub fn change_task(&mut self, id: &str, change: TaskChange, now: &str, later: &str) -> (r:
        Result<(), DagError>)
        requires
            old(self)@.wf(),
        ensures
            final(self)@.wf(),
            final(self)@ == after_change(old(self)@, id@, change, now@, later@).0,
            match after_change(old(self)@, id@, change, now@, later@).1 {
                Some(e) => r is Err && r->Err_0@ == e,
                None => r is Ok,
            },
    {
        let ghost db = self@;
        match change {
            TaskChange::Update(u) => match self.update_task(id, u, now) {
                Ok(_) => Ok(()),
                Err(e) => Err(e),
            },
            TaskChange::Delete => self.delete_task(id),
            TaskChange::Done => self.force_complete_task(id, now),
            TaskChange::Fail(reason) => {
                match self.force_fail_task(id, now) {
                    Err(e) => {
                        return Err(e);
                    },
                    Ok(()) => {},
                }
                proof {
                    lemma_pos_of(db.tasks, id@);
                    lemma_status_set_keeps(db, id@, "failed"@, now@);
                    let i = pos(db.tasks, id@);
                    assert(self@.tasks[i].id == id@);
                }
                match reason {
                    Some(text) => self.add_log(id, text.as_str(), later),
                    None => self.add_log(id, "Manually marked as failed", later),
                }
            },
            TaskChange::Reset => self.force_reset_task(id, now),
            TaskChange::Log(message) => self.add_log(id, message.as_str(), now),
            TaskChange::Block(blocked) => self.add_dependency(id, blocked.as_str()),
            TaskChange::Unblock(blocked) => {
                self.remove_dependency(id, blocked.as_str());
                Ok(())
            },
        }
    }
}

} // verus!
