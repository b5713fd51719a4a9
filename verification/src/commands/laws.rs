//! What the commands decide, by the rows of the task database.

use vstd::prelude::*;

use crate::commands::features::{
    all_documented, created_shown, documented, doomed_tasks_shown, feature_line_text,
    missing_text, of_feature_with, padded, phase_shown, ready_of, with_document,
};
use crate::commands::lines::{status_span, task_text, task_texts};
use crate::commands::run::{
    auth_end_shown, end_shown, exit_code, refusal_text, run_target, summary_text, RunRefusalView,
};
use crate::commands::tasks::{
    after_change, change_report, chosen_tasks, detail_texts, field_texts, listing_shown, narrowed,
    of_feature, section, set_off, with_status, TaskChange,
};
use crate::commands::tree::{first_place, is_last_child, row_effect, rows_below, tree_rows};
use crate::config::RunTargetView;
use crate::dag::model::{
    has_task, is_task_status, lemma_pos_of, lemma_status_names, pos, DagErrorView, DbView,
    FeatureRowView, FeatureView, LogView, TaskView,
};
use crate::dag::queries::{
    blocked_of, blockers_of, law_listed_order, law_listing_order, law_selected_members, listed,
    selected, Select,
};
use crate::dag::tasks::is_child;
use crate::dag::transitions::lemma_status_set_keeps;
use crate::dag::tree::tree_order;
use crate::feature::{draft_row, feature_pos, listed_features, name_pos};
use crate::order::{law_stable_order, lemma_picked_order, pick, stable_order, text_le};
use crate::output::effect::EffectView;
use crate::output::style::{Hue, Style};
use crate::review::{lemma_part, DocumentKind};
use crate::run_loop::start::Outcome;
use crate::seqs::{lemma_filter_members, lemma_filter_order};
use crate::text::number::{decimal, decimal_int};
use crate::text::search::{contains, starts_with};

verus! {

/// What may be run: a name that begins with `t-` is a task, which must exist; any
/// other is a feature, which must exist and be ready or running already.
pub proof fn law_run_target(db: DbView, target: Seq<char>, i: int)
    requires
        db.wf(),
    ensures
        starts_with(target, "t-"@) ==> {
            &&& 0 <= i < db.tasks.len() && db.tasks[i].id == target ==> run_target(db, target)
                == Ok::<RunTargetView, RunRefusalView>(RunTargetView::Task(target))
            &&& (forall|k: int| 0 <= k < db.tasks.len() ==> (#[trigger] db.tasks[k]).id != target)
                ==> run_target(db, target) is Err
        },
        !starts_with(target, "t-"@) ==> {
            &&& 0 <= i < db.features.len() && db.features[i].feature.name == target ==> {
                let status = db.features[i].feature.status;
                &&& run_target(db, target) is Ok <==> status == "ready"@ || status == "running"@
                &&& run_target(db, target) is Ok ==> run_target(db, target)->Ok_0
                    == RunTargetView::Feature(target)
                &&& run_target(db, target) is Err ==> run_target(db, target)->Err_0
                    == RunRefusalView::NotReady(target, status)
            }
            &&& (forall|k: int|
                0 <= k < db.features.len() ==> (#[trigger] db.features[k]).feature.name != target)
                ==> run_target(db, target) is Err && run_target(db, target)->Err_0
                == RunRefusalView::Unknown(DagErrorView::NoFeature(target))
        },
{
    if 0 <= i < db.features.len() && db.features[i].feature.name == target {
        let j = name_pos(db.features, target);
        assert(0 <= j < db.features.len() && db.features[j].feature.name == target);
        if i < j {
            assert(db.features[i].feature.name != db.features[j].feature.name);
        } else if j < i {
            assert(db.features[j].feature.name != db.features[i].feature.name);
        }
    }
}

/// The exit code is 0 where the run is complete, reached its limit or was
/// interrupted, and tells a failure, a blocked run and a missing plan apart.
pub proof fn law_exit_codes(o: Outcome)
    ensures
        exit_code(o) == 0 <==> o == Outcome::Complete || o == Outcome::LimitReached || o
            == Outcome::Interrupted,
        exit_code(o) == 1 <==> o == Outcome::Failure,
        exit_code(o) == 2 <==> o == Outcome::Blocked,
        exit_code(o) == 3 <==> o == Outcome::NoPlan,
{
}

/// What a listing shows: the ready tasks where those are asked for, else all
/// where all are, else those of the feature that is named, else the standalone
/// ones; of these, those with the status where one is given.
pub proof fn law_listing_choice(
    db: DbView,
    ready: bool,
    all: bool,
    j: int,
    status: Option<Seq<char>>,
    t: TaskView,
)
    requires
        db.wf(),
        0 <= j < db.features.len(),
    ensures
        ({
            let name = db.features[j].feature.name;
            let of = chosen_tasks(db, ready, all, Some(name));
            let none = chosen_tasks(db, ready, all, None);
            let fits = status is Some ==> t.status == status->0;
            &&& of is Ok && none is Ok
            &&& ready ==> {
                &&& of->Ok_0 == selected(db, Select::Ready)
                &&& none->Ok_0 == selected(db, Select::Ready)
            }
            &&& !ready && all ==> (narrowed(none->Ok_0, status).contains(t) <==> db.tasks.contains(t)
                && fits)
            &&& !ready && !all ==> (narrowed(of->Ok_0, status).contains(t) <==> db.tasks.contains(t)
                && t.feature_id == Some(db.features[j].feature.id) && fits)
            &&& !ready && !all ==> (narrowed(none->Ok_0, status).contains(t)
                <==> db.tasks.contains(t) && t.task_type == "standalone"@ && fits)
        }),
{
    let name = db.features[j].feature.name;
    let i = name_pos(db.features, name);
    assert(0 <= i < db.features.len() && db.features[i].feature.name == name);
    if i < j {
        assert(db.features[i].feature.name != db.features[j].feature.name);
    } else if j < i {
        assert(db.features[j].feature.name != db.features[i].feature.name);
    }
    let f = db.features[j].feature.id;
    law_selected_members(db, Select::All, t);
    law_selected_members(db, Select::Standalone, t);
    let rows = db.tasks.filter(of_feature(f));
    lemma_filter_members(db.tasks, of_feature(f), t);
    lemma_listed_members(rows, t);
    if status is Some {
        let p = with_status(status->0);
        lemma_filter_members(selected(db, Select::All), p, t);
        lemma_filter_members(selected(db, Select::Standalone), p, t);
        lemma_filter_members(listed(rows), p, t);
    }
}

proof fn lemma_listed_members(s: Seq<TaskView>, t: TaskView)
    ensures
        listed(s).contains(t) <==> s.contains(t),
{
    let keys = crate::dag::queries::task_keys(s);
    let o = stable_order(keys);
    law_stable_order(keys);
    crate::order::lemma_arrangement_onto(o, s.len() as int);
    if listed(s).contains(t) {
        let k = choose|k: int| 0 <= k < o.len() && listed(s)[k] == t;
        assert(s[o[k]] == t);
    }
    if s.contains(t) {
        let i = choose|i: int| 0 <= i < s.len() && s[i] == t;
        assert(o.contains(i));
        let k = choose|k: int| 0 <= k < o.len() && o[k] == i;
        assert(listed(s)[k] == t);
    }
}

/// Whatever is listed, and by whatever status it is narrowed down, stands by
/// priority and then by time of creation.
pub proof fn law_listing_choice_order(
    db: DbView,
    ready: bool,
    all: bool,
    feature: Option<Seq<char>>,
    status: Option<Seq<char>>,
    x: int,
    y: int,
)
    requires
        chosen_tasks(db, ready, all, feature) is Ok,
        0 <= x < y < narrowed(chosen_tasks(db, ready, all, feature)->Ok_0, status).len(),
    ensures
        ({
            let s = narrowed(chosen_tasks(db, ready, all, feature)->Ok_0, status);
            &&& s[x].priority <= s[y].priority
            &&& s[x].priority == s[y].priority ==> text_le(s[x].created_at, s[y].created_at)
        }),
{
    let s = chosen_tasks(db, ready, all, feature)->Ok_0;
    let r = if status is Some {
        lemma_filter_order(s, with_status(status->0), x, y)
    } else {
        (x, y)
    };
    if ready {
        law_listing_order(db, Select::Ready, r.0, r.1);
    } else if all {
        law_listing_order(db, Select::All, r.0, r.1);
    } else if feature is Some {
        let f = db.features[name_pos(db.features, feature->0)].feature;
        law_listed_order(db.tasks.filter(of_feature(f.id)), r.0, r.1);
    } else {
        law_listing_order(db, Select::Standalone, r.0, r.1);
    }
}

/// A task that is marked by hand takes the status whatever it had, and keeps its
/// holder and its count of retries; one that is marked failed gets a log entry
/// with the reason, or with words of its own where none is given.
pub proof fn law_marked_by_hand(
    db: DbView,
    id: Seq<char>,
    reason: Option<String>,
    now: Seq<char>,
    later: Seq<char>,
)
    requires
        db.wf(),
        has_task(db.tasks, id),
    ensures
        ({
            let i = pos(db.tasks, id);
            let done = after_change(db, id, TaskChange::Done, now, later);
            let failed = after_change(db, id, TaskChange::Fail(reason), now, later);
            let reset = after_change(db, id, TaskChange::Reset, now, later);
            &&& done.1 is None && failed.1 is None && reset.1 is None
            &&& done.0.tasks[i].status == "done"@
            &&& failed.0.tasks[i].status == "failed"@
            &&& reset.0.tasks[i].status == "pending"@
            &&& failed.0.tasks[i].retry_count == db.tasks[i].retry_count
            &&& reset.0.tasks[i].retry_count == db.tasks[i].retry_count
            &&& done.0.logs == db.logs && reset.0.logs == db.logs
            &&& failed.0.logs == db.logs.push(
                LogView {
                    task_id: id,
                    message: match reason {
                        Some(r) => r@,
                        None => "Manually marked as failed"@,
                    },
                    timestamp: later,
                },
            )
        }),
{
    lemma_status_names();
    lemma_pos_of(db.tasks, id);
    lemma_status_set_keeps(db, id, "done"@, now);
    lemma_status_set_keeps(db, id, "failed"@, now);
    lemma_status_set_keeps(db, id, "pending"@, now);
}

/// A note on a task is logged and changes nothing else; a change of a task that
/// does not exist is refused and changes nothing.
pub proof fn law_notes_and_unknown_tasks(
    db: DbView,
    id: Seq<char>,
    message: String,
    reason: Option<String>,
    now: Seq<char>,
    later: Seq<char>,
)
    ensures
        has_task(db.tasks, id) ==> after_change(db, id, TaskChange::Log(message), now, later) == (
            DbView {
                logs: db.logs.push(
                    LogView { task_id: id, message: message@, timestamp: now },
                ),
                ..db
            },
            None::<DagErrorView>,
        ),
        !has_task(db.tasks, id) ==> {
            let refused = (db, Some(DagErrorView::NoTask(id)));
            &&& after_change(db, id, TaskChange::Log(message), now, later) == refused
            &&& after_change(db, id, TaskChange::Done, now, later) == refused
            &&& after_change(db, id, TaskChange::Fail(reason), now, later) == refused
            &&& after_change(db, id, TaskChange::Reset, now, later) == refused
            &&& after_change(db, id, TaskChange::Delete, now, later) == refused
        },
{
}

/// The details of a task tell each of its columns on a line of its own, and list
/// every task that blocks it and every task that it blocks.
pub proof fn law_details_tell(db: DbView, t: TaskView, other: TaskView)
    ensures
        ({
            let d = detail_texts(db, t);
            &&& d.contains(t.id + "  ["@ + t.status + "]  "@ + t.title)
            &&& t.parent_id is Some ==> d.contains("  parent:       "@ + t.parent_id->0)
            &&& d.contains("  priority:     "@ + decimal_int(t.priority as int))
            &&& d.contains(
                "  retries:      "@ + decimal_int(t.retry_count as int) + "/"@ + decimal_int(
                    t.max_retries as int,
                ),
            )
            &&& d.contains("  created:      "@ + t.created_at)
            &&& t.verification_status is Some ==> d.contains(
                "  verification: "@ + t.verification_status->0,
            )
            &&& blockers_of(db, t.id).contains(other) ==> d.contains("  Blocked by:"@)
                && d.contains("    "@ + other.id + "  ["@ + other.status + "]  "@ + other.title)
            &&& blocked_of(db, t.id).contains(other) ==> d.contains("  Blocks:"@) && d.contains(
                "    "@ + other.id + "  ["@ + other.status + "]  "@ + other.title,
            )
        }),
{
    reveal_strlit("");
    let f = field_texts(db, t);
    let d = detail_texts(db, t);
    assert(""@ + t.id =~= t.id);
    let p = match t.parent_id {
        Some(x) => seq!["  parent:       "@ + x],
        None => Seq::empty(),
    };
    let q = match t.feature_id {
        Some(x) => seq![crate::commands::tasks::feature_text(db, x)],
        None => Seq::empty(),
    };
    let n = (1 + p.len() + q.len()) as int;
    assert(f[0] == task_text(""@, t));
    assert(d[0] == f[0]);
    if t.parent_id is Some {
        assert(f[1] == p[0]);
        assert(d[1] == f[1]);
    }
    assert(f.len() == n + 4);
    assert(d[n] == f[n]);
    assert(d[n + 1] == f[n + 1]);
    assert(d[n + 2] == f[n + 2]);
    assert(d[n + 3] == f[n + 3]);
    let b = set_off(section("  Blocked by:"@, blockers_of(db, t.id)));
    let c = set_off(section("  Blocks:"@, blocked_of(db, t.id)));
    let about = set_off(crate::commands::tasks::description_texts(t.description));
    let m = f.len() + about.len();
    if blockers_of(db, t.id).contains(other) {
        lemma_section("  Blocked by:"@, blockers_of(db, t.id), other);
        let i = choose|i: int| 0 <= i < b.len() && b[i] == task_text("    "@, other);
        let h = choose|h: int| 0 <= h < b.len() && b[h] == "  Blocked by:"@;
        assert(d[m + i] == b[i]);
        assert(d[m + h] == b[h]);
    }
    if blocked_of(db, t.id).contains(other) {
        lemma_section("  Blocks:"@, blocked_of(db, t.id), other);
        let i = choose|i: int| 0 <= i < c.len() && c[i] == task_text("    "@, other);
        let h = choose|h: int| 0 <= h < c.len() && c[h] == "  Blocks:"@;
        assert(d[m + b.len() + i] == c[i]);
        assert(d[m + b.len() + h] == c[h]);
    }
}

proof fn lemma_section(heading: Seq<char>, tasks: Seq<TaskView>, t: TaskView)
    requires
        tasks.contains(t),
    ensures
        set_off(section(heading, tasks)).contains(heading),
        set_off(section(heading, tasks)).contains(task_text("    "@, t)),
{
    let s = section(heading, tasks);
    let r = set_off(s);
    let i = choose|i: int| 0 <= i < tasks.len() && tasks[i] == t;
    assert(task_texts("    "@, tasks)[i] == task_text("    "@, t));
    assert(s[0] == heading && s[i + 1] == task_text("    "@, t));
    assert(r[1] == s[0] && r[i + 2] == s[i + 1]);
}

/// The line on a feature tells its name and status, and, where it has tasks, how
/// many of them are done, of how many, and how many are ready: as many as the
/// listings of these hold.
pub proof fn law_feature_line(db: DbView, f: FeatureView, id: &str)
    requires
        f.id == id@,
    ensures
        ({
            let total = selected(db, Select::OfFeature(id)).len();
            let done = selected(db, Select::OfFeatureWithStatus(id, "done")).len();
            let ready = selected(db, Select::ReadyOf(id)).len();
            let head = "  "@ + padded(f.name, 16) + " ["@ + f.status + "]  "@;
            &&& total > 0 ==> feature_line_text(db, f) == head + (decimal(done) + "/"@ + decimal(
                total,
            ) + " done, "@ + decimal(ready) + " ready"@)
            &&& total == 0 && f.status == "draft"@ ==> feature_line_text(db, f) == head
                + "spec only"@
            &&& total == 0 && f.status == "planned"@ ==> feature_line_text(db, f) == head
                + "spec + plan ready"@
            &&& f.name.len() <= 16 ==> padded(f.name, 16).len() == 16
            &&& f.name.len() > 16 ==> padded(f.name, 16) == f.name
        }),
{
    let a = Select::OfFeature(id);
    let b = Select::OfFeatureWithStatus(id, "done");
    let c = Select::ReadyOf(id);
    law_listed_order(db.tasks.filter(a.pred(db)), 0, 0);
    law_listed_order(db.tasks.filter(b.pred(db)), 0, 0);
    law_listed_order(db.tasks.filter(c.pred(db)), 0, 0);
    assert(a.pred(db) =~= of_feature(f.id));
    assert(b.pred(db) =~= of_feature_with(f.id, "done"@));
    assert(c.pred(db) =~= ready_of(db, f.id));
    reveal_strlit("draft");
    reveal_strlit("planned");
    assert("draft"@.len() != "planned"@.len());
    if f.name.len() > 16 {
        assert(padded(f.name, 16) =~= f.name);
    }
}

/// A new feature is a draft without documents.
pub proof fn law_new_feature_is_a_draft(id: Seq<char>, name: Seq<char>, now: Seq<char>)
    ensures
        ({
            let r = draft_row(id, name, now);
            &&& r.feature.id == id && r.feature.name == name
            &&& r.feature.status == "draft"@
            &&& r.feature.spec_path is None && r.feature.plan_path is None
            &&& r.created_at == now && r.updated_at == now
        }),
{
}

/// A feature gets its spec without a change of status, and its plan with the
/// status "planned"; nothing else of it changes.
pub proof fn law_documents_of_a_feature(f: FeatureView, path: Seq<char>)
    ensures
        with_document(f, DocumentKind::Spec, path) == (FeatureView { spec_path: Some(path), ..f }),
        with_document(f, DocumentKind::Plan, path).plan_path == Some(path),
        with_document(f, DocumentKind::Plan, path).status == "planned"@,
        with_document(f, DocumentKind::Plan, path).spec_path == f.spec_path,
        with_document(f, DocumentKind::Plan, path).id == f.id,
        with_document(f, DocumentKind::Plan, path).name == f.name,
{
}

/// Only what a feature lacks is recorded: one that has both documents stays as it
/// is, and each that it lacks gets its path.
pub proof fn law_missing_documents(
    db: DbView,
    i: int,
    spec_path: Seq<char>,
    plan_path: Seq<char>,
    now: Seq<char>,
)
    requires
        db.wf(),
        0 <= i < db.features.len(),
    ensures
        ({
            let f = db.features[i].feature;
            let after = all_documented(db, f, spec_path, plan_path, now);
            let g = after.features[i].feature;
            &&& f.spec_path is Some && f.plan_path is Some ==> after == db
            &&& g.spec_path == if f.spec_path is None {
                Some(spec_path)
            } else {
                f.spec_path
            }
            &&& g.plan_path == if f.plan_path is None {
                Some(plan_path)
            } else {
                f.plan_path
            }
            &&& g.status == if f.plan_path is None {
                "planned"@
            } else {
                f.status
            }
            &&& g.id == f.id && g.name == f.name
        }),
{
    let f = db.features[i].feature;
    lemma_feature_at(db.features, i);
    let one = if f.spec_path is None {
        documented(db, f.id, DocumentKind::Spec, spec_path, now)
    } else {
        db
    };
    assert forall|x: int, y: int| 0 <= x < y < one.features.len() implies (
    #[trigger] one.features[x]).feature.id != (#[trigger] one.features[y]).feature.id by {
        assert(db.features[x].feature.id != db.features[y].feature.id);
    }
    lemma_feature_at(one.features, i);
}

proof fn lemma_feature_at(rows: Seq<FeatureRowView>, i: int)
    requires
        0 <= i < rows.len(),
        forall|x: int, y: int|
            0 <= x < y < rows.len() ==> (#[trigger] rows[x]).feature.id != (
            #[trigger] rows[y]).feature.id,
    ensures
        feature_pos(rows, rows[i].feature.id) == i,
{
    let j = feature_pos(rows, rows[i].feature.id);
    assert(0 <= j < rows.len() && rows[j].feature.id == rows[i].feature.id);
    if i < j {
        assert(rows[i].feature.id != rows[j].feature.id);
    } else if j < i {
        assert(rows[j].feature.id != rows[i].feature.id);
    }
}

/// The list of features holds each of them once, the oldest first.
pub proof fn law_feature_listing(rows: Seq<FeatureRowView>, x: int, y: int)
    ensures
        listed_features(rows).len() == rows.len(),
        0 <= x < y < rows.len() ==> exists|i: int, j: int|
            0 <= i < rows.len() && 0 <= j < rows.len() && i != j && (#[trigger] rows[i]).feature
                == listed_features(rows)[x] && (#[trigger] rows[j]).feature
                == listed_features(rows)[y] && text_le(rows[i].created_at, rows[j].created_at),
{
    let keys = rows.map_values(|r: FeatureRowView| (0int, r.created_at));
    let fs = rows.map_values(|r: FeatureRowView| r.feature);
    law_stable_order(keys);
    if 0 <= x < y < rows.len() {
        lemma_picked_order(fs, keys, x, y);
        let i = stable_order(keys)[x];
        let j = stable_order(keys)[y];
        assert(keys[i] == (0int, rows[i].created_at));
        assert(keys[j] == (0int, rows[j].created_at));
        assert(rows[i].feature == listed_features(rows)[x]);
        assert(rows[j].feature == listed_features(rows)[y]);
    }
}

/// The tree shows each child of a task on a row of its own, with an elbow where
/// it is the last and a tee where it is not; what stands below a child is set in
/// by a blank or by a bar.
pub proof fn law_tree_rows(
    tree: Seq<TaskView>,
    i: int,
    prefix: Seq<char>,
    from: int,
    k: int,
    row: (Seq<char>, int),
)
    requires
        0 <= from <= k < tree.len(),
        is_child(tree, i, k),
    ensures
        is_last_child(tree, i, k) ==> rows_below(tree, i, prefix, from).contains(
            (prefix + "└─ "@, k),
        ),
        !is_last_child(tree, i, k) ==> rows_below(tree, i, prefix, from).contains(
            (prefix + "├─ "@, k),
        ),
        rows_below(
            tree,
            k,
            prefix + if is_last_child(tree, i, k) {
                "   "@
            } else {
                "│  "@
            },
            k + 1,
        ).contains(row) ==> rows_below(tree, i, prefix, from).contains(row),
    decreases tree.len() - from,
{
    let all = rows_below(tree, i, prefix, from);
    let later = rows_below(tree, i, prefix, from + 1);
    if from == k {
        let (branch, inset) = if is_last_child(tree, i, k) {
            ("└─ "@, "   "@)
        } else {
            ("├─ "@, "│  "@)
        };
        let below = rows_below(tree, k, prefix + inset, k + 1);
        assert(all == seq![(prefix + branch, k)] + below + later);
        assert(all[0] == (prefix + branch, k));
        if below.contains(row) {
            let x = choose|x: int| 0 <= x < below.len() && below[x] == row;
            assert(all[x + 1] == row);
        }
    } else {
        law_tree_rows(tree, i, prefix, from + 1, k, row);
        let front = all.len() - later.len();
        assert forall|r: (Seq<char>, int)| later.contains(r) implies all.contains(r) by {
            let x = choose|x: int| 0 <= x < later.len() && later[x] == r;
            if is_child(tree, i, from) {
                let (branch, inset) = if is_last_child(tree, i, from) {
                    ("└─ "@, "   "@)
                } else {
                    ("├─ "@, "│  "@)
                };
                let below = rows_below(tree, from, prefix + inset, from + 1);
                assert(all == seq![(prefix + branch, from)] + below + later);
                assert(all[1 + below.len() + x] == r);
            } else {
                assert(all[x] == r);
            }
        }
    }
}

/// Each status is shown in a style of its own.
pub proof fn law_status_styles(s: Seq<char>)
    requires
        is_task_status(s),
    ensures
        status_span(s).1 == s,
        status_span(s).0 == Style::Color(Hue::Yellow) <==> s == "pending"@,
        status_span(s).0 == Style::Color(Hue::Cyan) <==> s == "in_progress"@,
        status_span(s).0 == Style::Color(Hue::Green) <==> s == "done"@,
        status_span(s).0 == Style::Color(Hue::Red) <==> s == "failed"@,
        status_span(s).0 == Style::Dimmed <==> s == "blocked"@,
{
    lemma_status_names();
}

/// The end of a run is spoken where it completed, failed or reached its limit,
/// and only there. The dashboard gets a status line then, and the terminal
/// nothing; without the dashboard the ends but the limit are printed.
pub proof fn law_run_end_is_told(o: Outcome, e: EffectView)
    ensures
        (exists|i: int| 0 <= i < end_shown(false, o).len() && #[trigger] end_shown(false, o)[i] is Speak)
            <==> o == Outcome::Complete || o == Outcome::Failure || o == Outcome::LimitReached,
        (exists|i: int| 0 <= i < end_shown(true, o).len() && #[trigger] end_shown(true, o)[i] is Speak)
            <==> o == Outcome::Complete || o == Outcome::Failure || o == Outcome::LimitReached,
        end_shown(true, o).contains(e) ==> e is Ui || e is Speak,
        end_shown(false, o).contains(e) ==> e is Line || e is ErrLine || e is Speak,
        o == Outcome::Complete ==> end_shown(false, o).last() == EffectView::Speak(
            "Ralph finished. Tasks complete."@,
        ),
        o == Outcome::Failure ==> end_shown(false, o).last() == EffectView::Speak(
            "Ralph failed--critical failure."@,
        ),
        o == Outcome::LimitReached ==> end_shown(false, o) == seq![
            EffectView::Speak("Ralph finished--limit hit."@),
        ],
        o != Outcome::LimitReached ==> end_shown(false, o).len() > 0 && !(end_shown(
            false,
            o,
        )[0] is Speak),
{
    assert(o == Outcome::Complete || o == Outcome::Failure || o == Outcome::LimitReached ==> {
        &&& end_shown(false, o).last() is Speak
        &&& end_shown(true, o).last() is Speak
    });
}

/// What is told of the end of a run tells the ends apart.
pub proof fn law_ends_are_told_apart(a: Outcome, b: Outcome)
    requires
        summary_text(a) == summary_text(b),
    ensures
        a == b,
{
    reveal_strlit("Tasks complete.");
    reveal_strlit("Critical failure. See progress file for details.");
    reveal_strlit("Iteration limit reached.");
    reveal_strlit("Loop blocked.");
    reveal_strlit("No plan available.");
    reveal_strlit("Run interrupted by user.");
    assert("Tasks complete."@.len() == 15 && "Loop blocked."@.len() == 13);
    assert("No plan available."@.len() == 18 && "Iteration limit reached."@.len() == 24);
    assert("Critical failure. See progress file for details."@.len() == 48);
    assert("Iteration limit reached."@[0] == 'I');
    assert("Run interrupted by user."@[0] == 'R' && "Run interrupted by user."@.len() == 24);
}

/// A feature that may not run is named with its status, and so is the command
/// that makes it ready.
pub proof fn law_refused_run_tells(name: Seq<char>, status: Seq<char>)
    ensures
        refusal_text(RunRefusalView::NotReady(name, status)) == "Feature '"@ + name
            + "' is not ready to run (status: "@ + status + "). Run 'ralph feature create "@ + name
            + "' first."@,
{
}

/// Before a feature is deleted, its tasks are counted: as many as the listings
/// hold. A warning comes exactly where some but not all are done, and another
/// exactly where some are in progress; a feature without tasks shows nothing.
pub proof fn law_doomed_tasks(db: DbView, id: &str)
    ensures
        ({
            let total = selected(db, Select::OfFeature(id)).len();
            let done = selected(db, Select::OfFeatureWithStatus(id, "done")).len();
            let running = selected(db, Select::OfFeatureWithStatus(id, "in_progress")).len();
            let blocked = selected(db, Select::OfFeatureWithStatus(id, "blocked")).len();
            let r = doomed_tasks_shown(db, false, id@);
            let partial = EffectView::ErrLine(
                seq![(Style::Color(Hue::Yellow), "Warning: this feature is partially completed."@)],
            );
            let busy = EffectView::ErrLine(
                seq![(Style::Color(Hue::Yellow), "Warning: some tasks are currently in progress."@)],
            );
            &&& doomed_tasks_shown(db, true, id@).len() == 0
            &&& total == 0 <==> r.len() == 0
            &&& total > 0 ==> {
                &&& r[0] == EffectView::Line(
                    seq![
                        (
                            Style::Plain,
                            "Tasks:   "@ + decimal(total) + " total ("@ + decimal(done) + " done, "@
                                + decimal(running) + " in progress, "@ + decimal(blocked)
                                + " blocked)"@,
                        ),
                    ],
                )
                &&& r.contains(partial) <==> 0 < done < total
                &&& r.contains(busy) <==> running > 0
            }
        }),
{
    lemma_count(db, Select::OfFeature(id));
    lemma_count(db, Select::OfFeatureWithStatus(id, "done"));
    lemma_count(db, Select::OfFeatureWithStatus(id, "in_progress"));
    lemma_count(db, Select::OfFeatureWithStatus(id, "blocked"));
    assert(Select::OfFeature(id).pred(db) =~= of_feature(id@));
    assert(Select::OfFeatureWithStatus(id, "done").pred(db) =~= of_feature_with(id@, "done"@));
    assert(Select::OfFeatureWithStatus(id, "in_progress").pred(db) =~= of_feature_with(
        id@,
        "in_progress"@,
    ));
    assert(Select::OfFeatureWithStatus(id, "blocked").pred(db) =~= of_feature_with(
        id@,
        "blocked"@,
    ));
    let total = db.tasks.filter(of_feature(id@)).len();
    let done = db.tasks.filter(of_feature_with(id@, "done"@)).len();
    let running = db.tasks.filter(of_feature_with(id@, "in_progress"@)).len();
    let a = "Warning: this feature is partially completed."@;
    let b = "Warning: some tasks are currently in progress."@;
    reveal_strlit("Warning: this feature is partially completed.");
    reveal_strlit("Warning: some tasks are currently in progress.");
    assert(a.len() != b.len());
    let y = Style::Color(Hue::Yellow);
    let s = seq![(y, a)];
    let t = seq![(y, b)];
    assert(s[0].1 == a && t[0].1 == b);
    let r = doomed_tasks_shown(db, false, id@);
    if total > 0 {
        let x = r[0];
        if 0 < done < total && running > 0 {
            assert(r =~= seq![x, EffectView::ErrLine(s), EffectView::ErrLine(t)]);
            assert(r[1] == EffectView::ErrLine(s) && r[2] == EffectView::ErrLine(t));
        } else if 0 < done < total {
            assert(r =~= seq![x, EffectView::ErrLine(s)]);
            assert(r[1] == EffectView::ErrLine(s));
        } else if running > 0 {
            assert(r =~= seq![x, EffectView::ErrLine(t)]);
            assert(r[1] == EffectView::ErrLine(t));
        } else {
            assert(r =~= seq![x]);
        }
    }
}

proof fn lemma_count(db: DbView, s: Select)
    ensures
        selected(db, s).len() == db.tasks.filter(s.pred(db)).len(),
{
    law_listed_order(db.tasks.filter(s.pred(db)), 0, 0);
}

/// After a feature was broken down, the number of the tasks below its root is
/// told, or, where there are none, a warning comes.
pub proof fn law_created_tasks(db: DbView, name: Seq<char>, root: Seq<char>)
    ensures
        ({
            let tree = pick(db.tasks, tree_order(db.tasks, pos(db.tasks, root)));
            let r = created_shown(db, false, name, root);
            &&& tree.len() == 1 ==> r == seq![
                EffectView::ErrLine(
                    seq![
                        (
                            Style::Color(Hue::Yellow),
                            "Warning: no child tasks were created under "@ + root,
                        ),
                    ],
                ),
            ]
            &&& tree.len() > 1 ==> r.len() == 1 + tree_rows(tree, root).len() && r[0]
                == EffectView::Line(
                seq![
                    (
                        Style::Plain,
                        "Created "@ + decimal((tree.len() - 1) as nat) + " tasks for feature '"@
                            + name + "'"@,
                    ),
                ],
            )
        }),
{
}

/// A listing of tasks has a line for each, in their order; an empty one says so.
pub proof fn law_listing_shown(of_one: bool, tasks: Seq<TaskView>, k: int)
    requires
        0 <= k < tasks.len(),
    ensures
        listing_shown(false, of_one, tasks).len() == tasks.len(),
        listing_shown(false, of_one, tasks)[k] == EffectView::Line(
            seq![(Style::Plain, task_text("  "@, tasks[k]))],
        ),
        listing_shown(true, of_one, tasks).len() == 1,
        listing_shown(true, of_one, tasks)[0] is Explore,
        listing_shown(false, true, Seq::empty()) == seq![
            EffectView::Line(seq![(Style::Plain, "No tasks for this feature."@)]),
        ],
        listing_shown(true, of_one, Seq::empty()).len() == 0,
{
}

/// What is told of a change of a task names the task.
pub proof fn law_changes_are_told(id: Seq<char>, change: TaskChange)
    ensures
        ({
            let lines = change_report(id, change).1;
            &&& contains(lines[0], id)
            &&& change is Done ==> lines == seq!["Marked "@ + id + " as done"@]
            &&& change is Fail ==> lines.len() == 2 && lines[0] == "Marked "@ + id + " as failed"@
                && lines[1] == "Reason: "@ + (match change->Fail_0 {
                Some(r) => r@,
                None => "Manually marked as failed"@,
            })
            &&& change is Reset ==> lines == seq!["Reset "@ + id + " to pending"@]
            &&& change is Delete ==> lines == seq!["Deleted task "@ + id]
            &&& change is Block ==> lines == seq![
                "Added dependency: "@ + id + " must complete before "@ + change->Block_0@,
            ]
        }),
{
    let none = Seq::<char>::empty();
    let line = change_report(id, change).1[0];
    match change {
        TaskChange::Update(_) => {
            lemma_part("Updated task "@, id, none);
            assert("Updated task "@ + id + none =~= line);
        },
        TaskChange::Delete => {
            lemma_part("Deleted task "@, id, none);
            assert("Deleted task "@ + id + none =~= line);
        },
        TaskChange::Done => {
            lemma_part("Marked "@, id, " as done"@);
        },
        TaskChange::Fail(_) => {
            lemma_part("Marked "@, id, " as failed"@);
        },
        TaskChange::Reset => {
            lemma_part("Reset "@, id, " to pending"@);
        },
        TaskChange::Log(_) => {
            lemma_part("Added log entry to "@, id, none);
            assert("Added log entry to "@ + id + none =~= line);
        },
        TaskChange::Block(b) => {
            lemma_part("Added dependency: "@, id, " must complete before "@ + b@);
            assert("Added dependency: "@ + id + (" must complete before "@ + b@) =~= line);
        },
        TaskChange::Unblock(b) => {
            lemma_part("Removed dependency: "@, id, " -> "@ + b@);
            assert("Removed dependency: "@ + id + (" -> "@ + b@) =~= line);
        },
    }
}

/// A row of the tree is printed with the id, the status and the title of its
/// task, behind the branches that lead to it.
pub proof fn law_tree_row_tells(tree: Seq<TaskView>, branches: Seq<char>, i: int)
    ensures
        ({
            let e = row_effect(tree, (branches, i));
            &&& e is Line
            &&& e->Line_0.len() == 3
            &&& e->Line_0[0] == (Style::Plain, branches + tree[i].id + "  ["@)
            &&& e->Line_0[1].1 == tree[i].status
            &&& e->Line_0[2] == (Style::Plain, "]  "@ + tree[i].title)
        }),
{
}

/// A login that fails is told with its exit code, or with -1 where there is none.
pub proof fn law_login_is_told(code: Option<i32>)
    ensures
        auth_end_shown(false, true, code) == seq![
            EffectView::Line(seq![(Style::Plain, "Authentication successful."@)]),
        ],
        auth_end_shown(false, false, code) == seq![
            EffectView::ErrLine(
                seq![
                    (
                        Style::Color(Hue::Red),
                        "Authentication failed (exit code: "@ + decimal_int(
                            if code is Some {
                                code->0 as int
                            } else {
                                -1
                            },
                        ) + ")."@,
                    ),
                ],
            ),
        ],
        auth_end_shown(true, false, code).len() == 0,
        auth_end_shown(true, true, code).len() == 0,
{
}

/// A document that exists already is named and not written again, and one that
/// was not written is named with what cannot go on.
pub proof fn law_phases_are_told(path: Seq<char>)
    ensures
        phase_shown(false, DocumentKind::Spec, true, path).len() == 1,
        phase_shown(false, DocumentKind::Spec, false, path).len() == 2,
        phase_shown(false, DocumentKind::Spec, false, path)[0] == EffectView::Line(
            seq![(Style::Plain, "Phase 1: Specification"@)],
        ),
        phase_shown(false, DocumentKind::Plan, false, path)[0] == EffectView::Line(
            seq![(Style::Plain, "Phase 2: Implementation Plan"@)],
        ),
        missing_text(DocumentKind::Spec, path) == "Spec"@ + " file was not created at "@ + path
            + ". Cannot proceed to planning."@,
        missing_text(DocumentKind::Plan, path) == "Plan"@ + " file was not created at "@ + path
            + ". Cannot proceed to task creation."@,
{
}

/// The rows of a tree begin with its root, with nothing in front of it.
pub proof fn law_tree_begins_with_its_root(tree: Seq<TaskView>, i: int)
    requires
        0 <= i < tree.len(),
        forall|k: int| 0 <= k < i ==> (#[trigger] tree[k]).id != tree[i].id,
    ensures
        tree_rows(tree, tree[i].id).len() >= 1,
        tree_rows(tree, tree[i].id)[0] == (Seq::<char>::empty(), i),
{
    lemma_first_place(tree, i, 0);
}

proof fn lemma_first_place(tree: Seq<TaskView>, i: int, from: int)
    requires
        0 <= from <= i < tree.len(),
        forall|k: int| 0 <= k < i ==> (#[trigger] tree[k]).id != tree[i].id,
    ensures
        first_place(tree, tree[i].id, from) == Some(i),
    decreases i - from,
{
    if from < i {
        lemma_first_place(tree, i, from + 1);
    }
}

} // verus!
