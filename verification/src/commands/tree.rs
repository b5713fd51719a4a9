//! Task trees, drawn with box-drawing characters.

use vstd::prelude::*;

use crate::commands::lines::{colorize_status, push_line, status_span, task_line, task_text};
use crate::dag::model::{ids_distinct, task_views, Task, TaskView};
use crate::dag::tasks::is_child;
use crate::dag::tree::children_later;
use crate::output::effect::{effect_views, Effect, EffectView};
use crate::output::style::{plain, plain_span, span_views, Span};
use crate::text::basic::{opt_same, same, texts};

verus! {

/// A task of a tree, and what is drawn in front of it.
#[derive(Debug)]
pub struct TreeRow {
    pub lead: String,
    pub place: usize,
}

impl View for TreeRow {
    type V = (Seq<char>, int);

    open spec fn view(&self) -> (Seq<char>, int) {
        (self.lead@, self.place as int)
    }
}

/// The views of a list of rows.
pub open spec fn tree_row_views(v: Seq<TreeRow>) -> Seq<(Seq<char>, int)> {
    v.map_values(|r: TreeRow| r@)
}

/// No child of the task at `i` comes behind the one at `k`.
pub open spec fn is_last_child(tree: Seq<TaskView>, i: int, k: int) -> bool {
    forall|j: int| k < j ==> !is_child(tree, i, j)
}

/// The rows of the children of the task at `i` that stand at `k` or behind it,
/// each followed by the rows below it. A child has a branch in front of it,
/// and what is below it is set in, beside a line where another child follows.
pub open spec fn rows_below(
    tree: Seq<TaskView>,
    i: int,
    prefix: Seq<char>,
    k: int,
) -> Seq<(Seq<char>, int)>
    decreases tree.len() - k,
{
    if k >= tree.len() {
        Seq::empty()
    } else if is_child(tree, i, k) {
        let (branch, inset) = if is_last_child(tree, i, k) {
            ("└─ "@, "   "@)
        } else {
            ("├─ "@, "│  "@)
        };
        seq![(prefix + branch, k)] + rows_below(tree, k, prefix + inset, k + 1) + rows_below(
            tree,
            i,
            prefix,
            k + 1,
        )
    } else {
        rows_below(tree, i, prefix, k + 1)
    }
}

/// Where the first task with this id stands.
pub open spec fn first_place(tree: Seq<TaskView>, id: Seq<char>, from: int) -> Option<int>
    decreases tree.len() - from,
{
    if from >= tree.len() {
        None
    } else if tree[from].id == id {
        Some(from)
    } else {
        first_place(tree, id, from + 1)
    }
}

/// The rows of the tree below the task `id`, which itself has nothing in front
/// of it.
pub open spec fn tree_rows(tree: Seq<TaskView>, id: Seq<char>) -> Seq<(Seq<char>, int)> {
    match first_place(tree, id, 0) {
        None => Seq::empty(),
        Some(i) => seq![(Seq::<char>::empty(), i)] + rows_below(tree, i, Seq::empty(), i + 1),
    }
}

/// The rows as text.
pub open spec fn row_texts(tree: Seq<TaskView>, rows: Seq<(Seq<char>, int)>) -> Seq<Seq<char>> {
    rows.map_values(|r: (Seq<char>, int)| task_text(r.0, tree[r.1]))
}

/// A row as a printed line, with the status in its colour.
pub open spec fn row_effect(tree: Seq<TaskView>, r: (Seq<char>, int)) -> EffectView {
    EffectView::Line(
        seq![
            plain(r.0 + tree[r.1].id + "  ["@),
            status_span(tree[r.1].status),
            plain("]  "@ + tree[r.1].title),
        ],
    )
}

/// The rows as printed lines.
pub open spec fn row_effects(tree: Seq<TaskView>, rows: Seq<(Seq<char>, int)>) -> Seq<EffectView> {
    rows.map_values(|r: (Seq<char>, int)| row_effect(tree, r))
}

proof fn lemma_rows_places(tree: Seq<TaskView>, i: int, prefix: Seq<char>, k: int)
    requires
        0 <= k,
    ensures
        forall|x: int|
            0 <= x < rows_below(tree, i, prefix, k).len() ==> 0 <= (#[trigger] rows_below(
                tree,
                i,
                prefix,
                k,
            )[x]).1 < tree.len(),
    decreases tree.len() - k,
{
    if k < tree.len() {
        lemma_rows_places(tree, i, prefix, k + 1);
        lemma_rows_places(tree, k, prefix + "   "@, k + 1);
        lemma_rows_places(tree, k, prefix + "│  "@, k + 1);
        let all = rows_below(tree, i, prefix, k);
        if is_child(tree, i, k) {
            let inset = if is_last_child(tree, i, k) {
                "   "@
            } else {
                "│  "@
            };
            let deep = rows_below(tree, k, prefix + inset, k + 1);
            let rest = rows_below(tree, i, prefix, k + 1);
            assert forall|x: int| 0 <= x < all.len() implies 0 <= (#[trigger] all[x]).1
                < tree.len() by {
                if 0 < x <= deep.len() {
                    assert(all[x] == deep[x - 1]);
                } else if x > deep.len() {
                    assert(all[x] == rest[x - 1 - deep.len()]);
                }
            }
        }
    }
}

/// Every row of a tree is that of a task of the list, and that of the root is
/// the first.
pub proof fn law_rows_are_tasks(tree: Seq<TaskView>, id: Seq<char>)
    ensures
        forall|x: int|
            0 <= x < tree_rows(tree, id).len() ==> 0 <= (#[trigger] tree_rows(tree, id)[x]).1
                < tree.len(),
        tree_rows(tree, id).len() > 0 ==> tree[tree_rows(tree, id)[0].1].id == id,
{
    lemma_first_place(tree, id, 0);
    if let Some(i) = first_place(tree, id, 0) {
        lemma_rows_places(tree, i, Seq::empty(), i + 1);
    }
}

proof fn lemma_first_place(tree: Seq<TaskView>, id: Seq<char>, from: int)
    requires
        0 <= from,
    ensures
        match first_place(tree, id, from) {
            Some(i) => from <= i < tree.len() && tree[i].id == id,
            None => true,
        },
    decreases tree.len() - from,
{
    if from < tree.len() && tree[from].id != id {
        lemma_first_place(tree, id, from + 1);
    }
}

/// Adds a row.
fn push_row(out: &mut Vec<TreeRow>, lead: String, place: usize)
    ensures
        tree_row_views(final(out)@) == tree_row_views(old(out)@).push((lead@, place as int)),
{
    let ghost before = out@;
    let ghost l = lead@;
    out.push(TreeRow { lead, place });
    assert(tree_row_views(out@) =~= tree_row_views(before).push((l, place as int)));
}

/// Whether the task at `j` is a child of the one at `i` before it.
fn is_child_at(tree: &Vec<Task>, i: usize, j: usize) -> (r: bool)
    requires
        i < j < tree@.len(),
    ensures
        r == is_child(task_views(tree@), i as int, j as int),
{
    assert(task_views(tree@)[i as int] == tree@[i as int]@);
    assert(task_views(tree@)[j as int] == tree@[j as int]@);
    opt_same(&tree[j].parent_id, tree[i].id.as_str())
}

/// Whether no child of the task at `i` comes behind the one at `k`.
fn is_last_at(tree: &Vec<Task>, i: usize, k: usize) -> (r: bool)
    requires
        i < k < tree@.len(),
    ensures
        r == is_last_child(task_views(tree@), i as int, k as int),
{
    let n: usize = tree.len();
    let mut j: usize = k + 1;
    while j < n
        invariant
            i < k < j <= n,
            n == tree@.len(),
            forall|x: int| k < x < j ==> !is_child(task_views(tree@), i as int, x),
        decreases tree@.len() - j,
    {
        if is_child_at(tree, i, j) {
            return false;
        }
        j = j + 1;
    }
    true
}

/// Adds the rows of the children of the task at `i` that stand at `from` or
/// behind it.
fn push_rows_below(tree: &Vec<Task>, i: usize, prefix: &str, from: usize, out: &mut Vec<TreeRow>)
    requires
        i < from <= tree@.len(),
    ensures
        tree_row_views(final(out)@) == tree_row_views(old(out)@) + rows_below(
            task_views(tree@),
            i as int,
            prefix@,
            from as int,
        ),
    decreases tree@.len() - from,
{
    let ghost tv = task_views(tree@);
    let ghost start = tree_row_views(out@);
    let ghost all = rows_below(tv, i as int, prefix@, from as int);
    let mut k: usize = from;
    while k < tree.len()
        invariant
            i < from <= k <= tree@.len(),
            tv == task_views(tree@),
            tree_row_views(out@) + rows_below(tv, i as int, prefix@, k as int) == start + all,
        decreases tree@.len() - k,
    {
        let ghost before = tree_row_views(out@);
        if is_child_at(tree, i, k) {
            let mut lead = prefix.to_owned();
            let mut inner = prefix.to_owned();
            if is_last_at(tree, i, k) {
                lead.append("└─ ");
                inner.append("   ");
            } else {
                lead.append("├─ ");
                inner.append("│  ");
            }
            let ghost row = (lead@, k as int);
            push_row(out, lead, k);
            push_rows_below(tree, k, inner.as_str(), k + 1, out);
            assert(tree_row_views(out@) + rows_below(tv, i as int, prefix@, k + 1) =~= before + (
            seq![row] + rows_below(tv, k as int, inner@, k + 1) + rows_below(
                tv,
                i as int,
                prefix@,
                k + 1,
            )));
        }
        k = k + 1;
    }
    assert(tree_row_views(out@) =~= start + all);
}

/// The rows of the tree below a task.
fn rows_of_tree(tree: &Vec<Task>, current_id: &str) -> (r: Vec<TreeRow>)
    ensures
        tree_row_views(r@) == tree_rows(task_views(tree@), current_id@),
{
    let ghost tv = task_views(tree@);
    let mut r: Vec<TreeRow> = Vec::new();
    let mut i: usize = 0;
    while i < tree.len()
        invariant
            i <= tree@.len(),
            tv == task_views(tree@),
            first_place(tv, current_id@, 0) == first_place(tv, current_id@, i as int),
            tree_row_views(r@) =~= Seq::empty(),
        decreases tree@.len() - i,
    {
        assert(tv[i as int] == tree@[i as int]@);
        if same(tree[i].id.as_str(), current_id) {
            push_row(&mut r, String::new(), i);
            push_rows_below(tree, i, "", i + 1, &mut r);
            proof {
                reveal_strlit("");
            }
            assert(""@ =~= Seq::empty());
            assert(tree_row_views(r@) =~= tree_rows(tv, current_id@));
            return r;
        }
        i = i + 1;
    }
    r
}

/// The lines of the tree below a task, without colours.
///
/// The tasks of the list are different ones, and none comes before its parent.
pub fn render_task_tree_lines(tree: &Vec<Task>, current_id: &str) -> (r: Vec<String>)
    requires
        ids_distinct(task_views(tree@)),
        children_later(task_views(tree@)),
    ensures
        texts(r@) == row_texts(
            task_views(tree@),
            tree_rows(task_views(tree@), current_id@),
        ),
{
    let ghost tv = task_views(tree@);
    let rows = rows_of_tree(tree, current_id);
    let ghost all = tree_row_views(rows@);
    proof {
        law_rows_are_tasks(tv, current_id@);
    }
    let mut r: Vec<String> = Vec::new();
    let mut x: usize = 0;
    assert(texts(r@) =~= row_texts(tv, all.take(0)));
    while x < rows.len()
        invariant
            x <= rows@.len(),
            tv == task_views(tree@),
            all == tree_row_views(rows@),
            forall|y: int| 0 <= y < all.len() ==> 0 <= (#[trigger] all[y]).1 < tv.len(),
            texts(r@) == row_texts(tv, all.take(x as int)),
        decreases rows@.len() - x,
    {
        assert(all[x as int] == rows@[x as int]@);
        let place: usize = rows[x].place;
        assert(tv[place as int] == tree@[place as int]@);
        push_line(&mut r, task_line(rows[x].lead.as_str(), &tree[place]));
        assert(row_texts(tv, all.take(x + 1)) =~= row_texts(tv, all.take(x as int)).push(
            task_text(all[x as int].0, tv[place as int]),
        ));
        x = x + 1;
    }
    assert(all.take(all.len() as int) =~= all);
    r
}

/// Prints a task tree with Unicode box-drawing characters.
///
/// The tasks of the list are different ones, and none comes before its parent.
pub fn print_task_tree(tree: &Vec<Task>, current_id: &str) -> (r: Vec<Effect>)
    requires
        ids_distinct(task_views(tree@)),
        children_later(task_views(tree@)),
    ensures
        effect_views(r@) == row_effects(
            task_views(tree@),
            tree_rows(task_views(tree@), current_id@),
        ),
{
    let ghost tv = task_views(tree@);
    let rows = rows_of_tree(tree, current_id);
    let ghost all = tree_row_views(rows@);
    proof {
        law_rows_are_tasks(tv, current_id@);
    }
    let mut r: Vec<Effect> = Vec::new();
    let mut x: usize = 0;
    assert(effect_views(r@) =~= row_effects(tv, all.take(0)));
    while x < rows.len()
        invariant
            x <= rows@.len(),
            tv == task_views(tree@),
            all == tree_row_views(rows@),
            forall|y: int| 0 <= y < all.len() ==> 0 <= (#[trigger] all[y]).1 < tv.len(),
            effect_views(r@) == row_effects(tv, all.take(x as int)),
        decreases rows@.len() - x,
    {
        assert(all[x as int] == rows@[x as int]@);
        let place: usize = rows[x].place;
        assert(tv[place as int] == tree@[place as int]@);
        let mut head = rows[x].lead.clone();
        head.append(tree[place].id.as_str());
        head.append("  [");
        let mut tail = "]  ".to_owned();
        tail.append(tree[place].title.as_str());
        let mut spans: Vec<Span> = Vec::new();
        spans.push(plain_span(head.as_str()));
        spans.push(colorize_status(tree[place].status.as_str()));
        spans.push(plain_span(tail.as_str()));
        assert(span_views(spans@) =~= seq![
            plain(all[x as int].0 + tv[place as int].id + "  ["@),
            status_span(tv[place as int].status),
            plain("]  "@ + tv[place as int].title),
        ]);
        let ghost before = r@;
        let e = Effect::Line(spans);
        let ghost ev = e@;
        r.push(e);
        assert(effect_views(r@) =~= effect_views(before).push(ev));
        assert(row_effects(tv, all.take(x + 1)) =~= row_effects(tv, all.take(x as int)).push(ev));
        x = x + 1;
    }
    assert(all.take(all.len() as int) =~= all);
    r
}

} // verus!
