//! The commands on features.

use vstd::prelude::*;

use crate::commands::lines::{colorize_status, push_line, status_span};
use crate::commands::run::warning_shown;
use crate::commands::tasks::of_feature;
use crate::commands::tree::{
    print_task_tree, render_task_tree_lines, row_effects, row_texts, tree_rows,
};
use crate::dag::crud::{first_free, CreateTaskParams};
use crate::dag::model::{
    feature_views, has_feature, has_task, lemma_pos_of, pos, task_views, DagError, DagErrorView, Db, DbView,
    Feature, FeatureRowView, FeatureView, Task, TaskView,
};
use crate::dag::queries::{is_ready, Select, TaskCounts};
use crate::dag::tree::{law_tree_parents_first, tree_order};
use crate::feature::{draft_row, feature_pos, has_name, listed_features, name_pos};
use crate::order::pick;
use crate::output::effect::{
    effect_views, explored, info_shown, push_effects, show_result_if_ui_active, show_unless_ui,
    unless_ui, Effect, EffectView,
};
use crate::output::formatter::{print_info, print_warning};
use crate::output::style::{plain, plain_span, span_views, Span, Style};
use crate::review::{kind_label, DocumentKind};
use crate::text::basic::{same, texts};
use crate::text::number::{decimal, decimal_text};

verus! {

/// The name of a kind of document, as a sentence begins.
pub open spec fn kind_title(k: DocumentKind) -> Seq<char> {
    match k {
        DocumentKind::Spec => "Spec"@,
        DocumentKind::Plan => "Plan"@,
    }
}

/// What the beginning of a phase shows: that it is skipped, since the document
/// exists, or what it is.
pub open spec fn phase_shown(ui: bool, k: DocumentKind, exists: bool, path: Seq<char>) -> Seq<
    EffectView,
> {
    if exists {
        info_shown(
            ui,
            kind_title(k) + " already exists at "@ + path + ", skipping "@ + kind_label(k)
                + " phase."@,
        )
    } else {
        info_shown(
            ui,
            match k {
                DocumentKind::Spec => "Phase 1: Specification"@,
                DocumentKind::Plan => "Phase 2: Implementation Plan"@,
            },
        ) + info_shown(ui, "Interview -> write "@ + kind_label(k) + " -> review"@)
    }
}

/// Why the document is needed.
pub open spec fn missing_text(k: DocumentKind, path: Seq<char>) -> Seq<char> {
    kind_title(k) + " file was not created at "@ + path + (match k {
        DocumentKind::Spec => ". Cannot proceed to planning."@,
        DocumentKind::Plan => ". Cannot proceed to task creation."@,
    })
}

/// The feature with its document recorded; with a plan, it is planned.
pub open spec fn with_document(f: FeatureView, k: DocumentKind, path: Seq<char>) -> FeatureView {
    match k {
        DocumentKind::Spec => FeatureView { spec_path: Some(path), ..f },
        DocumentKind::Plan => FeatureView {
            plan_path: Some(path),
            status: "planned"@,
            ..f
        },
    }
}

/// The database with the document of a feature recorded.
pub open spec fn documented(
    db: DbView,
    id: Seq<char>,
    k: DocumentKind,
    path: Seq<char>,
    now: Seq<char>,
) -> DbView {
    let i = feature_pos(db.features, id);
    let row = FeatureRowView {
        feature: with_document(db.features[i].feature, k, path),
        updated_at: now,
        ..db.features[i]
    };
    DbView { features: db.features.update(i, row), ..db }
}

/// The database with those documents of a feature recorded that were not when
/// its creation began.
pub open spec fn all_documented(
    db: DbView,
    f: FeatureView,
    spec_path: Seq<char>,
    plan_path: Seq<char>,
    now: Seq<char>,
) -> DbView {
    let one = if f.spec_path is None {
        documented(db, f.id, DocumentKind::Spec, spec_path, now)
    } else {
        db
    };
    if f.plan_path is None {
        documented(one, f.id, DocumentKind::Plan, plan_path, now)
    } else {
        one
    }
}

/// What the created tasks of a feature are shown as.
pub open spec fn created_shown(
    db: DbView,
    ui: bool,
    name: Seq<char>,
    root: Seq<char>,
) -> Seq<EffectView> {
    let tree = pick(db.tasks, tree_order(db.tasks, pos(db.tasks, root)));
    if tree.len() == 1 {
        warning_shown(ui, "Warning: no child tasks were created under "@ + root)
    } else {
        info_shown(
            ui,
            "Created "@ + decimal((tree.len() - 1) as nat) + " tasks for feature '"@ + name + "'"@,
        ) + if ui {
            seq![
                EffectView::Explore("Created Task DAG"@, row_texts(tree, tree_rows(tree, root))),
            ]
        } else {
            row_effects(tree, tree_rows(tree, root))
        }
    }
}

/// The tasks of a feature with a status.
pub open spec fn of_feature_with(id: Seq<char>, s: Seq<char>) -> spec_fn(TaskView) -> bool {
    |t: TaskView| t.feature_id == Some(id) && t.status == s
}

/// The tasks of a feature that are ready.
pub open spec fn ready_of(db: DbView, id: Seq<char>) -> spec_fn(TaskView) -> bool {
    |t: TaskView| is_ready(db, t) && t.feature_id == Some(id)
}

/// How many tasks of a feature have a status.
pub open spec fn status_count(db: DbView, id: Seq<char>, s: Seq<char>) -> nat {
    db.tasks.filter(of_feature_with(id, s)).len()
}

/// What is shown of the tasks of a feature that is to be deleted.
pub open spec fn doomed_tasks_shown(db: DbView, ui: bool, id: Seq<char>) -> Seq<EffectView> {
    let total = db.tasks.filter(of_feature(id)).len();
    let done = status_count(db, id, "done"@);
    let running = status_count(db, id, "in_progress"@);
    if total == 0 {
        Seq::empty()
    } else {
        info_shown(
            ui,
            "Tasks:   "@ + decimal(total) + " total ("@ + decimal(done) + " done, "@ + decimal(
                running,
            ) + " in progress, "@ + decimal(status_count(db, id, "blocked"@)) + " blocked)"@,
        ) + (if 0 < done < total {
            warning_shown(ui, "Warning: this feature is partially completed."@)
        } else {
            Seq::empty()
        }) + (if running > 0 {
            warning_shown(ui, "Warning: some tasks are currently in progress."@)
        } else {
            Seq::empty()
        })
    }
}

/// What is shown of a feature that is to be deleted.
pub open spec fn doomed_shown(db: DbView, ui: bool, f: FeatureView) -> Seq<EffectView> {
    unless_ui(ui, EffectView::Line(seq![plain("Feature: "@), (Style::Bold, f.name)]))
        + unless_ui(ui, EffectView::Line(seq![plain("Status:  "@), status_span(f.status)]))
        + doomed_tasks_shown(db, ui, f.id)
}

/// The text filled up with blanks to a width.
pub open spec fn padded(s: Seq<char>, width: nat) -> Seq<char> {
    s + Seq::new(
        if s.len() < width {
            (width - s.len()) as nat
        } else {
            0
        },
        |i: int| ' ',
    )
}

/// What there is of a feature without tasks.
pub open spec fn stage_text(status: Seq<char>) -> Seq<char> {
    if status == "draft"@ {
        "spec only"@
    } else if status == "planned"@ {
        "spec + plan ready"@
    } else {
        ""@
    }
}

/// A feature on one line: with its tasks, where it has any.
pub open spec fn feature_line_text(db: DbView, f: FeatureView) -> Seq<char> {
    let total = db.tasks.filter(of_feature(f.id)).len();
    "  "@ + padded(f.name, 16) + " ["@ + f.status + "]  "@ + if total > 0 {
        decimal(status_count(db, f.id, "done"@)) + "/"@ + decimal(total) + " done, "@ + decimal(
            db.tasks.filter(ready_of(db, f.id)).len(),
        ) + " ready"@
    } else {
        stage_text(f.status)
    }
}

/// Features, each on a line.
pub open spec fn feature_texts(db: DbView, fs: Seq<FeatureView>) -> Seq<Seq<char>> {
    fs.map_values(|f: FeatureView| feature_line_text(db, f))
}

/// What a listing of all features shows.
pub open spec fn features_shown(db: DbView, ui: bool) -> Seq<EffectView> {
    let fs = listed_features(db.features);
    if fs.len() == 0 {
        info_shown(ui, "No features. Run 'ralph feature create <name>' to create one."@)
    } else {
        explored(ui, "Feature Explorer"@, feature_texts(db, fs))
    }
}

/// Says what a phase does.
pub fn start_phase(ui: bool, kind: DocumentKind, exists: bool, path: &str) -> (r: Vec<Effect>)
    ensures
        effect_views(r@) == phase_shown(ui, kind, exists, path@),
{
    if exists {
        let mut line = match kind {
            DocumentKind::Spec => "Spec".to_owned(),
            DocumentKind::Plan => "Plan".to_owned(),
        };
        line.append(" already exists at ");
        line.append(path);
        line.append(", skipping ");
        line.append(kind.label());
        line.append(" phase.");
        return print_info(ui, line.as_str());
    }
    let mut r = match kind {
        DocumentKind::Spec => print_info(ui, "Phase 1: Specification"),
        DocumentKind::Plan => print_info(ui, "Phase 2: Implementation Plan"),
    };
    let mut line = "Interview -> write ".to_owned();
    line.append(kind.label());
    line.append(" -> review");
    push_effects(&mut r, print_info(ui, line.as_str()));
    r
}

/// Refuses to go on without the document.
pub fn require_document(kind: DocumentKind, exists: bool, path: &str) -> (r: Result<(), String>)
    ensures
        r is Ok <==> exists,
        !exists ==> r->Err_0@ == missing_text(kind, path@),
{
    if exists {
        return Ok(());
    }
    let mut line = match kind {
        DocumentKind::Spec => "Spec".to_owned(),
        DocumentKind::Plan => "Plan".to_owned(),
    };
    line.append(" file was not created at ");
    line.append(path);
    match kind {
        DocumentKind::Spec => line.append(". Cannot proceed to planning."),
        DocumentKind::Plan => line.append(". Cannot proceed to task creation."),
    }
    Err(line)
}

/// Says where the document is.
pub fn saved_notice(ui: bool, kind: DocumentKind, path: &str) -> (r: Vec<Effect>)
    ensures
        effect_views(r@) == info_shown(ui, kind_title(kind) + " saved to "@ + path@),
{
    let mut line = match kind {
        DocumentKind::Spec => "Spec".to_owned(),
        DocumentKind::Plan => "Plan".to_owned(),
    };
    line.append(" saved to ");
    line.append(path);
    print_info(ui, line.as_str())
}

/// Says that tasks are created.
pub fn start_tasks(ui: bool) -> (r: Vec<Effect>)
    ensures
        effect_views(r@) == info_shown(ui, "Phase 3: Task Decomposition"@) + info_shown(
            ui,
            "Creating task DAG from plan"@,
        ),
{
    let mut r = print_info(ui, "Phase 3: Task Decomposition");
    push_effects(&mut r, print_info(ui, "Creating task DAG from plan"));
    r
}

/// Says which root task a feature got.
pub fn root_notice(ui: bool, root_id: &str, name: &str) -> (r: Vec<Effect>)
    ensures
        effect_views(r@) == info_shown(
            ui,
            "Created root task: "@ + root_id@ + " Feature: "@ + name@,
        ),
{
    let mut line = "Created root task: ".to_owned();
    line.append(root_id);
    line.append(" Feature: ");
    line.append(name);
    print_info(ui, line.as_str())
}

/// Says that a feature can be run.
pub fn ready_notice(ui: bool, name: &str) -> (r: Vec<Effect>)
    ensures
        effect_views(r@) == info_shown(
            ui,
            "Feature '"@ + name@ + "' is ready. Run 'ralph run "@ + name@ + "' to start."@,
        ),
{
    let mut line = "Feature '".to_owned();
    line.append(name);
    line.append("' is ready. Run 'ralph run ");
    line.append(name);
    line.append("' to start.");
    print_info(ui, line.as_str())
}

/// Says which files go with a feature.
pub fn files_notice(ui: bool, dir: &str) -> (r: Vec<Effect>)
    ensures
        effect_views(r@) == info_shown(ui, "Files:   "@ + dir@ + "/"@),
{
    let mut line = "Files:   ".to_owned();
    line.append(dir);
    line.append("/");
    print_info(ui, line.as_str())
}

/// Says that a feature is gone.
pub fn deleted_notice(ui: bool, name: &str, tasks: usize) -> (r: Vec<Effect>)
    ensures
        effect_views(r@) == info_shown(
            ui,
            "Deleted feature '"@ + name@ + "' ("@ + decimal(tasks as nat) + " tasks removed)."@,
        ),
{
    let mut line = "Deleted feature '".to_owned();
    line.append(name);
    line.append("' (");
    line.append(decimal_text(tasks as u64).as_str());
    line.append(" tasks removed).");
    print_info(ui, line.as_str())
}

/// The question whether to delete a feature: its title, and the question.
pub fn ask_delete_feature(name: &str) -> (r: (String, String))
    ensures
        r.0@ == "Delete Feature"@,
        r.1@ == "Delete feature '"@ + name@ + "' and all associated data?"@,
{
    let mut q = "Delete feature '".to_owned();
    q.append(name);
    q.append("' and all associated data?");
    ("Delete Feature".to_owned(), q)
}

/// Fills a text up with blanks to a width.
fn padded_text(s: &str, width: usize) -> (r: String)
    ensures
        r@ == padded(s@, width as nat),
{
    let n: usize = s.unicode_len();
    let mut r = s.to_owned();
    let mut i: usize = n;
    proof {
        reveal_strlit(" ");
    }
    assert(r@ =~= s@ + Seq::new(0, |k: int| ' '));
    while i < width
        invariant
            n == s@.len(),
            n <= i,
            i <= width || i == n,
            r@ == s@ + Seq::new((i - n) as nat, |k: int| ' '),
            " "@ =~= seq![' '],
        decreases width - i,
    {
        let ghost before = r@;
        r.append(" ");
        i = i + 1;
        assert(r@ =~= s@ + Seq::new((i - n) as nat, |k: int| ' '));
    }
    assert(r@ =~= padded(s@, width as nat));
    r
}

impl Db {
    /// The feature of this name, created in draft where there is none.
    pub fn feature_to_create(&mut self, name: &str, id: &str, now: &str) -> (r: Result<
        Feature,
        DagError,
    >)
        requires
            old(self)@.wf(),
        ensures
            final(self)@.wf(),
            ({
                let db = old(self)@;
                let row = draft_row(id@, name@, now@);
                if has_name(db.features, name@) {
                    r is Ok && r->Ok_0@ == db.features[name_pos(db.features, name@)].feature
                        && final(self)@ == db
                } else if has_feature(db.features, id@) {
                    r is Err && r->Err_0@ == DagErrorView::NotCreated(name@) && final(self)@
                        == db
                } else {
                    r is Ok && r->Ok_0@ == row.feature && final(self)@ == (DbView {
                        features: db.features.push(row),
                        ..db
                    })
                }
            }),
    {
        if self.feature_exists(name) {
            self.get_feature(name)
        } else {
            self.create_feature(name, id, now)
        }
    }

    /// Records the document of a feature; with a plan, the feature is planned.
    pub fn record_document(&mut self, id: &str, kind: DocumentKind, path: &str, now: &str) -> (r:
        Result<(), DagError>)
        requires
            old(self)@.wf(),
        ensures
            final(self)@.wf(),
            if has_feature(old(self)@.features, id@) {
                r is Ok && final(self)@ == documented(old(self)@, id@, kind, path@, now@)
            } else {
                (r is Ok <==> kind == DocumentKind::Spec) && (r is Err ==> r->Err_0@
                    == DagErrorView::NoFeature(id@)) && final(self)@ == old(self)@
            },
    {
        let ghost db = self@;
        match kind {
            DocumentKind::Spec => {
                self.update_feature_spec_path(id, path, now);
                Ok(())
            },
            DocumentKind::Plan => {
                self.update_feature_plan_path(id, path, now);
                proof {
                    let i = feature_pos(db.features, id@);
                    if has_feature(db.features, id@) {
                        assert(self@.features[i].feature.id == id@);
                        assert(has_feature(self@.features, id@));
                        lemma_same_feature_pos(db.features, self@.features, id@);
                    }
                }
                let r = self.update_feature_status(id, "planned", now);
                proof {
                    if has_feature(db.features, id@) {
                        assert(self@.features =~= documented(db, id@, kind, path@, now@).features);
                    }
                }
                r
            },
        }
    }

    /// Records those documents of a feature that were not recorded when its
    /// creation began.
    pub fn record_missing_documents(
        &mut self,
        feature: &Feature,
        spec_path: &str,
        plan_path: &str,
        now: &str,
    ) -> (r: Result<(), DagError>)
        requires
            old(self)@.wf(),
        ensures
            final(self)@.wf(),
            if has_feature(old(self)@.features, feature@.id) {
                r is Ok && final(self)@ == all_documented(
                    old(self)@,
                    feature@,
                    spec_path@,
                    plan_path@,
                    now@,
                )
            } else {
                (r is Ok <==> feature@.plan_path is Some) && (r is Err ==> r->Err_0@
                    == DagErrorView::NoFeature(feature@.id)) && final(self)@ == old(self)@
            },
    {
        let ghost db = self@;
        if feature.spec_path.is_none() {
            match self.record_document(feature.id.as_str(), DocumentKind::Spec, spec_path, now) {
                Ok(()) => {},
                Err(e) => {
                    return Err(e);
                },
            }
            proof {
                if has_feature(db.features, feature@.id) {
                    let i = feature_pos(db.features, feature@.id);
                    assert(self@.features[i].feature.id == feature@.id);
                }
            }
        }
        if feature.plan_path.is_none() {
            return self.record_document(feature.id.as_str(), DocumentKind::Plan, plan_path, now);
        }
        Ok(())
    }

    /// Creates the root task of a feature.
    pub fn create_root_task(
        &mut self,
        name: &str,
        feature_id: &str,
        max_retries: u32,
        ids: &Vec<String>,
        now: &str,
    ) -> (r: Result<Task, DagError>)
        requires
            old(self)@.wf(),
            ids@.len() > 0,
        ensures
            final(self)@.wf(),
            ({
                let db = old(self)@;
                let free = first_free(db.tasks, texts(ids@), 0);
                if free is None || !has_feature(db.features, feature_id@) {
                    r is Err && r->Err_0@ == DagErrorView::IdsExhausted(ids@.len()) && final(self)@
                        == db
                } else {
                    let row = TaskView {
                        id: texts(ids@)[free->0],
                        title: "Feature: "@ + name@,
                        description: "Root task for feature '"@ + name@ + "'"@,
                        status: "pending"@,
                        parent_id: None,
                        feature_id: Some(feature_id@),
                        task_type: "feature"@,
                        priority: 0,
                        retry_count: 0,
                        max_retries: max_retries as i32,
                        verification_status: None,
                        created_at: now@,
                        updated_at: now@,
                        claimed_by: None,
                    };
                    r is Ok && r->Ok_0@ == row && final(self)@ == (DbView {
                        tasks: db.tasks.push(row),
                        ..db
                    })
                }
            }),
    {
        let mut title = "Feature: ".to_owned();
        title.append(name);
        let mut description = "Root task for feature '".to_owned();
        description.append(name);
        description.append("'");
        self.create_task_with_feature(
            CreateTaskParams {
                title: title.as_str(),
                description: Some(description.as_str()),
                parent_id: None,
                priority: 0,
                feature_id: Some(feature_id),
                task_type: "feature",
                max_retries: #[verifier::truncate] (max_retries as i32),
            },
            ids,
            now,
        )
    }

    /// Shows the tasks that were created for a feature.
    pub fn show_created(&self, ui: bool, name: &str, root_id: &str) -> (r: Result<
        Vec<Effect>,
        DagError,
    >)
        requires
            self@.wf(),
        ensures
            if has_task(self@.tasks, root_id@) {
                r is Ok && effect_views(r->Ok_0@) == created_shown(self@, ui, name@, root_id@)
            } else {
                r is Err && r->Err_0@ == DagErrorView::TaskLookup(root_id@)
            },
    {
        let tree = match self.get_task_tree(root_id) {
            Ok(t) => t,
            Err(e) => {
                return Err(e);
            },
        };
        proof {
            lemma_pos_of(self@.tasks, root_id@);
            law_tree_parents_first(self@, pos(self@.tasks, root_id@));
            assert(tree_order(self@.tasks, pos(self@.tasks, root_id@)).len() >= 1);
            assert(task_views(tree@).len() >= 1);
        }
        if tree.len() == 1 {
            let mut line = "Warning: no child tasks were created under ".to_owned();
            line.append(root_id);
            return Ok(print_warning(ui, line.as_str()));
        }
        let mut line = "Created ".to_owned();
        line.append(decimal_text((tree.len() - 1) as u64).as_str());
        line.append(" tasks for feature '");
        line.append(name);
        line.append("'");
        let mut r = print_info(ui, line.as_str());
        if ui {
            push_effects(
                &mut r,
                show_result_if_ui_active(
                    ui,
                    "Created Task DAG",
                    render_task_tree_lines(&tree, root_id),
                ),
            );
        } else {
            push_effects(&mut r, print_task_tree(&tree, root_id));
        }
        Ok(r)
    }

    /// How many tasks of a feature there are, by status.
    fn counts_of(&self, id: &str) -> (r: TaskCounts)
        ensures
            r.total == self@.tasks.filter(of_feature(id@)).len(),
            r.ready == self@.tasks.filter(ready_of(self@, id@)).len(),
            r.done == status_count(self@, id@, "done"@),
            r.blocked == status_count(self@, id@, "blocked"@),
    {
        assert(Select::OfFeature(id).pred(self@) =~= of_feature(id@));
        assert(Select::ReadyOf(id).pred(self@) =~= ready_of(self@, id@));
        assert(Select::OfFeatureWithStatus(id, "done").pred(self@) =~= of_feature_with(
            id@,
            "done"@,
        ));
        assert(Select::OfFeatureWithStatus(id, "blocked").pred(self@) =~= of_feature_with(
            id@,
            "blocked"@,
        ));
        self.get_feature_task_counts(id)
    }

    /// Shows the tasks of a feature that is to be deleted.
    fn show_doomed_tasks(&self, ui: bool, id: &str) -> (r: Vec<Effect>)
        ensures
            effect_views(r@) == doomed_tasks_shown(self@, ui, id@),
    {
        let counts = self.counts_of(id);
        let mut r: Vec<Effect> = Vec::new();
        assert(effect_views(r@) =~= Seq::empty());
        if counts.total == 0 {
            return r;
        }
        assert(Select::OfFeatureWithStatus(id, "in_progress").pred(self@) =~= of_feature_with(
            id@,
            "in_progress"@,
        ));
        let running: usize = self.count_tasks(Select::OfFeatureWithStatus(id, "in_progress"));
        let mut line = "Tasks:   ".to_owned();
        line.append(decimal_text(counts.total as u64).as_str());
        line.append(" total (");
        line.append(decimal_text(counts.done as u64).as_str());
        line.append(" done, ");
        line.append(decimal_text(running as u64).as_str());
        line.append(" in progress, ");
        line.append(decimal_text(counts.blocked as u64).as_str());
        line.append(" blocked)");
        push_effects(&mut r, print_info(ui, line.as_str()));
        if counts.done > 0 && counts.done < counts.total {
            push_effects(
                &mut r,
                print_warning(ui, "Warning: this feature is partially completed."),
            );
        }
        if running > 0 {
            push_effects(
                &mut r,
                print_warning(ui, "Warning: some tasks are currently in progress."),
            );
        }
        assert(effect_views(r@) =~= doomed_tasks_shown(self@, ui, id@));
        r
    }

    /// Shows a feature that is to be deleted.
    pub fn show_doomed(&self, ui: bool, feature: &Feature) -> (r: Vec<Effect>)
        ensures
            effect_views(r@) == doomed_shown(self@, ui, feature@),
    {
        let mut name: Vec<Span> = Vec::new();
        name.push(plain_span("Feature: "));
        name.push(Span { style: Style::Bold, text: feature.name.clone() });
        assert(span_views(name@) =~= seq![plain("Feature: "@), (Style::Bold, feature@.name)]);
        let mut r = show_unless_ui(ui, Effect::Line(name));
        let mut status: Vec<Span> = Vec::new();
        status.push(plain_span("Status:  "));
        status.push(colorize_status(feature.status.as_str()));
        assert(span_views(status@) =~= seq![plain("Status:  "@), status_span(feature@.status)]);
        push_effects(&mut r, show_unless_ui(ui, Effect::Line(status)));
        push_effects(&mut r, self.show_doomed_tasks(ui, feature.id.as_str()));
        r
    }

    /// A feature on one line.
    fn feature_line_for(&self, f: &Feature) -> (r: String)
        ensures
            r@ == feature_line_text(self@, f@),
    {
        let counts = self.counts_of(f.id.as_str());
        let mut r = "  ".to_owned();
        r.append(padded_text(f.name.as_str(), 16).as_str());
        r.append(" [");
        r.append(f.status.as_str());
        r.append("]  ");
        let ghost head = r@;
        if counts.total > 0 {
            r.append(decimal_text(counts.done as u64).as_str());
            r.append("/");
            r.append(decimal_text(counts.total as u64).as_str());
            r.append(" done, ");
            r.append(decimal_text(counts.ready as u64).as_str());
            r.append(" ready");
        } else if same(f.status.as_str(), "draft") {
            r.append("spec only");
        } else if same(f.status.as_str(), "planned") {
            r.append("spec + plan ready");
        } else {
            r.append("");
        }
        assert(r@ =~= feature_line_text(self@, f@));
        r
    }

    /// Shows all features.
    pub fn show_feature_list(&self, ui: bool) -> (r: Vec<Effect>)
        ensures
            effect_views(r@) == features_shown(self@, ui),
    {
        let features = self.list_features();
        let ghost fs = feature_views(features@);
        if features.len() == 0 {
            return print_info(ui, "No features. Run 'ralph feature create <name>' to create one.");
        }
        let mut ls: Vec<String> = Vec::new();
        let mut i: usize = 0;
        assert(texts(ls@) =~= feature_texts(self@, fs.take(0)));
        while i < features.len()
            invariant
                i <= features@.len(),
                fs == feature_views(features@),
                texts(ls@) == feature_texts(self@, fs.take(i as int)),
            decreases features@.len() - i,
        {
            assert(fs[i as int] == features@[i as int]@);
            push_line(&mut ls, self.feature_line_for(&features[i]));
            assert(feature_texts(self@, fs.take(i + 1)) =~= feature_texts(
                self@,
                fs.take(i as int),
            ).push(feature_line_text(self@, fs[i as int])));
            i = i + 1;
        }
        assert(fs.take(fs.len() as int) =~= fs);
        show_result_if_ui_active(ui, "Feature Explorer", ls)
    }
}

/// Lists with the same feature ids have a feature in the same place.
proof fn lemma_same_feature_pos(a: Seq<FeatureRowView>, b: Seq<FeatureRowView>, id: Seq<char>)
    requires
        has_feature(a, id),
        a.len() == b.len(),
        forall|i: int| 0 <= i < a.len() ==> (#[trigger] b[i]).feature.id == a[i].feature.id,
        forall|i: int, j: int|
            0 <= i < j < a.len() ==> (#[trigger] a[i]).feature.id != (#[trigger] a[j]).feature.id,
    ensures
        feature_pos(a, id) == feature_pos(b, id),
{
    let x = feature_pos(a, id);
    assert(b[x].feature.id == id);
    let y = feature_pos(b, id);
    assert(a[y].feature.id == id);
    if x < y {
        assert(a[x].feature.id != a[y].feature.id);
    } else if y < x {
        assert(a[y].feature.id != a[x].feature.id);
    }
}

} // verus!
