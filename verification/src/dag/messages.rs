//! What a refusal says to the user.

use vstd::prelude::*;

use crate::dag::model::{DagError, DagErrorView};
use crate::text::number::{decimal, decimal_text};

verus! {

/// The message of a refusal.
pub open spec fn error_text(e: DagErrorView) -> Seq<char> {
    match e {
        DagErrorView::NoTask(id) => "Task '"@ + id + "' does not exist"@,
        DagErrorView::TaskLookup(id) => "Failed to get task '"@ + id + "'"@,
        DagErrorView::NoStatus(_) => "Failed to get current task status"@,
        DagErrorView::NoParentStatus(_) => "Failed to get parent status"@,
        DagErrorView::NoTaskStatus(_) => "Failed to get task status"@,
        DagErrorView::NoRow(_) => "Query returned no rows"@,
        DagErrorView::NoParent(id) => "Parent task '"@ + id + "' does not exist"@,
        DagErrorView::NoFeature(name) => "Feature '"@ + name + "' not found"@,
        DagErrorView::NoFeatureId(id) => "Feature with id '"@ + id + "' not found"@,
        DagErrorView::FeatureExists(name) => "Feature '"@ + name + "' already exists"@,
        DagErrorView::NotCreated(_) => "Failed to create feature"@,
        DagErrorView::FeatureStatus(_) => "CHECK constraint failed: status IN ('draft','planned','ready','running','done','failed')"@,
        DagErrorView::InvalidTransition(from, to) => "Invalid status transition from '"@ + from
            + "' to '"@ + to + "'"@,
        DagErrorView::Cycle(a, b) => "Adding dependency "@ + a + " -> "@ + b
            + " would create a cycle"@,
        DagErrorView::NotAdded(a, b) => "Failed to add dependency "@ + a + " -> "@ + b,
        DagErrorView::Constraint => "FOREIGN KEY constraint failed"@,
        DagErrorView::Blocks(id) => "Cannot delete task '"@ + id + "': other tasks depend on it"@,
        DagErrorView::IdsExhausted(n) => "Failed to generate unique task ID after "@ + decimal(n)
            + " attempts"@,
        DagErrorView::Full => "database or disk is full"@,
    }
}

/// A refusal names what it is about: the task, the feature, the statuses or the
/// two tasks of a dependency.
pub proof fn law_refusal_names_its_subject(a: Seq<char>, b: Seq<char>)
    ensures
        error_text(DagErrorView::NoTask(a)) == "Task '"@ + a + "' does not exist"@,
        error_text(DagErrorView::NoParent(a)) == "Parent task '"@ + a + "' does not exist"@,
        error_text(DagErrorView::NoFeature(a)) == "Feature '"@ + a + "' not found"@,
        error_text(DagErrorView::FeatureExists(a)) == "Feature '"@ + a + "' already exists"@,
        error_text(DagErrorView::InvalidTransition(a, b)) == "Invalid status transition from '"@ + a
            + "' to '"@ + b + "'"@,
        error_text(DagErrorView::Cycle(a, b)) == "Adding dependency "@ + a + " -> "@ + b
            + " would create a cycle"@,
        error_text(DagErrorView::Blocks(a)) == "Cannot delete task '"@ + a
            + "': other tasks depend on it"@,
{
}

impl DagError {
    /// The message of the refusal.
    pub fn message(&self) -> (r: String)
        ensures
            r@ == error_text(self@),
    {
        match self {
            DagError::NoTask(id) => {
                let mut r = "Task '".to_owned();
                r.append(id.as_str());
                r.append("' does not exist");
                r
            },
            DagError::TaskLookup(id) => {
                let mut r = "Failed to get task '".to_owned();
                r.append(id.as_str());
                r.append("'");
                r
            },
            DagError::NoStatus(_) => "Failed to get current task status".to_owned(),
            DagError::NoParentStatus(_) => "Failed to get parent status".to_owned(),
            DagError::NoTaskStatus(_) => "Failed to get task status".to_owned(),
            DagError::NoRow(_) => "Query returned no rows".to_owned(),
            DagError::NoParent(id) => {
                let mut r = "Parent task '".to_owned();
                r.append(id.as_str());
                r.append("' does not exist");
                r
            },
            DagError::NoFeature(name) => {
                let mut r = "Feature '".to_owned();
                r.append(name.as_str());
                r.append("' not found");
                r
            },
            DagError::NoFeatureId(id) => {
                let mut r = "Feature with id '".to_owned();
                r.append(id.as_str());
                r.append("' not found");
                r
            },
            DagError::FeatureExists(name) => {
                let mut r = "Feature '".to_owned();
                r.append(name.as_str());
                r.append("' already exists");
                r
            },
            DagError::NotCreated(_) => "Failed to create feature".to_owned(),
            DagError::FeatureStatus(_) => {
                "CHECK constraint failed: status IN ('draft','planned','ready','running','done','failed')".to_owned()
            },
            DagError::InvalidTransition(from, to) => {
                let mut r = "Invalid status transition from '".to_owned();
                r.append(from.as_str());
                r.append("' to '");
                r.append(to.as_str());
                r.append("'");
                r
            },
            DagError::Cycle(a, b) => {
                let mut r = "Adding dependency ".to_owned();
                r.append(a.as_str());
                r.append(" -> ");
                r.append(b.as_str());
                r.append(" would create a cycle");
                r
            },
            DagError::NotAdded(a, b) => {
                let mut r = "Failed to add dependency ".to_owned();
                r.append(a.as_str());
                r.append(" -> ");
                r.append(b.as_str());
                r
            },
            DagError::Constraint => "FOREIGN KEY constraint failed".to_owned(),
            DagError::Blocks(id) => {
                let mut r = "Cannot delete task '".to_owned();
                r.append(id.as_str());
                r.append("': other tasks depend on it");
                r
            },
            DagError::IdsExhausted(n) => {
                let mut r = "Failed to generate unique task ID after ".to_owned();
                r.append(decimal_text(*n as u64).as_str());
                r.append(" attempts");
                r
            },
            DagError::Full => "database or disk is full".to_owned(),
        }
    }
}

} // verus!
