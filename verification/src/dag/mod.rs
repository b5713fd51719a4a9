//! The task graph: tasks in a hierarchy, dependencies between them, features,
//! task logs and the journal.

pub mod claims;
pub mod cleanup;
pub mod crud;
pub mod dependencies;
pub mod ids;
pub mod laws;
pub mod load;
pub mod messages;
pub mod model;
pub mod queries;
pub mod rows;
pub mod tasks;
pub mod transitions;
pub mod tree;
