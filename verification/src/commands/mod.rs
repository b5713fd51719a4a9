//! What the commands show and decide.

pub mod features;
pub mod laws;
pub mod lines;
pub mod run;
pub mod tasks;
pub mod tree;
