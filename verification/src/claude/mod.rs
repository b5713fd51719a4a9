//! The command line of the agent: its arguments and the events of its output.

pub mod client;
pub mod events;
pub mod interactive;
pub mod parser;
