//! The agent side of a run: prompts, sigils and what is shown of a session.

pub mod client;
pub mod connection;
pub mod instructions;
pub mod interactive;
pub mod laws;
pub mod markdown;
pub mod prompt;
pub mod session;
pub mod sigils;
pub mod streaming;
pub mod summary;
pub mod tools;
pub mod types;
