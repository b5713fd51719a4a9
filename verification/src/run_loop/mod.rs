//! The main iteration loop: what one iteration works on, what the agent is
//! told, and what follows from its answer.

pub mod context;
pub mod laws;
pub mod settle;
pub mod start;
