//! Terminal output: styled text, the lines of a run, and log paths.

pub mod effect;
pub mod formatter;
pub mod laws;
pub mod logger;
pub mod style;
