//! The macOS sandbox: rules and profiles.

pub mod profile;
pub mod rules;
