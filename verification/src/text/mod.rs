//! Text as sequences of characters: searching, trimming, splitting, joining
//! and number rendering, each with a specification over `Seq<char>`.

pub mod basic;
pub mod case;
pub mod laws;
pub mod number;
pub mod path;
pub mod search;
pub mod shape;
