//! Knowledge base: discovery, tag matching, deduplication, link graph and
//! rendering.
//!
//! Knowledge entries are tagged markdown files in `.ralph/knowledge/` with YAML
//! frontmatter. The agent creates entries via the `<knowledge>` sigil; relevant
//! ones are surfaced each iteration by tag-based scoring. Entries refer to each
//! other with `[[Title]]` links, which are followed in both directions.

pub mod dedup;
pub mod entry;
pub mod graph;
pub mod laws;
pub mod links;
pub mod matching;
pub mod render;
pub mod round_trip;
pub mod slug;
pub mod written;
