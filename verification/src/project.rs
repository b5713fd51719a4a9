//! Project configuration and the files of a fresh project.

use vstd::prelude::*;


use crate::text::case::{trim_all, trims};
use crate::text::search::{ends, ends_with};
use crate::text::shape::{
    lemma_split_extend, lemma_split_nonempty, lemma_split_push, lemma_trim_id, lines, lines_of,
    split, strip_cr, strip_crs, trim, Class,
};

verus! {

/// Project configuration loaded from `.ralph.toml`.
#[derive(Debug)]
pub struct ProjectConfig {
    /// The directory containing `.ralph.toml`.
    pub root: String,
    /// The parsed configuration.
    pub config: RalphConfig,
}

/// Contents of `.ralph.toml`.
#[derive(Debug, Clone, Copy)]
pub struct RalphConfig {
    pub execution: ExecutionConfig,
}

impl Default for RalphConfig {
    fn default() -> (r: Self)
        ensures
            r == default_config(),
    {
        RalphConfig { execution: ExecutionConfig { max_retries: 3, verify: true, learn: true } }
    }
}

/// Execution configuration section.
#[derive(Debug, Clone, Copy)]
pub struct ExecutionConfig {
    pub max_retries: u32,
    pub verify: bool,
    /// Deprecated: learning is always enabled. This field is retained for backward
    /// compatibility with existing .ralph.toml files and is ignored at runtime.
    pub learn: bool,
}

impl Default for ExecutionConfig {
    fn default() -> (r: Self)
        ensures
            r == default_config().execution,
    {
        ExecutionConfig { max_retries: 3, verify: true, learn: true }
    }
}

/// The configuration of an empty `.ralph.toml`.
pub open spec fn default_config() -> RalphConfig {
    RalphConfig { execution: ExecutionConfig { max_retries: 3, verify: true, learn: true } }
}

impl ExecutionConfig {
    /// The section with the keys that are there; the others have their defaults.
    pub fn from_parts(max_retries: Option<u32>, verify: Option<bool>, learn: Option<bool>) -> (r:
        Self)
        ensures
            r.max_retries == (match max_retries {
                Some(n) => n,
                None => 3,
            }),
            r.verify == (match verify {
                Some(b) => b,
                None => true,
            }),
            r.learn == (match learn {
                Some(b) => b,
                None => true,
            }),
    {
        ExecutionConfig {
            max_retries: match max_retries {
                Some(n) => n,
                None => 3,
            },
            verify: match verify {
                Some(b) => b,
                None => true,
            },
            learn: match learn {
                Some(b) => b,
                None => true,
            },
        }
    }
}

/// The first place, counted from the start directory upward, that holds a
/// configuration file.
pub open spec fn first_true(s: Seq<bool>, from: int) -> Option<int>
    decreases s.len() - from,
{
    if from < 0 || from >= s.len() {
        None
    } else if s[from] {
        Some(from)
    } else {
        first_true(s, from + 1)
    }
}

/// Which of the directories, from the start directory upward, is the project
/// root: the first that holds a configuration file.
///
/// `None` means that there is none up to the filesystem root.
pub fn discover_from(has_config: &Vec<bool>) -> (r: Option<usize>)
    ensures
        match r {
            Some(i) => first_true(has_config@, 0) == Some(i as int),
            None => first_true(has_config@, 0) is None,
        },
{
    let mut i: usize = 0;
    while i < has_config.len()
        invariant
            i <= has_config@.len(),
            first_true(has_config@, 0) == first_true(has_config@, i as int),
        decreases has_config@.len() - i,
    {
        if has_config[i] {
            return Some(i);
        }
        i = i + 1;
    }
    None
}

/// The entry that keeps the task database out of version control.
pub const GITIGNORE_ENTRY: &'static str = ".ralph/progress.db";

/// What a fresh `.ralph.toml` holds.
pub const DEFAULT_CONFIG: &'static str = "[execution]\n# max_retries = 3\n# verify = true\n";

/// A line of the text, trimmed, is the entry.
pub open spec fn lists_entry(content: Seq<char>) -> bool {
    trims(lines(content)).contains(GITIGNORE_ENTRY@)
}

/// The `.gitignore` with the entry in it; none where it is in it already.
pub open spec fn gitignore_update(content: Option<Seq<char>>) -> Option<Seq<char>> {
    match content {
        None => Some(GITIGNORE_ENTRY@ + "\n"@),
        Some(c) => if lists_entry(c) {
            None
        } else if ends_with(c, "\n"@) {
            Some(c + GITIGNORE_ENTRY@ + "\n"@)
        } else {
            Some(c + "\n"@ + GITIGNORE_ENTRY@ + "\n"@)
        },
    }
}

/// A text that ends in a line of its own with the entry lists it.
proof fn lemma_entry_line(c: Seq<char>)
    requires
        c.len() == 0 || ends_with(c, "\n"@),
    ensures
        lists_entry(c + GITIGNORE_ENTRY@ + "\n"@),
{
    let k = Class::Only('\n');
    let e = GITIGNORE_ENTRY@;
    reveal_strlit("\n");
    reveal_strlit(".ralph/progress.db");
    if c.len() > 0 {
        let d = c.drop_last();
        assert(c.subrange(c.len() - 1, c.len() as int)[0] == c.last());
        assert(c =~= d.push('\n'));
        lemma_split_push(d, '\n', k);
    }
    lemma_split_nonempty(c, k);
    assert(split(c, k).last() =~= Seq::<char>::empty());
    lemma_split_extend(c, e, k);
    assert(Seq::<char>::empty() + e =~= e);
    let s = c + e + "\n"@;
    assert(s =~= (c + e).push('\n'));
    lemma_split_push(c + e, '\n', k);
    let p = split(s, k);
    let n = split(c, k).len() - 1;
    assert(p.drop_last() =~= split(c, k).drop_last().push(e));
    assert(p.last().len() == 0);
    assert(strip_crs(p.drop_last())[n] == strip_cr(e));
    assert(strip_cr(e) == e);
    lemma_trim_id(e, Class::Space);
    assert(trims(lines(s))[n] == trim(e));
}

/// Once updated, the `.gitignore` needs no update: running the initialization
/// again adds no second entry.
pub proof fn law_gitignore_idempotent(content: Option<Seq<char>>)
    ensures
        gitignore_update(content) is Some ==> gitignore_update(
            Some(gitignore_update(content)->0),
        ) is None,
{
    reveal_strlit("\n");
    match content {
        None => {
            lemma_entry_line(Seq::empty());
            assert(Seq::<char>::empty() + GITIGNORE_ENTRY@ =~= GITIGNORE_ENTRY@);
        },
        Some(c) => {
            if !lists_entry(c) {
                if ends_with(c, "\n"@) {
                    lemma_entry_line(c);
                } else {
                    let d = c + "\n"@;
                    assert(d.subrange(d.len() - 1, d.len() as int) =~= "\n"@);
                    assert(ends_with(d, "\n"@));
                    lemma_entry_line(d);
                }
            }
        },
    }
}

/// An update keeps what the `.gitignore` holds and puts one line behind it, on a
/// line of its own; nothing is written where such a line is there already, with
/// or without white space around it.
pub proof fn law_gitignore_gains_one_line(content: Seq<char>)
    ensures
        gitignore_update(Some(content)) is None <==> trims(lines(content)).contains(
            ".ralph/progress.db"@,
        ),
        gitignore_update(None) == Some(".ralph/progress.db"@ + "\n"@),
        gitignore_update(Some(content)) matches Some(new) ==> {
            &&& content.is_prefix_of(new)
            &&& ends_with(content, "\n"@) ==> new == content + ".ralph/progress.db"@ + "\n"@
            &&& !ends_with(content, "\n"@) ==> new == content + "\n"@ + ".ralph/progress.db"@
                + "\n"@
        },
{
    if gitignore_update(Some(content)) is Some {
        let new = gitignore_update(Some(content))->0;
        assert(new.subrange(0, content.len() as int) =~= content);
    }
}

/// The first true flag is true, and none before it is.
pub proof fn law_first_true(s: Seq<bool>, from: int)
    requires
        0 <= from,
    ensures
        match first_true(s, from) {
            Some(i) => from <= i < s.len() && s[i] && forall|j: int|
                from <= j < i ==> !#[trigger] s[j],
            None => forall|j: int| from <= j < s.len() ==> !#[trigger] s[j],
        },
    decreases s.len() - from,
{
    if from < s.len() && !s[from] {
        law_first_true(s, from + 1);
    }
}

/// The `.gitignore` to write, given what is there; none where nothing is to be
/// written.
pub fn updated_gitignore(content: Option<&str>) -> (r: Option<String>)
    ensures
        crate::text::basic::opt_text(r) == gitignore_update(
            crate::text::basic::opt_str(content),
        ),
{
    match content {
        None => {
            let mut r = GITIGNORE_ENTRY.to_owned();
            r.append("\n");
            Some(r)
        },
        Some(c) => {
            let l = trim_all(&lines_of(c));
            if crate::text::basic::has_text(&l, GITIGNORE_ENTRY) {
                return None;
            }
            let mut r = c.to_owned();
            if !ends(c, "\n") {
                r.append("\n");
            }
            r.append(GITIGNORE_ENTRY);
            r.append("\n");
            Some(r)
        },
    }
}

/// Without a configuration a task is retried up to three times, its work is
/// verified, and what was learned is kept.
pub proof fn law_default_configuration()
    ensures
        default_config().execution.max_retries == 3,
        default_config().execution.verify,
        default_config().execution.learn,
{
}

} // verus!
