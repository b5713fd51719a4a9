//! Where logs are written.

use vstd::prelude::*;

use crate::text::search::{begins, ends, ends_with, starts_with};

verus! {

/// A path behind another: an absolute one takes its place, any other comes
/// behind a separator.
pub open spec fn path_join(base: Seq<char>, rest: Seq<char>) -> Seq<char> {
    if starts_with(rest, "/"@) {
        rest
    } else if base.len() == 0 || ends_with(base, "/"@) {
        base + rest
    } else {
        base + "/"@ + rest
    }
}

/// A path behind another.
pub fn joined_path(base: &str, rest: &str) -> (r: String)
    ensures
        r@ == path_join(base@, rest@),
{
    if begins(rest, "/") {
        return rest.to_owned();
    }
    let mut r = base.to_owned();
    if !base.is_empty() && !ends(base, "/") {
        r.append("/");
    }
    r.append(rest);
    r
}

/// The log directory: below the directory for temporary files, or that for
/// run-time files, or `/tmp`, one for each project.
pub open spec fn log_dir(
    tmpdir: Option<Seq<char>>,
    runtime_dir: Option<Seq<char>>,
    project: Option<Seq<char>>,
) -> Seq<char> {
    let base = match tmpdir {
        Some(t) => t,
        None => match runtime_dir {
            Some(t) => t,
            None => "/tmp"@,
        },
    };
    path_join(
        path_join(path_join(base, "ralph"@), "logs"@),
        match project {
            Some(p) => p,
            None => "unknown"@,
        },
    )
}

/// The log directory path, by the variables `TMPDIR` and `XDG_RUNTIME_DIR` and
/// the name of the current directory.
pub fn log_directory(
    tmpdir: Option<&str>,
    runtime_dir: Option<&str>,
    project_name: Option<&str>,
) -> (r: String)
    ensures
        r@ == log_dir(
            crate::text::basic::opt_str(tmpdir),
            crate::text::basic::opt_str(runtime_dir),
            crate::text::basic::opt_str(project_name),
        ),
{
    let base = match tmpdir {
        Some(t) => t,
        None => match runtime_dir {
            Some(t) => t,
            None => "/tmp",
        },
    };
    let project = match project_name {
        Some(p) => p,
        None => "unknown",
    };
    let below = joined_path(joined_path(base, "ralph").as_str(), "logs");
    joined_path(below.as_str(), project)
}

/// The log file path in a log directory, for a time stamp.
pub fn setup_log_file(log_dir: &str, timestamp: &str) -> (r: String)
    ensures
        r@ == path_join(log_dir@, timestamp@ + ".log"@),
{
    let mut name = timestamp.to_owned();
    name.append(".log");
    joined_path(log_dir, name.as_str())
}

} // verus!
