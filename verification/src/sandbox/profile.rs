//! Generates macOS sandbox-exec profiles.

use vstd::prelude::*;

use crate::sandbox::rules::{collect_dirs, collected, write_rules};
use crate::review::{lemma_inside, lemma_part};
use crate::text::basic::texts;
use crate::text::search::{
    contains, lemma_contains_left, lemma_contains_right, lemma_contains_self,
};
use crate::text::shape::{join, joined};

verus! {

/// A rule of a profile on each of the paths.
pub open spec fn profile_lines(head: Seq<char>, p: Seq<Seq<char>>) -> Seq<Seq<char>> {
    p.map_values(|s: Seq<char>| head + s + "\"))"@)
}

/// A section of a profile, where it has any rule.
pub open spec fn profile_section(
    title: Seq<char>,
    head: Seq<char>,
    p: Seq<Seq<char>>,
) -> Seq<char> {
    if p.len() == 0 {
        Seq::empty()
    } else {
        title + join(profile_lines(head, p), "\n"@) + "\n"@
    }
}

/// The rules on directories that may be read.
pub open spec fn readonly_rules(p: Seq<Seq<char>>) -> Seq<char> {
    profile_section("\n;; Extra read rules from --allow\n"@, "(allow file-read* (subpath \""@, p)
}

/// The rules on directories that may be written.
pub open spec fn writeable_rules(p: Seq<Seq<char>>) -> Seq<char> {
    profile_section(
        "\n;; Extra write rules from --allow\n"@,
        "(allow file-write* (subpath \""@,
        p,
    )
}

/// The rules on binaries that may not be run.
pub open spec fn blocked_rules(p: Seq<Seq<char>>) -> Seq<char> {
    profile_section("\n;; Blocked binaries\n"@, "(deny process-exec* (literal \""@, p)
}

/// Each path that may be read, written or run stands in its section of the
/// profile, in a rule of its own; a section without paths is left out.
pub proof fn law_profile_rules(p: Seq<Seq<char>>, x: int)
    requires
        0 <= x < p.len(),
    ensures
        contains(readonly_rules(p), "(allow file-read* (subpath \""@ + p[x] + "\"))"@),
        contains(writeable_rules(p), "(allow file-write* (subpath \""@ + p[x] + "\"))"@),
        contains(blocked_rules(p), "(deny process-exec* (literal \""@ + p[x] + "\"))"@),
        readonly_rules(Seq::empty()).len() == 0,
        writeable_rules(Seq::empty()).len() == 0,
        blocked_rules(Seq::empty()).len() == 0,
{
    lemma_rule_stands(
        "\n;; Extra read rules from --allow\n"@,
        "(allow file-read* (subpath \""@,
        p,
        x,
    );
    lemma_rule_stands(
        "\n;; Extra write rules from --allow\n"@,
        "(allow file-write* (subpath \""@,
        p,
        x,
    );
    lemma_rule_stands("\n;; Blocked binaries\n"@, "(deny process-exec* (literal \""@, p, x);
}

proof fn lemma_rule_stands(title: Seq<char>, head: Seq<char>, p: Seq<Seq<char>>, x: int)
    requires
        0 <= x < p.len(),
    ensures
        contains(profile_section(title, head, p), head + p[x] + "\"))"@),
{
    let ls = profile_lines(head, p);
    assert(ls[x] == head + p[x] + "\"))"@);
    lemma_joined_holds(ls, "\n"@, x);
    lemma_part(title, join(ls, "\n"@), "\n"@);
    lemma_inside(profile_section(title, head, p), join(ls, "\n"@), ls[x]);
}

/// A joined list holds each of its texts.
pub proof fn lemma_joined_holds(p: Seq<Seq<char>>, sep: Seq<char>, x: int)
    requires
        0 <= x < p.len(),
    ensures
        contains(join(p, sep), p[x]),
    decreases p.len(),
{
    if p.len() == 1 {
        lemma_contains_self(p[0]);
    } else {
        let d = p.drop_last();
        if x < d.len() {
            lemma_joined_holds(d, sep, x);
            assert(d[x] == p[x]);
            lemma_contains_left(join(d, sep), sep + p.last(), p[x]);
            assert(join(d, sep) + (sep + p.last()) =~= join(p, sep));
        } else {
            lemma_contains_self(p.last());
            lemma_contains_right(join(d, sep) + sep, p.last(), p[x]);
        }
    }
}

/// A section of a profile.
fn section_of(title: &str, head: &str, p: &Vec<String>) -> (r: String)
    ensures
        r@ == profile_section(title@, head@, texts(p@)),
{
    let ghost all = texts(p@);
    assert(all.len() == p@.len());
    if p.len() == 0 {
        let r = String::new();
        assert(r@ =~= Seq::empty());
        return r;
    }
    let mut lines: Vec<String> = Vec::new();
    let mut i: usize = 0;
    let ghost goal = profile_lines(head@, all);
    while i < p.len()
        invariant
            i <= p@.len(),
            all == texts(p@),
            goal == profile_lines(head@, all),
            texts(lines@) == goal.take(i as int),
        decreases p@.len() - i,
    {
        assert(all[i as int] == p@[i as int]@);
        let mut line = head.to_owned();
        line.append(p[i].as_str());
        line.append("\"))");
        let ghost lv = line@;
        let ghost before = lines@;
        lines.push(line);
        assert(texts(lines@) =~= texts(before).push(lv));
        assert(goal.take(i + 1) =~= goal.take(i as int).push(lv));
        i = i + 1;
    }
    assert(goal.take(goal.len() as int) =~= goal);
    let mut r = title.to_owned();
    r.append(joined(&lines, "\n").as_str());
    r.append("\n");
    r
}

/// Generates a complete sandbox profile: the base profile, with rules for the
/// allow rules and against the binaries at the blocked paths.
pub fn generate(
    base_profile: &str,
    allow_rules: &Vec<String>,
    home: &str,
    blocked_paths: &Vec<String>,
) -> (r: String)
    ensures
        r@ == base_profile@ + readonly_rules(
            collected(Seq::empty(), texts(allow_rules@), home@),
        ) + writeable_rules(collected(write_rules(), texts(allow_rules@), home@)) + blocked_rules(
            texts(blocked_paths@),
        ),
{
    let (readonly, writeable) = collect_dirs(allow_rules, home);
    let mut r = base_profile.to_owned();
    r.append(
        section_of(
            "\n;; Extra read rules from --allow\n",
            "(allow file-read* (subpath \"",
            &readonly,
        ).as_str(),
    );
    r.append(
        section_of(
            "\n;; Extra write rules from --allow\n",
            "(allow file-write* (subpath \"",
            &writeable,
        ).as_str(),
    );
    r.append(
        section_of(
            "\n;; Blocked binaries\n",
            "(deny process-exec* (literal \"",
            blocked_paths,
        ).as_str(),
    );
    r
}

} // verus!
