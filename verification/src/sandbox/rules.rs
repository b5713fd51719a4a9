//! Sandbox rule definitions.

use vstd::prelude::*;

use crate::text::basic::{chars_of, has_text, same, slice_text, texts};
use crate::text::search::{begins, starts_with};
use crate::text::shape::{trim, trimmed};

verus! {

/// What a rule stands for.
#[derive(Debug)]
pub struct Rule {
    pub name: String,
    pub items: Vec<String>,
}

/// What a rule holds.
pub struct RuleView {
    pub name: Seq<char>,
    pub items: Seq<Seq<char>>,
}

impl View for Rule {
    type V = RuleView;

    open spec fn view(&self) -> RuleView {
        RuleView { name: self.name@, items: texts(self.items@) }
    }
}

/// The views of a list of rules.
pub open spec fn rule_views(v: Seq<Rule>) -> Seq<RuleView> {
    v.map_values(|r: Rule| r@)
}

/// The directories that rules make writeable.
pub open spec fn write_rules() -> Seq<RuleView> {
    seq![RuleView { name: "aws"@, items: seq!["~/.aws"@] }]
}

/// The binaries that rules unblock.
pub open spec fn binary_rules() -> Seq<RuleView> {
    seq![RuleView { name: "aws"@, items: seq!["aws"@] }]
}

/// One rule with one item.
fn single_rule(name: &str, item: &str) -> (r: Vec<Rule>)
    ensures
        rule_views(r@) == seq![RuleView { name: name@, items: seq![item@] }],
{
    let mut items: Vec<String> = Vec::new();
    items.push(item.to_owned());
    assert(texts(items@) =~= seq![item@]);
    let mut r: Vec<Rule> = Vec::new();
    r.push(Rule { name: name.to_owned(), items });
    assert(rule_views(r@) =~= seq![RuleView { name: name@, items: seq![item@] }]);
    r
}

/// The readonly directories for each rule.
pub fn readonly_dirs() -> (r: Vec<Rule>)
    ensures
        rule_views(r@) == Seq::<RuleView>::empty(),
{
    let r: Vec<Rule> = Vec::new();
    assert(rule_views(r@) =~= Seq::empty());
    r
}

/// The writeable directories for each rule.
pub fn writeable_dirs() -> (r: Vec<Rule>)
    ensures
        rule_views(r@) == write_rules(),
{
    single_rule("aws", "~/.aws")
}

/// The binaries that should be blocked unless the rule is enabled.
pub fn binaries() -> (r: Vec<Rule>)
    ensures
        rule_views(r@) == binary_rules(),
{
    single_rule("aws", "aws")
}

/// The items of the rule with the name, from `from` on.
pub open spec fn items_from(table: Seq<RuleView>, name: Seq<char>, from: int) -> Seq<Seq<char>>
    decreases table.len() - from,
{
    if 0 <= from < table.len() {
        if table[from].name == name {
            table[from].items
        } else {
            items_from(table, name, from + 1)
        }
    } else {
        Seq::empty()
    }
}

/// A path with the home directory in the place of a leading `~`.
pub open spec fn at_home(path: Seq<char>, home: Seq<char>) -> Seq<char> {
    if starts_with(path, "~/"@) {
        home + path.skip(1)
    } else {
        path
    }
}

/// Paths, each with the home directory in the place of a leading `~`.
pub open spec fn all_at_home(p: Seq<Seq<char>>, home: Seq<char>) -> Seq<Seq<char>> {
    p.map_values(|s: Seq<char>| at_home(s, home))
}

/// The paths that the rules stand for, in the order of the rules.
pub open spec fn collected(
    table: Seq<RuleView>,
    allow: Seq<Seq<char>>,
    home: Seq<char>,
) -> Seq<Seq<char>>
    decreases allow.len(),
{
    if allow.len() == 0 {
        Seq::empty()
    } else {
        collected(table, allow.drop_last(), home) + all_at_home(
            items_from(table, allow.last(), 0),
            home,
        )
    }
}

/// The binaries of the rules that are not allowed.
pub open spec fn blocked(table: Seq<RuleView>, allow: Seq<Seq<char>>) -> Seq<Seq<char>>
    decreases table.len(),
{
    if table.len() == 0 {
        Seq::empty()
    } else if allow.contains(table.last().name) {
        blocked(table.drop_last(), allow)
    } else {
        blocked(table.drop_last(), allow) + table.last().items
    }
}

/// A path below `~/` is one below the home directory; any other stays.
pub proof fn law_home_is_filled_in(rest: Seq<char>, path: Seq<char>, home: Seq<char>)
    ensures
        at_home("~/"@ + rest, home) == home + "/"@ + rest,
        path.len() == 0 || path[0] != '~' ==> at_home(path, home) == path,
{
    reveal_strlit("~/");
    reveal_strlit("/");
    let p = "~/"@ + rest;
    assert(p.subrange(0, 2) =~= "~/"@);
    assert(home + p.skip(1) =~= home + "/"@ + rest);
    if starts_with(path, "~/"@) {
        assert(path.subrange(0, 2)[0] == path[0]);
    }
}

/// What several rules allow is what each allows, one after the other; a name
/// that is no rule allows nothing.
pub proof fn law_rules_add_up(
    table: Seq<RuleView>,
    allow: Seq<Seq<char>>,
    name: Seq<char>,
    home: Seq<char>,
)
    ensures
        collected(table, allow.push(name), home) == collected(table, allow, home) + all_at_home(
            items_from(table, name, 0),
            home,
        ),
        collected(table, Seq::empty(), home).len() == 0,
        (forall|i: int| 0 <= i < table.len() ==> (#[trigger] table[i]).name != name)
            ==> items_from(table, name, 0).len() == 0,
{
    assert(allow.push(name).drop_last() =~= allow);
    if forall|i: int| 0 <= i < table.len() ==> (#[trigger] table[i]).name != name {
        lemma_no_rule(table, name, 0);
    }
}

proof fn lemma_no_rule(table: Seq<RuleView>, name: Seq<char>, from: int)
    requires
        0 <= from,
        forall|i: int| 0 <= i < table.len() ==> (#[trigger] table[i]).name != name,
    ensures
        items_from(table, name, from).len() == 0,
    decreases table.len() - from,
{
    if from < table.len() {
        lemma_no_rule(table, name, from + 1);
    }
}

/// The rule for AWS opens the directory with its credentials to writing, and no
/// other rule is known.
pub proof fn law_known_rules(name: Seq<char>, home: Seq<char>)
    ensures
        collected(write_rules(), seq!["aws"@], home) == seq![home + "/.aws"@],
        name != "aws"@ ==> collected(write_rules(), seq![name], home).len() == 0,
{
    let none = Seq::<Seq<char>>::empty();
    law_rules_add_up(write_rules(), none, "aws"@, home);
    law_rules_add_up(write_rules(), none, name, home);
    assert(none.push("aws"@) =~= seq!["aws"@]);
    assert(none.push(name) =~= seq![name]);
    reveal_strlit("~/.aws");
    reveal_strlit("~/");
    reveal_strlit(".aws");
    reveal_strlit("/.aws");
    reveal_strlit("/");
    assert("~/.aws"@ =~= "~/"@ + ".aws"@);
    law_home_is_filled_in(".aws"@, "~/.aws"@, home);
    assert("/"@ + ".aws"@ =~= "/.aws"@);
    assert(home + "/"@ + ".aws"@ =~= home + "/.aws"@);
    assert(items_from(write_rules(), "aws"@, 0) == seq!["~/.aws"@]);
    assert(all_at_home(seq!["~/.aws"@], home) =~= seq![home + "/.aws"@]);
    assert(collected(write_rules(), seq!["aws"@], home) =~= seq![home + "/.aws"@]);
}

/// `aws` is blocked, and its directory not writeable, unless its rule is
/// enabled.
pub proof fn law_aws_needs_its_rule(allow: Seq<Seq<char>>, home: Seq<char>)
    ensures
        blocked(binary_rules(), allow).contains("aws"@) <==> !allow.contains("aws"@),
        collected(write_rules(), allow, home).len() == 0 <==> !allow.contains("aws"@),
{
    let b = binary_rules();
    assert(b.drop_last() =~= Seq::empty());
    assert(blocked(b.drop_last(), allow) =~= Seq::empty());
    if !allow.contains("aws"@) {
        assert(blocked(b, allow) =~= seq!["aws"@]);
        assert(blocked(b, allow)[0] == "aws"@);
    }
    lemma_aws_dirs(allow, home);
}

proof fn lemma_aws_dirs(allow: Seq<Seq<char>>, home: Seq<char>)
    ensures
        collected(write_rules(), allow, home).len() == 0 <==> !allow.contains("aws"@),
    decreases allow.len(),
{
    if allow.len() > 0 {
        let rest = allow.drop_last();
        lemma_aws_dirs(rest, home);
        let t = write_rules();
        assert(items_from(t, allow.last(), 1) =~= Seq::empty());
        assert(allow[allow.len() - 1] == allow.last());
        if allow.contains("aws"@) && allow.last() != "aws"@ {
            let i = choose|i: int| 0 <= i < allow.len() && allow[i] == "aws"@;
            assert(rest[i] == "aws"@);
        }
        if rest.contains("aws"@) {
            let i = choose|i: int| 0 <= i < rest.len() && rest[i] == "aws"@;
            assert(allow[i] == "aws"@);
        }
        if allow.last() == "aws"@ {
            assert(items_from(t, "aws"@, 0) =~= seq!["~/.aws"@]);
        }
    }
}

/// A path with the home directory in the place of a leading `~`.
pub fn expand_home(path: &str, home: &str) -> (r: String)
    ensures
        r@ == at_home(path@, home@),
{
    if begins(path, "~/") {
        proof {
            reveal_strlit("~/");
        }
        let cs = chars_of(path);
        let rest = slice_text(&cs, 1, cs.len());
        assert(rest@ =~= path@.skip(1));
        let mut r = home.to_owned();
        r.append(rest.as_str());
        r
    } else {
        path.to_owned()
    }
}

/// The paths that the rules of a table stand for.
fn collect_from(table: &Vec<Rule>, allow_rules: &Vec<String>, home: &str) -> (r: Vec<String>)
    ensures
        texts(r@) == collected(rule_views(table@), texts(allow_rules@), home@),
{
    let ghost t = rule_views(table@);
    let ghost all = texts(allow_rules@);
    let mut r: Vec<String> = Vec::new();
    let mut i: usize = 0;
    assert(texts(r@) =~= collected(t, all.take(0), home@));
    while i < allow_rules.len()
        invariant
            i <= allow_rules@.len(),
            t == rule_views(table@),
            all == texts(allow_rules@),
            texts(r@) == collected(t, all.take(i as int), home@),
        decreases allow_rules@.len() - i,
    {
        assert(all.take(i + 1).drop_last() =~= all.take(i as int));
        assert(all[i as int] == allow_rules@[i as int]@);
        let ghost start = texts(r@);
        let ghost name = all[i as int];
        let ghost goal = all_at_home(items_from(t, name, 0), home@);
        let mut k: usize = 0;
        let mut seeking = true;
        while seeking && k < table.len()
            invariant
                k <= table@.len(),
                t == rule_views(table@),
                i < allow_rules@.len(),
                name == allow_rules@[i as int]@,
                goal == all_at_home(items_from(t, name, 0), home@),
                seeking ==> texts(r@) == start && items_from(t, name, 0) == items_from(
                    t,
                    name,
                    k as int,
                ),
                !seeking ==> texts(r@) == start + goal,
            decreases table@.len() - k + (if seeking { 1int } else { 0int }),
        {
            assert(t[k as int] == table@[k as int]@);
            if same(table[k].name.as_str(), allow_rules[i].as_str()) {
                let items = &table[k].items;
                let ghost iv = texts(items@);
                assert(goal == all_at_home(iv, home@));
                let mut j: usize = 0;
                assert(texts(r@) =~= start + goal.take(0));
                while j < items.len()
                    invariant
                        j <= items@.len(),
                        iv == texts(items@),
                        goal == all_at_home(iv, home@),
                        texts(r@) == start + goal.take(j as int),
                    decreases items@.len() - j,
                {
                    assert(iv[j as int] == items@[j as int]@);
                    let p = expand_home(items[j].as_str(), home);
                    let ghost pv = p@;
                    let ghost before = r@;
                    r.push(p);
                    assert(texts(r@) =~= texts(before).push(pv));
                    assert(start + goal.take(j + 1) =~= (start + goal.take(j as int)).push(pv));
                    j = j + 1;
                }
                assert(goal.take(goal.len() as int) =~= goal);
                seeking = false;
            } else {
                k = k + 1;
            }
        }
        if seeking {
            assert(start + goal =~= start);
        }
        i = i + 1;
    }
    assert(all.take(all.len() as int) =~= all);
    r
}

/// Collects extra directories from allow rules.
/// Returns (readonly_dirs, writeable_dirs).
pub fn collect_dirs(allow_rules: &Vec<String>, home: &str) -> (r: (Vec<String>, Vec<String>))
    ensures
        texts(r.0@) == collected(Seq::empty(), texts(allow_rules@), home@),
        texts(r.1@) == collected(write_rules(), texts(allow_rules@), home@),
{
    let readonly = collect_from(&readonly_dirs(), allow_rules, home);
    let writeable = collect_from(&writeable_dirs(), allow_rules, home);
    (readonly, writeable)
}

/// Collects the names of the binaries to block (those not in allow_rules).
pub fn collect_blocked_binaries(allow_rules: &Vec<String>) -> (r: Vec<String>)
    ensures
        texts(r@) == blocked(binary_rules(), texts(allow_rules@)),
{
    let table = binaries();
    let ghost t = rule_views(table@);
    let mut r: Vec<String> = Vec::new();
    let mut k: usize = 0;
    assert(texts(r@) =~= blocked(t.take(0), texts(allow_rules@)));
    while k < table.len()
        invariant
            k <= table@.len(),
            t == rule_views(table@),
            texts(r@) == blocked(t.take(k as int), texts(allow_rules@)),
        decreases table@.len() - k,
    {
        assert(t.take(k + 1).drop_last() =~= t.take(k as int));
        assert(t[k as int] == table@[k as int]@);
        if !has_text(allow_rules, table[k].name.as_str()) {
            let ghost start = texts(r@);
            let mut items = crate::text::basic::clone_texts(&table[k].items);
            r.append(&mut items);
            assert(texts(r@) =~= start + t[k as int].items);
        }
        k = k + 1;
    }
    assert(t.take(t.len() as int) =~= t);
    r
}

/// The path of a binary: what `which` printed, where it found it, with symbolic
/// links resolved where `readlink` could.
pub fn resolve_binary(which: Option<&str>, readlink: Option<&str>) -> (r: Option<String>)
    ensures
        match which {
            None => r is None,
            Some(w) => r is Some && r->0@ == (match readlink {
                Some(l) => trim(l@),
                None => trim(w@),
            }),
        },
{
    match which {
        None => None,
        Some(w) => match readlink {
            Some(l) => Some(trimmed(l)),
            None => Some(trimmed(w)),
        },
    }
}

} // verus!
