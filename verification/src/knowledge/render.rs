//! Knowledge entries as markdown for the system prompt.

use vstd::prelude::*;

use crate::knowledge::entry::{EntryView, KnowledgeEntry};
use crate::knowledge::graph::{backlinks, outlinks, scored_entries, LinkGraph};
use crate::text::basic::{chars_of, texts};
use crate::text::case::{lower, lowercase};
use crate::text::shape::{join, joined};

verus! {

/// The character budget of the rendered entries: 2000 tokens of 4 characters.
pub const KNOWLEDGE_BUDGET_CHARS: usize = 8000;

/// A line that lists what is linked, where anything is.
pub open spec fn links_line(label: Seq<char>, p: Seq<Seq<char>>) -> Seq<char> {
    if p.len() == 0 {
        Seq::empty()
    } else {
        label + join(p, ", "@) + "_\n"@
    }
}

/// The lines on an entry's links.
pub open spec fn links_text(g: Option<Seq<(Seq<char>, Seq<char>)>>, key: Seq<char>) -> Seq<char> {
    match g {
        Some(g) => links_line("_Linked from: "@, backlinks(g, key)) + links_line(
            "_Links to: "@,
            outlinks(g, key),
        ),
        None => Seq::empty(),
    }
}

/// An entry as markdown.
pub open spec fn entry_text(
    e: EntryView,
    key: Seq<char>,
    g: Option<Seq<(Seq<char>, Seq<char>)>>,
) -> Seq<char> {
    "### "@ + e.title + "\n_Tags: "@ + join(e.tags, ", "@) + "_\n\n"@ + e.body + "\n"@
        + links_text(g, key) + "\n"@
}

/// The texts, one after the other, up to the first that the budget does not
/// hold.
pub open spec fn within(p: Seq<Seq<char>>, budget: int) -> Seq<char>
    decreases p.len(),
{
    if p.len() == 0 || p[0].len() > budget {
        Seq::empty()
    } else {
        p[0] + within(p.drop_first(), budget - p[0].len())
    }
}

/// What is shown fits the budget.
pub proof fn law_within_budget(p: Seq<Seq<char>>, budget: int)
    requires
        0 <= budget,
    ensures
        within(p, budget).len() <= budget,
    decreases p.len(),
{
    if p.len() > 0 && p[0].len() <= budget {
        law_within_budget(p.drop_first(), budget - p[0].len());
    }
}

/// The entries as markdown, each.
pub open spec fn entry_texts(
    entries: Seq<EntryView>,
    g: Option<Seq<(Seq<char>, Seq<char>)>>,
) -> Seq<Seq<char>> {
    entries.map_values(|e: EntryView| entry_text(e, lowercase(e.title), g))
}

/// The entries as the system prompt shows them.
pub open spec fn knowledge_text(
    entries: Seq<EntryView>,
    g: Option<Seq<(Seq<char>, Seq<char>)>>,
) -> Seq<char> {
    if entries.len() == 0 {
        Seq::empty()
    } else {
        "## Project Knowledge\n\n"@ + within(
            entry_texts(entries, g),
            KNOWLEDGE_BUDGET_CHARS as int,
        )
    }
}

/// The graph, where there is one.
pub open spec fn graph_view(g: Option<&LinkGraph>) -> Option<Seq<(Seq<char>, Seq<char>)>> {
    match g {
        Some(g) => Some(g@),
        None => None,
    }
}

/// A line that lists what is linked, where anything is.
fn line_of_links(label: &str, p: &Vec<String>) -> (r: String)
    ensures
        r@ == links_line(label@, texts(p@)),
{
    assert(texts(p@).len() == p@.len());
    if p.len() == 0 {
        let r = String::new();
        assert(r@ =~= Seq::empty());
        return r;
    }
    let mut r = label.to_owned();
    r.append(joined(p, ", ").as_str());
    r.append("_\n");
    r
}

/// Renders one entry, given its title in lower case.
pub fn render_entry(entry: &KnowledgeEntry, key: &str, graph: Option<&LinkGraph>) -> (r: String)
    ensures
        r@ == entry_text(entry@, key@, graph_view(graph)),
{
    let mut more = String::new();
    match graph {
        Some(g) => {
            more = line_of_links("_Linked from: ", &g.backlinks(key));
            more.append(line_of_links("_Links to: ", &g.outlinks(key)).as_str());
        },
        None => {
            assert(more@ =~= Seq::empty());
        },
    }
    let mut r = "### ".to_owned();
    r.append(entry.title.as_str());
    r.append("\n_Tags: ");
    r.append(joined(&entry.tags, ", ").as_str());
    r.append("_\n\n");
    r.append(entry.body.as_str());
    r.append("\n");
    r.append(more.as_str());
    r.append("\n");
    r
}

/// The texts, one after the other, up to the first that the budget does not
/// hold.
pub fn fit_within(p: &Vec<String>, budget: usize) -> (r: String)
    ensures
        r@ == within(texts(p@), budget as int),
{
    let ghost all = texts(p@);
    let mut r = String::new();
    let mut left: usize = budget;
    let mut i: usize = 0;
    assert(all.skip(0) =~= all);
    assert(r@ + within(all, budget as int) =~= within(all, budget as int));
    while i < p.len()
        invariant
            i <= p@.len(),
            all == texts(p@),
            r@ + within(all.skip(i as int), left as int) == within(all, budget as int),
        decreases p@.len() - i,
    {
        let ghost rest = all.skip(i as int);
        assert(rest[0] == p@[i as int]@);
        assert(rest.drop_first() =~= all.skip(i + 1));
        let n: usize = chars_of(p[i].as_str()).len();
        if n > left {
            assert(r@ + within(rest, left as int) =~= r@);
            return r;
        }
        let ghost before = r@;
        r.append(p[i].as_str());
        left = left - n;
        assert(r@ + within(rest.drop_first(), left as int) =~= before + (rest[0] + within(
            rest.drop_first(),
            left as int,
        )));
        i = i + 1;
    }
    assert(r@ + within(all.skip(all.len() as int), left as int) =~= r@);
    r
}

/// Renders knowledge entries with optional link graph for backlink display.
///
/// Stops adding entries once the budget would be exceeded.
pub fn render_knowledge_context_with_graph(
    entries: &Vec<(KnowledgeEntry, u32)>,
    graph: Option<&LinkGraph>,
) -> (r: String)
    ensures
        r@ == knowledge_text(scored_entries(entries@), graph_view(graph)),
{
    let ghost all = scored_entries(entries@);
    if entries.len() == 0 {
        let r = String::new();
        assert(r@ =~= Seq::empty());
        return r;
    }
    let mut parts: Vec<String> = Vec::new();
    let mut i: usize = 0;
    let ghost goal = entry_texts(all, graph_view(graph));
    while i < entries.len()
        invariant
            i <= entries@.len(),
            all == scored_entries(entries@),
            goal == entry_texts(all, graph_view(graph)),
            texts(parts@) == goal.take(i as int),
        decreases entries@.len() - i,
    {
        assert(all[i as int] == entries@[i as int].0@);
        let key = lower(entries[i].0.title.as_str());
        let t = render_entry(&entries[i].0, key.as_str(), graph);
        let ghost tv = t@;
        let ghost before = parts@;
        parts.push(t);
        assert(texts(parts@) =~= texts(before).push(tv));
        assert(goal.take(i + 1) =~= goal.take(i as int).push(goal[i as int]));
        i = i + 1;
    }
    assert(goal.take(goal.len() as int) =~= goal);
    let mut r = "## Project Knowledge\n\n".to_owned();
    r.append(fit_within(&parts, KNOWLEDGE_BUDGET_CHARS).as_str());
    r
}

/// Renders knowledge entries as markdown for the system prompt, without link
/// data.
pub fn render_knowledge_context(entries: &Vec<(KnowledgeEntry, u32)>) -> (r: String)
    ensures
        r@ == knowledge_text(scored_entries(entries@), None),
{
    render_knowledge_context_with_graph(entries, None)
}

} // verus!
