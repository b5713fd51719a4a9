//! The bidirectional link graph, and what is found by following it.

use vstd::prelude::*;

use crate::knowledge::entry::{entry_views, EntryView, KnowledgeEntry};
use crate::knowledge::links::{extract_links, links};
use crate::text::basic::{has_text, same, texts};
use crate::text::case::{lower, lower_all, lowercase, lowercases};

verus! {

/// A link: the entry with the key `from` refers to the one with the key `to`.
#[derive(Debug)]
pub struct Link {
    pub from: String,
    pub to: String,
}

impl View for Link {
    type V = (Seq<char>, Seq<char>);

    open spec fn view(&self) -> (Seq<char>, Seq<char>) {
        (self.from@, self.to@)
    }
}

/// The views of a list of links.
pub open spec fn link_views(v: Seq<Link>) -> Seq<(Seq<char>, Seq<char>)> {
    v.map_values(|l: Link| l@)
}

/// Bidirectional link graph built from `[[Title]]` references in knowledge
/// entry bodies. Each link is held once and read in both directions; entries
/// go by their titles in lower case.
#[derive(Debug)]
pub struct LinkGraph {
    pub links: Vec<Link>,
}

impl View for LinkGraph {
    type V = Seq<(Seq<char>, Seq<char>)>;

    open spec fn view(&self) -> Seq<(Seq<char>, Seq<char>)> {
        link_views(self.links@)
    }
}

/// The keys that `key` links to, in the order of the links.
pub open spec fn outlinks(g: Seq<(Seq<char>, Seq<char>)>, key: Seq<char>) -> Seq<Seq<char>>
    decreases g.len(),
{
    if g.len() == 0 {
        Seq::empty()
    } else if g.last().0 == key {
        outlinks(g.drop_last(), key).push(g.last().1)
    } else {
        outlinks(g.drop_last(), key)
    }
}

/// The keys that link to `key`, in the order of the links.
pub open spec fn backlinks(g: Seq<(Seq<char>, Seq<char>)>, key: Seq<char>) -> Seq<Seq<char>>
    decreases g.len(),
{
    if g.len() == 0 {
        Seq::empty()
    } else if g.last().1 == key {
        backlinks(g.drop_last(), key).push(g.last().0)
    } else {
        backlinks(g.drop_last(), key)
    }
}

proof fn lemma_outlinks(g: Seq<(Seq<char>, Seq<char>)>, a: Seq<char>, b: Seq<char>)
    ensures
        outlinks(g, a).contains(b) <==> g.contains((a, b)),
        backlinks(g, b).contains(a) <==> g.contains((a, b)),
    decreases g.len(),
{
    if g.len() > 0 {
        let rest = g.drop_last();
        lemma_outlinks(rest, a, b);
        assert(g =~= rest.push(g.last()));
        let o = outlinks(rest, a);
        let k = backlinks(rest, b);
        if g.contains((a, b)) {
            let i = choose|i: int| 0 <= i < g.len() && g[i] == (a, b);
            if i < rest.len() {
                assert(rest[i] == (a, b));
                let p = choose|p: int| 0 <= p < o.len() && o[p] == b;
                assert(outlinks(g, a)[p] == b);
                let q = choose|q: int| 0 <= q < k.len() && k[q] == a;
                assert(backlinks(g, b)[q] == a);
            } else {
                assert(outlinks(g, a)[o.len() as int] == b);
                assert(backlinks(g, b)[k.len() as int] == a);
            }
        }
        if rest.contains((a, b)) {
            let i = choose|i: int| 0 <= i < rest.len() && rest[i] == (a, b);
            assert(g[i] == (a, b));
        }
        if outlinks(g, a).contains(b) {
            let p = choose|p: int| 0 <= p < outlinks(g, a).len() && outlinks(g, a)[p] == b;
            if p < o.len() {
                assert(o[p] == b);
            } else {
                assert(g[g.len() - 1] == (a, b));
            }
        }
        if backlinks(g, b).contains(a) {
            let q = choose|q: int| 0 <= q < backlinks(g, b).len() && backlinks(g, b)[q] == a;
            if q < k.len() {
                assert(k[q] == a);
            } else {
                assert(g[g.len() - 1] == (a, b));
            }
        }
    }
}

/// The graph is bidirectional: `b` is among the outlinks of `a` exactly where
/// `a` is among the backlinks of `b`.
pub proof fn law_links_run_both_ways(
    g: Seq<(Seq<char>, Seq<char>)>,
    a: Seq<char>,
    b: Seq<char>,
)
    ensures
        outlinks(g, a).contains(b) <==> backlinks(g, b).contains(a),
{
    lemma_outlinks(g, a, b);
}

/// The graph with one link more, where an entry has the key that it leads to
/// and it is not there yet.
pub open spec fn with_link(
    g: Seq<(Seq<char>, Seq<char>)>,
    keys: Seq<Seq<char>>,
    from: Seq<char>,
    to: Seq<char>,
) -> Seq<(Seq<char>, Seq<char>)> {
    if keys.contains(to) && !g.contains((from, to)) {
        g.push((from, to))
    } else {
        g
    }
}

/// The graph with the links of one entry.
pub open spec fn with_row(
    g: Seq<(Seq<char>, Seq<char>)>,
    keys: Seq<Seq<char>>,
    from: Seq<char>,
    row: Seq<Seq<char>>,
) -> Seq<(Seq<char>, Seq<char>)>
    decreases row.len(),
{
    if row.len() == 0 {
        g
    } else {
        with_link(with_row(g, keys, from, row.drop_last()), keys, from, row.last())
    }
}

/// The graph of the first `n` entries, of which `keys` gives the keys and
/// `targets` the keys that they link to.
pub open spec fn graph_of(
    keys: Seq<Seq<char>>,
    targets: Seq<Seq<Seq<char>>>,
    n: nat,
) -> Seq<(Seq<char>, Seq<char>)>
    decreases n,
{
    if n == 0 {
        Seq::empty()
    } else {
        with_row(graph_of(keys, targets, (n - 1) as nat), keys, keys[n - 1], targets[n - 1])
    }
}

/// The entry at `i` of the first `n` links from `a` to `b`.
pub open spec fn links_at(
    keys: Seq<Seq<char>>,
    targets: Seq<Seq<Seq<char>>>,
    i: int,
    a: Seq<char>,
    b: Seq<char>,
) -> bool {
    keys[i] == a && targets[i].contains(b)
}

proof fn lemma_with_row(
    g: Seq<(Seq<char>, Seq<char>)>,
    keys: Seq<Seq<char>>,
    from: Seq<char>,
    row: Seq<Seq<char>>,
    a: Seq<char>,
    b: Seq<char>,
)
    ensures
        with_row(g, keys, from, row).contains((a, b)) <==> g.contains((a, b)) || (a == from
            && row.contains(b) && keys.contains(b)),
    decreases row.len(),
{
    if row.len() > 0 {
        let rest = row.drop_last();
        lemma_with_row(g, keys, from, rest, a, b);
        let before = with_row(g, keys, from, rest);
        lemma_with_row(g, keys, from, rest, from, row.last());
        let after = with_row(g, keys, from, row);
        if before.contains((a, b)) {
            let i = choose|i: int| 0 <= i < before.len() && before[i] == (a, b);
            assert(after[i] == (a, b));
        }
        if rest.contains(b) {
            let i = choose|i: int| 0 <= i < rest.len() && rest[i] == b;
            assert(row[i] == b);
        }
        if row.contains(b) && !rest.contains(b) {
            let i = choose|i: int| 0 <= i < row.len() && row[i] == b;
            assert(i == row.len() - 1) by {
                if i < row.len() - 1 {
                    assert(rest[i] == b);
                }
            }
        }
        assert(row[row.len() - 1] == row.last());
        if a == from && b == row.last() && keys.contains(b) && !before.contains((a, b)) {
            assert(after[before.len() as int] == (a, b));
        }
    }
}

/// The graph holds a link exactly where an entry refers to a title that an
/// entry has: links to entries that do not exist are not tracked.
pub proof fn law_graph_links(
    keys: Seq<Seq<char>>,
    targets: Seq<Seq<Seq<char>>>,
    n: nat,
    a: Seq<char>,
    b: Seq<char>,
)
    ensures
        graph_of(keys, targets, n).contains((a, b)) <==> keys.contains(b) && exists|i: int|
            0 <= i < n && #[trigger] links_at(keys, targets, i, a, b),
    decreases n,
{
    if n > 0 {
        let m = (n - 1) as nat;
        law_graph_links(keys, targets, m, a, b);
        lemma_with_row(graph_of(keys, targets, m), keys, keys[n - 1], targets[n - 1], a, b);
        if keys[n - 1] == a && targets[n - 1].contains(b) {
            assert(links_at(keys, targets, n - 1, a, b));
        }
    }
}

/// The keys of entries: their titles in lower case.
pub open spec fn keys_of(entries: Seq<EntryView>) -> Seq<Seq<char>> {
    entries.map_values(|e: EntryView| lowercase(e.title))
}

/// The keys that the bodies of entries link to.
pub open spec fn targets_of(entries: Seq<EntryView>) -> Seq<Seq<Seq<char>>> {
    entries.map_values(|e: EntryView| lowercases(links(e.body)))
}

/// A query over the graph: the keys of all entries, and those from which the
/// links are followed.
pub struct Web {
    pub links: Seq<(Seq<char>, Seq<char>)>,
    pub keys: Seq<Seq<char>>,
    pub start: Seq<Seq<char>>,
}

/// One of the two links to the other.
pub open spec fn adjacent(g: Seq<(Seq<char>, Seq<char>)>, a: Seq<char>, b: Seq<char>) -> bool {
    g.contains((a, b)) || g.contains((b, a))
}

/// The key is among the start, or an entry has it and it is reached over at
/// most `h` links.
pub open spec fn reached(w: Web, h: nat, k: Seq<char>) -> bool
    decreases h,
{
    if h == 0 {
        w.start.contains(k)
    } else {
        reached(w, (h - 1) as nat, k) || (w.keys.contains(k) && exists|m: Seq<char>|
            reached(w, (h - 1) as nat, m) && #[trigger] adjacent(w.links, m, k))
    }
}

/// The key is reached over `h` links and not over fewer.
pub open spec fn at_hop(w: Web, h: nat, k: Seq<char>) -> bool {
    h > 0 && reached(w, h, k) && !reached(w, (h - 1) as nat, k)
}

/// No later entry has the key of the entry at `i`.
pub open spec fn is_last(keys: Seq<Seq<char>>, i: int) -> bool {
    forall|j: int| i < j < keys.len() ==> #[trigger] keys[j] != keys[i]
}

/// The entry at `i` is found over `h` links.
pub open spec fn in_layer(w: Web, h: nat, i: int) -> bool {
    is_last(w.keys, i) && at_hop(w, h, w.keys[i])
}

/// The places below `n` of the entries that are found over `h` links, each with
/// `h`.
pub open spec fn layer(w: Web, h: nat, n: nat) -> Seq<(int, nat)>
    decreases n,
{
    if n == 0 {
        Seq::empty()
    } else if in_layer(w, h, n - 1) {
        layer(w, h, (n - 1) as nat).push((n - 1, h))
    } else {
        layer(w, h, (n - 1) as nat)
    }
}

/// The places of the entries that are found over at most `h` links, the nearest
/// first, each with the number of links.
pub open spec fn expansion(w: Web, h: nat) -> Seq<(int, nat)>
    decreases h,
{
    if h == 0 {
        Seq::empty()
    } else {
        expansion(w, (h - 1) as nat) + layer(w, h, w.keys.len())
    }
}

proof fn lemma_layer(w: Web, h: nat, n: nat, i: int, j: nat)
    ensures
        layer(w, h, n).contains((i, j)) <==> 0 <= i < n && j == h && in_layer(w, h, i),
        forall|x: int| 0 <= x < layer(w, h, n).len() ==> (#[trigger] layer(w, h, n)[x]).1 == h && 0
            <= layer(w, h, n)[x].0 < n && in_layer(w, h, layer(w, h, n)[x].0),
    decreases n,
{
    if n > 0 {
        let m = (n - 1) as nat;
        lemma_layer(w, h, m, i, j);
        let before = layer(w, h, m);
        let after = layer(w, h, n);
        if before.contains((i, j)) {
            let x = choose|x: int| 0 <= x < before.len() && before[x] == (i, j);
            assert(after[x] == (i, j));
        }
        if in_layer(w, h, n - 1) {
            assert(after[before.len() as int] == (n - 1, h));
        }
        if after.contains((i, j)) {
            let x = choose|x: int| 0 <= x < after.len() && after[x] == (i, j);
            if x < before.len() {
                assert(before[x] == (i, j));
            }
        }
    }
}

/// What is found are the entries that are reached over 1 to `h` links, each
/// with the least number of links over which it is reached.
pub proof fn law_expansion_members(w: Web, h: nat, i: int, j: nat)
    ensures
        expansion(w, h).contains((i, j)) <==> 1 <= j <= h && 0 <= i < w.keys.len() && in_layer(
            w,
            j,
            i,
        ),
    decreases h,
{
    if h > 0 {
        let before = expansion(w, (h - 1) as nat);
        let l = layer(w, h, w.keys.len());
        law_expansion_members(w, (h - 1) as nat, i, j);
        lemma_layer(w, h, w.keys.len(), i, j);
        let after = expansion(w, h);
        if before.contains((i, j)) {
            let x = choose|x: int| 0 <= x < before.len() && before[x] == (i, j);
            assert(after[x] == (i, j));
        }
        if l.contains((i, j)) {
            let x = choose|x: int| 0 <= x < l.len() && l[x] == (i, j);
            assert(after[before.len() + x] == (i, j));
        }
        if after.contains((i, j)) {
            let x = choose|x: int| 0 <= x < after.len() && after[x] == (i, j);
            if x < before.len() {
                assert(before[x] == (i, j));
            } else {
                assert(l[x - before.len()] == (i, j));
            }
        }
    }
}

/// What is found comes nearest first, so with bonuses that do not grow.
pub proof fn law_expansion_nearest_first(w: Web, h: nat, x: int, y: int)
    requires
        0 <= x < y < expansion(w, h).len(),
    ensures
        1 <= expansion(w, h)[x].1 <= expansion(w, h)[y].1 <= h,
    decreases h,
{
    if h > 0 {
        let before = expansion(w, (h - 1) as nat);
        let l = layer(w, h, w.keys.len());
        lemma_layer(w, h, w.keys.len(), 0, 0);
        if y < before.len() {
            law_expansion_nearest_first(w, (h - 1) as nat, x, y);
        } else {
            assert(expansion(w, h)[y] == l[y - before.len()]);
            if x < before.len() {
                let p = before[x];
                assert(before.contains(p));
                law_expansion_members(w, (h - 1) as nat, p.0, p.1);
            } else {
                assert(expansion(w, h)[x] == l[x - before.len()]);
            }
        }
    }
}

proof fn lemma_reached_grows(w: Web, a: nat, b: nat, k: Seq<char>)
    requires
        a <= b,
        reached(w, a, k),
    ensures
        reached(w, b, k),
    decreases b - a,
{
    if a < b {
        lemma_reached_grows(w, a, (b - 1) as nat, k);
    }
}

/// Nothing that was followed from is found again, and nothing is found twice.
pub proof fn law_expansion_is_new(w: Web, h: nat, x: int, y: int)
    requires
        0 <= x < expansion(w, h).len(),
        0 <= y < expansion(w, h).len(),
    ensures
        !w.start.contains(w.keys[expansion(w, h)[x].0]),
        w.keys[expansion(w, h)[x].0] == w.keys[expansion(w, h)[y].0] ==> expansion(w, h)[x]
            == expansion(w, h)[y],
{
    let p = expansion(w, h)[x];
    let q = expansion(w, h)[y];
    assert(expansion(w, h).contains(p));
    assert(expansion(w, h).contains(q));
    law_expansion_members(w, h, p.0, p.1);
    law_expansion_members(w, h, q.0, q.1);
    let k = w.keys[p.0];
    if w.start.contains(k) {
        assert(reached(w, 0, k));
        lemma_reached_grows(w, 0, (p.1 - 1) as nat, k);
    }
    if w.keys[q.0] == k {
        if p.1 < q.1 {
            lemma_reached_grows(w, p.1, (q.1 - 1) as nat, k);
        }
        if q.1 < p.1 {
            lemma_reached_grows(w, q.1, (p.1 - 1) as nat, k);
        }
    }
}

/// Where no entry is found over `h` links, none is found over more.
proof fn lemma_empty_layer_ends(w: Web, h: nat, more: nat)
    requires
        h > 0,
        layer(w, h, w.keys.len()).len() == 0,
        h <= more,
    ensures
        expansion(w, more) == expansion(w, h),
        forall|k: Seq<char>| reached(w, more, k) == #[trigger] reached(w, (h - 1) as nat, k),
    decreases more,
{
    assert forall|k: Seq<char>| reached(w, h, k) == #[trigger] reached(w, (h - 1) as nat, k) by {
        if reached(w, h, k) && !reached(w, (h - 1) as nat, k) {
            assert(w.keys.contains(k));
            let i = lemma_last_with_key(w.keys, k);
            lemma_layer(w, h, w.keys.len(), i, h);
            assert(layer(w, h, w.keys.len()).contains((i, h)));
        }
    }
    if h < more {
        lemma_empty_layer_ends(w, h, (more - 1) as nat);
        assert forall|k: Seq<char>|
            reached(w, more, k) == #[trigger] reached(w, (h - 1) as nat, k) by {
            if reached(w, more, k) && !reached(w, (h - 1) as nat, k) {
                assert(!reached(w, (more - 1) as nat, k));
                let m = choose|m: Seq<char>|
                    reached(w, (more - 1) as nat, m) && #[trigger] adjacent(w.links, m, k);
                assert(reached(w, (h - 1) as nat, m));
                assert(reached(w, h, k));
            }
            if reached(w, (h - 1) as nat, k) {
                lemma_reached_grows(w, (h - 1) as nat, more, k);
            }
        }
        let l = layer(w, more, w.keys.len());
        assert(l.len() == 0) by {
            if l.len() > 0 {
                lemma_layer(w, more, w.keys.len(), 0, 0);
                let k = w.keys[l[0].0];
                assert(at_hop(w, more, k));
                assert(reached(w, (h - 1) as nat, k));
                lemma_reached_grows(w, (h - 1) as nat, (more - 1) as nat, k);
            }
        }
        assert(expansion(w, more) =~= expansion(w, (more - 1) as nat));
    }
}

/// The last entry with a key.
proof fn lemma_last_with_key(keys: Seq<Seq<char>>, k: Seq<char>) -> (i: int)
    requires
        keys.contains(k),
    ensures
        0 <= i < keys.len(),
        keys[i] == k,
        is_last(keys, i),
    decreases keys.len(),
{
    if keys.last() == k {
        keys.len() - 1
    } else {
        let rest = keys.drop_last();
        let p = choose|p: int| 0 <= p < keys.len() && keys[p] == k;
        assert(rest[p] == k);
        let i = lemma_last_with_key(rest, k);
        assert forall|j: int| i < j < keys.len() implies #[trigger] keys[j] != keys[i] by {
            if j < rest.len() {
                assert(rest[j] != rest[i]);
            }
        }
        i
    }
}

/// Whether the graph holds the link.
fn has_link(links: &Vec<Link>, from: &str, to: &str) -> (r: bool)
    ensures
        r == link_views(links@).contains((from@, to@)),
{
    let mut i: usize = 0;
    while i < links.len()
        invariant
            i <= links@.len(),
            forall|j: int| 0 <= j < i ==> #[trigger] link_views(links@)[j] != (from@, to@),
        decreases links@.len() - i,
    {
        assert(link_views(links@)[i as int] == links@[i as int]@);
        if same(links[i].from.as_str(), from) && same(links[i].to.as_str(), to) {
            return true;
        }
        i = i + 1;
    }
    false
}

/// Builds the graph of entries from their keys and the keys that they link to.
pub fn graph_from(keys: &Vec<String>, targets: &Vec<Vec<String>>) -> (r: LinkGraph)
    requires
        targets@.len() == keys@.len(),
    ensures
        r@ == graph_of(
            texts(keys@),
            targets@.map_values(|t: Vec<String>| texts(t@)),
            keys@.len(),
        ),
{
    let ghost ks = texts(keys@);
    let ghost ts = targets@.map_values(|t: Vec<String>| texts(t@));
    let mut found: Vec<Link> = Vec::new();
    let mut i: usize = 0;
    assert(link_views(found@) =~= Seq::empty());
    while i < keys.len()
        invariant
            i <= keys@.len(),
            targets@.len() == keys@.len(),
            ks == texts(keys@),
            ts == targets@.map_values(|t: Vec<String>| texts(t@)),
            link_views(found@) == graph_of(ks, ts, i as nat),
        decreases keys@.len() - i,
    {
        let row = &targets[i];
        let ghost base = link_views(found@);
        let ghost all = texts(row@);
        let mut j: usize = 0;
        assert(all.take(0) =~= Seq::empty());
        while j < row.len()
            invariant
                j <= row@.len(),
                i < keys@.len(),
                ks == texts(keys@),
                all == texts(row@),
                link_views(found@) == with_row(base, ks, ks[i as int], all.take(j as int)),
            decreases row@.len() - j,
        {
            assert(all.take(j + 1).drop_last() =~= all.take(j as int));
            assert(all[j as int] == row@[j as int]@);
            assert(ks[i as int] == keys@[i as int]@);
            if has_text(keys, row[j].as_str()) && !has_link(
                &found,
                keys[i].as_str(),
                row[j].as_str(),
            ) {
                let l = Link { from: keys[i].clone(), to: row[j].clone() };
                let ghost before = found@;
                let ghost lv = l@;
                found.push(l);
                assert(link_views(found@) =~= link_views(before).push(lv));
            }
            j = j + 1;
        }
        assert(all.take(all.len() as int) =~= all);
        assert(ts[i as int] == all);
        i = i + 1;
    }
    LinkGraph { links: found }
}

/// Builds a bidirectional link graph from a set of knowledge entries.
///
/// Scans each entry's body for `[[Title]]` references and tracks those that
/// lead to an entry. Title matching is case-insensitive.
pub fn build_link_graph(entries: &Vec<KnowledgeEntry>) -> (r: LinkGraph)
    ensures
        r@ == graph_of(
            keys_of(entry_views(entries@)),
            targets_of(entry_views(entries@)),
            entries@.len(),
        ),
{
    let ghost ev = entry_views(entries@);
    let keys = keys_of_entries(entries);
    let mut targets: Vec<Vec<String>> = Vec::new();
    let mut i: usize = 0;
    while i < entries.len()
        invariant
            i <= entries@.len(),
            ev == entry_views(entries@),
            targets@.map_values(|t: Vec<String>| texts(t@)) == targets_of(ev).take(i as int),
        decreases entries@.len() - i,
    {
        assert(ev[i as int] == entries@[i as int]@);
        let found = extract_links(entries[i].body.as_str());
        let row = lower_all(&found);
        let ghost before = targets@;
        let ghost rv = texts(row@);
        targets.push(row);
        assert(targets@.map_values(|t: Vec<String>| texts(t@)) =~= before.map_values(
            |t: Vec<String>| texts(t@),
        ).push(rv));
        assert(targets_of(ev).take(i + 1) =~= targets_of(ev).take(i as int).push(rv));
        i = i + 1;
    }
    assert(targets_of(ev).take(ev.len() as int) =~= targets_of(ev));
    assert(targets@.map_values(|t: Vec<String>| texts(t@)).len() == targets@.len());
    assert(texts(keys@).len() == keys@.len());
    graph_from(&keys, &targets)
}

/// The keys of entries.
pub fn keys_of_entries(entries: &Vec<KnowledgeEntry>) -> (r: Vec<String>)
    ensures
        texts(r@) == keys_of(entry_views(entries@)),
{
    let ghost ev = entry_views(entries@);
    let mut r: Vec<String> = Vec::new();
    let mut i: usize = 0;
    while i < entries.len()
        invariant
            i <= entries@.len(),
            ev == entry_views(entries@),
            texts(r@) == keys_of(ev).take(i as int),
        decreases entries@.len() - i,
    {
        assert(ev[i as int] == entries@[i as int]@);
        let k = lower(entries[i].title.as_str());
        let ghost before = r@;
        let ghost kv = k@;
        r.push(k);
        assert(texts(r@) =~= texts(before).push(kv));
        assert(keys_of(ev).take(i + 1) =~= keys_of(ev).take(i as int).push(kv));
        i = i + 1;
    }
    assert(keys_of(ev).take(ev.len() as int) =~= keys_of(ev));
    r
}

impl LinkGraph {
    /// The keys that `key` links to.
    pub fn outlinks(&self, key: &str) -> (r: Vec<String>)
        ensures
            texts(r@) == outlinks(self@, key@),
    {
        let ghost g = self@;
        let mut r: Vec<String> = Vec::new();
        let mut i: usize = 0;
        assert(texts(r@) =~= Seq::empty());
        assert(g.take(0) =~= Seq::empty());
        while i < self.links.len()
            invariant
                i <= self.links@.len(),
                g == self@,
                texts(r@) == outlinks(g.take(i as int), key@),
            decreases self.links@.len() - i,
        {
            assert(g.take(i + 1).drop_last() =~= g.take(i as int));
            assert(g[i as int] == self.links@[i as int]@);
            if same(self.links[i].from.as_str(), key) {
                let ghost before = r@;
                r.push(self.links[i].to.clone());
                assert(texts(r@) =~= texts(before).push(g[i as int].1));
            }
            i = i + 1;
        }
        assert(g.take(g.len() as int) =~= g);
        r
    }

    /// The keys that link to `key`.
    pub fn backlinks(&self, key: &str) -> (r: Vec<String>)
        ensures
            texts(r@) == backlinks(self@, key@),
    {
        let ghost g = self@;
        let mut r: Vec<String> = Vec::new();
        let mut i: usize = 0;
        assert(texts(r@) =~= Seq::empty());
        assert(g.take(0) =~= Seq::empty());
        while i < self.links.len()
            invariant
                i <= self.links@.len(),
                g == self@,
                texts(r@) == backlinks(g.take(i as int), key@),
            decreases self.links@.len() - i,
        {
            assert(g.take(i + 1).drop_last() =~= g.take(i as int));
            assert(g[i as int] == self.links@[i as int]@);
            if same(self.links[i].to.as_str(), key) {
                let ghost before = r@;
                r.push(self.links[i].from.clone());
                assert(texts(r@) =~= texts(before).push(g[i as int].0));
            }
            i = i + 1;
        }
        assert(g.take(g.len() as int) =~= g);
        r
    }

    /// Whether one of the keys is next to `key`.
    fn next_to_any(&self, from: &Vec<String>, key: &str) -> (r: bool)
        ensures
            r == exists|m: Seq<char>|
                #![trigger texts(from@).contains(m)]
                texts(from@).contains(m) && adjacent(self@, m, key@),
    {
        let mut i: usize = 0;
        while i < from.len()
            invariant
                i <= from@.len(),
                forall|j: int| 0 <= j < i ==> !adjacent(self@, #[trigger] texts(from@)[j], key@),
            decreases from@.len() - i,
        {
            assert(texts(from@)[i as int] == from@[i as int]@);
            if has_link(&self.links, from[i].as_str(), key) || has_link(
                &self.links,
                key,
                from[i].as_str(),
            ) {
                assert(texts(from@).contains(from@[i as int]@));
                return true;
            }
            i = i + 1;
        }
        false
    }
}

/// Gets the backlinks for a specific entry title from the link graph.
///
/// Returns the titles of entries that link TO this entry, in lower case.
pub fn get_backlinks(graph: &LinkGraph, title: &str) -> (r: Vec<String>)
    ensures
        texts(r@) == backlinks(graph@, lowercase(title@)),
{
    let key = lower(title);
    graph.backlinks(key.as_str())
}

/// Whether no later entry has the key of the entry at `i`.
fn key_is_last(keys: &Vec<String>, i: usize) -> (r: bool)
    requires
        i < keys@.len(),
    ensures
        r == is_last(texts(keys@), i as int),
{
    let n: usize = keys.len();
    let mut j: usize = i + 1;
    while j < n
        invariant
            i < j <= n,
            n == keys@.len(),
            forall|x: int| i < x < j ==> #[trigger] texts(keys@)[x] != texts(keys@)[i as int],
        decreases n - j,
    {
        assert(texts(keys@)[j as int] == keys@[j as int]@);
        assert(texts(keys@)[i as int] == keys@[i as int]@);
        if same(keys[j].as_str(), keys[i].as_str()) {
            return false;
        }
        j = j + 1;
    }
    true
}

/// A place among the entries, and over how many links it was found.
pub open spec fn found_views(v: Seq<(usize, u32)>) -> Seq<(int, nat)> {
    v.map_values(|p: (usize, u32)| (p.0 as int, p.1 as nat))
}

/// Follows the links from `start`, over at most `hops` of them. Gives the places
/// of the entries that are found, the nearest first, each with the number of
/// links.
pub fn follow_links(
    graph: &LinkGraph,
    keys: &Vec<String>,
    start: &Vec<String>,
    hops: u32,
) -> (r: Vec<(usize, u32)>)
    ensures
        found_views(r@) == expansion(
            Web { links: graph@, keys: texts(keys@), start: texts(start@) },
            hops as nat,
        ),
{
    let ghost w = Web { links: graph@, keys: texts(keys@), start: texts(start@) };
    let mut seen: Vec<String> = crate::text::basic::clone_texts(start);
    let mut r: Vec<(usize, u32)> = Vec::new();
    let mut hop: u32 = 0;
    assert(found_views(r@) =~= Seq::empty());
    while hop < hops
        invariant
            hop <= hops,
            w == (Web { links: graph@, keys: texts(keys@), start: texts(start@) }),
            found_views(r@) == expansion(w, hop as nat),
            forall|k: Seq<char>| #[trigger] texts(seen@).contains(k) == reached(w, hop as nat, k),
        decreases hops - hop,
    {
        let next: u32 = hop + 1;
        let ghost before = found_views(r@);
        let mut fresh: Vec<String> = Vec::new();
        let mut i: usize = 0;
        assert(before =~= before + layer(w, next as nat, 0));
        while i < keys.len()
            invariant
                i <= keys@.len(),
                next == hop + 1,
                w == (Web { links: graph@, keys: texts(keys@), start: texts(start@) }),
                found_views(r@) == before + layer(w, next as nat, i as nat),
                forall|k: Seq<char>| #[trigger]
                    texts(seen@).contains(k) == reached(w, hop as nat, k),
                forall|k: Seq<char>| #[trigger]
                    texts(fresh@).contains(k) <==> exists|j: int|
                        0 <= j < i && #[trigger] in_layer(w, next as nat, j) && w.keys[j] == k,
                texts(fresh@).len() == layer(w, next as nat, i as nat).len(),
            decreases keys@.len() - i,
        {
            assert(w.keys[i as int] == keys@[i as int]@);
            let key = keys[i].as_str();
            let found = key_is_last(keys, i) && !has_text(&seen, key) && graph.next_to_any(
                &seen,
                key,
            );
            proof {
                let k = w.keys[i as int];
                assert(w.keys.contains(k));
                assert(texts(seen@).contains(k) == reached(w, hop as nat, k));
                if exists|m: Seq<char>|
                    #![trigger texts(seen@).contains(m)]
                    texts(seen@).contains(m) && adjacent(w.links, m, k) {
                    let m = choose|m: Seq<char>|
                        #![trigger texts(seen@).contains(m)]
                        texts(seen@).contains(m) && adjacent(w.links, m, k);
                    assert(reached(w, hop as nat, m));
                    assert(reached(w, next as nat, k));
                }
                if exists|m: Seq<char>|
                    reached(w, hop as nat, m) && #[trigger] adjacent(w.links, m, k) {
                    let m = choose|m: Seq<char>|
                        reached(w, hop as nat, m) && #[trigger] adjacent(w.links, m, k);
                    assert(texts(seen@).contains(m));
                }
                assert(found == in_layer(w, next as nat, i as int));
            }
            if found {
                let ghost fb = fresh@;
                let ghost rb = r@;
                fresh.push(keys[i].clone());
                r.push((i, next));
                assert(texts(fresh@) =~= texts(fb).push(w.keys[i as int]));
                assert(found_views(r@) =~= found_views(rb).push((i as int, next as nat)));
                proof {
                    lemma_push_contains(texts(fb), w.keys[i as int]);
                }
            }
            assert forall|k: Seq<char>| #[trigger] texts(fresh@).contains(k) implies exists|j: int|
                0 <= j < i + 1 && #[trigger] in_layer(w, next as nat, j) && w.keys[j] == k by {
                if found && k == w.keys[i as int] {
                    assert(in_layer(w, next as nat, i as int));
                }
            }
            i = i + 1;
        }
        proof {
            lemma_layer(w, next as nat, w.keys.len(), 0, 0);
        }
        let ghost old_seen = texts(seen@);
        let none_found = fresh.len() == 0;
        let ghost new_keys = texts(fresh@);
        let mut j: usize = 0;
        assert(texts(seen@) =~= old_seen + new_keys.take(0));
        while j < fresh.len()
            invariant
                j <= fresh@.len(),
                new_keys == texts(fresh@),
                texts(seen@) == old_seen + new_keys.take(j as int),
            decreases fresh@.len() - j,
        {
            let ghost sb = seen@;
            assert(new_keys[j as int] == fresh@[j as int]@);
            seen.push(fresh[j].clone());
            assert(texts(seen@) =~= texts(sb).push(new_keys[j as int]));
            assert(new_keys.take(j + 1) =~= new_keys.take(j as int).push(new_keys[j as int]));
            j = j + 1;
        }
        assert(new_keys.take(new_keys.len() as int) =~= new_keys);
        assert forall|k: Seq<char>| #[trigger] texts(seen@).contains(k) == reached(
            w,
            next as nat,
            k,
        ) by {
            lemma_concat_contains(old_seen, new_keys, k);
            assert(old_seen.contains(k) == reached(w, hop as nat, k));
            if reached(w, next as nat, k) && !reached(w, hop as nat, k) {
                let i = lemma_last_with_key(w.keys, k);
                assert(in_layer(w, next as nat, i));
                assert(new_keys.contains(k));
            }
            if new_keys.contains(k) {
                let i = choose|j: int|
                    0 <= j < w.keys.len() && #[trigger] in_layer(w, next as nat, j) && w.keys[j]
                        == k;
                assert(at_hop(w, next as nat, k));
            }
        }
        hop = next;
        if none_found {
            assert(layer(w, next as nat, w.keys.len()).len() == 0);
            proof {
                lemma_empty_layer_ends(w, next as nat, hops as nat);
            }
            return r;
        }
    }
    r
}

proof fn lemma_push_contains(s: Seq<Seq<char>>, x: Seq<char>)
    ensures
        forall|k: Seq<char>| #[trigger] s.push(x).contains(k) <==> s.contains(k) || k == x,
{
    assert forall|k: Seq<char>| #[trigger] s.push(x).contains(k) <==> s.contains(k) || k == x by {
        if s.contains(k) {
            let i = choose|i: int| 0 <= i < s.len() && s[i] == k;
            assert(s.push(x)[i] == k);
        }
        assert(s.push(x)[s.len() as int] == x);
    }
}

proof fn lemma_concat_contains(a: Seq<Seq<char>>, b: Seq<Seq<char>>, k: Seq<char>)
    ensures
        (a + b).contains(k) <==> a.contains(k) || b.contains(k),
{
    if a.contains(k) {
        let i = choose|i: int| 0 <= i < a.len() && a[i] == k;
        assert((a + b)[i] == k);
    }
    if b.contains(k) {
        let i = choose|i: int| 0 <= i < b.len() && b[i] == k;
        assert((a + b)[a.len() + i] == k);
    }
    if (a + b).contains(k) {
        let i = choose|i: int| 0 <= i < (a + b).len() && (a + b)[i] == k;
        if i >= a.len() {
            assert(b[i - a.len()] == k);
        }
    }
}

/// The entries of a scored list.
pub open spec fn scored_entries(v: Seq<(KnowledgeEntry, u32)>) -> Seq<EntryView> {
    v.map_values(|p: (KnowledgeEntry, u32)| p.0@)
}

/// How far links are followed: no further than asked, and no further than the
/// bonus lasts.
pub open spec fn reach(max_hops: u32, base_bonus: u32) -> nat {
    if max_hops <= base_bonus {
        max_hops as nat
    } else {
        base_bonus as nat
    }
}

/// Expands a set of matched entries by following links in the graph.
///
/// Starting from the initially matched entries, follows outlinks and backlinks
/// up to `max_hops` deep. Newly discovered entries get a score bonus that
/// decreases with distance: `base_bonus / hop_number`.
///
/// Returns additional entries (not already in `initial_matched`) with their
/// link-derived scores, sorted by score descending.
pub fn expand_via_links(
    all_entries: &Vec<KnowledgeEntry>,
    initial_matched: &Vec<(KnowledgeEntry, u32)>,
    graph: &LinkGraph,
    max_hops: u32,
    base_bonus: u32,
) -> (r: Vec<(KnowledgeEntry, u32)>)
    ensures
        ({
            let all = entry_views(all_entries@);
            let found = expansion(
                Web {
                    links: graph@,
                    keys: keys_of(all),
                    start: keys_of(scored_entries(initial_matched@)),
                },
                reach(max_hops, base_bonus),
            );
            &&& r@.len() == found.len()
            &&& forall|x: int|
                0 <= x < r@.len() ==> (#[trigger] r@[x]).0@ == all[found[x].0] && r@[x].1
                    == base_bonus as int / found[x].1 as int && r@[x].1 > 0
        }),
{
    let keys = keys_of_entries(all_entries);
    let ghost sv = scored_entries(initial_matched@);
    let mut start: Vec<String> = Vec::new();
    let mut i: usize = 0;
    while i < initial_matched.len()
        invariant
            i <= initial_matched@.len(),
            sv == scored_entries(initial_matched@),
            texts(start@) == keys_of(sv).take(i as int),
        decreases initial_matched@.len() - i,
    {
        let k = lower(initial_matched[i].0.title.as_str());
        let ghost before = start@;
        let ghost kv = k@;
        assert(sv[i as int] == initial_matched@[i as int].0@);
        start.push(k);
        assert(texts(start@) =~= texts(before).push(kv));
        assert(keys_of(sv).take(i + 1) =~= keys_of(sv).take(i as int).push(kv));
        i = i + 1;
    }
    assert(keys_of(sv).take(sv.len() as int) =~= keys_of(sv));
    let hops: u32 = if max_hops <= base_bonus {
        max_hops
    } else {
        base_bonus
    };
    let places = follow_links(graph, &keys, &start, hops);
    let ghost w = Web { links: graph@, keys: texts(keys@), start: texts(start@) };
    let ghost found = expansion(w, hops as nat);
    let ghost all = entry_views(all_entries@);
    assert(w.keys.len() == all.len());
    let mut r: Vec<(KnowledgeEntry, u32)> = Vec::new();
    let mut n: usize = 0;
    assert(found_views(places@).len() == places@.len());
    while n < places.len()
        invariant
            n <= places@.len(),
            places@.len() == found.len(),
            found == found_views(places@),
            found == expansion(w, hops as nat),
            w.keys.len() == all_entries@.len(),
            all == entry_views(all_entries@),
            hops <= base_bonus,
            r@.len() == n,
            forall|x: int|
                0 <= x < n ==> (#[trigger] r@[x]).0@ == all[found[x].0] && r@[x].1
                    == base_bonus as int / found[x].1 as int && r@[x].1 > 0,
        decreases places@.len() - n,
    {
        let (place, hop) = places[n];
        assert(found[n as int] == (place as int, hop as nat));
        assert(found.contains(found[n as int]));
        proof {
            law_expansion_members(w, hops as nat, place as int, hop as nat);
            assert(base_bonus as int / hop as int > 0) by (nonlinear_arith)
                requires
                    1 <= hop <= base_bonus,
            ;
        }
        assert(all[place as int] == all_entries@[place as int]@);
        let bonus: u32 = base_bonus / hop;
        r.push((all_entries[place].clone(), bonus));
        n = n + 1;
    }
    r
}

} // verus!
