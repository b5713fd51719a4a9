//! What holds of matching, deduplicating and showing knowledge entries.

use vstd::prelude::*;

use crate::journal::long_words;
use crate::knowledge::dedup::{
    belongs, cut_to_words, dedup_target, entry_path, merged, overlaps,
};
use crate::knowledge::entry::{entries_of, parsed_entry, EntryView, KnowledgeFile};
use crate::knowledge::graph::{
    adjacent, backlinks, expansion, in_layer, law_expansion_members, outlinks, reach, reached, Web,
};
use crate::knowledge::links::{links, titles_from};
use crate::knowledge::matching::{path_words, score, task_hints, Hints};
use crate::knowledge::render::{entry_text, entry_texts, knowledge_text, within};
use crate::knowledge::slug::slug;
use crate::text::case::{lowercase, lowercases};
use crate::text::search::{contains, ends_with, find_from, lemma_find_least, occurs_at};
use crate::text::shape::{concat, join, split, trim, words, Class};

verus! {

/// The tags of two lists score together what each list scores by itself.
pub proof fn law_scores_add_up(h: Hints, a: Seq<Seq<char>>, b: Seq<Seq<char>>)
    ensures
        score(h, a + b) == score(h, a) + score(h, b),
    decreases b.len(),
{
    if b.len() == 0 {
        assert(a + b =~= a);
    } else {
        law_scores_add_up(h, a, b.drop_last());
        assert((a + b).drop_last() =~= a + b.drop_last());
    }
}

/// What one tag scores for a task: 2 where it is a word of the title or the
/// description in lower case, 2 where it is the feature's name in lower case,
/// and 1 where it is a part, of more than two characters, of the path of a
/// recent file in lower case; all that hold are added.
pub proof fn law_tag_scores(
    title: Seq<char>,
    description: Seq<char>,
    feature: Option<Seq<char>>,
    files: Seq<Seq<char>>,
    tag: Seq<char>,
)
    ensures
        ({
            let in_task = exists|i: int|
                0 <= i < words(title + " "@ + description).len() && tag == lowercase(
                    #[trigger] words(title + " "@ + description)[i],
                );
            let is_feature = feature is Some && tag == lowercase(feature->0);
            let in_path = tag.len() > 2 && exists|f: int, p: int|
                0 <= f < files.len() && 0 <= p < split(files[f], Class::Path).len() && tag
                    == lowercase(#[trigger] split(files[f], Class::Path)[p]);
            score(task_hints(title, description, feature, files), seq![tag]) == (if in_task {
                2int
            } else {
                0
            }) + (if is_feature {
                2int
            } else {
                0
            }) + (if in_path {
                1int
            } else {
                0
            })
        }),
{
    let h = task_hints(title, description, feature, files);
    let one = seq![tag];
    assert(one.drop_last() =~= Seq::empty());
    assert(score(h, one.drop_last()) == 0);
    assert(one.last() == tag);
    let w = words(title + " "@ + description);
    if h.words.contains(tag) {
        let i = choose|i: int| 0 <= i < h.words.len() && h.words[i] == tag;
        assert(tag == lowercase(w[i]));
    }
    if exists|i: int| 0 <= i < w.len() && tag == lowercase(#[trigger] w[i]) {
        let i = choose|i: int| 0 <= i < w.len() && tag == lowercase(#[trigger] w[i]);
        assert(h.words[i] == tag);
    }
    lemma_path_words(files, tag);
}

proof fn lemma_path_words(files: Seq<Seq<char>>, tag: Seq<char>)
    ensures
        path_words(files).contains(tag) <==> tag.len() > 2 && exists|f: int, p: int|
            0 <= f < files.len() && 0 <= p < split(files[f], Class::Path).len() && tag == lowercase(
                #[trigger] split(files[f], Class::Path)[p],
            ),
    decreases files.len(),
{
    if files.len() > 0 {
        let d = files.drop_last();
        let n = files.len() - 1;
        lemma_path_words(d, tag);
        let parts = split(files.last(), Class::Path);
        let lowered = lowercases(parts);
        let here = long_words(lowered);
        lemma_long_words(lowered, tag);
        let a = path_words(d);
        let b = path_words(files);
        if b.contains(tag) {
            let i = choose|i: int| 0 <= i < b.len() && b[i] == tag;
            if i < a.len() {
                assert(a[i] == tag);
                assert(a.contains(tag));
                let (f, p) = choose|f: int, p: int|
                    0 <= f < d.len() && 0 <= p < split(d[f], Class::Path).len() && tag == lowercase(
                        #[trigger] split(d[f], Class::Path)[p],
                    );
                assert(files[f] == d[f]);
                assert(tag == lowercase(split(files[f], Class::Path)[p]));
            } else {
                assert(here[i - a.len()] == tag);
                assert(here.contains(tag));
                let p = choose|p: int| 0 <= p < lowered.len() && lowered[p] == tag;
                assert(tag == lowercase(split(files[n], Class::Path)[p]));
            }
        }
        if tag.len() > 2 && exists|f: int, p: int|
            0 <= f < files.len() && 0 <= p < split(files[f], Class::Path).len() && tag == lowercase(
                #[trigger] split(files[f], Class::Path)[p],
            ) {
            let (f, p) = choose|f: int, p: int|
                0 <= f < files.len() && 0 <= p < split(files[f], Class::Path).len() && tag
                    == lowercase(#[trigger] split(files[f], Class::Path)[p]);
            if f < n {
                assert(d[f] == files[f]);
                assert(tag == lowercase(split(d[f], Class::Path)[p]));
                let i = choose|i: int| 0 <= i < a.len() && a[i] == tag;
                assert(b[i] == tag);
            } else {
                assert(lowered[p] == tag);
                assert(lowered.contains(tag));
                let i = choose|i: int| 0 <= i < here.len() && here[i] == tag;
                assert(b[a.len() + i] == tag);
            }
        }
    }
}

proof fn lemma_long_words(p: Seq<Seq<char>>, t: Seq<char>)
    ensures
        long_words(p).contains(t) <==> p.contains(t) && t.len() > 2,
    decreases p.len(),
{
    if p.len() > 0 {
        let d = p.drop_last();
        lemma_long_words(d, t);
        let a = long_words(d);
        let b = long_words(p);
        assert(p =~= d.push(p.last()));
        if a.contains(t) {
            let i = choose|i: int| 0 <= i < a.len() && a[i] == t;
            assert(b[i] == t);
        }
        if d.contains(t) {
            let i = choose|i: int| 0 <= i < d.len() && d[i] == t;
            assert(p[i] == t);
        }
        if p.contains(t) && !d.contains(t) {
            let i = choose|i: int| 0 <= i < p.len() && p[i] == t;
            if i < d.len() {
                assert(d[i] == t);
            }
            assert(t == p.last());
            if t.len() > 2 {
                assert(b[a.len() as int] == t);
            }
        }
        if b.contains(t) && !a.contains(t) {
            let i = choose|i: int| 0 <= i < b.len() && b[i] == t;
            if i < a.len() {
                assert(a[i] == t);
            }
            assert(p[p.len() - 1] == t);
        }
    }
}

/// Two lists of tags overlap exactly where more than half of the different tags
/// of one of them are in the other; which of the two comes first does not
/// matter.
pub proof fn law_overlap(a: Seq<Seq<char>>, b: Seq<Seq<char>>)
    ensures
        ({
            let shared = a.to_set().intersect(b.to_set()).len();
            overlaps(a, b) <==> 2 * shared > a.to_set().len() || 2 * shared > b.to_set().len()
        }),
        overlaps(a, b) == overlaps(b, a),
{
    assert(a.to_set().intersect(b.to_set()) =~= b.to_set().intersect(a.to_set()));
}

/// Where an entry is put: with the first entry that has its title in any letter
/// case, or whose tags overlap with its own and whose title holds its title or
/// stands in it; where there is none, into a file of its own, named after it.
pub proof fn law_entry_goes_to_its_like(
    kb_dir: Seq<char>,
    existing: Seq<EntryView>,
    title: Seq<char>,
    tags: Seq<Seq<char>>,
    i: int,
)
    requires
        0 <= i < existing.len(),
    ensures
        ({
            let key = lowercase(title);
            let like = |e: EntryView|
                lowercase(e.title) == key || (overlaps(e.tags, tags) && (contains(
                    key,
                    lowercase(e.title),
                ) || contains(lowercase(e.title), key)));
            let path = entry_path(kb_dir, existing, title, tags);
            &&& like(existing[i]) && (forall|j: int| 0 <= j < i ==> !like(#[trigger] existing[j]))
                ==> path == existing[i].file_path
            &&& (forall|j: int| 0 <= j < existing.len() ==> !like(#[trigger] existing[j])) ==> path
                == kb_dir + "/"@ + slug(title) + ".md"@
        }),
{
    let key = lowercase(title);
    let like = |e: EntryView|
        lowercase(e.title) == key || (overlaps(e.tags, tags) && (contains(key, lowercase(e.title))
            || contains(lowercase(e.title), key)));
    if like(existing[i]) && (forall|j: int| 0 <= j < i ==> !like(#[trigger] existing[j])) {
        lemma_target(existing, title, tags, 0, i);
    }
    if forall|j: int| 0 <= j < existing.len() ==> !like(#[trigger] existing[j]) {
        lemma_no_target(existing, title, tags, 0);
    }
}

proof fn lemma_target(
    existing: Seq<EntryView>,
    title: Seq<char>,
    tags: Seq<Seq<char>>,
    from: int,
    i: int,
)
    requires
        0 <= from <= i < existing.len(),
        belongs(lowercase(existing[i].title), existing[i].tags, lowercase(title), tags),
        forall|j: int|
            from <= j < i ==> !belongs(
                lowercase((#[trigger] existing[j]).title),
                existing[j].tags,
                lowercase(title),
                tags,
            ),
    ensures
        dedup_target(existing, title, tags, from) == Some(i),
    decreases existing.len() - from,
{
    if from < i {
        assert(!belongs(lowercase(existing[from].title), existing[from].tags, lowercase(title), tags));
        lemma_target(existing, title, tags, from + 1, i);
    }
}

proof fn lemma_no_target(
    existing: Seq<EntryView>,
    title: Seq<char>,
    tags: Seq<Seq<char>>,
    from: int,
)
    requires
        0 <= from,
        forall|j: int|
            from <= j < existing.len() ==> !belongs(
                lowercase((#[trigger] existing[j]).title),
                existing[j].tags,
                lowercase(title),
                tags,
            ),
    ensures
        dedup_target(existing, title, tags, from) is None,
    decreases existing.len() - from,
{
    if from < existing.len() {
        assert(!belongs(lowercase(existing[from].title), existing[from].tags, lowercase(title), tags));
        lemma_no_target(existing, title, tags, from + 1);
    }
}

/// Merging adds no tag that is there already: where neither list has a tag
/// twice, the merged one has none twice either.
pub proof fn law_merging_adds_no_repeat(existing: Seq<Seq<char>>, new: Seq<Seq<char>>)
    requires
        existing.no_duplicates(),
    ensures
        merged(existing, new).no_duplicates(),
    decreases new.len(),
{
    if new.len() > 0 {
        law_merging_adds_no_repeat(existing, new.drop_last());
        let rest = merged(existing, new.drop_last());
        if !rest.contains(new.last()) {
            let r = rest.push(new.last());
            assert forall|i: int, j: int| 0 <= i < r.len() && 0 <= j < r.len() && i != j implies r[i]
                != r[j] by {
                if i == rest.len() {
                    assert(rest.contains(rest[j]));
                } else if j == rest.len() {
                    assert(rest.contains(rest[i]));
                }
            }
        }
    }
}

/// A body of at most so many words stays as it is; a longer one is cut to its
/// first words, with single spaces between them and a mark behind.
pub proof fn law_body_is_cut(text: Seq<char>, max_words: nat)
    ensures
        words(text).len() <= max_words ==> cut_to_words(text, max_words) == text,
        words(text).len() > max_words ==> {
            &&& ends_with(cut_to_words(text, max_words), " [truncated]"@)
            &&& cut_to_words(text, max_words) == join(words(text).take(max_words as int), " "@)
                + " [truncated]"@
        },
{
    if words(text).len() > max_words {
        let head = join(words(text).take(max_words as int), " "@);
        let r = head + " [truncated]"@;
        assert(r.subrange(head.len() as int, r.len() as int) =~= " [truncated]"@);
    }
}

/// What is shown of the entries are the first ones, whole and in their order, as
/// many as together stay within 8000 characters: the next one would not.
pub proof fn law_knowledge_shown(
    entries: Seq<EntryView>,
    g: Option<Seq<(Seq<char>, Seq<char>)>>,
) -> (n: int)
    requires
        entries.len() > 0,
    ensures
        0 <= n <= entries.len(),
        ({
            let p = entry_texts(entries, g);
            &&& p.len() == entries.len()
            &&& knowledge_text(entries, g) == "## Project Knowledge\n\n"@ + concat(p.take(n))
            &&& concat(p.take(n)).len() <= 8000
            &&& n < entries.len() ==> concat(p.take(n)).len() + p[n].len() > 8000
        }),
        knowledge_text(Seq::empty(), g).len() == 0,
{
    lemma_within(entry_texts(entries, g), 8000)
}

proof fn lemma_within(p: Seq<Seq<char>>, budget: int) -> (n: int)
    requires
        0 <= budget,
    ensures
        0 <= n <= p.len(),
        within(p, budget) == concat(p.take(n)),
        concat(p.take(n)).len() <= budget,
        n < p.len() ==> concat(p.take(n)).len() + p[n].len() > budget,
    decreases p.len(),
{
    if p.len() == 0 || p[0].len() > budget {
        assert(p.take(0) =~= Seq::empty());
        0
    } else {
        let rest = p.drop_first();
        let m = lemma_within(rest, budget - p[0].len());
        assert(p.take(m + 1) =~= seq![p[0]] + rest.take(m));
        lemma_concat_front(p[0], rest.take(m));
        if m < rest.len() {
            assert(rest[m] == p[m + 1]);
        }
        m + 1
    }
}

proof fn lemma_concat_front(a: Seq<char>, p: Seq<Seq<char>>)
    ensures
        concat(seq![a] + p) == a + concat(p),
    decreases p.len(),
{
    let all = seq![a] + p;
    if p.len() == 0 {
        assert(all.drop_last() =~= Seq::empty());
        assert(all.last() == a);
        assert(concat(all.drop_last()) =~= Seq::<char>::empty());
        assert(concat(all) =~= a + concat(p));
    } else {
        lemma_concat_front(a, p.drop_last());
        assert(all.drop_last() =~= seq![a] + p.drop_last());
        assert(concat(all) =~= a + concat(p));
    }
}

/// An entry is shown with its title, its tags and its body, and without a graph
/// with nothing else; with one, its links are told in both directions, where it
/// has any.
pub proof fn law_entry_shown(e: EntryView, key: Seq<char>, g: Seq<(Seq<char>, Seq<char>)>)
    ensures
        ({
            let plain = "### "@ + e.title + "\n_Tags: "@ + join(e.tags, ", "@) + "_\n\n"@ + e.body
                + "\n"@;
            let from = if backlinks(g, key).len() > 0 {
                "_Linked from: "@ + join(backlinks(g, key), ", "@) + "_\n"@
            } else {
                Seq::empty()
            };
            let to = if outlinks(g, key).len() > 0 {
                "_Links to: "@ + join(outlinks(g, key), ", "@) + "_\n"@
            } else {
                Seq::empty()
            };
            &&& entry_text(e, key, None) =~= plain + "\n"@
            &&& entry_text(e, key, Some(g)) =~= plain + from + to + "\n"@
        }),
{
}

/// Links are followed in both directions: an entry that one of the start refers
/// to, or that refers to one of the start, is found over one link, unless it is
/// among the start itself.
pub proof fn law_links_are_followed_both_ways(w: Web, h: nat, i: int, from: Seq<char>)
    requires
        h >= 1,
        0 <= i < w.keys.len(),
        w.start.contains(from),
        !w.start.contains(w.keys[i]),
        w.links.contains((from, w.keys[i])) || w.links.contains((w.keys[i], from)),
        forall|j: int| i < j < w.keys.len() ==> #[trigger] w.keys[j] != w.keys[i],
    ensures
        expansion(w, h).contains((i, 1nat)),
{
    let k = w.keys[i];
    assert(w.keys.contains(k));
    assert(reached(w, 0, from));
    assert(adjacent(w.links, from, k));
    assert(!reached(w, 0, k));
    assert(reached(w, 1, k));
    assert(in_layer(w, 1, i));
    law_expansion_members(w, h, i, 1);
}

/// Links are followed no further than asked, nor further than the bonus of an
/// entry lasts: the bonus is divided by the number of links, and none is 0.
pub proof fn law_reach(max_hops: u32, base_bonus: u32, hop: nat)
    ensures
        1 <= hop <= reach(max_hops, base_bonus) <==> 1 <= hop <= max_hops && hop <= base_bonus,
{
}

/// The files that are read as entries are those whose names end in `.md`, with
/// something before it, and whose content parses; each entry tells its file.
pub proof fn law_entries_are_markdown_files(files: Seq<KnowledgeFile>, e: EntryView)
    ensures
        entries_of(files).contains(e) <==> exists|i: int| #[trigger]
            holds_entry(files, i, e),
    decreases files.len(),
{
    if files.len() > 0 {
        let d = files.drop_last();
        let n = files.len() - 1;
        law_entries_are_markdown_files(d, e);
        let a = entries_of(d);
        let b = entries_of(files);
        if b.contains(e) {
            let k = choose|k: int| 0 <= k < b.len() && b[k] == e;
            if k < a.len() {
                assert(a[k] == e);
                let i = choose|i: int| #[trigger] holds_entry(d, i, e);
                assert(holds_entry(files, i, e));
            } else {
                assert(holds_entry(files, n, e));
            }
        }
        if exists|i: int| #[trigger] holds_entry(files, i, e) {
            let i = choose|i: int| #[trigger] holds_entry(files, i, e);
            if i < n {
                assert(holds_entry(d, i, e));
                let k = choose|k: int| 0 <= k < a.len() && a[k] == e;
                assert(b[k] == e);
            } else {
                assert(b[a.len() as int] == e);
            }
        }
    }
}

/// The file at `i` is a markdown file that parses to the entry.
pub open spec fn holds_entry(files: Seq<KnowledgeFile>, i: int, e: EntryView) -> bool {
    &&& 0 <= i < files.len()
    &&& files[i].name@.len() > 3
    &&& ends_with(files[i].name@, ".md"@)
    &&& parsed_entry(files[i].content@) is Some
    &&& e == (EntryView { file_path: files[i].path@, ..parsed_entry(files[i].content@)->0 })
}

/// A reference written into a text is read back: its trimmed title comes out
/// first, and the text behind it is read as if it stood alone. A blank one
/// counts for nothing.
pub proof fn law_reference_reads_back(before: Seq<char>, title: Seq<char>, after: Seq<char>)
    requires
        !contains(before, "[["@),
        before.len() > 0 ==> before.last() != '[',
        !contains(title, "]]"@),
        title.len() > 0 ==> title.last() != ']',
    ensures
        ({
            let s = before + "[["@ + title + "]]"@ + after;
            titles_from(s, 0) == if trim(title).len() > 0 {
                seq![trim(title)] + titles_from(after, 0)
            } else {
                titles_from(after, 0)
            }
        }),
{
    let open = "[["@;
    let close = "]]"@;
    assert(open.len() == 2 && open[0] == '[' && open[1] == '[') by {
        reveal_strlit("[[");
    }
    assert(close.len() == 2 && close[0] == ']' && close[1] == ']') by {
        reveal_strlit("]]");
    }
    let s = before + open + title + close + after;
    let a = before.len() as int;
    let c = a + 2 + title.len();
    let none = Seq::<char>::empty();
    assert(s =~= none + before + open + (title + close + after));
    lemma_pair_found(none, before, open, title + close + after);
    assert(s =~= (before + open) + title + close + after);
    lemma_pair_found(before + open, title, close, after);
    assert(s.subrange(a + 2, c) =~= title);
    let front = before + open + title + close;
    assert(front.len() == c + 2);
    lemma_titles_shift(front, after, 0);
}

/// A pair of equal characters is found behind a text that does not hold it and
/// does not end in one of them.
proof fn lemma_pair_found(a: Seq<char>, inner: Seq<char>, pat: Seq<char>, rest: Seq<char>)
    requires
        pat.len() == 2,
        pat[0] == pat[1],
        !contains(inner, pat),
        inner.len() > 0 ==> inner.last() != pat[0],
    ensures
        find_from(a + inner + pat + rest, pat, a.len() as int) == Some(
            (a.len() + inner.len()) as int,
        ),
{
    lemma_pair_not_before(inner, pat, rest);
    crate::acp::laws::lemma_first_behind(a, inner, pat, rest);
}

proof fn lemma_pair_not_before(inner: Seq<char>, pat: Seq<char>, rest: Seq<char>)
    requires
        pat.len() == 2,
        pat[0] == pat[1],
        !contains(inner, pat),
        inner.len() > 0 ==> inner.last() != pat[0],
    ensures
        forall|i: int| 0 <= i < inner.len() ==> !#[trigger] occurs_at(inner + (pat + rest), pat, i),
{
    let t = inner + (pat + rest);
    assert forall|i: int| 0 <= i < inner.len() implies !#[trigger] occurs_at(t, pat, i) by {
        if occurs_at(t, pat, i) {
            let w = t.subrange(i, i + pat.len());
            assert(w[0] == t[i]);
            if i == inner.len() - 1 {
                assert(t[i] == inner.last());
            } else {
                assert(inner.subrange(i, i + pat.len()) =~= w);
                assert(occurs_at(inner, pat, i));
            }
        }
    }
}

proof fn lemma_titles_shift(a: Seq<char>, b: Seq<char>, k: int)
    requires
        0 <= k <= b.len(),
    ensures
        titles_from(a + b, a.len() + k) == titles_from(b, k),
    decreases b.len() - k,
{
    reveal_strlit("[[");
    reveal_strlit("]]");
    let s = a + b;
    let n = a.len();
    crate::acp::laws::lemma_find_shift(a, b, "[["@, k);
    lemma_find_least(b, "[["@, k);
    if find_from(b, "[["@, k) is Some {
        let i = find_from(b, "[["@, k)->0;
        crate::acp::laws::lemma_find_shift(a, b, "]]"@, i + 2);
        lemma_find_least(b, "]]"@, i + 2);
        if find_from(b, "]]"@, i + 2) is Some {
            let c = find_from(b, "]]"@, i + 2)->0;
            assert(s.subrange(n + i + 2, n + c) =~= b.subrange(i + 2, c));
            lemma_titles_shift(a, b, c + 2);
        }
    }
}

/// A text without an opening of a reference has none, and each link of a text is
/// a title that it refers to.
pub proof fn law_links_are_references(s: Seq<char>, x: int)
    ensures
        !contains(s, "[["@) ==> links(s).len() == 0,
        0 <= x < links(s).len() ==> titles_from(s, 0).contains(links(s)[x]),
{
    lemma_find_least(s, "[["@, 0);
    let t = titles_from(s, 0);
    if 0 <= x < links(s).len() {
        lemma_first_from(t, lowercases(t), x);
    }
}

proof fn lemma_first_from(titles: Seq<Seq<char>>, keys: Seq<Seq<char>>, x: int)
    requires
        0 <= x < crate::knowledge::links::first_of_each(titles, keys).len(),
    ensures
        titles.contains(crate::knowledge::links::first_of_each(titles, keys)[x]),
    decreases titles.len(),
{
    let n = titles.len() - 1;
    let rest = crate::knowledge::links::first_of_each(titles.take(n), keys);
    if x < rest.len() {
        lemma_first_from(titles.take(n), keys, x);
        let k = choose|k: int| 0 <= k < n && titles.take(n)[k] == rest[x];
        assert(titles[k] == rest[x]);
    } else {
        assert(titles[n] == crate::knowledge::links::first_of_each(titles, keys)[x]);
    }
}

} // verus!
