//! Scoring knowledge entries by the relevance of their tags.

use vstd::prelude::*;

use crate::journal::long_words;
use crate::knowledge::entry::{entry_views, EntryView, KnowledgeEntry};
use crate::order::{key_views, order_of, pick, places, stable_order, SortKey};
use crate::text::basic::{chars_of, has_text, opt_same, opt_str, opt_text, texts};
use crate::text::case::{lower, lower_all, lowercase, lowercases};
use crate::text::shape::{pieces, split, words, words_of, Class};

verus! {

/// What tags are compared with.
pub struct Hints {
    /// The words of the task's title and description, in lower case.
    pub words: Seq<Seq<char>>,
    /// The name of the feature, in lower case.
    pub feature: Option<Seq<char>>,
    /// The words of the recent files' paths, in lower case.
    pub files: Seq<Seq<char>>,
}

/// The score of a tag: 2 where the task has the word, 2 where it is the
/// feature, 1 where a recent file has the word.
pub open spec fn tag_score(h: Hints, tag: Seq<char>) -> nat {
    (if h.words.contains(tag) {
        2nat
    } else {
        0
    }) + (if h.feature == Some(tag) {
        2nat
    } else {
        0
    }) + (if h.files.contains(tag) {
        1nat
    } else {
        0
    })
}

/// The score of a list of tags.
pub open spec fn score(h: Hints, tags: Seq<Seq<char>>) -> nat
    decreases tags.len(),
{
    if tags.len() == 0 {
        0
    } else {
        score(h, tags.drop_last()) + tag_score(h, tags.last())
    }
}

/// The entries whose tags score, each with its score, as they come.
pub open spec fn candidates(h: Hints, entries: Seq<EntryView>) -> Seq<(EntryView, nat)>
    decreases entries.len(),
{
    if entries.len() == 0 {
        Seq::empty()
    } else {
        let rest = candidates(h, entries.drop_last());
        let n = score(h, entries.last().tags);
        if n > 0 {
            rest.push((entries.last(), n))
        } else {
            rest
        }
    }
}

/// The keys that put higher scores first.
pub open spec fn score_keys(s: Seq<(EntryView, nat)>) -> Seq<(int, Seq<char>)> {
    s.map_values(|p: (EntryView, nat)| (-(p.1 as int), Seq::<char>::empty()))
}

/// The entries whose tags score, by score descending, then as they come.
pub open spec fn matched(h: Hints, entries: Seq<EntryView>) -> Seq<(EntryView, nat)> {
    let c = candidates(h, entries);
    pick(c, stable_order(score_keys(c)))
}

/// The entries of a scored list, each with its score.
pub open spec fn scored_views(v: Seq<(KnowledgeEntry, u32)>) -> Seq<(EntryView, nat)> {
    v.map_values(|p: (KnowledgeEntry, u32)| (p.0@, p.1 as nat))
}

/// The scores of the entry's tags can be added up in 32 bits.
pub open spec fn few_tags(e: KnowledgeEntry) -> bool {
    e.tags@.len() <= u32::MAX / 5
}

proof fn lemma_score_bound(h: Hints, tags: Seq<Seq<char>>)
    ensures
        score(h, tags) <= 5 * tags.len(),
    decreases tags.len(),
{
    if tags.len() > 0 {
        lemma_score_bound(h, tags.drop_last());
    }
}

proof fn lemma_candidates(h: Hints, entries: Seq<EntryView>, e: EntryView, n: nat)
    ensures
        candidates(h, entries).contains((e, n)) <==> entries.contains(e) && n == score(h, e.tags)
            && n > 0,
    decreases entries.len(),
{
    if entries.len() > 0 {
        let rest = entries.drop_last();
        lemma_candidates(h, rest, e, n);
        let a = candidates(h, rest);
        let b = candidates(h, entries);
        if a.contains((e, n)) {
            let i = choose|i: int| 0 <= i < a.len() && a[i] == (e, n);
            assert(b[i] == (e, n));
        }
        if rest.contains(e) {
            let i = choose|i: int| 0 <= i < rest.len() && rest[i] == e;
            assert(entries[i] == e);
        }
        assert(entries[entries.len() - 1] == entries.last());
        if entries.contains(e) && !rest.contains(e) {
            let i = choose|i: int| 0 <= i < entries.len() && entries[i] == e;
            if i < rest.len() {
                assert(rest[i] == e);
            }
            assert(e == entries.last());
            if n == score(h, e.tags) && n > 0 {
                assert(b[a.len() as int] == (e, n));
            }
        }
        if b.contains((e, n)) {
            let i = choose|i: int| 0 <= i < b.len() && b[i] == (e, n);
            if i < a.len() {
                assert(a[i] == (e, n));
            }
        }
    }
}

/// What matches are the entries that score, and the scores do not grow.
pub proof fn law_matched(h: Hints, entries: Seq<EntryView>, e: EntryView, n: nat)
    ensures
        matched(h, entries).contains((e, n)) <==> entries.contains(e) && n == score(h, e.tags)
            && n > 0,
        forall|x: int, y: int|
            0 <= x < y < matched(h, entries).len() ==> (#[trigger] matched(h, entries)[x]).1 >= (
            #[trigger] matched(h, entries)[y]).1,
{
    let c = candidates(h, entries);
    let o = stable_order(score_keys(c));
    let m = matched(h, entries);
    lemma_candidates(h, entries, e, n);
    crate::order::law_stable_order(score_keys(c));
    crate::order::lemma_arrangement_onto(o, c.len() as int);
    if m.contains((e, n)) {
        let x = choose|x: int| 0 <= x < m.len() && m[x] == (e, n);
        assert(c[o[x]] == (e, n));
    }
    if c.contains((e, n)) {
        let i = choose|i: int| 0 <= i < c.len() && c[i] == (e, n);
        assert(o.contains(i));
        let x = choose|x: int| 0 <= x < o.len() && o[x] == i;
        assert(m[x] == (e, n));
    }
    assert forall|x: int, y: int| 0 <= x < y < m.len() implies (#[trigger] m[x]).1 >= (
    #[trigger] m[y]).1 by {
        assert(crate::order::key_le(score_keys(c)[o[x]], score_keys(c)[o[y]]));
    }
}

/// The score of an entry's tags.
fn score_of(
    tags: &Vec<String>,
    words: &Vec<String>,
    feature: &Option<String>,
    files: &Vec<String>,
) -> (r: u32)
    requires
        tags@.len() <= u32::MAX / 5,
    ensures
        r == score(
            Hints { words: texts(words@), feature: opt_text(*feature), files: texts(files@) },
            texts(tags@),
        ),
{
    let ghost h = Hints {
        words: texts(words@),
        feature: opt_text(*feature),
        files: texts(files@),
    };
    let ghost all = texts(tags@);
    let mut n: u32 = 0;
    let mut i: usize = 0;
    while i < tags.len()
        invariant
            i <= tags@.len(),
            tags@.len() <= u32::MAX / 5,
            all == texts(tags@),
            h == (Hints {
                words: texts(words@),
                feature: opt_text(*feature),
                files: texts(files@),
            }),
            n == score(h, all.take(i as int)),
        decreases tags@.len() - i,
    {
        proof {
            lemma_score_bound(h, all.take(i as int));
        }
        assert(all.take(i + 1).drop_last() =~= all.take(i as int));
        assert(all[i as int] == tags@[i as int]@);
        let tag = tags[i].as_str();
        if has_text(words, tag) {
            n = n + 2;
        }
        if opt_same(feature, tag) {
            n = n + 2;
        }
        if has_text(files, tag) {
            n = n + 1;
        }
        i = i + 1;
    }
    assert(all.take(all.len() as int) =~= all);
    n
}

/// Scores and filters entries, given in lower case what their tags are compared
/// with.
pub fn match_entries(
    entries: &Vec<KnowledgeEntry>,
    words: &Vec<String>,
    feature: &Option<String>,
    files: &Vec<String>,
) -> (r: Vec<(KnowledgeEntry, u32)>)
    requires
        forall|i: int| 0 <= i < entries@.len() ==> few_tags(#[trigger] entries@[i]),
    ensures
        scored_views(r@) == matched(
            Hints { words: texts(words@), feature: opt_text(*feature), files: texts(files@) },
            entry_views(entries@),
        ),
{
    let ghost h = Hints {
        words: texts(words@),
        feature: opt_text(*feature),
        files: texts(files@),
    };
    let ghost all = entry_views(entries@);
    let mut found: Vec<(KnowledgeEntry, u32)> = Vec::new();
    let mut keys: Vec<SortKey> = Vec::new();
    let mut i: usize = 0;
    assert(scored_views(found@) =~= candidates(h, all.take(0)));
    assert(key_views(keys@) =~= score_keys(scored_views(found@)));
    while i < entries.len()
        invariant
            i <= entries@.len(),
            forall|i: int| 0 <= i < entries@.len() ==> few_tags(#[trigger] entries@[i]),
            all == entry_views(entries@),
            h == (Hints {
                words: texts(words@),
                feature: opt_text(*feature),
                files: texts(files@),
            }),
            scored_views(found@) == candidates(h, all.take(i as int)),
            key_views(keys@) == score_keys(scored_views(found@)),
        decreases entries@.len() - i,
    {
        assert(few_tags(entries@[i as int]));
        assert(all.take(i + 1).drop_last() =~= all.take(i as int));
        assert(all[i as int] == entries@[i as int]@);
        let n: u32 = score_of(&entries[i].tags, words, feature, files);
        if n > 0 {
            let ghost before = found@;
            let ghost kb = keys@;
            let k = SortKey { rank: -(n as i64), text: String::new() };
            let ghost kv = k@;
            assert(k.text@ =~= Seq::empty());
            found.push((entries[i].clone(), n));
            keys.push(k);
            assert(scored_views(found@) =~= scored_views(before).push((all[i as int], n as nat)));
            assert(key_views(keys@) =~= key_views(kb).push(kv));
            assert(score_keys(scored_views(found@)) =~= score_keys(scored_views(before)).push(
                (-(n as int), Seq::<char>::empty()),
            ));
        }
        i = i + 1;
    }
    assert(all.take(all.len() as int) =~= all);
    assert(key_views(keys@).len() == keys@.len());
    assert(scored_views(found@).len() == found@.len());
    let o = order_of(&keys);
    let ghost goal = pick(scored_views(found@), places(o@));
    let mut r: Vec<(KnowledgeEntry, u32)> = Vec::new();
    let mut n: usize = 0;
    while n < o.len()
        invariant
            n <= o@.len(),
            forall|i: int| 0 <= i < o@.len() ==> (#[trigger] o@[i]) < found@.len(),
            goal == pick(scored_views(found@), places(o@)),
            scored_views(r@) == goal.take(n as int),
        decreases o@.len() - n,
    {
        let ghost before = r@;
        let p: usize = o[n];
        let s: u32 = found[p].1;
        r.push((found[p].0.clone(), s));
        assert(places(o@)[n as int] == o@[n as int] as int);
        assert(scored_views(r@) =~= scored_views(before).push(scored_views(found@)[p as int]));
        assert(goal.take(n + 1) =~= goal.take(n as int).push(goal[n as int]));
        n = n + 1;
    }
    assert(goal.take(goal.len() as int) =~= goal);
    r
}

/// The words of the paths: cut at `/`, `.`, `-` and `_`, in lower case, with
/// more than two characters.
pub open spec fn path_words(files: Seq<Seq<char>>) -> Seq<Seq<char>>
    decreases files.len(),
{
    if files.len() == 0 {
        Seq::empty()
    } else {
        path_words(files.drop_last()) + long_words(
            lowercases(split(files.last(), Class::Path)),
        )
    }
}

/// The words of paths.
fn words_of_paths(files: &Vec<String>) -> (r: Vec<String>)
    ensures
        texts(r@) == path_words(texts(files@)),
{
    let ghost all = texts(files@);
    let mut r: Vec<String> = Vec::new();
    let mut i: usize = 0;
    assert(texts(r@) =~= path_words(all.take(0)));
    while i < files.len()
        invariant
            i <= files@.len(),
            all == texts(files@),
            texts(r@) == path_words(all.take(i as int)),
        decreases files@.len() - i,
    {
        assert(all.take(i + 1).drop_last() =~= all.take(i as int));
        assert(all[i as int] == files@[i as int]@);
        let parts = lower_all(&pieces(files[i].as_str(), Class::Path));
        let ghost start = texts(r@);
        let ghost ps = texts(parts@);
        let mut j: usize = 0;
        assert(start + long_words(ps.take(0)) =~= start);
        while j < parts.len()
            invariant
                j <= parts@.len(),
                ps == texts(parts@),
                texts(r@) == start + long_words(ps.take(j as int)),
            decreases parts@.len() - j,
        {
            assert(ps.take(j + 1).drop_last() =~= ps.take(j as int));
            assert(ps[j as int] == parts@[j as int]@);
            if chars_of(parts[j].as_str()).len() > 2 {
                let ghost before = r@;
                r.push(parts[j].clone());
                assert(texts(r@) =~= texts(before).push(ps[j as int]));
                assert(start + long_words(ps.take(j + 1)) =~= (start
                    + long_words(ps.take(j as int))).push(ps[j as int]));
            }
            j = j + 1;
        }
        assert(ps.take(ps.len() as int) =~= ps);
        i = i + 1;
    }
    assert(all.take(all.len() as int) =~= all);
    r
}

/// What the tags are compared with, for a task.
pub open spec fn task_hints(
    title: Seq<char>,
    description: Seq<char>,
    feature: Option<Seq<char>>,
    files: Seq<Seq<char>>,
) -> Hints {
    Hints {
        words: lowercases(words(title + " "@ + description)),
        feature: match feature {
            Some(f) => Some(lowercase(f)),
            None => None,
        },
        files: path_words(files),
    }
}

/// Scores and filters knowledge entries by tag relevance to the current
/// context.
///
/// - +2 for each tag matching a word in the task title or description
/// - +2 for each tag matching the current feature name
/// - +1 for each tag matching a word in any file path from the last journal
///   entry (file paths are split on `/`, `.`, `-`, `_`; words must be > 2 chars)
///
/// All are compared in lower case. Returns entries with score > 0, sorted by
/// score descending.
pub fn match_knowledge_entries(
    entries: &Vec<KnowledgeEntry>,
    task_title: &str,
    task_description: &str,
    feature_name: Option<&str>,
    recent_files: &Vec<String>,
) -> (r: Vec<(KnowledgeEntry, u32)>)
    requires
        forall|i: int| 0 <= i < entries@.len() ==> few_tags(#[trigger] entries@[i]),
    ensures
        scored_views(r@) == matched(
            task_hints(
                task_title@,
                task_description@,
                opt_str(feature_name),
                texts(recent_files@),
            ),
            entry_views(entries@),
        ),
{
    let mut text = task_title.to_owned();
    text.append(" ");
    text.append(task_description);
    let context_words = lower_all(&words_of(text.as_str()));
    let file_words = words_of_paths(recent_files);
    let feature = match feature_name {
        Some(f) => Some(lower(f)),
        None => None,
    };
    match_entries(entries, &context_words, &feature, &file_words)
}

} // verus!
