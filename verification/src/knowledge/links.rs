//! `[[Title]]` references in the bodies of knowledge entries.

use vstd::prelude::*;

use crate::text::basic::{chars_of, has_text, slice_text, texts};
use crate::text::case::{lower_all, lowercases};
use crate::text::search::{find_chars, find_from};
use crate::text::shape::{trim, trimmed};

verus! {

/// The trimmed titles between `[[` and `]]` from `from` on, none empty. The
/// search ends at a `[[` that is not closed.
pub open spec fn titles_from(s: Seq<char>, from: int) -> Seq<Seq<char>>
    decreases s.len() - from,
{
    match find_from(s, "[["@, from) {
        None => Seq::empty(),
        Some(a) => match find_from(s, "]]"@, a + 2) {
            None => Seq::empty(),
            Some(c) => if from <= c && c + 2 <= s.len() {
                let t = trim(s.subrange(a + 2, c));
                if t.len() > 0 {
                    seq![t] + titles_from(s, c + 2)
                } else {
                    titles_from(s, c + 2)
                }
            } else {
                Seq::empty()
            },
        },
    }
}

/// The titles whose keys have not come before.
pub open spec fn first_of_each(titles: Seq<Seq<char>>, keys: Seq<Seq<char>>) -> Seq<Seq<char>>
    decreases titles.len(),
{
    if titles.len() == 0 {
        Seq::empty()
    } else {
        let n = titles.len() - 1;
        let rest = first_of_each(titles.take(n), keys);
        if keys.take(n).contains(keys[n]) {
            rest
        } else {
            rest.push(titles[n])
        }
    }
}

/// The links of a text: the titles it refers to, each once, whatever its case.
pub open spec fn links(s: Seq<char>) -> Seq<Seq<char>> {
    let t = titles_from(s, 0);
    first_of_each(t, lowercases(t))
}

/// A title is kept at its first place, and it is kept there alone: what is
/// kept are titles, and each key is the key of one that is kept.
pub proof fn law_first_of_each_covers(titles: Seq<Seq<char>>, keys: Seq<Seq<char>>, i: int)
    requires
        keys.len() == titles.len(),
        0 <= i < titles.len(),
    ensures
        exists|j: int|
            0 <= j <= i && keys[j] == keys[i] && first_of_each(titles, keys).contains(
                #[trigger] titles[j],
            ),
    decreases titles.len(),
{
    let n = titles.len() - 1;
    if i < n {
        let before = titles.take(n);
        let kb = keys.take(n);
        lemma_first_of_each_prefix(before, keys, kb);
        law_first_of_each_covers(before, kb, i);
        let j = choose|j: int|
            0 <= j <= i && kb[j] == kb[i] && first_of_each(before, kb).contains(
                #[trigger] before[j],
            );
        assert(titles[j] == before[j]);
        let rest = first_of_each(before, keys);
        let m = choose|m: int| 0 <= m < rest.len() && rest[m] == titles[j];
        assert(first_of_each(titles, keys)[m] == titles[j]);
    } else if keys.take(n).contains(keys[n]) {
        let p = choose|p: int| 0 <= p < n && keys.take(n)[p] == keys[n];
        let before = titles.take(n);
        let kb = keys.take(n);
        lemma_first_of_each_prefix(before, keys, kb);
        law_first_of_each_covers(before, kb, p);
        let j = choose|j: int|
            0 <= j <= p && kb[j] == kb[p] && first_of_each(before, kb).contains(
                #[trigger] before[j],
            );
        assert(titles[j] == before[j]);
    } else {
        let r = first_of_each(titles, keys);
        assert(r[r.len() - 1] == titles[n]);
    }
}

/// Only the keys of the titles count.
proof fn lemma_first_of_each_prefix(
    titles: Seq<Seq<char>>,
    keys: Seq<Seq<char>>,
    other: Seq<Seq<char>>,
)
    requires
        titles.len() <= keys.len(),
        titles.len() <= other.len(),
        forall|i: int| 0 <= i < titles.len() ==> keys[i] == other[i],
    ensures
        first_of_each(titles, keys) == first_of_each(titles, other),
    decreases titles.len(),
{
    if titles.len() > 0 {
        let n = titles.len() - 1;
        lemma_first_of_each_prefix(titles.take(n), keys, other);
        assert(keys.take(n) =~= other.take(n));
    }
}

/// The trimmed titles between `[[` and `]]`, none empty.
pub fn link_titles(text: &str) -> (r: Vec<String>)
    ensures
        texts(r@) == titles_from(text@, 0),
{
    let t = chars_of(text);
    let open = chars_of("[[");
    let close = chars_of("]]");
    let n: usize = t.len();
    let mut found: Vec<String> = Vec::new();
    let mut from: usize = 0;
    let ghost goal = titles_from(text@, 0);
    proof {
        reveal_strlit("[[");
        reveal_strlit("]]");
    }
    assert(texts(found@) =~= Seq::empty());
    loop
        invariant_except_break
            goal == texts(found@) + titles_from(text@, from as int),
        invariant
            t@ == text@,
            n == t@.len(),
            open@ == "[["@,
            close@ == "]]"@,
            open@.len() == 2,
            close@.len() == 2,
            from <= t@.len(),
        ensures
            goal == texts(found@),
        decreases t@.len() - from,
    {
        let ghost kv = texts(found@);
        let a: usize = match find_chars(&t, &open, from) {
            None => {
                assert(kv + titles_from(text@, from as int) =~= kv);
                break;
            },
            Some(a) => a,
        };
        let c: usize = match find_chars(&t, &close, a + 2) {
            None => {
                assert(kv + titles_from(text@, from as int) =~= kv);
                break;
            },
            Some(c) => c,
        };
        let raw = slice_text(&t, a + 2, c);
        let title = trimmed(raw.as_str());
        let ghost tv = title@;
        if !title.as_str().is_empty() {
            let ghost before = found@;
            found.push(title);
            assert(texts(found@) =~= texts(before).push(tv));
            assert(kv + (seq![tv] + titles_from(text@, c + 2)) =~= texts(found@) + titles_from(
                text@,
                c + 2,
            ));
        }
        from = c + 2;
    }
    found
}

/// The titles whose keys have not come before.
pub fn distinct_by_key(titles: &Vec<String>, keys: &Vec<String>) -> (r: Vec<String>)
    requires
        keys@.len() == titles@.len(),
    ensures
        texts(r@) == first_of_each(texts(titles@), texts(keys@)),
{
    let ghost all = texts(titles@);
    let ghost ks = texts(keys@);
    let mut r: Vec<String> = Vec::new();
    let mut seen: Vec<String> = Vec::new();
    let mut i: usize = 0;
    assert(texts(r@) =~= Seq::empty());
    assert(texts(seen@) =~= ks.take(0));
    while i < titles.len()
        invariant
            i <= titles@.len(),
            keys@.len() == titles@.len(),
            all == texts(titles@),
            ks == texts(keys@),
            texts(seen@) == ks.take(i as int),
            texts(r@) == first_of_each(all.take(i as int), ks),
        decreases titles@.len() - i,
    {
        assert(all.take(i + 1).take(i as int) =~= all.take(i as int));
        assert(all[i as int] == titles@[i as int]@);
        assert(ks[i as int] == keys@[i as int]@);
        if !has_text(&seen, keys[i].as_str()) {
            let ghost before = r@;
            r.push(titles[i].clone());
            assert(texts(r@) =~= texts(before).push(all[i as int]));
        }
        let ghost sb = seen@;
        seen.push(keys[i].clone());
        assert(texts(seen@) =~= texts(sb).push(ks[i as int]));
        assert(ks.take(i + 1) =~= ks.take(i as int).push(ks[i as int]));
        i = i + 1;
    }
    assert(all.take(all.len() as int) =~= all);
    r
}

/// Extracts all `[[Title]]` link references from a text body.
///
/// Returns a deduplicated list of referenced titles (preserving case from the
/// link; titles that differ in case alone count as one). Empty links `[[]]` are
/// skipped.
pub fn extract_links(text: &str) -> (r: Vec<String>)
    ensures
        texts(r@) == links(text@),
{
    let titles = link_titles(text);
    let keys = lower_all(&titles);
    assert(texts(keys@).len() == keys@.len());
    assert(texts(titles@).len() == titles@.len());
    distinct_by_key(&titles, &keys)
}

} // verus!
