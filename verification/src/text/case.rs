//! Lower case, and what is compared in it.

use vstd::prelude::*;

use crate::text::basic::texts;
use crate::text::shape::{
    join, kept_nonempty, lemma_split_extend, lemma_split_push, nonempty, pieces, split, trim,
    trim_start, trimmed, Class,
};

verus! {

/// The lower case of a text, by Unicode's rules.
pub uninterp spec fn lowercase(s: Seq<char>) -> Seq<char>;

/// The text has none but ASCII characters.
pub open spec fn is_ascii_text(s: Seq<char>) -> bool {
    forall|i: int| 0 <= i < s.len() ==> (#[trigger] s[i]) as u32 <= 0x7f
}

/// The letter in lower case, where it is one of `A` to `Z`.
pub open spec fn ascii_lower(c: char) -> char {
    if 'A' <= c <= 'Z' {
        (c as u32 + 32) as char
    } else {
        c
    }
}

/// The text with the letters `A` to `Z` in lower case.
pub open spec fn ascii_lowercase(s: Seq<char>) -> Seq<char> {
    s.map_values(|c: char| ascii_lower(c))
}

/// `str::to_lowercase` gives the lower case of a text. It depends on the text
/// alone. Of an ASCII text, it changes the letters `A` to `Z` and nothing else.
#[verifier::external_body]
pub(crate) fn lower(s: &str) -> (r: String)
    ensures
        r@ == lowercase(s@),
        is_ascii_text(s@) ==> r@ == ascii_lowercase(s@),
{
    s.to_lowercase()
}

/// The lower cases of a list of texts.
pub open spec fn lowercases(p: Seq<Seq<char>>) -> Seq<Seq<char>> {
    p.map_values(|t: Seq<char>| lowercase(t))
}

/// The trimmed texts of a list.
pub open spec fn trims(p: Seq<Seq<char>>) -> Seq<Seq<char>> {
    p.map_values(|t: Seq<char>| trim(t))
}

/// The tags of a comma-separated list: trimmed, in lower case, none empty.
pub open spec fn tag_list(s: Seq<char>) -> Seq<Seq<char>> {
    nonempty(lowercases(trims(split(s, Class::Only(',')))))
}

/// A list of tags, written with a comma between each two, with or without a
/// space behind it, is read back: each tag comes out, in the order of the list.
pub proof fn law_tag_list_reads_back(tags: Seq<Seq<char>>, spaced: bool)
    requires
        tags.len() > 0,
        forall|i: int|
            0 <= i < tags.len() ==> (#[trigger] tags[i]).len() > 0 && trim(tags[i]) == tags[i]
                && lowercase(tags[i]) == tags[i] && !tags[i].contains(','),
    ensures
        tag_list(
            join(
                tags,
                if spaced {
                    ", "@
                } else {
                    ","@
                },
            ),
        ) == tags,
{
    let sep = if spaced {
        ", "@
    } else {
        ","@
    };
    lemma_list_splits(tags, spaced);
    assert(lowercases(tags) =~= tags);
    lemma_all_nonempty(tags);
}

proof fn lemma_list_splits(tags: Seq<Seq<char>>, spaced: bool)
    requires
        tags.len() > 0,
        forall|i: int|
            0 <= i < tags.len() ==> (#[trigger] tags[i]).len() > 0 && trim(tags[i]) == tags[i]
                && !tags[i].contains(','),
    ensures
        trims(
            split(
                join(
                    tags,
                    if spaced {
                        ", "@
                    } else {
                        ","@
                    },
                ),
                Class::Only(','),
            ),
        ) == tags,
    decreases tags.len(),
{
    reveal_strlit(", ");
    reveal_strlit(",");
    let sep = if spaced {
        ", "@
    } else {
        ","@
    };
    let k = Class::Only(',');
    let none = Seq::<char>::empty();
    let last = tags.last();
    assert(tags[tags.len() - 1] == last);
    if tags.len() == 1 {
        assert forall|i: int| 0 <= i < last.len() implies !k.holds(#[trigger] last[i]) by {
            assert(last.contains(last[i]));
        }
        lemma_split_extend(none, last, k);
        assert(none + last =~= last);
        assert(split(none, k).last() + last =~= last);
        assert(split(last, k) =~= seq![last]);
        assert(trims(split(join(tags, sep), k)) =~= tags);
    } else {
        let d = tags.drop_last();
        assert forall|i: int| 0 <= i < d.len() implies (#[trigger] d[i]).len() > 0 && trim(d[i])
            == d[i] && !d[i].contains(',') by {
            assert(d[i] == tags[i]);
        }
        lemma_list_splits(d, spaced);
        let j = join(d, sep);
        let gap = if spaced {
            seq![' ']
        } else {
            none
        };
        let piece = gap + last;
        assert(join(tags, sep) =~= j.push(',') + piece);
        lemma_split_push(j, ',', k);
        assert forall|i: int| 0 <= i < piece.len() implies !k.holds(#[trigger] piece[i]) by {
            if i >= gap.len() {
                assert(piece[i] == last[i - gap.len()]);
                assert(last.contains(last[i - gap.len()]));
            }
        }
        lemma_split_extend(j.push(','), piece, k);
        let p = split(j, k);
        assert(p.push(none).drop_last() =~= p);
        assert(none + piece =~= piece);
        assert(split(join(tags, sep), k) =~= p.push(piece));
        assert(trim(piece) == last) by {
            if spaced {
                assert(trim_start(piece, Class::Space) == trim_start(last, Class::Space)) by {
                    assert(piece.drop_first() =~= last);
                }
            } else {
                assert(piece =~= last);
            }
        }
        assert(trims(p.push(piece)) =~= trims(p).push(trim(piece)));
        assert(d.push(last) =~= tags);
    }
}

proof fn lemma_all_nonempty(p: Seq<Seq<char>>)
    requires
        forall|i: int| 0 <= i < p.len() ==> (#[trigger] p[i]).len() > 0,
    ensures
        nonempty(p) == p,
    decreases p.len(),
{
    if p.len() > 0 {
        let d = p.drop_last();
        assert forall|i: int| 0 <= i < d.len() implies (#[trigger] d[i]).len() > 0 by {
            assert(d[i] == p[i]);
        }
        lemma_all_nonempty(d);
        assert(p[p.len() - 1].len() > 0);
        assert(d.push(p.last()) =~= p);
    }
}

/// The tags of any list are trimmed before they are put in lower case, and none
/// is empty: nothing but what stands between two commas becomes a tag.
pub proof fn law_tags_come_from_the_list(s: Seq<char>, x: int)
    requires
        0 <= x < tag_list(s).len(),
    ensures
        tag_list(s)[x].len() > 0,
        exists|i: int|
            0 <= i < split(s, Class::Only(',')).len() && tag_list(s)[x] == lowercase(
                trim(#[trigger] split(s, Class::Only(','))[i]),
            ),
{
    let p = split(s, Class::Only(','));
    let all = lowercases(trims(p));
    let i = lemma_nonempty_from(all, x);
    assert(trims(p)[i] == trim(p[i]));
    assert(all[i] == lowercase(trim(p[i])));
}

proof fn lemma_nonempty_from(p: Seq<Seq<char>>, x: int) -> (i: int)
    requires
        0 <= x < nonempty(p).len(),
    ensures
        0 <= i < p.len(),
        nonempty(p)[x] == p[i],
        p[i].len() > 0,
    decreases p.len(),
{
    let d = p.drop_last();
    if x < nonempty(d).len() {
        let i = lemma_nonempty_from(d, x);
        assert(d[i] == p[i]);
        i
    } else {
        p.len() - 1
    }
}

/// The lower cases of a list of texts.
pub fn lower_all(v: &Vec<String>) -> (r: Vec<String>)
    ensures
        texts(r@) == lowercases(texts(v@)),
{
    let ghost all = texts(v@);
    let mut r: Vec<String> = Vec::new();
    let mut i: usize = 0;
    while i < v.len()
        invariant
            i <= v@.len(),
            all == texts(v@),
            texts(r@) == lowercases(all).take(i as int),
        decreases v@.len() - i,
    {
        let ghost before = r@;
        let l = lower(v[i].as_str());
        let ghost t = l@;
        r.push(l);
        assert(all[i as int] == v@[i as int]@);
        assert(texts(r@) =~= texts(before).push(t));
        assert(lowercases(all).take(i + 1) =~= lowercases(all).take(i as int).push(
            lowercase(all[i as int]),
        ));
        i = i + 1;
    }
    assert(lowercases(all).take(all.len() as int) =~= lowercases(all));
    r
}

/// The trimmed texts of a list.
pub fn trim_all(v: &Vec<String>) -> (r: Vec<String>)
    ensures
        texts(r@) == trims(texts(v@)),
{
    let ghost all = texts(v@);
    let mut r: Vec<String> = Vec::new();
    let mut i: usize = 0;
    while i < v.len()
        invariant
            i <= v@.len(),
            all == texts(v@),
            texts(r@) == trims(all).take(i as int),
        decreases v@.len() - i,
    {
        let ghost before = r@;
        let l = trimmed(v[i].as_str());
        let ghost t = l@;
        r.push(l);
        assert(all[i as int] == v@[i as int]@);
        assert(texts(r@) =~= texts(before).push(t));
        assert(trims(all).take(i + 1) =~= trims(all).take(i as int).push(trim(all[i as int])));
        i = i + 1;
    }
    assert(trims(all).take(all.len() as int) =~= trims(all));
    r
}

/// The tags of a comma-separated list.
pub fn tags_of(s: &str) -> (r: Vec<String>)
    ensures
        texts(r@) == tag_list(s@),
{
    kept_nonempty(lower_all(&trim_all(&pieces(s, Class::Only(',')))))
}

} // verus!
