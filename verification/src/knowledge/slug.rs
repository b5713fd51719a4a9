//! Slugs: file names made from titles.

use vstd::prelude::*;

use crate::text::basic::{chars_of, slice_text};
use crate::text::case::{ascii_lower, ascii_lowercase, is_ascii_text, lower, lowercase};
use crate::text::shape::{
    lemma_trim_end_len, lemma_trim_ends, lemma_trim_id, lemma_trim_start_len, trim_both, trim_end,
    trim_start, trimmed_both, trimmed_end, Class,
};

verus! {

/// The character is alphabetic or numeric, by Unicode's rules.
pub uninterp spec fn alphanumeric(c: char) -> bool;

/// The character is one of `0` to `9`, `A` to `Z` or `a` to `z`.
pub open spec fn ascii_alphanumeric(c: char) -> bool {
    '0' <= c <= '9' || 'A' <= c <= 'Z' || 'a' <= c <= 'z'
}

/// `char::is_alphanumeric` says whether a character is alphabetic or numeric.
/// It depends on the character alone. Of the ASCII characters, the letters and
/// the digits are.
#[verifier::external_body]
fn is_alphanumeric(c: char) -> (r: bool)
    ensures
        r == alphanumeric(c),
        c as u32 <= 0x7f ==> r == ascii_alphanumeric(c),
{
    c.is_alphanumeric()
}

/// The characters, with a hyphen in the place of each that is not kept.
pub open spec fn hyphened(s: Seq<char>, keep: Seq<bool>) -> Seq<char> {
    Seq::new(
        s.len(),
        |i: int|
            if keep[i] {
                s[i]
            } else {
                '-'
            },
    )
}

/// The text with one hyphen in the place of each row of hyphens.
pub open spec fn collapsed(s: Seq<char>) -> Seq<char>
    decreases s.len(),
{
    if s.len() == 0 {
        s
    } else if s.last() == '-' && s.len() > 1 && s[s.len() - 2] == '-' {
        collapsed(s.drop_last())
    } else {
        collapsed(s.drop_last()).push(s.last())
    }
}

/// At most the first 80 characters, without hyphens at the end of what was cut.
pub open spec fn cut_slug(s: Seq<char>) -> Seq<char> {
    if s.len() > 80 {
        trim_end(s.take(80), Class::Only('-'))
    } else {
        s
    }
}

/// The slug of a text in lower case, of which `keep` says which characters stay.
pub open spec fn slug_from_kept(lowered: Seq<char>, keep: Seq<bool>) -> Seq<char> {
    cut_slug(trim_both(collapsed(hyphened(lowered, keep)), Class::Only('-')))
}

/// Which characters of a text are alphanumeric.
pub open spec fn kept(s: Seq<char>) -> Seq<bool> {
    s.map_values(|c: char| alphanumeric(c))
}

/// The slug of a title.
pub open spec fn slug(title: Seq<char>) -> Seq<char> {
    slug_from_kept(lowercase(title), kept(lowercase(title)))
}

/// The slug of an ASCII title.
pub open spec fn ascii_slug(title: Seq<char>) -> Seq<char> {
    let lowered = ascii_lowercase(title);
    slug_from_kept(lowered, lowered.map_values(|c: char| ascii_alphanumeric(c)))
}

/// No two hyphens stand side by side.
pub open spec fn single_hyphens(s: Seq<char>) -> bool {
    forall|i: int| 0 <= i < s.len() - 1 ==> !(#[trigger] s[i] == '-' && s[i + 1] == '-')
}

proof fn lemma_collapsed(s: Seq<char>)
    ensures
        single_hyphens(collapsed(s)),
        s.len() > 0 ==> collapsed(s).len() > 0 && collapsed(s).last() == s.last(),
        forall|i: int| 0 <= i < collapsed(s).len() ==> s.contains(#[trigger] collapsed(s)[i]),
    decreases s.len(),
{
    if s.len() > 0 {
        let rest = s.drop_last();
        lemma_collapsed(rest);
        let c = collapsed(s);
        assert forall|i: int| 0 <= i < c.len() implies s.contains(#[trigger] c[i]) by {
            if i < collapsed(rest).len() {
                assert(rest.contains(collapsed(rest)[i]));
                let k = choose|k: int| 0 <= k < rest.len() && rest[k] == collapsed(rest)[i];
                assert(s[k] == c[i]);
            } else {
                assert(s[s.len() - 1] == c[i]);
            }
        }
        assert forall|i: int| 0 <= i < c.len() - 1 implies !(#[trigger] c[i] == '-' && c[i + 1]
            == '-') by {
            if i < collapsed(rest).len() - 1 {
                assert(c[i] == collapsed(rest)[i]);
                assert(c[i + 1] == collapsed(rest)[i + 1]);
            } else {
                assert(collapsed(rest).last() == rest.last());
                assert(rest.last() == s[s.len() - 2]);
            }
        }
    }
}

/// A slug has at most 80 characters, none but kept characters and hyphens, no
/// two hyphens side by side, and no hyphen at either end.
pub proof fn law_slug_shape(lowered: Seq<char>, keep: Seq<bool>)
    requires
        keep.len() == lowered.len(),
    ensures
        ({
            let r = slug_from_kept(lowered, keep);
            &&& r.len() <= 80
            &&& single_hyphens(r)
            &&& r.len() > 0 ==> r[0] != '-' && r.last() != '-'
            &&& forall|i: int|
                0 <= i < r.len() ==> #[trigger] r[i] == '-' || exists|j: int|
                    0 <= j < lowered.len() && keep[j] && lowered[j] == r[i]
        }),
{
    let k = Class::Only('-');
    let h = hyphened(lowered, keep);
    let c = collapsed(h);
    lemma_collapsed(h);
    let ts = trim_start(c, k);
    lemma_trim_start_len(c, k);
    lemma_trim_end_len(ts, k);
    let t = trim_both(c, k);
    lemma_trim_ends(c, k);
    let a = c.len() - ts.len();
    assert(forall|i: int| 0 <= i < t.len() ==> t[i] == c[a + i]);
    let r = slug_from_kept(lowered, keep);
    if t.len() > 80 {
        lemma_trim_end_len(t.take(80), k);
    }
    assert(forall|i: int| 0 <= i < r.len() ==> r[i] == t[i]);
    assert forall|i: int| 0 <= i < r.len() implies #[trigger] r[i] == '-' || exists|j: int|
        0 <= j < lowered.len() && keep[j] && lowered[j] == r[i] by {
        assert(h.contains(c[a + i]));
        let j = choose|j: int| 0 <= j < h.len() && h[j] == c[a + i];
        if r[i] != '-' {
            assert(keep[j] && lowered[j] == r[i]);
        }
    }
    assert forall|i: int| 0 <= i < r.len() - 1 implies !(#[trigger] r[i] == '-' && r[i + 1]
        == '-') by {
        assert(r[i] == c[a + i]);
        assert(r[i + 1] == c[a + i + 1]);
    }
}

proof fn lemma_collapsed_id(s: Seq<char>)
    requires
        single_hyphens(s),
    ensures
        collapsed(s) == s,
    decreases s.len(),
{
    if s.len() > 0 {
        let rest = s.drop_last();
        assert forall|i: int| 0 <= i < rest.len() - 1 implies !(#[trigger] rest[i] == '-'
            && rest[i + 1] == '-') by {
            assert(rest[i] == s[i]);
        }
        lemma_collapsed_id(rest);
        if s.len() > 1 {
            assert(s[s.len() - 2] != '-' || s[s.len() - 2 + 1] != '-');
        }
        assert(rest.push(s.last()) =~= s);
    }
}

/// A slug is its own slug, where its characters other than hyphens are kept.
pub proof fn law_slug_is_its_own_slug(lowered: Seq<char>, keep: Seq<bool>, again: Seq<bool>)
    requires
        keep.len() == lowered.len(),
        again.len() == slug_from_kept(lowered, keep).len(),
        forall|i: int|
            0 <= i < again.len() && slug_from_kept(lowered, keep)[i] != '-' ==> #[trigger] again[i],
    ensures
        slug_from_kept(slug_from_kept(lowered, keep), again) == slug_from_kept(lowered, keep),
{
    let r = slug_from_kept(lowered, keep);
    law_slug_shape(lowered, keep);
    assert(hyphened(r, again) =~= r);
    lemma_collapsed_id(r);
    lemma_trim_id(r, Class::Only('-'));
}

proof fn lemma_collapsed_members(s: Seq<char>, i: int)
    requires
        0 <= i < s.len(),
    ensures
        collapsed(s).contains(s[i]),
    decreases s.len(),
{
    let rest = s.drop_last();
    lemma_collapsed(s);
    if i < rest.len() {
        lemma_collapsed_members(rest, i);
        let k = choose|k: int| 0 <= k < collapsed(rest).len() && collapsed(rest)[k] == rest[i];
        assert(collapsed(s)[k] == s[i]);
    } else {
        assert(collapsed(s)[collapsed(s).len() - 1] == s[i]);
    }
}

proof fn lemma_trim_start_keeps(s: Seq<char>, k: Class, i: int)
    requires
        0 <= i < s.len(),
        !k.holds(s[i]),
    ensures
        trim_start(s, k).len() > 0,
    decreases s.len(),
{
    if k.holds(s[0]) {
        assert(s.drop_first()[i - 1] == s[i]);
        lemma_trim_start_keeps(s.drop_first(), k, i - 1);
    }
}

proof fn lemma_trim_end_keeps(s: Seq<char>, k: Class)
    requires
        s.len() > 0,
        !k.holds(s[0]),
    ensures
        trim_end(s, k).len() > 0,
    decreases s.len(),
{
    if k.holds(s.last()) {
        assert(s.len() > 1);
        assert(s.drop_last()[0] == s[0]);
        lemma_trim_end_keeps(s.drop_last(), k);
    }
}

/// A slug is empty exactly where no character but hyphens is kept.
pub proof fn law_slug_is_empty(lowered: Seq<char>, keep: Seq<bool>)
    requires
        keep.len() == lowered.len(),
    ensures
        slug_from_kept(lowered, keep).len() == 0 <==> forall|i: int|
            0 <= i < lowered.len() && #[trigger] keep[i] ==> lowered[i] == '-',
{
    let k = Class::Only('-');
    let r = slug_from_kept(lowered, keep);
    let h = hyphened(lowered, keep);
    let c = collapsed(h);
    if r.len() > 0 {
        law_slug_shape(lowered, keep);
        assert(r[0] != '-');
    }
    if exists|i: int| 0 <= i < lowered.len() && #[trigger] keep[i] && lowered[i] != '-' {
        let i = choose|i: int| 0 <= i < lowered.len() && #[trigger] keep[i] && lowered[i] != '-';
        lemma_collapsed_members(h, i);
        let j = choose|j: int| 0 <= j < c.len() && c[j] == h[i];
        lemma_trim_start_keeps(c, k, j);
        let ts = trim_start(c, k);
        lemma_trim_start_len(c, k);
        lemma_trim_end_keeps(ts, k);
        lemma_trim_end_len(ts, k);
        let t = trim_both(c, k);
        assert(t[0] == ts[0]);
        if t.len() > 80 {
            assert(t.take(80)[0] == t[0]);
            lemma_trim_end_keeps(t.take(80), k);
        }
    }
}

/// The slug of an ASCII title has at most 80 characters, all of them digits,
/// small letters or hyphens; no two hyphens stand side by side, and none stands
/// at either end. It is its own slug, and it is empty exactly where the title
/// has no letter and no digit.
pub proof fn law_ascii_slug(title: Seq<char>)
    requires
        is_ascii_text(title),
    ensures
        ({
            let r = ascii_slug(title);
            &&& r.len() <= 80
            &&& single_hyphens(r)
            &&& r.len() > 0 ==> r[0] != '-' && r.last() != '-'
            &&& forall|i: int|
                0 <= i < r.len() ==> #[trigger] r[i] == '-' || '0' <= r[i] <= '9' || 'a' <= r[i]
                    <= 'z'
            &&& is_ascii_text(r)
            &&& ascii_slug(r) == r
            &&& r.len() == 0 <==> forall|i: int|
                0 <= i < title.len() ==> !ascii_alphanumeric(#[trigger] title[i])
        }),
{
    let lowered = ascii_lowercase(title);
    let keep = lowered.map_values(|c: char| ascii_alphanumeric(c));
    let r = ascii_slug(title);
    law_slug_shape(lowered, keep);
    law_slug_is_empty(lowered, keep);
    assert forall|i: int| 0 <= i < r.len() implies #[trigger] r[i] == '-' || '0' <= r[i] <= '9'
        || 'a' <= r[i] <= 'z' by {
        if r[i] != '-' {
            let j = choose|j: int| 0 <= j < lowered.len() && keep[j] && lowered[j] == r[i];
            assert(lowered[j] == ascii_lower(title[j]));
        }
    }
    assert(ascii_lowercase(r) =~= r);
    let again = r.map_values(|c: char| ascii_alphanumeric(c));
    law_slug_is_its_own_slug(lowered, keep, again);
    if r.len() == 0 {
        assert forall|i: int| 0 <= i < title.len() implies !ascii_alphanumeric(
            #[trigger] title[i],
        ) by {
            assert(lowered[i] == ascii_lower(title[i]));
            assert(keep[i] ==> lowered[i] == '-');
        }
    } else {
        assert(r[0] != '-');
        let j = choose|j: int| 0 <= j < lowered.len() && keep[j] && lowered[j] == r[0];
        assert(lowered[j] == ascii_lower(title[j]));
        assert(ascii_alphanumeric(title[j]));
    }
}

/// The slug of a text in lower case, of which `keep` says which characters
/// stay.
///
/// - Replaces the other characters with hyphens
/// - Collapses consecutive hyphens into one
/// - Trims leading and trailing hyphens
/// - Truncates to 80 characters (without trailing hyphens)
pub fn slug_from(lowered: &str, keep: &Vec<bool>) -> (r: String)
    requires
        keep@.len() == lowered@.len(),
    ensures
        r@ == slug_from_kept(lowered@, keep@),
{
    let cs = chars_of(lowered);
    let ghost h = hyphened(lowered@, keep@);
    let mut joined = String::new();
    let mut prev_hyphen = false;
    let mut i: usize = 0;
    assert(joined@ =~= collapsed(h.take(0)));
    while i < cs.len()
        invariant
            i <= cs@.len(),
            cs@ == lowered@,
            keep@.len() == lowered@.len(),
            h == hyphened(lowered@, keep@),
            joined@ == collapsed(h.take(i as int)),
            prev_hyphen == (i > 0 && h[i - 1] == '-'),
        decreases cs@.len() - i,
    {
        let c = if keep[i] {
            cs[i]
        } else {
            '-'
        };
        assert(h.take(i + 1).drop_last() =~= h.take(i as int));
        assert(c == h[i as int]);
        if c == '-' {
            if !prev_hyphen {
                joined.push(c);
            }
            prev_hyphen = true;
        } else {
            joined.push(c);
            prev_hyphen = false;
        }
        i = i + 1;
    }
    assert(h.take(h.len() as int) =~= h);
    let whole = trimmed_both(joined.as_str(), Class::Only('-'));
    let wcs = chars_of(whole.as_str());
    if wcs.len() > 80 {
        let head = slice_text(&wcs, 0, 80);
        assert(head@ =~= whole@.take(80));
        trimmed_end(head.as_str(), Class::Only('-'))
    } else {
        whole
    }
}

/// Converts a title string to a URL-safe slug.
///
/// - Lowercases all characters
/// - Replaces non-alphanumeric characters with hyphens
/// - Collapses consecutive hyphens into one
/// - Trims leading and trailing hyphens
/// - Truncates to 80 characters (without trailing hyphens)
pub fn slugify_title(title: &str) -> (r: String)
    ensures
        r@ == slug(title@),
        is_ascii_text(title@) ==> r@ == ascii_slug(title@),
{
    let lowered = lower(title);
    let cs = chars_of(lowered.as_str());
    let mut keep: Vec<bool> = Vec::new();
    let mut i: usize = 0;
    assert(keep@ =~= kept(lowered@).take(0));
    while i < cs.len()
        invariant
            i <= cs@.len(),
            cs@ == lowered@,
            keep@ == kept(lowered@).take(i as int),
            forall|j: int|
                0 <= j < i && cs@[j] as u32 <= 0x7f ==> #[trigger] keep@[j] == ascii_alphanumeric(
                    cs@[j],
                ),
        decreases cs@.len() - i,
    {
        keep.push(is_alphanumeric(cs[i]));
        assert(kept(lowered@).take(i + 1) =~= kept(lowered@).take(i as int).push(
            alphanumeric(cs@[i as int]),
        ));
        i = i + 1;
    }
    assert(kept(lowered@).take(lowered@.len() as int) =~= kept(lowered@));
    proof {
        if is_ascii_text(title@) {
            assert forall|j: int| 0 <= j < lowered@.len() implies lowered@[j] as u32 <= 0x7f by {
                assert(lowered@[j] == ascii_lower(title@[j]));
            }
            assert(keep@ =~= lowered@.map_values(|c: char| ascii_alphanumeric(c)));
        }
    }
    slug_from(lowered.as_str(), &keep)
}

} // verus!
