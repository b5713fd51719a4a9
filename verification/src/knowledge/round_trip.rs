//! What is written to a knowledge file is what is read from it.

use vstd::prelude::*;

use crate::knowledge::dedup::{feature_line, file_text};
use crate::knowledge::entry::{
    field_tags, field_value, fields_of, parsed_entry, with_line, EntryView, Fields,
};
use crate::text::case::{lowercase, lowercases, trims};
use crate::text::search::{contains, find_from, lemma_find_least, occurs_at, starts_with};
use crate::text::shape::{
    after_prefix, join, lemma_split_extend, lemma_split_push, lemma_trim_end_len, lemma_trim_id,
    lines, nonempty, split, strip_cr, strip_crs, trim, trim_end, trim_start, Class,
};

verus! {

/// The text stands on one line.
pub open spec fn one_line(s: Seq<char>) -> bool {
    forall|i: int| 0 <= i < s.len() ==> #[trigger] s[i] != '\n'
}

/// The text can be told from the quotes around it.
pub open spec fn unquoted(s: Seq<char>) -> bool {
    s.len() > 0 ==> s[0] != '"' && s.last() != '"'
}

/// The text can be one of a list of tags.
pub open spec fn is_tag(s: Seq<char>) -> bool {
    &&& s.len() > 0
    &&& one_line(s)
    &&& trim(s) == s
    &&& lowercase(s) == s
    &&& forall|i: int| 0 <= i < s.len() ==> #[trigger] s[i] != ','
}

/// The tags can be told from the brackets around them.
pub open spec fn unbracketed(tags: Seq<Seq<char>>) -> bool {
    tags.len() > 0 && tags[0].len() > 0 && tags[0][0] != '[' && tags.last().len() > 0
        && tags.last().last() != ']'
}

/// What the list of these tags in a file is read as.
pub open spec fn tags_read(tags: Seq<Seq<char>>) -> Seq<Seq<char>> {
    field_tags(" ["@ + join(tags, ", "@) + "]"@)
}

/// What stands between the two `---` of a file.
pub open spec fn front_text(
    title: Seq<char>,
    tags: Seq<Seq<char>>,
    feature: Option<Seq<char>>,
    now: Seq<char>,
) -> Seq<char> {
    "\ntitle: \""@ + title + "\"\ntags: ["@ + join(tags, ", "@) + "]\n"@ + feature_line(feature)
        + "created_at: \""@ + now + "\"\n"@
}

pub proof fn lemma_trim_end_behind(a: Seq<char>, b: Seq<char>, k: Class)
    requires
        a.len() > 0,
        !k.holds(a.last()),
    ensures
        trim_end(a + b, k) == a + trim_end(b, k),
    decreases b.len(),
{
    if b.len() == 0 {
        assert(a + b =~= a);
        assert(a + trim_end(b, k) =~= a);
    } else if k.holds(b.last()) {
        assert((a + b).drop_last() =~= a + b.drop_last());
        lemma_trim_end_behind(a, b.drop_last(), k);
    }
}

proof fn lemma_trim_start_before(a: Seq<char>, b: Seq<char>, k: Class)
    requires
        a.len() > 0,
        !k.holds(a[0]),
    ensures
        trim_start(a + b, k) == a + b,
{
}

/// White space in front, and behind, is trimmed away.
pub proof fn lemma_trim_drops(a: Seq<char>, s: Seq<char>, k: Class)
    requires
        forall|i: int| 0 <= i < a.len() ==> k.holds(#[trigger] a[i]),
    ensures
        trim_start(a + s, k) == trim_start(s, k),
        trim_end(s + a, k) == trim_end(s, k),
    decreases a.len(),
{
    if a.len() == 0 {
        assert(a + s =~= s);
        assert(s + a =~= s);
    } else {
        assert((a + s).drop_first() =~= a.drop_first() + s);
        assert forall|i: int| 0 <= i < a.drop_first().len() implies k.holds(
            #[trigger] a.drop_first()[i],
        ) by {
            assert(a.drop_first()[i] == a[i + 1]);
        }
        lemma_trim_drops(a.drop_first(), s, k);
        assert((s + a).drop_last() =~= s + a.drop_last());
        assert forall|i: int| 0 <= i < a.drop_last().len() implies k.holds(
            #[trigger] a.drop_last()[i],
        ) by {
            assert(a.drop_last()[i] == a[i]);
        }
        lemma_trim_drops(a.drop_last(), s, k);
        assert(k.holds(a[0]) && k.holds(a[a.len() - 1]));
    }
}

proof fn lemma_trim_end_head(c: char, b: Seq<char>, k: Class)
    ensures
        trim_end(b, k).len() > 0 ==> trim_end(seq![c] + b, k) == seq![c] + trim_end(b, k),
        trim_end(b, k).len() == 0 && k.holds(c) ==> trim_end(seq![c] + b, k).len() == 0,
    decreases b.len(),
{
    let x = seq![c] + b;
    if b.len() == 0 {
        assert(x =~= seq![c]);
        assert(x.drop_last() =~= Seq::<char>::empty());
        assert(trim_end(x.drop_last(), k).len() == 0);
    } else if k.holds(b.last()) {
        assert(x.drop_last() =~= seq![c] + b.drop_last());
        lemma_trim_end_head(c, b.drop_last(), k);
    }
}

/// It does not matter which end is trimmed first.
proof fn lemma_trim_commutes(s: Seq<char>, k: Class)
    ensures
        trim_end(trim_start(s, k), k) == trim_start(trim_end(s, k), k),
    decreases s.len(),
{
    if s.len() > 0 && k.holds(s[0]) {
        let d = s.drop_first();
        assert(s =~= seq![s[0]] + d);
        lemma_trim_commutes(d, k);
        lemma_trim_end_head(s[0], d, k);
        if trim_end(d, k).len() > 0 {
            let t = seq![s[0]] + trim_end(d, k);
            assert(t.drop_first() =~= trim_end(d, k));
        } else {
            assert(trim_end(s, k) =~= trim_end(d, k));
        }
    } else if s.len() > 0 {
        lemma_trim_end_len(s, k);
        lemma_keeps_head(s, k);
    }
}

pub proof fn lemma_keeps_head(s: Seq<char>, k: Class)
    requires
        s.len() > 0,
        !k.holds(s[0]),
    ensures
        trim_end(s, k).len() > 0,
        trim_end(s, k)[0] == s[0],
    decreases s.len(),
{
    if k.holds(s.last()) {
        lemma_keeps_head(s.drop_last(), k);
    }
}

proof fn lemma_trim_end_twice(s: Seq<char>, k: Class)
    ensures
        trim_end(trim_end(s, k), k) == trim_end(s, k),
{
    lemma_trim_end_len(s, k);
}

/// The body of a file, between blank lines, is the trimmed body.
proof fn lemma_body(body: Seq<char>)
    ensures
        trim(trim_end("\n\n"@ + body + "\n"@, Class::Space)) == trim(body),
{
    reveal_strlit("\n\n");
    reveal_strlit("\n");
    let k = Class::Space;
    let y = "\n\n"@ + body + "\n"@;
    let b = "\n\n"@ + body;
    lemma_trim_end_twice(y, k);
    lemma_trim_commutes(trim_end(y, k), k);
    lemma_trim_drops("\n"@, b, k);
    lemma_trim_commutes(b, k);
    lemma_trim_drops("\n\n"@, body, k);
}

/// The search for the end of the front finds it, where the front itself holds
/// no `---`.
proof fn lemma_front_found(mid: Seq<char>, rest: Seq<char>)
    requires
        mid.len() > 0,
        mid.last() == '\n',
        !contains(mid, "---"@),
    ensures
        find_from("---"@ + mid + "---"@ + rest, "---"@, 3) == Some(3 + mid.len() as int),
{
    let s = "---"@ + mid + "---"@ + rest;
    let end = 3 + mid.len() as int;
    assert("---"@.len() == 3 && "---"@[0] == '-' && "---"@[1] == '-' && "---"@[2] == '-') by {
        reveal_strlit("---");
    }
    assert(s[end] == '-' && s[end + 1] == '-' && s[end + 2] == '-');
    lemma_dashes(s, end);
    lemma_find_least(s, "---"@, 3);
    let i = find_from(s, "---"@, 3)->0;
    assert(3 <= i <= end);
    lemma_dashes(s, i);
    if i < end {
        assert(s[end - 1] == mid[mid.len() - 1]);
        assert(i + 3 < end);
        assert(s[i] == mid[i - 3] && s[i + 1] == mid[i - 2] && s[i + 2] == mid[i - 1]);
        lemma_dashes(mid, i - 3);
        assert(occurs_at(mid, "---"@, i - 3));
    }
}

/// Where three hyphens stand.
pub proof fn lemma_dashes(s: Seq<char>, i: int)
    ensures
        occurs_at(s, "---"@, i) <==> 0 <= i && i + 3 <= s.len() && s[i] == '-' && s[i + 1] == '-'
            && s[i + 2] == '-',
{
    reveal_strlit("---");
    let pat = "---"@;
    if 0 <= i && i + 3 <= s.len() {
        let t = s.subrange(i, i + 3);
        assert(t[0] == s[i] && t[1] == s[i + 1] && t[2] == s[i + 2]);
        if t =~= pat {
            assert(t[0] == pat[0] && t[1] == pat[1] && t[2] == pat[2]);
        }
    }
}

/// One line more.
proof fn lemma_split_line(s: Seq<char>, line: Seq<char>)
    requires
        one_line(line),
        split(s, Class::Only('\n')).last().len() == 0,
    ensures
        split(s + line + "\n"@, Class::Only('\n')) == split(s, Class::Only('\n')).drop_last().push(
            line,
        ).push(Seq::<char>::empty()),
{
    reveal_strlit("\n");
    let k = Class::Only('\n');
    lemma_split_extend(s, line, k);
    assert(split(s, k).last() + line =~= line);
    assert(s + line + "\n"@ =~= (s + line).push('\n'));
    lemma_split_push(s + line, '\n', k);
}

/// The value of a quoted field is what stands between the quotes.
proof fn lemma_quoted(v: Seq<char>)
    requires
        unquoted(v),
    ensures
        field_value(" \""@ + v + "\""@) == v,
{
    reveal_strlit(" \"");
    reveal_strlit("\"");
    let q = "\""@ + v + "\""@;
    let space = seq![' '];
    assert(" \""@ + v + "\""@ =~= space + q);
    lemma_trim_drops(space, q, Class::Space);
    assert(q[0] == '"' && q.last() == '"');
    assert(trim(space + q) == q);
    let k = Class::Only('"');
    let one = "\""@;
    assert(q =~= one + (v + one));
    lemma_trim_drops(one, v + one, k);
    if v.len() == 0 {
        assert(v + one =~= one);
        assert(one =~= one + v);
        lemma_trim_drops(one, v, k);
        assert(trim_start(v, k) =~= v);
        assert(trim_end(v, k) =~= v);
    } else {
        lemma_trim_start_before(v, one, k);
        lemma_trim_drops(one, v, k);
        assert(trim_end(v, k) =~= v);
    }
}

proof fn lemma_no_prefix(line: Seq<char>, pat: Seq<char>, i: int)
    requires
        0 <= i < pat.len(),
        i < line.len(),
        line[i] != pat[i],
    ensures
        after_prefix(line, pat) is None,
{
    if starts_with(line, pat) {
        assert(line.subrange(0, pat.len() as int)[i] == line[i]);
    }
}

proof fn lemma_prefix(pat: Seq<char>, rest: Seq<char>)
    ensures
        after_prefix(pat + rest, pat) == Some(rest),
{
    assert((pat + rest).subrange(0, pat.len() as int) =~= pat);
    assert((pat + rest).subrange(pat.len() as int, (pat + rest).len() as int) =~= rest);
}

proof fn lemma_title_line(f: Fields, v: Seq<char>)
    requires
        unquoted(v),
    ensures
        with_line(f, "title: \""@ + v + "\""@) == (Fields { title: Some(v), ..f }),
{
    reveal_strlit("title: \"");
    reveal_strlit("title:");
    reveal_strlit(" \"");
    reveal_strlit("\"");
    let line = "title: \""@ + v + "\""@;
    lemma_trim_id(line, Class::Space);
    assert(line =~= "title:"@ + (" \""@ + v + "\""@));
    lemma_prefix("title:"@, " \""@ + v + "\""@);
    lemma_quoted(v);
}

proof fn lemma_feature_line(f: Fields, v: Seq<char>)
    requires
        unquoted(v),
    ensures
        with_line(f, "feature: \""@ + v + "\""@) == (Fields { feature: Some(v), ..f }),
{
    reveal_strlit("title:");
    reveal_strlit("tags:");
    reveal_strlit("feature: \"");
    reveal_strlit("feature:");
    reveal_strlit(" \"");
    reveal_strlit("\"");
    let line = "feature: \""@ + v + "\""@;
    lemma_trim_id(line, Class::Space);
    assert(line[0] == 'f');
    lemma_no_prefix(line, "title:"@, 0);
    lemma_no_prefix(line, "tags:"@, 0);
    assert(line =~= "feature:"@ + (" \""@ + v + "\""@));
    lemma_prefix("feature:"@, " \""@ + v + "\""@);
    lemma_quoted(v);
}

proof fn lemma_created_line(f: Fields, v: Seq<char>)
    requires
        unquoted(v),
    ensures
        with_line(f, "created_at: \""@ + v + "\""@) == (Fields { created_at: Some(v), ..f }),
{
    reveal_strlit("title:");
    reveal_strlit("tags:");
    reveal_strlit("feature:");
    reveal_strlit("created_at: \"");
    reveal_strlit("created_at:");
    reveal_strlit(" \"");
    reveal_strlit("\"");
    let line = "created_at: \""@ + v + "\""@;
    lemma_trim_id(line, Class::Space);
    assert(line[0] == 'c');
    lemma_no_prefix(line, "title:"@, 0);
    lemma_no_prefix(line, "tags:"@, 0);
    lemma_no_prefix(line, "feature:"@, 0);
    assert(line =~= "created_at:"@ + (" \""@ + v + "\""@));
    lemma_prefix("created_at:"@, " \""@ + v + "\""@);
    lemma_quoted(v);
}

/// A list of tags, joined, splits into the tags again.
proof fn lemma_tags_split(tags: Seq<Seq<char>>)
    requires
        tags.len() > 0,
        forall|i: int| 0 <= i < tags.len() ==> is_tag(#[trigger] tags[i]),
    ensures
        trims(split(join(tags, ", "@), Class::Only(','))) == tags,
    decreases tags.len(),
{
    reveal_strlit(", ");
    let k = Class::Only(',');
    let none = Seq::<char>::empty();
    if tags.len() == 1 {
        assert(is_tag(tags[0]));
        lemma_split_extend(none, tags[0], k);
        assert(none + tags[0] =~= tags[0]);
        assert(split(none, k).last() + tags[0] =~= tags[0]);
        assert(split(tags[0], k) =~= seq![tags[0]]);
        assert(trims(split(join(tags, ", "@), k)) =~= tags);
    } else {
        let d = tags.drop_last();
        assert forall|i: int| 0 <= i < d.len() implies is_tag(#[trigger] d[i]) by {
            assert(d[i] == tags[i]);
        }
        lemma_tags_split(d);
        let j = join(d, ", "@);
        let last = tags.last();
        assert(is_tag(tags[tags.len() - 1]));
        let piece = seq![' '] + last;
        assert(join(tags, ", "@) =~= j.push(',') + piece);
        lemma_split_push(j, ',', k);
        assert forall|i: int| 0 <= i < piece.len() implies !k.holds(#[trigger] piece[i]) by {
            if i > 0 {
                assert(piece[i] == last[i - 1]);
            }
        }
        lemma_split_extend(j.push(','), piece, k);
        let p = split(j, k);
        assert(p.push(none).drop_last() =~= p);
        assert(none + piece =~= piece);
        assert(split(join(tags, ", "@), k) =~= p.push(piece));
        lemma_trim_drops(seq![' '], last, Class::Space);
        assert(trim(piece) == last);
        assert(trims(p.push(piece)) =~= trims(p).push(trim(piece)));
        assert(trims(p.push(piece)) =~= tags);
    }
}

proof fn lemma_join_ends(tags: Seq<Seq<char>>)
    requires
        unbracketed(tags),
    ensures
        join(tags, ", "@).len() > 0,
        join(tags, ", "@)[0] == tags[0][0],
        join(tags, ", "@).last() == tags.last().last(),
    decreases tags.len(),
{
    if tags.len() > 1 {
        lemma_join_head(tags);
    }
}

proof fn lemma_join_head(tags: Seq<Seq<char>>)
    requires
        tags.len() > 0,
        tags[0].len() > 0,
    ensures
        join(tags, ", "@).len() > 0,
        join(tags, ", "@)[0] == tags[0][0],
    decreases tags.len(),
{
    if tags.len() > 1 {
        assert(tags.drop_last()[0] == tags[0]);
        lemma_join_head(tags.drop_last());
    }
}

proof fn lemma_all_nonempty(p: Seq<Seq<char>>)
    requires
        forall|i: int| 0 <= i < p.len() ==> (#[trigger] p[i]).len() > 0,
    ensures
        nonempty(p) == p,
    decreases p.len(),
{
    if p.len() > 0 {
        let d = p.drop_last();
        assert forall|i: int| 0 <= i < d.len() implies (#[trigger] d[i]).len() > 0 by {
            assert(d[i] == p[i]);
        }
        lemma_all_nonempty(d);
        assert(p[p.len() - 1].len() > 0);
        assert(d.push(p.last()) =~= p);
    }
}

/// What is left of a list of tags once the brackets around it are taken away.
pub proof fn lemma_tags_inner(tags: Seq<Seq<char>>)
    ensures
        tags_read(tags) == nonempty(
            lowercases(
                trims(
                    split(
                        trim_end(
                            trim_start(join(tags, ", "@) + "]"@, Class::Only('[')),
                            Class::Only(']'),
                        ),
                        Class::Only(','),
                    ),
                ),
            ),
        ),
{
    reveal_strlit(" [");
    reveal_strlit("]");
    let j = join(tags, ", "@);
    let list = seq!['['] + j + "]"@;
    assert(" ["@ + j + "]"@ =~= seq![' '] + list);
    lemma_trim_drops(seq![' '], list, Class::Space);
    assert(list[0] == '[' && list.last() == ']');
    assert(trim(seq![' '] + list) == list);
    assert(list =~= seq!['['] + (j + "]"@));
    lemma_trim_drops(seq!['['], j + "]"@, Class::Only('['));
}

/// Tags that can be told from the brackets around them are read as they are.
pub proof fn lemma_tags_read(tags: Seq<Seq<char>>)
    requires
        unbracketed(tags),
        forall|i: int| 0 <= i < tags.len() ==> is_tag(#[trigger] tags[i]),
    ensures
        tags_read(tags) == tags,
{
    reveal_strlit("]");
    let j = join(tags, ", "@);
    lemma_tags_inner(tags);
    lemma_join_ends(tags);
    lemma_trim_start_before(j, "]"@, Class::Only('['));
    lemma_trim_drops("]"@, j, Class::Only(']'));
    assert(trim_end(j, Class::Only(']')) == j);
    lemma_tags_split(tags);
    assert(lowercases(tags) =~= tags) by {
        assert forall|i: int| 0 <= i < tags.len() implies lowercases(tags)[i] == tags[i] by {
            assert(is_tag(tags[i]));
        }
    }
    assert forall|i: int| 0 <= i < tags.len() implies (#[trigger] tags[i]).len() > 0 by {
        assert(is_tag(tags[i]));
    }
    lemma_all_nonempty(tags);
}

proof fn lemma_tags_line(f: Fields, tags: Seq<Seq<char>>)
    ensures
        with_line(f, "tags: ["@ + join(tags, ", "@) + "]"@) == (Fields {
            tags: tags_read(tags),
            ..f
        }),
{
    reveal_strlit("title:");
    reveal_strlit("tags: [");
    reveal_strlit("tags:");
    reveal_strlit(" [");
    reveal_strlit("]");
    let j = join(tags, ", "@);
    let line = "tags: ["@ + j + "]"@;
    lemma_trim_id(line, Class::Space);
    assert(line[1] == 'a');
    lemma_no_prefix(line, "title:"@, 1);
    let v = " ["@ + j + "]"@;
    assert(line =~= "tags:"@ + v);
    lemma_prefix("tags:"@, v);
}

proof fn lemma_join_one_line(tags: Seq<Seq<char>>)
    requires
        forall|i: int| 0 <= i < tags.len() ==> one_line(#[trigger] tags[i]),
    ensures
        one_line(join(tags, ", "@)),
    decreases tags.len(),
{
    reveal_strlit(", ");
    if tags.len() == 1 {
        assert(one_line(tags[0]));
    } else if tags.len() > 1 {
        let d = tags.drop_last();
        assert forall|i: int| 0 <= i < d.len() implies one_line(#[trigger] d[i]) by {
            assert(d[i] == tags[i]);
        }
        lemma_join_one_line(d);
        assert(one_line(tags[tags.len() - 1]));
    }
}

/// The lines that stand between the two `---` of a file.
spec fn front_lines(
    title: Seq<char>,
    tags: Seq<Seq<char>>,
    feature: Option<Seq<char>>,
    now: Seq<char>,
) -> Seq<Seq<char>> {
    let head = seq![
        Seq::<char>::empty(),
        "title: \""@ + title + "\""@,
        "tags: ["@ + join(tags, ", "@) + "]"@,
    ];
    let more = match feature {
        Some(f) => head.push("feature: \""@ + f + "\""@),
        None => head,
    };
    more.push("created_at: \""@ + now + "\""@)
}

proof fn lemma_front_lines(
    title: Seq<char>,
    tags: Seq<Seq<char>>,
    feature: Option<Seq<char>>,
    now: Seq<char>,
)
    requires
        one_line(title),
        forall|i: int| 0 <= i < tags.len() ==> one_line(#[trigger] tags[i]),
        feature is Some ==> one_line(feature->0),
        one_line(now),
    ensures
        lines(front_text(title, tags, feature, now)) == front_lines(title, tags, feature, now),
{
    reveal_strlit("\n");
    reveal_strlit("\ntitle: \"");
    reveal_strlit("title: \"");
    reveal_strlit("\"\ntags: [");
    reveal_strlit("tags: [");
    reveal_strlit("]\n");
    reveal_strlit("]");
    reveal_strlit("feature: \"");
    reveal_strlit("\"\n");
    reveal_strlit("\"");
    reveal_strlit("created_at: \"");
    let k = Class::Only('\n');
    let none = Seq::<char>::empty();
    let j = join(tags, ", "@);
    lemma_join_one_line(tags);
    let l1 = "title: \""@ + title + "\""@;
    let l2 = "tags: ["@ + j + "]"@;
    let l4 = "created_at: \""@ + now + "\""@;
    let s0 = none + none + "\n"@;
    lemma_split_line(none, none);
    assert(split(none, k).drop_last().push(none).push(none) =~= seq![none, none]);
    let s1 = s0 + l1 + "\n"@;
    lemma_split_line(s0, l1);
    assert(split(s0, k).drop_last() =~= seq![none]);
    let s2 = s1 + l2 + "\n"@;
    lemma_split_line(s1, l2);
    assert(split(s1, k).drop_last() =~= seq![none, l1]);
    let (s3, p3) = match feature {
        Some(f) => {
            let l3 = "feature: \""@ + f + "\""@;
            lemma_split_line(s2, l3);
            assert(split(s2, k).drop_last() =~= seq![none, l1, l2]);
            (s2 + l3 + "\n"@, seq![none, l1, l2, l3])
        },
        None => (s2, seq![none, l1, l2]),
    };
    assert(split(s3, k).drop_last() =~= p3);
    let s4 = s3 + l4 + "\n"@;
    lemma_split_line(s3, l4);
    assert(split(s4, k).drop_last() =~= p3.push(l4));
    assert(s4 =~= front_text(title, tags, feature, now));
    assert(strip_crs(p3.push(l4)) =~= p3.push(l4)) by {
        assert forall|i: int| 0 <= i < p3.push(l4).len() implies strip_crs(p3.push(l4))[i]
            == p3.push(l4)[i] by {
            let l = p3.push(l4)[i];
            assert(strip_cr(l) == l);
        }
    }
    assert(p3.push(l4) =~= front_lines(title, tags, feature, now));
}

proof fn lemma_blank_line(f: Fields)
    ensures
        with_line(f, Seq::<char>::empty()) == f,
{
    reveal_strlit("title:");
    reveal_strlit("tags:");
    reveal_strlit("feature:");
    reveal_strlit("created_at:");
    let none = Seq::<char>::empty();
    assert(trim(none) =~= none);
}

proof fn lemma_fields(
    title: Seq<char>,
    tags: Seq<Seq<char>>,
    feature: Option<Seq<char>>,
    now: Seq<char>,
)
    requires
        unquoted(title),
        feature is Some ==> unquoted(feature->0),
        unquoted(now),
    ensures
        fields_of(front_lines(title, tags, feature, now)) == (Fields {
            title: Some(title),
            tags: tags_read(tags),
            feature,
            created_at: Some(now),
        }),
{
    let none = Seq::<char>::empty();
    let l1 = "title: \""@ + title + "\""@;
    let l2 = "tags: ["@ + join(tags, ", "@) + "]"@;
    let l4 = "created_at: \""@ + now + "\""@;
    let f0 = Fields { title: None, tags: Seq::empty(), feature: None, created_at: None };
    let p0 = Seq::<Seq<char>>::empty();
    let p1 = p0.push(none);
    let p2 = p1.push(l1);
    let p3 = p2.push(l2);
    assert(fields_of(p0) == f0);
    assert(p1.drop_last() =~= p0);
    lemma_blank_line(f0);
    assert(fields_of(p1) == f0);
    assert(p2.drop_last() =~= p1);
    lemma_title_line(f0, title);
    let f2 = Fields { title: Some(title), ..f0 };
    assert(fields_of(p2) == f2);
    assert(p3.drop_last() =~= p2);
    lemma_tags_line(f2, tags);
    let f3 = Fields { tags: tags_read(tags), ..f2 };
    assert(fields_of(p3) == f3);
    let (p4, f4) = match feature {
        Some(f) => {
            let l3 = "feature: \""@ + f + "\""@;
            assert(p3.push(l3).drop_last() =~= p3);
            lemma_feature_line(f3, f);
            (p3.push(l3), Fields { feature: Some(f), ..f3 })
        },
        None => (p3, f3),
    };
    assert(fields_of(p4) == f4);
    assert(p4.push(l4).drop_last() =~= p4);
    lemma_created_line(f4, now);
    assert(p4.push(l4) =~= front_lines(title, tags, feature, now));
}

/// What is read from the file of an entry: title, feature and time as they were
/// given, the body trimmed, and the tags as their list is read. A file whose
/// list is read as no tags holds no entry.
///
/// Title, feature and time stand on one line each, without a quote at either
/// end; each tag stands on one line; and the text between the two `---` holds no
/// third.
#[verifier::rlimit(60)]
pub proof fn law_file_reads_back(
    title: Seq<char>,
    tags: Seq<Seq<char>>,
    feature: Option<Seq<char>>,
    now: Seq<char>,
    body: Seq<char>,
)
    requires
        one_line(title) && unquoted(title),
        forall|i: int| 0 <= i < tags.len() ==> one_line(#[trigger] tags[i]),
        feature is Some ==> one_line(feature->0) && unquoted(feature->0),
        one_line(now) && unquoted(now),
        !contains(front_text(title, tags, feature, now), "---"@),
    ensures
        parsed_entry(file_text(title, tags, feature, now, body)) == (if tags_read(tags).len() == 0 {
            None
        } else {
            Some(
                EntryView {
                    title,
                    tags: tags_read(tags),
                    feature,
                    body: trim(body),
                    created_at: now,
                    file_path: Seq::empty(),
                },
            )
        }),
{
    reveal_strlit("---");
    reveal_strlit("---\ntitle: \"");
    reveal_strlit("\ntitle: \"");
    reveal_strlit("\"\n---\n\n");
    reveal_strlit("\"\n");
    reveal_strlit("\n\n");
    reveal_strlit("\n");
    let k = Class::Space;
    let mid = front_text(title, tags, feature, now);
    let front = "---"@ + mid + "---"@;
    let tail = "\n\n"@ + body + "\n"@;
    let content = file_text(title, tags, feature, now, body);
    assert(content =~= front + tail);
    assert(mid.last() == '\n');
    lemma_trim_start_before(front, tail, k);
    assert(front.last() == '-');
    lemma_trim_end_behind(front, tail, k);
    let rest = trim_end(tail, k);
    let s = trim(content);
    assert(s == front + rest);
    assert(s.subrange(0, 3) =~= "---"@);
    assert(front + rest =~= "---"@ + mid + "---"@ + rest);
    lemma_front_found(mid, rest);
    let end = 3 + mid.len() as int;
    assert(s.subrange(3, end) =~= mid);
    assert(s.subrange(end + 3, s.len() as int) =~= rest);
    lemma_body(body);
    lemma_front_lines(title, tags, feature, now);
    lemma_fields(title, tags, feature, now);
}

/// What is read from the file of an entry is the entry, with its body trimmed.
///
/// Title, feature and time stand on one line each, without a quote at either
/// end; the tags are tags, without a bracket at either end of the list; and the
/// text between the two `---` holds no third.
pub proof fn law_entry_reads_back(
    title: Seq<char>,
    tags: Seq<Seq<char>>,
    feature: Option<Seq<char>>,
    now: Seq<char>,
    body: Seq<char>,
)
    requires
        one_line(title) && unquoted(title),
        unbracketed(tags),
        forall|i: int| 0 <= i < tags.len() ==> is_tag(#[trigger] tags[i]),
        feature is Some ==> one_line(feature->0) && unquoted(feature->0),
        one_line(now) && unquoted(now),
        !contains(front_text(title, tags, feature, now), "---"@),
    ensures
        parsed_entry(file_text(title, tags, feature, now, body)) == Some(
            EntryView {
                title,
                tags,
                feature,
                body: trim(body),
                created_at: now,
                file_path: Seq::empty(),
            },
        ),
{
    assert forall|i: int| 0 <= i < tags.len() implies one_line(#[trigger] tags[i]) by {
        assert(is_tag(tags[i]));
    }
    lemma_tags_read(tags);
    law_file_reads_back(title, tags, feature, now, body);
}

} // verus!
