//! What splitting, trimming and joining do to texts put together from parts.

use vstd::prelude::*;

use crate::knowledge::round_trip::lemma_trim_drops;
use crate::text::path::{is_part, part_place, parts, parts_end, relative, same_path};
use crate::text::search::starts_with;
use crate::text::shape::{
    is_space, join, lemma_split_extend, lemma_split_nonempty, lemma_split_push, lines, nonempty,
    split, strip_cr, strip_crs, trim, trim_both, trim_end, trim_start, words, Class,
};

verus! {

/// White space: the ASCII blanks are, and no visible ASCII character is.
pub proof fn law_white_space(c: char)
    ensures
        is_space(' '),
        is_space('\t'),
        is_space('\n'),
        is_space('\r'),
        '!' <= c <= '~' ==> !is_space(c),
        c == '\u{a0}' || c == '\u{3000}' || c == '\u{2028}' ==> is_space(c),
{
}

/// A text is split at every character of the class and nowhere else: the pieces
/// of two texts with such a character between them are the pieces of each, and a
/// text without such a character is its own piece.
pub proof fn law_split(a: Seq<char>, c: char, b: Seq<char>, k: Class)
    ensures
        k.holds(c) ==> split(a.push(c) + b, k) == split(a, k) + split(b, k),
        (forall|i: int| 0 <= i < b.len() ==> !k.holds(#[trigger] b[i])) ==> split(b, k) == seq![b],
    decreases b.len(),
{
    let none = Seq::<char>::empty();
    if k.holds(c) {
        lemma_split_push(a, c, k);
        if b.len() == 0 {
            assert(a.push(c) + b =~= a.push(c));
            assert(b =~= none);
            assert(split(b, k) =~= seq![none]);
            assert(split(a, k).push(none) =~= split(a, k) + seq![none]);
        } else {
            let d = b.drop_last();
            law_split(a, c, d, k);
            let left = a.push(c) + d;
            assert((a.push(c) + b).drop_last() =~= left);
            assert((a.push(c) + b).last() == b.last());
            lemma_split_nonempty(d, k);
            let p = split(a, k);
            let q = split(d, k);
            if k.holds(b.last()) {
                assert((p + q).push(none) =~= p + q.push(none));
            } else {
                assert((p + q).drop_last().push((p + q).last().push(b.last())) =~= p
                    + q.drop_last().push(q.last().push(b.last())));
            }
        }
    }
    if forall|i: int| 0 <= i < b.len() ==> !k.holds(#[trigger] b[i]) {
        lemma_split_extend(none, b, k);
        assert(none + b =~= b);
        assert(split(none, k) =~= seq![none]);
        assert(split(b, k) =~= seq![b]);
    }
}

proof fn lemma_nonempty_concat(p: Seq<Seq<char>>, q: Seq<Seq<char>>)
    ensures
        nonempty(p + q) == nonempty(p) + nonempty(q),
    decreases q.len(),
{
    if q.len() == 0 {
        assert(p + q =~= p);
        assert(nonempty(p) + nonempty(q) =~= nonempty(p));
    } else {
        lemma_nonempty_concat(p, q.drop_last());
        assert((p + q).drop_last() =~= p + q.drop_last());
        assert(nonempty(p + q) =~= nonempty(p) + nonempty(q));
    }
}

/// The words of two texts with white space between them are the words of each; a
/// text without white space is its own word, and the empty text has none.
pub proof fn law_words(a: Seq<char>, c: char, b: Seq<char>)
    ensures
        is_space(c) ==> words(a.push(c) + b) == words(a) + words(b),
        b.len() > 0 && (forall|i: int| 0 <= i < b.len() ==> !is_space(#[trigger] b[i])) ==> words(b)
            == seq![b],
        b.len() == 0 ==> words(b).len() == 0,
{
    let k = Class::Space;
    law_split(a, c, b, k);
    if is_space(c) {
        lemma_nonempty_concat(split(a, k), split(b, k));
    }
    if forall|i: int| 0 <= i < b.len() ==> !is_space(#[trigger] b[i]) {
        assert forall|i: int| 0 <= i < b.len() implies !k.holds(#[trigger] b[i]) by {}
        let one = seq![b];
        assert(one.drop_last() =~= Seq::empty());
        assert(nonempty(one.drop_last()) =~= Seq::empty());
        assert(one.last() == b);
        if b.len() > 0 {
            assert(nonempty(one) =~= one);
        }
    }
}

/// A line ends at a line feed: it comes out without it, and without a carriage
/// return before it, and what follows is read by itself. What no line feed ends
/// is a line as it stands, unless it is empty.
pub proof fn law_lines(line: Seq<char>, rest: Seq<char>)
    requires
        !line.contains('\n'),
    ensures
        lines(line.push('\n') + rest) == seq![
            if line.len() > 0 && line.last() == '\r' {
                line.drop_last()
            } else {
                line
            },
        ] + lines(rest),
        line.len() > 0 ==> lines(line) == seq![line],
        lines(Seq::<char>::empty()).len() == 0,
{
    let k = Class::Only('\n');
    assert forall|i: int| 0 <= i < line.len() implies !k.holds(#[trigger] line[i]) by {
        assert(line.contains(line[i]));
    }
    law_split(line, '\n', rest, k);
    law_split(line, '\n', line, k);
    lemma_split_nonempty(rest, k);
    let one = seq![line];
    let q = split(rest, k);
    let p = one + q;
    assert(p.last() == q.last());
    assert(p.drop_last() =~= one + q.drop_last());
    assert(strip_crs(one + q.drop_last()) =~= seq![strip_cr(line)] + strip_crs(q.drop_last()));
    assert(lines(line.push('\n') + rest) =~= seq![strip_cr(line)] + lines(rest));
    assert(one.drop_last() =~= Seq::empty());
    assert(strip_crs(one.drop_last()) =~= Seq::empty());
    if line.len() > 0 {
        assert(lines(line) =~= seq![line]);
    }
    let none = Seq::<char>::empty();
    assert(split(none, k) =~= seq![none]);
    assert(seq![none].drop_last() =~= Seq::empty());
}

/// Characters of the class are taken from both ends of a text, and nothing else:
/// what begins and ends with another character stays whole.
pub proof fn law_trim(a: Seq<char>, s: Seq<char>, b: Seq<char>, k: Class)
    requires
        forall|i: int| 0 <= i < a.len() ==> k.holds(#[trigger] a[i]),
        forall|i: int| 0 <= i < b.len() ==> k.holds(#[trigger] b[i]),
        s.len() > 0 ==> !k.holds(s[0]) && !k.holds(s.last()),
    ensures
        trim_both(a + s + b, k) == s,
        trim_start(a + s, k) == s,
        trim_end(s + b, k) == s,
        k == Class::Space ==> trim(a + s + b) == s,
{
    assert(a + s + b =~= a + (s + b));
    lemma_trim_drops(a, s + b, k);
    lemma_trim_drops(a, s, k);
    lemma_trim_drops(b, s, k);
    if s.len() == 0 {
        assert(s + b =~= b);
        lemma_trim_drops(b, s, k);
        assert(b + s =~= b);
    }
}

/// A joined list is its texts with the separator between each two.
pub proof fn law_join(p: Seq<Seq<char>>, t: Seq<char>, sep: Seq<char>)
    ensures
        join(Seq::<Seq<char>>::empty(), sep).len() == 0,
        join(seq![t], sep) == t,
        p.len() > 0 ==> join(p.push(t), sep) == join(p, sep) + sep + t,
{
    assert(p.push(t).drop_last() =~= p);
    assert(seq![t][0] == t);
}

/// A path below a directory is shown without it: what comes out is what stands
/// behind the directory and its separator. A path that is not from the root
/// stays as it is.
pub proof fn law_relative_path(root: Seq<char>, rest: Seq<char>, other: Seq<char>)
    requires
        root.len() > 0,
        root[0] == '/',
        forall|i: int|
            0 <= i < split(rest, Class::Only('/')).len() ==> is_part(
                #[trigger] split(rest, Class::Only('/'))[i],
            ),
    ensures
        relative(root.push('/') + rest, root) == rest,
        other.len() == 0 || other[0] != '/' ==> relative(other, root) == other,
{
    reveal_strlit("/");
    let k = Class::Only('/');
    let path = root.push('/') + rest;
    law_split(root, '/', rest, k);
    let a = split(root, k);
    let b = split(rest, k);
    lemma_split_nonempty(rest, k);
    lemma_parts_concat(a, b);
    lemma_all_parts(b);
    assert(parts(a).is_prefix_of(parts(a + b))) by {
        assert((parts(a) + b).subrange(0, parts(a).len() as int) =~= parts(a));
    }
    assert(path.subrange(0, 1) =~= "/"@);
    assert(starts_with(path, "/"@));
    lemma_place_behind(a, b, 0);
    assert(parts(a.skip(0)) == parts(a)) by {
        assert(a.skip(0) =~= a);
    }
    assert(part_place(a + b, 0, parts(a).len() as int) == a.len());
    assert((a + b).last() == b.last());
    assert(b[b.len() - 1] == b.last());
    assert(parts_end(a + b) == (a + b).len());
    assert((a + b).subrange(a.len() as int, (a + b).len() as int) =~= b);
    lemma_join_split(rest, '/');
    assert(seq!['/'] =~= "/"@);
    if other.len() == 0 || other[0] != '/' {
        if starts_with(other, "/"@) {
            assert(other.subrange(0, 1)[0] == other[0]);
        }
    }
}

proof fn lemma_parts_concat(p: Seq<Seq<char>>, q: Seq<Seq<char>>)
    ensures
        parts(p + q) == parts(p) + parts(q),
    decreases q.len(),
{
    if q.len() == 0 {
        assert(p + q =~= p);
        assert(parts(p) + parts(q) =~= parts(p));
    } else {
        lemma_parts_concat(p, q.drop_last());
        assert((p + q).drop_last() =~= p + q.drop_last());
        assert(parts(p + q) =~= parts(p) + parts(q));
    }
}

proof fn lemma_all_parts(p: Seq<Seq<char>>)
    requires
        forall|i: int| 0 <= i < p.len() ==> is_part(#[trigger] p[i]),
    ensures
        parts(p) == p,
    decreases p.len(),
{
    if p.len() > 0 {
        let d = p.drop_last();
        assert forall|i: int| 0 <= i < d.len() implies is_part(#[trigger] d[i]) by {
            assert(d[i] == p[i]);
        }
        lemma_all_parts(d);
        assert(is_part(p[p.len() - 1]));
        assert(d.push(p.last()) =~= p);
    }
}

/// The component behind those of the first list is the first of the second.
proof fn lemma_place_behind(a: Seq<Seq<char>>, b: Seq<Seq<char>>, i: int)
    requires
        0 <= i <= a.len(),
        b.len() > 0,
        is_part(b[0]),
    ensures
        part_place(a + b, i, parts(a.skip(i)).len() as int) == a.len(),
    decreases a.len() - i,
{
    if i < a.len() {
        lemma_place_behind(a, b, i + 1);
        let one = seq![a[i]];
        assert(a.skip(i) =~= one + a.skip(i + 1));
        lemma_parts_concat(one, a.skip(i + 1));
        assert(one.drop_last() =~= Seq::empty());
        assert(parts(one.drop_last()) =~= Seq::empty());
        assert(one.last() == a[i]);
        assert((a + b)[i] == a[i]);
    } else {
        assert(a.skip(i) =~= Seq::empty());
        assert((a + b)[i] == b[0]);
    }
}

/// The pieces of a text, joined by what they were split at, are the text.
proof fn lemma_join_split(s: Seq<char>, c: char)
    ensures
        join(split(s, Class::Only(c)), seq![c]) == s,
    decreases s.len(),
{
    let k = Class::Only(c);
    let sep = seq![c];
    if s.len() == 0 {
        assert(s =~= Seq::<char>::empty());
        assert(split(s, k) =~= seq![s]);
        assert(seq![s][0] == s);
    } else {
        let d = s.drop_last();
        lemma_join_split(d, c);
        lemma_split_nonempty(d, k);
        let p = split(d, k);
        let none = Seq::<char>::empty();
        assert(s =~= d.push(s.last()));
        if k.holds(s.last()) {
            law_join(p, none, sep);
            assert(join(p, sep) + sep + none =~= s);
        } else {
            let head = p.drop_last();
            let last = p.last();
            assert(head.push(last) =~= p);
            if head.len() > 0 {
                law_join(head, last, sep);
                law_join(head, last.push(s.last()), sep);
                assert(join(head, sep) + sep + last.push(s.last()) =~= (join(head, sep) + sep
                    + last).push(s.last()));
            } else {
                assert(head.push(last.push(s.last())) =~= seq![last.push(s.last())]);
                assert(p =~= seq![last]);
                law_join(head, last, sep);
                law_join(head, last.push(s.last()), sep);
            }
        }
    }
}

/// Two paths are the same where they differ only in doubled separators, in
/// references to the current directory or in a separator at the end; a path is
/// not the same as one with a part more.
pub proof fn law_same_path(a: Seq<char>, b: Seq<char>, part: Seq<char>)
    requires
        a.len() > 0,
        part.len() > 0,
        !part.contains('/'),
        part.len() != 1 || part[0] != '.',
    ensures
        same_path(a.push('/') + b, a.push('/').push('/') + b),
        same_path(a.push('/') + b, a.push('/').push('.').push('/') + b),
        same_path(a.push('/'), a),
        !same_path(a.push('/') + part, a),
{
    reveal_strlit("/");
    reveal_strlit(".");
    let k = Class::Only('/');
    let none = Seq::<char>::empty();
    let dot = seq!['.'];
    let p = split(a, k);
    lemma_split_nonempty(a, k);
    law_split(a, '/', b, k);
    law_split(a, '/', none, k);
    law_split(a, '/', part, k);
    law_split(a.push('/'), '/', b, k);
    let c = a.push('/').push('.');
    law_split(c, '/', b, k);
    law_split(a, '/', dot, k);
    assert(a.push('/') + none =~= a.push('/'));
    assert(a.push('/') + dot =~= c);
    assert(split(none, k) =~= seq![none]);
    assert(split(dot, k) =~= seq![dot]) by {
        law_split(a, 'x', dot, k);
    }
    assert forall|i: int| 0 <= i < part.len() implies !k.holds(#[trigger] part[i]) by {
        assert(part.contains(part[i]));
    }
    assert(dot =~= "."@);
    let q = split(b, k);
    lemma_parts_concat(p, q);
    lemma_parts_concat(p + seq![none], q);
    lemma_parts_concat(p, seq![none]);
    lemma_parts_concat(p + seq![dot], q);
    lemma_parts_concat(p, seq![dot]);
    lemma_parts_concat(p, seq![part]);
    lemma_parts_one(none);
    lemma_parts_one(dot);
    lemma_parts_one(part);
    assert(parts(p) + Seq::<Seq<char>>::empty() =~= parts(p));
    assert(part != "."@) by {
        if part == "."@ {
            assert(part[0] == '.');
        }
    }
    assert((p + q)[0] == p[0]);
    assert((p + seq![none] + q)[0] == p[0]);
    assert((p + seq![dot] + q)[0] == p[0]);
    assert((p + seq![none])[0] == p[0]);
    lemma_from_root(a, a.push('/') + b);
    lemma_from_root(a, a.push('/').push('/') + b);
    lemma_from_root(a, c.push('/') + b);
    lemma_from_root(a, a.push('/'));
    assert((parts(p) + seq![part]).len() == parts(p).len() + 1);
}

proof fn lemma_parts_one(t: Seq<char>)
    ensures
        parts(seq![t]) == if is_part(t) {
            seq![t]
        } else {
            Seq::<Seq<char>>::empty()
        },
{
    let one = seq![t];
    assert(one.drop_last() =~= Seq::empty());
    assert(parts(one.drop_last()) =~= Seq::empty());
    assert(one.last() == t);
    assert(Seq::<Seq<char>>::empty().push(t) =~= one);
}

proof fn lemma_from_root(a: Seq<char>, s: Seq<char>)
    requires
        a.len() > 0,
        s.len() >= a.len(),
        s[0] == a[0],
    ensures
        starts_with(s, "/"@) == starts_with(a, "/"@),
{
    reveal_strlit("/");
    assert(s.subrange(0, 1)[0] == s[0]);
    assert(a.subrange(0, 1)[0] == a[0]);
    if a[0] == '/' {
        assert(s.subrange(0, 1) =~= "/"@);
        assert(a.subrange(0, 1) =~= "/"@);
    }
}

} // verus!
