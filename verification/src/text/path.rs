//! Paths by their components.

use vstd::prelude::*;

use crate::text::basic::{same, texts};
use crate::text::search::{begins, starts_with};
use crate::text::shape::{join, joined, pieces, split, Class};

verus! {

/// The piece between two separators is a component: it is not empty and not
/// the current directory.
pub open spec fn is_part(p: Seq<char>) -> bool {
    p.len() > 0 && p != "."@
}

/// The pieces between the separators of a path.
pub open spec fn path_pieces(s: Seq<char>) -> Seq<Seq<char>> {
    split(s, Class::Only('/'))
}

/// The components among the pieces.
pub open spec fn parts(p: Seq<Seq<char>>) -> Seq<Seq<char>>
    decreases p.len(),
{
    if p.len() == 0 {
        Seq::empty()
    } else if is_part(p.last()) {
        parts(p.drop_last()).push(p.last())
    } else {
        parts(p.drop_last())
    }
}

/// How a path begins.
#[derive(Debug, Clone, Copy, PartialEq, Eq, Structural)]
pub enum Lead {
    /// At the root.
    Root,
    /// With an explicit current directory.
    Here,
    /// With a component, or with nothing.
    Bare,
}

/// How a path begins.
pub open spec fn lead(s: Seq<char>) -> Lead {
    if starts_with(s, "/"@) {
        Lead::Root
    } else if path_pieces(s)[0] == "."@ {
        Lead::Here
    } else {
        Lead::Bare
    }
}

/// The two paths have the same components.
pub open spec fn same_path(a: Seq<char>, b: Seq<char>) -> bool {
    lead(a) == lead(b) && parts(path_pieces(a)) == parts(path_pieces(b))
}

/// The place of the component behind the first `n`, from `i` on.
pub open spec fn part_place(p: Seq<Seq<char>>, i: int, n: int) -> int
    decreases p.len() - i,
{
    if !(0 <= i < p.len()) {
        p.len() as int
    } else if is_part(p[i]) {
        if n <= 0 {
            i
        } else {
            part_place(p, i + 1, n - 1)
        }
    } else {
        part_place(p, i + 1, n)
    }
}

/// The place behind the last component.
pub open spec fn parts_end(p: Seq<Seq<char>>) -> nat
    decreases p.len(),
{
    if p.len() == 0 {
        0
    } else if is_part(p.last()) {
        p.len()
    } else {
        parts_end(p.drop_last())
    }
}

/// The absolute path `path` lies below, or at, the absolute path `root`.
pub open spec fn lies_below(path: Seq<char>, root: Seq<char>) -> bool {
    starts_with(path, "/"@) && parts(path_pieces(root)).is_prefix_of(parts(path_pieces(path)))
}

/// What the path adds to the root: its text from the first component behind
/// those of the root to the last one.
pub open spec fn below_root(path: Seq<char>, root: Seq<char>) -> Seq<char> {
    let p = path_pieces(path);
    let from = part_place(p, 0, parts(path_pieces(root)).len() as int);
    let to = parts_end(p) as int;
    if from < to {
        join(p.subrange(from, to), "/"@)
    } else {
        Seq::empty()
    }
}

/// The path relative to the root, where it lies below it; else the path.
pub open spec fn relative(path: Seq<char>, root: Seq<char>) -> Seq<char> {
    if lies_below(path, root) {
        below_root(path, root)
    } else {
        path
    }
}

/// Whether the piece is a component.
fn piece_is_part(p: &str) -> (r: bool)
    ensures
        r == is_part(p@),
{
    !p.is_empty() && !same(p, ".")
}

/// The components among the pieces.
fn list_parts(v: &Vec<String>) -> (r: Vec<String>)
    ensures
        texts(r@) == parts(texts(v@)),
{
    let ghost all = texts(v@);
    let mut r: Vec<String> = Vec::new();
    let mut i: usize = 0;
    assert(texts(r@) =~= parts(all.take(0)));
    while i < v.len()
        invariant
            i <= v@.len(),
            all == texts(v@),
            texts(r@) == parts(all.take(i as int)),
        decreases v@.len() - i,
    {
        assert(all.take(i + 1).drop_last() =~= all.take(i as int));
        assert(all[i as int] == v@[i as int]@);
        if piece_is_part(v[i].as_str()) {
            let ghost before = r@;
            r.push(v[i].clone());
            assert(texts(r@) =~= texts(before).push(all[i as int]));
        }
        i = i + 1;
    }
    assert(all.take(all.len() as int) =~= all);
    r
}

/// How a path begins.
fn lead_of(s: &str) -> (r: Lead)
    ensures
        r == lead(s@),
{
    if begins(s, "/") {
        return Lead::Root;
    }
    let p = pieces(s, Class::Only('/'));
    proof {
        crate::text::shape::lemma_split_nonempty(s@, Class::Only('/'));
        assert(texts(p@).len() == p@.len());
        assert(texts(p@)[0] == p@[0]@);
    }
    if same(p[0].as_str(), ".") {
        Lead::Here
    } else {
        Lead::Bare
    }
}

/// Whether the first list begins with the second.
fn begins_with(v: &Vec<String>, head: &Vec<String>) -> (r: bool)
    ensures
        r == texts(head@).is_prefix_of(texts(v@)),
{
    let ghost a = texts(v@);
    let ghost b = texts(head@);
    assert(a.len() == v@.len());
    assert(b.len() == head@.len());
    if head.len() > v.len() {
        return false;
    }
    let mut i: usize = 0;
    while i < head.len()
        invariant
            i <= head@.len() <= v@.len(),
            a == texts(v@),
            b == texts(head@),
            a.len() == v@.len(),
            b.len() == head@.len(),
            forall|j: int| 0 <= j < i ==> a[j] == #[trigger] b[j],
        decreases head@.len() - i,
    {
        assert(a[i as int] == v@[i as int]@);
        assert(b[i as int] == head@[i as int]@);
        if !same(v[i].as_str(), head[i].as_str()) {
            assert(a.subrange(0, b.len() as int)[i as int] != b[i as int]);
            return false;
        }
        i = i + 1;
    }
    assert(a.subrange(0, b.len() as int) =~= b);
    true
}

/// Whether two paths have the same components.
pub fn is_same_path(a: &str, b: &str) -> (r: bool)
    ensures
        r == same_path(a@, b@),
{
    if lead_of(a) != lead_of(b) {
        return false;
    }
    let pa = list_parts(&pieces(a, Class::Only('/')));
    let pb = list_parts(&pieces(b, Class::Only('/')));
    let ghost sa = texts(pa@);
    let ghost sb = texts(pb@);
    assert(sa.len() == pa@.len());
    assert(sb.len() == pb@.len());
    if pa.len() != pb.len() {
        return false;
    }
    let r = begins_with(&pa, &pb);
    assert(sa.subrange(0, sa.len() as int) =~= sa);
    r
}

/// The path relative to the root, where it lies below it; else the path.
pub fn relative_path(path: &str, root: &str) -> (r: String)
    ensures
        r@ == relative(path@, root@),
{
    let p = pieces(path, Class::Only('/'));
    let ghost pv = texts(p@);
    assert(pv.len() == p@.len());
    let mine = list_parts(&p);
    let base = list_parts(&pieces(root, Class::Only('/')));
    assert(texts(base@).len() == base@.len());
    if !begins(path, "/") || !begins_with(&mine, &base) {
        return path.to_owned();
    }
    let n: usize = p.len();
    let mut left: usize = base.len();
    let mut from: usize = 0;
    let mut seeking = true;
    while seeking && from < n
        invariant
            from <= n,
            n == p@.len(),
            pv == texts(p@),
            seeking ==> part_place(pv, 0, base@.len() as int) == part_place(
                pv,
                from as int,
                left as int,
            ),
            !seeking ==> part_place(pv, 0, base@.len() as int) == from,
        decreases n - from + (if seeking { 1int } else { 0int }),
    {
        assert(pv[from as int] == p@[from as int]@);
        if piece_is_part(p[from].as_str()) {
            if left == 0 {
                seeking = false;
            } else {
                left = left - 1;
                from = from + 1;
            }
        } else {
            from = from + 1;
        }
    }
    assert(part_place(pv, 0, base@.len() as int) == from);
    let mut to: usize = n;
    assert(pv.take(n as int) =~= pv);
    while to > 0 && !piece_is_part(p[to - 1].as_str())
        invariant
            to <= n,
            n == p@.len(),
            pv == texts(p@),
            parts_end(pv) == parts_end(pv.take(to as int)),
        decreases to,
    {
        assert(pv[to - 1] == p@[to - 1]@);
        assert(pv.take(to as int).drop_last() =~= pv.take(to - 1));
        to = to - 1;
    }
    proof {
        if to > 0 {
            assert(pv[to - 1] == p@[to - 1]@);
            assert(pv.take(to as int).last() == pv[to - 1]);
        }
        assert(parts_end(pv) == to);
    }
    if from >= to {
        let none = String::new();
        assert(none@ =~= Seq::empty());
        return none;
    }
    let mut rest: Vec<String> = Vec::new();
    let mut i: usize = from;
    assert(texts(rest@) =~= pv.subrange(from as int, i as int));
    while i < to
        invariant
            from <= i <= to <= p@.len(),
            pv == texts(p@),
            texts(rest@) == pv.subrange(from as int, i as int),
        decreases to - i,
    {
        let ghost before = rest@;
        assert(pv[i as int] == p@[i as int]@);
        rest.push(p[i].clone());
        assert(texts(rest@) =~= texts(before).push(pv[i as int]));
        assert(pv.subrange(from as int, i + 1) =~= pv.subrange(from as int, i as int).push(
            pv[i as int],
        ));
        i = i + 1;
    }
    joined(&rest, "/")
}

} // verus!
