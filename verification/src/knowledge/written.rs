//! What a written knowledge entry is read back as, and where it is written.

use vstd::prelude::*;

use crate::knowledge::dedup::{
    belongs, cut_to_words, dedup_target, entry_path, entry_tags, feature_line, file_text, held_by,
    law_merged,
};
use crate::knowledge::entry::{entries_of, entry_of_file, parsed_entry, EntryView, KnowledgeFile};
use crate::knowledge::round_trip::{
    front_text, is_tag, law_file_reads_back, lemma_dashes, lemma_keeps_head, lemma_tags_inner,
    lemma_tags_read, lemma_trim_drops, lemma_trim_end_behind, one_line, tags_read, unbracketed,
    unquoted,
};
use crate::text::case::{lowercase, lowercases, trims};
use crate::text::search::{contains, occurs_at};
use crate::text::shape::{
    join, lemma_split_extend, lemma_split_push, nonempty, split, trim, trim_end, trim_start, Class,
};

verus! {

/// The text can be the value of a field: it stands on one line, without a quote
/// at either end and without `---`.
pub open spec fn is_value(s: Seq<char>) -> bool {
    one_line(s) && unquoted(s) && !contains(s, "---"@)
}

/// The text can stand in a list of tags: on one line, and without `---`.
pub open spec fn is_listed(s: Seq<char>) -> bool {
    one_line(s) && !contains(s, "---"@)
}

/// The text is found again in a list of tags, in lower case, whatever stands
/// beside it: it has no comma, no white space at either end, and no bracket
/// where the list could end in it.
pub open spec fn is_word(s: Seq<char>) -> bool {
    &&& s.len() > 0
    &&& trim(s) == s
    &&& forall|i: int| 0 <= i < s.len() ==> #[trigger] s[i] != ','
    &&& s[0] != '['
    &&& s.last() != ']'
    &&& lowercase(s).len() > 0
}

/// Two texts without `---`, one behind the other, hold none where no two hyphens
/// meet.
proof fn lemma_dashes_apart(a: Seq<char>, b: Seq<char>)
    requires
        !contains(a, "---"@),
        !contains(b, "---"@),
        a.len() > 0 && b.len() > 0 ==> a.last() != '-' || b[0] != '-',
    ensures
        !contains(a + b, "---"@),
{
    let s = a + b;
    if contains(s, "---"@) {
        let i = choose|i: int| #[trigger] occurs_at(s, "---"@, i);
        lemma_dashes(s, i);
        if i + 3 <= a.len() {
            assert(s[i] == a[i] && s[i + 1] == a[i + 1] && s[i + 2] == a[i + 2]);
            lemma_dashes(a, i);
        } else if i >= a.len() {
            let j = i - a.len();
            assert(s[i] == b[j] && s[i + 1] == b[j + 1] && s[i + 2] == b[j + 2]);
            lemma_dashes(b, j);
        } else {
            assert(s[a.len() - 1] == a.last());
            assert(s[a.len() as int] == b[0]);
        }
    }
}

/// A text without hyphens holds no `---`.
proof fn lemma_no_dashes(s: Seq<char>)
    requires
        forall|i: int| 0 <= i < s.len() ==> #[trigger] s[i] != '-',
    ensures
        !contains(s, "---"@),
{
    if contains(s, "---"@) {
        let i = choose|i: int| #[trigger] occurs_at(s, "---"@, i);
        lemma_dashes(s, i);
    }
}

/// A text in a frame that has no hyphens holds `---` only where it did before.
proof fn lemma_framed(a: Seq<char>, x: Seq<char>, b: Seq<char>)
    requires
        !contains(a, "---"@),
        a.len() > 0 ==> a.last() != '-',
        !contains(x, "---"@),
        forall|i: int| 0 <= i < b.len() ==> #[trigger] b[i] != '-',
    ensures
        !contains(a + x + b, "---"@),
{
    lemma_dashes_apart(a, x);
    lemma_no_dashes(b);
    if b.len() > 0 {
        assert(b[0] != '-');
    }
    lemma_dashes_apart(a + x, b);
}

proof fn lemma_joined_tags(tags: Seq<Seq<char>>)
    requires
        forall|i: int| 0 <= i < tags.len() ==> is_listed(#[trigger] tags[i]),
    ensures
        !contains(join(tags, ", "@), "---"@),
    decreases tags.len(),
{
    reveal_strlit(", ");
    if tags.len() == 0 {
        lemma_no_dashes(join(tags, ", "@));
    } else if tags.len() == 1 {
        assert(is_listed(tags[0]));
    } else {
        let d = tags.drop_last();
        assert forall|i: int| 0 <= i < d.len() implies is_listed(#[trigger] d[i]) by {
            assert(d[i] == tags[i]);
        }
        lemma_joined_tags(d);
        assert(is_listed(tags[tags.len() - 1]));
        lemma_no_dashes(", "@);
        lemma_dashes_apart(join(d, ", "@), ", "@);
        lemma_dashes_apart(join(d, ", "@) + ", "@, tags.last());
    }
}

/// The front of a file holds no `---` where its values hold none.
proof fn lemma_front_without_dashes(
    title: Seq<char>,
    tags: Seq<Seq<char>>,
    feature: Option<Seq<char>>,
    now: Seq<char>,
)
    requires
        is_value(title),
        forall|i: int| 0 <= i < tags.len() ==> is_listed(#[trigger] tags[i]),
        feature is Some ==> is_value(feature->0),
        is_value(now),
    ensures
        !contains(front_text(title, tags, feature, now), "---"@),
{
    reveal_strlit("\ntitle: \"");
    reveal_strlit("\"\ntags: [");
    reveal_strlit("]\n");
    reveal_strlit("feature: \"");
    reveal_strlit("created_at: \"");
    reveal_strlit("\"\n");
    lemma_no_dashes("\ntitle: \""@);
    let a = "\ntitle: \""@ + title + "\"\ntags: ["@;
    lemma_framed("\ntitle: \""@, title, "\"\ntags: ["@);
    lemma_joined_tags(tags);
    let b = a + join(tags, ", "@) + "]\n"@;
    lemma_framed(a, join(tags, ", "@), "]\n"@);
    let c = b + feature_line(feature);
    match feature {
        Some(f) => {
            lemma_no_dashes("feature: \""@);
            lemma_framed("feature: \""@, f, "\"\n"@);
            assert(feature_line(feature)[0] == 'f');
            lemma_dashes_apart(b, feature_line(feature));
            assert(c.last() == '\n');
        },
        None => {
            assert(c =~= b);
            assert(c.last() == '\n');
        },
    }
    lemma_no_dashes("created_at: \""@);
    lemma_dashes_apart(c, "created_at: \""@);
    let d = c + "created_at: \""@;
    assert(d.last() == '"');
    lemma_framed(d, now, "\"\n"@);
    assert(d + now + "\"\n"@ =~= front_text(title, tags, feature, now));
}

/// Trimming stops at a text that does not begin with the class.
proof fn lemma_trim_start_stops(a: Seq<char>, b: Seq<char>, k: Class)
    requires
        b.len() > 0,
        !k.holds(b[0]),
    ensures
        trim_start(a + b, k) == trim_start(a, k) + b,
    decreases a.len(),
{
    if a.len() == 0 {
        assert(a + b =~= b);
        assert(trim_start(a, k) + b =~= b);
    } else if k.holds(a[0]) {
        assert((a + b).drop_first() =~= a.drop_first() + b);
        lemma_trim_start_stops(a.drop_first(), b, k);
    }
}

/// What follows a separator leaves the pieces before it as they are.
proof fn lemma_split_before(s: Seq<char>, rest: Seq<char>, k: Class)
    requires
        rest.len() > 0,
        k.holds(rest[0]),
    ensures
        split(s + rest, k).len() > split(s, k).len(),
        forall|x: int|
            0 <= x < split(s, k).len() ==> #[trigger] split(s + rest, k)[x] == split(s, k)[x],
    decreases rest.len(),
{
    let d = rest.drop_last();
    assert(s + rest =~= (s + d).push(rest.last()));
    lemma_split_push(s + d, rest.last(), k);
    if d.len() == 0 {
        assert(s + d =~= s);
    } else {
        lemma_split_before(s, d, k);
    }
}

proof fn lemma_nonempty_keeps(p: Seq<Seq<char>>, m: int)
    requires
        0 <= m < p.len(),
        p[m].len() > 0,
    ensures
        nonempty(p).contains(p[m]),
    decreases p.len(),
{
    let rest = nonempty(p.drop_last());
    if m < p.len() - 1 {
        lemma_nonempty_keeps(p.drop_last(), m);
        let x = choose|x: int| 0 <= x < rest.len() && rest[x] == p[m];
        assert(nonempty(p)[x] == p[m]);
    } else {
        assert(nonempty(p)[rest.len() as int] == p[m]);
    }
}

/// A tag stands in its joined list between what ends in a comma and a blank, or
/// nothing, and what begins with a comma, or nothing.
proof fn lemma_tag_in_list(tags: Seq<Seq<char>>, i: int) -> (r: (Seq<char>, Seq<char>))
    requires
        0 <= i < tags.len(),
    ensures
        join(tags, ", "@) == r.0 + tags[i] + r.1,
        r.0.len() > 0 ==> exists|a: Seq<char>| r.0 == #[trigger] (a + ", "@),
        r.1.len() > 0 ==> r.1[0] == ',',
    decreases tags.len(),
{
    reveal_strlit(", ");
    let none = Seq::<char>::empty();
    let d = tags.drop_last();
    if i == tags.len() - 1 {
        if tags.len() == 1 {
            assert(join(tags, ", "@) =~= none + tags[i] + none);
            (none, none)
        } else {
            let before = join(d, ", "@) + ", "@;
            assert(join(tags, ", "@) =~= before + tags[i] + none);
            (before, none)
        }
    } else {
        let (a, b) = lemma_tag_in_list(d, i);
        let behind = b + ", "@ + tags.last();
        assert(join(tags, ", "@) =~= a + tags[i] + behind);
        (a, behind)
    }
}

/// A word in a list of tags is read from it, in lower case.
proof fn lemma_word_is_read(tags: Seq<Seq<char>>, i: int)
    requires
        0 <= i < tags.len(),
        is_word(tags[i]),
    ensures
        tags_read(tags).contains(lowercase(tags[i])),
{
    reveal_strlit(", ");
    reveal_strlit("]");
    let k = Class::Only(',');
    let open = Class::Only('[');
    let close = Class::Only(']');
    let none = Seq::<char>::empty();
    let t = tags[i];
    let (a, b) = lemma_tag_in_list(tags, i);
    lemma_tags_inner(tags);
    let tail = b + "]"@;
    let all = join(tags, ", "@) + "]"@;
    let head = if a.len() == 0 {
        none
    } else {
        let a0 = choose|a0: Seq<char>| a == #[trigger] (a0 + ", "@);
        trim_start(a0, open) + ", "@
    };
    if a.len() == 0 {
        assert(all =~= head + t + tail);
        assert(all[0] == t[0]);
    } else {
        let a0 = choose|a0: Seq<char>| a == #[trigger] (a0 + ", "@);
        let rest = ", "@ + t + tail;
        assert(all =~= a0 + rest);
        assert(rest[0] == ',');
        lemma_trim_start_stops(a0, rest, open);
        assert(trim_start(a0, open) + rest =~= head + t + tail);
    }
    assert(trim_start(all, open) == head + t + tail);
    let kept = head + t;
    assert(kept.last() == t.last());
    lemma_trim_end_behind(kept, tail, close);
    let end = trim_end(tail, close);
    if b.len() == 0 {
        assert(tail =~= "]"@);
        lemma_trim_drops("]"@, none, close);
        assert(none + "]"@ =~= tail);
        assert(end =~= none);
    } else {
        assert(tail[0] == ',');
        lemma_keeps_head(tail, close);
    }
    let inner = kept + end;
    lemma_split_extend(head, t, k);
    let p = split(head, k);
    let piece = p.last() + t;
    if a.len() == 0 {
        assert(piece =~= t);
    } else {
        let a1 = head.take(head.len() - 2);
        assert(head =~= a1.push(',').push(' '));
        lemma_split_push(a1, ',', k);
        lemma_split_push(a1.push(','), ' ', k);
        assert(p.last() =~= seq![' ']);
        lemma_trim_drops(seq![' '], t, Class::Space);
    }
    assert(trim(piece) == t);
    let m = split(kept, k).len() - 1;
    assert(split(kept, k)[m] == piece);
    if end.len() == 0 {
        assert(inner =~= kept);
    } else {
        lemma_split_before(kept, end, k);
    }
    assert(split(inner, k)[m] == piece);
    let low = lowercases(trims(split(inner, k)));
    assert(low[m] == lowercase(t));
    lemma_nonempty_keeps(low, m);
}

/// The tags of a sigil are among those that its entry is written with.
proof fn lemma_tag_is_written(
    files: Seq<KnowledgeFile>,
    path: Seq<char>,
    tags: Seq<Seq<char>>,
    i: int,
) -> (x: int)
    requires
        0 <= i < tags.len(),
    ensures
        0 <= x < entry_tags(files, path, tags).len(),
        entry_tags(files, path, tags)[x] == tags[i],
{
    let all = entry_tags(files, path, tags);
    assert(tags.contains(tags[i]));
    match held_by(files, path, 0) {
        Some(h) => match parsed_entry(files[h].content@) {
            Some(e) => {
                law_merged(e.tags, tags, tags[i]);
            },
            None => {},
        },
        None => {},
    }
    choose|x: int| 0 <= x < all.len() && all[x] == tags[i]
}

/// What a knowledge entry is written as is read back as that entry: its title
/// and its feature as they were given, its body cut to 500 words and trimmed,
/// and its tags, merged with those that the file had, as their list is read.
/// Every tag of the sigil that is a word is among them. All of them are read as
/// they are where they are tags, the first does not begin with a bracket, and
/// the last does not end in one.
///
/// Title, feature and time are such as a field can hold, each tag that is
/// written stands on one line without `---`, and one tag of the sigil is a word.
pub proof fn law_written_entry_reads_back(
    kb_dir: Seq<char>,
    files: Seq<KnowledgeFile>,
    title: Seq<char>,
    tags: Seq<Seq<char>>,
    feature: Option<Seq<char>>,
    now: Seq<char>,
    body: Seq<char>,
)
    requires
        is_value(title),
        feature is Some ==> is_value(feature->0),
        is_value(now),
        exists|i: int| 0 <= i < tags.len() && is_word(#[trigger] tags[i]),
        ({
            let all = entry_tags(files, entry_path(kb_dir, entries_of(files), title, tags), tags);
            forall|i: int| 0 <= i < all.len() ==> is_listed(#[trigger] all[i])
        }),
    ensures
        ({
            let path = entry_path(kb_dir, entries_of(files), title, tags);
            let all = entry_tags(files, path, tags);
            let short = cut_to_words(body, 500);
            &&& parsed_entry(file_text(title, all, feature, now, short)) == Some(
                EntryView {
                    title,
                    tags: tags_read(all),
                    feature,
                    body: trim(short),
                    created_at: now,
                    file_path: Seq::empty(),
                },
            )
            &&& forall|i: int|
                0 <= i < tags.len() && is_word(#[trigger] tags[i]) ==> tags_read(all).contains(
                    lowercase(tags[i]),
                )
            &&& unbracketed(all) && (forall|i: int|
                0 <= i < all.len() ==> is_tag(#[trigger] all[i])) ==> tags_read(all) == all
        }),
{
    let path = entry_path(kb_dir, entries_of(files), title, tags);
    let all = entry_tags(files, path, tags);
    assert forall|i: int|
        0 <= i < tags.len() && is_word(#[trigger] tags[i]) implies tags_read(all).contains(
        lowercase(tags[i]),
    ) by {
        let x = lemma_tag_is_written(files, path, tags, i);
        lemma_word_is_read(all, x);
    }
    let w = choose|w: int| 0 <= w < tags.len() && is_word(#[trigger] tags[w]);
    assert(tags_read(all).contains(lowercase(tags[w])));
    assert forall|i: int| 0 <= i < all.len() implies one_line(#[trigger] all[i]) by {
        assert(is_listed(all[i]));
    }
    lemma_front_without_dashes(title, all, feature, now);
    law_file_reads_back(title, all, feature, now, cut_to_words(body, 500));
    if unbracketed(all) && (forall|i: int| 0 <= i < all.len() ==> is_tag(#[trigger] all[i])) {
        lemma_tags_read(all);
    }
}

proof fn lemma_only_target(
    existing: Seq<EntryView>,
    title: Seq<char>,
    tags: Seq<Seq<char>>,
    only: int,
    from: int,
)
    requires
        0 <= from <= only < existing.len(),
        forall|i: int|
            0 <= i < existing.len() ==> (belongs(
                lowercase((#[trigger] existing[i]).title),
                existing[i].tags,
                lowercase(title),
                tags,
            ) <==> i == only),
    ensures
        dedup_target(existing, title, tags, from) == Some(only),
    decreases only - from,
{
    assert(belongs(lowercase(existing[from].title), existing[from].tags, lowercase(title), tags)
        <==> from == only);
    if from < only {
        lemma_only_target(existing, title, tags, only, from + 1);
    }
}

/// The entries of files stand in those files.
proof fn lemma_entry_in_file(files: Seq<KnowledgeFile>, i: int) -> (x: int)
    requires
        0 <= i < entries_of(files).len(),
    ensures
        0 <= x < files.len(),
        entry_of_file(files[x]) == Some(entries_of(files)[i]),
        files[x].path@ == entries_of(files)[i].file_path,
    decreases files.len(),
{
    if entry_of_file(files.last()) is Some && i == entries_of(files).len() - 1 {
        files.len() - 1
    } else {
        lemma_entry_in_file(files.drop_last(), i)
    }
}

/// An entry whose title an existing entry has, in any case of its letters, is
/// written to the file of that entry, where it belongs to no other: a file that
/// is there, so that none is added.
pub proof fn law_same_title_same_file(
    kb_dir: Seq<char>,
    files: Seq<KnowledgeFile>,
    title: Seq<char>,
    tags: Seq<Seq<char>>,
    only: int,
)
    requires
        0 <= only < entries_of(files).len(),
        lowercase(entries_of(files)[only].title) == lowercase(title),
        forall|i: int|
            0 <= i < entries_of(files).len() && i != only ==> !belongs(
                lowercase((#[trigger] entries_of(files)[i]).title),
                entries_of(files)[i].tags,
                lowercase(title),
                tags,
            ),
    ensures
        entry_path(kb_dir, entries_of(files), title, tags) == entries_of(files)[only].file_path,
        exists|x: int|
            0 <= x < files.len() && (#[trigger] files[x]).path@ == entry_path(
                kb_dir,
                entries_of(files),
                title,
                tags,
            ),
{
    let existing = entries_of(files);
    lemma_only_target(existing, title, tags, only, 0);
    let x = lemma_entry_in_file(files, only);
    assert(files[x].path@ == existing[only].file_path);
}

} // verus!
