//! What a text that the agent writes is read as.

use vstd::prelude::*;

use crate::acp::sigils::{
    attribute, knowledge_entry, knowledge_from, law_sigil_reads_back, model_hint, phase_complete,
    sigils, tag_content, tasks_created,
};
use crate::acp::types::KnowledgeSigilView;
use crate::text::case::{law_tag_list_reads_back, lowercase, tag_list};
use crate::text::search::{
    between, contains, ends_with, find_from, lemma_find_least, occurs_at,
};
use crate::text::shape::{join, lemma_nonempty_all, lemma_trim_ends, trim, Class};

verus! {

/// A pattern that begins with a character that it holds nowhere else.
pub open spec fn has_lone_start(pat: Seq<char>) -> bool {
    pat.len() > 0 && forall|k: int| 0 < k < pat.len() ==> #[trigger] pat[k] != pat[0]
}

/// Such a pattern does not reach from a text into one that begins with its first
/// character.
proof fn lemma_no_overlap(a: Seq<char>, rest: Seq<char>, pat: Seq<char>)
    requires
        has_lone_start(pat),
        !contains(a, pat),
        rest.len() > 0,
        rest[0] == pat[0],
    ensures
        forall|i: int| 0 <= i < a.len() ==> !#[trigger] occurs_at(a + rest, pat, i),
{
    let s = a + rest;
    assert forall|i: int| 0 <= i < a.len() implies !#[trigger] occurs_at(s, pat, i) by {
        if occurs_at(s, pat, i) {
            if i + pat.len() <= a.len() {
                assert(a.subrange(i, i + pat.len()) =~= s.subrange(i, i + pat.len()));
                assert(occurs_at(a, pat, i));
            } else {
                let k = a.len() - i;
                assert(s.subrange(i, i + pat.len())[k] == s[a.len() as int]);
                assert(pat[k] == pat[0]);
            }
        }
    }
}

/// What is written between two tags comes out trimmed.
pub proof fn lemma_tag_reads(
    before: Seq<char>,
    open: Seq<char>,
    inner: Seq<char>,
    close: Seq<char>,
    after: Seq<char>,
)
    requires
        has_lone_start(open),
        has_lone_start(close),
        !contains(before, open),
        !contains(inner, close),
    ensures
        tag_content(before + open + inner + close + after, open, close) == Some(trim(inner)),
{
    let s = before + open + inner + close + after;
    let rest = open + inner + close + after;
    assert(s =~= before + rest);
    lemma_no_overlap(before, rest, open);
    let tail = close + after;
    lemma_no_overlap(inner, tail, close);
    let head = before + open;
    assert(s =~= head + (inner + tail));
    assert forall|i: int|
        before.len() + open.len() <= i < before.len() + open.len() + inner.len() implies !#[trigger] occurs_at(
        s,
        close,
        i,
    ) by {
        if occurs_at(s, close, i) {
            let k = i - head.len();
            assert((inner + tail).subrange(k, k + close.len()) =~= s.subrange(i, i + close.len()));
            assert(occurs_at(inner + tail, close, k));
        }
    }
    law_sigil_reads_back(before, open, inner, close, after);
}

proof fn lemma_tags_begin_once()
    ensures
        has_lone_start("<task-done>"@),
        has_lone_start("</task-done>"@),
        has_lone_start("<task-failed>"@),
        has_lone_start("</task-failed>"@),
        has_lone_start("<journal>"@),
        has_lone_start("</journal>"@),
        has_lone_start("<next-model>"@),
        has_lone_start("</next-model>"@),
        has_lone_start("<phase-complete>"@),
        has_lone_start("</phase-complete>"@),
        has_lone_start("<knowledge "@),
        has_lone_start("</knowledge>"@),
{
    reveal_strlit("<task-done>");
    reveal_strlit("</task-done>");
    reveal_strlit("<task-failed>");
    reveal_strlit("</task-failed>");
    reveal_strlit("<journal>");
    reveal_strlit("</journal>");
    reveal_strlit("<next-model>");
    reveal_strlit("</next-model>");
    reveal_strlit("<phase-complete>");
    reveal_strlit("</phase-complete>");
    reveal_strlit("<knowledge ");
    reveal_strlit("</knowledge>");
}

/// A task id that is reported between the tags for a task that is done, or for
/// one that failed, is read back trimmed, and so are notes between the journal
/// tags; blank ones count for nothing. The first tag of its kind counts, and the
/// content ends at the first closing tag.
pub proof fn law_reports_read_back(before: Seq<char>, inner: Seq<char>, after: Seq<char>)
    ensures
        ({
            let read = if trim(inner).len() > 0 {
                Some(trim(inner))
            } else {
                None
            };
            &&& !contains(before, "<task-done>"@) && !contains(inner, "</task-done>"@) ==> sigils(
                before + "<task-done>"@ + inner + "</task-done>"@ + after,
            ).task_done == read
            &&& !contains(before, "<task-failed>"@) && !contains(inner, "</task-failed>"@)
                ==> sigils(
                before + "<task-failed>"@ + inner + "</task-failed>"@ + after,
            ).task_failed == read
            &&& !contains(before, "<journal>"@) && !contains(inner, "</journal>"@) ==> sigils(
                before + "<journal>"@ + inner + "</journal>"@ + after,
            ).journal_notes == read
        }),
{
    lemma_tags_begin_once();
    if !contains(before, "<task-done>"@) && !contains(inner, "</task-done>"@) {
        lemma_tag_reads(before, "<task-done>"@, inner, "</task-done>"@, after);
    }
    if !contains(before, "<task-failed>"@) && !contains(inner, "</task-failed>"@) {
        lemma_tag_reads(before, "<task-failed>"@, inner, "</task-failed>"@, after);
    }
    if !contains(before, "<journal>"@) && !contains(inner, "</journal>"@) {
        lemma_tag_reads(before, "<journal>"@, inner, "</journal>"@, after);
    }
}

/// A model that is asked for between its tags is read back where it is `opus`,
/// `sonnet` or `haiku`, and a finished phase where it is `spec`, `plan` or
/// `build`; any other name counts for nothing.
pub proof fn law_names_read_back(before: Seq<char>, inner: Seq<char>, after: Seq<char>)
    ensures
        ({
            let name = trim(inner);
            let model = before + "<next-model>"@ + inner + "</next-model>"@ + after;
            let phase = before + "<phase-complete>"@ + inner + "</phase-complete>"@ + after;
            &&& !contains(before, "<next-model>"@) && !contains(inner, "</next-model>"@) ==> {
                &&& sigils(model).next_model_hint == model_hint(model)
                &&& model_hint(model) == if name == "opus"@ || name == "sonnet"@ || name
                    == "haiku"@ {
                    Some(name)
                } else {
                    None
                }
            }
            &&& !contains(before, "<phase-complete>"@) && !contains(inner, "</phase-complete>"@)
                ==> phase_complete(phase) == if name == "spec"@ || name == "plan"@ || name
                == "build"@ {
                Some(name)
            } else {
                None
            }
        }),
{
    lemma_tags_begin_once();
    if !contains(before, "<next-model>"@) && !contains(inner, "</next-model>"@) {
        lemma_tag_reads(before, "<next-model>"@, inner, "</next-model>"@, after);
    }
    if !contains(before, "<phase-complete>"@) && !contains(inner, "</phase-complete>"@) {
        lemma_tag_reads(before, "<phase-complete>"@, inner, "</phase-complete>"@, after);
    }
}

/// The promises and the sign that tasks were created count wherever they stand,
/// and only they do; a text without a tag reports nothing by it.
pub proof fn law_signs_read_back(s: Seq<char>)
    ensures
        sigils(s).is_complete <==> contains(s, "<promise>COMPLETE</promise>"@),
        sigils(s).is_failure <==> contains(s, "<promise>FAILURE</promise>"@),
        tasks_created(s) <==> (contains(s, "<tasks-created>"@) || contains(s, "<tasks-created/>"@)
            || contains(s, "<tasks-created />"@)),
        !contains(s, "<task-done>"@) ==> sigils(s).task_done is None,
        !contains(s, "<task-failed>"@) ==> sigils(s).task_failed is None,
        !contains(s, "<journal>"@) ==> sigils(s).journal_notes is None,
        !contains(s, "<next-model>"@) ==> sigils(s).next_model_hint is None,
        !contains(s, "<phase-complete>"@) ==> phase_complete(s) is None,
        !contains(s, "<knowledge "@) ==> sigils(s).knowledge_entries.len() == 0,
{
    lemma_find_least(s, "<task-done>"@, 0);
    lemma_find_least(s, "<task-failed>"@, 0);
    lemma_find_least(s, "<journal>"@, 0);
    lemma_find_least(s, "<next-model>"@, 0);
    lemma_find_least(s, "<phase-complete>"@, 0);
    lemma_find_least(s, "<knowledge "@, 0);
}

/// The attributes of a knowledge sigil as they are written: the tags first, then
/// the title.
pub open spec fn written_attributes(tags: Seq<Seq<char>>, title: Seq<char>) -> Seq<char> {
    "tags=\""@ + join(tags, ", "@) + "\" "@ + "title=\""@ + title + "\""@
}

/// A knowledge sigil as it is written.
pub open spec fn written_sigil(tags: Seq<Seq<char>>, title: Seq<char>, body: Seq<char>) -> Seq<
    char,
> {
    "<knowledge "@ + written_attributes(tags, title) + ">"@ + body + "</knowledge>"@
}

/// A knowledge sigil written into a text is read back: it gives one entry with
/// exactly its title, its tags and its trimmed body, however few its tags are,
/// and the text behind it is read as if it stood alone. So a text with any
/// number of sigils gives one entry for each, in their order.
pub proof fn law_knowledge_sigil_reads_back(
    before: Seq<char>,
    tags: Seq<Seq<char>>,
    title: Seq<char>,
    body: Seq<char>,
    after: Seq<char>,
)
    requires
        !contains(before, "<knowledge "@),
        tags.len() > 0,
        forall|i: int|
            0 <= i < tags.len() ==> (#[trigger] tags[i]).len() > 0 && trim(tags[i]) == tags[i]
                && lowercase(tags[i]) == tags[i] && !tags[i].contains(',') && !tags[i].contains('"')
                && !tags[i].contains('>'),
        !ends_with(join(tags, ", "@), "title="@),
        !title.contains('"'),
        !title.contains('>'),
        trim(body).len() > 0,
        !contains(body, "</knowledge>"@),
    ensures
        sigils(before + written_sigil(tags, title, body) + after).knowledge_entries == seq![
            KnowledgeSigilView { title, tags, body: trim(body) },
        ] + sigils(after).knowledge_entries,
{
    let attrs = written_attributes(tags, title);
    lemma_written_attributes(tags, title);
    lemma_sigil_at(before, attrs, body, after);
    assert(knowledge_entry(attrs, body) == seq![
        KnowledgeSigilView { title, tags, body: trim(body) },
    ]);
}

/// The attributes that are written are read back.
proof fn lemma_written_attributes(tags: Seq<Seq<char>>, title: Seq<char>)
    requires
        tags.len() > 0,
        forall|i: int|
            0 <= i < tags.len() ==> (#[trigger] tags[i]).len() > 0 && trim(tags[i]) == tags[i]
                && lowercase(tags[i]) == tags[i] && !tags[i].contains(',') && !tags[i].contains('"')
                && !tags[i].contains('>'),
        !ends_with(join(tags, ", "@), "title="@),
        !title.contains('"'),
        !title.contains('>'),
    ensures
        ({
            let attrs = written_attributes(tags, title);
            &&& !attrs.contains('>')
            &&& attribute(attrs, "title"@) == Some(title)
            &&& attribute(attrs, "tags"@) is Some
            &&& tag_list(attribute(attrs, "tags"@)->0) == tags
        }),
{
    let list = join(tags, ", "@);
    let attrs = written_attributes(tags, title);
    lemma_joined_without(tags, '"');
    lemma_joined_without(tags, '>');
    lemma_is_attribute_text(list, title);
    lemma_attrs_without_gt(attrs, list, title);
    lemma_tags_attribute(attrs, list, title);
    lemma_title_attribute(attrs, list, title);
    law_tag_list_reads_back(tags, true);
}

/// A sigil written into a text is found, and the search goes on behind it.
proof fn lemma_sigil_at(before: Seq<char>, attrs: Seq<char>, body: Seq<char>, after: Seq<char>)
    requires
        !contains(before, "<knowledge "@),
        !attrs.contains('>'),
        !contains(body, "</knowledge>"@),
    ensures
        knowledge_from(
            before + ("<knowledge "@ + attrs + ">"@ + body + "</knowledge>"@) + after,
            0,
        ) == knowledge_entry(attrs, body) + knowledge_from(after, 0),
{
    let open = "<knowledge "@;
    let gt = ">"@;
    let close = "</knowledge>"@;
    let sigil = open + attrs + gt + body + close;
    let s = before + sigil + after;
    lemma_tags_begin_once();
    assert(open.len() == 11 && close.len() == 12 && gt.len() == 1 && gt[0] == '>') by {
        reveal_strlit("<knowledge ");
        reveal_strlit(">");
        reveal_strlit("</knowledge>");
    }
    let none = Seq::<char>::empty();
    let a = before.len() as int;
    let e = a + 11 + attrs.len();
    let c = e + 1 + body.len();
    // Where the sigil begins.
    assert(s =~= none + before + open + (attrs + gt + body + close + after));
    lemma_found_behind(none, before, open, attrs + gt + body + close + after);
    // Where its attributes end.
    if contains(attrs, gt) {
        let i = choose|i: int| #[trigger] occurs_at(attrs, gt, i);
        assert(attrs.subrange(i, i + 1)[0] == attrs[i]);
        assert(attrs.contains(attrs[i]));
    }
    assert(s =~= (before + open) + attrs + gt + (body + close + after));
    lemma_found_behind(before + open, attrs, gt, body + close + after);
    // Where its body ends.
    assert(s =~= (before + open + attrs + gt) + body + close + after);
    lemma_found_behind(before + open + attrs + gt, body, close, after);
    assert(s.subrange(a + 11, e) =~= attrs);
    assert(s.subrange(e + 1, c) =~= body);
    // What stands behind it.
    let front = before + sigil;
    assert(front.len() == c + 12);
    lemma_knowledge_shift(front, after, 0);
    assert(knowledge_from(s, 0) == knowledge_entry(attrs, body) + knowledge_from(s, c + 12));
}

/// A pattern is found behind a text that does not hold it.
proof fn lemma_found_behind(a: Seq<char>, inner: Seq<char>, pat: Seq<char>, rest: Seq<char>)
    requires
        has_lone_start(pat),
        !contains(inner, pat),
    ensures
        find_from(a + inner + pat + rest, pat, a.len() as int) == Some(
            (a.len() + inner.len()) as int,
        ),
{
    lemma_no_overlap(inner, pat + rest, pat);
    lemma_first_behind(a, inner, pat, rest);
}

/// A pattern that stands behind a text, and does not begin in it, is found there.
pub proof fn lemma_first_behind(a: Seq<char>, inner: Seq<char>, pat: Seq<char>, rest: Seq<char>)
    requires
        pat.len() > 0,
        forall|i: int| 0 <= i < inner.len() ==> !#[trigger] occurs_at(inner + (pat + rest), pat, i),
    ensures
        find_from(a + inner + pat + rest, pat, a.len() as int) == Some(
            (a.len() + inner.len()) as int,
        ),
{
    let t = inner + (pat + rest);
    let n = inner.len() as int;
    assert(t.subrange(n, n + pat.len()) =~= pat);
    lemma_first_at(t, pat, n);
    assert(a + inner + pat + rest =~= a + t);
    lemma_find_shift(a, t, pat, 0);
}

proof fn lemma_first_at(t: Seq<char>, pat: Seq<char>, n: int)
    requires
        0 <= n,
        occurs_at(t, pat, n),
        forall|i: int| 0 <= i < n ==> !#[trigger] occurs_at(t, pat, i),
    ensures
        find_from(t, pat, 0) == Some(n),
{
    lemma_find_least(t, pat, 0);
}

proof fn lemma_joined_without(tags: Seq<Seq<char>>, x: char)
    requires
        forall|i: int| 0 <= i < tags.len() ==> !(#[trigger] tags[i]).contains(x),
        x != ',',
        x != ' ',
    ensures
        !join(tags, ", "@).contains(x),
    decreases tags.len(),
{
    reveal_strlit(", ");
    let j = join(tags, ", "@);
    if tags.len() == 1 {
        assert(!tags[0].contains(x));
    } else if tags.len() > 1 {
        let d = tags.drop_last();
        assert forall|i: int| 0 <= i < d.len() implies !(#[trigger] d[i]).contains(x) by {
            assert(d[i] == tags[i]);
        }
        lemma_joined_without(d, x);
        let p = join(d, ", "@);
        let last = tags.last();
        assert(last == tags[tags.len() - 1]);
        assert forall|k: int| 0 <= k < j.len() implies j[k] != x by {
            if k < p.len() {
                assert(p.contains(p[k]));
            } else if k >= p.len() + 2 {
                assert(j[k] == last[k - p.len() - 2]);
                assert(last.contains(last[k - p.len() - 2]));
            }
        }
    }
}

proof fn lemma_attrs_without_gt(s: Seq<char>, list: Seq<char>, title: Seq<char>)
    requires
        is_attribute_text(s, list, title),
        !list.contains('>'),
        !title.contains('>'),
    ensures
        !s.contains('>'),
{
    let n = list.len() as int;
    assert forall|i: int| 0 <= i < s.len() implies s[i] != '>' by {
        if 6 <= i < 6 + n {
            assert(list.contains(list[i - 6]));
        } else if 15 + n <= i < 15 + n + title.len() {
            assert(title.contains(title[i - 15 - n]));
        } else if i < 6 {
            assert(i == 0 || i == 1 || i == 2 || i == 3 || i == 4 || i == 5);
        } else if i < 15 + n {
            assert(i == 6 + n || i == 7 + n || i == 8 + n || i == 9 + n || i == 10 + n || i == 11
                + n || i == 12 + n || i == 13 + n || i == 14 + n);
        }
    }
}

/// The attribute text of a sigil, by its characters.
pub open spec fn is_attribute_text(s: Seq<char>, list: Seq<char>, title: Seq<char>) -> bool {
    let n = list.len();
    let m = title.len();
    &&& s.len() == 16 + n + m
    &&& s[0] == 't' && s[1] == 'a' && s[2] == 'g' && s[3] == 's' && s[4] == '=' && s[5] == '"'
    &&& forall|i: int| 6 <= i < 6 + n ==> #[trigger] s[i] == list[i - 6]
    &&& s[6 + n as int] == '"' && s[7 + n as int] == ' '
    &&& s[8 + n as int] == 't' && s[9 + n as int] == 'i' && s[10 + n as int] == 't'
    &&& s[11 + n as int] == 'l' && s[12 + n as int] == 'e' && s[13 + n as int] == '='
    &&& s[14 + n as int] == '"'
    &&& forall|i: int| 15 + n <= i < 15 + n + m ==> #[trigger] s[i] == title[i - 15 - n]
    &&& s[15 + n + m as int] == '"'
}

proof fn lemma_is_attribute_text(list: Seq<char>, title: Seq<char>)
    ensures
        is_attribute_text(
            "tags=\""@ + list + "\" "@ + "title=\""@ + title + "\""@,
            list,
            title,
        ),
{
    reveal_strlit("tags=\"");
    reveal_strlit("\" ");
    reveal_strlit("title=\"");
    reveal_strlit("\"");
}

/// The list of tags is read back from the attribute text.
proof fn lemma_tags_attribute(s: Seq<char>, list: Seq<char>, title: Seq<char>)
    requires
        is_attribute_text(s, list, title),
        !list.contains('"'),
    ensures
        attribute(s, "tags"@) == Some(list),
{
    reveal_strlit("tags");
    reveal_strlit("=\"");
    reveal_strlit("\"");
    let n = list.len() as int;
    let q = "\""@;
    let open = "tags"@ + "=\""@;
    assert(s.subrange(0, 6) =~= open);
    assert(occurs_at(s, open, 0));
    lemma_find_least(s, open, 0);
    assert(s.subrange(6 + n, 7 + n) =~= q);
    assert(occurs_at(s, q, 6 + n));
    assert forall|i: int| 6 <= i < 6 + n implies !#[trigger] occurs_at(s, q, i) by {
        if occurs_at(s, q, i) {
            assert(s.subrange(i, i + 1)[0] == s[i]);
            assert(list.contains(list[i - 6]));
        }
    }
    lemma_find_least(s, q, 6);
    assert(s.subrange(6, 6 + n) =~= list);
}

/// The title does not seem to begin before it does.
proof fn lemma_title_starts(s: Seq<char>, list: Seq<char>, title: Seq<char>, i: int)
    requires
        is_attribute_text(s, list, title),
        !list.contains('"'),
        !ends_with(list, "title="@),
        0 <= i < 8 + list.len(),
    ensures
        !occurs_at(s, "title"@ + "=\""@, i),
{
    reveal_strlit("title");
    reveal_strlit("=\"");
    reveal_strlit("title=");
    let n = list.len() as int;
    let open = "title"@ + "=\""@;
    assert(open[0] == 't' && open[1] == 'i' && open[2] == 't' && open[3] == 'l' && open[4] == 'e'
        && open[5] == '=' && open[6] == '"');
    if occurs_at(s, open, i) {
        let w = s.subrange(i, i + 7);
        assert(w =~= open);
        assert(s[i] == w[0] && s[i + 1] == w[1] && s[i + 2] == w[2] && s[i + 3] == w[3] && s[i + 4]
            == w[4] && s[i + 5] == w[5] && s[i + 6] == w[6]);
        if i < n {
            assert(s[i + 6] == list[i]);
            assert(list.contains(list[i]));
        } else if i == n {
            if n >= 6 {
                assert(s[n] == list[n - 6] && s[n + 1] == list[n - 5] && s[n + 2] == list[n - 4]
                    && s[n + 3] == list[n - 3] && s[n + 4] == list[n - 2] && s[n + 5] == list[n
                    - 1]);
                assert(list.subrange(n - 6, n) =~= "title="@);
                assert(occurs_at(list, "title="@, n - 6));
            } else {
                assert(s[5] == '"');
                assert(n == 0 || n == 1 || n == 2 || n == 3 || n == 4 || n == 5);
            }
        } else {
            assert(i == n + 1 || i == n + 2 || i == n + 3 || i == n + 4 || i == n + 5 || i == n + 6
                || i == n + 7);
        }
    }
}

/// The title is read back from the attribute text.
proof fn lemma_title_attribute(s: Seq<char>, list: Seq<char>, title: Seq<char>)
    requires
        is_attribute_text(s, list, title),
        !list.contains('"'),
        !title.contains('"'),
        !ends_with(list, "title="@),
    ensures
        attribute(s, "title"@) == Some(title),
{
    reveal_strlit("title");
    reveal_strlit("=\"");
    reveal_strlit("\"");
    let p = 8 + list.len() as int;
    let m = title.len() as int;
    let q = "\""@;
    let open = "title"@ + "=\""@;
    assert(s.subrange(p, p + 7) =~= open);
    assert(occurs_at(s, open, p));
    assert forall|i: int| 0 <= i < p implies !#[trigger] occurs_at(s, open, i) by {
        lemma_title_starts(s, list, title, i);
    }
    lemma_find_least(s, open, 0);
    assert(s.subrange(p + 7 + m, p + 8 + m) =~= q);
    assert(occurs_at(s, q, p + 7 + m));
    assert forall|i: int| p + 7 <= i < p + 7 + m implies !#[trigger] occurs_at(s, q, i) by {
        if occurs_at(s, q, i) {
            assert(s.subrange(i, i + 1)[0] == s[i]);
            assert(title.contains(title[i - p - 7]));
        }
    }
    lemma_find_least(s, q, p + 7);
    assert(s.subrange(p + 7, p + 7 + m) =~= title);
}

/// A search does not see what stands in front of where it begins.
pub proof fn lemma_find_shift(a: Seq<char>, b: Seq<char>, pat: Seq<char>, k: int)
    requires
        0 <= k,
    ensures
        match find_from(b, pat, k) {
            Some(i) => find_from(a + b, pat, a.len() + k) == Some(a.len() + i),
            None => find_from(a + b, pat, a.len() + k) is None,
        },
    decreases b.len() - k,
{
    let s = a + b;
    if k + pat.len() <= b.len() {
        assert(s.subrange(a.len() + k, a.len() + k + pat.len()) =~= b.subrange(k, k + pat.len()));
        if !occurs_at(b, pat, k) {
            lemma_find_shift(a, b, pat, k + 1);
        }
    }
}

proof fn lemma_knowledge_shift(a: Seq<char>, b: Seq<char>, k: int)
    requires
        0 <= k <= b.len(),
    ensures
        knowledge_from(a + b, a.len() + k) == knowledge_from(b, k),
    decreases b.len() - k,
{
    reveal_strlit("<knowledge ");
    reveal_strlit(">");
    reveal_strlit("</knowledge>");
    let s = a + b;
    let n = a.len();
    lemma_find_shift(a, b, "<knowledge "@, k);
    lemma_find_least(b, "<knowledge "@, k);
    if find_from(b, "<knowledge "@, k) is Some {
        let i = find_from(b, "<knowledge "@, k)->0;
        lemma_find_shift(a, b, ">"@, i + 11);
        lemma_find_least(b, ">"@, i + 11);
        if find_from(b, ">"@, i + 11) is Some {
            let e = find_from(b, ">"@, i + 11)->0;
            lemma_find_shift(a, b, "</knowledge>"@, e + 1);
            lemma_find_least(b, "</knowledge>"@, e + 1);
            if find_from(b, "</knowledge>"@, e + 1) is Some {
                let c = find_from(b, "</knowledge>"@, e + 1)->0;
                assert(s.subrange(n + i + 11, n + e) =~= b.subrange(i + 11, e));
                assert(s.subrange(n + e + 1, n + c) =~= b.subrange(e + 1, c));
                lemma_knowledge_shift(a, b, c + 12);
            }
        }
    }
}

/// Every knowledge entry that is read has at least one tag, none of them empty,
/// and a body that is trimmed and not blank.
pub proof fn law_knowledge_entries_are_filled(s: Seq<char>, x: int)
    requires
        0 <= x < sigils(s).knowledge_entries.len(),
    ensures
        sigils(s).knowledge_entries[x].tags.len() > 0,
        forall|i: int|
            0 <= i < sigils(s).knowledge_entries[x].tags.len() ==> (
            #[trigger] sigils(s).knowledge_entries[x].tags[i]).len() > 0,
        sigils(s).knowledge_entries[x].body.len() > 0,
        !Class::Space.holds(sigils(s).knowledge_entries[x].body[0]),
        !Class::Space.holds(sigils(s).knowledge_entries[x].body.last()),
{
    lemma_filled_from(s, 0, x);
}

proof fn lemma_filled_from(s: Seq<char>, from: int, x: int)
    requires
        0 <= x < knowledge_from(s, from).len(),
    ensures
        ({
            let k = knowledge_from(s, from)[x];
            &&& k.tags.len() > 0
            &&& forall|i: int| 0 <= i < k.tags.len() ==> (#[trigger] k.tags[i]).len() > 0
            &&& k.body.len() > 0
            &&& !Class::Space.holds(k.body[0])
            &&& !Class::Space.holds(k.body.last())
        }),
    decreases s.len() - from,
{
    let a = find_from(s, "<knowledge "@, from)->0;
    let at = a + "<knowledge "@.len();
    let e = find_from(s, ">"@, at)->0;
    let c = find_from(s, "</knowledge>"@, e + 1)->0;
    let next = c + "</knowledge>"@.len();
    let attrs = s.subrange(at, e);
    let entry = knowledge_entry(attrs, s.subrange(e + 1, c));
    if x < entry.len() {
        let list = attribute(attrs, "tags"@)->0;
        lemma_nonempty_all(
            crate::text::case::lowercases(
                crate::text::case::trims(crate::text::shape::split(list, Class::Only(','))),
            ),
        );
        lemma_trim_ends(s.subrange(e + 1, c), Class::Space);
    } else {
        lemma_filled_from(s, next, x - entry.len());
    }
}

} // verus!
