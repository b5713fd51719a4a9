//! Writing knowledge entries: deduplication, merging and the file's text.

use vstd::prelude::*;

use crate::acp::types::KnowledgeSigil;
use crate::knowledge::entry::{
    discover_knowledge, entries_of, entry_views, parse_knowledge_frontmatter, parsed_entry,
    EntryView, KnowledgeEntry, KnowledgeFile,
};
use crate::knowledge::slug::{slug, slugify_title};
use crate::text::basic::{clone_texts, has_text, opt_str, same, texts};
use crate::text::case::{lower, lowercase};
use crate::text::search::{contains, has};
use crate::text::shape::{join, joined, words, words_of};

verus! {

/// How many tags the two lists share, and how many the smaller one has. A tag
/// counts once.
pub open spec fn overlap(a: Seq<Seq<char>>, b: Seq<Seq<char>>) -> (nat, nat) {
    (
        a.to_set().intersect(b.to_set()).len(),
        if a.to_set().len() <= b.to_set().len() {
            a.to_set().len()
        } else {
            b.to_set().len()
        },
    )
}

/// More than half of the smaller list is in the other. An empty list shares
/// nothing.
pub open spec fn overlaps(a: Seq<Seq<char>>, b: Seq<Seq<char>>) -> bool {
    2 * overlap(a, b).0 > overlap(a, b).1
}

/// The texts of a list, each once.
pub fn distinct(v: &Vec<String>) -> (r: Vec<String>)
    ensures
        texts(r@).no_duplicates(),
        texts(r@).to_set() == texts(v@).to_set(),
{
    let ghost all = texts(v@);
    let mut r: Vec<String> = Vec::new();
    let mut i: usize = 0;
    assert(texts(r@).to_set() =~= all.take(0).to_set());
    while i < v.len()
        invariant
            i <= v@.len(),
            all == texts(v@),
            texts(r@).no_duplicates(),
            texts(r@).to_set() == all.take(i as int).to_set(),
        decreases v@.len() - i,
    {
        assert(all[i as int] == v@[i as int]@);
        let ghost x = all[i as int];
        let ghost before = texts(r@);
        if !has_text(&r, v[i].as_str()) {
            let ghost rb = r@;
            r.push(v[i].clone());
            assert(texts(r@) =~= before.push(x));
            proof {
                lemma_set_push(before, x);
            }
        } else {
            assert(before.to_set().contains(x));
            assert(before.to_set() =~= before.to_set().insert(x));
        }
        proof {
            lemma_set_push(all.take(i as int), x);
            assert(all.take(i + 1) =~= all.take(i as int).push(x));
        }
        i = i + 1;
    }
    assert(all.take(all.len() as int) =~= all);
    r
}

proof fn lemma_set_push(s: Seq<Seq<char>>, x: Seq<char>)
    ensures
        s.push(x).to_set() == s.to_set().insert(x),
{
    assert forall|y: Seq<char>| s.push(x).to_set().contains(y) <==> #[trigger] s.to_set().insert(
        x,
    ).contains(y) by {
        if s.contains(y) {
            let i = choose|i: int| 0 <= i < s.len() && s[i] == y;
            assert(s.push(x)[i] == y);
        }
        assert(s.push(x)[s.len() as int] == x);
    }
    assert(s.push(x).to_set() =~= s.to_set().insert(x));
}

/// How many tags two lists share, and how many the smaller one has.
pub fn tag_overlap(a: &Vec<String>, b: &Vec<String>) -> (r: (usize, usize))
    ensures
        r.0 == overlap(texts(a@), texts(b@)).0,
        r.1 == overlap(texts(a@), texts(b@)).1,
{
    let da = distinct(a);
    let db = distinct(b);
    let ghost sa = texts(da@);
    let ghost sb = texts(b@).to_set();
    let mut shared: Vec<String> = Vec::new();
    let mut i: usize = 0;
    assert(texts(shared@).to_set() =~= sa.take(0).to_set().intersect(sb));
    while i < da.len()
        invariant
            i <= da@.len(),
            sa == texts(da@),
            sa.no_duplicates(),
            sb == texts(b@).to_set(),
            texts(shared@).no_duplicates(),
            texts(shared@).to_set() == sa.take(i as int).to_set().intersect(sb),
        decreases da@.len() - i,
    {
        assert(sa[i as int] == da@[i as int]@);
        let ghost x = sa[i as int];
        proof {
            lemma_set_push(sa.take(i as int), x);
            assert(sa.take(i + 1) =~= sa.take(i as int).push(x));
            lemma_set_push(texts(shared@), x);
        }
        if has_text(b, da[i].as_str()) {
            let ghost before = texts(shared@);
            assert(!before.contains(x)) by {
                if before.contains(x) {
                    assert(before.to_set().contains(x));
                    assert(sa.take(i as int).to_set().contains(x));
                    let k = choose|k: int| 0 <= k < i && sa.take(i as int)[k] == x;
                    assert(sa[k] == sa[i as int]);
                }
            }
            shared.push(da[i].clone());
            assert(texts(shared@) =~= before.push(x));
            assert(sb.contains(x));
            assert(sa.take(i + 1).to_set().intersect(sb) =~= sa.take(i as int).to_set().intersect(
                sb,
            ).insert(x));
        } else {
            assert(!sb.contains(x));
            assert(sa.take(i + 1).to_set().intersect(sb) =~= sa.take(i as int).to_set().intersect(
                sb,
            ));
        }
        i = i + 1;
    }
    assert(sa.take(sa.len() as int) =~= sa);
    proof {
        texts(shared@).unique_seq_to_set();
        texts(da@).unique_seq_to_set();
        texts(db@).unique_seq_to_set();
        assert(texts(shared@).len() == shared@.len());
        assert(texts(da@).len() == da@.len());
        assert(texts(db@).len() == db@.len());
    }
    let least: usize = if da.len() <= db.len() {
        da.len()
    } else {
        db.len()
    };
    (shared.len(), least)
}

/// Whether more than half of the smaller list is in the other.
pub fn tags_overlap(a: &Vec<String>, b: &Vec<String>) -> (r: bool)
    ensures
        r == overlaps(texts(a@), texts(b@)),
{
    let (shared, least) = tag_overlap(a, b);
    shared as u128 * 2 > least as u128
}

/// The two lists as one: the tags of the first, then those of the second that
/// are not there yet.
pub open spec fn merged(existing: Seq<Seq<char>>, new: Seq<Seq<char>>) -> Seq<Seq<char>>
    decreases new.len(),
{
    if new.len() == 0 {
        existing
    } else {
        let rest = merged(existing, new.drop_last());
        if rest.contains(new.last()) {
            rest
        } else {
            rest.push(new.last())
        }
    }
}

/// Merging loses no tag, adds none, and keeps the first list in front.
pub proof fn law_merged(existing: Seq<Seq<char>>, new: Seq<Seq<char>>, t: Seq<char>)
    ensures
        merged(existing, new).contains(t) <==> existing.contains(t) || new.contains(t),
        existing.is_prefix_of(merged(existing, new)),
    decreases new.len(),
{
    if new.len() > 0 {
        let rest = new.drop_last();
        law_merged(existing, rest, t);
        let a = merged(existing, rest);
        let b = merged(existing, new);
        assert(new[new.len() - 1] == new.last());
        if a.contains(t) {
            let i = choose|i: int| 0 <= i < a.len() && a[i] == t;
            assert(b[i] == t);
        }
        if rest.contains(t) {
            let i = choose|i: int| 0 <= i < rest.len() && rest[i] == t;
            assert(new[i] == t);
        }
        if new.contains(t) && !rest.contains(t) {
            let i = choose|i: int| 0 <= i < new.len() && new[i] == t;
            if i < rest.len() {
                assert(rest[i] == t);
            }
            if !a.contains(t) {
                assert(b[a.len() as int] == t);
            }
        }
        if b.contains(t) {
            let i = choose|i: int| 0 <= i < b.len() && b[i] == t;
            if i < a.len() {
                assert(a[i] == t);
            }
        }
    }
}

/// Merges two tag lists, preserving order and deduplicating.
///
/// Tags from `existing` come first; new tags not already present are appended.
pub fn merge_tags(existing: &Vec<String>, new: &Vec<String>) -> (r: Vec<String>)
    ensures
        texts(r@) == merged(texts(existing@), texts(new@)),
{
    let ghost all = texts(new@);
    let mut r = clone_texts(existing);
    let mut i: usize = 0;
    assert(all.take(0) =~= Seq::empty());
    while i < new.len()
        invariant
            i <= new@.len(),
            all == texts(new@),
            texts(r@) == merged(texts(existing@), all.take(i as int)),
        decreases new@.len() - i,
    {
        assert(all.take(i + 1).drop_last() =~= all.take(i as int));
        assert(all[i as int] == new@[i as int]@);
        if !has_text(&r, new[i].as_str()) {
            let ghost before = r@;
            r.push(new[i].clone());
            assert(texts(r@) =~= texts(before).push(all[i as int]));
        }
        i = i + 1;
    }
    assert(all.take(all.len() as int) =~= all);
    r
}

/// An entry with the title `key` and these tags belongs to the existing one
/// with the title `existing_key`, both in lower case: the titles are the same,
/// or one is in the other and more than half of the tags are shared.
pub open spec fn belongs(
    existing_key: Seq<char>,
    existing_tags: Seq<Seq<char>>,
    key: Seq<char>,
    tags: Seq<Seq<char>>,
) -> bool {
    existing_key == key || (overlaps(existing_tags, tags) && (contains(key, existing_key)
        || contains(existing_key, key)))
}

/// Whether an entry belongs to an existing one, given their titles in lower
/// case.
pub fn is_same_entry(
    existing_key: &str,
    existing_tags: &Vec<String>,
    key: &str,
    tags: &Vec<String>,
) -> (r: bool)
    ensures
        r == belongs(existing_key@, texts(existing_tags@), key@, texts(tags@)),
{
    same(existing_key, key) || (tags_overlap(existing_tags, tags) && (has(key, existing_key)
        || has(existing_key, key)))
}

/// The place of the first existing entry that the entry belongs to.
pub open spec fn dedup_target(
    existing: Seq<EntryView>,
    title: Seq<char>,
    tags: Seq<Seq<char>>,
    from: int,
) -> Option<int>
    decreases existing.len() - from,
{
    if 0 <= from < existing.len() {
        if belongs(lowercase(existing[from].title), existing[from].tags, lowercase(title), tags) {
            Some(from)
        } else {
            dedup_target(existing, title, tags, from + 1)
        }
    } else {
        None
    }
}

/// Finds an existing knowledge entry to update instead of creating a new one:
/// one with the same title (case-insensitive), or one with >50% tag overlap and
/// a substring title match.
pub fn find_dedup_target(
    existing: &Vec<KnowledgeEntry>,
    title: &str,
    tags: &Vec<String>,
) -> (r: Option<usize>)
    ensures
        match r {
            Some(i) => i < existing@.len() && dedup_target(
                entry_views(existing@),
                title@,
                texts(tags@),
                0,
            ) == Some(i as int),
            None => dedup_target(entry_views(existing@), title@, texts(tags@), 0) is None,
        },
{
    let key = lower(title);
    let ghost all = entry_views(existing@);
    let mut i: usize = 0;
    while i < existing.len()
        invariant
            i <= existing@.len(),
            key@ == lowercase(title@),
            all == entry_views(existing@),
            dedup_target(all, title@, texts(tags@), 0) == dedup_target(
                all,
                title@,
                texts(tags@),
                i as int,
            ),
        decreases existing@.len() - i,
    {
        assert(all[i as int] == existing@[i as int]@);
        let existing_key = lower(existing[i].title.as_str());
        if is_same_entry(existing_key.as_str(), &existing[i].tags, key.as_str(), tags) {
            return Some(i);
        }
        i = i + 1;
    }
    None
}

/// The first words of a text, with a mark, where it has more than `max_words`.
pub open spec fn cut_to_words(text: Seq<char>, max_words: nat) -> Seq<char> {
    if words(text).len() <= max_words {
        text
    } else {
        join(words(text).take(max_words as int), " "@) + " [truncated]"@
    }
}

/// Truncates body text to `max_words` words. Appends `[truncated]` if truncated.
pub fn truncate_to_words(text: &str, max_words: usize) -> (r: String)
    ensures
        r@ == cut_to_words(text@, max_words as nat),
{
    let all = words_of(text);
    assert(texts(all@).len() == all@.len());
    if all.len() <= max_words {
        return text.to_owned();
    }
    let mut kept: Vec<String> = Vec::new();
    let mut i: usize = 0;
    while i < max_words
        invariant
            i <= max_words < all@.len(),
            texts(kept@) == texts(all@).take(i as int),
        decreases max_words - i,
    {
        let ghost before = kept@;
        kept.push(all[i].clone());
        assert(texts(kept@) =~= texts(before).push(all@[i as int]@));
        assert(texts(all@).take(i + 1) =~= texts(all@).take(i as int).push(all@[i as int]@));
        i = i + 1;
    }
    let mut r = joined(&kept, " ");
    r.append(" [truncated]");
    r
}

/// The line of the frontmatter that names the feature.
pub open spec fn feature_line(feature: Option<Seq<char>>) -> Seq<char> {
    match feature {
        Some(f) => "feature: \""@ + f + "\"\n"@,
        None => Seq::empty(),
    }
}

/// The text of the file that holds an entry.
pub open spec fn file_text(
    title: Seq<char>,
    tags: Seq<Seq<char>>,
    feature: Option<Seq<char>>,
    now: Seq<char>,
    body: Seq<char>,
) -> Seq<char> {
    "---\ntitle: \""@ + title + "\"\ntags: ["@ + join(tags, ", "@) + "]\n"@ + feature_line(feature)
        + "created_at: \""@ + now + "\"\n---\n\n"@ + body + "\n"@
}

/// The text of the file that holds an entry.
pub fn entry_file(
    title: &str,
    tags: &Vec<String>,
    feature: Option<&str>,
    now: &str,
    body: &str,
) -> (r: String)
    ensures
        r@ == file_text(title@, texts(tags@), opt_str(feature), now@, body@),
{
    let mut line = String::new();
    match feature {
        Some(f) => {
            line = "feature: \"".to_owned();
            line.append(f);
            line.append("\"\n");
        },
        None => {
            assert(line@ =~= Seq::empty());
        },
    }
    let list = joined(tags, ", ");
    let mut r = "---\ntitle: \"".to_owned();
    r.append(title);
    r.append("\"\ntags: [");
    r.append(list.as_str());
    r.append("]\n");
    r.append(line.as_str());
    r.append("created_at: \"");
    r.append(now);
    r.append("\"\n---\n\n");
    r.append(body);
    r.append("\n");
    r
}

/// The place of the first file at `path`.
pub open spec fn held_by(files: Seq<KnowledgeFile>, path: Seq<char>, from: int) -> Option<int>
    decreases files.len() - from,
{
    if 0 <= from < files.len() {
        if files[from].path@ == path {
            Some(from)
        } else {
            held_by(files, path, from + 1)
        }
    } else {
        None
    }
}

/// Where the file at `path` stands.
fn find_held_by(files: &Vec<KnowledgeFile>, path: &str) -> (r: Option<usize>)
    ensures
        match r {
            Some(i) => i < files@.len() && held_by(files@, path@, 0) == Some(i as int),
            None => held_by(files@, path@, 0) is None,
        },
{
    let mut i: usize = 0;
    while i < files.len()
        invariant
            i <= files@.len(),
            held_by(files@, path@, 0) == held_by(files@, path@, i as int),
        decreases files@.len() - i,
    {
        if same(files[i].path.as_str(), path) {
            return Some(i);
        }
        i = i + 1;
    }
    None
}

/// A file to be written.
#[derive(Debug)]
pub struct FileWrite {
    pub path: String,
    pub content: String,
}

/// The path at which an entry is written: that of the entry it belongs to, or
/// one made of its slug.
pub open spec fn entry_path(
    kb_dir: Seq<char>,
    existing: Seq<EntryView>,
    title: Seq<char>,
    tags: Seq<Seq<char>>,
) -> Seq<char> {
    match dedup_target(existing, title, tags, 0) {
        Some(i) => existing[i].file_path,
        None => kb_dir + "/"@ + slug(title) + ".md"@,
    }
}

/// The tags with which an entry is written to `path`: merged with those of the
/// entry that the file there holds, whatever the file's name.
pub open spec fn entry_tags(
    files: Seq<KnowledgeFile>,
    path: Seq<char>,
    tags: Seq<Seq<char>>,
) -> Seq<Seq<char>> {
    match held_by(files, path, 0) {
        Some(i) => match parsed_entry(files[i].content@) {
            Some(e) => merged(e.tags, tags),
            None => tags,
        },
        None => tags,
    }
}

/// Works out the file that a knowledge entry is written to, handling
/// deduplication against the files that the directory holds.
///
/// - Exact title match: replace existing file content.
/// - >50% tag overlap and substring title match: update existing file with
///   merged tags.
/// - Otherwise: create new file at `{slug}.md`.
///
/// The body is truncated to 500 words. An entry without tags is refused.
pub fn write_knowledge_entry(
    kb_dir: &str,
    files: &Vec<KnowledgeFile>,
    sigil: &KnowledgeSigil,
    feature: Option<&str>,
    now: &str,
) -> (r: Result<FileWrite, String>)
    ensures
        r is Ok <==> sigil.tags@.len() > 0,
        r is Err ==> r->Err_0@ == "Knowledge entry '"@ + sigil.title@ + "' has no tags"@,
        r is Ok ==> ({
            let path = entry_path(
                kb_dir@,
                entries_of(files@),
                sigil.title@,
                texts(sigil.tags@),
            );
            &&& r->Ok_0.path@ == path
            &&& r->Ok_0.content@ == file_text(
                sigil.title@,
                entry_tags(files@, path, texts(sigil.tags@)),
                opt_str(feature),
                now@,
                cut_to_words(sigil.body@, 500),
            )
        }),
{
    if sigil.tags.len() == 0 {
        let mut e = "Knowledge entry '".to_owned();
        e.append(sigil.title.as_str());
        e.append("' has no tags");
        return Err(e);
    }
    let body = truncate_to_words(sigil.body.as_str(), 500);
    let existing = discover_knowledge(files);
    let ghost all = entry_views(existing@);
    let path = match find_dedup_target(&existing, sigil.title.as_str(), &sigil.tags) {
        Some(i) => {
            assert(all[i as int] == existing@[i as int]@);
            existing[i].file_path.clone()
        },
        None => {
            let mut p = kb_dir.to_owned();
            p.append("/");
            p.append(slugify_title(sigil.title.as_str()).as_str());
            p.append(".md");
            p
        },
    };
    let tags = match find_held_by(files, path.as_str()) {
        Some(i) => match parse_knowledge_frontmatter(files[i].content.as_str()) {
            Some(e) => merge_tags(&e.tags, &sigil.tags),
            None => clone_texts(&sigil.tags),
        },
        None => clone_texts(&sigil.tags),
    };
    let content = entry_file(sigil.title.as_str(), &tags, feature, now, body.as_str());
    Ok(FileWrite { path, content })
}

} // verus!
