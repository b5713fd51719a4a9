//! Knowledge entries and the files that hold them.

use vstd::prelude::*;

use crate::text::basic::{chars_of, clone_opt, clone_texts, opt_text, slice_text, texts};
use crate::text::case::{tag_list, tags_of};
use crate::text::search::{begins, ends, ends_with, find_chars, find_from, starts_with};
use crate::text::shape::{
    after_prefix, lines, lines_of, text_after_prefix, trim, trim_both, trim_end, trim_start,
    trimmed, trimmed_both, trimmed_end, trimmed_start, Class,
};

verus! {

/// A single knowledge base entry parsed from a `.ralph/knowledge/*.md` file.
#[derive(Debug)]
pub struct KnowledgeEntry {
    pub title: String,
    pub tags: Vec<String>,
    pub feature: Option<String>,
    pub body: String,
    pub created_at: String,
    /// Resolved path of the file in `.ralph/knowledge/`.
    pub file_path: String,
}

/// What a knowledge entry holds.
pub struct EntryView {
    pub title: Seq<char>,
    pub tags: Seq<Seq<char>>,
    pub feature: Option<Seq<char>>,
    pub body: Seq<char>,
    pub created_at: Seq<char>,
    pub file_path: Seq<char>,
}

impl View for KnowledgeEntry {
    type V = EntryView;

    open spec fn view(&self) -> EntryView {
        EntryView {
            title: self.title@,
            tags: texts(self.tags@),
            feature: opt_text(self.feature),
            body: self.body@,
            created_at: self.created_at@,
            file_path: self.file_path@,
        }
    }
}

impl Clone for KnowledgeEntry {
    fn clone(&self) -> (r: Self)
        ensures
            r@ == self@,
    {
        KnowledgeEntry {
            title: self.title.clone(),
            tags: clone_texts(&self.tags),
            feature: clone_opt(&self.feature),
            body: self.body.clone(),
            created_at: self.created_at.clone(),
            file_path: self.file_path.clone(),
        }
    }
}

/// The views of a list of entries.
pub open spec fn entry_views(v: Seq<KnowledgeEntry>) -> Seq<EntryView> {
    v.map_values(|e: KnowledgeEntry| e@)
}

/// What the frontmatter of a file says.
pub struct Fields {
    pub title: Option<Seq<char>>,
    pub tags: Seq<Seq<char>>,
    pub feature: Option<Seq<char>>,
    pub created_at: Option<Seq<char>>,
}

/// The value of a field: trimmed, without quotes around it.
pub open spec fn field_value(v: Seq<char>) -> Seq<char> {
    trim_both(trim(v), Class::Only('"'))
}

/// The tags of a field: a list in brackets.
pub open spec fn field_tags(v: Seq<char>) -> Seq<Seq<char>> {
    tag_list(trim_end(trim_start(trim(v), Class::Only('[')), Class::Only(']')))
}

/// What the frontmatter says with one line more. A later line of a field takes
/// the place of an earlier one.
pub open spec fn with_line(f: Fields, raw: Seq<char>) -> Fields {
    let line = trim(raw);
    match after_prefix(line, "title:"@) {
        Some(v) => Fields { title: Some(field_value(v)), ..f },
        None => match after_prefix(line, "tags:"@) {
            Some(v) => Fields { tags: field_tags(v), ..f },
            None => match after_prefix(line, "feature:"@) {
                Some(v) => Fields { feature: Some(field_value(v)), ..f },
                None => match after_prefix(line, "created_at:"@) {
                    Some(v) => Fields { created_at: Some(field_value(v)), ..f },
                    None => f,
                },
            },
        },
    }
}

/// What the lines of a frontmatter say.
pub open spec fn fields_of(p: Seq<Seq<char>>) -> Fields
    decreases p.len(),
{
    if p.len() == 0 {
        Fields { title: None, tags: Seq::empty(), feature: None, created_at: None }
    } else {
        with_line(fields_of(p.drop_last()), p.last())
    }
}

/// The entry that a file holds: one with a frontmatter between two `---`, a
/// title and at least one tag.
pub open spec fn parsed_entry(content: Seq<char>) -> Option<EntryView> {
    let s = trim(content);
    if !starts_with(s, "---"@) {
        None
    } else {
        match find_from(s, "---"@, 3) {
            None => None,
            Some(end) => {
                let f = fields_of(lines(s.subrange(3, end)));
                if f.title is None || f.tags.len() == 0 {
                    None
                } else {
                    Some(
                        EntryView {
                            title: f.title->0,
                            tags: f.tags,
                            feature: f.feature,
                            body: trim(s.subrange(end + 3, s.len() as int)),
                            created_at: match f.created_at {
                                Some(t) => t,
                                None => Seq::empty(),
                            },
                            file_path: Seq::empty(),
                        },
                    )
                }
            },
        }
    }
}

/// The value of a field.
fn read_value(v: &str) -> (r: String)
    ensures
        r@ == field_value(v@),
{
    trimmed_both(trimmed(v).as_str(), Class::Only('"'))
}

/// The tags of a field.
fn read_tags(v: &str) -> (r: Vec<String>)
    ensures
        texts(r@) == field_tags(v@),
{
    let inner = trimmed_end(
        trimmed_start(trimmed(v).as_str(), Class::Only('[')).as_str(),
        Class::Only(']'),
    );
    tags_of(inner.as_str())
}

/// Parses YAML frontmatter from a knowledge `.md` file.
///
/// Extracts `title`, `tags` (YAML array format: `[tag1, tag2]`), `feature`,
/// and `created_at` from the frontmatter block delimited by `---`. Returns
/// `None` where there is no such block, no title or no tag. The file path of
/// the entry is left empty.
pub fn parse_knowledge_frontmatter(content: &str) -> (r: Option<KnowledgeEntry>)
    ensures
        match r {
            Some(e) => parsed_entry(content@) == Some(e@),
            None => parsed_entry(content@) is None,
        },
{
    let whole = trimmed(content);
    if !begins(whole.as_str(), "---") {
        return None;
    }
    proof {
        reveal_strlit("---");
    }
    let cs = chars_of(whole.as_str());
    let mark = chars_of("---");
    let end: usize = match find_chars(&cs, &mark, 3) {
        None => {
            return None;
        },
        Some(e) => e,
    };
    let front = slice_text(&cs, 3, end);
    let rest = slice_text(&cs, end + 3, cs.len());
    let body = trimmed(rest.as_str());
    let mut title: Option<String> = None;
    let mut tags: Vec<String> = Vec::new();
    let mut feature: Option<String> = None;
    let mut created_at: Option<String> = None;
    let all_lines = lines_of(front.as_str());
    let ghost all = lines(front@);
    let mut i: usize = 0;
    assert(texts(tags@) =~= Seq::empty());
    assert(all.take(0) =~= Seq::empty());
    while i < all_lines.len()
        invariant
            i <= all_lines@.len(),
            all == texts(all_lines@),
            ({
                let f = fields_of(all.take(i as int));
                &&& opt_text(title) == f.title
                &&& texts(tags@) == f.tags
                &&& opt_text(feature) == f.feature
                &&& opt_text(created_at) == f.created_at
            }),
        decreases all_lines@.len() - i,
    {
        assert(all.take(i + 1).drop_last() =~= all.take(i as int));
        assert(all[i as int] == all_lines@[i as int]@);
        let line = trimmed(all_lines[i].as_str());
        match text_after_prefix(line.as_str(), "title:") {
            Some(v) => {
                title = Some(read_value(v.as_str()));
            },
            None => match text_after_prefix(line.as_str(), "tags:") {
                Some(v) => {
                    tags = read_tags(v.as_str());
                },
                None => match text_after_prefix(line.as_str(), "feature:") {
                    Some(v) => {
                        feature = Some(read_value(v.as_str()));
                    },
                    None => match text_after_prefix(line.as_str(), "created_at:") {
                        Some(v) => {
                            created_at = Some(read_value(v.as_str()));
                        },
                        None => {},
                    },
                },
            },
        }
        i = i + 1;
    }
    assert(all.take(all.len() as int) =~= all);
    assert(texts(tags@).len() == tags@.len());
    let title = match title {
        Some(t) => t,
        None => {
            return None;
        },
    };
    if tags.len() == 0 {
        return None;
    }
    let created_at = match created_at {
        Some(t) => t,
        None => String::new(),
    };
    let entry = KnowledgeEntry {
        title,
        tags,
        feature,
        body,
        created_at,
        file_path: String::new(),
    };
    assert(entry@.file_path =~= Seq::empty());
    assert(fields_of(all).created_at is None ==> entry@.created_at =~= Seq::empty());
    Some(entry)
}

/// A file of the knowledge directory.
#[derive(Debug)]
pub struct KnowledgeFile {
    /// The file's name, without its directory.
    pub name: String,
    /// Its path.
    pub path: String,
    /// What it holds.
    pub content: String,
}

/// The name has the extension `md` behind a stem.
pub open spec fn is_markdown(name: Seq<char>) -> bool {
    ends_with(name, ".md"@) && name.len() > 3
}

/// The entry of a file, with its path, where it holds one.
pub open spec fn entry_of_file(f: KnowledgeFile) -> Option<EntryView> {
    if is_markdown(f.name@) {
        match parsed_entry(f.content@) {
            Some(e) => Some(EntryView { file_path: f.path@, ..e }),
            None => None,
        }
    } else {
        None
    }
}

/// The entries of the files, in the order of the files.
pub open spec fn entries_of(files: Seq<KnowledgeFile>) -> Seq<EntryView>
    decreases files.len(),
{
    if files.len() == 0 {
        Seq::empty()
    } else {
        match entry_of_file(files.last()) {
            Some(e) => entries_of(files.drop_last()).push(e),
            None => entries_of(files.drop_last()),
        }
    }
}

/// All valid entries of the files in the knowledge directory. Files of another
/// kind and those with malformed or missing frontmatter are skipped.
pub fn discover_knowledge(files: &Vec<KnowledgeFile>) -> (r: Vec<KnowledgeEntry>)
    ensures
        entry_views(r@) == entries_of(files@),
{
    let mut r: Vec<KnowledgeEntry> = Vec::new();
    let mut i: usize = 0;
    assert(entry_views(r@) =~= Seq::empty());
    assert(files@.take(0) =~= Seq::empty());
    while i < files.len()
        invariant
            i <= files@.len(),
            entry_views(r@) == entries_of(files@.take(i as int)),
        decreases files@.len() - i,
    {
        assert(files@.take(i + 1).drop_last() =~= files@.take(i as int));
        let f = &files[i];
        if ends(f.name.as_str(), ".md") && chars_of(f.name.as_str()).len() > 3 {
            match parse_knowledge_frontmatter(f.content.as_str()) {
                Some(e) => {
                    let mut e = e;
                    e.file_path = f.path.clone();
                    let ghost before = r@;
                    r.push(e);
                    assert(entry_views(r@) =~= entry_views(before).push(e@));
                },
                None => {},
            }
        }
        i = i + 1;
    }
    assert(files@.take(files@.len() as int) =~= files@);
    r
}

} // verus!
