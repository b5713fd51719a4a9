//! Sigil extraction from accumulated agent output text.

use vstd::prelude::*;

use crate::acp::types::{
    knowledge_views, KnowledgeSigil, KnowledgeSigilView, SigilResult, SigilView,
};
use crate::text::basic::{chars_of, opt_text, same, slice_text, texts};
use crate::text::case::{tag_list, tags_of};
use crate::text::search::{
    between, contains, find_chars, find_from, has, lemma_find_least, occurs_at, text_between,
};
use crate::text::shape::{trim, trimmed};

verus! {

/// Sigil for the COMPLETE promise.
pub const COMPLETE_SIGIL: &'static str = "<promise>COMPLETE</promise>";

/// Sigil for the FAILURE promise.
pub const FAILURE_SIGIL: &'static str = "<promise>FAILURE</promise>";

/// The trimmed content of the first `open`..`close` in the text.
pub open spec fn tag_content(s: Seq<char>, open: Seq<char>, close: Seq<char>) -> Option<Seq<char>> {
    match between(s, open, close) {
        Some(t) => Some(trim(t)),
        None => None,
    }
}

/// The trimmed content of the first `open`..`close`, where it is not empty.
pub open spec fn filled_content(s: Seq<char>, open: Seq<char>, close: Seq<char>) -> Option<
    Seq<char>,
> {
    match tag_content(s, open, close) {
        Some(t) => if t.len() > 0 {
            Some(t)
        } else {
            None
        },
        None => None,
    }
}

/// The names of models.
pub open spec fn is_model(s: Seq<char>) -> bool {
    s == "opus"@ || s == "sonnet"@ || s == "haiku"@
}

/// The names of phases.
pub open spec fn is_phase(s: Seq<char>) -> bool {
    s == "spec"@ || s == "plan"@ || s == "build"@
}

/// The model that the text asks for.
pub open spec fn model_hint(s: Seq<char>) -> Option<Seq<char>> {
    match tag_content(s, "<next-model>"@, "</next-model>"@) {
        Some(t) => if is_model(t) {
            Some(t)
        } else {
            None
        },
        None => None,
    }
}

/// The phase that the text reports as complete.
pub open spec fn phase_complete(s: Seq<char>) -> Option<Seq<char>> {
    match tag_content(s, "<phase-complete>"@, "</phase-complete>"@) {
        Some(t) => if is_phase(t) {
            Some(t)
        } else {
            None
        },
        None => None,
    }
}

/// The text reports that tasks were created.
pub open spec fn tasks_created(s: Seq<char>) -> bool {
    contains(s, "<tasks-created>"@) || contains(s, "<tasks-created/>"@) || contains(
        s,
        "<tasks-created />"@,
    )
}

/// The value of an attribute in a tag's attribute text.
pub open spec fn attribute(s: Seq<char>, name: Seq<char>) -> Option<Seq<char>> {
    between(s, name + "=\""@, "\""@)
}

/// The knowledge entry of one sigil, where it has a title, tags and a body.
pub open spec fn knowledge_entry(attrs: Seq<char>, inner: Seq<char>) -> Seq<KnowledgeSigilView> {
    let body = trim(inner);
    match (attribute(attrs, "title"@), attribute(attrs, "tags"@)) {
        (Some(title), Some(list)) => if tag_list(list).len() > 0 && body.len() > 0 {
            seq![KnowledgeSigilView { title, tags: tag_list(list), body }]
        } else {
            Seq::empty()
        },
        _ => Seq::empty(),
    }
}

/// The knowledge entries of the text from `from` on. The search ends at an
/// opening tag that is not closed.
pub open spec fn knowledge_from(s: Seq<char>, from: int) -> Seq<KnowledgeSigilView>
    decreases s.len() - from,
{
    match find_from(s, "<knowledge "@, from) {
        None => Seq::empty(),
        Some(a) => {
            let attrs = a + "<knowledge "@.len();
            match find_from(s, ">"@, attrs) {
                None => Seq::empty(),
                Some(e) => match find_from(s, "</knowledge>"@, e + 1) {
                    None => Seq::empty(),
                    Some(c) => {
                        let next = c + "</knowledge>"@.len();
                        let entry = knowledge_entry(s.subrange(attrs, e), s.subrange(e + 1, c));
                        if from < next <= s.len() {
                            entry + knowledge_from(s, next)
                        } else {
                            entry
                        }
                    },
                },
            }
        },
    }
}

/// All sigils of the text.
pub open spec fn sigils(s: Seq<char>) -> SigilView {
    SigilView {
        task_done: filled_content(s, "<task-done>"@, "</task-done>"@),
        task_failed: filled_content(s, "<task-failed>"@, "</task-failed>"@),
        next_model_hint: model_hint(s),
        journal_notes: filled_content(s, "<journal>"@, "</journal>"@),
        knowledge_entries: knowledge_from(s, 0),
        is_complete: contains(s, COMPLETE_SIGIL@),
        is_failure: contains(s, FAILURE_SIGIL@),
    }
}

/// A sigil written into a text is read back from it: the trimmed content comes
/// out, where no opening tag stands before it and no closing tag inside it.
pub proof fn law_sigil_reads_back(
    before: Seq<char>,
    open: Seq<char>,
    inner: Seq<char>,
    close: Seq<char>,
    after: Seq<char>,
)
    requires
        forall|i: int| 0 <= i < before.len() ==> !#[trigger] occurs_at(
            before + open + inner + close + after,
            open,
            i,
        ),
        forall|i: int|
            before.len() + open.len() <= i < before.len() + open.len() + inner.len()
                ==> !#[trigger] occurs_at(before + open + inner + close + after, close, i),
    ensures
        tag_content(before + open + inner + close + after, open, close) == Some(trim(inner)),
{
    let s = before + open + inner + close + after;
    let a = before.len() as int;
    let c = a + open.len() + inner.len();
    assert(s.subrange(a, a + open.len()) =~= open);
    assert(s.subrange(c, c + close.len()) =~= close);
    assert(s.subrange(a + open.len(), c) =~= inner);
    lemma_tag_at(s, open, close, a, c);
}

/// What stands between an opening tag and the closing tag that follows it.
proof fn lemma_tag_at(s: Seq<char>, open: Seq<char>, close: Seq<char>, a: int, c: int)
    requires
        occurs_at(s, open, a),
        occurs_at(s, close, c),
        a + open.len() <= c,
        forall|i: int| 0 <= i < a ==> !#[trigger] occurs_at(s, open, i),
        forall|i: int| a + open.len() <= i < c ==> !#[trigger] occurs_at(s, close, i),
    ensures
        tag_content(s, open, close) == Some(trim(s.subrange(a + open.len(), c))),
{
    lemma_find_least(s, open, 0);
    lemma_find_least(s, close, a + open.len());
}

/// A model hint is one of the models.
pub proof fn law_model_hint_is_valid(s: Seq<char>)
    ensures
        match model_hint(s) {
            Some(m) => is_model(m),
            None => true,
        },
{
}

/// The trimmed content of the first `open`..`close` in the text.
fn parse_tag(text: &str, open: &str, close: &str) -> (r: Option<String>)
    ensures
        opt_text(r) == tag_content(text@, open@, close@),
{
    match text_between(text, open, close) {
        Some(t) => Some(trimmed(t.as_str())),
        None => None,
    }
}

/// The trimmed content of the first `open`..`close`, where it is not empty.
fn parse_filled(text: &str, open: &str, close: &str) -> (r: Option<String>)
    ensures
        opt_text(r) == filled_content(text@, open@, close@),
{
    match parse_tag(text, open, close) {
        Some(t) => if t.as_str().is_empty() {
            None
        } else {
            Some(t)
        },
        None => None,
    }
}

/// Parses the `<next-model>...</next-model>` sigil from result text.
///
/// Returns `Some(model)` if a valid model name is found between the tags,
/// `None` if the sigil is absent or contains an invalid model name.
pub fn parse_next_model_hint(text: &str) -> (r: Option<String>)
    ensures
        opt_text(r) == model_hint(text@),
{
    match parse_tag(text, "<next-model>", "</next-model>") {
        Some(m) => if same(m.as_str(), "opus") || same(m.as_str(), "sonnet") || same(
            m.as_str(),
            "haiku",
        ) {
            Some(m)
        } else {
            None
        },
        None => None,
    }
}

/// Parses the `<task-done>...</task-done>` sigil from result text.
///
/// Returns `Some(task_id)` if a task ID is found between the tags, `None` if
/// the sigil is absent or malformed. Whitespace is trimmed.
pub fn parse_task_done(text: &str) -> (r: Option<String>)
    ensures
        opt_text(r) == filled_content(text@, "<task-done>"@, "</task-done>"@),
{
    parse_filled(text, "<task-done>", "</task-done>")
}

/// Parses the `<task-failed>...</task-failed>` sigil from result text.
///
/// Returns `Some(task_id)` if a task ID is found between the tags, `None` if
/// the sigil is absent or malformed. Whitespace is trimmed.
pub fn parse_task_failed(text: &str) -> (r: Option<String>)
    ensures
        opt_text(r) == filled_content(text@, "<task-failed>"@, "</task-failed>"@),
{
    parse_filled(text, "<task-failed>", "</task-failed>")
}

/// Parses the `<journal>...</journal>` sigil from result text.
///
/// Returns `Some(notes)` if non-empty content is found between the tags, `None`
/// if the sigil is absent or the content is empty. Whitespace is trimmed.
pub fn parse_journal_sigil(text: &str) -> (r: Option<String>)
    ensures
        opt_text(r) == filled_content(text@, "<journal>"@, "</journal>"@),
{
    parse_filled(text, "<journal>", "</journal>")
}

/// Extracts an attribute value from a tag's attribute string.
///
/// Looks for `attr_name="value"` in the tag content. Returns `None` if not found.
/// Handles attributes appearing in any order.
pub fn extract_attribute(tag_content: &str, attr_name: &str) -> (r: Option<String>)
    ensures
        opt_text(r) == attribute(tag_content@, attr_name@),
{
    let mut pattern = attr_name.to_owned();
    pattern.append("=\"");
    text_between(tag_content, pattern.as_str(), "\"")
}

/// The knowledge entry of one sigil, where it has a title, tags and a body.
fn parse_knowledge_entry(attrs: &str, inner: &str) -> (r: Option<KnowledgeSigil>)
    ensures
        match r {
            Some(k) => knowledge_entry(attrs@, inner@) == seq![k@],
            None => knowledge_entry(attrs@, inner@) == Seq::<KnowledgeSigilView>::empty(),
        },
{
    let title = extract_attribute(attrs, "title");
    let list = extract_attribute(attrs, "tags");
    let body = trimmed(inner);
    match (title, list) {
        (Some(title), Some(list)) => {
            let tags = tags_of(list.as_str());
            assert(texts(tags@).len() == tags@.len());
            if tags.len() > 0 && !body.as_str().is_empty() {
                Some(KnowledgeSigil { title, tags, body })
            } else {
                None
            }
        },
        _ => None,
    }
}

/// Parses all `<knowledge tags="..." title="...">...</knowledge>` sigils from
/// result text.
///
/// Returns an entry for each valid sigil found. Entries missing required
/// attributes (`tags`, `title`) or with an empty body are skipped.
pub fn parse_knowledge_sigils(text: &str) -> (r: Vec<KnowledgeSigil>)
    ensures
        knowledge_views(r@) == knowledge_from(text@, 0),
{
    let t = chars_of(text);
    let open = chars_of("<knowledge ");
    let gt = chars_of(">");
    let close = chars_of("</knowledge>");
    let mut entries: Vec<KnowledgeSigil> = Vec::new();
    let mut from: usize = 0;
    let ghost goal = knowledge_from(text@, 0);
    proof {
        reveal_strlit(">");
        reveal_strlit("</knowledge>");
    }
    assert(knowledge_views(entries@) =~= Seq::empty());
    loop
        invariant_except_break
            goal == knowledge_views(entries@) + knowledge_from(text@, from as int),
        invariant
            t@ == text@,
            open@ == "<knowledge "@,
            gt@ == ">"@,
            close@ == "</knowledge>"@,
            gt@.len() == 1,
            close@.len() == 12,
            from <= t@.len(),
        ensures
            goal == knowledge_views(entries@),
        decreases t@.len() - from,
    {
        let ghost kv = knowledge_views(entries@);
        let a: usize = match find_chars(&t, &open, from) {
            None => {
                assert(kv + knowledge_from(text@, from as int) =~= kv);
                break;
            },
            Some(a) => a,
        };
        let attrs: usize = a + open.len();
        let e: usize = match find_chars(&t, &gt, attrs) {
            None => {
                assert(kv + knowledge_from(text@, from as int) =~= kv);
                break;
            },
            Some(e) => e,
        };
        let c: usize = match find_chars(&t, &close, e + 1) {
            None => {
                assert(kv + knowledge_from(text@, from as int) =~= kv);
                break;
            },
            Some(c) => c,
        };
        let next: usize = c + close.len();
        let head = slice_text(&t, attrs, e);
        let inner = slice_text(&t, e + 1, c);
        let ghost entry = knowledge_entry(head@, inner@);
        match parse_knowledge_entry(head.as_str(), inner.as_str()) {
            Some(k) => {
                let ghost before = entries@;
                entries.push(k);
                assert(knowledge_views(entries@) =~= knowledge_views(before).push(k@));
            },
            None => {},
        }
        assert(knowledge_views(entries@) =~= kv + entry);
        assert(kv + (entry + knowledge_from(text@, next as int)) =~= (kv + entry)
            + knowledge_from(text@, next as int));
        from = next;
    }
    entries
}

/// Parses the `<phase-complete>spec|plan|build</phase-complete>` sigil from
/// result text.
///
/// Returns `Some(phase)` if a valid phase name is found between the tags,
/// `None` if the sigil is absent or contains an invalid phase name.
pub fn parse_phase_complete(text: &str) -> (r: Option<String>)
    ensures
        opt_text(r) == phase_complete(text@),
{
    match parse_tag(text, "<phase-complete>", "</phase-complete>") {
        Some(p) => if same(p.as_str(), "spec") || same(p.as_str(), "plan") || same(
            p.as_str(),
            "build",
        ) {
            Some(p)
        } else {
            None
        },
        None => None,
    }
}

/// Checks for the `<tasks-created>` sigil in result text.
///
/// Returns `true` if the sigil is present (self-closing or with empty content).
pub fn parse_tasks_created(text: &str) -> (r: bool)
    ensures
        r == tasks_created(text@),
{
    has(text, "<tasks-created>") || has(text, "<tasks-created/>") || has(text, "<tasks-created />")
}

/// Sigils extracted from interactive/streaming session output.
///
/// A lighter-weight sigil result for interactive flows (feature create, task
/// create) where only phase completion and task creation signals are relevant.
#[derive(Debug)]
pub struct InteractiveSigils {
    /// Phase name from `<phase-complete>spec|plan|build</phase-complete>`.
    pub phase_complete: Option<String>,
    /// True if `<tasks-created>` was found.
    pub tasks_created: bool,
}

impl Default for InteractiveSigils {
    fn default() -> (r: Self)
        ensures
            r.phase_complete is None,
            !r.tasks_created,
    {
        InteractiveSigils { phase_complete: None, tasks_created: false }
    }
}

/// Extracts interactive-flow sigils from accumulated agent output text.
pub fn extract_interactive_sigils(text: &str) -> (r: InteractiveSigils)
    ensures
        opt_text(r.phase_complete) == phase_complete(text@),
        r.tasks_created == tasks_created(text@),
{
    InteractiveSigils {
        phase_complete: parse_phase_complete(text),
        tasks_created: parse_tasks_created(text),
    }
}

/// Extracts all sigils from accumulated agent output text.
pub fn extract_sigils(text: &str) -> (r: SigilResult)
    ensures
        r@ == sigils(text@),
{
    SigilResult {
        task_done: parse_task_done(text),
        task_failed: parse_task_failed(text),
        next_model_hint: parse_next_model_hint(text),
        journal_notes: parse_journal_sigil(text),
        knowledge_entries: parse_knowledge_sigils(text),
        is_complete: has(text, COMPLETE_SIGIL),
        is_failure: has(text, FAILURE_SIGIL),
    }
}

} // verus!
