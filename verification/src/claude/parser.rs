//! From the lines of an agent's stream output to events.

use vstd::prelude::*;

use crate::acp::laws::law_reports_read_back;
use crate::acp::sigils::{
    filled_content, knowledge_from, model_hint, parse_journal_sigil, parse_knowledge_sigils,
    parse_next_model_hint, parse_task_done, parse_task_failed,
};
use crate::acp::summary::{field_views, Field, FieldView};
use crate::acp::types::knowledge_views;
use crate::claude::events::{Assistant, ContentBlock, Event, ResultEvent, ToolResult};
use crate::text::basic::{opt_same, opt_text, texts};
use crate::text::search::contains;
use crate::text::shape::{trim, trimmed};

verus! {

/// An event as it stands in the stream.
#[derive(Debug)]
pub struct RawEvent {
    pub event_type: Option<String>,
    pub message: Option<RawMessage>,
    pub result: Option<String>,
    pub duration_ms: Option<u64>,
    pub total_cost_usd: Option<String>,
}

/// A message as it stands in the stream.
#[derive(Debug)]
pub struct RawMessage {
    pub model: Option<String>,
    pub content: Option<Vec<RawContentBlock>>,
}

/// A content block as it stands in the stream.
#[derive(Debug)]
pub struct RawContentBlock {
    pub block_type: Option<String>,
    pub text: Option<String>,
    pub thinking: Option<String>,
    pub id: Option<String>,
    pub name: Option<String>,
    pub input: Option<Vec<Field>>,
    pub tool_use_id: Option<String>,
    pub content: Option<String>,
    pub is_error: Option<bool>,
}

/// The text, or an empty one.
pub open spec fn or_empty(o: Option<String>) -> Seq<char> {
    match o {
        Some(t) => t@,
        None => Seq::empty(),
    }
}

/// What a content block says.
pub enum BlockView {
    Text(Seq<char>),
    Thinking(Seq<char>),
    ToolUse(Seq<char>, Seq<char>, Seq<FieldView>),
    Unknown,
}

/// What a content block says.
pub open spec fn block_view(b: ContentBlock) -> BlockView {
    match b {
        ContentBlock::Text { text } => BlockView::Text(text@),
        ContentBlock::Thinking { thinking } => BlockView::Thinking(thinking@),
        ContentBlock::ToolUse { id, name, input } => BlockView::ToolUse(
            id@,
            name@,
            field_views(input@),
        ),
        ContentBlock::Unknown => BlockView::Unknown,
    }
}

/// What a block of the stream says.
pub open spec fn block_of(b: RawContentBlock) -> BlockView {
    let kind = opt_text(b.block_type);
    if kind == Some("text"@) {
        BlockView::Text(or_empty(b.text))
    } else if kind == Some("thinking"@) {
        BlockView::Thinking(or_empty(b.thinking))
    } else if kind == Some("tool_use"@) {
        BlockView::ToolUse(
            or_empty(b.id),
            or_empty(b.name),
            match b.input {
                Some(v) => field_views(v@),
                None => Seq::empty(),
            },
        )
    } else {
        BlockView::Unknown
    }
}

/// A tool result: its id, its content, and whether it is an error.
pub open spec fn result_view(t: ToolResult) -> (Seq<char>, Seq<char>, bool) {
    (t.tool_use_id@, t.content@, t.is_error)
}

/// The block is a tool result that tells of an error.
pub open spec fn is_tool_error(b: RawContentBlock) -> bool {
    opt_text(b.block_type) == Some("tool_result"@) && b.is_error == Some(true)
}

/// The tool errors among the blocks.
pub open spec fn tool_errors(s: Seq<RawContentBlock>) -> Seq<(Seq<char>, Seq<char>, bool)>
    decreases s.len(),
{
    if s.len() == 0 {
        Seq::empty()
    } else if is_tool_error(s.last()) {
        tool_errors(s.drop_last()).push(
            (or_empty(s.last().tool_use_id), or_empty(s.last().content), true),
        )
    } else {
        tool_errors(s.drop_last())
    }
}

/// A block is what its type says, with an empty text where its own is missing; a
/// type that is not known makes an unknown block.
pub proof fn law_block_types(b: RawContentBlock)
    ensures
        ({
            let kind = opt_text(b.block_type);
            &&& block_of(b) is Text <==> kind == Some("text"@)
            &&& block_of(b) is Thinking <==> kind == Some("thinking"@)
            &&& block_of(b) is ToolUse <==> kind == Some("tool_use"@)
            &&& kind == Some("text"@) && b.text is Some ==> block_of(b) == BlockView::Text(
                b.text->0@,
            )
            &&& kind == Some("thinking"@) && b.thinking is Some ==> block_of(b)
                == BlockView::Thinking(b.thinking->0@)
            &&& kind == Some("text"@) && b.text is None ==> block_of(b) == BlockView::Text(
                Seq::empty(),
            )
        }),
{
    reveal_strlit("text");
    reveal_strlit("thinking");
    reveal_strlit("tool_use");
    assert("text"@.len() != "thinking"@.len() && "text"@.len() == 4);
    assert("thinking"@[1] == 'h' && "tool_use"@[1] == 'o');
}

/// The errors of a message are those of its tool results that are marked as
/// errors, in their order.
pub proof fn law_tool_errors(a: Seq<RawContentBlock>, b: RawContentBlock)
    ensures
        tool_errors(Seq::<RawContentBlock>::empty()).len() == 0,
        opt_text(b.block_type) == Some("tool_result"@) && b.is_error == Some(true) ==> tool_errors(
            a.push(b),
        ) == tool_errors(a).push((or_empty(b.tool_use_id), or_empty(b.content), true)),
        opt_text(b.block_type) != Some("tool_result"@) || b.is_error != Some(true) ==> tool_errors(
            a.push(b),
        ) == tool_errors(a),
{
    assert(a.push(b).drop_last() =~= a);
}

/// The blocks of a message.
pub open spec fn blocks_of(m: Option<RawMessage>) -> Seq<RawContentBlock> {
    match m {
        Some(m) => match m.content {
            Some(v) => v@,
            None => Seq::empty(),
        },
        None => Seq::empty(),
    }
}

/// The text or an empty one.
fn text_or_empty(o: Option<String>) -> (r: String)
    ensures
        r@ == or_empty(o),
{
    match o {
        Some(t) => t,
        None => {
            let t = String::new();
            assert(t@ =~= Seq::empty());
            t
        },
    }
}

/// Reads a content block.
pub fn parse_content_block(block: RawContentBlock) -> (r: ContentBlock)
    ensures
        block_view(r) == block_of(block),
{
    if opt_same(&block.block_type, "text") {
        ContentBlock::Text { text: text_or_empty(block.text) }
    } else if opt_same(&block.block_type, "thinking") {
        ContentBlock::Thinking { thinking: text_or_empty(block.thinking) }
    } else if opt_same(&block.block_type, "tool_use") {
        let input = match block.input {
            Some(v) => v,
            None => {
                let v: Vec<Field> = Vec::new();
                assert(field_views(v@) =~= Seq::empty());
                v
            },
        };
        ContentBlock::ToolUse {
            id: text_or_empty(block.id),
            name: text_or_empty(block.name),
            input,
        }
    } else {
        ContentBlock::Unknown
    }
}

/// Reads a tool result.
pub fn parse_tool_result(block: RawContentBlock) -> (r: ToolResult)
    ensures
        result_view(r) == (
            or_empty(block.tool_use_id),
            or_empty(block.content),
            block.is_error == Some(true),
        ),
{
    let is_error = match block.is_error {
        Some(b) => b,
        None => false,
    };
    ToolResult {
        tool_use_id: text_or_empty(block.tool_use_id),
        content: text_or_empty(block.content),
        is_error,
    }
}

/// What the sigils of a result say.
pub open spec fn result_of(
    e: ResultEvent,
    result: Option<Seq<char>>,
    duration_ms: u64,
    cost: Seq<char>,
) -> bool {
    &&& opt_text(e.result) == result
    &&& e.duration_ms == duration_ms
    &&& e.total_cost_usd@ == cost
    &&& texts(e.files_modified@) == Seq::<Seq<char>>::empty()
    &&& match result {
        Some(t) => {
            &&& opt_text(e.next_model_hint) == model_hint(t)
            &&& opt_text(e.task_done) == filled_content(t, "<task-done>"@, "</task-done>"@)
            &&& opt_text(e.task_failed) == filled_content(
                t,
                "<task-failed>"@,
                "</task-failed>"@,
            )
            &&& opt_text(e.journal_notes) == filled_content(t, "<journal>"@, "</journal>"@)
            &&& knowledge_views(e.knowledge_entries@) == knowledge_from(t, 0)
        },
        None => {
            &&& e.next_model_hint is None
            &&& e.task_done is None
            &&& e.task_failed is None
            &&& e.journal_notes is None
            &&& e.knowledge_entries@.len() == 0
        },
    }
}

/// Reads an event. A user message is of interest only for the tool errors in
/// it.
pub fn parse_event(raw: RawEvent) -> (r: Event)
    ensures
        ({
            let kind = opt_text(raw.event_type);
            let blocks = blocks_of(raw.message);
            if kind == Some("assistant"@) {
                r matches Event::Assistant(a) && a.model == (match raw.message {
                    Some(m) => m.model,
                    None => None,
                }) && a.content@.len() == blocks.len() && forall|i: int|
                    0 <= i < blocks.len() ==> block_view(#[trigger] a.content@[i]) == block_of(
                        blocks[i],
                    )
            } else if kind == Some("user"@) && tool_errors(blocks).len() > 0 {
                r matches Event::ToolErrors(v) && v@.map_values(
                    |t: ToolResult| result_view(t),
                ) == tool_errors(blocks)
            } else if kind == Some("result"@) {
                r matches Event::Result(e) && result_of(
                    e,
                    opt_text(raw.result),
                    match raw.duration_ms {
                        Some(n) => n,
                        None => 0,
                    },
                    match raw.total_cost_usd {
                        Some(c) => c@,
                        None => "0"@,
                    },
                )
            } else {
                r is Unknown
            }
        }),
{
    if opt_same(&raw.event_type, "assistant") {
        let ghost blocks = blocks_of(raw.message);
        let (model, content) = match raw.message {
            Some(m) => (m.model, m.content),
            None => (None, None),
        };
        let mut left: Vec<RawContentBlock> = match content {
            Some(v) => v,
            None => Vec::new(),
        };
        assert(left@ =~= blocks);
        let mut back: Vec<ContentBlock> = Vec::new();
        while left.len() > 0
            invariant
                left@.len() + back@.len() == blocks.len(),
                left@ == blocks.take(left@.len() as int),
                forall|i: int|
                    0 <= i < back@.len() ==> block_view(#[trigger] back@[i]) == block_of(
                        blocks[blocks.len() - 1 - i],
                    ),
            decreases left@.len(),
        {
            let ghost n = left@.len();
            match left.pop() {
                Some(b) => {
                    assert(b == blocks[n - 1]);
                    back.push(parse_content_block(b));
                    assert(left@ =~= blocks.take(n - 1));
                },
                None => {},
            }
        }
        let mut content: Vec<ContentBlock> = Vec::new();
        let ghost all = back@;
        while back.len() > 0
            invariant
                back@.len() + content@.len() == blocks.len(),
                all.len() == blocks.len(),
                back@ == all.take(back@.len() as int),
                forall|i: int|
                    0 <= i < all.len() ==> block_view(#[trigger] all[i]) == block_of(
                        blocks[blocks.len() - 1 - i],
                    ),
                forall|i: int|
                    0 <= i < content@.len() ==> block_view(#[trigger] content@[i]) == block_of(
                        blocks[i],
                    ),
            decreases back@.len(),
        {
            let ghost n = back@.len();
            match back.pop() {
                Some(b) => {
                    assert(b == all[n - 1]);
                    content.push(b);
                    assert(back@ =~= all.take(n - 1));
                },
                None => {},
            }
        }
        return Event::Assistant(Assistant { model, content });
    }
    if opt_same(&raw.event_type, "user") {
        let ghost blocks = blocks_of(raw.message);
        let content: Vec<RawContentBlock> = match raw.message {
            Some(m) => match m.content {
                Some(v) => v,
                None => Vec::new(),
            },
            None => Vec::new(),
        };
        assert(content@ =~= blocks);
        let errors = list_tool_errors(&content);
        assert(errors@.map_values(|t: ToolResult| result_view(t)).len() == errors@.len());
        if errors.len() == 0 {
            proof {
                reveal_strlit("user");
                reveal_strlit("result");
                assert("user"@.len() != "result"@.len());
            }
            return Event::Unknown;
        }
        return Event::ToolErrors(errors);
    }
    if opt_same(&raw.event_type, "result") {
        let mut e = ResultEvent::default();
        match &raw.result {
            Some(t) => {
                e.next_model_hint = parse_next_model_hint(t.as_str());
                e.task_done = parse_task_done(t.as_str());
                e.task_failed = parse_task_failed(t.as_str());
                e.journal_notes = parse_journal_sigil(t.as_str());
                e.knowledge_entries = parse_knowledge_sigils(t.as_str());
            },
            None => {},
        }
        e.result = raw.result;
        match raw.duration_ms {
            Some(n) => {
                e.duration_ms = n;
            },
            None => {},
        }
        match raw.total_cost_usd {
            Some(c) => {
                e.total_cost_usd = c;
            },
            None => {},
        }
        assert(texts(e.files_modified@) =~= Seq::empty());
        return Event::Result(e);
    }
    Event::Unknown
}

/// The tool errors among the blocks.
fn list_tool_errors(content: &Vec<RawContentBlock>) -> (r: Vec<ToolResult>)
    ensures
        r@.map_values(|t: ToolResult| result_view(t)) == tool_errors(content@),
{
    let mut r: Vec<ToolResult> = Vec::new();
    let mut i: usize = 0;
    let ghost f = |t: ToolResult| result_view(t);
    assert(r@.map_values(f) =~= tool_errors(content@.take(0)));
    while i < content.len()
        invariant
            i <= content@.len(),
            f == (|t: ToolResult| result_view(t)),
            r@.map_values(f) == tool_errors(content@.take(i as int)),
        decreases content@.len() - i,
    {
        assert(content@.take(i + 1).drop_last() =~= content@.take(i as int));
        let b = &content[i];
        let is_error = match b.is_error {
            Some(e) => e,
            None => false,
        };
        if opt_same(&b.block_type, "tool_result") && is_error {
            let t = ToolResult {
                tool_use_id: text_or_empty(crate::text::basic::clone_opt(&b.tool_use_id)),
                content: text_or_empty(crate::text::basic::clone_opt(&b.content)),
                is_error: true,
            };
            let ghost tv = result_view(t);
            let ghost before = r@;
            r.push(t);
            assert(r@.map_values(f) =~= before.map_values(f).push(tv));
        }
        i = i + 1;
    }
    assert(content@.take(content@.len() as int) =~= content@);
    r
}

/// What a line of the stream holds; nothing where it is blank.
pub fn line_content(line: &str) -> (r: Option<String>)
    ensures
        match r {
            Some(t) => t@ == trim(line@) && trim(line@).len() > 0,
            None => trim(line@).len() == 0,
        },
{
    let t = trimmed(line);
    if t.as_str().is_empty() {
        None
    } else {
        Some(t)
    }
}

/// The result of a run hands on what its text reports, each report under its own
/// name; without a text it hands on nothing.
pub proof fn law_result_reports(
    e: ResultEvent,
    before: Seq<char>,
    inner: Seq<char>,
    after: Seq<char>,
    duration_ms: u64,
    cost: Seq<char>,
)
    requires
        trim(inner).len() > 0,
    ensures
        ({
            let done = before + "<task-done>"@ + inner + "</task-done>"@ + after;
            let failed = before + "<task-failed>"@ + inner + "</task-failed>"@ + after;
            let notes = before + "<journal>"@ + inner + "</journal>"@ + after;
            &&& !contains(before, "<task-done>"@) && !contains(inner, "</task-done>"@)
                && result_of(e, Some(done), duration_ms, cost) ==> opt_text(e.task_done) == Some(
                trim(inner),
            ) && opt_text(e.result) == Some(done) && e.duration_ms == duration_ms
            &&& !contains(before, "<task-failed>"@) && !contains(inner, "</task-failed>"@)
                && result_of(e, Some(failed), duration_ms, cost) ==> opt_text(e.task_failed)
                == Some(trim(inner))
            &&& !contains(before, "<journal>"@) && !contains(inner, "</journal>"@) && result_of(
                e,
                Some(notes),
                duration_ms,
                cost,
            ) ==> opt_text(e.journal_notes) == Some(trim(inner))
            &&& result_of(e, None, duration_ms, cost) ==> e.task_done is None && e.task_failed
                is None && e.journal_notes is None && e.next_model_hint is None
                && e.knowledge_entries@.len() == 0
        }),
{
    law_reports_read_back(before, inner, after);
}

} // verus!
