//! Markdown and sigils, line by line, for the terminal.

use vstd::prelude::*;

use crate::output::style::{
    dim, dim_span, hued, hued_span, plain, plain_span, render, shows, span_views, Hue, Span,
    Style,
};
use crate::text::basic::{chars_of, opt_text, slice_text, texts};
use crate::text::search::{begins, contains, find_chars, find_from, has, starts_with};
use crate::text::shape::{trim, trim_start, trimmed, trimmed_start, Class};

verus! {

/// The first place from `i` on that holds `c`.
pub open spec fn closing_char(s: Seq<char>, i: int, c: char) -> Option<int>
    decreases s.len() - i,
{
    if 0 <= i < s.len() {
        if s[i] == c {
            Some(i)
        } else {
            closing_char(s, i + 1, c)
        }
    } else {
        None
    }
}

/// The first place from `i` on that holds the first of two asterisks.
pub open spec fn closing_pair(s: Seq<char>, i: int) -> Option<int>
    decreases s.len() - i,
{
    if 0 <= i < s.len() - 1 {
        if s[i] == '*' && s[i + 1] == '*' {
            Some(i)
        } else {
            closing_pair(s, i + 1)
        }
    } else {
        None
    }
}

/// An asterisk stands at `i`, and none behind it.
pub open spec fn lone_asterisk(s: Seq<char>, i: int) -> bool {
    s[i] == '*' && !(i + 1 < s.len() && s[i + 1] == '*')
}

/// The first place from `i` on that holds an asterisk with none behind it.
pub open spec fn closing_single(s: Seq<char>, i: int) -> Option<int>
    decreases s.len() - i,
{
    if 0 <= i < s.len() {
        if lone_asterisk(s, i) {
            Some(i)
        } else {
            closing_single(s, i + 1)
        }
    } else {
        None
    }
}

/// The closing places lie behind the opening ones.
proof fn lemma_closing(s: Seq<char>, i: int, c: char)
    requires
        0 <= i,
    ensures
        closing_char(s, i, c) matches Some(e) ==> i <= e < s.len(),
        closing_pair(s, i) matches Some(e) ==> i <= e < s.len() - 1,
        closing_single(s, i) matches Some(e) ==> i <= e < s.len(),
    decreases s.len() - i,
{
    if i < s.len() {
        lemma_closing(s, i + 1, c);
    }
}

/// The text from `i` on with inline markdown between escape sequences.
pub open spec fn inline_from(s: Seq<char>, i: int) -> Seq<char>
    decreases s.len() - i,
{
    if !(0 <= i < s.len()) {
        Seq::empty()
    } else {
        let code = closing_char(s, i + 1, '`');
        let bold = closing_pair(s, i + 2);
        let italic = closing_single(s, i + 1);
        if s[i] == '`' && code is Some && i < code->0 < s.len() {
            "\x1b[36m`"@ + s.subrange(i + 1, code->0) + "`\x1b[0m"@ + inline_from(s, code->0 + 1)
        } else if s[i] == '*' && !lone_asterisk(s, i) && bold is Some && i < bold->0 < s.len()
            - 1 {
            "\x1b[1m**"@ + s.subrange(i + 2, bold->0) + "**\x1b[22m"@ + inline_from(
                s,
                bold->0 + 2,
            )
        } else if lone_asterisk(s, i) && italic is Some && i < italic->0 < s.len() {
            "\x1b[3m*"@ + s.subrange(i + 1, italic->0) + "*\x1b[23m"@ + inline_from(
                s,
                italic->0 + 1,
            )
        } else {
            seq![s[i]] + inline_from(s, i + 1)
        }
    }
}

/// Without backticks and asterisks a text stays as it is.
pub proof fn law_plain_text_stays(s: Seq<char>, i: int)
    requires
        0 <= i <= s.len(),
        forall|j: int| 0 <= j < s.len() ==> #[trigger] s[j] != '`' && s[j] != '*',
    ensures
        inline_from(s, i) == s.skip(i),
    decreases s.len() - i,
{
    if i < s.len() {
        law_plain_text_stays(s, i + 1);
        assert(s.skip(i) =~= seq![s[i]] + s.skip(i + 1));
    } else {
        assert(s.skip(i) =~= Seq::empty());
    }
}

/// Finds the position of a closing single character from `start` on.
fn find_closing_char(chars: &Vec<char>, start: usize, close: char) -> (r: Option<usize>)
    ensures
        match r {
            Some(e) => closing_char(chars@, start as int, close) == Some(e as int),
            None => closing_char(chars@, start as int, close) is None,
        },
{
    let mut j: usize = start;
    while j < chars.len()
        invariant
            start <= j,
            closing_char(chars@, start as int, close) == closing_char(chars@, j as int, close),
        decreases chars@.len() - j,
    {
        if chars[j] == close {
            return Some(j);
        }
        j = j + 1;
    }
    None
}

/// Finds the position of a closing `**` from `start` on.
fn find_closing_pair(chars: &Vec<char>, start: usize) -> (r: Option<usize>)
    ensures
        match r {
            Some(e) => closing_pair(chars@, start as int) == Some(e as int),
            None => closing_pair(chars@, start as int) is None,
        },
{
    let n: usize = chars.len();
    if n < 2 {
        return None;
    }
    let mut j: usize = start;
    while j < n - 1
        invariant
            start <= j,
            n == chars@.len(),
            n >= 2,
            closing_pair(chars@, start as int) == closing_pair(chars@, j as int),
        decreases n - j,
    {
        if chars[j] == '*' && chars[j + 1] == '*' {
            return Some(j);
        }
        j = j + 1;
    }
    None
}

/// Finds a closing single `*` that is not followed by another.
fn find_closing_single_asterisk(chars: &Vec<char>, start: usize) -> (r: Option<usize>)
    ensures
        match r {
            Some(e) => closing_single(chars@, start as int) == Some(e as int),
            None => closing_single(chars@, start as int) is None,
        },
{
    let n: usize = chars.len();
    let mut j: usize = start;
    while j < n
        invariant
            start <= j,
            n == chars@.len(),
            closing_single(chars@, start as int) == closing_single(chars@, j as int),
        decreases n - j,
    {
        if chars[j] == '*' && !(j + 1 < n && chars[j + 1] == '*') {
            return Some(j);
        }
        j = j + 1;
    }
    None
}

/// Applies inline markdown formatting to a line of text.
///
/// Recognizes:
/// - `` `code` `` in cyan
/// - `**bold**` in bold
/// - `*italic*` in italic
///
/// Unclosed delimiters are left as-is.
pub fn format_inline_markdown(line: &str) -> (r: String)
    ensures
        r@ == inline_from(line@, 0),
{
    let chars = chars_of(line);
    let n: usize = chars.len();
    let ghost goal = inline_from(line@, 0);
    let mut out = String::new();
    let mut i: usize = 0;
    assert(out@ + inline_from(line@, 0) =~= goal);
    while i < n
        invariant
            i <= n,
            n == chars@.len(),
            chars@ == line@,
            out@ + inline_from(line@, i as int) == goal,
        decreases n - i,
    {
        let ghost before = out@;
        let ghost s = line@;
        proof {
            lemma_closing(s, i + 1, '`');
            lemma_closing(s, i + 2, '`');
        }
        let c = chars[i];
        let lone = c == '*' && !(i + 1 < n && chars[i + 1] == '*');
        let mut mark = "";
        let mut end_mark = "";
        let mut from: usize = i;
        let mut to: usize = i;
        let mut next: usize = i + 1;
        let mut found = false;
        if c == '`' {
            match find_closing_char(&chars, i + 1, '`') {
                Some(e) => {
                    mark = "\x1b[36m`";
                    end_mark = "`\x1b[0m";
                    from = i + 1;
                    to = e;
                    next = e + 1;
                    found = true;
                },
                None => {},
            }
        } else if c == '*' && !lone {
            match find_closing_pair(&chars, i + 2) {
                Some(e) => {
                    mark = "\x1b[1m**";
                    end_mark = "**\x1b[22m";
                    from = i + 2;
                    to = e;
                    next = e + 2;
                    found = true;
                },
                None => {},
            }
        } else if lone {
            match find_closing_single_asterisk(&chars, i + 1) {
                Some(e) => {
                    mark = "\x1b[3m*";
                    end_mark = "*\x1b[23m";
                    from = i + 1;
                    to = e;
                    next = e + 1;
                    found = true;
                },
                None => {},
            }
        }
        if found {
            let inner = slice_text(&chars, from, to);
            out.append(mark);
            out.append(inner.as_str());
            out.append(end_mark);
            assert(inline_from(s, i as int) == mark@ + inner@ + end_mark@ + inline_from(
                s,
                next as int,
            ));
            assert(out@ + inline_from(s, next as int) =~= before + inline_from(s, i as int));
        } else {
            out.push(c);
            assert(inline_from(s, i as int) == seq![c] + inline_from(s, i + 1));
            assert(out@ + inline_from(s, i + 1) =~= before + inline_from(s, i as int));
        }
        i = next;
    }
    assert(inline_from(line@, n as int) =~= Seq::empty());
    assert(out@ + inline_from(line@, n as int) =~= out@);
    out
}

/// What is found does not depend on what stands in front of where the search
/// begins.
proof fn lemma_closing_shift(a: Seq<char>, b: Seq<char>, i: int, c: char)
    requires
        0 <= i,
    ensures
        match closing_char(b, i, c) {
            Some(k) => closing_char(a + b, a.len() + i, c) == Some(a.len() + k),
            None => closing_char(a + b, a.len() + i, c) is None,
        },
        match closing_pair(b, i) {
            Some(k) => closing_pair(a + b, a.len() + i) == Some(a.len() + k),
            None => closing_pair(a + b, a.len() + i) is None,
        },
        match closing_single(b, i) {
            Some(k) => closing_single(a + b, a.len() + i) == Some(a.len() + k),
            None => closing_single(a + b, a.len() + i) is None,
        },
    decreases b.len() - i,
{
    if i < b.len() {
        lemma_closing_shift(a, b, i + 1, c);
    }
}

proof fn lemma_closing_range(s: Seq<char>, i: int, c: char)
    ensures
        closing_char(s, i, c) matches Some(k) ==> i <= k < s.len(),
        closing_pair(s, i) matches Some(k) ==> i <= k < s.len() - 1,
        closing_single(s, i) matches Some(k) ==> i <= k < s.len(),
    decreases s.len() - i,
{
    if 0 <= i < s.len() {
        lemma_closing_range(s, i + 1, c);
    }
}

proof fn lemma_inline_shift(a: Seq<char>, b: Seq<char>, i: int)
    requires
        0 <= i <= b.len(),
    ensures
        inline_from(a + b, a.len() + i) == inline_from(b, i),
    decreases b.len() - i,
{
    let s = a + b;
    let n = a.len() as int;
    if i < b.len() {
        lemma_closing_shift(a, b, i + 1, '`');
        lemma_closing_shift(a, b, i + 2, '`');
        lemma_closing_range(b, i + 1, '`');
        lemma_closing_range(b, i + 2, '`');
        assert(s[n + i] == b[i]);
        assert(lone_asterisk(s, n + i) == lone_asterisk(b, i));
        let code = closing_char(b, i + 1, '`');
        let bold = closing_pair(b, i + 2);
        let italic = closing_single(b, i + 1);
        if b[i] == '`' && code is Some {
            lemma_inline_shift(a, b, code->0 + 1);
            assert(s.subrange(n + i + 1, n + code->0) =~= b.subrange(i + 1, code->0));
        } else if b[i] == '*' && !lone_asterisk(b, i) && bold is Some {
            lemma_inline_shift(a, b, bold->0 + 2);
            assert(s.subrange(n + i + 2, n + bold->0) =~= b.subrange(i + 2, bold->0));
        } else if lone_asterisk(b, i) && italic is Some {
            lemma_inline_shift(a, b, italic->0 + 1);
            assert(s.subrange(n + i + 1, n + italic->0) =~= b.subrange(i + 1, italic->0));
        } else {
            lemma_inline_shift(a, b, i + 1);
        }
    }
}

/// Text without marks in front of what follows stays as it is.
pub proof fn law_plain_start_stays(a: Seq<char>, b: Seq<char>)
    requires
        !a.contains('`'),
        !a.contains('*'),
    ensures
        inline_from(a + b, 0) == a + inline_from(b, 0),
    decreases a.len(),
{
    if a.len() == 0 {
        assert(a + b =~= b);
        assert(a + inline_from(b, 0) =~= inline_from(b, 0));
    } else {
        let rest = a.drop_first();
        assert(a.contains(a[0]));
        assert forall|c: char| rest.contains(c) implies a.contains(c) by {
            let k = choose|k: int| 0 <= k < rest.len() && rest[k] == c;
            assert(a[k + 1] == c);
        }
        law_plain_start_stays(rest, b);
        assert(a + b =~= seq![a[0]] + (rest + b));
        lemma_inline_shift(seq![a[0]], rest + b, 0);
        assert(a + inline_from(b, 0) =~= seq![a[0]] + (rest + inline_from(b, 0)));
    }
}

proof fn lemma_first_closing(t: Seq<char>, b: Seq<char>, from: int)
    requires
        0 <= from <= t.len(),
    ensures
        !t.contains('`') && b.len() > 0 && b[0] == '`' ==> closing_char(t + b, from, '`') == Some(
            t.len() as int,
        ),
        !t.contains('*') && b.len() > 1 && b[0] == '*' && b[1] == '*' ==> closing_pair(t + b, from)
            == Some(t.len() as int),
        !t.contains('*') && b.len() > 0 && b[0] == '*' && (b.len() == 1 || b[1] != '*')
            ==> closing_single(t + b, from) == Some(t.len() as int),
    decreases t.len() - from,
{
    if from < t.len() {
        assert(t.contains(t[from]));
        assert((t + b)[from] == t[from]);
        lemma_first_closing(t, b, from + 1);
    }
}

/// Code between two backticks is shown in cyan with its backticks, whatever it
/// holds, and what follows is shown as if it stood alone.
pub proof fn law_code_is_cyan(code: Seq<char>, b: Seq<char>)
    requires
        !code.contains('`'),
    ensures
        inline_from("`"@ + code + "`"@ + b, 0) == "\x1b[36m`"@ + code + "`\x1b[0m"@ + inline_from(
            b,
            0,
        ),
{
    reveal_strlit("`");
    let tick = seq!['`'];
    assert("`"@ =~= tick);
    let s = "`"@ + code + "`"@ + b;
    let n = code.len() as int;
    assert(s =~= tick + (code + (tick + b)));
    lemma_first_closing(code, tick + b, 0);
    lemma_closing_shift(tick, code + (tick + b), 0, '`');
    assert(closing_char(s, 1, '`') == Some(1 + n));
    assert(s.subrange(1, 1 + n) =~= code);
    let front = "`"@ + code + "`"@;
    assert(front.len() == n + 2);
    lemma_inline_shift(front, b, 0);
}

/// A text between two pairs of asterisks is shown in bold, and one between two
/// single ones in italics, each with its asterisks.
pub proof fn law_emphasis(t: Seq<char>, b: Seq<char>)
    requires
        !t.contains('*'),
    ensures
        inline_from("**"@ + t + "**"@ + b, 0) == "\x1b[1m**"@ + t + "**\x1b[22m"@ + inline_from(
            b,
            0,
        ),
        t.len() > 0 && (b.len() == 0 || b[0] != '*') ==> inline_from("*"@ + t + "*"@ + b, 0)
            == "\x1b[3m*"@ + t + "*\x1b[23m"@ + inline_from(b, 0),
{
    reveal_strlit("*");
    reveal_strlit("**");
    let one = seq!['*'];
    let two = seq!['*', '*'];
    assert("*"@ =~= one);
    assert("**"@ =~= two);
    let n = t.len() as int;
    let s = "**"@ + t + "**"@ + b;
    assert(s =~= two + (t + (two + b)));
    lemma_first_closing(t, two + b, 0);
    lemma_closing_shift(two, t + (two + b), 0, '`');
    assert(closing_pair(s, 2) == Some(2 + n));
    assert(s.subrange(2, 2 + n) =~= t);
    let front = "**"@ + t + "**"@;
    assert(front.len() == n + 4);
    lemma_inline_shift(front, b, 0);
    if n > 0 && (b.len() == 0 || b[0] != '*') {
        let q = "*"@ + t + "*"@ + b;
        assert(q =~= one + (t + (one + b)));
        assert(t.contains(t[0]));
        assert(q[1] == t[0]);
        lemma_first_closing(t, one + b, 0);
        lemma_closing_shift(one, t + (one + b), 0, '`');
        assert(closing_single(q, 1) == Some(1 + n));
        assert(q.subrange(1, 1 + n) =~= t);
        let head = "*"@ + t + "*"@;
        assert(head.len() == n + 2);
        lemma_inline_shift(head, b, 0);
    }
}

/// Known sigil tag names for inline formatting.
pub open spec fn sigil_tags() -> Seq<Seq<char>> {
    seq![
        "task-done"@,
        "task-failed"@,
        "next-model"@,
        "journal"@,
        "knowledge"@,
        "promise"@,
        "verify-pass"@,
        "verify-fail"@,
    ]
}

/// How a line is shown, and the tag of the sigil that is open behind it.
pub struct LinePlan {
    pub spans: Seq<(Style, Seq<char>)>,
    pub in_sigil: Option<Seq<char>>,
}

/// A sigil on a single line: green for the tags, gray for the content. A line
/// whose closing tag comes before the end of the opening one is green as a
/// whole.
pub open spec fn single_line(line: Seq<char>, tag: Seq<char>) -> Seq<(Style, Seq<char>)> {
    let close = "</"@ + tag + ">"@;
    let open = find_from(line, "<"@ + tag, 0);
    let end = find_from(line, close, 0);
    let gt = match open {
        Some(a) => find_from(line, ">"@, a),
        None => None,
    };
    if open is Some && gt is Some && end is Some && gt->0 + 1 <= end->0 {
        seq![
            plain(line.subrange(0, open->0)),
            hued(Hue::Green, line.subrange(open->0, gt->0 + 1)),
            hued(Hue::BrightBlack, line.subrange(gt->0 + 1, end->0)),
            hued(Hue::Green, close),
            plain(line.subrange(end->0 + close.len(), line.len() as int)),
        ]
    } else {
        seq![hued(Hue::Green, line)]
    }
}

/// How a line with a sigil is shown, by the tags from `k` on; nothing where it
/// has none.
pub open spec fn tag_plan(line: Seq<char>, k: int) -> Option<LinePlan>
    decreases sigil_tags().len() - k,
{
    if 0 <= k < sigil_tags().len() {
        let tag = sigil_tags()[k];
        let t = trim(line);
        if contains(t, "<"@ + tag) && contains(t, "<"@ + tag + "/>"@) {
            Some(LinePlan { spans: seq![hued(Hue::Green, line)], in_sigil: None })
        } else if contains(t, "<"@ + tag) && contains(t, "</"@ + tag + ">"@) {
            Some(LinePlan { spans: single_line(line, tag), in_sigil: None })
        } else if contains(t, "<"@ + tag) && (contains(t, "<"@ + tag + ">"@) || contains(
            t,
            "<"@ + tag + " "@,
        )) {
            Some(LinePlan { spans: seq![hued(Hue::Green, line)], in_sigil: Some(tag) })
        } else {
            tag_plan(line, k + 1)
        }
    } else {
        None
    }
}

/// How a line is shown where it has to do with a sigil.
pub open spec fn sigil_plan(line: Seq<char>, in_sigil: Option<Seq<char>>) -> Option<LinePlan> {
    match in_sigil {
        Some(tag) => if contains(trim(line), "</"@ + tag + ">"@) {
            Some(LinePlan { spans: seq![hued(Hue::Green, line)], in_sigil: None })
        } else {
            Some(LinePlan { spans: seq![hued(Hue::BrightBlack, line)], in_sigil })
        },
        None => tag_plan(line, 0),
    }
}

/// How a line of markdown is shown outside code blocks.
pub open spec fn text_plan(line: Seq<char>, in_sigil: Option<Seq<char>>) -> LinePlan {
    let t = trim_start(line, Class::Space);
    match sigil_plan(line, in_sigil) {
        Some(p) => p,
        None => LinePlan {
            spans: if starts_with(t, "### "@) || starts_with(t, "## "@) || starts_with(t, "# "@) {
                seq![(Style::Bold, line)]
            } else {
                seq![plain(inline_from(line, 0))]
            },
            in_sigil: None,
        },
    }
}

/// The line begins or ends a code block.
pub open spec fn is_fence(line: Seq<char>) -> bool {
    starts_with(trim_start(line, Class::Space), "```"@)
}

/// How a line of markdown is shown. A fence toggles the code block; inside one
/// there is no formatting.
pub open spec fn line_plan(
    line: Seq<char>,
    in_code: bool,
    in_sigil: Option<Seq<char>>,
) -> LinePlan {
    if is_fence(line) {
        LinePlan { spans: seq![dim(line)], in_sigil }
    } else if in_code {
        LinePlan { spans: seq![hued(Hue::BrightBlack, line)], in_sigil }
    } else {
        text_plan(line, in_sigil)
    }
}

/// A line inside a sigil is shown in gray until the line that closes it, which
/// is shown in green and ends it.
pub proof fn law_sigil_block(line: Seq<char>, tag: Seq<char>)
    requires
        !is_fence(line),
    ensures
        contains(trim(line), "</"@ + tag + ">"@) ==> line_plan(line, false, Some(tag)) == (
        LinePlan { spans: seq![hued(Hue::Green, line)], in_sigil: None }),
        !contains(trim(line), "</"@ + tag + ">"@) ==> line_plan(line, false, Some(tag)) == (
        LinePlan { spans: seq![hued(Hue::BrightBlack, line)], in_sigil: Some(tag) }),
{
}

/// A line of code is shown in gray, and a fence dimmed, whatever they hold;
/// neither ends a sigil.
pub proof fn law_code_lines(line: Seq<char>, in_sigil: Option<Seq<char>>)
    ensures
        starts_with(trim_start(line, Class::Space), "```"@) ==> line_plan(line, true, in_sigil) == (
        LinePlan { spans: seq![dim(line)], in_sigil }) && line_plan(line, false, in_sigil) == (
        LinePlan { spans: seq![dim(line)], in_sigil }),
        !starts_with(trim_start(line, Class::Space), "```"@) ==> line_plan(line, true, in_sigil)
            == (LinePlan { spans: seq![hued(Hue::BrightBlack, line)], in_sigil }),
{
}

/// No sigil is taken for text: a line that holds one of these tags is shown as a
/// sigil.
pub proof fn law_no_sigil_is_missed(line: Seq<char>)
    ensures
        ({
            let t = trim(line);
            contains(t, "<task-done>"@) || contains(t, "<task-failed>"@) || contains(
                t,
                "<next-model>"@,
            ) || contains(t, "<journal>"@) || contains(t, "<knowledge "@) || contains(
                t,
                "<promise>"@,
            ) || contains(t, "<verify-pass/>"@) || contains(t, "<verify-fail>"@)
                ==> sigil_plan(line, None) is Some
        }),
{
    let t = trim(line);
    assert("<task-done>"@ =~= "<"@ + "task-done"@ + ">"@) by {
        reveal_strlit("<task-done>");
        reveal_strlit("<");
        reveal_strlit("task-done");
        reveal_strlit(">");
    }
    assert("<task-failed>"@ =~= "<"@ + "task-failed"@ + ">"@) by {
        reveal_strlit("<task-failed>");
        reveal_strlit("<");
        reveal_strlit("task-failed");
        reveal_strlit(">");
    }
    assert("<next-model>"@ =~= "<"@ + "next-model"@ + ">"@) by {
        reveal_strlit("<next-model>");
        reveal_strlit("<");
        reveal_strlit("next-model");
        reveal_strlit(">");
    }
    assert("<journal>"@ =~= "<"@ + "journal"@ + ">"@) by {
        reveal_strlit("<journal>");
        reveal_strlit("<");
        reveal_strlit("journal");
        reveal_strlit(">");
    }
    assert("<knowledge "@ =~= "<"@ + "knowledge"@ + " "@) by {
        reveal_strlit("<knowledge ");
        reveal_strlit("<");
        reveal_strlit("knowledge");
        reveal_strlit(" ");
    }
    assert("<promise>"@ =~= "<"@ + "promise"@ + ">"@) by {
        reveal_strlit("<promise>");
        reveal_strlit("<");
        reveal_strlit("promise");
        reveal_strlit(">");
    }
    assert("<verify-pass/>"@ =~= "<"@ + "verify-pass"@ + "/>"@) by {
        reveal_strlit("<verify-pass/>");
        reveal_strlit("<");
        reveal_strlit("verify-pass");
        reveal_strlit("/>");
    }
    assert("<verify-fail>"@ =~= "<"@ + "verify-fail"@ + ">"@) by {
        reveal_strlit("<verify-fail>");
        reveal_strlit("<");
        reveal_strlit("verify-fail");
        reveal_strlit(">");
    }
    lemma_tag_missed(line, 0);
    if tag_plan(line, 0) is None {
        assert(sigil_tags()[0] == "task-done"@ && sigil_tags()[1] == "task-failed"@
            && sigil_tags()[2] == "next-model"@ && sigil_tags()[3] == "journal"@
            && sigil_tags()[4] == "knowledge"@ && sigil_tags()[5] == "promise"@
            && sigil_tags()[6] == "verify-pass"@ && sigil_tags()[7] == "verify-fail"@);
    }
}

proof fn lemma_tag_missed(line: Seq<char>, k: int)
    requires
        0 <= k,
    ensures
        tag_plan(line, k) is None ==> forall|m: int|
            k <= m < sigil_tags().len() ==> {
                let tag = #[trigger] sigil_tags()[m];
                &&& !contains(trim(line), "<"@ + tag + "/>"@)
                &&& !contains(trim(line), "<"@ + tag + ">"@)
                &&& !contains(trim(line), "<"@ + tag + " "@)
            },
    decreases sigil_tags().len() - k,
{
    if k < sigil_tags().len() {
        lemma_tag_missed(line, k + 1);
        let tag = sigil_tags()[k];
        lemma_longer(trim(line), "<"@ + tag, "/>"@);
        lemma_longer(trim(line), "<"@ + tag, ">"@);
        lemma_longer(trim(line), "<"@ + tag, " "@);
    }
}

/// What holds a longer text holds its start.
proof fn lemma_longer(s: Seq<char>, a: Seq<char>, b: Seq<char>)
    ensures
        contains(s, a + b) ==> contains(s, a),
{
    if contains(s, a + b) {
        let i = choose|i: int| #[trigger] crate::text::search::occurs_at(s, a + b, i);
        assert(s.subrange(i, i + a.len()) =~= s.subrange(i, i + (a + b).len()).take(
            a.len() as int,
        ));
        assert((a + b).take(a.len() as int) =~= a);
        assert(crate::text::search::occurs_at(s, a, i));
    }
}

/// A heading of one to three levels that is no sigil is shown in bold.
pub proof fn law_headings_are_bold(line: Seq<char>)
    requires
        !is_fence(line),
        sigil_plan(line, None) is None,
    ensures
        ({
            let t = trim_start(line, Class::Space);
            let bold = LinePlan { spans: seq![(Style::Bold, line)], in_sigil: None };
            &&& starts_with(t, "# "@) || starts_with(t, "## "@) || starts_with(t, "### "@)
                ==> line_plan(line, false, None) == bold
            &&& !starts_with(t, "# "@) && !starts_with(t, "## "@) && !starts_with(t, "### "@)
                ==> line_plan(line, false, None).spans == seq![plain(inline_from(line, 0))]
        }),
{
}

/// One span.
fn one(s: Span) -> (r: Vec<Span>)
    ensures
        span_views(r@) == seq![s@],
{
    let ghost sv = s@;
    let mut r: Vec<Span> = Vec::new();
    r.push(s);
    assert(span_views(r@) =~= seq![sv]);
    r
}

/// A tag between two texts.
fn tagged(before: &str, tag: &str, after: &str) -> (r: String)
    ensures
        r@ == before@ + tag@ + after@,
{
    let mut r = before.to_owned();
    r.append(tag);
    r.append(after);
    r
}

/// Formats a single-line sigil: green for the tags, gray for the content.
pub fn format_sigil_single_line(line: &str, tag: &str) -> (r: Vec<Span>)
    ensures
        span_views(r@) == single_line(line@, tag@),
{
    let cs = chars_of(line);
    let n: usize = cs.len();
    let mut open_text = "<".to_owned();
    open_text.append(tag);
    let open_prefix = chars_of(open_text.as_str());
    let close = tagged("</", tag, ">");
    let close_tag = chars_of(close.as_str());
    let gt_text = chars_of(">");
    proof {
        reveal_strlit(">");
    }
    let open = find_chars(&cs, &open_prefix, 0);
    let end = find_chars(&cs, &close_tag, 0);
    match open {
        Some(a) => {
            match find_chars(&cs, &gt_text, a) {
                Some(g) => {
                    match end {
                        Some(e) => {
                            if g + 1 <= e {
                                let mut r: Vec<Span> = Vec::new();
                                r.push(plain_span(slice_text(&cs, 0, a).as_str()));
                                r.push(
                                    hued_span(Hue::Green, slice_text(&cs, a, g + 1).as_str()),
                                );
                                r.push(
                                    hued_span(
                                        Hue::BrightBlack,
                                        slice_text(&cs, g + 1, e).as_str(),
                                    ),
                                );
                                r.push(hued_span(Hue::Green, close.as_str()));
                                r.push(
                                    plain_span(
                                        slice_text(&cs, e + close_tag.len(), n).as_str(),
                                    ),
                                );
                                assert(span_views(r@) =~= single_line(line@, tag@));
                                return r;
                            }
                        },
                        None => {},
                    }
                },
                None => {},
            }
        },
        None => {},
    }
    one(hued_span(Hue::Green, line))
}

/// The sigil tag names.
fn tag_names() -> (r: Vec<String>)
    ensures
        texts(r@) == sigil_tags(),
{
    let mut r: Vec<String> = Vec::new();
    r.push("task-done".to_owned());
    r.push("task-failed".to_owned());
    r.push("next-model".to_owned());
    r.push("journal".to_owned());
    r.push("knowledge".to_owned());
    r.push("promise".to_owned());
    r.push("verify-pass".to_owned());
    r.push("verify-fail".to_owned());
    assert(texts(r@) =~= sigil_tags());
    r
}

/// Formats a line containing sigil markup with colored tags.
///
/// Returns `Some(spans)` if the line contains a sigil, `None` otherwise.
/// Handles single-line sigils (`<tag>content</tag>`), self-closing
/// (`<verify-pass/>`), opening tags, closing tags, and content lines within
/// multi-line sigils.
pub fn format_sigil_line(line: &str, in_sigil: &mut Option<String>) -> (r: Option<Vec<Span>>)
    ensures
        match sigil_plan(line@, opt_text(*old(in_sigil))) {
            Some(p) => r is Some && span_views(r->0@) == p.spans && opt_text(*final(in_sigil))
                == p.in_sigil,
            None => r is None && *final(in_sigil) == *old(in_sigil),
        },
{
    let t = trimmed(line);
    let open_tag = match in_sigil {
        Some(tag) => Some(tagged("</", tag.as_str(), ">")),
        None => None,
    };
    match open_tag {
        Some(close) => {
            if has(t.as_str(), close.as_str()) {
                *in_sigil = None;
                return Some(one(hued_span(Hue::Green, line)));
            }
            return Some(one(hued_span(Hue::BrightBlack, line)));
        },
        None => {},
    }
    let tags = tag_names();
    assert(texts(tags@).len() == tags@.len());
    let mut k: usize = 0;
    while k < tags.len()
        invariant
            k <= tags@.len(),
            *in_sigil == *old(in_sigil),
            *old(in_sigil) is None,
            t@ == trim(line@),
            texts(tags@) == sigil_tags(),
            tags@.len() == sigil_tags().len(),
            sigil_plan(line@, None) == tag_plan(line@, k as int),
        decreases tags@.len() - k,
    {
        let tag = tags[k].as_str();
        assert(texts(tags@)[k as int] == tag@);
        let mut open = "<".to_owned();
        open.append(tag);
        if has(t.as_str(), open.as_str()) {
            if has(t.as_str(), tagged("<", tag, "/>").as_str()) {
                return Some(one(hued_span(Hue::Green, line)));
            }
            if has(t.as_str(), tagged("</", tag, ">").as_str()) {
                return Some(format_sigil_single_line(line, tag));
            }
            if has(t.as_str(), tagged("<", tag, ">").as_str()) || has(
                t.as_str(),
                tagged("<", tag, " ").as_str(),
            ) {
                *in_sigil = Some(tags[k].clone());
                return Some(one(hued_span(Hue::Green, line)));
            }
        }
        k = k + 1;
    }
    None
}

/// Works out how a line of markdown is shown.
///
/// Handles:
/// - Fenced code block delimiters (```): toggle state, render dimmed
/// - Lines inside code blocks: gray, no inline formatting
/// - Sigils: colored tags
/// - Headings (`#`, `##`, `###`): bold
/// - Other lines: inline markdown formatting
pub fn markdown_spans(
    line: &str,
    in_code_block: &mut bool,
    in_sigil: &mut Option<String>,
) -> (r: Vec<Span>)
    ensures
        *final(in_code_block) == (if is_fence(line@) {
            !*old(in_code_block)
        } else {
            *old(in_code_block)
        }),
        span_views(r@) == line_plan(line@, *old(in_code_block), opt_text(*old(in_sigil))).spans,
        opt_text(*final(in_sigil)) == line_plan(
            line@,
            *old(in_code_block),
            opt_text(*old(in_sigil)),
        ).in_sigil,
{
    let t = trimmed_start(line, Class::Space);
    if begins(t.as_str(), "```") {
        *in_code_block = !*in_code_block;
        return one(dim_span(line));
    }
    if *in_code_block {
        return one(hued_span(Hue::BrightBlack, line));
    }
    match format_sigil_line(line, in_sigil) {
        Some(spans) => {
            return spans;
        },
        None => {},
    }
    if begins(t.as_str(), "### ") || begins(t.as_str(), "## ") || begins(t.as_str(), "# ") {
        return one(Span { style: Style::Bold, text: line.to_owned() });
    }
    one(plain_span(format_inline_markdown(line).as_str()))
}

/// Formats a single line of markdown for terminal display.
pub fn format_markdown_line(
    line: &str,
    in_code_block: &mut bool,
    in_sigil: &mut Option<String>,
) -> (r: String)
    ensures
        *final(in_code_block) == (if is_fence(line@) {
            !*old(in_code_block)
        } else {
            *old(in_code_block)
        }),
        shows(line_plan(line@, *old(in_code_block), opt_text(*old(in_sigil))).spans, r@),
        opt_text(*final(in_sigil)) == line_plan(
            line@,
            *old(in_code_block),
            opt_text(*old(in_sigil)),
        ).in_sigil,
{
    let spans = markdown_spans(line, in_code_block, in_sigil);
    render(&spans)
}

} // verus!
