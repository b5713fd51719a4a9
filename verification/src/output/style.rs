//! Styled text.

use vstd::prelude::*;

use crate::text::search::find_from;

use colored::Colorize;

verus! {

/// A colour of the terminal.
#[derive(Debug, Clone, Copy, PartialEq, Eq, Structural)]
pub enum Hue {
    Red,
    Green,
    Yellow,
    Blue,
    Magenta,
    Cyan,
    BrightBlack,
    BrightRed,
    BrightCyan,
}

/// How a text is shown.
#[derive(Debug, Clone, Copy, PartialEq, Eq, Structural)]
pub enum Style {
    Plain,
    Color(Hue),
    Bold,
    BoldYellow,
    Dimmed,
}

/// The ANSI code of a colour.
pub open spec fn hue_code(h: Hue) -> Seq<char> {
    match h {
        Hue::Red => "31"@,
        Hue::Green => "32"@,
        Hue::Yellow => "33"@,
        Hue::Blue => "34"@,
        Hue::Magenta => "35"@,
        Hue::Cyan => "36"@,
        Hue::BrightBlack => "90"@,
        Hue::BrightRed => "91"@,
        Hue::BrightCyan => "96"@,
    }
}

/// The escape sequence with these codes.
pub open spec fn escape(codes: Seq<char>) -> Seq<char> {
    "\x1b["@ + codes + "m"@
}

/// The text from `from` on, with the escape sequence repeated behind each reset
/// sequence in it.
pub open spec fn restyled(s: Seq<char>, start: Seq<char>, from: int) -> Seq<char>
    decreases s.len() - from,
{
    match find_from(s, "\x1b[0m"@, from) {
        Some(i) => if from <= i && i + 4 <= s.len() {
            s.subrange(from, i + 4) + start + restyled(s, start, i + 4)
        } else {
            s.subrange(from, s.len() as int)
        },
        None => s.subrange(from, s.len() as int),
    }
}

/// The text between the escape sequence with these codes and a reset sequence.
pub open spec fn escaped(s: Seq<char>, codes: Seq<char>) -> Seq<char> {
    escape(codes) + restyled(s, escape(codes), 0) + "\x1b[0m"@
}

/// The codes of a style.
pub open spec fn style_codes(k: Style) -> Seq<char> {
    match k {
        Style::Plain => Seq::empty(),
        Style::Color(h) => hue_code(h),
        Style::Bold => "1"@,
        Style::BoldYellow => "1;33"@,
        Style::Dimmed => "2"@,
    }
}

/// What may be shown for a styled text: the text itself, or, unless it is
/// plain, the text between escape sequences. Which of the two it is depends on
/// the terminal and the environment.
pub open spec fn shown_as(span: (Style, Seq<char>), out: Seq<char>) -> bool {
    out == span.1 || (span.0 != Style::Plain && out == escaped(span.1, style_codes(span.0)))
}

/// `Colorize::color` sets the colour of a text. `ColoredString` is shown as the
/// text alone where colours are off, and else between the colour's escape
/// sequence and a reset sequence; behind each reset sequence in the text the
/// colour is set again. Whether colours are on depends on the environment.
#[verifier::external_body]
fn in_color(text: &str, h: Hue) -> (r: String)
    ensures
        r@ == text@ || r@ == escaped(text@, hue_code(h)),
{
    let color = match h {
        Hue::Red => colored::Color::Red,
        Hue::Green => colored::Color::Green,
        Hue::Yellow => colored::Color::Yellow,
        Hue::Blue => colored::Color::Blue,
        Hue::Magenta => colored::Color::Magenta,
        Hue::Cyan => colored::Color::Cyan,
        Hue::BrightBlack => colored::Color::BrightBlack,
        Hue::BrightRed => colored::Color::BrightRed,
        Hue::BrightCyan => colored::Color::BrightCyan,
    };
    text.color(color).to_string()
}

/// `Colorize::bold` on a plain text: as with a colour, with the code for bold.
#[verifier::external_body]
fn in_bold(text: &str) -> (r: String)
    ensures
        r@ == text@ || r@ == escaped(text@, "1"@),
{
    text.bold().to_string()
}

/// `Colorize::dimmed` on a plain text: as with a colour, with the code for
/// dimmed.
#[verifier::external_body]
fn dimmed(text: &str) -> (r: String)
    ensures
        r@ == text@ || r@ == escaped(text@, "2"@),
{
    text.dimmed().to_string()
}

/// `Colorize::bold` on a text that `Colorize::yellow` has coloured: the codes
/// for bold and yellow come together.
#[verifier::external_body]
fn in_bold_yellow(text: &str) -> (r: String)
    ensures
        r@ == text@ || r@ == escaped(text@, "1;33"@),
{
    text.yellow().bold().to_string()
}

/// A piece of text with its style.
#[derive(Debug)]
pub struct Span {
    pub style: Style,
    pub text: String,
}

impl View for Span {
    type V = (Style, Seq<char>);

    open spec fn view(&self) -> (Style, Seq<char>) {
        (self.style, self.text@)
    }
}

/// The views of a list of spans.
pub open spec fn span_views(v: Seq<Span>) -> Seq<(Style, Seq<char>)> {
    v.map_values(|s: Span| s@)
}

/// A span without a style.
pub open spec fn plain(t: Seq<char>) -> (Style, Seq<char>) {
    (Style::Plain, t)
}

/// A span in a colour.
pub open spec fn hued(h: Hue, t: Seq<char>) -> (Style, Seq<char>) {
    (Style::Color(h), t)
}

/// A dimmed span.
pub open spec fn dim(t: Seq<char>) -> (Style, Seq<char>) {
    (Style::Dimmed, t)
}

/// What may be shown for a list of spans: what may be shown for each, one after
/// the other.
pub open spec fn shows(s: Seq<(Style, Seq<char>)>, out: Seq<char>) -> bool
    decreases s.len(),
{
    if s.len() == 0 {
        out.len() == 0
    } else {
        exists|k: int|
            0 <= k <= out.len() && shows(s.drop_last(), #[trigger] out.take(k)) && shown_as(
                s.last(),
                out.skip(k),
            )
    }
}

/// The text of a list of spans, without styles.
pub open spec fn bare_text(s: Seq<(Style, Seq<char>)>) -> Seq<char>
    decreases s.len(),
{
    if s.len() == 0 {
        Seq::empty()
    } else {
        bare_text(s.drop_last()) + s.last().1
    }
}

/// Where no span has a style, its text is what is shown.
pub proof fn law_plain_is_shown_as_is(s: Seq<(Style, Seq<char>)>, out: Seq<char>)
    requires
        shows(s, out),
        forall|i: int| 0 <= i < s.len() ==> (#[trigger] s[i]).0 == Style::Plain,
    ensures
        out == bare_text(s),
    decreases s.len(),
{
    if s.len() == 0 {
        assert(out =~= Seq::empty());
    } else {
        let k = choose|k: int|
            0 <= k <= out.len() && shows(s.drop_last(), #[trigger] out.take(k)) && shown_as(
                s.last(),
                out.skip(k),
            );
        law_plain_is_shown_as_is(s.drop_last(), out.take(k));
        assert(s[s.len() - 1].0 == Style::Plain);
        assert(out =~= out.take(k) + out.skip(k));
    }
}

/// Shows one span.
fn paint(span: &Span) -> (r: String)
    ensures
        shown_as(span@, r@),
{
    match span.style {
        Style::Plain => span.text.clone(),
        Style::Color(h) => in_color(span.text.as_str(), h),
        Style::Bold => in_bold(span.text.as_str()),
        Style::BoldYellow => in_bold_yellow(span.text.as_str()),
        Style::Dimmed => dimmed(span.text.as_str()),
    }
}

/// Shows a list of spans.
pub fn render(spans: &Vec<Span>) -> (r: String)
    ensures
        shows(span_views(spans@), r@),
{
    let ghost all = span_views(spans@);
    let mut r = String::new();
    let mut i: usize = 0;
    assert(all.take(0) =~= Seq::empty());
    while i < spans.len()
        invariant
            i <= spans@.len(),
            all == span_views(spans@),
            shows(all.take(i as int), r@),
        decreases spans@.len() - i,
    {
        let part = paint(&spans[i]);
        let ghost before = r@;
        r.append(part.as_str());
        assert(all.take(i + 1).drop_last() =~= all.take(i as int));
        assert(all[i as int] == spans@[i as int]@);
        assert(r@.take(before.len() as int) =~= before);
        assert(r@.skip(before.len() as int) =~= part@);
        assert(shows(all.take(i + 1), r@));
        i = i + 1;
    }
    assert(all.take(all.len() as int) =~= all);
    r
}

/// A span without a style.
pub fn plain_span(t: &str) -> (r: Span)
    ensures
        r@ == plain(t@),
{
    Span { style: Style::Plain, text: t.to_owned() }
}

/// A span in a colour.
pub fn hued_span(h: Hue, t: &str) -> (r: Span)
    ensures
        r@ == hued(h, t@),
{
    Span { style: Style::Color(h), text: t.to_owned() }
}

/// A dimmed span.
pub fn dim_span(t: &str) -> (r: Span)
    ensures
        r@ == dim(t@),
{
    Span { style: Style::Dimmed, text: t.to_owned() }
}

} // verus!
