//! Styled text.
use crate::text;
use vstd::prelude::*;
use vstd::string::*;

verus! {

/// A color.
#[derive(Debug, Clone, Copy, PartialEq, Eq, Structural)]
pub enum Color {
    Red,
    Green,
    Yellow,
    Blue,
    Magenta,
    Cyan,
    Gray,
    DarkGray,
    Rgb(u8, u8, u8),
}

/// How a text looks.
#[derive(Debug, Clone, Copy, PartialEq, Eq, Structural)]
pub struct Style {
    pub fg: Option<Color>,
    pub bold: bool,
    pub struck: bool,
}

impl Style {
    /// The look of ordinary text.
    pub open spec fn is_plain() -> Style {
        Style { fg: None, bold: false, struck: false }
    }

    /// The look of text in a color.
    pub open spec fn in_color(c: Color) -> Style {
        Style { fg: Some(c), bold: false, struck: false }
    }

    /// The look of ordinary text.
    pub fn plain() -> (r: Style)
        ensures
            r == Style::is_plain(),
    {
        Style { fg: None, bold: false, struck: false }
    }

    /// The look of text in a color.
    pub fn color(c: Color) -> (r: Style)
        ensures
            r == Style::in_color(c),
    {
        Style { fg: Some(c), bold: false, struck: false }
    }
}

/// A piece of text with one look.
#[derive(Debug)]
pub struct Span {
    pub text: String,
    pub style: Style,
}

/// What a [`Span`] stands for.
#[verifier::ext_equal]
pub struct SpanV {
    pub text: Seq<char>,
    pub style: Style,
}

impl View for Span {
    type V = SpanV;

    open spec fn view(&self) -> SpanV {
        SpanV { text: self.text@, style: self.style }
    }
}

/// A line of text: its pieces, and the look that they share.
#[derive(Debug)]
pub struct Line {
    pub spans: Vec<Span>,
    pub style: Style,
}

/// What a [`Line`] stands for.
#[verifier::ext_equal]
pub struct LineV {
    pub spans: Seq<SpanV>,
    pub style: Style,
}

impl View for Line {
    type V = LineV;

    open spec fn view(&self) -> LineV {
        LineV { spans: text::views(self.spans@), style: self.style }
    }
}

/// A piece of text with one look.
pub open spec fn styled(text: Seq<char>, style: Style) -> SpanV {
    SpanV { text, style }
}

/// A piece of ordinary text.
pub open spec fn raw(text: Seq<char>) -> SpanV {
    SpanV { text, style: Style::is_plain() }
}

/// A line of pieces.
pub open spec fn line_of(spans: Seq<SpanV>) -> LineV {
    LineV { spans, style: Style::is_plain() }
}

/// A line with one look.
pub open spec fn whole_line(text: Seq<char>, style: Style) -> LineV {
    LineV { spans: seq![raw(text)], style }
}

/// Adds a piece of text.
pub fn push_span(spans: &mut Vec<Span>, text: String, style: Style)
    ensures
        text::views(final(spans)@) == text::views(old(spans)@).push(styled(text@, style)),
{
    let ghost before = text::views(spans@);
    spans.push(Span { text, style });
    assert(text::views(spans@) =~= before.push(styled(text@, style)));
}

/// No pieces of text.
pub fn no_spans() -> (r: Vec<Span>)
    ensures
        text::views(r@) == Seq::<SpanV>::empty(),
{
    let r: Vec<Span> = Vec::new();
    assert(text::views(r@) =~= Seq::<SpanV>::empty());
    r
}

/// A line of pieces.
pub fn make_line(spans: Vec<Span>) -> (r: Line)
    ensures
        r@ == line_of(text::views(spans@)),
{
    Line { spans, style: Style::plain() }
}

/// A line with one look.
pub fn full_line(text: String, style: Style) -> (r: Line)
    ensures
        r@ == whole_line(text@, style),
{
    let mut spans = no_spans();
    push_span(&mut spans, text, Style::plain());
    assert(text::views(spans@) =~= seq![raw(text@)]);
    Line { spans, style }
}

/// Adds a line.
pub fn push_styled(lines: &mut Vec<Line>, line: Line)
    ensures
        text::views(final(lines)@) == text::views(old(lines)@).push(line@),
{
    let ghost before = text::views(lines@);
    lines.push(line);
    assert(text::views(lines@) =~= before.push(line@));
}

/// No lines.
pub fn no_lines() -> (r: Vec<Line>)
    ensures
        text::views(r@) == Seq::<LineV>::empty(),
{
    let r: Vec<Line> = Vec::new();
    assert(text::views(r@) =~= Seq::<LineV>::empty());
    r
}

/// One line.
pub fn one_line(line: Line) -> (r: Vec<Line>)
    ensures
        text::views(r@) == seq![line@],
{
    let mut r = no_lines();
    push_styled(&mut r, line);
    assert(text::views(r@) =~= seq![line@]);
    r
}

} // verus!
