//! Styled text for the terminal: spans, lines and the cells that hold them.

use vstd::prelude::*;

verus! {

/// The foreground colours in use.
#[derive(Debug, Clone, Copy, PartialEq, Eq, Structural)]
pub enum Color {
    Cyan,
    Green,
    Magenta,
    Red,
}

/// How a span or a line is shown. `None` keeps the terminal's own colour.
#[derive(Debug, Clone, Copy, PartialEq, Eq, Structural)]
pub struct Style {
    pub fg: Option<Color>,
    pub bold: bool,
    pub dim: bool,
}

/// A piece of text in one style.
#[derive(Debug, PartialEq, Eq)]
pub struct Span {
    pub content: String,
    pub style: Style,
}

/// A line of spans, with a style of its own beneath theirs.
#[derive(Debug, PartialEq, Eq)]
pub struct Line {
    pub spans: Vec<Span>,
    pub style: Style,
}

/// The mathematical content of a span.
pub struct SpanView {
    pub content: Seq<char>,
    pub style: Style,
}

/// The mathematical content of a line.
#[verifier::ext_equal]
pub struct LineView {
    pub spans: Seq<SpanView>,
    pub style: Style,
}

/// The style that changes nothing.
pub open spec fn plain() -> Style {
    Style { fg: None, bold: false, dim: false }
}

/// The style with only a foreground colour.
pub open spec fn colored(color: Color) -> Style {
    Style { fg: Some(color), ..plain() }
}

/// The style with only the dim modifier.
pub open spec fn dimmed() -> Style {
    Style { dim: true, ..plain() }
}

/// The style with only the bold modifier.
pub open spec fn emboldened() -> Style {
    Style { bold: true, ..plain() }
}

/// A span by its content and style.
pub open spec fn span_of(content: Seq<char>, style: Style) -> SpanView {
    SpanView { content, style }
}

/// A line of spans without a style of its own.
pub open spec fn line_of(spans: Seq<SpanView>) -> LineView {
    LineView { spans, style: plain() }
}

/// The contents of some spans.
pub open spec fn span_views(spans: Seq<Span>) -> Seq<SpanView> {
    spans.map_values(|span: Span| span@)
}

/// The contents of some lines.
pub open spec fn line_views(lines: Seq<Line>) -> Seq<LineView> {
    lines.map_values(|line: Line| line@)
}

/// The characters of a line, one span after the other.
pub open spec fn line_text(line: LineView) -> Seq<char> {
    line.spans.map_values(|span: SpanView| span.content).flatten()
}

/// A line with one more span in front.
pub open spec fn with_prefix(prefix: SpanView, line: LineView) -> LineView {
    LineView { spans: seq![prefix] + line.spans, style: line.style }
}

/// Lines of which the first has one prefix and each later one another.
pub open spec fn prefixed_lines(
    lines: Seq<LineView>,
    initial_prefix: SpanView,
    subsequent_prefix: SpanView,
) -> Seq<LineView> {
    Seq::new(
        lines.len(),
        |i: int|
            with_prefix(
                if i == 0 {
                    initial_prefix
                } else {
                    subsequent_prefix
                },
                lines[i],
            ),
    )
}

pub broadcast proof fn lemma_span_views_push(spans: Seq<Span>, span: Span)
    ensures
        #[trigger] span_views(spans.push(span)) == span_views(spans).push(span@),
{
    assert(span_views(spans.push(span)) =~= span_views(spans).push(span@));
}

pub broadcast proof fn lemma_line_views_push(lines: Seq<Line>, line: Line)
    ensures
        #[trigger] line_views(lines.push(line)) == line_views(lines).push(line@),
{
    assert(line_views(lines.push(line)) =~= line_views(lines).push(line@));
}

pub broadcast group group_line_views {
    lemma_span_views_push,
    lemma_line_views_push,
}

impl View for Span {
    type V = SpanView;

    open spec fn view(&self) -> SpanView {
        SpanView { content: self.content@, style: self.style }
    }
}

impl View for Line {
    type V = LineView;

    open spec fn view(&self) -> LineView {
        LineView { spans: span_views(self.spans@), style: self.style }
    }
}

impl Style {
    /// The style that changes nothing.
    pub fn plain() -> (r: Style)
        ensures
            r == plain(),
    {
        Style { fg: None, bold: false, dim: false }
    }
}

impl Default for Style {
    fn default() -> (r: Style)
        ensures
            r == plain(),
    {
        Style::plain()
    }
}

impl Span {
    /// A span without any style.
    pub fn raw(content: String) -> (r: Span)
        ensures
            r@ == span_of(content@, plain()),
    {
        Span { content, style: Style::plain() }
    }

    /// A span of a fixed text.
    pub fn text(content: &str) -> (r: Span)
        ensures
            r@ == span_of(content@, plain()),
    {
        Span { content: content.to_string(), style: Style::plain() }
    }

    /// Sets the foreground colour.
    pub fn fg(self, color: Color) -> (r: Span)
        ensures
            r@ == span_of(self@.content, Style { fg: Some(color), ..self@.style }),
    {
        Span { content: self.content, style: Style { fg: Some(color), ..self.style } }
    }

    /// Adds the bold modifier.
    pub fn bold(self) -> (r: Span)
        ensures
            r@ == span_of(self@.content, Style { bold: true, ..self@.style }),
    {
        Span { content: self.content, style: Style { bold: true, ..self.style } }
    }

    /// Adds the dim modifier.
    pub fn dim(self) -> (r: Span)
        ensures
            r@ == span_of(self@.content, Style { dim: true, ..self@.style }),
    {
        Span { content: self.content, style: Style { dim: true, ..self.style } }
    }
}

impl Clone for Span {
    fn clone(&self) -> (r: Span)
        ensures
            r@ == self@,
    {
        Span { content: self.content.clone(), style: self.style }
    }
}

impl Line {
    /// A line of spans.
    pub fn new(spans: Vec<Span>) -> (r: Line)
        ensures
            r@ == line_of(span_views(spans@)),
    {
        Line { spans, style: Style::plain() }
    }

    /// A line of one span.
    pub fn single(span: Span) -> (r: Line)
        ensures
            r@ == line_of(seq![span@]),
    {
        let line = Line { spans: vec![span], style: Style::plain() };
        proof {
            assert(line@.spans =~= seq![span@]);
        }
        line
    }
}

impl Clone for Line {
    fn clone(&self) -> (r: Line)
        ensures
            r@ == self@,
    {
        let mut spans: Vec<Span> = Vec::new();
        for i in 0..self.spans.len()
            invariant
                span_views(spans@) == self@.spans.take(i as int),
        {
            spans.push(self.spans[i].clone());
            proof {
                broadcast use group_line_views;

                assert(self@.spans.take(i + 1) =~= self@.spans.take(i as int).push(
                    self.spans@[i as int]@,
                ));
            }
        }
        proof {
            assert(self@.spans.take(self.spans@.len() as int) =~= self@.spans);
        }
        Line { spans, style: self.style }
    }
}

/// Copies lines.
pub fn clone_lines(lines: &Vec<Line>) -> (r: Vec<Line>)
    ensures
        line_views(r@) == line_views(lines@),
{
    let mut out: Vec<Line> = Vec::new();
    for i in 0..lines.len()
        invariant
            line_views(out@) == line_views(lines@).take(i as int),
    {
        out.push(lines[i].clone());
        proof {
            broadcast use group_line_views;

            assert(line_views(lines@).take(i + 1) =~= line_views(lines@).take(i as int).push(
                lines@[i as int]@,
            ));
        }
    }
    proof {
        assert(line_views(lines@).take(lines@.len() as int) =~= line_views(lines@));
    }
    out
}

/// Puts a prefix before each line: one before the first, another before the rest.
pub fn prefix_lines(
    lines: Vec<Line>,
    initial_prefix: Span,
    subsequent_prefix: Span,
) -> (r: Vec<Line>)
    ensures
        line_views(r@) == prefixed_lines(line_views(lines@), initial_prefix@, subsequent_prefix@),
{
    let mut out: Vec<Line> = Vec::new();
    let ghost expected = prefixed_lines(line_views(lines@), initial_prefix@, subsequent_prefix@);
    let mut first: bool = true;
    for line in it: lines
        invariant
            it.seq() == lines@,
            expected == prefixed_lines(line_views(lines@), initial_prefix@, subsequent_prefix@),
            first == (it.index() == 0),
            line_views(out@) == expected.take(it.index()),
    {
        let mut line = line;
        let ghost before = line@;
        let mut spans: Vec<Span> = Vec::new();
        if first {
            spans.push(initial_prefix.clone());
        } else {
            spans.push(subsequent_prefix.clone());
        }
        spans.append(&mut line.spans);
        let prefixed = Line { spans, style: line.style };
        proof {
            let prefix = if first {
                initial_prefix@
            } else {
                subsequent_prefix@
            };
            assert(prefixed@.spans =~= seq![prefix] + before.spans);
            assert(line_views(lines@)[it.index()] == before);
        }
        out.push(prefixed);
        first = false;
        proof {
            broadcast use group_line_views;

            assert(expected.take(it.index() + 1) =~= expected.take(it.index()).push(prefixed@));
        }
    }
    proof {
        assert(expected.take(lines@.len() as int) =~= expected);
    }
    out
}

/// A finished block of the transcript.
#[derive(Debug)]
pub struct PlainHistoryCell {
    lines: Vec<Line>,
}

impl View for PlainHistoryCell {
    type V = Seq<LineView>;

    closed spec fn view(&self) -> Seq<LineView> {
        line_views(self.lines@)
    }
}

impl PlainHistoryCell {
    /// A cell that shows the given lines.
    pub fn new(lines: Vec<Line>) -> (r: PlainHistoryCell)
        ensures
            r@ == line_views(lines@),
    {
        PlainHistoryCell { lines }
    }

    /// The lines of the cell, whatever the width of the terminal.
    pub fn display_lines(&self, width: u16) -> (r: Vec<Line>)
        ensures
            line_views(r@) == self@,
    {
        clone_lines(&self.lines)
    }
}

} // verus!
