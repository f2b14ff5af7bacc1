//! Styled text: colors, attribute flags, styles, spans and lines.

use crate::text::{is_line_break, lemma_unbroken_concat, unbroken};
use vstd::prelude::*;
use vstd::string::StringExecFns;

verus! {

/// A terminal color.
#[derive(Clone, Copy, Debug, PartialEq, Eq, Hash)]
pub enum TermColor {
    Reset,
    Black,
    Red,
    Green,
    Yellow,
    Blue,
    Magenta,
    Cyan,
    Gray,
    DarkGray,
    LightRed,
    LightGreen,
    LightYellow,
    LightBlue,
    LightMagenta,
    LightCyan,
    White,
    Rgb(u8, u8, u8),
    Indexed(u8),
}

/// A set of text attributes, one bit per attribute. The associated
/// constants are the single attributes; several are combined with `|`.
#[derive(Clone, Copy, Debug, PartialEq, Eq, Hash)]
pub struct Modifier {
    pub bits: u16,
}

impl Modifier {
    /// Bold text.
    pub const BOLD: u16 = 0x001;

    /// Dim text.
    pub const DIM: u16 = 0x002;

    /// Italic text.
    pub const ITALIC: u16 = 0x004;

    /// Underlined text.
    pub const UNDERLINED: u16 = 0x008;

    /// Slowly blinking text.
    pub const SLOW_BLINK: u16 = 0x010;

    /// Rapidly blinking text.
    pub const RAPID_BLINK: u16 = 0x020;

    /// Foreground and background exchanged.
    pub const REVERSED: u16 = 0x040;

    /// Hidden text.
    pub const HIDDEN: u16 = 0x080;

    /// Crossed-out text.
    pub const CROSSED_OUT: u16 = 0x100;

    /// The set with no attribute.
    pub fn empty() -> (m: Modifier)
        ensures
            m.bits == 0,
    {
        Modifier { bits: 0 }
    }

    /// Whether no attribute is set.
    pub fn is_empty(&self) -> (b: bool)
        ensures
            b == (self.bits == 0),
    {
        self.bits == 0
    }

    /// Whether every attribute of `flags` is set in `self`.
    pub open spec fn spec_contains(&self, flags: u16) -> bool {
        self.bits & flags == flags
    }

    /// Whether every attribute of `flags` is set in `self`.
    #[verifier::when_used_as_spec(spec_contains)]
    pub fn contains(&self, flags: u16) -> (b: bool)
        ensures
            b == self.spec_contains(flags),
    {
        self.bits & flags == flags
    }

    /// The attributes set in `self` or in `flags`.
    pub open spec fn spec_union(self, flags: u16) -> Modifier {
        Modifier { bits: self.bits | flags }
    }

    /// The attributes set in `self` or in `flags`.
    #[verifier::when_used_as_spec(spec_union)]
    pub fn union(self, flags: u16) -> (m: Modifier)
        ensures
            m == self.spec_union(flags),
    {
        Modifier { bits: self.bits | flags }
    }

    /// The attributes set in `self` and not in `flags`.
    pub open spec fn spec_difference(self, flags: u16) -> Modifier {
        Modifier { bits: self.bits & !flags }
    }

    /// The attributes set in `self` and not in `flags`.
    #[verifier::when_used_as_spec(spec_difference)]
    pub fn difference(self, flags: u16) -> (m: Modifier)
        ensures
            m == self.spec_difference(flags),
    {
        Modifier { bits: self.bits & !flags }
    }
}

/// How a run of text is displayed: optional colors, attributes to switch on
/// and attributes to switch off.
#[derive(Clone, Copy, Debug, PartialEq, Eq, Hash)]
pub struct TextStyle {
    pub fg: Option<TermColor>,
    pub bg: Option<TermColor>,
    pub underline_color: Option<TermColor>,
    pub add_modifier: Modifier,
    pub sub_modifier: Modifier,
}

impl TextStyle {
    /// The style that changes nothing.
    pub open spec fn plain() -> TextStyle {
        TextStyle {
            fg: None,
            bg: None,
            underline_color: None,
            add_modifier: Modifier { bits: 0 },
            sub_modifier: Modifier { bits: 0 },
        }
    }

    /// The style that changes nothing.
    pub fn new() -> (s: TextStyle)
        ensures
            s == TextStyle::plain(),
    {
        TextStyle {
            fg: None,
            bg: None,
            underline_color: None,
            add_modifier: Modifier { bits: 0 },
            sub_modifier: Modifier { bits: 0 },
        }
    }

    /// `self` with the foreground color set.
    pub open spec fn spec_fg(self, color: TermColor) -> TextStyle {
        TextStyle { fg: Some(color), ..self }
    }

    /// `self` with the foreground color set.
    #[verifier::when_used_as_spec(spec_fg)]
    pub fn fg(self, color: TermColor) -> (s: TextStyle)
        ensures
            s == self.spec_fg(color),
    {
        TextStyle { fg: Some(color), ..self }
    }

    /// `self` with the background color set.
    pub open spec fn spec_bg(self, color: TermColor) -> TextStyle {
        TextStyle { bg: Some(color), ..self }
    }

    /// `self` with the background color set.
    #[verifier::when_used_as_spec(spec_bg)]
    pub fn bg(self, color: TermColor) -> (s: TextStyle)
        ensures
            s == self.spec_bg(color),
    {
        TextStyle { bg: Some(color), ..self }
    }

    /// `self` with the attributes of `modifier` switched on.
    pub open spec fn spec_add_modifier(self, modifier: u16) -> TextStyle {
        TextStyle {
            add_modifier: self.add_modifier.spec_union(modifier),
            sub_modifier: self.sub_modifier.spec_difference(modifier),
            ..self
        }
    }

    /// `self` with the attributes of `modifier` switched on.
    #[verifier::when_used_as_spec(spec_add_modifier)]
    pub fn add_modifier(self, modifier: u16) -> (s: TextStyle)
        ensures
            s == self.spec_add_modifier(modifier),
    {
        TextStyle {
            add_modifier: self.add_modifier.union(modifier),
            sub_modifier: self.sub_modifier.difference(modifier),
            ..self
        }
    }
}

impl Default for TextStyle {
    fn default() -> (s: TextStyle)
        ensures
            s == TextStyle::plain(),
    {
        TextStyle::new()
    }
}

/// What a span is in contracts: its characters and its style.
pub ghost struct SpanView {
    pub content: Seq<char>,
    pub style: TextStyle,
}

/// A run of text with one style.
#[derive(Debug, PartialEq, Eq)]
pub struct StyledSpan {
    pub content: String,
    pub style: TextStyle,
}

impl View for StyledSpan {
    type V = SpanView;

    open spec fn view(&self) -> SpanView {
        SpanView { content: self.content@, style: self.style }
    }
}

impl Clone for StyledSpan {
    fn clone(&self) -> (out: StyledSpan)
        ensures
            out@ == self@,
    {
        StyledSpan { content: self.content.clone(), style: self.style }
    }
}

impl StyledSpan {
    /// A span of `content` in the plain style.
    pub fn raw(content: &str) -> (out: StyledSpan)
        ensures
            out@ == (SpanView { content: content@, style: TextStyle::plain() }),
    {
        StyledSpan { content: String::from_str(content), style: TextStyle::new() }
    }

    /// A span of `content` in `style`.
    pub fn styled(content: &str, style: TextStyle) -> (out: StyledSpan)
        ensures
            out@ == (SpanView { content: content@, style }),
    {
        StyledSpan { content: String::from_str(content), style }
    }
}

/// The views of a sequence of spans.
pub open spec fn span_views(spans: Seq<StyledSpan>) -> Seq<SpanView> {
    spans.map_values(|s: StyledSpan| s@)
}

/// The characters of a sequence of spans, one span after the other.
pub open spec fn plain_text(spans: Seq<SpanView>) -> Seq<char>
    decreases spans.len(),
{
    if spans.len() == 0 {
        Seq::empty()
    } else {
        plain_text(spans.drop_last()) + spans.last().content
    }
}

/// The text of one span alone is the span's content.
pub proof fn lemma_plain_text_single(span: SpanView)
    ensures
        plain_text(seq![span]) == span.content,
{
    lemma_plain_text_push(Seq::empty(), span);
    assert(Seq::<SpanView>::empty().push(span) =~= seq![span]);
    assert(plain_text(Seq::<SpanView>::empty()) + span.content =~= span.content);
}

/// Whether the spans of a line hold no line break, so that the line fills
/// one terminal row.
pub open spec fn single_row(spans: Seq<SpanView>) -> bool {
    unbroken(plain_text(spans))
}

/// Whether every line of a display fills one terminal row.
pub open spec fn all_single_row(lines: Seq<Seq<SpanView>>) -> bool {
    forall|k: int| 0 <= k < lines.len() ==> single_row(#[trigger] lines[k])
}

/// A line whose spans each hold no line break holds none.
pub proof fn lemma_unbroken_spans_single_row(spans: Seq<SpanView>)
    requires
        forall|k: int| 0 <= k < spans.len() ==> unbroken(#[trigger] spans[k].content),
    ensures
        single_row(spans),
    decreases spans.len(),
{
    if spans.len() > 0 {
        lemma_unbroken_spans_single_row(spans.drop_last());
        assert(unbroken(spans[spans.len() - 1].content));
        lemma_unbroken_concat(plain_text(spans.drop_last()), spans.last().content);
    }
}

/// In a line that fills one row, no span holds a line break.
pub proof fn lemma_single_row_spans(spans: Seq<SpanView>)
    requires
        single_row(spans),
    ensures
        forall|k: int| 0 <= k < spans.len() ==> unbroken(#[trigger] spans[k].content),
    decreases spans.len(),
{
    if spans.len() > 0 {
        let front = plain_text(spans.drop_last());
        let last = spans.last().content;
        assert(plain_text(spans) == front + last);
        assert(unbroken(front)) by {
            assert forall|i: int| 0 <= i < front.len() implies !is_line_break(
                #[trigger] front[i],
            ) by {
                assert(plain_text(spans)[i] == front[i]);
            }
        }
        assert(unbroken(last)) by {
            assert forall|i: int| 0 <= i < last.len() implies !is_line_break(#[trigger] last[i]) by {
                assert(plain_text(spans)[front.len() + i] == last[i]);
            }
        }
        lemma_single_row_spans(spans.drop_last());
        assert forall|k: int| 0 <= k < spans.len() implies unbroken(
            #[trigger] spans[k].content,
        ) by {
            if k < spans.len() - 1 {
                assert(spans[k] == spans.drop_last()[k]);
            }
        }
    }
}

/// Two displays of single rows, one after the other, are a display of
/// single rows.
pub proof fn lemma_all_single_row_concat(a: Seq<Seq<SpanView>>, b: Seq<Seq<SpanView>>)
    requires
        all_single_row(a),
        all_single_row(b),
    ensures
        all_single_row(a + b),
{
    assert forall|k: int| 0 <= k < (a + b).len() implies single_row(#[trigger] (a + b)[k]) by {
        if k < a.len() {
            assert((a + b)[k] == a[k]);
        } else {
            assert((a + b)[k] == b[k - a.len()]);
        }
    }
}

/// One terminal row: spans from left to right.
#[derive(Debug, PartialEq, Eq)]
pub struct StyledLine {
    pub spans: Vec<StyledSpan>,
}

impl View for StyledLine {
    type V = Seq<SpanView>;

    open spec fn view(&self) -> Seq<SpanView> {
        span_views(self.spans@)
    }
}

/// The views of a sequence of lines.
pub open spec fn line_views(lines: Seq<StyledLine>) -> Seq<Seq<SpanView>> {
    lines.map_values(|l: StyledLine| l@)
}

/// The text of one more span follows the text of those before it.
pub proof fn lemma_plain_text_push(spans: Seq<SpanView>, last: SpanView)
    ensures
        plain_text(spans.push(last)) == plain_text(spans) + last.content,
{
    assert(spans.push(last).drop_last() =~= spans);
}

/// The text of two runs of spans, one after the other, is the text of the
/// first followed by the text of the second.
pub proof fn lemma_plain_text_concat(a: Seq<SpanView>, b: Seq<SpanView>)
    ensures
        plain_text(a + b) == plain_text(a) + plain_text(b),
    decreases b.len(),
{
    if b.len() == 0 {
        assert(a + b =~= a);
        assert(plain_text(a) + plain_text(b) =~= plain_text(a));
    } else {
        lemma_plain_text_concat(a, b.drop_last());
        assert((a + b).drop_last() =~= a + b.drop_last());
        assert((a + b).last() == b.last());
        assert(plain_text(a + b) =~= plain_text(a) + plain_text(b));
    }
}

/// Copies a run of spans.
pub fn clone_spans(spans: &Vec<StyledSpan>) -> (out: Vec<StyledSpan>)
    ensures
        span_views(out@) == span_views(spans@),
{
    let mut out: Vec<StyledSpan> = Vec::new();
    let mut i: usize = 0;
    while i < spans.len()
        invariant
            i <= spans.len(),
            out.len() == i,
            forall|k: int| 0 <= k < i ==> out@[k]@ == spans@[k]@,
        decreases spans.len() - i,
    {
        out.push(spans[i].clone());
        i += 1;
    }
    assert(span_views(out@) =~= span_views(spans@));
    out
}

/// Copies a run of lines.
pub fn clone_lines(lines: &Vec<StyledLine>) -> (out: Vec<StyledLine>)
    ensures
        line_views(out@) == line_views(lines@),
{
    let mut out: Vec<StyledLine> = Vec::new();
    let mut i: usize = 0;
    while i < lines.len()
        invariant
            i <= lines.len(),
            out.len() == i,
            forall|k: int| 0 <= k < i ==> out@[k]@ == lines@[k]@,
        decreases lines.len() - i,
    {
        out.push(lines[i].clone());
        i += 1;
    }
    assert(line_views(out@) =~= line_views(lines@));
    out
}

impl Clone for StyledLine {
    fn clone(&self) -> (out: StyledLine)
        ensures
            out@ == self@,
    {
        StyledLine { spans: clone_spans(&self.spans) }
    }
}

impl StyledLine {
    /// The line without any span.
    pub fn new() -> (out: StyledLine)
        ensures
            out@ == Seq::<SpanView>::empty(),
    {
        let out = StyledLine { spans: Vec::new() };
        assert(out@ =~= Seq::<SpanView>::empty());
        out
    }

    /// The line of one span, `content` in the plain style.
    pub fn raw(content: &str) -> (out: StyledLine)
        ensures
            out@ == seq![SpanView { content: content@, style: TextStyle::plain() }],
    {
        StyledLine::from_span(StyledSpan::raw(content))
    }

    /// The line of one span, `content` in `style`.
    pub fn styled(content: &str, style: TextStyle) -> (out: StyledLine)
        ensures
            out@ == seq![SpanView { content: content@, style }],
    {
        StyledLine::from_span(StyledSpan::styled(content, style))
    }

    /// The line of the one span given.
    pub fn from_span(span: StyledSpan) -> (out: StyledLine)
        ensures
            out@ == seq![span@],
    {
        let mut spans: Vec<StyledSpan> = Vec::new();
        spans.push(span);
        let out = StyledLine { spans };
        assert(out@ =~= seq![span@]);
        out
    }

    /// The line of the spans given, in their order.
    pub fn from_spans(spans: Vec<StyledSpan>) -> (out: StyledLine)
        ensures
            out@ == span_views(spans@),
    {
        StyledLine { spans }
    }

    /// The characters of the line, without their styles.
    pub fn to_string(&self) -> (out: String)
        ensures
            out@ == plain_text(self@),
    {
        let mut out = String::new();
        let mut i: usize = 0;
        while i < self.spans.len()
            invariant
                i <= self.spans.len(),
                out@ == plain_text(self@.take(i as int)),
            decreases self.spans.len() - i,
        {
            proof {
                lemma_plain_text_push(self@.take(i as int), self@[i as int]);
                assert(self@.take(i + 1) =~= self@.take(i as int).push(self@[i as int]));
            }
            out.append(self.spans[i].content.as_str());
            i += 1;
        }
        assert(self@.take(i as int) =~= self@);
        out
    }
}

} // verus!
