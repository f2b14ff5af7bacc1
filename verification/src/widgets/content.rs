//! The content pane: the visible window of an iteration's lines, with the
//! matches of a search highlighted.

use crate::state::{window, IterationBuffer};
use crate::style::{
    lemma_plain_text_concat, lemma_plain_text_push, lemma_plain_text_single, line_views,
    plain_text, single_row, span_views, Modifier, SpanView, StyledLine, StyledSpan, TermColor,
    TextStyle,
};
use crate::text::chars_of;
use vstd::prelude::*;
use vstd::string::StringExecFns;

verus! {

/// The style that marks a match of the search.
pub open spec fn highlight_style() -> TextStyle {
    TextStyle::plain().spec_fg(TermColor::Black).spec_bg(TermColor::Yellow).spec_add_modifier(
        Modifier::REVERSED,
    )
}

/// The style that marks a match of the search.
pub fn match_style() -> (style: TextStyle)
    ensures
        style == highlight_style(),
{
    TextStyle::new().fg(TermColor::Black).bg(TermColor::Yellow).add_modifier(Modifier::REVERSED)
}

/// Whether `needle` stands in `hay` at position `i`.
pub open spec fn occurs_at(hay: Seq<char>, needle: Seq<char>, i: int) -> bool {
    0 <= i && i + needle.len() <= hay.len() && hay.subrange(i, i + needle.len()) == needle
}

/// The span for what is left of `content` from `from` on, in the span's own
/// style; no span where nothing is left.
pub open spec fn tail_piece(content: Seq<char>, style: TextStyle, from: int) -> Seq<SpanView> {
    if from < content.len() {
        seq![SpanView { content: content.subrange(from, content.len() as int), style }]
    } else {
        Seq::empty()
    }
}

/// The span for the unmatched text of `content` between `from` and `to`, in
/// the span's own style; no span where the two meet.
pub open spec fn gap_piece(content: Seq<char>, style: TextStyle, from: int, to: int) -> Seq<
    SpanView,
> {
    if from < to {
        seq![SpanView { content: content.subrange(from, to), style }]
    } else {
        Seq::empty()
    }
}

/// The pieces into which the text of a span is cut from `from` on, where
/// the search goes on at `cursor`: `lower` is the lower-cased text, in which
/// `needle` is looked for from left to right. Each occurrence becomes a
/// piece in the highlight style, the search going on behind it, so that
/// occurrences never overlap; the text between occurrences keeps the span's
/// own style.
pub open spec fn pieces(
    content: Seq<char>,
    lower: Seq<char>,
    needle: Seq<char>,
    style: TextStyle,
    from: int,
    cursor: int,
) -> Seq<SpanView>
    decreases lower.len() - cursor,
{
    if needle.len() == 0 || cursor < 0 || cursor + needle.len() > lower.len() {
        tail_piece(content, style, from)
    } else if occurs_at(lower, needle, cursor) {
        gap_piece(content, style, from, cursor) + seq![
            SpanView {
                content: content.subrange(cursor, cursor + needle.len()),
                style: highlight_style(),
            },
        ] + pieces(
            content,
            lower,
            needle,
            style,
            cursor + needle.len(),
            cursor + needle.len(),
        )
    } else {
        pieces(content, lower, needle, style, from, cursor + 1)
    }
}

/// A span with the occurrences of `needle` highlighted, where `lower` is
/// the span's text in lower case. The span comes back as it is where it is
/// empty, where there is nothing to look for, and where lower-casing changed
/// the number of characters, so that positions in `lower` are no positions
/// in the span.
pub open spec fn highlighted_span(span: SpanView, lower: Seq<char>, needle: Seq<char>) -> Seq<
    SpanView,
> {
    if span.content.len() == 0 || needle.len() == 0 || lower.len() != span.content.len() {
        seq![span]
    } else {
        pieces(span.content, lower, needle, span.style, 0, 0)
    }
}

/// Whether `needle` occurs in `hay` at or after position `from`.
pub open spec fn occurs_from(hay: Seq<char>, needle: Seq<char>, from: int) -> bool {
    exists|i: int| from <= i && occurs_at(hay, needle, i)
}

/// The text of the pieces of a span is the text of the span from `from` on.
pub proof fn lemma_pieces_text(
    content: Seq<char>,
    lower: Seq<char>,
    needle: Seq<char>,
    style: TextStyle,
    from: int,
    cursor: int,
)
    requires
        0 <= from <= cursor <= content.len(),
        lower.len() == content.len(),
    ensures
        plain_text(pieces(content, lower, needle, style, from, cursor)) == content.subrange(
            from,
            content.len() as int,
        ),
    decreases lower.len() - cursor,
{
    let rest = content.subrange(from, content.len() as int);
    if needle.len() == 0 || cursor + needle.len() > lower.len() {
        if from < content.len() {
            lemma_plain_text_single(SpanView { content: rest, style });
        } else {
            assert(rest =~= Seq::<char>::empty());
        }
    } else if occurs_at(lower, needle, cursor) {
        let end = cursor + needle.len();
        let gap = gap_piece(content, style, from, cursor);
        let hit = SpanView { content: content.subrange(cursor, end), style: highlight_style() };
        let after = pieces(content, lower, needle, style, end, end);
        lemma_pieces_text(content, lower, needle, style, end, end);
        lemma_plain_text_concat(gap + seq![hit], after);
        lemma_plain_text_push(gap, hit);
        assert(gap + seq![hit] =~= gap.push(hit));
        if from < cursor {
            lemma_plain_text_single(SpanView { content: content.subrange(from, cursor), style });
        } else {
            assert(plain_text(gap) =~= content.subrange(from, cursor));
        }
        assert(content.subrange(from, cursor) + content.subrange(cursor, end) + content.subrange(
            end,
            content.len() as int,
        ) =~= rest);
    } else {
        lemma_pieces_text(content, lower, needle, style, from, cursor + 1);
    }
}

/// Highlighting a span changes no character of it: the pieces, one after
/// the other, spell the span's text.
pub proof fn lemma_highlighted_span_text(span: SpanView, lower: Seq<char>, needle: Seq<char>)
    ensures
        plain_text(highlighted_span(span, lower, needle)) == span.content,
{
    if span.content.len() == 0 || needle.len() == 0 || lower.len() != span.content.len() {
        lemma_plain_text_single(span);
    } else {
        lemma_pieces_text(span.content, lower, needle, span.style, 0, 0);
        assert(span.content.subrange(0, span.content.len() as int) =~= span.content);
    }
}

/// Every piece of a span has the span's own style or the highlight style.
pub proof fn lemma_pieces_styles(
    content: Seq<char>,
    lower: Seq<char>,
    needle: Seq<char>,
    style: TextStyle,
    from: int,
    cursor: int,
)
    ensures
        forall|k: int|
            0 <= k < pieces(content, lower, needle, style, from, cursor).len() ==> {
                let piece = #[trigger] pieces(content, lower, needle, style, from, cursor)[k];
                piece.style == style || piece.style == highlight_style()
            },
    decreases lower.len() - cursor,
{
    if needle.len() == 0 || cursor < 0 || cursor + needle.len() > lower.len() {
    } else if occurs_at(lower, needle, cursor) {
        let end = cursor + needle.len();
        lemma_pieces_styles(content, lower, needle, style, end, end);
    } else {
        lemma_pieces_styles(content, lower, needle, style, from, cursor + 1);
    }
}

/// Highlighting a span gives every piece the span's own style or the
/// highlight style: no other style comes into a line.
pub proof fn lemma_highlighted_span_styles(span: SpanView, lower: Seq<char>, needle: Seq<char>)
    ensures
        forall|k: int|
            0 <= k < highlighted_span(span, lower, needle).len() ==> {
                let piece = #[trigger] highlighted_span(span, lower, needle)[k];
                piece.style == span.style || piece.style == highlight_style()
            },
{
    lemma_pieces_styles(span.content, lower, needle, span.style, 0, 0);
}

/// Where `needle` does not occur from `cursor` on, what is left of the span
/// stays in one piece.
pub proof fn lemma_pieces_without_match(
    content: Seq<char>,
    lower: Seq<char>,
    needle: Seq<char>,
    style: TextStyle,
    from: int,
    cursor: int,
)
    requires
        0 <= cursor,
        !occurs_from(lower, needle, cursor),
    ensures
        pieces(content, lower, needle, style, from, cursor) == tail_piece(content, style, from),
    decreases lower.len() - cursor,
{
    if needle.len() == 0 || cursor + needle.len() > lower.len() {
    } else {
        assert(!occurs_at(lower, needle, cursor));
        assert forall|i: int| cursor + 1 <= i implies !occurs_at(lower, needle, i) by {
            assert(cursor <= i);
        }
        lemma_pieces_without_match(content, lower, needle, style, from, cursor + 1);
    }
}

/// A span in which the text searched for does not occur passes through
/// unchanged.
pub proof fn lemma_span_without_match(span: SpanView, lower: Seq<char>, needle: Seq<char>)
    requires
        !occurs_from(lower, needle, 0),
    ensures
        highlighted_span(span, lower, needle) == seq![span],
{
    if span.content.len() == 0 || needle.len() == 0 || lower.len() != span.content.len() {
    } else {
        lemma_pieces_without_match(span.content, lower, needle, span.style, 0, 0);
        assert(span.content.subrange(0, span.content.len() as int) =~= span.content);
        assert(tail_piece(span.content, span.style, 0) =~= seq![span]);
    }
}

/// Whether `needle` stands in `hay` at position `at`.
pub fn matches_at(hay: &Vec<char>, needle: &Vec<char>, at: usize) -> (found: bool)
    requires
        at + needle.len() <= hay.len(),
    ensures
        found == occurs_at(hay@, needle@, at as int),
{
    let mut k: usize = 0;
    while k < needle.len()
        invariant
            k <= needle.len(),
            at + needle.len() <= hay.len(),
            forall|j: int| 0 <= j < k ==> hay@[at + j] == needle@[j],
        decreases needle.len() - k,
    {
        if hay[at + k] != needle[k] {
            assert(hay@.subrange(at as int, at + needle.len())[k as int] != needle@[k as int]);
            return false;
        }
        k += 1;
    }
    assert(hay@.subrange(at as int, at + needle.len()) =~= needle@);
    true
}

/// Cuts a span at the occurrences of `needle` in `lower`, the span's text
/// in lower case, and gives the occurrences the highlight style.
pub fn highlight_span(span: &StyledSpan, lower: &Vec<char>, needle: &Vec<char>) -> (out: Vec<
    StyledSpan,
>)
    ensures
        span_views(out@) == highlighted_span(span@, lower@, needle@),
{
    let content = span.content.as_str();
    let len = content.unicode_len();
    let n = needle.len();
    let mut out: Vec<StyledSpan> = Vec::new();
    if len == 0 || n == 0 || lower.len() != len {
        out.push(span.clone());
        assert(span_views(out@) =~= seq![span@]);
        return out;
    }
    let mut from: usize = 0;
    let mut cursor: usize = 0;
    assert(span_views(out@) + pieces(content@, lower@, needle@, span.style, 0, 0) =~= pieces(
        content@,
        lower@,
        needle@,
        span.style,
        0,
        0,
    ));
    while n <= len - cursor
        invariant
            0 <= from <= cursor <= len,
            len == content@.len(),
            len == lower@.len(),
            n == needle@.len(),
            n > 0,
            content@ == span@.content,
            pieces(content@, lower@, needle@, span.style, 0, 0) == span_views(out@) + pieces(
                content@,
                lower@,
                needle@,
                span.style,
                from as int,
                cursor as int,
            ),
        decreases len - cursor,
    {
        let ghost before = span_views(out@);
        if matches_at(lower, needle, cursor) {
            if cursor > from {
                out.push(StyledSpan::styled(content.substring_char(from, cursor), span.style));
            }
            let ghost with_gap = span_views(out@);
            assert(with_gap =~= before + gap_piece(
                content@,
                span.style,
                from as int,
                cursor as int,
            ));
            out.push(StyledSpan::styled(content.substring_char(cursor, cursor + n), match_style()));
            assert(span_views(out@) =~= with_gap.push(
                SpanView {
                    content: content@.subrange(cursor as int, cursor + n),
                    style: highlight_style(),
                },
            ));
            cursor = cursor + n;
            from = cursor;
            assert(pieces(content@, lower@, needle@, span.style, 0, 0) =~= span_views(out@)
                + pieces(content@, lower@, needle@, span.style, from as int, cursor as int));
        } else {
            cursor = cursor + 1;
        }
    }
    let ghost before = span_views(out@);
    if from < len {
        out.push(StyledSpan::styled(content.substring_char(from, len), span.style));
    }
    assert(span_views(out@) =~= before + tail_piece(content@, span.style, from as int));
    out
}

/// What `str::to_lowercase` makes of a text.
pub uninterp spec fn lowercase(text: Seq<char>) -> Seq<char>;

/// Calls `str::to_lowercase`. The contract only names the outcome.
#[verifier::external_body]
fn to_lower(text: &str) -> (lower: String)
    ensures
        lower@ == lowercase(text@),
{
    text.to_lowercase()
}

/// A line with the matches of `query` highlighted, whatever their case:
/// each span cut at the occurrences of the lower-cased query in its own
/// lower-cased text. An empty query leaves the line as it is.
pub open spec fn highlighted(line: Seq<SpanView>, query: Seq<char>) -> Seq<SpanView>
    decreases line.len(),
{
    if query.len() == 0 {
        line
    } else if line.len() == 0 {
        Seq::empty()
    } else {
        highlighted(line.drop_last(), query) + highlighted_span(
            line.last(),
            lowercase(line.last().content),
            lowercase(query),
        )
    }
}

/// Highlighting changes no character of a line, only the styles in which
/// the characters are shown.
pub proof fn lemma_highlight_keeps_text(line: Seq<SpanView>, query: Seq<char>)
    ensures
        plain_text(highlighted(line, query)) == plain_text(line),
    decreases line.len(),
{
    if query.len() != 0 && line.len() != 0 {
        lemma_highlight_keeps_text(line.drop_last(), query);
        lemma_highlighted_span_text(
            line.last(),
            lowercase(line.last().content),
            lowercase(query),
        );
        lemma_plain_text_concat(
            highlighted(line.drop_last(), query),
            highlighted_span(line.last(), lowercase(line.last().content), lowercase(query)),
        );
    }
}

/// Highlighting brings no line break into a line: a line that fills one
/// row still does so with its matches highlighted.
pub proof fn lemma_highlight_single_row(line: Seq<SpanView>, query: Seq<char>)
    requires
        single_row(line),
    ensures
        single_row(highlighted(line, query)),
{
    lemma_highlight_keeps_text(line, query);
}

/// With an empty query a line comes back exactly as it is stored.
pub proof fn lemma_empty_query_keeps_line(line: Seq<SpanView>)
    ensures
        highlighted(line, Seq::empty()) == line,
{
}

/// Highlights the matches of a search in a line with a distinct style. The
/// line itself stays as it is; the result is a new line.
pub fn highlight_search_matches(line: &StyledLine, query: &str) -> (out: StyledLine)
    ensures
        out@ == highlighted(line@, query@),
{
    if query.is_empty() {
        return line.clone();
    }
    let query_lower = to_lower(query);
    let needle = chars_of(query_lower.as_str());
    let mut spans: Vec<StyledSpan> = Vec::new();
    let mut i: usize = 0;
    assert(span_views(spans@) =~= highlighted(line@.take(0), query@));
    while i < line.spans.len()
        invariant
            i <= line.spans.len(),
            query@.len() > 0,
            needle@ == lowercase(query@),
            span_views(spans@) == highlighted(line@.take(i as int), query@),
        decreases line.spans.len() - i,
    {
        let span = &line.spans[i];
        let content_lower = to_lower(span.content.as_str());
        let lower = chars_of(content_lower.as_str());
        let mut cut = highlight_span(span, &lower, &needle);
        let ghost before = span_views(spans@);
        let ghost added = span_views(cut@);
        spans.append(&mut cut);
        assert(span_views(spans@) =~= before + added);
        assert(line@.take(i + 1).drop_last() =~= line@.take(i as int));
        assert(line@.take(i + 1).last() == span@);
        i += 1;
    }
    assert(line@.take(i as int) =~= line@);
    StyledLine::from_spans(spans)
}

/// What a content pane is in contracts: the lines of its buffer, the
/// buffer's scroll offset, and the text searched for, if any.
pub ghost struct PaneView {
    pub lines: Seq<Seq<SpanView>>,
    pub offset: nat,
    pub query: Option<Seq<char>>,
}

/// A line as the pane shows it: with the matches of the query highlighted
/// where there is a query.
pub open spec fn shown_line(line: Seq<SpanView>, query: Option<Seq<char>>) -> Seq<SpanView> {
    match query {
        Some(q) => highlighted(line, q),
        None => line,
    }
}

/// What a pane shows of a line has the text of the line as it is stored,
/// whatever is searched for.
pub proof fn lemma_shown_line_keeps_text(line: Seq<SpanView>, query: Option<Seq<char>>)
    ensures
        plain_text(shown_line(line, query)) == plain_text(line),
        query is None ==> shown_line(line, query) == line,
{
    match query {
        Some(q) => lemma_highlight_keeps_text(line, q),
        None => {},
    }
}

/// The lines that a pane shows in a viewport of `height` rows: the visible
/// window of its buffer, each line with the matches highlighted.
pub open spec fn shown_lines(pane: PaneView, height: nat) -> Seq<Seq<SpanView>> {
    window(pane.lines, pane.offset, height).map_values(
        |l: Seq<SpanView>| shown_line(l, pane.query),
    )
}

/// One character on screen: the character and its style.
pub type Cell = (char, TextStyle);

/// The cells of a span: each of its characters with the span's style.
pub open spec fn span_cells(span: SpanView) -> Seq<Cell> {
    span.content.map_values(|c: char| (c, span.style))
}

/// The cells of a line: each character with the style of its span, from
/// left to right.
pub open spec fn line_cells(line: Seq<SpanView>) -> Seq<Cell>
    decreases line.len(),
{
    if line.len() == 0 {
        Seq::empty()
    } else {
        line_cells(line.drop_last()) + span_cells(line.last())
    }
}

/// The first `width` cells of a line, or all of them where it has fewer.
pub open spec fn row_cells(line: Seq<SpanView>, width: nat) -> Seq<Cell> {
    if line_cells(line).len() <= width {
        line_cells(line)
    } else {
        line_cells(line).take(width as int)
    }
}

/// The cells of the first spans of a line are the first cells of the line.
pub proof fn lemma_line_cells_prefix(line: Seq<SpanView>, n: int)
    requires
        0 <= n <= line.len(),
    ensures
        line_cells(line.take(n)).len() <= line_cells(line).len(),
        line_cells(line).take(line_cells(line.take(n)).len() as int) == line_cells(line.take(n)),
    decreases line.len() - n,
{
    if n == line.len() {
        assert(line.take(n) =~= line);
        assert(line_cells(line).take(line_cells(line).len() as int) =~= line_cells(line));
    } else {
        lemma_line_cells_prefix(line, n + 1);
        assert(line.take(n + 1).drop_last() =~= line.take(n));
        let shorter = line_cells(line.take(n));
        let longer = line_cells(line.take(n + 1));
        assert(longer == shorter + span_cells(line[n]));
        assert(line_cells(line).take(shorter.len() as int) =~= longer.take(shorter.len() as int));
        assert(longer.take(shorter.len() as int) =~= shorter);
    }
}

/// The cells of a line that fit in `width` columns.
pub fn cells_of_line(line: &StyledLine, width: usize) -> (cells: Vec<Cell>)
    ensures
        cells@ == row_cells(line@, width as nat),
{
    let mut cells: Vec<Cell> = Vec::new();
    let mut i: usize = 0;
    assert(cells@ =~= line_cells(line@.take(0)));
    while i < line.spans.len()
        invariant
            i <= line.spans.len(),
            cells@ == line_cells(line@.take(i as int)),
            cells@.len() <= width,
        decreases line.spans.len() - i,
    {
        let span = &line.spans[i];
        let chars = chars_of(span.content.as_str());
        let ghost done = cells@;
        let ghost run = span_cells(span@);
        proof {
            assert(line@.take(i + 1).drop_last() =~= line@.take(i as int));
            assert(line@.take(i + 1).last() == span@);
            lemma_line_cells_prefix(line@, i + 1);
            assert(done + run.take(0) =~= done);
        }
        let mut k: usize = 0;
        while k < chars.len()
            invariant
                k <= chars.len(),
                chars@ == span@.content,
                run == span_cells(span@),
                run.len() == chars@.len(),
                cells@ == done + run.take(k as int),
                cells@.len() <= width,
                done + run == line_cells(line@.take(i + 1)),
                line_cells(line@.take(i + 1)).len() <= line_cells(line@).len(),
                line_cells(line@).take(line_cells(line@.take(i + 1)).len() as int) == line_cells(
                    line@.take(i + 1),
                ),
            decreases chars.len() - k,
        {
            if cells.len() >= width {
                assert(line_cells(line@).take(width as int) =~= cells@) by {
                    assert(done.len() + k == width);
                    assert(cells@ =~= (done + run).take(width as int));
                    assert((done + run).take(width as int) =~= line_cells(line@).take(
                        width as int,
                    ));
                }
                return cells;
            }
            cells.push((chars[k], span.style));
            assert(run.take(k + 1) =~= run.take(k as int).push(run[k as int]));
            assert(cells@ =~= done + run.take(k + 1));
            k += 1;
        }
        assert(run.take(k as int) =~= run);
        i += 1;
    }
    assert(line@.take(i as int) =~= line@);
    cells
}

/// Shows the lines of an iteration's buffer: the lines in view at the
/// buffer's scroll offset, with the matches of a search highlighted.
pub struct ContentPane<'a> {
    buffer: &'a IterationBuffer,
    search_query: Option<&'a str>,
}

impl<'a> View for ContentPane<'a> {
    type V = PaneView;

    closed spec fn view(&self) -> PaneView {
        PaneView {
            lines: line_views(self.buffer.lines@),
            offset: self.buffer.scroll_offset as nat,
            query: match self.search_query {
                Some(q) => Some(q@),
                None => None,
            },
        }
    }
}

impl<'a> ContentPane<'a> {
    /// Creates the pane of a buffer, without a search.
    pub fn new(buffer: &'a IterationBuffer) -> (pane: Self)
        ensures
            pane@ == (PaneView {
                lines: line_views(buffer.lines@),
                offset: buffer.scroll_offset as nat,
                query: None,
            }),
    {
        ContentPane { buffer, search_query: None }
    }

    /// Sets the text whose matches are highlighted. An empty text changes
    /// nothing.
    pub fn with_search(self, query: &'a str) -> (pane: Self)
        ensures
            pane@ == (if query@.len() == 0 {
                self@
            } else {
                PaneView { query: Some(query@), ..self@ }
            }),
    {
        let mut pane = self;
        if !query.is_empty() {
            pane.search_query = Some(query);
        }
        pane
    }

    /// The lines that the pane shows in a viewport of `viewport_height`
    /// rows, from top to bottom. The buffer's lines stay as they are.
    pub fn lines(&self, viewport_height: usize) -> (shown: Vec<StyledLine>)
        ensures
            line_views(shown@) == shown_lines(self@, viewport_height as nat),
    {
        let visible = self.buffer.visible_lines(viewport_height);
        let mut shown: Vec<StyledLine> = Vec::new();
        let mut i: usize = 0;
        while i < visible.len()
            invariant
                i <= visible.len(),
                shown.len() == i,
                line_views(visible@) == window(
                    self@.lines,
                    self@.offset,
                    viewport_height as nat,
                ),
                forall|k: int| 0 <= k < i ==> shown@[k]@ == shown_line(visible@[k]@, self@.query),
            decreases visible.len() - i,
        {
            let line = match self.search_query {
                Some(query) => highlight_search_matches(&visible[i], query),
                None => visible[i].clone(),
            };
            shown.push(line);
            i += 1;
        }
        assert(line_views(shown@) =~= shown_lines(self@, viewport_height as nat));
        shown
    }

    /// What the pane puts on a screen area of `width` columns and `height`
    /// rows: for each line in view the cells that fit in the width, from
    /// the top row down.
    pub fn render(&self, width: u16, height: u16) -> (rows: Vec<Vec<Cell>>)
        ensures
            rows@.len() == shown_lines(self@, height as nat).len(),
            forall|r: int|
                0 <= r < rows@.len() ==> #[trigger] rows@[r]@ == row_cells(
                    shown_lines(self@, height as nat)[r],
                    width as nat,
                ),
    {
        let shown = self.lines(height as usize);
        let mut rows: Vec<Vec<Cell>> = Vec::new();
        let mut i: usize = 0;
        while i < shown.len()
            invariant
                i <= shown.len(),
                rows.len() == i,
                line_views(shown@) == shown_lines(self@, height as nat),
                forall|r: int|
                    0 <= r < i ==> #[trigger] rows@[r]@ == row_cells(
                        shown@[r]@,
                        width as nat,
                    ),
            decreases shown.len() - i,
        {
            rows.push(cells_of_line(&shown[i], width as usize));
            i += 1;
        }
        assert forall|r: int| 0 <= r < rows@.len() implies #[trigger] rows@[r]@
            == row_cells(shown_lines(self@, height as nat)[r], width as nat) by {
            assert(line_views(shown@)[r] == shown@[r]@);
        }
        rows
    }
}

} // verus!
