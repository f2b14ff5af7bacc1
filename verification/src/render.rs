//! Classification of streamed text and its rendering into styled lines.
//!
//! Text that carries terminal escape sequences is read as such, its colors
//! and attributes kept; any other text is read as lightweight markup. A line
//! break parts two lines and is never content of one: whatever a parser
//! leaves of line breaks inside a span is turned into spaces.

use crate::convert::lines_of;
use crate::style::{
    all_single_row, lemma_plain_text_concat, lemma_plain_text_push, lemma_plain_text_single,
    lemma_unbroken_spans_single_row, line_views, plain_text, single_row, span_views, SpanView,
    StyledLine, StyledSpan, TextStyle,
};
use crate::text::{
    flatten, flattened, is_line_break, lemma_flattened_of_unbroken, lemma_flattened_unbroken,
    lemma_rows_unbroken, rows, split_rows, text_views, truncate_with_ellipsis, truncated,
    unbroken,
};
use ansi_to_tui::IntoText;
use vstd::prelude::*;

verus! {

/// The escape character that introduces a terminal control sequence.
pub open spec fn escape_char() -> char {
    '\u{1b}'
}

/// Whether the two-character introducer of a control sequence, the escape
/// character followed by `[`, starts at position `i` of `text`.
pub open spec fn introducer_at(text: Seq<char>, i: int) -> bool {
    0 <= i && i + 1 < text.len() && text[i] == escape_char() && text[i + 1] == '['
}

/// Whether `text` holds the introducer of a control sequence anywhere.
pub open spec fn has_introducer(text: Seq<char>) -> bool {
    exists|i: int| introducer_at(text, i)
}

/// Detects terminal escape sequences: true exactly when `text` holds the
/// escape character directly followed by `[`.
pub fn contains_ansi(text: &str) -> (found: bool)
    ensures
        found == has_introducer(text@),
{
    let mut found = false;
    let mut after_escape = false;
    for c in it: text.chars()
        invariant
            it.seq() == text@,
            found == (exists|i: int| introducer_at(text@, i) && i + 1 < it.index()),
            after_escape == (it.index() > 0 && text@[it.index() - 1] == escape_char()),
    {
        let ghost k = it.index() as int;
        if after_escape && c == '[' {
            assert(introducer_at(text@, k - 1));
            found = true;
        } else {
            assert forall|i: int| introducer_at(text@, i) && i + 1 < k + 1 implies i + 1 < k by {
                if i + 1 == k {
                    assert(text@[i] == escape_char());
                    assert(text@[i + 1] == '[');
                }
            }
        }
        after_escape = c == '\u{1b}';
    }
    found
}

/// What `ansi_to_tui::IntoText::into_text` makes of a text: the lines with
/// their spans, or nothing where it reports an error.
pub uninterp spec fn ansi_lines(text: Seq<char>) -> Option<Seq<Seq<SpanView>>>;

/// What `tui_markdown::from_str` makes of a text: the lines with their spans.
pub uninterp spec fn markdown_lines(text: Seq<char>) -> Seq<Seq<SpanView>>;

/// Calls `ansi_to_tui::IntoText::into_text` on the text and takes over the
/// lines and spans of the `Text` that it returns. The contract only names the
/// outcome: success goes with `ansi_lines` giving the lines returned, an
/// error with `ansi_lines` giving nothing.
#[verifier::external_body]
fn parse_ansi(text: &str) -> (parsed: Result<Vec<StyledLine>, ansi_to_tui::Error>)
    ensures
        match parsed {
            Ok(lines) => ansi_lines(text@) == Some(line_views(lines@)),
            Err(_) => ansi_lines(text@) is None,
        },
{
    text.into_text().map(lines_of)
}

/// Calls `tui_markdown::from_str` on the text and takes over the lines and
/// spans of the `Text` that it returns. The contract only names the outcome.
#[verifier::external_body]
fn parse_markdown(text: &str) -> (lines: Vec<StyledLine>)
    ensures
        line_views(lines@) == markdown_lines(text@),
{
    lines_of(tui_markdown::from_str(text))
}

/// A span on one row: its content flattened, its style kept.
pub open spec fn tidied_span(span: SpanView) -> SpanView {
    SpanView { content: flattened(span.content), style: span.style }
}

/// A line on one row: each of its spans flattened.
pub open spec fn tidied_line(line: Seq<SpanView>) -> Seq<SpanView> {
    line.map_values(|s: SpanView| tidied_span(s))
}

/// Lines that each fill one row: every span of every line flattened.
pub open spec fn tidied_lines(lines: Seq<Seq<SpanView>>) -> Seq<Seq<SpanView>> {
    lines.map_values(|l: Seq<SpanView>| tidied_line(l))
}

/// A flattened line fills one row.
pub proof fn lemma_tidied_line_single_row(line: Seq<SpanView>)
    ensures
        single_row(tidied_line(line)),
{
    assert forall|k: int| 0 <= k < tidied_line(line).len() implies unbroken(
        #[trigger] tidied_line(line)[k].content,
    ) by {
        lemma_flattened_unbroken(line[k].content);
    }
    lemma_unbroken_spans_single_row(tidied_line(line));
}

/// Flattening leaves a line alone whose spans each hold no line break.
pub proof fn lemma_tidied_line_of_unbroken(line: Seq<SpanView>)
    requires
        forall|k: int| 0 <= k < line.len() ==> unbroken(#[trigger] line[k].content),
    ensures
        tidied_line(line) == line,
{
    assert forall|k: int| 0 <= k < line.len() implies tidied_line(line)[k] == line[k] by {
        assert(unbroken(line[k].content));
        lemma_flattened_of_unbroken(line[k].content);
    }
    assert(tidied_line(line) =~= line);
}

/// Flattened lines each fill one row.
pub proof fn lemma_tidied_lines_single_row(lines: Seq<Seq<SpanView>>)
    ensures
        all_single_row(tidied_lines(lines)),
{
    assert forall|k: int| 0 <= k < tidied_lines(lines).len() implies single_row(
        #[trigger] tidied_lines(lines)[k],
    ) by {
        lemma_tidied_line_single_row(lines[k]);
    }
}

/// Puts a line on one row: a span that holds a line break is flattened, any
/// other span is kept as it is.
pub fn tidy_line(line: &StyledLine) -> (out: StyledLine)
    ensures
        out@ == tidied_line(line@),
        single_row(out@),
{
    let mut spans: Vec<StyledSpan> = Vec::new();
    let mut i: usize = 0;
    while i < line.spans.len()
        invariant
            i <= line.spans.len(),
            spans.len() == i,
            forall|k: int| 0 <= k < i ==> spans@[k]@ == tidied_span(line@[k]),
        decreases line.spans.len() - i,
    {
        let span = &line.spans[i];
        spans.push(StyledSpan { content: flatten(span.content.as_str()), style: span.style });
        i += 1;
    }
    let out = StyledLine { spans };
    assert(out@ =~= tidied_line(line@));
    proof {
        lemma_tidied_line_single_row(line@);
    }
    out
}

/// Puts each of the lines on one row.
pub fn tidy_lines(lines: &Vec<StyledLine>) -> (out: Vec<StyledLine>)
    ensures
        line_views(out@) == tidied_lines(line_views(lines@)),
        all_single_row(line_views(out@)),
{
    let mut out: Vec<StyledLine> = Vec::new();
    let mut i: usize = 0;
    while i < lines.len()
        invariant
            i <= lines.len(),
            out.len() == i,
            forall|k: int| 0 <= k < i ==> out@[k]@ == tidied_line(lines@[k]@),
        decreases lines.len() - i,
    {
        out.push(tidy_line(&lines[i]));
        i += 1;
    }
    assert(line_views(out@) =~= tidied_lines(line_views(lines@)));
    proof {
        lemma_tidied_lines_single_row(line_views(lines@));
    }
    out
}

/// The spans that stand for a text that could not be parsed: one unstyled
/// span for each row of the text.
pub open spec fn fallback_spans(text: Seq<char>) -> Seq<SpanView> {
    rows(text).map_values(|row: Seq<char>| SpanView { content: row, style: TextStyle::plain() })
}

/// The single unstyled line that stands for a text that could not be
/// parsed: the rows of the raw text, one span each.
pub open spec fn fallback_lines(text: Seq<char>) -> Seq<Seq<SpanView>> {
    seq![fallback_spans(text)]
}

/// The fallback line fills one row.
pub proof fn lemma_fallback_single_row(text: Seq<char>)
    ensures
        all_single_row(fallback_lines(text)),
{
    lemma_rows_unbroken(text);
    assert forall|k: int| 0 <= k < fallback_spans(text).len() implies unbroken(
        #[trigger] fallback_spans(text)[k].content,
    ) by {
        assert(fallback_spans(text)[k].content == rows(text)[k]);
    }
    lemma_unbroken_spans_single_row(fallback_spans(text));
    assert(fallback_lines(text)[0] == fallback_spans(text));
}

/// The lines that a text with escape sequences is shown as, given what the
/// escape-sequence parser made of it: its lines, each put on one row, or
/// the fallback line where it failed.
pub open spec fn ansi_or_fallback(text: Seq<char>, parsed: Option<Seq<Seq<SpanView>>>) -> Seq<
    Seq<SpanView>,
> {
    match parsed {
        Some(lines) => tidied_lines(lines),
        None => fallback_lines(text),
    }
}

/// The styled lines of a text: none for the empty text; for a text with an
/// escape-sequence introducer what the escape-sequence parser gives, or the
/// fallback line where it fails; for any other text what the markup parser
/// gives. Each line that a parser gives is put on one row.
pub open spec fn rendered_lines(text: Seq<char>) -> Seq<Seq<SpanView>> {
    if text.len() == 0 {
        Seq::empty()
    } else if has_introducer(text) {
        ansi_or_fallback(text, ansi_lines(text))
    } else {
        tidied_lines(markdown_lines(text))
    }
}

/// Every line of a rendered text fills one row: no span of it holds a line
/// break.
pub proof fn lemma_rendered_lines_single_row(text: Seq<char>)
    ensures
        all_single_row(rendered_lines(text)),
{
    if text.len() == 0 {
    } else if has_introducer(text) {
        match ansi_lines(text) {
            Some(lines) => lemma_tidied_lines_single_row(lines),
            None => lemma_fallback_single_row(text),
        }
    } else {
        lemma_tidied_lines_single_row(markdown_lines(text));
    }
}

/// A text without an escape-sequence introducer is read as markup.
pub proof fn lemma_text_without_introducer_is_markup(text: Seq<char>)
    requires
        !has_introducer(text),
    ensures
        rendered_lines(text) == markup_lines(text),
{
}

/// A text with an escape-sequence introducer is read by the escape-sequence
/// parser, and never as markup.
pub proof fn lemma_text_with_introducer_is_escape_styled(text: Seq<char>)
    requires
        has_introducer(text),
    ensures
        rendered_lines(text) == ansi_or_fallback(text, ansi_lines(text)),
{
    let i = choose|i: int| introducer_at(text, i);
    assert(introducer_at(text, i));
}

/// Chooses between the lines that the escape-sequence parser returned and
/// the fallback: the parsed lines are each put on one row; a failed parse
/// degrades to one unstyled line that holds the rows of the raw text, one
/// span each.
pub fn lines_or_fallback<E>(text: &str, parsed: Result<Vec<StyledLine>, E>) -> (lines: Vec<
    StyledLine,
>)
    ensures
        line_views(lines@) == match parsed {
            Ok(parsed_lines) => tidied_lines(line_views(parsed_lines@)),
            Err(_) => fallback_lines(text@),
        },
        all_single_row(line_views(lines@)),
{
    match parsed {
        Ok(parsed_lines) => tidy_lines(&parsed_lines),
        Err(_) => {
            let parts = split_rows(text);
            let mut spans: Vec<StyledSpan> = Vec::new();
            let mut i: usize = 0;
            while i < parts.len()
                invariant
                    i <= parts.len(),
                    spans.len() == i,
                    text_views(parts@) == rows(text@),
                    forall|k: int|
                        0 <= k < i ==> spans@[k]@ == (SpanView {
                            content: rows(text@)[k],
                            style: TextStyle::plain(),
                        }),
                decreases parts.len() - i,
            {
                assert(text_views(parts@)[i as int] == parts@[i as int]@);
                spans.push(StyledSpan::raw(parts[i].as_str()));
                i += 1;
            }
            let line = StyledLine { spans };
            assert(line@ =~= fallback_spans(text@));
            let mut lines: Vec<StyledLine> = Vec::new();
            lines.push(line);
            assert(line_views(lines@) =~= fallback_lines(text@));
            proof {
                lemma_fallback_single_row(text@);
            }
            lines
        },
    }
}

/// Converts text to styled lines, reading it as escape-styled text where it
/// holds an escape sequence and as markup otherwise. No line that comes back
/// holds a line break.
pub fn text_to_lines(text: &str) -> (lines: Vec<StyledLine>)
    ensures
        line_views(lines@) == rendered_lines(text@),
        all_single_row(line_views(lines@)),
{
    proof {
        lemma_rendered_lines_single_row(text@);
    }
    if text.is_empty() {
        let lines: Vec<StyledLine> = Vec::new();
        assert(line_views(lines@) =~= rendered_lines(text@));
        return lines;
    }
    if contains_ansi(text) {
        lines_or_fallback(text, parse_ansi(text))
    } else {
        markdown_to_lines(text)
    }
}

/// The styled lines of a text read as markup: none for the empty text,
/// otherwise what the markup parser gives, each line put on one row.
pub open spec fn markup_lines(text: Seq<char>) -> Seq<Seq<SpanView>> {
    if text.len() == 0 {
        Seq::empty()
    } else {
        tidied_lines(markdown_lines(text))
    }
}

/// Converts markup text to styled lines. No line that comes back holds a
/// line break.
pub fn markdown_to_lines(text: &str) -> (lines: Vec<StyledLine>)
    ensures
        line_views(lines@) == markup_lines(text@),
        all_single_row(line_views(lines@)),
{
    if text.is_empty() {
        let lines: Vec<StyledLine> = Vec::new();
        assert(line_views(lines@) =~= markup_lines(text@));
        return lines;
    }
    let parsed = parse_markdown(text);
    tidy_lines(&parsed)
}

/// The widest line, in characters, that is shown uncut unless a caller sets
/// another width.
pub const DEFAULT_MAX_LINE_LENGTH: usize = 200;

/// The spans that are kept of `spans` within a budget of `budget`
/// characters, taken in order: a span that fits is kept whole and uses up
/// its length; the first span that does not fit is cut to what is left of the
/// budget, gets the ellipsis and ends the line; once nothing is left of the
/// budget, the remaining spans are dropped.
pub open spec fn clip_spans(spans: Seq<SpanView>, budget: nat) -> Seq<SpanView>
    decreases spans.len(),
{
    if spans.len() == 0 || budget == 0 {
        Seq::empty()
    } else if spans[0].content.len() <= budget {
        seq![spans[0]] + clip_spans(
            spans.drop_first(),
            (budget - spans[0].content.len()) as nat,
        )
    } else {
        seq![SpanView { content: truncated(spans[0].content, budget), style: spans[0].style }]
    }
}

/// A line cut to `max` visible characters: unchanged when it has no more
/// than that, otherwise its spans within that budget.
pub open spec fn clip_line(spans: Seq<SpanView>, max: nat) -> Seq<SpanView> {
    if plain_text(spans).len() > max {
        clip_spans(spans, max)
    } else {
        spans
    }
}

/// Each line of `lines` cut to `max` visible characters.
pub open spec fn clip_lines(lines: Seq<Seq<SpanView>>, max: nat) -> Seq<Seq<SpanView>> {
    lines.map_values(|l: Seq<SpanView>| clip_line(l, max))
}

/// The text of the first spans of a line is no longer than the text of the
/// whole line.
pub proof fn lemma_plain_text_prefix_len(spans: Seq<SpanView>, n: int)
    requires
        0 <= n <= spans.len(),
    ensures
        plain_text(spans.take(n)).len() <= plain_text(spans).len(),
    decreases spans.len() - n,
{
    if n == spans.len() {
        assert(spans.take(n) =~= spans);
    } else {
        lemma_plain_text_prefix_len(spans, n + 1);
        lemma_plain_text_push(spans.take(n), spans[n]);
        assert(spans.take(n + 1) =~= spans.take(n).push(spans[n]));
    }
}

/// What is kept of a run of spans within a budget has at most three
/// characters more than the budget, and its text starts as the text of the
/// run does.
pub proof fn lemma_clip_spans_len(spans: Seq<SpanView>, budget: nat)
    ensures
        plain_text(clip_spans(spans, budget)).len() <= budget + 3,
    decreases spans.len(),
{
    if spans.len() == 0 || budget == 0 {
    } else if spans[0].content.len() <= budget {
        let rest = clip_spans(spans.drop_first(), (budget - spans[0].content.len()) as nat);
        lemma_clip_spans_len(spans.drop_first(), (budget - spans[0].content.len()) as nat);
        lemma_plain_text_concat(seq![spans[0]], rest);
        lemma_plain_text_single(spans[0]);
    } else {
        lemma_plain_text_single(
            SpanView { content: truncated(spans[0].content, budget), style: spans[0].style },
        );
    }
}

/// A line cut to `max` visible characters has at most `max + 3` characters,
/// and a line of at most `max` characters is not changed.
pub proof fn lemma_clip_line_len(line: Seq<SpanView>, max: nat)
    ensures
        plain_text(clip_line(line, max)).len() <= max + 3,
        plain_text(line).len() <= max ==> clip_line(line, max) == line,
{
    lemma_clip_spans_len(line, max);
}

/// Cutting a run of spans to a budget brings no line break into it.
pub proof fn lemma_clip_spans_single_row(spans: Seq<SpanView>, budget: nat)
    requires
        single_row(spans),
    ensures
        single_row(clip_spans(spans, budget)),
    decreases spans.len(),
{
    if spans.len() == 0 || budget == 0 {
    } else {
        let first = spans[0];
        let rest = spans.drop_first();
        assert(spans =~= seq![first] + rest);
        lemma_plain_text_concat(seq![first], rest);
        lemma_plain_text_single(first);
        let whole = plain_text(spans);
        assert(whole == first.content + plain_text(rest));
        assert(unbroken(first.content)) by {
            assert forall|i: int| 0 <= i < first.content.len() implies !is_line_break(
                #[trigger] first.content[i],
            ) by {
                assert(whole[i] == first.content[i]);
            }
        }
        if first.content.len() <= budget {
            assert(unbroken(plain_text(rest))) by {
                assert forall|i: int| 0 <= i < plain_text(rest).len() implies !is_line_break(
                    #[trigger] plain_text(rest)[i],
                ) by {
                    assert(whole[first.content.len() + i] == plain_text(rest)[i]);
                }
            }
            let kept = clip_spans(rest, (budget - first.content.len()) as nat);
            lemma_clip_spans_single_row(rest, (budget - first.content.len()) as nat);
            lemma_plain_text_concat(seq![first], kept);
        } else {
            let cut = SpanView { content: truncated(first.content, budget), style: first.style };
            lemma_plain_text_single(cut);
        }
    }
}

/// Cutting a line to a width brings no line break into it: a line that
/// fills one row still does so after the cut.
pub proof fn lemma_clip_line_single_row(line: Seq<SpanView>, max: nat)
    requires
        single_row(line),
    ensures
        single_row(clip_line(line, max)),
{
    lemma_clip_spans_single_row(line, max);
}

/// Whether the text of a line is longer than `max` characters.
pub fn exceeds(line: &StyledLine, max: usize) -> (longer: bool)
    ensures
        longer == (plain_text(line@).len() > max),
{
    let mut total: usize = 0;
    let mut i: usize = 0;
    while i < line.spans.len()
        invariant
            i <= line.spans.len(),
            total == plain_text(line@.take(i as int)).len(),
            total <= max,
        decreases line.spans.len() - i,
    {
        let count = line.spans[i].content.as_str().unicode_len();
        proof {
            lemma_plain_text_push(line@.take(i as int), line@[i as int]);
            assert(line@.take(i + 1) =~= line@.take(i as int).push(line@[i as int]));
            lemma_plain_text_prefix_len(line@, i + 1);
        }
        if count > max - total {
            return true;
        }
        total = total + count;
        i += 1;
    }
    assert(line@.take(i as int) =~= line@);
    false
}

/// Cuts a line to `max` visible characters, keeping span boundaries and
/// styles: a line within the budget comes back unchanged.
pub fn truncate_line(line: StyledLine, max: usize) -> (out: StyledLine)
    ensures
        out@ == clip_line(line@, max as nat),
{
    if !exceeds(&line, max) {
        return line;
    }
    let mut kept: Vec<StyledSpan> = Vec::new();
    let mut remaining: usize = max;
    let mut i: usize = 0;
    assert(line@.skip(0) =~= line@);
    assert(span_views(kept@) + clip_spans(line@, max as nat) =~= clip_spans(line@, max as nat));
    while i < line.spans.len() && remaining > 0
        invariant
            i <= line.spans.len(),
            plain_text(line@).len() > max,
            clip_spans(line@, max as nat) == span_views(kept@) + clip_spans(
                line@.skip(i as int),
                remaining as nat,
            ),
        decreases line.spans.len() - i,
    {
        let ghost rest = line@.skip(i as int);
        let ghost before = span_views(kept@);
        let count = line.spans[i].content.as_str().unicode_len();
        assert(rest[0] == line@[i as int]);
        assert(rest.drop_first() =~= line@.skip(i + 1));
        if count <= remaining {
            kept.push(line.spans[i].clone());
            remaining = remaining - count;
            assert(span_views(kept@) =~= before.push(line@[i as int]));
            assert(clip_spans(line@, max as nat) =~= span_views(kept@) + clip_spans(
                line@.skip(i + 1),
                remaining as nat,
            ));
        } else {
            let cut = truncate_with_ellipsis(line.spans[i].content.as_str(), remaining);
            kept.push(StyledSpan { content: cut, style: line.spans[i].style });
            assert(span_views(kept@) =~= before.push(
                SpanView {
                    content: truncated(line@[i as int].content, remaining as nat),
                    style: line@[i as int].style,
                },
            ));
            assert(clip_spans(line@, max as nat) =~= span_views(kept@));
            return StyledLine { spans: kept };
        }
        i += 1;
    }
    assert(clip_spans(line@.skip(i as int), remaining as nat) =~= Seq::<SpanView>::empty());
    assert(clip_spans(line@, max as nat) =~= span_views(kept@));
    StyledLine { spans: kept }
}

/// The lines on display: each line of `parsed` cut to `max` visible
/// characters, followed by the lines of `extra` as they are.
pub open spec fn composed(parsed: Seq<Seq<SpanView>>, extra: Seq<Seq<SpanView>>, max: nat) -> Seq<
    Seq<SpanView>,
> {
    clip_lines(parsed, max) + extra
}

/// The lines of the text come first on a display, one for each parsed line,
/// and the other lines follow them unchanged and in their order.
pub proof fn lemma_composed_order(parsed: Seq<Seq<SpanView>>, extra: Seq<Seq<SpanView>>, max: nat)
    ensures
        composed(parsed, extra, max).len() == parsed.len() + extra.len(),
        forall|i: int|
            0 <= i < parsed.len() ==> #[trigger] composed(parsed, extra, max)[i] == clip_line(
                parsed[i],
                max,
            ),
        forall|j: int|
            0 <= j < extra.len() ==> #[trigger] composed(parsed, extra, max)[parsed.len() + j]
                == extra[j],
{
}

/// A display of lines that each fill one row is made of such lines after
/// the cut: cutting brings in no line break, and the other lines stay.
pub proof fn lemma_composed_single_row(
    parsed: Seq<Seq<SpanView>>,
    extra: Seq<Seq<SpanView>>,
    max: nat,
)
    requires
        all_single_row(parsed),
        all_single_row(extra),
    ensures
        all_single_row(composed(parsed, extra, max)),
{
    assert forall|k: int| 0 <= k < composed(parsed, extra, max).len() implies single_row(
        #[trigger] composed(parsed, extra, max)[k],
    ) by {
        if k < parsed.len() {
            assert(single_row(parsed[k]));
            lemma_clip_line_single_row(parsed[k], max);
            assert(composed(parsed, extra, max)[k] == clip_line(parsed[k], max));
        } else {
            assert(composed(parsed, extra, max)[k] == extra[k - parsed.len()]);
        }
    }
}

/// Puts a display together: the parsed lines of the streamed text, each cut
/// to `max` visible characters, then the lines of `extra` unchanged.
pub fn compose_lines(parsed: Vec<StyledLine>, extra: &Vec<StyledLine>, max: usize) -> (out: Vec<
    StyledLine,
>)
    ensures
        line_views(out@) == composed(line_views(parsed@), line_views(extra@), max as nat),
{
    let mut out: Vec<StyledLine> = Vec::new();
    let mut i: usize = 0;
    while i < parsed.len()
        invariant
            i <= parsed.len(),
            out.len() == i,
            forall|k: int| 0 <= k < i ==> out@[k]@ == clip_line(parsed@[k]@, max as nat),
        decreases parsed.len() - i,
    {
        out.push(truncate_line(parsed[i].clone(), max));
        i += 1;
    }
    assert(line_views(out@) =~= clip_lines(line_views(parsed@), max as nat));
    let mut j: usize = 0;
    while j < extra.len()
        invariant
            j <= extra.len(),
            line_views(out@) == clip_lines(line_views(parsed@), max as nat) + line_views(
                extra@,
            ).take(j as int),
        decreases extra.len() - j,
    {
        let ghost before = line_views(out@);
        out.push(extra[j].clone());
        assert(line_views(out@) =~= before.push(extra@[j as int]@));
        assert(line_views(extra@).take(j + 1) =~= line_views(extra@).take(j as int).push(
            extra@[j as int]@,
        ));
        j += 1;
    }
    assert(line_views(extra@).take(j as int) =~= line_views(extra@));
    out
}

} // verus!
