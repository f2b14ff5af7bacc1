//! Sinks for the events of an agent session.
//!
//! A sink takes the five kinds of event (streamed text, a tool invocation,
//! a tool's result, an error, the end of the session) and turns them into
//! output for one way of presenting a session: plain console lines, a
//! colored console, nothing at all, or the styled lines of an interactive
//! view. The console sinks queue what is to be written; whoever owns the
//! terminal takes the queue and writes it.

use crate::decimal::{
    decimal, decimal_padded, lemma_decimal_padded_unbroken, lemma_decimal_unbroken, push_decimal,
    push_decimal_padded,
};
use crate::render::{
    compose_lines, composed, lemma_composed_single_row, lemma_rendered_lines_single_row,
    rendered_lines, text_to_lines, tidied_lines, tidy_lines, DEFAULT_MAX_LINE_LENGTH,
};
use crate::style::{
    all_single_row, clone_lines, lemma_all_single_row_concat, lemma_plain_text_single,
    lemma_unbroken_spans_single_row, line_views, single_row, SpanView, StyledLine, StyledSpan,
    TermColor, TextStyle,
};
use crate::text::{
    flatten, flattened, lemma_flattened_unbroken, lemma_rows_unbroken, lemma_truncated_unbroken,
    lemma_unbroken_concat, rows, split_rows, text_views, truncate_with_ellipsis, truncated,
    unbroken,
};
use crate::tool_summary::{format_tool_summary, string_members, summary_of, text_view};
use vstd::prelude::*;
use vstd::string::StringExecFns;

verus! {

/// How many characters of a tool's output are shown.
pub const RESULT_PREVIEW_CHARS: usize = 200;

/// What is known of a session when it ends.
#[derive(Debug, Clone)]
pub struct SessionResult {
    /// How long the session took, in milliseconds.
    pub duration_ms: u64,
    /// What the session cost, in ten-thousandths of a US dollar.
    pub total_cost_e4: u64,
    /// How many turns the session took.
    pub num_turns: u32,
    /// Whether the session ended in an error.
    pub is_error: bool,
}

/// Truncates a text to `max_len` characters, adding "..." if anything was
/// cut. The cut falls between characters, never inside one.
pub fn truncate(s: &str, max_len: usize) -> (out: String)
    ensures
        out@ == truncated(s@, max_len as nat),
{
    truncate_with_ellipsis(s, max_len)
}

/// A cost in ten-thousandths of a dollar, written in dollars with four
/// decimal places.
pub open spec fn cost_text(cost_e4: nat) -> Seq<char> {
    decimal(cost_e4 / 10000) + "."@ + decimal_padded(cost_e4 % 10000, 4)
}

/// The one-line summary of a finished session.
pub open spec fn completion_summary(result: SessionResult) -> Seq<char> {
    "Duration: "@ + decimal(result.duration_ms as nat) + "ms | Cost: $"@ + cost_text(
        result.total_cost_e4 as nat,
    ) + " | Turns: "@ + decimal(result.num_turns as nat)
}

/// Writes a cost in dollars with four decimal places.
pub fn format_cost(cost_e4: u64) -> (out: String)
    ensures
        out@ == cost_text(cost_e4 as nat),
{
    let mut out = String::new();
    push_decimal(&mut out, (cost_e4 / 10000) as u128);
    out.append(".");
    push_decimal_padded(&mut out, (cost_e4 % 10000) as u128, 4);
    assert(out@ =~= cost_text(cost_e4 as nat));
    out
}

/// Writes the one-line summary of a finished session.
pub fn format_completion(result: &SessionResult) -> (out: String)
    ensures
        out@ == completion_summary(*result),
{
    let mut out = String::from_str("Duration: ");
    push_decimal(&mut out, result.duration_ms as u128);
    out.append("ms | Cost: $");
    let cost = format_cost(result.total_cost_e4);
    out.append(cost.as_str());
    out.append(" | Turns: ");
    push_decimal(&mut out, result.num_turns as u128);
    out
}

/// The color of a session's summary: the attention color after an error,
/// the confirming color otherwise.
pub open spec fn outcome_color(is_error: bool) -> TermColor {
    if is_error {
        TermColor::Red
    } else {
        TermColor::Green
    }
}

/// The color of a session's summary.
pub fn color_of_outcome(is_error: bool) -> (color: TermColor)
    ensures
        color == outcome_color(is_error),
{
    if is_error {
        TermColor::Red
    } else {
        TermColor::Green
    }
}

/// Receives the events of a session as they arrive.
///
/// Implementors decide how the events are shown. No operation fails,
/// whatever it is handed.
pub trait StreamHandler: Send {
    /// Called when the agent emits text.
    fn on_text(&mut self, text: &str);

    /// Called when the agent invokes a tool: `name` is the tool's name, `id`
    /// identifies the invocation and `input` holds the tool's parameters.
    fn on_tool_call(&mut self, name: &str, id: &str, input: &serde_json::Value);

    /// Called when a tool returns its output.
    fn on_tool_result(&mut self, id: &str, output: &str);

    /// Called when an error occurs.
    fn on_error(&mut self, error: &str);

    /// Called when the session completes.
    fn on_complete(&mut self, result: &SessionResult);
}

/// One step of console output.
#[derive(Debug, Clone, PartialEq, Eq)]
pub enum Output {
    /// Write the text to the primary stream.
    Print(String),
    /// Write the text to the diagnostic stream.
    Diagnostic(String),
    /// Render the text as markup and write it to the primary stream.
    Markup(String),
    /// Switch the foreground color of the primary stream.
    Foreground(TermColor),
    /// Switch the primary stream back to its default colors.
    ResetColor,
    /// Flush the primary stream.
    Flush,
}

/// What a step of console output is in contracts.
pub ghost enum OutputView {
    Print(Seq<char>),
    Diagnostic(Seq<char>),
    Markup(Seq<char>),
    Foreground(TermColor),
    ResetColor,
    Flush,
}

impl View for Output {
    type V = OutputView;

    open spec fn view(&self) -> OutputView {
        match *self {
            Output::Print(text) => OutputView::Print(text@),
            Output::Diagnostic(text) => OutputView::Diagnostic(text@),
            Output::Markup(text) => OutputView::Markup(text@),
            Output::Foreground(color) => OutputView::Foreground(color),
            Output::ResetColor => OutputView::ResetColor,
            Output::Flush => OutputView::Flush,
        }
    }
}

/// The views of a queue of output steps.
pub open spec fn output_views(queue: Seq<Output>) -> Seq<OutputView> {
    queue.map_values(|o: Output| o@)
}

/// Puts one step at the end of a queue.
fn emit(queue: &mut Vec<Output>, step: Output)
    ensures
        output_views(final(queue)@) == output_views(old(queue)@).push(step@),
{
    queue.push(step);
    assert(output_views(queue@) =~= output_views(old(queue)@).push(step@));
}

/// Empties a queue and hands out what it held.
fn drain(queue: &mut Vec<Output>) -> (taken: Vec<Output>)
    ensures
        output_views(taken@) == output_views(old(queue)@),
        output_views(final(queue)@) == Seq::<OutputView>::empty(),
{
    let mut taken: Vec<Output> = Vec::new();
    std::mem::swap(queue, &mut taken);
    assert(output_views(queue@) =~= Seq::<OutputView>::empty());
    taken
}

/// What the plain console writes for a tool invocation.
pub open spec fn console_tool_text(name: Seq<char>, summary: Option<Seq<char>>) -> Seq<char> {
    match summary {
        Some(s) => "[Tool] "@ + name + ": "@ + s + "\n"@,
        None => "[Tool] "@ + name + "\n"@,
    }
}

/// What the plain console writes when a session ends.
pub open spec fn console_completion_text(result: SessionResult) -> Seq<char> {
    "\n--- Session Complete ---\n"@ + completion_summary(result) + "\n"@
}

/// What a plain console is in contracts: its verbosity and the output that
/// waits to be written.
pub ghost struct ConsoleView {
    pub verbose: bool,
    /// The name under which the agent's text is written.
    pub speaker: Seq<char>,
    pub pending: Seq<OutputView>,
}

/// The name under which the agent's text is written unless another is set.
pub open spec fn default_speaker() -> Seq<char> {
    "Assistant"@
}

/// What the plain console writes for a chunk of the agent's text.
pub open spec fn console_text(speaker: Seq<char>, text: Seq<char>) -> Seq<char> {
    speaker + ": "@ + text + "\n"@
}

/// Writes a session as plain lines.
///
/// In normal mode it shows the agent's text, tool invocations and errors.
/// In verbose mode it also shows tool results and the session summary.
pub struct ConsoleStreamHandler {
    verbose: bool,
    speaker: String,
    pending: Vec<Output>,
}

impl View for ConsoleStreamHandler {
    type V = ConsoleView;

    closed spec fn view(&self) -> ConsoleView {
        ConsoleView {
            verbose: self.verbose,
            speaker: self.speaker@,
            pending: output_views(self.pending@),
        }
    }
}

impl ConsoleStreamHandler {
    /// Creates a console handler; `verbose` makes it show tool results and
    /// the session summary.
    pub fn new(verbose: bool) -> (handler: Self)
        ensures
            handler@ == (ConsoleView {
                verbose,
                speaker: default_speaker(),
                pending: Seq::empty(),
            }),
    {
        let handler = ConsoleStreamHandler {
            verbose,
            speaker: String::from_str("Assistant"),
            pending: Vec::new(),
        };
        assert(handler@.pending =~= Seq::<OutputView>::empty());
        handler
    }

    /// Sets the name under which the agent's text is written.
    pub fn with_speaker(self, speaker: &str) -> (handler: Self)
        ensures
            handler@ == (ConsoleView { speaker: speaker@, ..self@ }),
    {
        ConsoleStreamHandler {
            verbose: self.verbose,
            speaker: String::from_str(speaker),
            pending: self.pending,
        }
    }

    /// Hands out the output that waits to be written, in the order in which
    /// it was queued, and leaves the queue empty.
    pub fn take_output(&mut self) -> (taken: Vec<Output>)
        ensures
            output_views(taken@) == old(self)@.pending,
            final(self)@ == (ConsoleView { pending: Seq::empty(), ..old(self)@ }),
    {
        drain(&mut self.pending)
    }

    /// Writes a tool invocation, with the summary that was made of its input.
    pub fn show_tool_call(&mut self, name: &str, summary: Option<String>)
        ensures
            final(self)@ == (ConsoleView {
                pending: old(self)@.pending.push(
                    OutputView::Print(console_tool_text(name@, text_view(summary))),
                ),
                ..old(self)@
            }),
    {
        let text = match summary {
            Some(s) => String::from_str("[Tool] ").concat(name).concat(": ").concat(
                s.as_str(),
            ).concat("\n"),
            None => String::from_str("[Tool] ").concat(name).concat("\n"),
        };
        emit(&mut self.pending, Output::Print(text));
    }
}

impl StreamHandler for ConsoleStreamHandler {
    fn on_text(&mut self, text: &str)
        ensures
            final(self)@ == (ConsoleView {
                pending: old(self)@.pending.push(
                    OutputView::Print(console_text(old(self)@.speaker, text@)),
                ),
                ..old(self)@
            }),
    {
        let line = self.speaker.clone().concat(": ").concat(text).concat("\n");
        emit(&mut self.pending, Output::Print(line));
    }

    fn on_tool_call(&mut self, name: &str, id: &str, input: &serde_json::Value)
        ensures
            final(self)@ == (ConsoleView {
                pending: old(self)@.pending.push(
                    OutputView::Print(
                        console_tool_text(name@, summary_of(name@, string_members(*input))),
                    ),
                ),
                ..old(self)@
            }),
    {
        let summary = format_tool_summary(name, input);
        self.show_tool_call(name, summary);
    }

    fn on_tool_result(&mut self, id: &str, output: &str)
        ensures
            final(self)@ == (if old(self)@.verbose {
                ConsoleView {
                    pending: old(self)@.pending.push(
                        OutputView::Print(
                            "[Result] "@ + truncated(output@, RESULT_PREVIEW_CHARS as nat)
                                + "\n"@,
                        ),
                    ),
                    ..old(self)@
                }
            } else {
                old(self)@
            }),
    {
        if self.verbose {
            let preview = truncate(output, RESULT_PREVIEW_CHARS);
            let line = String::from_str("[Result] ").concat(preview.as_str()).concat("\n");
            emit(&mut self.pending, Output::Print(line));
        }
    }

    fn on_error(&mut self, error: &str)
        ensures
            final(self)@ == (ConsoleView {
                pending: old(self)@.pending.push(
                    OutputView::Print("[Error] "@ + error@ + "\n"@),
                ).push(OutputView::Diagnostic("[Error] "@ + error@ + "\n"@)),
                ..old(self)@
            }),
    {
        let line = String::from_str("[Error] ").concat(error).concat("\n");
        let copy = line.clone();
        emit(&mut self.pending, Output::Print(line));
        emit(&mut self.pending, Output::Diagnostic(copy));
    }

    fn on_complete(&mut self, result: &SessionResult)
        ensures
            final(self)@ == (if old(self)@.verbose {
                ConsoleView {
                    pending: old(self)@.pending.push(
                        OutputView::Print(console_completion_text(*result)),
                    ),
                    ..old(self)@
                }
            } else {
                old(self)@
            }),
    {
        if self.verbose {
            let summary = format_completion(result);
            let text = String::from_str("\n--- Session Complete ---\n").concat(
                summary.as_str(),
            ).concat("\n");
            emit(&mut self.pending, Output::Print(text));
        }
    }
}

/// Suppresses all output of a session.
pub struct QuietStreamHandler;

impl StreamHandler for QuietStreamHandler {
    fn on_text(&mut self, text: &str)
        ensures
            *final(self) == *old(self),
    {
    }

    fn on_tool_call(&mut self, name: &str, id: &str, input: &serde_json::Value)
        ensures
            *final(self) == *old(self),
    {
    }

    fn on_tool_result(&mut self, id: &str, output: &str)
        ensures
            *final(self) == *old(self),
    {
    }

    fn on_error(&mut self, error: &str)
        ensures
            *final(self) == *old(self),
    {
    }

    fn on_complete(&mut self, result: &SessionResult)
        ensures
            *final(self) == *old(self),
    {
    }
}

/// What the colored console writes for buffered text: the text rendered as
/// markup and a flush, or nothing where no text is buffered.
pub open spec fn pretty_flush(text: Seq<char>) -> Seq<OutputView> {
    if text.len() == 0 {
        Seq::empty()
    } else {
        seq![OutputView::Markup(text), OutputView::Flush]
    }
}

/// What the colored console writes for a tool invocation.
pub open spec fn pretty_tool_call(name: Seq<char>, summary: Option<Seq<char>>) -> Seq<
    OutputView,
> {
    match summary {
        Some(s) => seq![
            OutputView::Foreground(TermColor::Blue),
            OutputView::Print("\u{2699} ["@ + name + "]"@),
            OutputView::Foreground(TermColor::DarkGray),
            OutputView::Print(" "@ + s + "\n"@),
            OutputView::ResetColor,
            OutputView::Flush,
        ],
        None => seq![
            OutputView::Foreground(TermColor::Blue),
            OutputView::Print("\u{2699} ["@ + name + "]"@),
            OutputView::Print("\n"@),
            OutputView::ResetColor,
            OutputView::Flush,
        ],
    }
}

/// What the colored console writes for a tool's output.
pub open spec fn pretty_tool_result(output: Seq<char>) -> Seq<OutputView> {
    seq![
        OutputView::Foreground(TermColor::DarkGray),
        OutputView::Print(
            " \u{2713} "@ + truncated(output, RESULT_PREVIEW_CHARS as nat) + "\n"@,
        ),
        OutputView::ResetColor,
        OutputView::Flush,
    ]
}

/// What the colored console writes for an error.
pub open spec fn pretty_error(error: Seq<char>) -> Seq<OutputView> {
    seq![
        OutputView::Foreground(TermColor::Red),
        OutputView::Print("\n\u{2717} Error: "@ + error + "\n"@),
        OutputView::ResetColor,
        OutputView::Flush,
    ]
}

/// What the colored console writes when a session ends, after the buffered
/// text.
pub open spec fn pretty_completion(result: SessionResult) -> Seq<OutputView> {
    seq![
        OutputView::Print("\n"@),
        OutputView::Foreground(outcome_color(result.is_error)),
        OutputView::Print(completion_summary(result) + "\n"@),
        OutputView::ResetColor,
        OutputView::Flush,
    ]
}

/// What a colored console is in contracts: its verbosity, the text that
/// waits to be rendered and the output that waits to be written.
pub ghost struct PrettyView {
    pub verbose: bool,
    pub text: Seq<char>,
    pub pending: Seq<OutputView>,
}

/// Writes a session with colors, and the agent's text as rendered markup.
///
/// Text is buffered as it streams in and rendered only when the next tool
/// invocation or the end of the session flushes it, so that markup is never
/// rendered half-received.
pub struct PrettyStreamHandler {
    verbose: bool,
    text_buffer: String,
    pending: Vec<Output>,
}

impl View for PrettyStreamHandler {
    type V = PrettyView;

    closed spec fn view(&self) -> PrettyView {
        PrettyView {
            verbose: self.verbose,
            text: self.text_buffer@,
            pending: output_views(self.pending@),
        }
    }
}

impl PrettyStreamHandler {
    /// Creates a colored console handler; `verbose` makes it show tool
    /// results.
    pub fn new(verbose: bool) -> (handler: Self)
        ensures
            handler@ == (PrettyView { verbose, text: Seq::empty(), pending: Seq::empty() }),
    {
        let handler = PrettyStreamHandler {
            verbose,
            text_buffer: String::new(),
            pending: Vec::new(),
        };
        assert(handler@.pending =~= Seq::<OutputView>::empty());
        handler
    }

    /// Hands out the output that waits to be written, in the order in which
    /// it was queued, and leaves the queue empty.
    pub fn take_output(&mut self) -> (taken: Vec<Output>)
        ensures
            output_views(taken@) == old(self)@.pending,
            final(self)@ == (PrettyView { pending: Seq::empty(), ..old(self)@ }),
    {
        drain(&mut self.pending)
    }

    /// Queues the buffered text for rendering as markup and empties the
    /// buffer.
    pub fn flush_text_buffer(&mut self)
        ensures
            final(self)@ == (PrettyView {
                text: Seq::empty(),
                pending: old(self)@.pending + pretty_flush(old(self)@.text),
                ..old(self)@
            }),
    {
        if self.text_buffer.as_str().is_empty() {
            assert(self@.pending + pretty_flush(self@.text) =~= self@.pending);
            assert(self@.text =~= Seq::<char>::empty());
            return ;
        }
        let mut text = String::new();
        std::mem::swap(&mut self.text_buffer, &mut text);
        emit(&mut self.pending, Output::Markup(text));
        emit(&mut self.pending, Output::Flush);
        assert(self@.pending =~= old(self)@.pending + pretty_flush(old(self)@.text));
    }

    /// Writes a tool invocation, with the summary that was made of its
    /// input, after the text that was buffered before it.
    pub fn show_tool_call(&mut self, name: &str, summary: Option<String>)
        ensures
            final(self)@ == (PrettyView {
                text: Seq::empty(),
                pending: old(self)@.pending + pretty_flush(old(self)@.text) + pretty_tool_call(
                    name@,
                    text_view(summary),
                ),
                ..old(self)@
            }),
    {
        self.flush_text_buffer();
        let ghost flushed = self@.pending;
        emit(&mut self.pending, Output::Foreground(TermColor::Blue));
        let label = String::from_str("\u{2699} [").concat(name).concat("]");
        emit(&mut self.pending, Output::Print(label));
        match summary {
            Some(s) => {
                emit(&mut self.pending, Output::Foreground(TermColor::DarkGray));
                let text = String::from_str(" ").concat(s.as_str()).concat("\n");
                emit(&mut self.pending, Output::Print(text));
            },
            None => {
                emit(&mut self.pending, Output::Print(String::from_str("\n")));
            },
        }
        emit(&mut self.pending, Output::ResetColor);
        emit(&mut self.pending, Output::Flush);
        assert(self@.pending =~= flushed + pretty_tool_call(name@, text_view(summary)));
    }
}

impl StreamHandler for PrettyStreamHandler {
    fn on_text(&mut self, text: &str)
        ensures
            final(self)@ == (PrettyView { text: old(self)@.text + text@, ..old(self)@ }),
    {
        self.text_buffer.append(text);
    }

    fn on_tool_call(&mut self, name: &str, id: &str, input: &serde_json::Value)
        ensures
            final(self)@ == (PrettyView {
                text: Seq::empty(),
                pending: old(self)@.pending + pretty_flush(old(self)@.text) + pretty_tool_call(
                    name@,
                    summary_of(name@, string_members(*input)),
                ),
                ..old(self)@
            }),
    {
        let summary = format_tool_summary(name, input);
        self.show_tool_call(name, summary);
    }

    fn on_tool_result(&mut self, id: &str, output: &str)
        ensures
            final(self)@ == (if old(self)@.verbose {
                PrettyView {
                    pending: old(self)@.pending + pretty_tool_result(output@),
                    ..old(self)@
                }
            } else {
                old(self)@
            }),
    {
        if self.verbose {
            emit(&mut self.pending, Output::Foreground(TermColor::DarkGray));
            let preview = truncate(output, RESULT_PREVIEW_CHARS);
            let text = String::from_str(" \u{2713} ").concat(preview.as_str()).concat("\n");
            emit(&mut self.pending, Output::Print(text));
            emit(&mut self.pending, Output::ResetColor);
            emit(&mut self.pending, Output::Flush);
            assert(self@.pending =~= old(self)@.pending + pretty_tool_result(output@));
        }
    }

    fn on_error(&mut self, error: &str)
        ensures
            final(self)@ == (PrettyView {
                pending: old(self)@.pending + pretty_error(error@),
                ..old(self)@
            }),
    {
        emit(&mut self.pending, Output::Foreground(TermColor::Red));
        let text = String::from_str("\n\u{2717} Error: ").concat(error).concat("\n");
        emit(&mut self.pending, Output::Print(text));
        emit(&mut self.pending, Output::ResetColor);
        emit(&mut self.pending, Output::Flush);
        assert(self@.pending =~= old(self)@.pending + pretty_error(error@));
    }

    fn on_complete(&mut self, result: &SessionResult)
        ensures
            final(self)@ == (PrettyView {
                text: Seq::empty(),
                pending: old(self)@.pending + pretty_flush(old(self)@.text) + pretty_completion(
                    *result,
                ),
                ..old(self)@
            }),
    {
        self.flush_text_buffer();
        let ghost flushed = self@.pending;
        emit(&mut self.pending, Output::Print(String::from_str("\n")));
        emit(&mut self.pending, Output::Foreground(color_of_outcome(result.is_error)));
        let text = format_completion(result).concat("\n");
        emit(&mut self.pending, Output::Print(text));
        emit(&mut self.pending, Output::ResetColor);
        emit(&mut self.pending, Output::Flush);
        assert(self@.pending =~= flushed + pretty_completion(*result));
    }
}

/// The plain style with a foreground color.
pub open spec fn colored(color: TermColor) -> TextStyle {
    TextStyle::plain().spec_fg(color)
}

/// The line that shows a tool invocation: the tool's name in brackets and,
/// where there is one, the summary of its input, both flattened so that the
/// line fills one row.
pub open spec fn tool_call_spans(name: Seq<char>, summary: Option<Seq<char>>) -> Seq<SpanView> {
    match summary {
        Some(s) => seq![
            SpanView {
                content: "\u{2699} ["@ + flattened(name) + "]"@,
                style: colored(TermColor::Blue),
            },
            SpanView { content: " "@ + flattened(s), style: colored(TermColor::DarkGray) },
        ],
        None => seq![
            SpanView {
                content: "\u{2699} ["@ + flattened(name) + "]"@,
                style: colored(TermColor::Blue),
            },
        ],
    }
}

/// The line that shows a tool's output: the output flattened to one row and
/// cut to the preview length.
pub open spec fn tool_result_spans(output: Seq<char>) -> Seq<SpanView> {
    seq![
        SpanView {
            content: " \u{2713} "@ + truncated(flattened(output), RESULT_PREVIEW_CHARS as nat),
            style: colored(TermColor::DarkGray),
        },
    ]
}

/// The texts of the lines for a message under a heading: the heading with
/// the first row of the message behind it, then each further row by itself;
/// the heading alone for a message without a row.
pub open spec fn headed_rows(head: Seq<char>, body: Seq<Seq<char>>) -> Seq<Seq<char>> {
    if body.len() == 0 {
        seq![head]
    } else {
        seq![head + body[0]] + body.drop_first()
    }
}

/// The texts of the lines that show an error: the mark and the first row of
/// the message, then one line for each further row.
pub open spec fn error_texts(error: Seq<char>) -> Seq<Seq<char>> {
    headed_rows("\u{2717} Error: "@, rows(error))
}

/// The line of one span that shows a text in the attention color.
pub open spec fn attention_line(text: Seq<char>) -> Seq<SpanView> {
    seq![SpanView { content: text, style: colored(TermColor::Red) }]
}

/// The lines that show an error, in the attention color: the message cut at
/// its line breaks, one line for each row.
pub open spec fn error_line_spans(error: Seq<char>) -> Seq<Seq<SpanView>> {
    error_texts(error).map_values(|text: Seq<char>| attention_line(text))
}

/// The line that sums up a finished session, in the color of its outcome.
pub open spec fn completion_spans(result: SessionResult) -> Seq<SpanView> {
    seq![
        SpanView {
            content: completion_summary(result),
            style: colored(outcome_color(result.is_error)),
        },
    ]
}

/// The fixed texts of the event lines hold no line break.
proof fn lemma_marks_unbroken()
    ensures
        unbroken("\u{2699} ["@),
        unbroken("]"@),
        unbroken(" "@),
        unbroken(" \u{2713} "@),
        unbroken("\u{2717} Error: "@),
        unbroken("Duration: "@),
        unbroken("ms | Cost: $"@),
        unbroken("."@),
        unbroken(" | Turns: "@),
{
    reveal_strlit("\u{2699} [");
    reveal_strlit("]");
    reveal_strlit(" ");
    reveal_strlit(" \u{2713} ");
    reveal_strlit("\u{2717} Error: ");
    reveal_strlit("Duration: ");
    reveal_strlit("ms | Cost: $");
    reveal_strlit(".");
    reveal_strlit(" | Turns: ");
}

/// The summary of a finished session holds no line break.
pub proof fn lemma_completion_summary_unbroken(result: SessionResult)
    ensures
        unbroken(completion_summary(result)),
{
    lemma_marks_unbroken();
    let cost = result.total_cost_e4 as nat;
    lemma_decimal_unbroken(result.duration_ms as nat);
    lemma_decimal_unbroken(cost / 10000);
    lemma_decimal_padded_unbroken(cost % 10000, 4);
    lemma_decimal_unbroken(result.num_turns as nat);
    lemma_unbroken_concat(decimal(cost / 10000), "."@);
    lemma_unbroken_concat(decimal(cost / 10000) + "."@, decimal_padded(cost % 10000, 4));
    let a = "Duration: "@ + decimal(result.duration_ms as nat);
    lemma_unbroken_concat("Duration: "@, decimal(result.duration_ms as nat));
    lemma_unbroken_concat(a, "ms | Cost: $"@);
    lemma_unbroken_concat(a + "ms | Cost: $"@, cost_text(cost));
    lemma_unbroken_concat(a + "ms | Cost: $"@ + cost_text(cost), " | Turns: "@);
    lemma_unbroken_concat(
        a + "ms | Cost: $"@ + cost_text(cost) + " | Turns: "@,
        decimal(result.num_turns as nat),
    );
}

/// The line that shows a tool invocation fills one row.
pub proof fn lemma_tool_call_single_row(name: Seq<char>, summary: Option<Seq<char>>)
    ensures
        single_row(tool_call_spans(name, summary)),
{
    lemma_marks_unbroken();
    lemma_flattened_unbroken(name);
    lemma_unbroken_concat("\u{2699} ["@, flattened(name));
    lemma_unbroken_concat("\u{2699} ["@ + flattened(name), "]"@);
    match summary {
        Some(s) => {
            lemma_flattened_unbroken(s);
            lemma_unbroken_concat(" "@, flattened(s));
        },
        None => {},
    }
    lemma_unbroken_spans_single_row(tool_call_spans(name, summary));
}

/// The line that shows a tool's output fills one row.
pub proof fn lemma_tool_result_single_row(output: Seq<char>)
    ensures
        single_row(tool_result_spans(output)),
{
    lemma_marks_unbroken();
    lemma_flattened_unbroken(output);
    lemma_truncated_unbroken(flattened(output), RESULT_PREVIEW_CHARS as nat);
    lemma_unbroken_concat(
        " \u{2713} "@,
        truncated(flattened(output), RESULT_PREVIEW_CHARS as nat),
    );
    lemma_unbroken_spans_single_row(tool_result_spans(output));
}

/// Every line that shows an error fills one row, and there is at least
/// one.
pub proof fn lemma_error_lines_single_row(error: Seq<char>)
    ensures
        error_line_spans(error).len() >= 1,
        all_single_row(error_line_spans(error)),
{
    lemma_marks_unbroken();
    lemma_rows_unbroken(error);
    let head = "\u{2717} Error: "@;
    let body = rows(error);
    let texts = error_texts(error);
    assert forall|k: int| 0 <= k < texts.len() implies unbroken(#[trigger] texts[k]) by {
        if body.len() == 0 {
        } else if k == 0 {
            assert(unbroken(body[0]));
            lemma_unbroken_concat(head, body[0]);
        } else {
            assert(texts[k] == body.drop_first()[k - 1]);
            assert(unbroken(body[k]));
        }
    }
    assert forall|k: int| 0 <= k < error_line_spans(error).len() implies single_row(
        #[trigger] error_line_spans(error)[k],
    ) by {
        assert(unbroken(texts[k]));
        lemma_plain_text_single(SpanView { content: texts[k], style: colored(TermColor::Red) });
    }
}

/// The line that sums up a finished session fills one row.
pub proof fn lemma_completion_single_row(result: SessionResult)
    ensures
        single_row(completion_spans(result)),
{
    lemma_completion_summary_unbroken(result);
    lemma_unbroken_spans_single_row(completion_spans(result));
}

/// Makes the line that shows a tool invocation. Line breaks in the name or
/// in the summary become spaces.
pub fn tool_call_line(name: &str, summary: Option<String>) -> (line: StyledLine)
    ensures
        line@ == tool_call_spans(name@, text_view(summary)),
        single_row(line@),
{
    proof {
        lemma_tool_call_single_row(name@, text_view(summary));
    }
    let label = String::from_str("\u{2699} [").concat(flatten(name).as_str()).concat("]");
    let mut spans: Vec<StyledSpan> = Vec::new();
    spans.push(StyledSpan { content: label, style: TextStyle::new().fg(TermColor::Blue) });
    match summary {
        Some(s) => {
            let text = String::from_str(" ").concat(flatten(s.as_str()).as_str());
            spans.push(
                StyledSpan { content: text, style: TextStyle::new().fg(TermColor::DarkGray) },
            );
        },
        None => {},
    }
    let line = StyledLine::from_spans(spans);
    assert(line@ =~= tool_call_spans(name@, text_view(summary)));
    line
}

/// Makes the line that shows a tool's output: the output on one row, its
/// line breaks turned into spaces, cut to the preview length.
pub fn tool_result_line(output: &str) -> (line: StyledLine)
    ensures
        line@ == tool_result_spans(output@),
        single_row(line@),
{
    proof {
        lemma_tool_result_single_row(output@);
    }
    let preview = truncate(flatten(output).as_str(), RESULT_PREVIEW_CHARS);
    let text = String::from_str(" \u{2713} ").concat(preview.as_str());
    StyledLine::from_span(
        StyledSpan { content: text, style: TextStyle::new().fg(TermColor::DarkGray) },
    )
}

/// Makes the lines that show an error: the mark with the first row of the
/// message, and one more line for each further row of it.
pub fn error_lines(error: &str) -> (lines: Vec<StyledLine>)
    ensures
        line_views(lines@) == error_line_spans(error@),
        all_single_row(line_views(lines@)),
        lines@.len() >= 1,
{
    proof {
        lemma_error_lines_single_row(error@);
    }
    let style = TextStyle::new().fg(TermColor::Red);
    let parts = split_rows(error);
    let ghost body = rows(error@);
    let ghost texts = error_texts(error@);
    let mut lines: Vec<StyledLine> = Vec::new();
    if parts.len() == 0 {
        lines.push(StyledLine::styled("\u{2717} Error: ", style));
    } else {
        assert(text_views(parts@)[0] == parts@[0]@);
        let first = String::from_str("\u{2717} Error: ").concat(parts[0].as_str());
        lines.push(StyledLine::from_span(StyledSpan { content: first, style }));
        let mut i: usize = 1;
        while i < parts.len()
            invariant
                1 <= i <= parts.len(),
                lines.len() == i,
                text_views(parts@) == body,
                body == rows(error@),
                texts == error_texts(error@),
                style == colored(TermColor::Red),
                forall|k: int| 0 <= k < i ==> lines@[k]@ == attention_line(texts[k]),
            decreases parts.len() - i,
        {
            assert(text_views(parts@)[i as int] == parts@[i as int]@);
            assert(texts[i as int] == body.drop_first()[i - 1]);
            lines.push(StyledLine::styled(parts[i].as_str(), style));
            i += 1;
        }
    }
    assert(line_views(lines@) =~= error_line_spans(error@));
    lines
}

/// Makes the line that sums up a finished session.
pub fn completion_line(result: &SessionResult) -> (line: StyledLine)
    ensures
        line@ == completion_spans(*result),
        single_row(line@),
{
    proof {
        lemma_completion_single_row(*result);
    }
    let style = TextStyle::new().fg(color_of_outcome(result.is_error));
    StyledLine::from_span(StyledSpan { content: format_completion(result), style })
}

/// The lines that an interactive view shows: the lines of the streamed text,
/// each cut to `max` visible characters, followed by the lines that were
/// added for the other events.
pub open spec fn published(text: Seq<char>, extra: Seq<Seq<SpanView>>, max: nat) -> Seq<
    Seq<SpanView>,
> {
    composed(rendered_lines(text), extra, max)
}

/// Where the lines added for events each fill one row, so does every line
/// on display.
pub proof fn lemma_published_single_row(text: Seq<char>, extra: Seq<Seq<SpanView>>, max: nat)
    requires
        all_single_row(extra),
    ensures
        all_single_row(published(text, extra, max)),
{
    lemma_rendered_lines_single_row(text);
    lemma_composed_single_row(rendered_lines(text), extra, max);
}

/// What an interactive handler is in contracts.
pub ghost struct TuiView {
    /// Whether tool results are shown.
    pub verbose: bool,
    /// All text streamed so far.
    pub text: Seq<char>,
    /// The lines added for events other than text, in their order.
    pub extra: Seq<Seq<SpanView>>,
    /// The lines on display.
    pub lines: Seq<Seq<SpanView>>,
    /// The widest line of streamed text that is shown uncut.
    pub max_line_length: nat,
}

/// Turns a session into the styled lines of an interactive view.
///
/// The streamed text is kept whole and read anew on every chunk, so that
/// markup split over two chunks is still styled as one. The lines for tool
/// invocations, results, errors and the summary keep their own styling and
/// follow the lines of the text. No line that the handler holds has a line
/// break in it: a line break parts two lines and is never content of one.
pub struct TuiStreamHandler {
    markdown_buffer: String,
    verbose: bool,
    lines: Vec<StyledLine>,
    non_markdown_lines: Vec<StyledLine>,
    max_line_length: usize,
}

impl View for TuiStreamHandler {
    type V = TuiView;

    closed spec fn view(&self) -> TuiView {
        TuiView {
            verbose: self.verbose,
            text: self.markdown_buffer@,
            extra: line_views(self.non_markdown_lines@),
            lines: line_views(self.lines@),
            max_line_length: self.max_line_length as nat,
        }
    }
}

impl TuiStreamHandler {
    /// Every line held, on display or added for an event, fills one row.
    #[verifier::type_invariant]
    closed spec fn rows_are_whole(&self) -> bool {
        &&& all_single_row(line_views(self.lines@))
        &&& all_single_row(line_views(self.non_markdown_lines@))
    }

    /// Whether the lines on display are those of the text and events taken
    /// in so far.
    pub open spec fn up_to_date(&self) -> bool {
        self@.lines == published(self@.text, self@.extra, self@.max_line_length)
    }

    /// Creates an interactive handler with nothing on display; `verbose`
    /// makes it show tool results.
    pub fn new(verbose: bool) -> (handler: Self)
        ensures
            handler@ == (TuiView {
                verbose,
                text: Seq::empty(),
                extra: Seq::empty(),
                lines: Seq::empty(),
                max_line_length: DEFAULT_MAX_LINE_LENGTH as nat,
            }),
            handler.up_to_date(),
    {
        let handler = TuiStreamHandler {
            markdown_buffer: String::new(),
            verbose,
            lines: Vec::new(),
            non_markdown_lines: Vec::new(),
            max_line_length: DEFAULT_MAX_LINE_LENGTH,
        };
        assert(handler@.extra =~= Seq::<Seq<SpanView>>::empty());
        assert(handler@.lines =~= Seq::<Seq<SpanView>>::empty());
        assert(handler@.text =~= Seq::<char>::empty());
        assert(published(handler@.text, handler@.extra, handler@.max_line_length)
            =~= handler@.lines);
        handler
    }

    /// Creates an interactive handler that starts with `lines` on display,
    /// each put on one row. They stay until the first event replaces them.
    pub fn with_lines(verbose: bool, lines: Vec<StyledLine>) -> (handler: Self)
        ensures
            handler@ == (TuiView {
                verbose,
                text: Seq::empty(),
                extra: Seq::empty(),
                lines: tidied_lines(line_views(lines@)),
                max_line_length: DEFAULT_MAX_LINE_LENGTH as nat,
            }),
            all_single_row(handler@.lines),
    {
        let shown = tidy_lines(&lines);
        let handler = TuiStreamHandler {
            markdown_buffer: String::new(),
            verbose,
            lines: shown,
            non_markdown_lines: Vec::new(),
            max_line_length: DEFAULT_MAX_LINE_LENGTH,
        };
        assert(handler@.extra =~= Seq::<Seq<SpanView>>::empty());
        assert(handler@.text =~= Seq::<char>::empty());
        handler
    }

    /// Sets the widest line of streamed text that is shown uncut. The
    /// display changes with the next event.
    pub fn with_max_line_length(self, max_line_length: usize) -> (handler: Self)
        ensures
            handler@ == (TuiView { max_line_length: max_line_length as nat, ..self@ }),
    {
        proof {
            use_type_invariant(&self);
        }
        TuiStreamHandler {
            markdown_buffer: self.markdown_buffer,
            verbose: self.verbose,
            lines: self.lines,
            non_markdown_lines: self.non_markdown_lines,
            max_line_length,
        }
    }

    /// Returns a copy of the lines on display. None of them holds a line
    /// break.
    pub fn get_lines(&self) -> (lines: Vec<StyledLine>)
        ensures
            line_views(lines@) == self@.lines,
            all_single_row(line_views(lines@)),
    {
        proof {
            use_type_invariant(self);
        }
        clone_lines(&self.lines)
    }

    /// Brings the display up to date with the text streamed so far.
    pub fn flush_text_buffer(&mut self)
        ensures
            final(self)@ == (TuiView {
                lines: published(old(self)@.text, old(self)@.extra, old(self)@.max_line_length),
                ..old(self)@
            }),
            final(self).up_to_date(),
            all_single_row(final(self)@.lines),
    {
        self.update_lines();
    }

    /// Reads the streamed text anew and replaces the display by its lines
    /// followed by the lines of the other events.
    fn update_lines(&mut self)
        ensures
            final(self)@ == (TuiView {
                lines: published(old(self)@.text, old(self)@.extra, old(self)@.max_line_length),
                ..old(self)@
            }),
            final(self).up_to_date(),
            all_single_row(final(self)@.lines),
    {
        proof {
            use_type_invariant(&*self);
            lemma_published_single_row(self@.text, self@.extra, self@.max_line_length);
        }
        let parsed = text_to_lines(self.markdown_buffer.as_str());
        self.lines = compose_lines(parsed, &self.non_markdown_lines, self.max_line_length);
    }

    /// Adds lines for an event other than text and brings the display up to
    /// date.
    fn add_non_markdown_lines(&mut self, lines: Vec<StyledLine>)
        requires
            all_single_row(line_views(lines@)),
        ensures
            final(self)@ == (TuiView {
                extra: old(self)@.extra + line_views(lines@),
                lines: published(
                    old(self)@.text,
                    old(self)@.extra + line_views(lines@),
                    old(self)@.max_line_length,
                ),
                ..old(self)@
            }),
            final(self).up_to_date(),
            all_single_row(final(self)@.lines),
    {
        proof {
            use_type_invariant(&*self);
            lemma_all_single_row_concat(self@.extra, line_views(lines@));
        }
        let mut extra = clone_lines(&self.non_markdown_lines);
        let mut added = lines;
        let ghost before = line_views(extra@);
        extra.append(&mut added);
        assert(line_views(extra@) =~= before + line_views(lines@));
        self.non_markdown_lines = extra;
        self.update_lines();
    }

    /// Adds a line for an event other than text and brings the display up to
    /// date.
    fn add_non_markdown_line(&mut self, line: StyledLine)
        requires
            single_row(line@),
        ensures
            final(self)@ == (TuiView {
                extra: old(self)@.extra.push(line@),
                lines: published(
                    old(self)@.text,
                    old(self)@.extra.push(line@),
                    old(self)@.max_line_length,
                ),
                ..old(self)@
            }),
            final(self).up_to_date(),
            all_single_row(final(self)@.lines),
    {
        let mut lines: Vec<StyledLine> = Vec::new();
        lines.push(line);
        assert(line_views(lines@) =~= seq![line@]);
        assert(old(self)@.extra + seq![line@] =~= old(self)@.extra.push(line@));
        self.add_non_markdown_lines(lines);
    }

    /// Shows a tool invocation, with the summary that was made of its input,
    /// below the lines of the text streamed so far.
    pub fn show_tool_call(&mut self, name: &str, summary: Option<String>)
        ensures
            final(self)@ == (TuiView {
                extra: old(self)@.extra.push(tool_call_spans(name@, text_view(summary))),
                lines: published(
                    old(self)@.text,
                    old(self)@.extra.push(tool_call_spans(name@, text_view(summary))),
                    old(self)@.max_line_length,
                ),
                ..old(self)@
            }),
            final(self).up_to_date(),
            all_single_row(final(self)@.lines),
    {
        self.add_non_markdown_line(tool_call_line(name, summary));
    }
}

impl StreamHandler for TuiStreamHandler {
    fn on_text(&mut self, text: &str)
        ensures
            final(self)@ == (TuiView {
                text: old(self)@.text + text@,
                lines: published(
                    old(self)@.text + text@,
                    old(self)@.extra,
                    old(self)@.max_line_length,
                ),
                ..old(self)@
            }),
            final(self).up_to_date(),
            all_single_row(final(self)@.lines),
    {
        proof {
            use_type_invariant(&*self);
        }
        self.markdown_buffer = self.markdown_buffer.clone().concat(text);
        self.update_lines();
    }

    fn on_tool_call(&mut self, name: &str, id: &str, input: &serde_json::Value)
        ensures
            final(self)@ == (TuiView {
                extra: old(self)@.extra.push(
                    tool_call_spans(name@, summary_of(name@, string_members(*input))),
                ),
                lines: published(
                    old(self)@.text,
                    old(self)@.extra.push(
                        tool_call_spans(name@, summary_of(name@, string_members(*input))),
                    ),
                    old(self)@.max_line_length,
                ),
                ..old(self)@
            }),
            final(self).up_to_date(),
            all_single_row(final(self)@.lines),
    {
        let summary = format_tool_summary(name, input);
        self.show_tool_call(name, summary);
    }

    fn on_tool_result(&mut self, id: &str, output: &str)
        ensures
            final(self)@ == (if old(self)@.verbose {
                TuiView {
                    extra: old(self)@.extra.push(tool_result_spans(output@)),
                    lines: published(
                        old(self)@.text,
                        old(self)@.extra.push(tool_result_spans(output@)),
                        old(self)@.max_line_length,
                    ),
                    ..old(self)@
                }
            } else {
                old(self)@
            }),
            all_single_row(final(self)@.lines),
    {
        proof {
            use_type_invariant(&*self);
        }
        if self.verbose {
            self.add_non_markdown_line(tool_result_line(output));
        }
    }

    fn on_error(&mut self, error: &str)
        ensures
            final(self)@ == (TuiView {
                extra: old(self)@.extra + error_line_spans(error@),
                lines: published(
                    old(self)@.text,
                    old(self)@.extra + error_line_spans(error@),
                    old(self)@.max_line_length,
                ),
                ..old(self)@
            }),
            final(self).up_to_date(),
            all_single_row(final(self)@.lines),
            all_single_row(error_line_spans(error@)),
    {
        self.add_non_markdown_lines(error_lines(error));
    }

    fn on_complete(&mut self, result: &SessionResult)
        ensures
            final(self)@ == (TuiView {
                extra: old(self)@.extra.push(Seq::empty()).push(completion_spans(*result)),
                lines: published(
                    old(self)@.text,
                    old(self)@.extra.push(Seq::empty()).push(completion_spans(*result)),
                    old(self)@.max_line_length,
                ),
                ..old(self)@
            }),
            final(self).up_to_date(),
            all_single_row(final(self)@.lines),
            final(self)@.lines.len() > 0,
            final(self)@.lines.last() == completion_spans(*result),
    {
        self.flush_text_buffer();
        let blank = StyledLine::new();
        assert(single_row(blank@));
        self.add_non_markdown_line(blank);
        self.add_non_markdown_line(completion_line(result));
    }
}

} // verus!
