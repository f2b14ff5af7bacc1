//! The status line at the foot of the dashboard.

use crate::decimal::{decimal, push_decimal};
use crate::state::TuiState;
use crate::style::{Modifier, SpanView, StyledLine, StyledSpan, TermColor, TextStyle};
use vstd::prelude::*;
use vstd::string::StringExecFns;

verus! {

/// What the footer shows: a line at the left and, in the default display,
/// the activity indicator at the right.
#[derive(Debug, Clone)]
pub struct FooterContent {
    pub left: StyledLine,
    pub right: Option<StyledLine>,
}

/// What the footer shows, in contracts.
pub ghost struct FooterView {
    pub left: Seq<SpanView>,
    pub right: Option<Seq<SpanView>>,
}

impl View for FooterContent {
    type V = FooterView;

    open spec fn view(&self) -> FooterView {
        FooterView {
            left: self.left@,
            right: match self.right {
                Some(line) => Some(line@),
                None => None,
            },
        }
    }
}

/// A span of text in the plain style.
pub open spec fn plain_span(content: Seq<char>) -> SpanView {
    SpanView { content, style: TextStyle::plain() }
}

/// A span of text in the plain style with a foreground color.
pub open spec fn colored_span(content: Seq<char>, color: TermColor) -> SpanView {
    SpanView { content, style: TextStyle::plain().spec_fg(color) }
}

/// The position of the selected match among all matches, counted from one,
/// or a note that there is none.
pub open spec fn match_info(current_match: nat, matches: nat) -> Seq<char> {
    if matches == 0 {
        "no matches"@
    } else {
        decimal(current_match + 1) + "/"@ + decimal(matches)
    }
}

/// The line of a running search: the query and the position among the
/// matches.
pub open spec fn search_line(query: Seq<char>, current_match: nat, matches: nat) -> Seq<
    SpanView,
> {
    seq![
        plain_span(" "@),
        colored_span("Search: "@ + query + " "@, TermColor::Yellow),
        colored_span(match_info(current_match, matches), TermColor::Cyan),
    ]
}

/// The sign of the search prompt: `/` forward, `?` backward.
pub open spec fn prompt_sign(forward: bool) -> Seq<char> {
    if forward {
        "/"@
    } else {
        "?"@
    }
}

/// The line of the search prompt while a query is typed.
pub open spec fn prompt_line(forward: bool, typed: Seq<char>) -> Seq<SpanView> {
    seq![plain_span(" "@), colored_span(prompt_sign(forward) + typed, TermColor::Yellow)]
}

/// The text that names the last event, or a dash where there was none.
pub open spec fn last_event_text(last_event: Option<Seq<char>>) -> Seq<char> {
    match last_event {
        Some(topic) => "Last: "@ + topic,
        None => "Last: \u{2014}"@,
    }
}

/// The left side of the default display: the alert for a new iteration,
/// where one is due, and the last event.
pub open spec fn status_line(alert: Option<nat>, last_event: Option<Seq<char>>) -> Seq<SpanView> {
    match alert {
        Some(number) => seq![
            plain_span(" "@),
            colored_span("\u{25b6} New: iter "@ + decimal(number) + " "@, TermColor::Green),
            plain_span("\u{2502} "@),
            plain_span(last_event_text(last_event)),
        ],
        None => seq![plain_span(" "@), plain_span(last_event_text(last_event))],
    }
}

/// The activity indicator: done once no persona is pending, otherwise
/// active or idle by how recent the last event is.
pub open spec fn indicator_line(pending: bool, active: bool) -> Seq<SpanView> {
    if !pending {
        seq![colored_span("\u{25a0} done"@, TermColor::Blue), plain_span(" "@)]
    } else if active {
        seq![colored_span("\u{25c9} active"@, TermColor::Green), plain_span(" "@)]
    } else {
        seq![
            SpanView {
                content: "\u{25ef} idle"@,
                style: TextStyle::plain().spec_fg(TermColor::DarkGray).spec_add_modifier(
                    Modifier::DIM,
                ),
            },
            plain_span(" "@),
        ]
    }
}

/// The view of an optional text.
pub open spec fn opt_text(text: Option<String>) -> Option<Seq<char>> {
    match text {
        Some(s) => Some(s@),
        None => None,
    }
}

/// The alert that is due: the number of the new iteration, unless the view
/// follows the newest iteration anyway.
pub open spec fn due_alert(state: TuiState) -> Option<nat> {
    match state.new_iteration_alert {
        Some(number) if !state.following_latest => Some(number as nat),
        _ => None,
    }
}

/// What the footer shows for a state: the running search where there is
/// one; else the search prompt where something was typed; else the default
/// display, with the last event at the left and the activity indicator at
/// the right.
pub open spec fn footer_of(state: TuiState) -> FooterView {
    match state.search_state.query {
        Some(query) => FooterView {
            left: search_line(
                query@,
                state.search_state.current_match as nat,
                state.search_state.matches@.len(),
            ),
            right: None,
        },
        None => if state.search_query@.len() > 0 {
            FooterView {
                left: prompt_line(state.search_forward, state.search_query@),
                right: None,
            }
        } else {
            FooterView {
                left: status_line(due_alert(state), opt_text(state.last_event)),
                right: Some(indicator_line(state.pending_hat is Some, state.spec_is_active())),
            }
        },
    }
}

/// Makes the line of a running search.
pub fn search_display(query: &str, current_match: usize, matches: usize) -> (line: StyledLine)
    ensures
        line@ == search_line(query@, current_match as nat, matches as nat),
{
    let info = if matches == 0 {
        String::from_str("no matches")
    } else {
        let mut position = String::new();
        push_decimal(&mut position, current_match as u128 + 1);
        position.append("/");
        push_decimal(&mut position, matches as u128);
        assert(position@ =~= match_info(current_match as nat, matches as nat));
        position
    };
    let label = String::from_str("Search: ").concat(query).concat(" ");
    let mut spans: Vec<StyledSpan> = Vec::new();
    spans.push(StyledSpan::raw(" "));
    spans.push(StyledSpan { content: label, style: TextStyle::new().fg(TermColor::Yellow) });
    spans.push(StyledSpan { content: info, style: TextStyle::new().fg(TermColor::Cyan) });
    let line = StyledLine::from_spans(spans);
    assert(line@ =~= search_line(query@, current_match as nat, matches as nat));
    line
}

/// Makes the line of the search prompt.
pub fn prompt_display(forward: bool, typed: &str) -> (line: StyledLine)
    ensures
        line@ == prompt_line(forward, typed@),
{
    let sign = if forward {
        "/"
    } else {
        "?"
    };
    let text = String::from_str(sign).concat(typed);
    let mut spans: Vec<StyledSpan> = Vec::new();
    spans.push(StyledSpan::raw(" "));
    spans.push(StyledSpan { content: text, style: TextStyle::new().fg(TermColor::Yellow) });
    let line = StyledLine::from_spans(spans);
    assert(line@ =~= prompt_line(forward, typed@));
    line
}

/// Makes the left side of the default display.
pub fn status_display(alert: Option<usize>, last_event: &Option<String>) -> (line: StyledLine)
    ensures
        line@ == status_line(
            match alert {
                Some(number) => Some(number as nat),
                None => None,
            },
            opt_text(*last_event),
        ),
{
    let mut spans: Vec<StyledSpan> = Vec::new();
    spans.push(StyledSpan::raw(" "));
    match alert {
        Some(number) => {
            let mut text = String::from_str("\u{25b6} New: iter ");
            push_decimal(&mut text, number as u128);
            text.append(" ");
            spans.push(
                StyledSpan { content: text, style: TextStyle::new().fg(TermColor::Green) },
            );
            spans.push(StyledSpan::raw("\u{2502} "));
        },
        None => {},
    }
    let last = match last_event {
        Some(topic) => String::from_str("Last: ").concat(topic.as_str()),
        None => String::from_str("Last: \u{2014}"),
    };
    spans.push(StyledSpan { content: last, style: TextStyle::new() });
    let line = StyledLine::from_spans(spans);
    assert(line@ =~= status_line(
        match alert {
            Some(number) => Some(number as nat),
            None => None,
        },
        opt_text(*last_event),
    ));
    line
}

/// Makes the activity indicator.
pub fn indicator_display(pending: bool, active: bool) -> (line: StyledLine)
    ensures
        line@ == indicator_line(pending, active),
{
    let mut spans: Vec<StyledSpan> = Vec::new();
    if !pending {
        spans.push(StyledSpan::styled("\u{25a0} done", TextStyle::new().fg(TermColor::Blue)));
    } else if active {
        spans.push(StyledSpan::styled("\u{25c9} active", TextStyle::new().fg(TermColor::Green)));
    } else {
        spans.push(
            StyledSpan::styled(
                "\u{25ef} idle",
                TextStyle::new().fg(TermColor::DarkGray).add_modifier(Modifier::DIM),
            ),
        );
    }
    spans.push(StyledSpan::raw(" "));
    let line = StyledLine::from_spans(spans);
    assert(line@ =~= indicator_line(pending, active));
    line
}

/// The footer of the dashboard: a status line made from the dashboard's
/// state.
pub struct Footer<'a> {
    state: &'a TuiState,
}

impl<'a> Footer<'a> {
    /// The state that the footer shows.
    pub closed spec fn state(&self) -> TuiState {
        *self.state
    }

    /// Creates the footer of a state.
    pub fn new(state: &'a TuiState) -> (footer: Self)
        ensures
            footer.state() == *state,
    {
        Footer { state }
    }

    /// What the footer shows.
    pub fn content(&self) -> (content: FooterContent)
        ensures
            content@ == footer_of(self.state()),
    {
        let state = self.state;
        match &state.search_state.query {
            Some(query) => {
                return FooterContent {
                    left: search_display(
                        query.as_str(),
                        state.search_state.current_match,
                        state.search_state.matches.len(),
                    ),
                    right: None,
                };
            },
            None => {},
        }
        if !state.search_query.as_str().is_empty() {
            return FooterContent {
                left: prompt_display(state.search_forward, state.search_query.as_str()),
                right: None,
            };
        }
        let alert = match state.new_iteration_alert {
            Some(number) => if !state.following_latest {
                Some(number)
            } else {
                None
            },
            None => None,
        };
        FooterContent {
            left: status_display(alert, &state.last_event),
            right: Some(indicator_display(state.pending_hat.is_some(), state.is_active())),
        }
    }
}

/// Convenience function for making the footer of a state.
pub fn render(state: &TuiState) -> (footer: Footer<'_>)
    ensures
        footer.state() == *state,
{
    Footer::new(state)
}

} // verus!
