//! Conversion of the terminal library's text values into this crate's own
//! styled lines.

use crate::style::{Modifier, StyledLine, StyledSpan, TermColor, TextStyle};
use ratatui::style::Color;
use vstd::prelude::*;

verus! {

/// Reads the variant of a `ratatui::style::Color` and gives the variant of
/// the same name, with the same components. Nothing is claimed of the result.
#[verifier::external_body]
pub(crate) fn color_of(color: Color) -> TermColor {
    match color {
        Color::Reset => TermColor::Reset, Color::Black => TermColor::Black,
        Color::Red => TermColor::Red, Color::Green => TermColor::Green,
        Color::Yellow => TermColor::Yellow, Color::Blue => TermColor::Blue,
        Color::Magenta => TermColor::Magenta, Color::Cyan => TermColor::Cyan,
        Color::Gray => TermColor::Gray, Color::DarkGray => TermColor::DarkGray,
        Color::LightRed => TermColor::LightRed, Color::LightGreen => TermColor::LightGreen,
        Color::LightYellow => TermColor::LightYellow, Color::LightBlue => TermColor::LightBlue,
        Color::LightMagenta => TermColor::LightMagenta, Color::LightCyan => TermColor::LightCyan,
        Color::White => TermColor::White, Color::Indexed(i) => TermColor::Indexed(i),
        Color::Rgb(r, g, b) => TermColor::Rgb(r, g, b),
    }
}

/// Reads the fields of a `ratatui::style::Style`, the attribute sets through
/// `Modifier::bits`, and gives the style with the same fields. Nothing is
/// claimed of the result.
#[verifier::external_body]
pub(crate) fn style_of(style: ratatui::style::Style) -> TextStyle {
    TextStyle {
        fg: style.fg.map(color_of),
        bg: style.bg.map(color_of),
        underline_color: style.underline_color.map(color_of),
        add_modifier: Modifier { bits: style.add_modifier.bits() },
        sub_modifier: Modifier { bits: style.sub_modifier.bits() },
    }
}

/// Reads the lines of a `ratatui::text::Text` and, of each line, the spans
/// with their content and style. The styles and alignments that the text and
/// its lines carry as a whole are left behind. Nothing is claimed of the
/// result.
#[verifier::external_body]
pub(crate) fn lines_of(text: ratatui::text::Text<'_>) -> Vec<StyledLine> {
    let span_of = |s: ratatui::text::Span<'_>| StyledSpan {
        content: s.content.into_owned(),
        style: style_of(s.style),
    };
    let line_of = |l: ratatui::text::Line<'_>| StyledLine {
        spans: l.spans.into_iter().map(span_of).collect(),
    };
    text.lines.into_iter().map(line_of).collect()
}

} // verus!
