//! Declarations of the outside types that values of this crate are made
//! from or read from. Each is opaque here: its values are only carried to
//! the functions that call into the crate it comes from.

use vstd::prelude::*;

verus! {

/// `ratatui::text::Text`, which the two text parsers return.
#[verifier::external_type_specification]
#[verifier::external_body]
pub struct ExText<'a>(ratatui::text::Text<'a>);

/// `ratatui::style::Style`, the style of a span in such a text.
#[verifier::external_type_specification]
#[verifier::external_body]
pub struct ExStyle(ratatui::style::Style);

/// `ratatui::style::Color`, a color in such a style.
#[verifier::external_type_specification]
#[verifier::external_body]
pub struct ExColor(ratatui::style::Color);

/// `ansi_to_tui::Error`, the error of the escape-sequence parser.
#[verifier::external_type_specification]
#[verifier::external_body]
pub struct ExAnsiError(ansi_to_tui::Error);

/// `serde_json::Value`, the input of a tool invocation.
#[verifier::external_type_specification]
#[verifier::external_body]
pub struct ExValue(serde_json::Value);

} // verus!
