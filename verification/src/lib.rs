//! Rendering of an agent session's event stream into styled terminal lines.
//!
//! The crate turns streamed text, tool invocations, tool results, errors and
//! completion summaries into sequences of styled lines, keeps them in a
//! scrollable buffer, and overlays search highlighting on the visible window.
//!
//! - [`stream_handler`]: the sinks that take a session's events.
//! - [`render`]: streamed text to styled lines, and the cutting of long lines.
//! - [`tool_summary`]: short descriptions of tool invocations.
//! - [`text`]: shortening of text by characters.
//! - [`state`]: the scrollable line buffer and the dashboard's state.
//! - [`widgets`]: what the content pane and the footer show.
//! - [`style`]: colors, styles, spans and lines.

pub mod convert;
pub mod decimal;
pub mod outside;
pub mod render;
pub mod state;
pub mod stream_handler;
pub mod style;
pub mod text;
pub mod tool_summary;
pub mod widgets;
