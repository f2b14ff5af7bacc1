//! What the dashboard's panes show.

pub mod content;
pub mod footer;
