[package]
name = "ralph_stream"
version = "0.1.0"
edition = "2021"
publish = false

[dependencies]
ansi-to-tui = "=8.0.1"
crossterm = "=0.29.0"
ratatui = "=0.30.2"
serde_json = "=1.0.154"
termimad = "=0.35.5"
tui-markdown = "=0.3.12"
