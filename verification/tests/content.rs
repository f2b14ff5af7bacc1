use ralph_stream::state::IterationBuffer;
use ralph_stream::style::{Modifier, StyledLine, StyledSpan, TermColor, TextStyle};
use ralph_stream::widgets::content::{
    cells_of_line, highlight_search_matches, highlight_span, match_style, matches_at, ContentPane,
};

/// Helper to render ContentPane and return the screen rows as strings
fn render_content_pane(
    buffer: &IterationBuffer,
    search: Option<&str>,
    width: u16,
    height: u16,
) -> Vec<String> {
    let mut widget = ContentPane::new(buffer);
    if let Some(q) = search {
        widget = widget.with_search(q);
    }
    let rows = widget.render(width, height);
    (0..height as usize)
        .map(|y| {
            (0..width as usize)
                .map(|x| match rows.get(y).and_then(|row| row.get(x)) {
                    Some(cell) => cell.0.to_string(),
                    None => " ".to_string(),
                })
                .collect::<String>()
        })
        .collect()
}

/// Helper to check if a cell has the highlight style
fn has_highlight_style(
    buffer: &IterationBuffer,
    search: &str,
    width: u16,
    height: u16,
    x: u16,
    y: u16,
) -> bool {
    let widget = ContentPane::new(buffer).with_search(search);
    let rows = widget.render(width, height);
    match rows.get(y as usize).and_then(|row| row.get(x as usize)) {
        // Check for highlight: typically reverse or yellow background
        Some(cell) => {
            cell.1.add_modifier.contains(Modifier::REVERSED)
                || cell.1.bg == Some(TermColor::Yellow)
                || cell.1.fg == Some(TermColor::Black)
        }
        None => false,
    }
}

// =========================================================================
// Renders Lines
// =========================================================================

#[test]
fn renders_lines_when_viewport_fits_all() {
    // Given a buffer with 3 lines
    let mut buffer = IterationBuffer::new(1);
    buffer.append_line(StyledLine::raw("first line"));
    buffer.append_line(StyledLine::raw("second line"));
    buffer.append_line(StyledLine::raw("third line"));

    // When ContentPane renders with viewport height >= 3
    let lines = render_content_pane(&buffer, None, 40, 5);

    // Then all 3 lines are visible in the output
    assert!(
        lines[0].contains("first line"),
        "first line should be visible, got: {:?}",
        lines
    );
    assert!(
        lines[1].contains("second line"),
        "second line should be visible, got: {:?}",
        lines
    );
    assert!(
        lines[2].contains("third line"),
        "third line should be visible, got: {:?}",
        lines
    );
}

#[test]
fn renders_lines_preserves_styling() {
    // Given a buffer with styled lines
    let mut buffer = IterationBuffer::new(1);
    buffer.append_line(StyledLine::from_spans(vec![
        StyledSpan::styled("error: ", TextStyle::default().fg(TermColor::Red)),
        StyledSpan::raw("something went wrong"),
    ]));

    // When ContentPane renders
    let rows = ContentPane::new(&buffer).render(40, 3);

    // Then the styled spans are rendered (check color of first cell)
    // The 'e' in 'error' should be red
    assert_eq!(
        rows[0][0].1.fg,
        Some(TermColor::Red),
        "styled span should preserve color"
    );
}

// =========================================================================
// Respects Scroll Offset
// =========================================================================

#[test]
fn respects_scroll_offset() {
    // Given a buffer with 10 lines and scroll_offset 5
    let mut buffer = IterationBuffer::new(1);
    for i in 0..10 {
        buffer.append_line(StyledLine::raw(&format!("line {}", i)));
    }
    buffer.scroll_offset = 5;

    // When ContentPane renders with viewport height 5
    let lines = render_content_pane(&buffer, None, 40, 5);

    // Then lines 5-9 are shown (not 0-4)
    assert!(
        lines[0].contains("line 5"),
        "should show line 5 first, got: {:?}",
        lines
    );
    assert!(
        lines[4].contains("line 9"),
        "should show line 9 last, got: {:?}",
        lines
    );
    assert!(
        !lines.iter().any(|l| l.contains("line 0")),
        "line 0 should not be visible"
    );
}

#[test]
fn scroll_offset_at_end_shows_last_lines() {
    let mut buffer = IterationBuffer::new(1);
    for i in 0..10 {
        buffer.append_line(StyledLine::raw(&format!("line {}", i)));
    }
    buffer.scroll_bottom(3); // viewport 3, should show lines 7-9

    let lines = render_content_pane(&buffer, None, 40, 3);

    assert!(
        lines[0].contains("line 7"),
        "first visible should be line 7, got: {:?}",
        lines
    );
    assert!(
        lines[2].contains("line 9"),
        "last visible should be line 9, got: {:?}",
        lines
    );
}

// =========================================================================
// Search Highlight
// =========================================================================

#[test]
fn search_highlights_matches() {
    // Given a buffer with lines containing "foo"
    let mut buffer = IterationBuffer::new(1);
    buffer.append_line(StyledLine::raw("this contains foo in the middle"));
    buffer.append_line(StyledLine::raw("no match here"));
    buffer.append_line(StyledLine::raw("foo at start"));

    // When ContentPane renders with search query "foo"
    // Then "foo" spans are highlighted (different style)
    // Check that the 'f' in 'foo' at position 14 (line 0) has highlight style
    assert!(
        has_highlight_style(&buffer, "foo", 40, 3, 14, 0),
        "search match 'foo' should be highlighted"
    );
}

#[test]
fn search_highlights_multiple_matches_per_line() {
    let mut buffer = IterationBuffer::new(1);
    buffer.append_line(StyledLine::raw("foo and another foo here"));

    // Both occurrences should be highlighted
    assert!(
        has_highlight_style(&buffer, "foo", 40, 1, 0, 0),
        "first 'foo' should be highlighted"
    );
    assert!(
        has_highlight_style(&buffer, "foo", 40, 1, 16, 0),
        "second 'foo' should be highlighted"
    );
}

#[test]
fn search_case_insensitive() {
    let mut buffer = IterationBuffer::new(1);
    buffer.append_line(StyledLine::raw("Contains FOO uppercase"));

    // Search for lowercase should match uppercase
    assert!(
        has_highlight_style(&buffer, "foo", 40, 1, 9, 0),
        "case-insensitive search should highlight FOO"
    );
}

#[test]
fn empty_search_query_no_highlight() {
    let mut buffer = IterationBuffer::new(1);
    buffer.append_line(StyledLine::raw("some text"));

    // Empty search shouldn't highlight anything
    let rows = ContentPane::new(&buffer).with_search("").render(40, 1);

    // No cells should have highlight modifier
    assert_eq!(rows.len(), 1);
    assert_eq!(rows[0].len(), 9);
    for cell in &rows[0] {
        assert!(
            !cell.1.add_modifier.contains(Modifier::REVERSED),
            "empty search should not highlight"
        );
    }
}

// =========================================================================
// Empty Buffer Handling
// =========================================================================

#[test]
fn empty_buffer_renders_without_panic() {
    // Given an empty IterationBuffer
    let buffer = IterationBuffer::new(1);

    // When ContentPane renders
    // Then no panic occurs and empty area is shown
    let lines = render_content_pane(&buffer, None, 40, 5);

    // All lines should be empty (spaces)
    for line in &lines {
        assert!(
            line.trim().is_empty(),
            "empty buffer should render blank lines, got: {:?}",
            line
        );
    }
}

#[test]
fn empty_buffer_with_search_renders_without_panic() {
    let buffer = IterationBuffer::new(1);

    // Should not panic even with search query on empty buffer
    let lines = render_content_pane(&buffer, Some("search"), 40, 5);

    for line in &lines {
        assert!(line.trim().is_empty());
    }
}

// =========================================================================
// Widget Integration
// =========================================================================

#[test]
fn widget_fills_provided_rect() {
    let mut buffer = IterationBuffer::new(1);
    buffer.append_line(StyledLine::raw("test"));

    // Render for an area of 30 columns and 10 rows
    let rows = ContentPane::new(&buffer).render(30, 10);

    // Content should start at the first cell of the area
    assert_eq!(
        rows[0][0].0.to_string(),
        "t",
        "content should start at area.x"
    );
}

#[test]
fn widget_truncates_lines_to_area_width() {
    let mut buffer = IterationBuffer::new(1);
    buffer.append_line(StyledLine::raw(
        "this is a very long line that exceeds the width",
    ));

    // Render with narrow width
    let lines = render_content_pane(&buffer, None, 20, 1);

    // Line should be truncated to 20 chars
    assert_eq!(lines[0].len(), 20, "line should be truncated to area width");
    assert_eq!(lines[0], "this is a very long ");
}

// =========================================================================
// Scrolling and the visible window
// =========================================================================

#[test]
fn scroll_bottom_shows_last_three_of_ten() {
    let mut buffer = IterationBuffer::new(1);
    for i in 0..10 {
        buffer.append_line(StyledLine::raw(&format!("line {}", i)));
    }
    buffer.scroll_bottom(3);
    assert_eq!(buffer.scroll_offset, 7);
    let visible: Vec<String> = buffer.visible_lines(3).iter().map(|l| l.to_string()).collect();
    assert_eq!(visible, vec!["line 7", "line 8", "line 9"]);
}

#[test]
fn scroll_offset_stays_in_range() {
    let height = 4;
    let mut buffer = IterationBuffer::new(7);
    assert_eq!(buffer.number, 7);
    let in_range = |b: &IterationBuffer| b.scroll_offset <= b.line_count().saturating_sub(height);
    assert!(in_range(&buffer));
    for round in 0..12 {
        buffer.append_line(StyledLine::raw("x"));
        assert!(in_range(&buffer));
        buffer.scroll_down(height);
        assert!(in_range(&buffer));
        if round % 3 == 0 {
            buffer.scroll_bottom(height);
            assert_eq!(buffer.scroll_offset, buffer.max_scroll(height));
        }
        if round % 4 == 0 {
            buffer.scroll_up();
        }
        if round == 9 {
            buffer.scroll_top();
            assert_eq!(buffer.scroll_offset, 0);
        }
        assert!(in_range(&buffer));
    }
    assert_eq!(buffer.line_count(), 12);
}

#[test]
fn scroll_edges() {
    let mut buffer = IterationBuffer::new(1);
    buffer.scroll_up();
    assert_eq!(buffer.scroll_offset, 0);
    buffer.scroll_down(5);
    assert_eq!(buffer.scroll_offset, 0);
    buffer.scroll_bottom(5);
    assert_eq!(buffer.scroll_offset, 0);
    assert!(buffer.visible_lines(5).is_empty());
    buffer.append_line(StyledLine::raw("only"));
    buffer.scroll_bottom(0);
    assert_eq!(buffer.scroll_offset, 1);
    assert!(buffer.visible_lines(3).is_empty());
    buffer.scroll_offset = 99;
    assert!(buffer.visible_lines(3).is_empty());
    buffer.scroll_offset = 0;
    assert!(buffer.visible_lines(0).is_empty());
    assert_eq!(buffer.visible_lines(usize::MAX).len(), 1);
}

// =========================================================================
// Search compositing
// =========================================================================

#[test]
fn search_yields_exactly_two_highlighted_spans() {
    let line = StyledLine::raw("foo and another foo here");
    for query in ["foo", "FOO", "Foo"] {
        let out = highlight_search_matches(&line, query);
        let texts: Vec<&str> = out.spans.iter().map(|s| s.content.as_str()).collect();
        assert_eq!(texts, vec!["foo", " and another ", "foo", " here"]);
        assert_eq!(out.spans[0].style, match_style());
        assert_eq!(out.spans[1].style, TextStyle::default());
        assert_eq!(out.spans[2].style, match_style());
        assert_eq!(out.spans[3].style, TextStyle::default());
        assert_eq!(out.spans.iter().filter(|s| s.style == match_style()).count(), 2);
    }
}

#[test]
fn highlight_style_is_black_on_yellow_reversed() {
    let style = match_style();
    assert_eq!(style.fg, Some(TermColor::Black));
    assert_eq!(style.bg, Some(TermColor::Yellow));
    assert!(style.add_modifier.contains(Modifier::REVERSED));
    assert_eq!(style.add_modifier.bits, Modifier::REVERSED);
    assert!(style.sub_modifier.is_empty());
}

#[test]
fn highlighting_keeps_the_text_and_the_stored_line() {
    let red = TextStyle::default().fg(TermColor::Red);
    let line = StyledLine::from_spans(vec![
        StyledSpan::styled("Foo bar FOO", red),
        StyledSpan::raw(""),
        StyledSpan::raw("no match"),
        StyledSpan::raw("xfoofoofo"),
    ]);
    let before = line.clone();
    let out = highlight_search_matches(&line, "foo");
    assert_eq!(line, before);
    assert_eq!(out.to_string(), line.to_string());
    let pieces: Vec<(&str, TextStyle)> =
        out.spans.iter().map(|s| (s.content.as_str(), s.style)).collect();
    assert_eq!(
        pieces,
        vec![
            ("Foo", match_style()),
            (" bar ", red),
            ("FOO", match_style()),
            ("", TextStyle::default()),
            ("no match", TextStyle::default()),
            ("x", TextStyle::default()),
            ("foo", match_style()),
            ("foo", match_style()),
            ("fo", TextStyle::default()),
        ]
    );
}

#[test]
fn empty_query_returns_the_line_unchanged() {
    let line = StyledLine::from_spans(vec![
        StyledSpan::styled("a", TextStyle::default().bg(TermColor::Blue)),
        StyledSpan::raw(""),
        StyledSpan::raw("b"),
    ]);
    assert_eq!(highlight_search_matches(&line, ""), line);
}

#[test]
fn matches_do_not_overlap() {
    let out = highlight_search_matches(&StyledLine::raw("aaaaa"), "aa");
    let texts: Vec<&str> = out.spans.iter().map(|s| s.content.as_str()).collect();
    assert_eq!(texts, vec!["aa", "aa", "a"]);
    assert_eq!(out.spans[2].style, TextStyle::default());
}

#[test]
fn highlighting_counts_characters_not_bytes() {
    let out = highlight_search_matches(&StyledLine::raw("→ÉCOLE→ école"), "école");
    let texts: Vec<&str> = out.spans.iter().map(|s| s.content.as_str()).collect();
    assert_eq!(texts, vec!["→", "ÉCOLE", "→ ", "école"]);
    assert_eq!(out.spans[1].style, match_style());
    assert_eq!(out.spans[3].style, match_style());
}

#[test]
fn span_whose_lower_case_has_another_length_passes_through() {
    // Lower-casing this capital letter gives two characters.
    let line = StyledLine::raw("İstanbul is here");
    let out = highlight_search_matches(&line, "is");
    assert_eq!(out, line);
}

#[test]
fn highlight_span_on_given_lower_case_text() {
    let span = StyledSpan::raw("abcabc");
    let lower: Vec<char> = "abcabc".chars().collect();
    let needle: Vec<char> = "bc".chars().collect();
    let out = highlight_span(&span, &lower, &needle);
    let texts: Vec<&str> = out.iter().map(|s| s.content.as_str()).collect();
    assert_eq!(texts, vec!["a", "bc", "a", "bc"]);

    // a lower-cased text of another length leaves the span alone
    let short: Vec<char> = "bc".chars().collect();
    assert_eq!(highlight_span(&span, &short, &needle), vec![span.clone()]);
    // nothing to look for leaves the span alone
    assert_eq!(highlight_span(&span, &lower, &Vec::new()), vec![span.clone()]);
    // a span that is matched whole becomes one highlighted span
    let whole = highlight_span(&span, &lower, &lower);
    assert_eq!(whole, vec![StyledSpan::styled("abcabc", match_style())]);
}

#[test]
fn matches_at_compares_in_place() {
    let hay: Vec<char> = "hello".chars().collect();
    let needle: Vec<char> = "ll".chars().collect();
    assert!(matches_at(&hay, &needle, 2));
    assert!(!matches_at(&hay, &needle, 1));
    assert!(!matches_at(&hay, &needle, 3));
    assert!(matches_at(&hay, &Vec::new(), 5));
}

#[test]
fn cells_carry_the_style_of_their_span() {
    let red = TextStyle::default().fg(TermColor::Red);
    let line = StyledLine::from_spans(vec![
        StyledSpan::styled("ab", red),
        StyledSpan::raw(""),
        StyledSpan::raw("cd"),
    ]);
    let plain = TextStyle::default();
    assert_eq!(
        cells_of_line(&line, 10),
        vec![('a', red), ('b', red), ('c', plain), ('d', plain)]
    );
    assert_eq!(cells_of_line(&line, 3), vec![('a', red), ('b', red), ('c', plain)]);
    assert_eq!(cells_of_line(&line, 2), vec![('a', red), ('b', red)]);
    assert_eq!(cells_of_line(&line, 0), vec![]);
}

#[test]
fn pane_lines_are_the_window_with_highlights() {
    let mut buffer = IterationBuffer::new(1);
    for text in ["zero", "one foo", "two", "three foo"] {
        buffer.append_line(StyledLine::raw(text));
    }
    buffer.scroll_offset = 1;
    let plain = ContentPane::new(&buffer).lines(2);
    assert_eq!(plain, vec![StyledLine::raw("one foo"), StyledLine::raw("two")]);
    let shown = ContentPane::new(&buffer).with_search("foo").lines(2);
    assert_eq!(shown.len(), 2);
    assert_eq!(
        shown[0],
        StyledLine::from_spans(vec![
            StyledSpan::raw("one "),
            StyledSpan::styled("foo", match_style()),
        ])
    );
    assert_eq!(shown[1], StyledLine::raw("two"));
    // the buffer keeps its lines
    assert_eq!(buffer.lines[1], StyledLine::raw("one foo"));
}
