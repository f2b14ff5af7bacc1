use ralph_stream::state::TuiState;
use ralph_stream::style::{Modifier, TermColor};
use ralph_stream::widgets::footer::{render, Footer};

fn render_to_string(state: &TuiState) -> String {
    render_to_string_with_width(state, 80)
}

fn render_to_string_with_width(state: &TuiState, width: u16) -> String {
    let content = render(state).content();
    let left = content.left.to_string();
    let right = content.right.map(|line| line.to_string()).unwrap_or_default();
    let used = left.chars().count() + right.chars().count();
    let gap = (width as usize).saturating_sub(used);
    format!("{}{}{}", left, " ".repeat(gap), right)
}

#[test]
fn footer_shows_new_iteration_alert() {
    // Given new_iteration_alert = Some(5) and following_latest = false
    let mut state = TuiState::new();
    state.new_iteration_alert = Some(5);
    state.following_latest = false;

    // When footer renders
    let text = render_to_string(&state);

    // Then output contains "▶ New: iter 5"
    assert!(
        text.contains("▶ New: iter 5"),
        "should show new iteration alert, got: {}",
        text
    );
}

#[test]
fn footer_no_alert_when_following() {
    // Given following_latest = true (even if new_iteration_alert has a value)
    let mut state = TuiState::new();
    state.new_iteration_alert = Some(5);
    state.following_latest = true;

    // When footer renders
    let text = render_to_string(&state);

    // Then no alert is shown
    assert!(
        !text.contains("▶ New:"),
        "should NOT show alert when following_latest=true, got: {}",
        text
    );
}

#[test]
fn footer_shows_last_event() {
    // Given last_event = Some("build.done")
    let mut state = TuiState::new();
    state.last_event = Some("build.done".to_string());

    // When footer renders
    let text = render_to_string(&state);

    // Then output contains "build.done"
    assert!(
        text.contains("build.done"),
        "should show last event, got: {}",
        text
    );
}

#[test]
fn footer_shows_activity_indicator_active() {
    // Given activity is ongoing (recent event)
    let mut state = TuiState::new();
    state.last_event = Some("build.task".to_string());
    state.last_event_age_ms = Some(0);
    state.pending_hat = Some(("builder".to_string(), "🔨Builder".to_string()));

    // When footer renders
    let text = render_to_string(&state);

    // Then output contains ◉ (active indicator)
    assert!(
        text.contains('◉'),
        "should show active indicator, got: {}",
        text
    );
}

#[test]
fn footer_shows_search_query() {
    // Given search_state has an active query
    let mut state = TuiState::new();
    state.search_state.query = Some("test".to_string());
    state.search_state.matches = vec![(0, 0), (1, 0)]; // 2 matches

    // When footer renders
    let text = render_to_string(&state);

    // Then output contains "Search: test 1/2"
    assert!(
        text.contains("Search: test"),
        "should show search query, got: {}",
        text
    );
    assert!(
        text.contains("1/2"),
        "should show match position, got: {}",
        text
    );
}

#[test]
fn footer_shows_no_matches_when_empty() {
    // Given search with no matches
    let mut state = TuiState::new();
    state.search_state.query = Some("notfound".to_string());
    state.search_state.matches = vec![];

    // When footer renders
    let text = render_to_string(&state);

    // Then output contains "no matches"
    assert!(
        text.contains("no matches"),
        "should show no matches indicator, got: {}",
        text
    );
}

#[test]
fn footer_shows_done_indicator_when_complete() {
    // Given pending_hat = None (task complete)
    let mut state = TuiState::new();
    state.pending_hat = None;
    state.last_event = Some("loop.terminate".to_string());

    // When footer renders
    let text = render_to_string(&state);

    // Then output contains ■ done
    assert!(
        text.contains('■') && text.contains("done"),
        "should show done indicator, got: {}",
        text
    );
}

#[test]
fn footer_shows_idle_indicator() {
    // Given activity is not ongoing (no recent event)
    let mut state = TuiState::new();
    state.last_event = Some("old.event".to_string());
    state.last_event_age_ms = Some(5000);
    state.pending_hat = Some(("builder".to_string(), "🔨Builder".to_string()));

    // When footer renders
    let text = render_to_string(&state);

    // Then output contains ◯ (idle indicator)
    assert!(
        text.contains('◯'),
        "should show idle indicator when no recent activity, got: {}",
        text
    );
}

#[test]
fn footer_default_display_in_full() {
    let mut state = TuiState::new();
    state.new_iteration_alert = Some(12);
    state.following_latest = false;
    let content = Footer::new(&state).content();
    assert_eq!(content.left.to_string(), " ▶ New: iter 12 │ Last: —");
    assert_eq!(content.left.spans[1].style.fg, Some(TermColor::Green));
    let right = content.right.unwrap();
    assert_eq!(right.to_string(), "■ done ");
    assert_eq!(right.spans[0].style.fg, Some(TermColor::Blue));
}

#[test]
fn footer_indicator_styles() {
    let mut state = TuiState::new();
    state.pending_hat = Some(("builder".to_string(), "Builder".to_string()));
    state.last_event_age_ms = Some(1999);
    let active = Footer::new(&state).content().right.unwrap();
    assert_eq!(active.to_string(), "◉ active ");
    assert_eq!(active.spans[0].style.fg, Some(TermColor::Green));

    state.last_event_age_ms = Some(2000);
    let idle = Footer::new(&state).content().right.unwrap();
    assert_eq!(idle.to_string(), "◯ idle ");
    assert_eq!(idle.spans[0].style.fg, Some(TermColor::DarkGray));
    assert!(idle.spans[0].style.add_modifier.contains(Modifier::DIM));

    state.last_event_age_ms = None;
    assert_eq!(Footer::new(&state).content().right.unwrap().to_string(), "◯ idle ");
}

#[test]
fn footer_search_takes_precedence_over_prompt() {
    let mut state = TuiState::new();
    state.search_query = "typed".to_string();
    state.search_forward = false;
    let prompt = Footer::new(&state).content();
    assert_eq!(prompt.left.to_string(), " ?typed");
    assert_eq!(prompt.left.spans[1].style.fg, Some(TermColor::Yellow));
    assert!(prompt.right.is_none());

    state.search_forward = true;
    assert_eq!(Footer::new(&state).content().left.to_string(), " /typed");

    state.search_state.query = Some("needle".to_string());
    state.search_state.matches = vec![(0, 0), (3, 4), (9, 1)];
    state.search_state.current_match = 2;
    let search = Footer::new(&state).content();
    assert_eq!(search.left.to_string(), " Search: needle 3/3");
    assert_eq!(search.left.spans[1].style.fg, Some(TermColor::Yellow));
    assert_eq!(search.left.spans[2].style.fg, Some(TermColor::Cyan));
    assert!(search.right.is_none());
}
