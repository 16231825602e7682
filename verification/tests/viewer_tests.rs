use logview_core::highlight::HighlightStyle;
use logview_core::viewer::{App, InputMode, LogLine};

fn app_with_lines(lines: &[&str]) -> App {
    let mut app = App::new();
    for line in lines {
        app.add_line(line.to_string(), "12:00:00".to_string());
    }
    app
}

#[test]
fn new_app_defaults() {
    let app = App::new();
    assert!(app.lines.is_empty());
    assert!(app.filtered_indices.is_empty());
    assert_eq!(app.scroll_offset, 0);
    assert!(app.filter_expr.is_none());
    assert!(app.show_time);
    assert!(app.heuristic_highlight);
    assert!(!app.wrap_lines);
    assert!(app.follow_tail);
    assert!(matches!(app.input_mode, InputMode::Normal));
}

#[test]
fn added_lines_pass_without_a_filter() {
    let app = app_with_lines(&["a", "b"]);
    assert_eq!(app.filtered_indices, vec![0, 1]);
}

#[test]
fn apply_filter_rebuilds_the_view() {
    let mut app = app_with_lines(&["an error", "all fine", "ERROR again"]);
    app.filter_input = "error".to_string();
    app.apply_filter();
    assert!(app.filter_error.is_none());
    assert_eq!(app.filtered_indices, vec![0, 2]);
    assert_eq!(app.scroll_offset, 0);
}

#[test]
fn lines_added_after_a_filter_are_gated() {
    let mut app = App::new();
    app.filter_input = "keep".to_string();
    app.apply_filter();
    app.add_line("keep me".to_string(), "t".to_string());
    app.add_line("drop me".to_string(), "t".to_string());
    assert_eq!(app.filtered_indices, vec![0]);
}

#[test]
fn malformed_query_keeps_previous_expression() {
    let mut app = app_with_lines(&["an error", "all fine"]);
    app.filter_input = "error".to_string();
    app.apply_filter();
    assert_eq!(app.filtered_indices, vec![0]);

    app.filter_input = "(error AND".to_string();
    app.apply_filter();
    assert!(app.filter_error.is_some());
    // the previously active expression is still in effect, unchanged
    assert_eq!(app.filtered_indices, vec![0]);
    assert!(app.matches_filter(0));
    assert!(!app.matches_filter(1));
}

#[test]
fn blank_query_clears_the_filter() {
    let mut app = app_with_lines(&["an error", "all fine"]);
    app.filter_input = "error".to_string();
    app.apply_filter();
    app.filter_input = "   ".to_string();
    app.apply_filter();
    assert!(app.filter_expr.is_none());
    assert!(app.filter_error.is_none());
    assert_eq!(app.filtered_indices, vec![0, 1]);
}

#[test]
fn apply_highlight_success_and_failure() {
    let mut app = App::new();
    app.highlight_input = "warn".to_string();
    app.apply_highlight();
    assert!(app.highlight_expr.is_some());
    assert!(app.highlight_error.is_none());

    app.highlight_input = "\"open".to_string();
    app.apply_highlight();
    assert!(app.highlight_error.is_some());
    assert!(app.highlight_expr.is_some());
}

#[test]
fn clear_drops_everything_and_reports() {
    let mut app = app_with_lines(&["a", "b"]);
    app.clear();
    assert!(app.lines.is_empty());
    assert!(app.filtered_indices.is_empty());
    assert_eq!(app.status_message.as_deref(), Some("Cleared"));
}

#[test]
fn scrolling_clamps_and_toggles_follow() {
    let mut app = app_with_lines(&["a", "b", "c", "d", "e"]);
    app.scroll_up(2);
    assert_eq!(app.scroll_offset, 0);
    assert!(!app.follow_tail);
    app.scroll_down(1, 2);
    assert_eq!(app.scroll_offset, 1);
    assert!(!app.follow_tail);
    app.scroll_down(10, 2);
    assert_eq!(app.scroll_offset, 3);
    assert!(app.follow_tail);
    app.scroll_to_start();
    assert_eq!(app.scroll_offset, 0);
    assert!(!app.follow_tail);
    app.scroll_to_end(2);
    assert_eq!(app.scroll_offset, 3);
    assert!(app.follow_tail);
}

#[test]
fn visible_lines_follow_the_tail() {
    let mut app = app_with_lines(&["a", "b", "c", "d"]);
    app.follow_tail = true;
    let v = app.get_visible_lines(2);
    assert_eq!(v.len(), 2);
    assert_eq!(v[0].0, 2);
    assert_eq!(v[0].1.content, "c");
    assert_eq!(v[1].0, 3);
    assert_eq!(v[1].1.content, "d");
}

#[test]
fn visible_lines_from_scroll_offset() {
    let mut app = app_with_lines(&["a", "b", "c", "d"]);
    app.follow_tail = false;
    app.scroll_offset = 1;
    let v = app.get_visible_lines(2);
    assert_eq!(v.len(), 2);
    assert_eq!(v[0].0, 1);
    assert_eq!(v[1].0, 2);
}

#[test]
fn render_line_covers_content_and_highlights() {
    let mut app = App::new();
    app.highlight_input = "error".to_string();
    app.apply_highlight();
    let line = LogLine { timestamp: "t".to_string(), content: "an error [x]".to_string() };
    let runs = app.render_line(&line);
    let joined: String = runs.iter().map(|r| r.0.as_str()).collect();
    assert_eq!(joined, "an error [x]");
    assert!(runs.contains(&("error".to_string(), HighlightStyle::CustomHighlight)));
}

#[test]
fn toggles_flip() {
    let mut app = App::new();
    app.toggle_time();
    assert!(!app.show_time);
    app.toggle_heuristic();
    assert!(!app.heuristic_highlight);
    app.toggle_wrap();
    assert!(app.wrap_lines);
    app.set_status("note".to_string());
    assert_eq!(app.status_message.as_deref(), Some("note"));
}
