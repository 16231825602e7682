use logview_core::filter_state::FilterState;
use logview_core::input_state::{InputFields, InputMode, TextInput};
use logview_core::listen_state::{ListenAddrEntry, ListenDisplayMode, ListenState};
use logview_core::log_state::LogState;
use logview_core::state::{default_wrap_lines, AppState};

#[test]
fn app_state_defaults() {
    let s = AppState::default();
    assert_eq!(s.hide_input, "");
    assert_eq!(s.filter_input, "");
    assert_eq!(s.highlight_input, "");
    assert!(s.wrap_lines);
    assert!(default_wrap_lines());
}

#[test]
fn filter_state_defaults() {
    let s = FilterState::default();
    assert!(s.hide_pattern.is_none());
    assert!(s.filter_expr.is_none());
    assert!(s.highlight_expr.is_none());
}

#[test]
fn input_fields_come_from_state() {
    let st = AppState {
        hide_input: "h".to_string(),
        filter_input: "f".to_string(),
        highlight_input: "g".to_string(),
        wrap_lines: false,
    };
    let mut fields = InputFields::from_state(&st);
    assert_eq!(fields.hide.text, "h");
    assert_eq!(fields.filter.text, "f");
    assert_eq!(fields.highlight.text, "g");
    assert_eq!(fields.line_start.text, "");
    assert!(fields.get_active_mut(InputMode::Normal).is_none());
    let f = fields.get_active_mut(InputMode::FilterEdit).unwrap();
    f.text.push('x');
    assert_eq!(fields.filter.text, "fx");
    assert!(fields.get_active_mut(InputMode::HideEdit).is_some());
    assert!(fields.get_active_mut(InputMode::HighlightEdit).is_some());
    assert!(fields.get_active_mut(InputMode::LineStartEdit).is_some());
    let t = TextInput::new("abc".to_string());
    assert_eq!(t.text, "abc");
}

#[test]
fn log_state_scrolling() {
    let mut s = LogState::default();
    assert!(s.follow_tail);
    let i0 = s.add_line("one".to_string(), "t0".to_string());
    let i1 = s.add_line("two".to_string(), "t1".to_string());
    assert_eq!((i0, i1), (0, 1));
    s.filtered_indices = vec![0, 1];
    assert_eq!(s.get_bottom_line_idx(), 1);
    s.scroll_up(1);
    assert!(!s.follow_tail);
    assert_eq!(s.bottom_line_idx, 0);
    s.scroll_down(5);
    assert!(s.follow_tail);
    assert_eq!(s.bottom_line_idx, 1);
    s.scroll_to_start();
    assert_eq!(s.get_bottom_line_idx(), 0);
    s.scroll_to_end();
    assert!(s.follow_tail);
    assert_eq!(s.bottom_line_idx, 1);
    s.clear();
    assert!(s.lines.is_empty());
    assert_eq!(s.bottom_line_idx, 0);
}

#[test]
fn scroll_down_while_following_does_nothing() {
    let mut s = LogState::default();
    s.filtered_indices = vec![0, 1, 2];
    s.follow_tail = true;
    s.bottom_line_idx = 7;
    s.scroll_down(1);
    assert_eq!(s.bottom_line_idx, 7);
    assert!(s.follow_tail);
}

fn entry(ip: &str, v6: bool, row: u16) -> ListenAddrEntry {
    ListenAddrEntry { ip: ip.to_string(), is_v6: v6, is_self_assigned: false, row }
}

#[test]
fn listen_copy_text_formats() {
    let mut s = ListenState::new(Some(8080));
    assert!(s.show_popup());
    s.addr_list.push(entry("127.0.0.1", false, 1));
    s.addr_list.push(entry("::1", true, 2));
    s.selected_idx = 0;
    assert_eq!(s.get_selected_copy_text().as_deref(), Some("127.0.0.1:8080"));
    s.selected_idx = 1;
    assert_eq!(s.get_selected_copy_text().as_deref(), Some("[::1]:8080"));
    s.toggle_display_mode();
    assert_eq!(s.get_selected_copy_text().as_deref(), Some("nc -6 ::1 8080"));
    s.selected_idx = 0;
    assert_eq!(s.get_selected_copy_text().as_deref(), Some("nc 127.0.0.1 8080"));
}

#[test]
fn listen_selection_wraps() {
    let mut s = ListenState::new(Some(80));
    s.addr_list.push(entry("a", false, 1));
    s.addr_list.push(entry("b", false, 2));
    s.select_next();
    assert_eq!(s.selected_idx, 1);
    s.select_next();
    assert_eq!(s.selected_idx, 0);
    s.select_prev();
    assert_eq!(s.selected_idx, 1);
}

#[test]
fn listen_popup_visibility() {
    let mut s = ListenState::new(Some(80));
    assert!(s.show_popup());
    s.has_connection = true;
    assert!(!s.show_popup());
    let none = ListenState::new(None);
    assert!(!none.show_popup());
    assert!(matches!(none.display_mode, ListenDisplayMode::AddrPort));
}

#[test]
fn listen_click_selects_a_row() {
    let mut s = ListenState::new(Some(80));
    s.addr_list.push(entry("1.1.1.1", false, 1));
    s.addr_list.push(entry("2.2.2.2", false, 2));
    s.popup_area = Some((10, 5, 20, 6));
    assert!(s.handle_click(0, 0).is_none());
    assert_eq!(s.selected_idx, 0);
    let copied = s.handle_click(12, 7);
    assert_eq!(s.selected_idx, 1);
    assert_eq!(copied.as_deref(), Some("2.2.2.2:80"));
    assert!(s.handle_click(12, 9).is_none());
}
