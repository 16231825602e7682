use logview_core::filter::parse_filter;
use logview_core::highlight::{apply_highlights, highlight_line, HighlightStyle, Span};

fn concat_runs(runs: &[(String, HighlightStyle)]) -> String {
    let mut s = String::new();
    for (text, _) in runs {
        s.push_str(text);
    }
    s
}

#[test]
fn runs_cover_the_line_exactly() {
    let line = "2024-01-02 12:33:44 ERROR boot [core] {\"a\":1}";
    let spans = highlight_line(line, None, true, true);
    let runs = apply_highlights(line, &spans);
    assert_eq!(concat_runs(&runs), line);
}

#[test]
fn runs_cover_a_line_with_no_spans() {
    let line = "nothing interesting";
    let runs = apply_highlights(line, &Vec::new());
    assert_eq!(runs.len(), 1);
    assert_eq!(runs[0].0, line);
    assert_eq!(runs[0].1, HighlightStyle::Plain);
}

#[test]
fn priority_resolution_splits_overlaps() {
    let spans = vec![
        Span { start: 0, end: 5, style: HighlightStyle::Warning, priority: 10 },
        Span { start: 2, end: 4, style: HighlightStyle::CustomHighlight, priority: 100 },
    ];
    let runs = apply_highlights("abcde", &spans);
    assert_eq!(runs.len(), 3);
    assert_eq!(runs[0], ("ab".to_string(), HighlightStyle::Warning));
    assert_eq!(runs[1], ("cd".to_string(), HighlightStyle::CustomHighlight));
    assert_eq!(runs[2], ("e".to_string(), HighlightStyle::Warning));
}

#[test]
fn equal_priority_later_span_wins() {
    let spans = vec![
        Span { start: 0, end: 3, style: HighlightStyle::Info, priority: 10 },
        Span { start: 0, end: 3, style: HighlightStyle::Debug, priority: 10 },
    ];
    let runs = apply_highlights("abc", &spans);
    assert_eq!(runs.len(), 1);
    assert_eq!(runs[0], ("abc".to_string(), HighlightStyle::Debug));
}

#[test]
fn out_of_range_spans_are_clamped() {
    let spans = vec![
        Span { start: 2, end: 99, style: HighlightStyle::Error, priority: 10 },
        Span { start: 50, end: 60, style: HighlightStyle::Info, priority: 10 },
    ];
    let runs = apply_highlights("abcd", &spans);
    assert_eq!(concat_runs(&runs), "abcd");
    assert_eq!(runs.len(), 2);
    assert_eq!(runs[0], ("ab".to_string(), HighlightStyle::Plain));
    assert_eq!(runs[1], ("cd".to_string(), HighlightStyle::Error));
}

#[test]
fn heuristics_tag_severity_words() {
    let line = "ERROR then warning then info then trace";
    let spans = highlight_line(line, None, true, false);
    let runs = apply_highlights(line, &spans);
    assert!(runs.contains(&("ERROR".to_string(), HighlightStyle::Error)));
    assert!(runs.contains(&("warning".to_string(), HighlightStyle::Warning)));
    assert!(runs.contains(&("info".to_string(), HighlightStyle::Info)));
    assert!(runs.contains(&("trace".to_string(), HighlightStyle::Debug)));
}

#[test]
fn heuristics_tag_timestamps_and_brackets() {
    let line = "2024-01-02T12:33:44 [worker-1] ok";
    let spans = highlight_line(line, None, true, false);
    let runs = apply_highlights(line, &spans);
    assert!(runs.contains(&("2024-01-02T12:33:44".to_string(), HighlightStyle::Timestamp)));
    assert!(runs.contains(&("[worker-1]".to_string(), HighlightStyle::Bracket)));
}

#[test]
fn bare_time_is_tagged() {
    let line = "at 12:33:44 it happened";
    let spans = highlight_line(line, None, true, false);
    let runs = apply_highlights(line, &spans);
    assert!(runs.contains(&("12:33:44".to_string(), HighlightStyle::Timestamp)));
}

#[test]
fn heuristics_off_means_no_heuristic_spans() {
    let line = "ERROR [x] 12:33:44";
    let spans = highlight_line(line, None, false, false);
    assert!(spans.is_empty());
}

#[test]
fn filter_highlight_beats_heuristics() {
    let e = parse_filter("error").unwrap();
    let line = "an error here";
    let spans = highlight_line(line, Some(&e), true, false);
    let runs = apply_highlights(line, &spans);
    assert!(runs.contains(&("error".to_string(), HighlightStyle::CustomHighlight)));
    assert_eq!(concat_runs(&runs), line);
}

#[test]
fn css_class_names() {
    assert_eq!(HighlightStyle::Plain.css_class(), "");
    assert_eq!(HighlightStyle::Error.css_class(), "hl-error");
    assert_eq!(HighlightStyle::Warning.css_class(), "hl-warn");
    assert_eq!(HighlightStyle::Info.css_class(), "hl-info");
    assert_eq!(HighlightStyle::Debug.css_class(), "hl-debug");
    assert_eq!(HighlightStyle::Bracket.css_class(), "hl-bracket");
    assert_eq!(HighlightStyle::Timestamp.css_class(), "hl-timestamp");
    assert_eq!(HighlightStyle::CustomHighlight.css_class(), "hl-custom");
    assert_eq!(HighlightStyle::JsonKey.css_class(), "hl-json-key");
    assert_eq!(HighlightStyle::JsonString.css_class(), "hl-json-string");
    assert_eq!(HighlightStyle::JsonNumber.css_class(), "hl-json-number");
    assert_eq!(HighlightStyle::JsonBool.css_class(), "hl-json-bool");
    assert_eq!(HighlightStyle::JsonNull.css_class(), "hl-json-null");
}

#[test]
fn spans_come_out_sorted_by_start_then_priority() {
    let e = parse_filter("error").unwrap();
    let line = "error [error] 12:33:44";
    let spans = highlight_line(line, Some(&e), true, false);
    for w in spans.windows(2) {
        let a = &w[0];
        let b = &w[1];
        assert!(a.start < b.start || (a.start == b.start && a.priority >= b.priority));
    }
}

#[test]
fn empty_line_is_one_default_run() {
    let runs = apply_highlights("", &Vec::new());
    assert_eq!(runs.len(), 1);
    assert_eq!(runs[0], ("".to_string(), HighlightStyle::Plain));
}

#[test]
fn empty_line_with_everything_enabled() {
    let spans = highlight_line("", None, true, true);
    let runs = apply_highlights("", &spans);
    let joined: String = runs.iter().map(|r| r.0.as_str()).collect();
    assert_eq!(joined, "");
}

#[test]
fn highlight_line_includes_structure_spans() {
    let line = "x {\"k\":1} y";
    let spans = highlight_line(line, None, false, true);
    assert!(spans
        .iter()
        .any(|s| s.style == HighlightStyle::JsonKey && s.start == 3 && s.end == 6));
    assert!(spans
        .iter()
        .any(|s| s.style == HighlightStyle::JsonNumber && s.start == 7 && s.end == 8));
    let none = highlight_line(line, None, false, false);
    assert!(none.is_empty());
}
