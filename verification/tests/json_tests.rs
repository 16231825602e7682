use logview_core::highlight::{apply_highlights, HighlightStyle, Span};
use logview_core::json::{find_all_json, find_json_key, find_json_string, highlight_json, JsonValue};

fn spans_of(line: &str) -> Vec<Span> {
    highlight_json(line).expect("expected structured content")
}

fn has_span(spans: &[Span], start: usize, end: usize, style: HighlightStyle) -> bool {
    spans.iter().any(|s| s.start == start && s.end == end && s.style == style)
}

#[test]
fn plain_line_has_no_structure() {
    assert!(highlight_json("just words").is_none());
    assert!(highlight_json("").is_none());
}

#[test]
fn object_keys_and_values_are_located() {
    // {"a":1} embedded after a prefix of 4 characters
    let line = "log {\"a\":1}";
    let spans = spans_of(line);
    assert!(has_span(&spans, 5, 8, HighlightStyle::JsonKey));
    assert!(has_span(&spans, 9, 10, HighlightStyle::JsonNumber));
}

#[test]
fn duplicate_string_value_is_relocated_to_first_occurrence() {
    // The documented approximation: both values "x" are located at the
    // first occurrence of "x" in the region.
    let line = "{\"a\":\"x\",\"b\":\"x\"}";
    let spans = spans_of(line);
    assert!(has_span(&spans, 1, 4, HighlightStyle::JsonKey));
    assert!(has_span(&spans, 9, 12, HighlightStyle::JsonKey));
    let string_spans: Vec<&Span> = spans
        .iter()
        .filter(|s| s.style == HighlightStyle::JsonString)
        .collect();
    assert_eq!(string_spans.len(), 2);
    assert_eq!((string_spans[0].start, string_spans[0].end), (5, 8));
    assert_eq!((string_spans[1].start, string_spans[1].end), (5, 8));
}

#[test]
fn bool_and_null_are_located() {
    let line = "{\"ok\":true,\"v\":null}";
    let spans = spans_of(line);
    assert!(has_span(&spans, 6, 10, HighlightStyle::JsonBool));
    assert!(has_span(&spans, 15, 19, HighlightStyle::JsonNull));
}

#[test]
fn arrays_recurse_into_elements() {
    let line = "[1,true]";
    let spans = spans_of(line);
    assert!(has_span(&spans, 1, 2, HighlightStyle::JsonNumber));
    assert!(has_span(&spans, 3, 7, HighlightStyle::JsonBool));
}

#[test]
fn two_independent_values_on_one_line() {
    let line = "{\"a\":1} and [2]";
    let found = find_all_json(line);
    assert_eq!(found.len(), 2);
    assert_eq!(found[0].0, 0);
    assert_eq!(found[0].2, 7);
    assert_eq!(found[1].0, 12);
    assert_eq!(found[1].2, 3);
}

#[test]
fn malformed_candidates_are_skipped() {
    let line = "{oops then [1] end";
    let found = find_all_json(line);
    assert_eq!(found.len(), 1);
    assert_eq!(found[0].0, 11);
    match &found[0].1 {
        JsonValue::Array(elems) => assert_eq!(elems.len(), 1),
        _ => panic!("expected an array"),
    }
}

#[test]
fn degenerate_braces_are_not_values() {
    assert!(highlight_json("a { b [ c").is_none());
}

#[test]
fn find_json_key_requires_colon() {
    assert_eq!(find_json_key("{\"a\":1}", "a"), Some(1));
    // first occurrence of "b" is a plain value, not followed by a colon,
    // and only the first occurrence is tried
    assert_eq!(find_json_key("{\"x\":\"b\",\"b\":2}", "b"), None);
}

#[test]
fn find_json_string_skips_keys() {
    // the first occurrence of "a" is a key; the value is found after it
    assert_eq!(find_json_string("{\"a\":\"a\"}", "a"), Some(5));

    assert_eq!(find_json_string("{\"a\":1}", "zzz"), None);
}

#[test]
fn json_spans_render_within_the_line() {
    let line = "pre {\"k\":[true,2.5]} post";
    let spans = spans_of(line);
    let runs = apply_highlights(line, &spans);
    let joined: String = runs.iter().map(|r| r.0.as_str()).collect();
    assert_eq!(joined, line);
    assert!(runs.contains(&("\"k\"".to_string(), HighlightStyle::JsonKey)));
    assert!(runs.contains(&("true".to_string(), HighlightStyle::JsonBool)));
    assert!(runs.contains(&("2.5".to_string(), HighlightStyle::JsonNumber)));
}

#[test]
fn multibyte_text_before_structure_counts_characters() {
    let line = "\u{e9}\u{e9} {\"a\":1}";
    let found = find_all_json(line);
    assert_eq!(found.len(), 1);
    assert_eq!(found[0].0, 3);
    assert_eq!(found[0].2, 7);
}
