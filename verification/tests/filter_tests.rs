use logview_core::filter::{parse_filter, FilterExpr};

fn parse_ok(q: &str) -> FilterExpr {
    match parse_filter(q) {
        Ok(e) => e,
        Err(e) => panic!("query {:?} failed to parse at {}: {}", q, e.position, e.message),
    }
}

#[test]
fn or_matches_either_side() {
    let e = parse_ok("error OR warning");
    assert!(e.matches("something warning here"));
    assert!(e.matches("an ERROR came up"));
    assert!(!e.matches("all quiet"));
}

#[test]
fn and_requires_both_sides() {
    let e = parse_ok("error AND done");
    assert!(!e.matches("error: not finished"));
    assert!(e.matches("error: done anyway"));
}

#[test]
fn not_inverts() {
    let e = parse_ok("NOT debug");
    assert!(!e.matches("debug trace"));
    assert!(e.matches("info only"));
}

#[test]
fn parse_twice_evaluates_identically() {
    let a = parse_ok("error OR (warn AND NOT debug)");
    let b = parse_ok("error OR (warn AND NOT debug)");
    let lines = [
        "an error",
        "warn: something",
        "warn: debug something",
        "quiet",
        "",
        "DEBUG warn",
    ];
    for line in lines.iter() {
        assert_eq!(a.matches(line), b.matches(line));
        assert_eq!(a.find_all_matches(line), b.find_all_matches(line));
    }
}

#[test]
fn no_ranges_when_expression_is_false() {
    let e = parse_ok("NOT error");
    let r = e.find_all_matches("no error here");
    assert!(r.is_empty());
}

#[test]
fn ranges_of_substring_literal() {
    let e = parse_ok("ab");
    let r = e.find_all_matches("ab xABx ab");
    assert_eq!(r, vec![(0, 2), (4, 6), (8, 10)]);
}

#[test]
fn juxtaposition_is_and() {
    let e = parse_ok("error done");
    assert!(e.matches("done with error"));
    assert!(!e.matches("error only"));
}

#[test]
fn precedence_or_is_lowest() {
    let e = parse_ok("a OR b AND c");
    assert!(e.matches("xxaxx"));
    assert!(e.matches("b and c"));
    assert!(!e.matches("b only"));
}

#[test]
fn dash_negates() {
    let e = parse_ok("-error");
    assert!(e.matches("fine"));
    assert!(!e.matches("an error"));
}

#[test]
fn quoted_phrase_matches_case_insensitively() {
    let e = parse_ok("\"not done\"");
    assert!(e.matches("task NOT DONE yet"));
    assert!(!e.matches("not quite done"));
}

#[test]
fn regex_literal_matches() {
    let e = parse_ok("/er+or/");
    assert!(e.matches("an errrror came up"));
    assert!(!e.matches("eor"));
    let r = e.find_all_matches("error eror");
    assert_eq!(r, vec![(0, 5), (6, 10)]);
}

#[test]
fn regex_ranges_are_character_offsets() {
    let e = parse_ok("/er+or/");
    let r = e.find_all_matches("\u{e9}\u{e9} error");
    assert_eq!(r, vec![(3, 8)]);
}

#[test]
fn group_is_transparent() {
    let e = parse_ok("(error)");
    assert!(e.matches("error"));
    assert!(!e.matches("warn"));
}

#[test]
fn unbalanced_parenthesis_is_an_error() {
    assert!(parse_filter("(error AND").is_err());
    assert!(parse_filter("(error").is_err());
    assert!(parse_filter("error)").is_err());
}

#[test]
fn unterminated_quote_is_an_error() {
    assert!(parse_filter("\"open").is_err());
}

#[test]
fn unterminated_regex_is_an_error() {
    assert!(parse_filter("/open").is_err());
}

#[test]
fn invalid_regex_is_an_error() {
    assert!(parse_filter("/(/").is_err());
}

#[test]
fn dangling_operator_is_an_error() {
    assert!(parse_filter("error AND").is_err());
    assert!(parse_filter("OR error").is_err());
    assert!(parse_filter("NOT").is_err());
}

#[test]
fn empty_atom_is_an_error() {
    assert!(parse_filter("\"\"").is_err());
    assert!(parse_filter("//").is_err());
    assert!(parse_filter("()").is_err());
}

#[test]
fn empty_query_is_an_error() {
    assert!(parse_filter("").is_err());
    assert!(parse_filter("   ").is_err());
}

#[test]
fn keywords_are_case_insensitive() {
    let e = parse_ok("error or warning");
    assert!(e.matches("a warning"));
    let e2 = parse_ok("not debug");
    assert!(!e2.matches("debug"));
}

#[test]
fn error_position_points_into_query() {
    match parse_filter("error AND \"open") {
        Err(e) => assert_eq!(e.position, 10),
        Ok(_) => panic!("expected a parse error"),
    }
}

#[test]
fn regex_with_no_match_reports_no_ranges() {
    let e = parse_ok("/er+or/");
    assert!(!e.matches("eor"));
    assert!(e.find_all_matches("eor").is_empty());
}
