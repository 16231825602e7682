//! The embedded-structure detector: find JSON values inside a log line,
//! then re-locate each key, string, number, boolean and null inside the
//! original text so it can be tagged with a structural category.
//!
//! Locating works by first-occurrence text search, as documented: a
//! repeated key name, a duplicated string value, or a numeral that also
//! appears as a substring elsewhere in the structured text can be
//! mis-attributed. That is an accepted approximation, preserved here, not
//! a correctness guarantee.
use vstd::prelude::*;

use crate::highlight::{gspans, GSpan, HighlightStyle, Span};
use crate::text::{find_seq_from, find_seq_from_exec, skip_spaces, skip_spaces_exec};

verus! {

/// The library's own model of a parsed JSON value. A number is kept in the
/// canonical textual form the parser reports, since only that text is
/// searched for in the line; object members come in the order the parser's
/// map yields them, which sorts them by key.
pub enum JsonValue {
    Null,
    Bool(bool),
    Number(String),
    Str(String),
    Array(Vec<JsonValue>),
    Object(Vec<(String, JsonValue)>),
}

#[verifier::external_type_specification]
#[verifier::external_body]
pub struct ExSerdeValue(serde_json::Value);

/// The conversion half of `parse_prefix`: each variant of the parser's
/// value type moves into the library's own value type, field by field.
#[verifier::external_body]
fn from_serde(v: &serde_json::Value) -> JsonValue {
    match v {
        serde_json::Value::Null => JsonValue::Null,
        serde_json::Value::Bool(b) => JsonValue::Bool(*b),
        serde_json::Value::Number(n) => JsonValue::Number(n.to_string()),
        serde_json::Value::String(s) => JsonValue::Str(s.clone()),
        serde_json::Value::Array(a) => JsonValue::Array(a.iter().map(from_serde).collect()),
        serde_json::Value::Object(m) => JsonValue::Object(
            m.iter().map(|kv| (kv.0.clone(), from_serde(kv.1))).collect(),
        ),
    }
}

/// How many characters of `s` the streaming parser consumes reading one
/// JSON value from its front; nothing when it reads no value, or when the
/// value ends within the first byte (the degenerate case the scan skips
/// over). This depends on the text alone. A value it does read spans at
/// least two characters: more than one byte is consumed and a JSON value's
/// first byte is ASCII.
pub uninterp spec fn json_prefix_len(s: Seq<char>) -> Option<int>;

/// The value the streaming parser reads from the front of `s`, in the
/// library's own model: numbers in their canonical textual form, object
/// members in the order the parser's map yields them (sorted by key). This
/// depends on the text alone. It is spoken of only where `json_prefix_len`
/// reads a value.
pub uninterp spec fn json_value_of(s: Seq<char>) -> JsonValue;

/// Relies on serde_json::Deserializer::into_iter::<Value> and
/// StreamDeserializer::byte_offset: reads one JSON value from the front of
/// `text` and reports the value and how far the parser reached, converted
/// to a character count. `None` exactly when `json_prefix_len` says
/// nothing is read.
#[verifier::external_body]
fn parse_prefix(text: &str) -> (r: Option<(JsonValue, usize)>)
    ensures
        match r {
            Option::Some(p) => json_prefix_len(text@) == Option::Some(p.1 as int) && p.0
                == json_value_of(text@) && 2 <= p.1 <= text@.len(),
            Option::None => json_prefix_len(text@) is None,
        },
{
    let mut stream = serde_json::Deserializer::from_str(text).into_iter::<serde_json::Value>();
    match stream.next() {
        Option::Some(Result::Ok(value)) => {
            let end = stream.byte_offset();
            if end > 1 {
                Option::Some((from_serde(&value), text.split_at(end).0.chars().count()))
            } else {
                Option::None
            }
        },
        _ => Option::None,
    }
}

/// The regions the scan of a line yields, as (start, consumed length)
/// pairs in character offsets: at each `{` or `[`, the leading value the
/// parser reads there, the scan resuming after it; one character onward
/// otherwise.
pub open spec fn spec_scan(text: Seq<char>, pos: int) -> Seq<(int, int)>
    decreases text.len() - pos,
{
    if pos < 0 || pos >= text.len() {
        Seq::empty()
    } else if text[pos] == '{' || text[pos] == '[' {
        match json_prefix_len(text.skip(pos)) {
            Option::Some(used) => if 1 <= used && pos + used <= text.len() {
                seq![(pos, used)] + spec_scan(text, pos + used)
            } else {
                spec_scan(text, pos + 1)
            },
            Option::None => spec_scan(text, pos + 1),
        }
    } else {
        spec_scan(text, pos + 1)
    }
}

pub open spec fn scan_positions(r: Seq<(usize, JsonValue, usize)>) -> Seq<(int, int)> {
    r.map_values(|t: (usize, JsonValue, usize)| (t.0 as int, t.2 as int))
}

/// Scan the line left to right. At each `{` or `[`, try to parse one value
/// starting exactly there; on success record (start, value, consumed
/// length) — all in character offsets — and resume after the consumed
/// region; otherwise move on by one character. Several independent values
/// per line are found this way; their places and extents are exactly the
/// regions of `spec_scan`, and each recorded value is exactly what the
/// parser reads from the line's tail at its start.
pub fn find_all_json(text: &str) -> (r: Vec<(usize, JsonValue, usize)>)
    ensures
        scan_positions(r@) == spec_scan(text@, 0),
        forall|k: int|
            #![trigger r@[k]]
            0 <= k < r@.len() ==> 2 <= r@[k].2 && r@[k].0 + r@[k].2 <= text@.len() && (
            text@[r@[k].0 as int] == '{' || text@[r@[k].0 as int] == '[') && r@[k].1
                == json_value_of(text@.skip(r@[k].0 as int)),
{
    let n = text.unicode_len();
    let mut r: Vec<(usize, JsonValue, usize)> = Vec::new();
    let mut pos: usize = 0;
    while pos < n
        invariant
            n == text@.len(),
            0 <= pos <= n,
            spec_scan(text@, 0) == scan_positions(r@) + spec_scan(text@, pos as int),
            forall|k: int|
                #![trigger r@[k]]
                0 <= k < r@.len() ==> 2 <= r@[k].2 && r@[k].0 + r@[k].2 <= text@.len() && (
                text@[r@[k].0 as int] == '{' || text@[r@[k].0 as int] == '[') && r@[k].1
                    == json_value_of(text@.skip(r@[k].0 as int)),
        decreases n - pos,
    {
        let c = text.get_char(pos);
        if c == '{' || c == '[' {
            let tail = text.substring_char(pos, n);
            proof {
                assert(tail@ =~= text@.skip(pos as int));
            }
            match parse_prefix(tail) {
                Option::Some((v, used)) => {
                    let ghost prev = r@;
                    r.push((pos, v, used));
                    proof {
                        assert(spec_scan(text@, pos as int) == seq![(pos as int, used as int)]
                            + spec_scan(text@, pos + used));
                        assert(scan_positions(r@) =~= scan_positions(prev) + seq![
                            (pos as int, used as int),
                        ]);
                        assert(scan_positions(prev) + (seq![(pos as int, used as int)]
                            + spec_scan(text@, pos + used)) =~= scan_positions(r@) + spec_scan(
                            text@,
                            pos + used,
                        ));
                    }
                    pos = pos + used;
                },
                Option::None => {
                    pos = pos + 1;
                },
            }
        } else {
            pos = pos + 1;
        }
    }
    assert(spec_scan(text@, pos as int) == Seq::<(int, int)>::empty());
    assert(scan_positions(r@) + Seq::<(int, int)>::empty() =~= scan_positions(r@));
    r
}

/// The text `s` wrapped in double quotes.
pub open spec fn quoted(s: Seq<char>) -> Seq<char> {
    seq!['"'] + s + seq!['"']
}

/// After position `i`, the next non-blank character exists and is a colon.
pub open spec fn colon_follows(region: Seq<char>, i: int) -> bool {
    let j = skip_spaces(region, i);
    j < region.len() && region[j] == ':'
}

/// Where a key's quoted text stands in the region: the first occurrence of
/// the quoted key, accepted only when a colon follows it (after blanks) —
/// later occurrences are not tried.
pub open spec fn spec_find_json_key(region: Seq<char>, key: Seq<char>) -> Option<int> {
    match find_seq_from(region, quoted(key), 0) {
        Option::None => Option::None,
        Option::Some(p) => if colon_follows(region, p + key.len() + 2) {
            Option::Some(p)
        } else {
            Option::None
        },
    }
}

/// Where a string value's quoted text stands: the first occurrence of the
/// quoted text, from `from` on, that is not followed by a colon (an
/// occurrence followed by a colon is a key, so the search moves past it).
pub open spec fn spec_find_json_string(region: Seq<char>, s: Seq<char>, from: int) -> Option<int>
    decreases region.len() - from,
{
    match find_seq_from(region, quoted(s), from) {
        Option::None => Option::None,
        Option::Some(p) => if !colon_follows(region, p + s.len() + 2) {
            Option::Some(p)
        } else if from <= p && p < region.len() {
            spec_find_json_string(region, s, p + 1)
        } else {
            Option::None
        },
    }
}

/// The span, if any, of a key in the region: the quoted key text, tagged
/// as a JSON key.
pub open spec fn key_span(region: Seq<char>, key: Seq<char>, base: int) -> Seq<GSpan> {
    match spec_find_json_key(region, key) {
        Option::None => Seq::empty(),
        Option::Some(p) => seq![
            GSpan {
                start: base + p,
                end: base + p + key.len() + 2,
                style: HighlightStyle::JsonKey,
                priority: 50,
            },
        ],
    }
}

/// The span, if any, of a string value: the quoted text, tagged as a JSON
/// string.
pub open spec fn string_span(region: Seq<char>, s: Seq<char>, base: int) -> Seq<GSpan> {
    match spec_find_json_string(region, s, 0) {
        Option::None => Seq::empty(),
        Option::Some(p) => seq![
            GSpan {
            start: base + p,
            end: base + p + s.len() + 2,
            style: HighlightStyle::JsonString,
            priority: 50,
        },
        ],
    }
}

/// The span, if any, of a literal token (number, boolean, null): its first
/// occurrence anywhere in the region's text.
pub open spec fn lit_span(
    region: Seq<char>,
    pat: Seq<char>,
    base: int,
    style: HighlightStyle,
) -> Seq<GSpan> {
    match find_seq_from(region, pat, 0) {
        Option::None => Seq::empty(),
        Option::Some(p) => seq![
            GSpan { start: base + p, end: base + p + pat.len(), style, priority: 50 },
        ],
    }
}

/// All spans of one value, walked recursively: object members yield their
/// key's span then their value's spans, in member order; array elements
/// yield their spans in order.
pub open spec fn value_spans(region: Seq<char>, v: JsonValue, base: int) -> Seq<GSpan>
    decreases v,
{
    match v {
        JsonValue::Null => lit_span(region, "null"@, base, HighlightStyle::JsonNull),
        JsonValue::Bool(b) => lit_span(
            region,
            if b {
                "true"@
            } else {
                "false"@
            },
            base,
            HighlightStyle::JsonBool,
        ),
        JsonValue::Number(s) => lit_span(region, s@, base, HighlightStyle::JsonNumber),
        JsonValue::Str(s) => string_span(region, s@, base),
        JsonValue::Array(elems) => list_spans(region, elems@, elems@.len() as int, base),
        JsonValue::Object(fields) => field_spans(region, fields@, fields@.len() as int, base),
    }
}

/// The spans of the first `k` elements of an array.
pub open spec fn list_spans(region: Seq<char>, elems: Seq<JsonValue>, k: int, base: int) -> Seq<
    GSpan,
>
    decreases elems, k,
{
    if k <= 0 || k > elems.len() {
        Seq::empty()
    } else {
        list_spans(region, elems, k - 1, base) + value_spans(region, elems[k - 1], base)
    }
}

/// The spans of the first `k` members of an object.
pub open spec fn field_spans(
    region: Seq<char>,
    fields: Seq<(String, JsonValue)>,
    k: int,
    base: int,
) -> Seq<GSpan>
    decreases fields, k,
{
    if k <= 0 || k > fields.len() {
        Seq::empty()
    } else {
        field_spans(region, fields, k - 1, base) + key_span(region, fields[k - 1].0@, base)
            + value_spans(region, fields[k - 1].1, base)
    }
}

/// Build the quoted form of `s`.
fn quote_wrap(s: &str) -> (r: String)
    ensures
        r@ == quoted(s@),
{
    let mut r = String::new();
    r.append("\"");
    r.append(s);
    r.append("\"");
    proof {
        reveal_strlit("\"");
        assert(r@ =~= quoted(s@));
    }
    r
}

/// Decide `colon_follows` at position `i`.
fn colon_follows_exec(region: &str, i: usize) -> (r: bool)
    requires
        i <= region@.len(),
    ensures
        r == colon_follows(region@, i as int),
{
    let n = region.unicode_len();
    let j = skip_spaces_exec(region, i);
    if j < n {
        let c = region.get_char(j);
        c == ':'
    } else {
        false
    }
}

/// Locate a key: the first occurrence of the quoted key, accepted only if
/// a colon follows it.
pub fn find_json_key(region: &str, key: &str) -> (r: Option<usize>)
    requires
        region@.len() <= usize::MAX,
    ensures
        match r {
            Option::Some(p) => spec_find_json_key(region@, key@) == Option::Some(p as int) && p
                + key@.len() + 2 <= region@.len(),
            Option::None => spec_find_json_key(region@, key@) is None,
        },
{
    let pat = quote_wrap(key);
    let m = pat.as_str().unicode_len();
    match find_seq_from_exec(region, pat.as_str(), 0) {
        Option::None => Option::None,
        Option::Some(p) => {
            assert(m == key@.len() + 2);
            if colon_follows_exec(region, p + m) {
                Option::Some(p)
            } else {
                Option::None
            }
        },
    }
}

/// Locate a string value: the first occurrence of the quoted text not
/// followed by a colon.
pub fn find_json_string(region: &str, s: &str) -> (r: Option<usize>)
    requires
        region@.len() <= usize::MAX,
    ensures
        match r {
            Option::Some(p) => spec_find_json_string(region@, s@, 0) == Option::Some(p as int)
                && p + s@.len() + 2 <= region@.len(),
            Option::None => spec_find_json_string(region@, s@, 0) is None,
        },
{
    let n = region.unicode_len();
    let pat = quote_wrap(s);
    let m = pat.as_str().unicode_len();
    assert(m == s@.len() + 2);
    let mut from: usize = 0;
    loop
        invariant
            n == region@.len(),
            n <= usize::MAX,
            m == pat@.len(),
            pat@ == quoted(s@),
            m == s@.len() + 2,
            0 <= from <= n,
            spec_find_json_string(region@, s@, 0) == spec_find_json_string(
                region@,
                s@,
                from as int,
            ),
        decreases n - from,
    {
        match find_seq_from_exec(region, pat.as_str(), from) {
            Option::None => {
                return Option::None;
            },
            Option::Some(p) => {
                if !colon_follows_exec(region, p + m) {
                    assert(spec_find_json_string(region@, s@, from as int) == Option::Some(
                        p as int,
                    ));
                    return Option::Some(p);
                }
                assert(p < n);
                from = p + 1;
            },
        }
    }
}


/// Append the span of one literal token, if the token's text occurs.
fn push_lit_span(
    region: &str,
    pat: &str,
    base: usize,
    style: HighlightStyle,
    spans: &mut Vec<Span>,
)
    requires
        base + region@.len() <= usize::MAX,
    ensures
        gspans(final(spans)@) == gspans(old(spans)@) + lit_span(
            region@,
            pat@,
            base as int,
            style,
        ),
{
    let m = pat.unicode_len();
    match find_seq_from_exec(region, pat, 0) {
        Option::None => {
            assert(gspans(spans@) =~= gspans(old(spans)@) + lit_span(
                region@,
                pat@,
                base as int,
                style,
            ));
        },
        Option::Some(p) => {
            let sp = Span { start: base + p, end: base + p + m, style, priority: 50u8 };
            spans.push(sp);
            assert(gspans(spans@) =~= gspans(old(spans)@) + lit_span(
                region@,
                pat@,
                base as int,
                style,
            ));
        },
    }
}

/// Walk one parsed value and append the spans of everything that could be
/// re-located in the region's text, in walk order: for an object, each
/// member's key span then its value's spans; for an array, each element's
/// spans; for leaves, the leaf's own span.
#[verifier::loop_isolation(false)]
pub fn highlight_json_value(region: &str, value: &JsonValue, base: usize, spans: &mut Vec<Span>)
    requires
        base + region@.len() <= usize::MAX,
    ensures
        gspans(final(spans)@) == gspans(old(spans)@) + value_spans(region@, *value, base as int),
    decreases value,
{
    match value {
        JsonValue::Null => {
            push_lit_span(region, "null", base, HighlightStyle::JsonNull, spans);
        },
        JsonValue::Bool(b) => {
            let pat = if *b {
                "true"
            } else {
                "false"
            };
            push_lit_span(region, pat, base, HighlightStyle::JsonBool, spans);
        },
        JsonValue::Number(s) => {
            push_lit_span(region, s.as_str(), base, HighlightStyle::JsonNumber, spans);
        },
        JsonValue::Str(s) => {
            let m = s.as_str().unicode_len();
            match find_json_string(region, s.as_str()) {
                Option::None => {
                    assert(gspans(spans@) =~= gspans(old(spans)@) + value_spans(
                        region@,
                        *value,
                        base as int,
                    ));
                },
                Option::Some(p) => {
                    let sp = Span {
                        start: base + p,
                        end: base + p + m + 2,
                        style: HighlightStyle::JsonString,
                        priority: 50u8,
                    };
                    spans.push(sp);
                    assert(gspans(spans@) =~= gspans(old(spans)@) + value_spans(
                        region@,
                        *value,
                        base as int,
                    ));
                },
            }
        },
        JsonValue::Array(elems) => {
            let ghost pre = gspans(spans@);
            let mut k: usize = 0;
            while k < elems.len()
                invariant
                    0 <= k <= elems@.len(),
                    gspans(spans@) == pre + list_spans(region@, elems@, k as int, base as int),
                decreases elems@.len() - k,
            {
                highlight_json_value(region, &elems[k], base, spans);
                proof {
                    assert(list_spans(region@, elems@, k + 1, base as int) == list_spans(
                        region@,
                        elems@,
                        k as int,
                        base as int,
                    ) + value_spans(region@, elems@[k as int], base as int));
                    assert(gspans(spans@) =~= pre + list_spans(
                        region@,
                        elems@,
                        k + 1,
                        base as int,
                    ));
                }
                k += 1;
            }
            assert(list_spans(region@, elems@, elems@.len() as int, base as int)
                == value_spans(region@, *value, base as int));
        },
        JsonValue::Object(fields) => {
            let ghost pre = gspans(spans@);
            let mut k: usize = 0;
            while k < fields.len()
                invariant
                    0 <= k <= fields@.len(),
                    gspans(spans@) == pre + field_spans(region@, fields@, k as int, base as int),
                decreases fields@.len() - k,
            {
                let pair = &fields[k];
                let ghost mid0 = gspans(spans@);
                let klen = pair.0.as_str().unicode_len();
                match find_json_key(region, pair.0.as_str()) {
                    Option::None => {
                        assert(gspans(spans@) =~= mid0 + key_span(
                            region@,
                            pair.0@,
                            base as int,
                        ));
                    },
                    Option::Some(p) => {
                        let sp = Span {
                            start: base + p,
                            end: base + p + klen + 2,
                            style: HighlightStyle::JsonKey,
                            priority: 50u8,
                        };
                        spans.push(sp);
                        assert(gspans(spans@) =~= mid0 + key_span(
                            region@,
                            pair.0@,
                            base as int,
                        ));
                    },
                }
                let ghost mid1 = gspans(spans@);
                highlight_json_value(region, &pair.1, base, spans);
                proof {
                    assert(field_spans(region@, fields@, k + 1, base as int) == field_spans(
                        region@,
                        fields@,
                        k as int,
                        base as int,
                    ) + key_span(region@, fields@[k as int].0@, base as int) + value_spans(
                        region@,
                        fields@[k as int].1,
                        base as int,
                    ));
                    assert(gspans(spans@) =~= pre + field_spans(
                        region@,
                        fields@,
                        k + 1,
                        base as int,
                    ));
                }
                k += 1;
            }
            assert(field_spans(region@, fields@, fields@.len() as int, base as int)
                == value_spans(region@, *value, base as int));
        },
    }
}

/// Every span of a walked value lies inside `[base, base + region.len()]`,
/// carries the structural priority, and one of the structural categories.
pub proof fn lemma_value_spans_wf(region: Seq<char>, v: JsonValue, base: int)
    requires
        base >= 0,
    ensures
        forall|k: int|
            #![trigger value_spans(region, v, base)[k]]
            0 <= k < value_spans(region, v, base).len() ==> base <= value_spans(
                region,
                v,
                base,
            )[k].start <= value_spans(region, v, base)[k].end <= base + region.len()
                && value_spans(region, v, base)[k].priority == 50 && is_json_style(
                value_spans(region, v, base)[k].style,
            ),
    decreases v,
{
    match v {
        JsonValue::Null => {
            lemma_lit_span_wf(region, "null"@, base, HighlightStyle::JsonNull);
        },
        JsonValue::Bool(b) => {
            lemma_lit_span_wf(
                region,
                if b {
                    "true"@
                } else {
                    "false"@
                },
                base,
                HighlightStyle::JsonBool,
            );
        },
        JsonValue::Number(s) => {
            lemma_lit_span_wf(region, s@, base, HighlightStyle::JsonNumber);
        },
        JsonValue::Str(s) => {
            lemma_find_json_string_bounds(region, s@, 0);
        },
        JsonValue::Array(elems) => {
            lemma_list_spans_wf(region, elems@, elems@.len() as int, base);
        },
        JsonValue::Object(fields) => {
            lemma_field_spans_wf(region, fields@, fields@.len() as int, base);
        },
    }
}

proof fn lemma_lit_span_wf(region: Seq<char>, pat: Seq<char>, base: int, style: HighlightStyle)
    requires
        base >= 0,
    ensures
        forall|k: int|
            #![trigger lit_span(region, pat, base, style)[k]]
            0 <= k < lit_span(region, pat, base, style).len() ==> base <= lit_span(
                region,
                pat,
                base,
                style,
            )[k].start <= lit_span(region, pat, base, style)[k].end <= base + region.len()
                && lit_span(region, pat, base, style)[k].priority == 50 && lit_span(
                region,
                pat,
                base,
                style,
            )[k].style == style,
{
    crate::text::lemma_find_seq_from_some(region, pat, 0);
}

/// A located string value lies within the region.
proof fn lemma_find_json_string_bounds(region: Seq<char>, s: Seq<char>, from: int)
    ensures
        match spec_find_json_string(region, s, from) {
            Option::Some(p) => 0 <= p && p + s.len() + 2 <= region.len(),
            Option::None => true,
        },
    decreases region.len() - from,
{
    crate::text::lemma_find_seq_from_some(region, quoted(s), from);
    match find_seq_from(region, quoted(s), from) {
        Option::None => {},
        Option::Some(p) => {
            if !colon_follows(region, p + s.len() + 2) {
            } else if from <= p && p < region.len() {
                lemma_find_json_string_bounds(region, s, p + 1);
            }
        },
    }
}

proof fn lemma_list_spans_wf(region: Seq<char>, elems: Seq<JsonValue>, k: int, base: int)
    requires
        base >= 0,
    ensures
        forall|t: int|
            #![trigger list_spans(region, elems, k, base)[t]]
            0 <= t < list_spans(region, elems, k, base).len() ==> base <= list_spans(
                region,
                elems,
                k,
                base,
            )[t].start <= list_spans(region, elems, k, base)[t].end <= base + region.len()
                && list_spans(region, elems, k, base)[t].priority == 50 && is_json_style(
                list_spans(region, elems, k, base)[t].style,
            ),
    decreases elems, k,
{
    if k <= 0 || k > elems.len() {
    } else {
        lemma_list_spans_wf(region, elems, k - 1, base);
        lemma_value_spans_wf(region, elems[k - 1], base);
    }
}

proof fn lemma_field_spans_wf(
    region: Seq<char>,
    fields: Seq<(String, JsonValue)>,
    k: int,
    base: int,
)
    requires
        base >= 0,
    ensures
        forall|t: int|
            #![trigger field_spans(region, fields, k, base)[t]]
            0 <= t < field_spans(region, fields, k, base).len() ==> base <= field_spans(
                region,
                fields,
                k,
                base,
            )[t].start <= field_spans(region, fields, k, base)[t].end <= base + region.len()
                && field_spans(region, fields, k, base)[t].priority == 50 && is_json_style(
                field_spans(region, fields, k, base)[t].style,
            ),
    decreases fields, k,
{
    if k <= 0 || k > fields.len() {
    } else {
        lemma_field_spans_wf(region, fields, k - 1, base);
        lemma_value_spans_wf(region, fields[k - 1].1, base);
        crate::text::lemma_find_seq_from_some(region, quoted(fields[k - 1].0@), 0);
    }
}

/// The categories that only the structure detector assigns.
pub open spec fn is_json_style(s: HighlightStyle) -> bool {
    s is JsonKey || s is JsonString || s is JsonNumber || s is JsonBool || s is JsonNull
}

/// Every span the detector hands on lies inside the line, carries the
/// structural priority, and one of the structural categories.
pub open spec fn json_spans_wf(spans: Seq<GSpan>, text: Seq<char>) -> bool {
    forall|k: int|
        #![trigger spans[k]]
        0 <= k < spans.len() ==> 0 <= spans[k].start <= spans[k].end <= text.len()
            && spans[k].priority == 50 && is_json_style(spans[k].style)
}

/// The spans of the first `k` scanned regions: for each region, the walk
/// of the value the parser reads at its start, relocated within it.
pub open spec fn line_spans_upto(text: Seq<char>, regions: Seq<(int, int)>, k: int) -> Seq<GSpan>
    decreases k,
{
    if k <= 0 || k > regions.len() {
        Seq::empty()
    } else {
        line_spans_upto(text, regions, k - 1) + value_spans(
            text.subrange(regions[k - 1].0, regions[k - 1].0 + regions[k - 1].1),
            json_value_of(text.skip(regions[k - 1].0)),
            regions[k - 1].0,
        )
    }
}

/// All structural spans of a line: the walks of every scanned region.
pub open spec fn json_line_spans(text: Seq<char>) -> Seq<GSpan> {
    line_spans_upto(text, spec_scan(text, 0), spec_scan(text, 0).len() as int)
}

/// The detector's whole pass over a line: find every embedded value, walk
/// each, and collect the spans, region by region in scan order; `None`
/// exactly when the scan finds no structured value in the line.
#[verifier::loop_isolation(false)]
pub fn highlight_json(text: &str) -> (r: Option<Vec<Span>>)
    ensures
        (r is Some) == (spec_scan(text@, 0).len() > 0),
        match r {
            Option::Some(spans) => gspans(spans@) == json_line_spans(text@) && json_spans_wf(
                gspans(spans@),
                text@,
            ),
            Option::None => true,
        },
{
    let values = find_all_json(text);
    let ghost regions = spec_scan(text@, 0);
    if values.len() == 0 {
        assert(scan_positions(values@).len() == 0);
        return Option::None;
    }
    assert(spec_scan(text@, 0).len() > 0) by {
        assert(scan_positions(values@).len() == values@.len());
    }
    let n = text.unicode_len();
    let mut spans: Vec<Span> = Vec::new();
    let mut k: usize = 0;
    while k < values.len()
        invariant
            0 <= k <= values@.len(),
            gspans(spans@) == line_spans_upto(text@, regions, k as int),
            json_spans_wf(gspans(spans@), text@),
        decreases values@.len() - k,
    {
        let trip = &values[k];
        let start = trip.0;
        let used = trip.2;
        assert(1 <= used && start + used <= n);
        proof {
            assert(scan_positions(values@)[k as int] == (
                values@[k as int].0 as int,
                values@[k as int].2 as int,
            ));
            assert(regions[k as int] == (start as int, used as int));
            assert(trip.1 == json_value_of(text@.skip(start as int)));
        }
        let region = text.substring_char(start, start + used);
        let ghost pre = gspans(spans@);
        highlight_json_value(region, &trip.1, start, &mut spans);
        proof {
            assert(region@ == text@.subrange(start as int, start + used));
            assert(line_spans_upto(text@, regions, k + 1) == line_spans_upto(
                text@,
                regions,
                k as int,
            ) + value_spans(region@, trip.1, start as int));
            lemma_value_spans_wf(region@, trip.1, start as int);
            assert forall|t: int| 0 <= t < gspans(spans@).len() implies {
                let sp = #[trigger] gspans(spans@)[t];
                0 <= sp.start <= sp.end <= text@.len() && sp.priority == 50 && is_json_style(
                    sp.style,
                )
            } by {
                if t >= pre.len() {
                    let vsp = value_spans(region@, trip.1, start as int);
                    assert(gspans(spans@)[t] == vsp[t - pre.len()]);
                }
            }
        }
        k += 1;
    }
    Option::Some(spans)
}
} // verus!
