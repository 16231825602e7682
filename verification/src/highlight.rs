//! Styles, spans, the heuristic rule table, and the span engine that merges
//! overlapping ranges from every source into one run list covering the line.
use vstd::prelude::*;

use crate::filter::{FilterExpr, SpecExpr};
use crate::rx;

verus! {

/// The semantic category of a text range, independent of any color mapping.
#[derive(Clone, Copy, PartialEq, Eq, Structural, Debug)]
pub enum HighlightStyle {
    Plain,
    Error,
    Warning,
    Info,
    Debug,
    Bracket,
    Timestamp,
    CustomHighlight,
    JsonKey,
    JsonString,
    JsonNumber,
    JsonBool,
    JsonNull,
}

pub open spec fn spec_css_class(s: HighlightStyle) -> Seq<char> {
    match s {
        HighlightStyle::Plain => ""@,
        HighlightStyle::Error => "hl-error"@,
        HighlightStyle::Warning => "hl-warn"@,
        HighlightStyle::Info => "hl-info"@,
        HighlightStyle::Debug => "hl-debug"@,
        HighlightStyle::Bracket => "hl-bracket"@,
        HighlightStyle::Timestamp => "hl-timestamp"@,
        HighlightStyle::CustomHighlight => "hl-custom"@,
        HighlightStyle::JsonKey => "hl-json-key"@,
        HighlightStyle::JsonString => "hl-json-string"@,
        HighlightStyle::JsonNumber => "hl-json-number"@,
        HighlightStyle::JsonBool => "hl-json-bool"@,
        HighlightStyle::JsonNull => "hl-json-null"@,
    }
}

impl HighlightStyle {
    /// The CSS class name of this category; empty for the default category.
    pub fn css_class(&self) -> (r: &'static str)
        ensures
            r@ == spec_css_class(*self),
    {
        match self {
            HighlightStyle::Plain => "",
            HighlightStyle::Error => "hl-error",
            HighlightStyle::Warning => "hl-warn",
            HighlightStyle::Info => "hl-info",
            HighlightStyle::Debug => "hl-debug",
            HighlightStyle::Bracket => "hl-bracket",
            HighlightStyle::Timestamp => "hl-timestamp",
            HighlightStyle::CustomHighlight => "hl-custom",
            HighlightStyle::JsonKey => "hl-json-key",
            HighlightStyle::JsonString => "hl-json-string",
            HighlightStyle::JsonNumber => "hl-json-number",
            HighlightStyle::JsonBool => "hl-json-bool",
            HighlightStyle::JsonNull => "hl-json-null",
        }
    }
}

/// A half-open range `[start, end)` of character offsets into a line, with
/// its category and the priority used to resolve overlaps.
#[derive(Clone, Copy, Debug)]
pub struct Span {
    pub start: usize,
    pub end: usize,
    pub style: HighlightStyle,
    pub priority: u8,
}

/// The mathematical shadow of a span, over unbounded integers.
pub struct GSpan {
    pub start: int,
    pub end: int,
    pub style: HighlightStyle,
    pub priority: int,
}

impl View for Span {
    type V = GSpan;

    open spec fn view(&self) -> GSpan {
        GSpan {
            start: self.start as int,
            end: self.end as int,
            style: self.style,
            priority: self.priority as int,
        }
    }
}

pub open spec fn gspans(s: Seq<Span>) -> Seq<GSpan> {
    s.map_values(|sp: Span| sp@)
}

/// The category and priority that position `pos` ends with after the spans
/// are applied in order: a span overwrites the position when it covers it
/// and its priority is at least the priority already there, so a later span
/// wins a tie.
pub open spec fn style_at(spans: Seq<GSpan>, pos: int) -> (HighlightStyle, int)
    decreases spans.len(),
{
    if spans.len() == 0 {
        (HighlightStyle::Plain, 0)
    } else {
        let prev = style_at(spans.drop_last(), pos);
        let s = spans.last();
        if s.start <= pos < s.end && s.priority >= prev.1 {
            (s.style, s.priority)
        } else {
            prev
        }
    }
}

/// The per-character categories of a line of `n` characters.
pub open spec fn styles_of(spans: Seq<GSpan>, n: int) -> Seq<HighlightStyle> {
    Seq::new(n as nat, |p: int| style_at(spans, p).0)
}

/// The text of a run list, concatenated in order.
pub open spec fn runs_text(rs: Seq<(String, HighlightStyle)>) -> Seq<char>
    decreases rs.len(),
{
    if rs.len() == 0 {
        Seq::empty()
    } else {
        runs_text(rs.drop_last()) + rs.last().0@
    }
}

/// The per-character categories a run list paints: each run's category,
/// repeated for each of its characters.
pub open spec fn runs_expand(rs: Seq<(String, HighlightStyle)>) -> Seq<HighlightStyle>
    decreases rs.len(),
{
    if rs.len() == 0 {
        Seq::empty()
    } else {
        runs_expand(rs.drop_last()) + Seq::new(rs.last().0@.len(), |k: int| rs.last().1)
    }
}

/// Merge spans into runs. The output covers the line exactly: concatenating
/// the run texts gives the line back, every position carries the category
/// the span priorities resolve to, maximal runs are coalesced (adjacent
/// runs differ in category), and no run is empty — except that a line with
/// no spans at all is one single run of the default category, even when the
/// line itself is empty. Out-of-range span offsets are clamped, never an
/// error.
/// One table entry carries exactly the category and priority that the
/// spans resolve to at position `t`.
pub open spec fn entry_matches(e: (HighlightStyle, u8), spans: Seq<GSpan>, t: int) -> bool {
    e.0 == style_at(spans, t).0 && e.1 as int == style_at(spans, t).1
}

pub open spec fn table_matches(
    tab: Seq<(HighlightStyle, u8)>,
    spans: Seq<GSpan>,
    lo: int,
    hi: int,
) -> bool {
    forall|t: int| lo <= t < hi ==> entry_matches(#[trigger] tab[t], spans, t)
}

/// Appending one span to the list either overwrites a position it covers
/// with at least the standing priority, or leaves the position as it was.
pub proof fn lemma_style_at_push(spans: Seq<GSpan>, s: GSpan, pos: int)
    ensures
        style_at(spans.push(s), pos) == (if s.start <= pos < s.end && s.priority >= style_at(
            spans,
            pos,
        ).1 {
            (s.style, s.priority)
        } else {
            style_at(spans, pos)
        }),
{
    assert(spans.push(s).len() == spans.len() + 1);
    assert(spans.push(s).drop_last() =~= spans);
    assert(spans.push(s).last() == s);
    assert(style_at(spans.push(s), pos) == ({
        let prev = style_at(spans.push(s).drop_last(), pos);
        let l = spans.push(s).last();
        if l.start <= pos < l.end && l.priority >= prev.1 {
            (l.style, l.priority)
        } else {
            prev
        }
    }));
}

pub fn apply_highlights(text: &str, spans: &Vec<Span>) -> (r: Vec<(String, HighlightStyle)>)
    ensures
        runs_text(r@) == text@,
        spans@.len() == 0 ==> r@.len() == 1 && r@[0].0@ == text@ && r@[0].1
            == HighlightStyle::Plain,
        spans@.len() > 0 ==> runs_expand(r@) == styles_of(gspans(spans@), text@.len() as int),
        spans@.len() > 0 ==> forall|t: int|
            #![trigger r@[t]]
            0 <= t < r@.len() - 1 ==> r@[t].1 != r@[t + 1].1,
        spans@.len() > 0 ==> forall|t: int|
            #![trigger r@[t]]
            0 <= t < r@.len() ==> r@[t].0@.len() > 0,
{
    let n = text.unicode_len();
    if spans.len() == 0 {
        let mut r: Vec<(String, HighlightStyle)> = Vec::new();
        r.push((text.to_owned(), HighlightStyle::Plain));
        proof {
            let e = Seq::<(String, HighlightStyle)>::empty();
            assert(runs_text(e) == Seq::<char>::empty());
            assert(r@.drop_last() =~= e);
            assert(runs_text(r@) == runs_text(r@.drop_last()) + r@.last().0@);
            assert(runs_text(r@) =~= text@);
        }
        return r;
    }
    let ghost g = gspans(spans@);

    // Build the per-character table, one span at a time.
    let mut table: Vec<(HighlightStyle, u8)> = Vec::new();
    let mut p: usize = 0;
    while p < n
        invariant
            0 <= p <= n,
            table@.len() == p,
            forall|q: int| 0 <= q < p ==> #[trigger] table@[q] == (HighlightStyle::Plain, 0u8),
        decreases n - p,
    {
        table.push((HighlightStyle::Plain, 0u8));
        p += 1;
    }
    proof {
        assert(g.take(0) =~= Seq::<GSpan>::empty());
        assert forall|q: int| 0 <= q < n implies entry_matches(
            #[trigger] table@[q],
            g.take(0),
            q,
        ) by {
            assert(style_at(g.take(0), q) == (HighlightStyle::Plain, 0int));
        }
        assert(table_matches(table@, g.take(0), 0, n as int));
    }
    let mut k: usize = 0;
    while k < spans.len()
        invariant
            n == text@.len(),
            g == gspans(spans@),
            table@.len() == n,
            0 <= k <= spans@.len(),
            table_matches(table@, g.take(k as int), 0, n as int),
        decreases spans@.len() - k,
    {
        let s = spans[k];
        let ghost gk = g.take(k as int);
        let ghost gk1 = gk.push(s@);
        let lo = if s.start < n {
            s.start
        } else {
            n
        };
        let hi0 = if s.end < n {
            s.end
        } else {
            n
        };
        let hi = if hi0 < lo {
            lo
        } else {
            hi0
        };
        proof {
            assert(gk1.drop_last() =~= gk);
            assert(gk1.last() == s@);
        }
        let mut q: usize = lo;
        while q < hi
            invariant
                n == text@.len(),
                table@.len() == n,
                lo <= q <= hi <= n,
                s@.start == s.start as int && s@.end == s.end as int && s@.priority
                    == s.priority as int && s@.style == s.style,
                lo == if s.start < n { s.start as int } else { n as int },
                hi0 == if s.end < n { s.end as int } else { n as int },
                hi == if hi0 < lo { lo as int } else { hi0 as int },
                gk1 == gk.push(s@),
                table_matches(table@, gk, 0, lo as int),
                table_matches(table@, gk, q as int, n as int),
                table_matches(table@, gk1, lo as int, q as int),
            decreases hi - q,
        {
            let ghost oldt = table@;
            let cur = table[q];
            proof {
                assert(entry_matches(oldt[q as int], gk, q as int));
                assert(s@.start <= q < s@.end) by {
                    assert(lo < n);
                    assert(lo == s.start as int);
                    assert(hi > lo);
                    assert(hi == hi0);
                    assert(hi <= s.end as int);
                }
            }
            if s.priority >= cur.1 {
                table.set(q, (s.style, s.priority));
            }
            proof {
                assert(gk1 =~= gk.push(s@));
                lemma_style_at_push(gk, s@, q as int);
                assert(entry_matches(table@[q as int], gk1, q as int));
                assert forall|t: int|
                    0 <= t < n && t != q implies #[trigger] table@[t] == oldt[t] by {}
                assert(table_matches(table@, gk, 0, lo as int));
                assert(table_matches(table@, gk, q + 1, n as int));
                assert(table_matches(table@, gk1, lo as int, q + 1));
            }
            q += 1;
        }
        proof {
            assert(g.take(k + 1) =~= gk1) by {
                assert(g[k as int] == spans@[k as int]@);
            }
            assert forall|t: int| 0 <= t < n implies entry_matches(
                #[trigger] table@[t],
                gk1,
                t,
            ) by {
                if lo <= t < hi {
                    assert(entry_matches(table@[t], gk1, t));
                } else {
                    assert(entry_matches(table@[t], gk, t));
                    assert(!(s@.start <= t < s@.end)) by {
                        if t < lo {
                            assert(s.start as int >= lo || lo == n);
                        } else {
                            assert(t >= hi);
                            if hi0 < lo {
                                assert(hi == lo);
                                if s.end as int >= lo {
                                    assert(hi0 == n || hi0 == s.end as int);
                                    assert(false);
                                }
                            } else {
                                assert(hi == hi0);
                                assert(t >= s.end as int || t >= n);
                            }
                        }
                    }
                    lemma_style_at_push(gk, s@, t);
                    assert(gk1 =~= gk.push(s@));
                    assert(style_at(gk1, t) == style_at(gk, t));
                }
            }
            assert(table_matches(table@, g.take(k + 1), 0, n as int));
        }
        k += 1;
    }
    proof {
        assert(g.take(spans@.len() as int) =~= g);
    }

    // Coalesce maximal runs of one category.
    let mut r: Vec<(String, HighlightStyle)> = Vec::new();
    let mut pos: usize = 0;
    while pos < n
        invariant
            n == text@.len(),
            g == gspans(spans@),
            table@.len() == n,
            table_matches(table@, g, 0, n as int),
            0 <= pos <= n,
            runs_text(r@) == text@.subrange(0, pos as int),
            runs_expand(r@) == styles_of(g, pos as int),
            pos < n && r@.len() > 0 ==> r@.last().1 != style_at(g, pos as int).0,
            forall|t: int|
                #![trigger r@[t]]
                0 <= t < r@.len() - 1 ==> r@[t].1 != r@[t + 1].1,
            forall|t: int|
                #![trigger r@[t]]
                0 <= t < r@.len() ==> r@[t].0@.len() > 0,
        decreases n - pos,
    {
        let cur = table[pos].0;
        proof {
            assert(entry_matches(table@[pos as int], g, pos as int));
        }
        let mut stop: usize = pos + 1;
        loop
            invariant_except_break
                n == text@.len(),
                table@.len() == n,
                table_matches(table@, g, 0, n as int),
                pos < stop <= n,
                forall|t: int|
                    pos <= t < stop ==> #[trigger] table@[t].0 == cur,
            ensures
                pos < stop <= n,
                forall|t: int|
                    pos <= t < stop ==> #[trigger] table@[t].0 == cur,
                stop < n ==> table@[stop as int].0 != cur,
            decreases n - stop,
        {
            if stop >= n {
                break;
            }
            let nxt = table[stop].0;
            if !(nxt == cur) {
                break;
            }
            stop += 1;
        }
        let piece = text.substring_char(pos, stop);
        let ghost prev = r@;
        r.push((piece.to_owned(), cur));
        proof {
            assert(r@.drop_last() =~= prev);
            assert(r@.last().0@ == text@.subrange(pos as int, stop as int));
            assert(runs_text(r@) == runs_text(prev) + text@.subrange(pos as int, stop as int));
            assert(runs_text(r@) =~= text@.subrange(0, stop as int));
            assert(runs_expand(r@) == runs_expand(prev) + Seq::new(
                r@.last().0@.len(),
                |x: int| r@.last().1,
            ));
            assert forall|t: int| pos <= t < stop implies style_at(g, t).0 == cur by {
                assert(entry_matches(table@[t], g, t));
            }
            assert(runs_expand(r@) =~= styles_of(g, stop as int));
            if stop < n {
                assert(entry_matches(table@[stop as int], g, stop as int));
                assert(r@.last().1 != style_at(g, stop as int).0);
            }
        }
        pos = stop;
    }
    assert(text@.subrange(0, n as int) =~= text@);
    r
}


/// The fixed heuristic rule table: seven patterns, each with its category.
/// Built once per call site from these constants and never mutated.
pub open spec fn spec_rules() -> Seq<(Seq<char>, HighlightStyle)> {
    seq![
        ("(?i)\\b(error|err|fatal|fail(ed)?|panic)\\b"@, HighlightStyle::Error),
        ("(?i)\\b(warn(ing)?)\\b"@, HighlightStyle::Warning),
        ("(?i)\\b(info)\\b"@, HighlightStyle::Info),
        ("(?i)\\b(debug|trace)\\b"@, HighlightStyle::Debug),
        ("\\[[^\\]]+\\]"@, HighlightStyle::Bracket),
        ("\\d{4}-\\d{2}-\\d{2}[T ]\\d{2}:\\d{2}:\\d{2}"@, HighlightStyle::Timestamp),
        ("\\d{2}:\\d{2}:\\d{2}"@, HighlightStyle::Timestamp),
    ]
}

/// The rule table as executable values; entry for entry `spec_rules`.
pub fn heuristic_rules() -> (r: Vec<(&'static str, HighlightStyle)>)
    ensures
        r@.len() == spec_rules().len(),
        forall|k: int|
            #![trigger r@[k]]
            0 <= k < r@.len() ==> r@[k].0@ == spec_rules()[k].0 && r@[k].1 == spec_rules()[k].1,
{
    let mut r: Vec<(&'static str, HighlightStyle)> = Vec::new();
    r.push(("(?i)\\b(error|err|fatal|fail(ed)?|panic)\\b", HighlightStyle::Error));
    r.push(("(?i)\\b(warn(ing)?)\\b", HighlightStyle::Warning));
    r.push(("(?i)\\b(info)\\b", HighlightStyle::Info));
    r.push(("(?i)\\b(debug|trace)\\b", HighlightStyle::Debug));
    r.push(("\\[[^\\]]+\\]", HighlightStyle::Bracket));
    r.push(("\\d{4}-\\d{2}-\\d{2}[T ]\\d{2}:\\d{2}:\\d{2}", HighlightStyle::Timestamp));
    r.push(("\\d{2}:\\d{2}:\\d{2}", HighlightStyle::Timestamp));
    r
}

/// Ranges turned into spans of one category and priority.
pub open spec fn ranges_to_gspans(
    rs: Seq<(usize, usize)>,
    style: HighlightStyle,
    priority: int,
) -> Seq<GSpan> {
    rs.map_values(
        |rg: (usize, usize)| GSpan { start: rg.0 as int, end: rg.1 as int, style, priority },
    )
}

/// The spans of the first `k` heuristic rules over the line: every match
/// of every rule, at the heuristic priority.
pub open spec fn rule_spans_upto(text: Seq<char>, k: int) -> Seq<GSpan>
    decreases k,
{
    if k <= 0 || k > spec_rules().len() {
        Seq::empty()
    } else {
        rule_spans_upto(text, k - 1) + ranges_to_gspans(
            rx::regex_ranges(spec_rules()[k - 1].0, text),
            spec_rules()[k - 1].1,
            10,
        )
    }
}

/// All heuristic spans of the line.
pub open spec fn heuristic_spans(text: Seq<char>) -> Seq<GSpan> {
    rule_spans_upto(text, spec_rules().len() as int)
}

/// Append one span per range, all with one category and priority.
fn push_ranges(
    spans: &mut Vec<Span>,
    rs: &Vec<(usize, usize)>,
    style: HighlightStyle,
    priority: u8,
)
    ensures
        gspans(final(spans)@) == gspans(old(spans)@) + ranges_to_gspans(
            rs@,
            style,
            priority as int,
        ),
{
    let mut t: usize = 0;
    while t < rs.len()
        invariant
            0 <= t <= rs@.len(),
            gspans(spans@) == gspans(old(spans)@) + ranges_to_gspans(
                rs@.take(t as int),
                style,
                priority as int,
            ),
        decreases rs@.len() - t,
    {
        let rg = rs[t];
        let ghost prevv = spans@;
        spans.push(Span { start: rg.0, end: rg.1, style, priority });
        proof {
            let sp = spans@.last();
            assert(gspans(spans@) =~= gspans(prevv).push(sp@));
            assert(rs@.take(t + 1) =~= rs@.take(t as int).push(rg));
            assert(ranges_to_gspans(rs@.take(t + 1), style, priority as int) =~= ranges_to_gspans(
                rs@.take(t as int),
                style,
                priority as int,
            ).push(sp@));
            assert(gspans(spans@) =~= gspans(old(spans)@) + ranges_to_gspans(
                rs@.take(t + 1),
                style,
                priority as int,
            ));
        }
        t += 1;
    }
    assert(rs@.take(rs@.len() as int) =~= rs@);
}

/// Run every heuristic rule over the line and append all its matches.
fn collect_heuristic_spans(text: &str, spans: &mut Vec<Span>)
    ensures
        gspans(final(spans)@) == gspans(old(spans)@) + heuristic_spans(text@),
{
    let rules = heuristic_rules();
    let mut k: usize = 0;
    while k < rules.len()
        invariant
            rules@.len() == spec_rules().len(),
            forall|j: int|
                #![trigger rules@[j]]
                0 <= j < rules@.len() ==> rules@[j].0@ == spec_rules()[j].0 && rules@[j].1
                    == spec_rules()[j].1,
            0 <= k <= rules@.len(),
            gspans(spans@) == gspans(old(spans)@) + rule_spans_upto(text@, k as int),
        decreases rules@.len() - k,
    {
        let rule = rules[k];
        let rs = rx::regex_find_ranges(rule.0, text);
        let ghost pre = gspans(spans@);
        push_ranges(spans, &rs, rule.1, 10u8);
        proof {
            assert(rule_spans_upto(text@, k + 1) == rule_spans_upto(text@, k as int)
                + ranges_to_gspans(
                rx::regex_ranges(spec_rules()[k as int].0, text@),
                spec_rules()[k as int].1,
                10,
            ));
            assert(gspans(spans@) =~= gspans(old(spans)@) + rule_spans_upto(text@, k + 1));
        }
        k += 1;
    }
}

/// The order the engine is handed spans in: ascending start, and at one
/// start the higher priority first; insertion keeps equals stable.
pub open spec fn span_le(a: GSpan, b: GSpan) -> bool {
    a.start < b.start || (a.start == b.start && a.priority >= b.priority)
}

pub open spec fn spec_insert(s: Seq<GSpan>, x: GSpan) -> Seq<GSpan>
    decreases s.len(),
{
    if s.len() == 0 {
        seq![x]
    } else if span_le(s[0], x) {
        seq![s[0]] + spec_insert(s.drop_first(), x)
    } else {
        seq![x] + s
    }
}

/// Stable insertion sort by `span_le`.
pub open spec fn spec_sort(s: Seq<GSpan>) -> Seq<GSpan>
    decreases s.len(),
{
    if s.len() == 0 {
        Seq::empty()
    } else {
        spec_insert(spec_sort(s.drop_last()), s.last())
    }
}

/// Inserting after every leading element that is `span_le` the new one
/// splits the sequence exactly at that point.
proof fn lemma_spec_insert_split(s: Seq<GSpan>, x: GSpan, idx: int)
    requires
        0 <= idx <= s.len(),
        forall|t: int| 0 <= t < idx ==> span_le(#[trigger] s[t], x),
        idx < s.len() ==> !span_le(s[idx], x),
    ensures
        spec_insert(s, x) == s.subrange(0, idx) + seq![x] + s.subrange(idx, s.len() as int),
    decreases s.len(),
{
    if s.len() == 0 {
        assert(spec_insert(s, x) =~= s.subrange(0, idx) + seq![x] + s.subrange(
            idx,
            s.len() as int,
        ));
    } else if idx == 0 {
        assert(!span_le(s[0], x));
        assert(spec_insert(s, x) =~= s.subrange(0, idx) + seq![x] + s.subrange(
            idx,
            s.len() as int,
        ));
    } else {
        assert(span_le(s[0], x));
        lemma_spec_insert_split(s.drop_first(), x, idx - 1);
        assert(spec_insert(s, x) =~= s.subrange(0, idx) + seq![x] + s.subrange(
            idx,
            s.len() as int,
        )) by {
            assert(spec_insert(s, x) == seq![s[0]] + spec_insert(s.drop_first(), x));
            assert(s.drop_first().subrange(0, idx - 1) =~= s.subrange(1, idx));
            assert(s.drop_first().subrange(idx - 1, s.drop_first().len() as int) =~= s.subrange(
                idx,
                s.len() as int,
            ));
        }
    }
}

/// Sort spans by ascending start and, at one start, by descending
/// priority; spans that compare equal keep their order.
pub fn sort_spans(spans: Vec<Span>) -> (r: Vec<Span>)
    ensures
        gspans(r@) == spec_sort(gspans(spans@)),
{
    let ghost g = gspans(spans@);
    let mut out: Vec<Span> = Vec::new();
    let mut k: usize = 0;
    while k < spans.len()
        invariant
            g == gspans(spans@),
            0 <= k <= spans@.len(),
            out@.len() == k,
            gspans(out@) == spec_sort(g.take(k as int)),
        decreases spans@.len() - k,
    {
        let x = spans[k];
        let mut idx: usize = 0;
        loop
            invariant_except_break
                0 <= idx <= out@.len(),
                forall|t: int| 0 <= t < idx ==> span_le(#[trigger] gspans(out@)[t], x@),
            ensures
                0 <= idx <= out@.len(),
                forall|t: int| 0 <= t < idx ==> span_le(#[trigger] gspans(out@)[t], x@),
                idx < out@.len() ==> !span_le(gspans(out@)[idx as int], x@),
            decreases out@.len() - idx,
        {
            if idx >= out.len() {
                break;
            }
            let o = out[idx];
            if !(o.start < x.start || (o.start == x.start && o.priority >= x.priority)) {
                assert(!span_le(gspans(out@)[idx as int], x@));
                break;
            }
            assert(span_le(gspans(out@)[idx as int], x@));
            idx += 1;
        }
        let ghost pre = gspans(out@);
        out.insert(idx, x);
        proof {
            lemma_spec_insert_split(pre, x@, idx as int);
            assert(gspans(out@) =~= pre.subrange(0, idx as int) + seq![x@] + pre.subrange(
                idx as int,
                pre.len() as int,
            ));
            assert(g.take(k + 1).drop_last() =~= g.take(k as int));
            assert(g.take(k + 1).last() == x@);
            assert(gspans(out@) == spec_sort(g.take(k + 1)));
        }
        k += 1;
    }
    proof {
        assert(g.take(spans@.len() as int) =~= g);
    }
    out
}

/// The filter's contribution: every responsible range, at the custom
/// highlight priority.
pub open spec fn filter_spans(e: SpecExpr, line: Seq<char>) -> Seq<GSpan> {
    ranges_to_gspans(crate::filter::spec_ranges(e, line), HighlightStyle::CustomHighlight, 100)
}

pub open spec fn view_of_filter(f: Option<&FilterExpr>) -> Option<SpecExpr> {
    match f {
        Option::Some(e) => Option::Some(e@),
        Option::None => Option::None,
    }
}

/// What the three sources hand the engine, in supply order: filter
/// highlights, then structural spans, then heuristic spans.
pub open spec fn source_spans(
    filt: Option<SpecExpr>,
    jspans: Seq<GSpan>,
    heur: bool,
    text: Seq<char>,
) -> Seq<GSpan> {
    (match filt {
        Option::Some(e) => filter_spans(e, text),
        Option::None => Seq::empty(),
    }) + jspans + (if heur {
        heuristic_spans(text)
    } else {
        Seq::empty()
    })
}

/// What `highlight_line` returns, given the structural spans the JSON
/// detector contributed: the three sources' spans in supply order, sorted.
/// The structure detector's contribution to a line: its spans when JSON
/// highlighting is on and the scan finds a value, nothing otherwise.
pub open spec fn json_contrib(json_enabled: bool, text: Seq<char>) -> Seq<GSpan> {
    if json_enabled && crate::json::spec_scan(text, 0).len() > 0 {
        crate::json::json_line_spans(text)
    } else {
        Seq::empty()
    }
}

/// What `highlight_line` returns: the three sources' spans in supply order
/// — filter highlights, structural spans, heuristic matches — sorted.
pub open spec fn spec_highlight_line(
    text: Seq<char>,
    filt: Option<SpecExpr>,
    heur: bool,
    json: bool,
) -> Seq<GSpan> {
    spec_sort(source_spans(filt, json_contrib(json, text), heur, text))
}

/// Collect the spans of all three sources over one line — the filter's
/// responsible ranges, the embedded-structure spans, and the heuristic
/// matches — sorted for the engine.
pub fn highlight_line(
    text: &str,
    custom_filter: Option<&FilterExpr>,
    heuristic_enabled: bool,
    json_enabled: bool,
) -> (r: Vec<Span>)
    ensures
        gspans(r@) == spec_highlight_line(
            text@,
            view_of_filter(custom_filter),
            heuristic_enabled,
            json_enabled,
        ),
{
    let mut spans: Vec<Span> = Vec::new();
    match custom_filter {
        Option::Some(f) => {
            let rs = f.find_all_matches(text);
            push_ranges(&mut spans, &rs, HighlightStyle::CustomHighlight, 100u8);
        },
        Option::None => {},
    }
    let ghost fpart = gspans(spans@);
    let ghost jpart = json_contrib(json_enabled, text@);
    if json_enabled {
        match crate::json::highlight_json(text) {
            Option::Some(mut js) => {
                assert(gspans(js@) == jpart);
                spans.append(&mut js);
                assert(gspans(spans@) =~= fpart + jpart);
            },
            Option::None => {
                assert(jpart =~= Seq::<GSpan>::empty());
            },
        }
    }
    assert(gspans(spans@) =~= fpart + jpart);
    if heuristic_enabled {
        collect_heuristic_spans(text, &mut spans);
    }
    proof {
        assert(gspans(spans@) =~= (fpart + jpart) + (if heuristic_enabled {
            heuristic_spans(text@)
        } else {
            Seq::<GSpan>::empty()
        }));
        assert(fpart == match view_of_filter(custom_filter) {
            Option::Some(e) => filter_spans(e, text@),
            Option::None => Seq::<GSpan>::empty(),
        });
        assert(gspans(spans@) == source_spans(
            view_of_filter(custom_filter),
            jpart,
            heuristic_enabled,
            text@,
        ));
    }
    let r = sort_spans(spans);
    r
}

} // verus!
