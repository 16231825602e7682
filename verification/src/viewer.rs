//! The viewer's state and its operations: stored lines, the active filter
//! and highlight expressions, scrolling, and the per-line render path.
//! Lines and their timestamps arrive as plain text from the collaborator
//! that owns the log source.
use vstd::prelude::*;

use crate::filter::{parse_filter, spec_eval, spec_parse, FilterExpr, SpecExpr};
use crate::highlight::{
    apply_highlights, gspans, highlight_line, runs_expand, runs_text, spec_highlight_line,
    styles_of, view_of_filter, HighlightStyle,
};
use crate::text::{is_blank, is_blank_seq};

verus! {

#[derive(Clone)]
pub struct LogLine {
    pub timestamp: String,
    pub content: String,
}

#[derive(Clone, Copy, PartialEq, Eq, Structural)]
pub enum InputMode {
    Normal,
    FilterEdit,
    HighlightEdit,
}

pub struct App {
    pub lines: Vec<LogLine>,
    pub filtered_indices: Vec<usize>,
    pub scroll_offset: usize,
    pub filter_input: String,
    pub filter_expr: Option<FilterExpr>,
    pub filter_error: Option<String>,
    pub highlight_input: String,
    pub highlight_expr: Option<FilterExpr>,
    pub highlight_error: Option<String>,
    pub show_time: bool,
    pub heuristic_highlight: bool,
    pub json_highlight: bool,
    pub wrap_lines: bool,
    pub input_mode: InputMode,
    pub follow_tail: bool,
    pub status_message: Option<String>,
}

pub open spec fn opt_expr_view(f: &Option<FilterExpr>) -> Option<SpecExpr> {
    match f {
        Option::Some(e) => Option::Some(e@),
        Option::None => Option::None,
    }
}

/// Whether a line passes the active filter; no filter passes everything.
pub open spec fn passes(filt: Option<SpecExpr>, line: Seq<char>) -> bool {
    match filt {
        Option::Some(e) => spec_eval(e, line),
        Option::None => true,
    }
}

/// The indices below `n` of the lines that pass the filter, ascending.
pub open spec fn filtered_below(lines: Seq<LogLine>, filt: Option<SpecExpr>, n: int) -> Seq<int>
    decreases n,
{
    if n <= 0 {
        Seq::empty()
    } else {
        filtered_below(lines, filt, n - 1)
            + if passes(filt, lines[n - 1].content@) {
                seq![n - 1]
            } else {
                Seq::empty()
            }
    }
}

/// Saturating subtraction on mathematical integers.
pub open spec fn sat_sub(a: int, b: int) -> int {
    if a >= b {
        a - b
    } else {
        0
    }
}

impl App {
    /// Every filtered index points at a stored line.
    pub open spec fn wf(&self) -> bool {
        forall|k: int|
            0 <= k < self.filtered_indices@.len() ==> (#[trigger] self.filtered_indices@[k])
                < self.lines@.len()
    }

    /// A fresh viewer: nothing stored, no filter or highlight, timestamps
    /// shown, heuristic and structural highlighting on, wrapping off,
    /// following the tail.
    pub fn new() -> (r: Self)
        ensures
            r.lines@.len() == 0,
            r.filtered_indices@.len() == 0,
            r.scroll_offset == 0,
            r.filter_input@ == Seq::<char>::empty(),
            r.filter_expr is None,
            r.filter_error is None,
            r.highlight_input@ == Seq::<char>::empty(),
            r.highlight_expr is None,
            r.highlight_error is None,
            r.show_time == true,
            r.heuristic_highlight == true,
            r.json_highlight == true,
            r.wrap_lines == false,
            r.input_mode == InputMode::Normal,
            r.follow_tail == true,
            r.status_message is None,
            r.wf(),
    {
        App {
            lines: Vec::new(),
            filtered_indices: Vec::new(),
            scroll_offset: 0,
            filter_input: String::new(),
            filter_expr: Option::None,
            filter_error: Option::None,
            highlight_input: String::new(),
            highlight_expr: Option::None,
            highlight_error: Option::None,
            show_time: true,
            heuristic_highlight: true,
            json_highlight: true,
            wrap_lines: false,
            input_mode: InputMode::Normal,
            follow_tail: true,
            status_message: Option::None,
        }
    }

    /// Whether the stored line at `idx` passes the active filter.
    pub fn matches_filter(&self, idx: usize) -> (r: bool)
        requires
            idx < self.lines@.len(),
        ensures
            r == passes(opt_expr_view(&self.filter_expr), self.lines@[idx as int].content@),
    {
        match &self.filter_expr {
            Option::Some(expr) => expr.matches(self.lines[idx].content.as_str()),
            Option::None => true,
        }
    }

    /// Store one line, stamped by the caller, and add its index to the
    /// filtered view exactly when it passes the active filter.
    pub fn add_line(&mut self, content: String, timestamp: String) -> (idx: usize)
        requires
            old(self).wf(),
        ensures
            idx == old(self).lines@.len(),
            final(self).lines@ == old(self).lines@.push(LogLine { timestamp, content }),
            final(self).filtered_indices@ == if passes(
                opt_expr_view(&old(self).filter_expr),
                content@,
            ) {
                old(self).filtered_indices@.push(idx)
            } else {
                old(self).filtered_indices@
            },
            final(self).filter_expr == old(self).filter_expr,
            final(self).scroll_offset == old(self).scroll_offset,
            final(self).follow_tail == old(self).follow_tail,
            final(self).status_message == old(self).status_message,
            final(self).wf(),
    {
        let idx = self.lines.len();
        self.lines.push(LogLine { timestamp, content });
        if self.matches_filter(idx) {
            self.filtered_indices.push(idx);
        }
        idx
    }

    /// Note a message for the status row (the source's error text, or a
    /// confirmation).
    pub fn set_status(&mut self, message: String)
        ensures
            *final(self) == (App { status_message: Option::Some(message), ..*old(self) }),
    {
        self.status_message = Option::Some(message);
    }

    /// Recompute the filtered view from every stored line against the
    /// active filter, and rewind the scroll.
    pub fn rebuild_filtered_indices(&mut self)
        ensures
            final(self).filtered_indices@.map_values(|u: usize| u as int) == filtered_below(
                old(self).lines@,
                opt_expr_view(&old(self).filter_expr),
                old(self).lines@.len() as int,
            ),
            *final(self) == (App {
                filtered_indices: final(self).filtered_indices,
                scroll_offset: 0,
                ..*old(self)
            }),
            final(self).wf(),
    {
        let ghost filt = opt_expr_view(&self.filter_expr);
        self.filtered_indices.clear();
        let n = self.lines.len();
        let mut i: usize = 0;
        while i < n
            invariant
                n == self.lines@.len(),
                0 <= i <= n,
                *self == (App {
                    filtered_indices: self.filtered_indices,
                    scroll_offset: old(self).scroll_offset,
                    ..*old(self)
                }),
                filt == opt_expr_view(&self.filter_expr),
                self.filtered_indices@.map_values(|u: usize| u as int) == filtered_below(
                    self.lines@,
                    filt,
                    i as int,
                ),
                forall|k: int|
                    0 <= k < self.filtered_indices@.len() ==> (
                    #[trigger] self.filtered_indices@[k]) < i,
            decreases n - i,
        {
            if self.matches_filter(i) {
                self.filtered_indices.push(i);
            }
            assert(self.filtered_indices@.map_values(|u: usize| u as int) =~= filtered_below(
                self.lines@,
                filt,
                i + 1,
            ));
            i += 1;
        }
        self.scroll_offset = 0;
    }

    /// Commit the filter edit box. A blank query clears the filter; a
    /// query that parses replaces it; a query that does not parse keeps
    /// the old filter and view untouched and only records the error
    /// message. In the first two cases the view is rebuilt and rewound.
    pub fn apply_filter(&mut self)
        ensures
            is_blank_seq(old(self).filter_input@) ==> {
                &&& final(self).filter_expr is None
                &&& final(self).filter_error is None
                &&& final(self).filtered_indices@.map_values(|u: usize| u as int)
                    == filtered_below(
                    old(self).lines@,
                    Option::None,
                    old(self).lines@.len() as int,
                )
                &&& *final(self) == (App {
                    filter_expr: Option::None,
                    filter_error: Option::None,
                    filtered_indices: final(self).filtered_indices,
                    scroll_offset: 0,
                    ..*old(self)
                })
            },
            !is_blank_seq(old(self).filter_input@) && spec_parse(old(self).filter_input@)
                is Some ==> {
                &&& final(self).filter_expr matches Option::Some(e) && e@ == spec_parse(
                    old(self).filter_input@,
                ).unwrap()
                &&& final(self).filter_error is None
                &&& final(self).filtered_indices@.map_values(|u: usize| u as int)
                    == filtered_below(
                    old(self).lines@,
                    Option::Some(spec_parse(old(self).filter_input@).unwrap()),
                    old(self).lines@.len() as int,
                )
                &&& *final(self) == (App {
                    filter_expr: final(self).filter_expr,
                    filter_error: Option::None,
                    filtered_indices: final(self).filtered_indices,
                    scroll_offset: 0,
                    ..*old(self)
                })
            },
            !is_blank_seq(old(self).filter_input@) && spec_parse(old(self).filter_input@)
                is None ==> {
                &&& final(self).filter_error is Some
                &&& *final(self) == (App {
                    filter_error: final(self).filter_error,
                    ..*old(self)
                })
            },
            old(self).wf() ==> final(self).wf(),
    {
        if is_blank(self.filter_input.as_str()) {
            self.filter_expr = Option::None;
            self.filter_error = Option::None;
        } else {
            match parse_filter(self.filter_input.as_str()) {
                Result::Ok(expr) => {
                    self.filter_expr = Option::Some(expr);
                    self.filter_error = Option::None;
                },
                Result::Err(e) => {
                    self.filter_error = Option::Some(e.message);
                    return ;
                },
            }
        }
        self.rebuild_filtered_indices();
    }

    /// Commit the highlight edit box. A blank query clears the highlight;
    /// a query that parses replaces it; a query that does not parse keeps
    /// the old highlight and only records the error message.
    pub fn apply_highlight(&mut self)
        ensures
            is_blank_seq(old(self).highlight_input@) ==> *final(self) == (App {
                highlight_expr: Option::None,
                highlight_error: Option::None,
                ..*old(self)
            }),
            !is_blank_seq(old(self).highlight_input@) && spec_parse(old(self).highlight_input@)
                is Some ==> {
                &&& final(self).highlight_expr matches Option::Some(e) && e@ == spec_parse(
                    old(self).highlight_input@,
                ).unwrap()
                &&& *final(self) == (App {
                    highlight_expr: final(self).highlight_expr,
                    highlight_error: Option::None,
                    ..*old(self)
                })
            },
            !is_blank_seq(old(self).highlight_input@) && spec_parse(old(self).highlight_input@)
                is None ==> {
                &&& final(self).highlight_error is Some
                &&& *final(self) == (App {
                    highlight_error: final(self).highlight_error,
                    ..*old(self)
                })
            },
    {
        if is_blank(self.highlight_input.as_str()) {
            self.highlight_expr = Option::None;
            self.highlight_error = Option::None;
        } else {
            match parse_filter(self.highlight_input.as_str()) {
                Result::Ok(expr) => {
                    self.highlight_expr = Option::Some(expr);
                    self.highlight_error = Option::None;
                },
                Result::Err(e) => {
                    self.highlight_error = Option::Some(e.message);
                },
            }
        }
    }

    /// Drop every stored line, rewind, and note that it happened.
    pub fn clear(&mut self)
        ensures
            final(self).lines@.len() == 0,
            final(self).filtered_indices@.len() == 0,
            final(self).scroll_offset == 0,
            final(self).status_message matches Option::Some(m) && m@ == "Cleared"@,
            *final(self) == (App {
                lines: final(self).lines,
                filtered_indices: final(self).filtered_indices,
                scroll_offset: 0,
                status_message: final(self).status_message,
                ..*old(self)
            }),
            final(self).wf(),
    {
        self.lines.clear();
        self.filtered_indices.clear();
        self.scroll_offset = 0;
        self.status_message = Option::Some("Cleared".to_owned());
    }

    /// Scroll up and stop following the tail.
    pub fn scroll_up(&mut self, amount: usize)
        ensures
            final(self).scroll_offset as int == sat_sub(
                old(self).scroll_offset as int,
                amount as int,
            ),
            *final(self) == (App {
                scroll_offset: final(self).scroll_offset,
                follow_tail: false,
                ..*old(self)
            }),
    {
        self.scroll_offset = if self.scroll_offset >= amount {
            self.scroll_offset - amount
        } else {
            0
        };
        self.follow_tail = false;
    }

    /// Scroll down, clamped so the window never runs past the end; at the
    /// end the view follows the tail again.
    pub fn scroll_down(&mut self, amount: usize, visible_height: usize)
        ensures
            ({
                let max_offset = sat_sub(
                    old(self).filtered_indices@.len() as int,
                    visible_height as int,
                );
                let target = if old(self).scroll_offset + amount <= max_offset {
                    old(self).scroll_offset + amount
                } else {
                    max_offset
                };
                &&& final(self).scroll_offset as int == target
                &&& final(self).follow_tail == (old(self).follow_tail || target >= max_offset)
                &&& *final(self) == (App {
                    scroll_offset: final(self).scroll_offset,
                    follow_tail: final(self).follow_tail,
                    ..*old(self)
                })
            }),
    {
        let len = self.filtered_indices.len();
        let max_offset = if len >= visible_height {
            len - visible_height
        } else {
            0
        };
        self.scroll_offset = if amount <= max_offset && self.scroll_offset <= max_offset
            - amount {
            self.scroll_offset + amount
        } else {
            max_offset
        };
        if self.scroll_offset >= max_offset {
            self.follow_tail = true;
        }
    }

    /// Jump to the end and follow the tail.
    pub fn scroll_to_end(&mut self, visible_height: usize)
        ensures
            final(self).scroll_offset as int == sat_sub(
                old(self).filtered_indices@.len() as int,
                visible_height as int,
            ),
            *final(self) == (App {
                scroll_offset: final(self).scroll_offset,
                follow_tail: true,
                ..*old(self)
            }),
    {
        let len = self.filtered_indices.len();
        self.scroll_offset = if len >= visible_height {
            len - visible_height
        } else {
            0
        };
        self.follow_tail = true;
    }

    /// Jump to the start and stop following the tail.
    pub fn scroll_to_start(&mut self)
        ensures
            *final(self) == (App { scroll_offset: 0, follow_tail: false, ..*old(self) }),
    {
        self.scroll_offset = 0;
        self.follow_tail = false;
    }

    /// The window of filtered lines on show: the last `height` of them
    /// when following the tail, else `height` of them from the scroll
    /// offset; each with its index into the stored lines.
    pub fn get_visible_lines(&self, height: usize) -> (r: Vec<(usize, LogLine)>)
        requires
            self.wf(),
        ensures
            ({
                let len = self.filtered_indices@.len() as int;
                let start = if self.follow_tail {
                    sat_sub(len, height as int)
                } else if self.scroll_offset as int <= len {
                    self.scroll_offset as int
                } else {
                    len
                };
                let count = if self.follow_tail {
                    len - start
                } else if len - start <= height {
                    len - start
                } else {
                    height as int
                };
                &&& r@.len() == count
                &&& forall|t: int|
                    #![trigger r@[t]]
                    0 <= t < count ==> r@[t].0 == self.filtered_indices@[start + t]
                        && r@[t].1.content@ == self.lines@[self.filtered_indices@[start
                        + t] as int].content@ && r@[t].1.timestamp@ == self.lines@[
                    self.filtered_indices@[start + t] as int].timestamp@
            }),
    {
        let len = self.filtered_indices.len();
        let start = if self.follow_tail {
            if len >= height {
                len - height
            } else {
                0
            }
        } else {
            if self.scroll_offset <= len {
                self.scroll_offset
            } else {
                len
            }
        };
        let stop = if self.follow_tail {
            len
        } else {
            if len - start <= height {
                len
            } else {
                start + height
            }
        };
        let mut r: Vec<(usize, LogLine)> = Vec::new();
        let mut k: usize = start;
        while k < stop
            invariant
                len == self.filtered_indices@.len(),
                self.wf(),
                start <= k <= stop <= len,
                r@.len() == k - start,
                forall|t: int|
                    #![trigger r@[t]]
                    0 <= t < k - start ==> r@[t].0 == self.filtered_indices@[start + t]
                        && r@[t].1.content@ == self.lines@[self.filtered_indices@[start
                        + t] as int].content@ && r@[t].1.timestamp@ == self.lines@[
                    self.filtered_indices@[start + t] as int].timestamp@,
            decreases stop - k,
        {
            let idx = self.filtered_indices[k];
            let line = &self.lines[idx];
            r.push(
                (
                    idx,
                    LogLine {
                        timestamp: line.timestamp.clone(),
                        content: line.content.clone(),
                    },
                ),
            );
            k += 1;
        }
        r
    }

    /// The styled runs of one line under the active highlight expression
    /// and toggles. The runs cover the line's text exactly — concatenated,
    /// they give the line back — and their categories are those that the
    /// three sources' spans, sorted and resolved by priority, assign to
    /// each character.
    pub fn render_line(&self, line: &LogLine) -> (r: Vec<(String, HighlightStyle)>)
        ensures
            runs_text(r@) == line.content@,
            ({
                let sp = spec_highlight_line(
                    line.content@,
                    opt_expr_view(&self.highlight_expr),
                    self.heuristic_highlight,
                    self.json_highlight,
                );
                &&& (sp.len() > 0 ==> runs_expand(r@) == styles_of(
                    sp,
                    line.content@.len() as int,
                ))
                &&& (sp.len() == 0 ==> r@.len() == 1 && r@[0].1 == HighlightStyle::Plain)
            }),
    {
        let expr = match &self.highlight_expr {
            Option::Some(e) => Option::Some(e),
            Option::None => Option::None,
        };
        proof {
            assert(view_of_filter(expr) == opt_expr_view(&self.highlight_expr));
        }
        let spans = highlight_line(
            line.content.as_str(),
            expr,
            self.heuristic_highlight,
            self.json_highlight,
        );
        let r = apply_highlights(line.content.as_str(), &spans);
        proof {
            assert(gspans(spans@).len() == spans@.len());
        }
        r
    }

    /// Flip whether timestamps are shown.
    pub fn toggle_time(&mut self)
        ensures
            *final(self) == (App { show_time: !old(self).show_time, ..*old(self) }),
    {
        self.show_time = !self.show_time;
    }

    /// Flip heuristic highlighting.
    pub fn toggle_heuristic(&mut self)
        ensures
            *final(self) == (App {
                heuristic_highlight: !old(self).heuristic_highlight,
                ..*old(self)
            }),
    {
        self.heuristic_highlight = !self.heuristic_highlight;
    }

    /// Flip line wrapping.
    pub fn toggle_wrap(&mut self)
        ensures
            *final(self) == (App { wrap_lines: !old(self).wrap_lines, ..*old(self) }),
    {
        self.wrap_lines = !self.wrap_lines;
    }
}

} // verus!
