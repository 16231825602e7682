//! The stored log lines, the indices of those that pass the filter, and
//! the bottom-anchored scroll position.
use vstd::prelude::*;

verus! {

/// Saturating subtraction on mathematical integers.
pub open spec fn sat_sub(a: int, b: int) -> int {
    if a >= b {
        a - b
    } else {
        0
    }
}

#[derive(Clone)]
pub struct LogLine {
    pub timestamp: String,
    pub content: String,
}

pub struct LogState {
    pub lines: Vec<LogLine>,
    pub filtered_indices: Vec<usize>,
    pub bottom_line_idx: usize,
    pub follow_tail: bool,
}

impl Default for LogState {
    /// Empty, following the tail.
    fn default() -> (r: Self)
        ensures
            r.lines@.len() == 0,
            r.filtered_indices@.len() == 0,
            r.bottom_line_idx == 0,
            r.follow_tail == true,
    {
        LogState {
            lines: Vec::new(),
            filtered_indices: Vec::new(),
            bottom_line_idx: 0,
            follow_tail: true,
        }
    }
}

impl LogState {
    /// Append one line, stamped by the caller, and return its index.
    /// The filtered indices are the caller's to maintain.
    pub fn add_line(&mut self, content: String, timestamp: String) -> (idx: usize)
        ensures
            idx == old(self).lines@.len(),
            final(self).lines@ == old(self).lines@.push(LogLine { timestamp, content }),
            final(self).filtered_indices == old(self).filtered_indices,
            final(self).bottom_line_idx == old(self).bottom_line_idx,
            final(self).follow_tail == old(self).follow_tail,
    {
        let line = LogLine { timestamp, content };
        let idx = self.lines.len();
        self.lines.push(line);
        idx
    }

    /// Drop every line and reset the scroll anchor; whether the view
    /// follows the tail is untouched.
    pub fn clear(&mut self)
        ensures
            final(self).lines@.len() == 0,
            final(self).filtered_indices@.len() == 0,
            final(self).bottom_line_idx == 0,
            final(self).follow_tail == old(self).follow_tail,
    {
        self.lines.clear();
        self.filtered_indices.clear();
        self.bottom_line_idx = 0;
    }

    /// Move the bottom anchor up; leaving the tail first anchors at the
    /// last visible line.
    pub fn scroll_up(&mut self, amount: usize)
        ensures
            final(self).follow_tail == false,
            final(self).bottom_line_idx as int == sat_sub(
                if old(self).follow_tail {
                    sat_sub(old(self).filtered_indices@.len() as int, 1)
                } else {
                    old(self).bottom_line_idx as int
                },
                amount as int,
            ),
            final(self).lines == old(self).lines,
            final(self).filtered_indices == old(self).filtered_indices,
    {
        if self.follow_tail {
            let len = self.filtered_indices.len();
            self.bottom_line_idx = if len >= 1 {
                len - 1
            } else {
                0
            };
        }
        let b = self.bottom_line_idx;
        self.bottom_line_idx = if b >= amount {
            b - amount
        } else {
            0
        };
        self.follow_tail = false;
    }

    /// Move the bottom anchor down, clamped to the last visible line;
    /// reaching it re-engages following. Already following, nothing moves.
    pub fn scroll_down(&mut self, amount: usize)
        ensures
            old(self).follow_tail ==> *final(self) == *old(self),
            !old(self).follow_tail ==> {
                let max_idx = sat_sub(old(self).filtered_indices@.len() as int, 1);
                let target = if old(self).bottom_line_idx + amount <= max_idx {
                    old(self).bottom_line_idx + amount
                } else {
                    max_idx
                };
                &&& final(self).bottom_line_idx as int == target
                &&& final(self).follow_tail == (target >= max_idx)
                &&& final(self).lines == old(self).lines
                &&& final(self).filtered_indices == old(self).filtered_indices
            },
    {
        if self.follow_tail {
            return ;
        }
        let len = self.filtered_indices.len();
        let max_idx = if len >= 1 {
            len - 1
        } else {
            0
        };
        let b = self.bottom_line_idx;
        self.bottom_line_idx = if amount <= max_idx && b <= max_idx - amount {
            b + amount
        } else {
            max_idx
        };
        if self.bottom_line_idx >= max_idx {
            self.follow_tail = true;
        }
    }

    /// Anchor at the first line and stop following.
    pub fn scroll_to_start(&mut self)
        ensures
            final(self).bottom_line_idx == 0,
            final(self).follow_tail == false,
            final(self).lines == old(self).lines,
            final(self).filtered_indices == old(self).filtered_indices,
    {
        self.bottom_line_idx = 0;
        self.follow_tail = false;
    }

    /// Anchor at the last visible line and follow the tail again.
    pub fn scroll_to_end(&mut self)
        ensures
            final(self).follow_tail == true,
            final(self).bottom_line_idx as int == sat_sub(
                old(self).filtered_indices@.len() as int,
                1,
            ),
            final(self).lines == old(self).lines,
            final(self).filtered_indices == old(self).filtered_indices,
    {
        self.follow_tail = true;
        let len = self.filtered_indices.len();
        self.bottom_line_idx = if len >= 1 {
            len - 1
        } else {
            0
        };
    }

    /// The index of the bottom visible line: the last one when following
    /// the tail, else the anchor clamped into range.
    pub fn get_bottom_line_idx(&self) -> (r: usize)
        ensures
            r as int == if self.follow_tail {
                sat_sub(self.filtered_indices@.len() as int, 1)
            } else if self.bottom_line_idx as int <= sat_sub(
                self.filtered_indices@.len() as int,
                1,
            ) {
                self.bottom_line_idx as int
            } else {
                sat_sub(self.filtered_indices@.len() as int, 1)
            },
    {
        let len = self.filtered_indices.len();
        let last = if len >= 1 {
            len - 1
        } else {
            0
        };
        if self.follow_tail {
            last
        } else if self.bottom_line_idx <= last {
            self.bottom_line_idx
        } else {
            last
        }
    }
}

} // verus!
