//! The filter-related state a viewer holds: the hide pattern and the two
//! active expressions. The hide pattern is kept as its text; compiling and
//! running it belongs to the collaborator that owns the hide feature.
use vstd::prelude::*;

use crate::filter::FilterExpr;

verus! {

pub struct FilterState {
    pub hide_pattern: Option<String>,
    pub filter_expr: Option<FilterExpr>,
    pub highlight_expr: Option<FilterExpr>,
}

impl Default for FilterState {
    /// No hide pattern, no filter, no highlight.
    fn default() -> (r: Self)
        ensures
            r.hide_pattern is None,
            r.filter_expr is None,
            r.highlight_expr is None,
    {
        FilterState { hide_pattern: Option::None, filter_expr: Option::None, highlight_expr: Option::None }
    }
}

} // verus!
