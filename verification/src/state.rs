//! The persisted configuration record: three query strings and the wrap
//! toggle. The core treats these purely as constructor inputs; reading and
//! writing them to disk is a collaborator's concern.
use vstd::prelude::*;

verus! {

pub struct AppState {
    pub hide_input: String,
    pub filter_input: String,
    pub highlight_input: String,
    pub wrap_lines: bool,
}

/// Line wrapping is on for a configuration that does not mention it.
pub fn default_wrap_lines() -> (r: bool)
    ensures
        r == true,
{
    true
}

impl Default for AppState {
    /// The state of a fresh install: empty queries, wrapping on.
    fn default() -> (r: Self)
        ensures
            r.hide_input@ == Seq::<char>::empty(),
            r.filter_input@ == Seq::<char>::empty(),
            r.highlight_input@ == Seq::<char>::empty(),
            r.wrap_lines == true,
    {
        AppState {
            hide_input: String::new(),
            filter_input: String::new(),
            highlight_input: String::new(),
            wrap_lines: default_wrap_lines(),
        }
    }
}

} // verus!
