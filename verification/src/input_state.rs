//! The edit fields of the four query inputs and which of them, if any, is
//! being edited.
use vstd::prelude::*;

use crate::state::AppState;

verus! {

/// One editable text field.
pub struct TextInput {
    pub text: String,
}

impl TextInput {
    pub fn new(text: String) -> (r: Self)
        ensures
            r.text == text,
    {
        TextInput { text }
    }
}

#[derive(Clone, Copy, PartialEq, Eq, Structural)]
pub enum InputMode {
    Normal,
    HideEdit,
    FilterEdit,
    HighlightEdit,
    LineStartEdit,
}

pub struct InputFields {
    pub hide: TextInput,
    pub filter: TextInput,
    pub highlight: TextInput,
    pub line_start: TextInput,
}

impl InputFields {
    /// The edit fields primed from the persisted state. The persisted
    /// record carries no line-start pattern, so that field starts empty.
    pub fn from_state(state: &AppState) -> (r: Self)
        ensures
            r.hide.text@ == state.hide_input@,
            r.filter.text@ == state.filter_input@,
            r.highlight.text@ == state.highlight_input@,
            r.line_start.text@ == Seq::<char>::empty(),
    {
        InputFields {
            hide: TextInput::new(state.hide_input.clone()),
            filter: TextInput::new(state.filter_input.clone()),
            highlight: TextInput::new(state.highlight_input.clone()),
            line_start: TextInput::new(String::new()),
        }
    }

    /// The field the given mode edits; no field in normal mode.
    pub fn get_active_mut(&mut self, mode: InputMode) -> (r: Option<&mut TextInput>)
        ensures
            (r is Some) == (mode != InputMode::Normal),
            match r {
                Option::Some(t) => *t == (match mode {
                    InputMode::HideEdit => old(self).hide,
                    InputMode::FilterEdit => old(self).filter,
                    InputMode::HighlightEdit => old(self).highlight,
                    InputMode::LineStartEdit => old(self).line_start,
                    InputMode::Normal => old(self).hide,
                }),
                Option::None => true,
            },
    {
        match mode {
            InputMode::HideEdit => Option::Some(&mut self.hide),
            InputMode::FilterEdit => Option::Some(&mut self.filter),
            InputMode::HighlightEdit => Option::Some(&mut self.highlight),
            InputMode::LineStartEdit => Option::Some(&mut self.line_start),
            InputMode::Normal => Option::None,
        }
    }
}

} // verus!
