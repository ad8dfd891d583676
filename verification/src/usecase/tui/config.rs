//! How the interface starts.
use vstd::prelude::*;

verus! {

/// Whether the history pane has the focus when the interface starts.
pub struct Config {
    focus_history: bool,
}

impl Config {
    pub closed spec fn focus_history(&self) -> bool {
        self.focus_history
    }

    pub fn new(focus_history: bool) -> (r: Self)
        ensures
            r.focus_history() == focus_history,
    {
        Self { focus_history }
    }

    /// The main pane has the focus.
    pub fn default() -> (r: Self)
        ensures
            !r.focus_history(),
    {
        Self { focus_history: false }
    }

    pub fn get_focus_history(&self) -> (r: bool)
        ensures
            r == self.focus_history(),
    {
        self.focus_history
    }
}

} // verus!
