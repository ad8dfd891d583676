//! How the make-only interface starts.
use vstd::prelude::*;

verus! {

/// Whether the history pane has the focus when the interface starts.
pub struct Config {
    forcus_history: bool,
}

impl Config {
    pub closed spec fn focuses_history(&self) -> bool {
        self.forcus_history
    }

    pub fn new(forcus_history: bool) -> (r: Self)
        ensures
            r.focuses_history() == forcus_history,
    {
        Self { forcus_history }
    }

    /// The main pane has the focus.
    pub fn default() -> (r: Self)
        ensures
            !r.focuses_history(),
    {
        Self { forcus_history: false }
    }

    pub fn get_forcus_history(&self) -> (r: bool)
        ensures
            r == self.focuses_history(),
    {
        self.forcus_history
    }
}

} // verus!
