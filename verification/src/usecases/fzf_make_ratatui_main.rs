//! Selecting a make target with the plain ratatui interface.
use vstd::prelude::*;

verus! {

/// Selecting a make target in the ratatui interface.
pub struct FzfMakeRatatui;

impl FzfMakeRatatui {
    pub fn new() -> Self {
        FzfMakeRatatui
    }
}

} // verus!
