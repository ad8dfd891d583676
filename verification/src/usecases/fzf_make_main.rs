//! Selecting a make target with an external fuzzy finder.
use vstd::prelude::*;

verus! {

/// Selecting a make target and running it.
pub struct FzfMake;

impl FzfMake {
    pub fn new() -> Self {
        FzfMake
    }
}

} // verus!
