//! The interface that hands the targets to an external fuzzy finder.
pub mod fuzzy_finder;
