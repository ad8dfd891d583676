//! The make-only interface with a fuzzy search box.
pub mod app;
pub mod config;
