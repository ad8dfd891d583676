//! The plain ratatui interface for make targets.
pub mod app;
