//! The usecases of the make-only interfaces: one built on an external fuzzy finder, one on
//! plain ratatui.
pub mod fzf_make_main;
pub mod fzf_make_ratatui;
pub mod fzf_make_ratatui_main;
