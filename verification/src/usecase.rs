//! What fzf-make does for each command line: the interactive selection, and the subcommands.
pub mod fzf_make;
pub mod tui;
pub mod usecase_main;
