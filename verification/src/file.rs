//! The history file: its TOML layouts and how they map to the history model.
pub mod toml;
pub mod toml_old;
