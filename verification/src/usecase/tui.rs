//! The terminal user interface: its state and how key input changes it.
pub mod app;
pub mod config;
pub mod ui;
