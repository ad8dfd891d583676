//! The commands that the task runners define, and the history of executed commands.
pub mod command;
pub mod file_util;
pub mod histories;
pub mod js_package_manager;
pub mod just;
pub mod make;
pub mod pnpm;
pub mod runner;
pub mod runner_type;
pub mod target;
pub mod task;
