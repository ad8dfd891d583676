//! Command discovery, history and selection logic of fzf-make: a command line tool that lists the
//! commands of make, pnpm, npm, yarn, just and task and executes the one picked with a fuzzy
//! finder.
pub mod file;
pub mod fuzzy_finder;
pub mod misc;
pub mod model;
pub mod models;
pub mod parser;
pub mod text;
pub mod usecase;
pub mod usecases;
