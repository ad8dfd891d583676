//! The makefile model of the make-only interfaces.
pub mod makefile;
