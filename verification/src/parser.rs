//! Makefile parsing that collects target names and the makefiles that a makefile names in its
//! directives.
pub mod makefile;
pub mod target;

pub use crate::model::make::content_to_include_file_paths;
