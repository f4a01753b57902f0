//! Rules on files and directories.

pub mod no_large_file;
pub mod directory_must_have_barrel;
pub mod max_directory_depth;
pub mod max_items_per_directory;
pub mod no_empty_directories;
