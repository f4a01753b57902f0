//! Rules on exports.

pub mod no_barrel_chain;
pub mod sort_exports;
pub mod no_default_export;
pub mod max_file_exports;
pub mod no_logic_in_barrel;
pub mod no_barrel_files;
