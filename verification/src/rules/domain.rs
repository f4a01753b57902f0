//! Rules on how domains are laid out.

pub mod no_anemic_domain;
pub mod component_file_only_components;
pub mod no_logic_in_domain;
pub mod no_inline_types;
pub mod hook_no_jsx;
