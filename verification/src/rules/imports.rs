//! Rules on imports.

pub mod layer_boundaries;
pub mod no_private_package_import;
pub mod no_upward_import;
pub mod no_circular_import;
pub mod sort_imports;
pub mod no_restricted_imports;
pub mod no_test_code_in_production;
pub mod no_side_effect_imports;
