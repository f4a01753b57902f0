//! The lint report and its renderings.

pub mod markdown;
pub mod model;
pub mod summary;
pub mod suppressions;
pub mod text;
