//! The people one exchanges files with.

pub mod model;
pub mod store;
