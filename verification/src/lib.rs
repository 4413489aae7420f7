//! Identification, validation and ranking of the distributable artifacts of
//! a versioned Python package.

pub mod distribution;
pub mod number;
pub mod package_inspect;
pub mod picker;
pub mod text;
pub mod ui;
pub mod version;
pub mod warehouse;
