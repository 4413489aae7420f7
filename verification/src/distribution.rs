//! Package names, compatibility tags, build tags and wheel file names:
//! the grammars of PEP 425 and PEP 427, and of name normalization.

use vstd::prelude::*;

pub mod build_tag;
pub mod name;
pub mod tag;
pub mod wheel;

pub use build_tag::BuildTag;
pub use name::normalize_package_name;
pub use tag::{split_python_tag, CompatibilityTag};
pub use wheel::WheelName;

verus! {

/// Why a name was refused.
#[derive(Debug, Clone, Copy, PartialEq, Eq, Structural)]
pub enum Error {
    /// The text is not the file name of a wheel.
    InvalidWheelName,
    /// The text is not a package name.
    InvalidPackageName,
}

} // verus!
