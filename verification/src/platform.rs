//! The operating systems the application distinguishes.

use vstd::prelude::*;

verus! {

/// The operating system the application runs on.
#[derive(Clone, Copy, Debug, PartialEq, Eq, Structural)]
pub enum Platform {
    Windows,
    MacOs,
    Linux,
    /// Anything else.
    Other,
}

} // verus!
