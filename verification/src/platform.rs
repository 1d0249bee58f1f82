//! The systems that the program runs on.

use vstd::prelude::*;

verus! {

/// A system that the program runs on.
#[derive(Clone, Copy, Debug, PartialEq, Eq, Structural)]
pub enum Platform {
    MacOs,
    Linux,
    Windows,
    Other,
}

} // verus!
