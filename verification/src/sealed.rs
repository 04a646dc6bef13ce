//! Keeps the kinds of entropy to the two that this crate defines.

use vstd::prelude::*;

verus! {

/// Implemented only for the entropy arrays of this crate.
pub trait Sealed {
}

impl Sealed for [u8; 32] {
}

impl Sealed for [u8; 48] {
}

} // verus!
