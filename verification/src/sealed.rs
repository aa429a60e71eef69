//! Keeps traits that only this crate implements closed.

use vstd::prelude::*;

verus! {

/// Implemented by the types of this crate that a sealed trait is for.
pub trait Sealed {

}

} // verus!
