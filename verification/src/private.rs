//! What keeps the set of byte sources closed.

use vstd::prelude::*;

verus! {

/// Implemented by the byte sources of this crate, and by nothing else.
pub trait Sealed {

}

} // verus!
