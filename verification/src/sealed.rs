//! Keeps the extension trait of requests from being implemented elsewhere.

use vstd::prelude::*;

verus! {

/// A type that has the extension trait.
pub trait Sealed {

}

} // verus!
