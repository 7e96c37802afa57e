//! The library's version.
use vstd::prelude::*;

verus! {

/// Version of this library.
pub const VERSION: &'static str = "0.1.0";

} // verus!
