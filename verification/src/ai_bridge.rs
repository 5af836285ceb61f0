//! The AI bridge: for now only its version.

use vstd::prelude::*;

verus! {

/// The package version.
pub const VERSION: &'static str = "0.0.0";

} // verus!
