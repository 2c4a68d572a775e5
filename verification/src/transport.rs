//! What the outer transport is told when it dials.

use vstd::prelude::*;

verus! {

/// Where to dial.
pub struct DialOptions {
    pub host: String,
    pub port: u16,
}

} // verus!
