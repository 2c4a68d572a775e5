//! A small laboratory around the tunnel: sample paths, sample control
//! messages and the frame codec under its laboratory name.

use vstd::prelude::*;

pub mod control_stream_examples;
pub mod mixnet_sim;
pub mod tunnel_mock;

verus! {

/// The name under which the laboratory greets.
pub fn hello_htx() -> (greeting: &'static str)
    ensures
        greeting@ == "htx-lab placeholder"@,
{
    "htx-lab placeholder"
}

} // verus!
