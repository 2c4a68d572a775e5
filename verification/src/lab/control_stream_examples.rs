//! Sample messages of the control stream.

use vstd::prelude::*;

verus! {

/// A sample control message of three bytes.
pub fn generate_example_control_stream() -> (blob: Vec<u8>)
    ensures
        blob@ == seq![0x01u8, 0x02u8, 0x03u8],
{
    let mut blob: Vec<u8> = Vec::new();
    blob.push(0x01);
    blob.push(0x02);
    blob.push(0x03);
    assert(blob@ =~= seq![0x01u8, 0x02u8, 0x03u8]);
    blob
}

/// Checks a control message. The laboratory accepts every message.
pub fn parse_and_validate(_b: &[u8]) -> (r: Result<(), String>)
    ensures
        r is Ok,
{
    Ok(())
}

} // verus!
