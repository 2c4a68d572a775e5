//! The frame codec of the tunnel, under its laboratory name.

use vstd::prelude::*;
use crate::htx::{frame, frame_payload};

verus! {

/// Puts the length of `payload` in front of it.
pub fn encode_frame(payload: &[u8]) -> (out: Vec<u8>)
    requires
        payload@.len() <= 65535,
    ensures
        out@ == frame(payload@),
{
    crate::htx::encode_frame(payload)
}

/// Takes the first frame off `buf`, or `None` where it is not complete.
pub fn decode_frame(buf: &[u8]) -> (payload: Option<Vec<u8>>)
    ensures
        match payload {
            Some(p) => frame_payload(buf@) == Some(p@),
            None => frame_payload(buf@) is None,
        },
{
    crate::htx::decode_frame(buf)
}

} // verus!
