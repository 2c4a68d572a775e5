//! The tunnel's header and its length-prefixed frames.
//!
//! A connection opens with one eight-byte header. After it every message
//! travels as a frame: a length in two bytes, most significant first,
//! then that many bytes.

use vstd::prelude::*;
use crate::wire::{be16, read_be16};

verus! {

/// The eight bytes of a tunnel header: the magic `BOHT`, the version, the
/// flags, and the payload length in two bytes, most significant first.
pub open spec fn tunnel_header(version: u8, flags: u8, payload_len: u16) -> Seq<u8> {
    seq![0x42u8, 0x4fu8, 0x48u8, 0x54u8, version, flags] + be16(payload_len as int)
}

/// The length that a tunnel header announces, if all eight bytes are there.
pub open spec fn tunnel_length(header: Seq<u8>) -> Option<u16> {
    if header.len() < 8 {
        None
    } else {
        Some(read_be16(header, 6) as u16)
    }
}

/// The frame that carries `payload`.
pub open spec fn frame(payload: Seq<u8>) -> Seq<u8> {
    be16(payload.len() as int) + payload
}

/// The payload of the frame at the front of `buf`, if the whole frame is there.
pub open spec fn frame_payload(buf: Seq<u8>) -> Option<Seq<u8>> {
    if buf.len() < 2 {
        None
    } else if buf.len() < 2 + read_be16(buf, 0) {
        None
    } else {
        Some(buf.subrange(2, 2 + read_be16(buf, 0)))
    }
}

/// Builds the header that opens a connection.
pub fn encode_tunnel_header(version: u8, flags: u8, payload_len: u16) -> (h: [u8; 8])
    ensures
        h@ == tunnel_header(version, flags, payload_len),
{
    let h: [u8; 8] = [
        0x42,
        0x4f,
        0x48,
        0x54,
        version,
        flags,
        (payload_len / 256) as u8,
        (payload_len % 256) as u8,
    ];
    assert(h@ =~= tunnel_header(version, flags, payload_len));
    h
}

/// Reads the payload length out of a header. The magic, the version and the
/// flags are not looked at.
pub fn decode_tunnel_length(header: &[u8]) -> (len: Option<u16>)
    ensures
        len == tunnel_length(header@),
{
    if header.len() < 8 {
        return None;
    }
    let hi: u16 = header[6] as u16;
    let lo: u16 = header[7] as u16;
    Some(hi * 256 + lo)
}

/// Puts the length of `payload` in front of it.
pub fn encode_frame(payload: &[u8]) -> (out: Vec<u8>)
    requires
        payload@.len() <= 65535,
    ensures
        out@ == frame(payload@),
{
    let mut out: Vec<u8> = Vec::with_capacity(2 + payload.len());
    let len: usize = payload.len();
    out.push((len / 256) as u8);
    out.push((len % 256) as u8);
    out.extend_from_slice(payload);
    assert(out@ =~= frame(payload@));
    out
}

/// Takes the first frame off `buf`. `None` says that the frame is not yet
/// complete: the caller keeps the bytes and tries again when more have come.
pub fn decode_frame(buf: &[u8]) -> (payload: Option<Vec<u8>>)
    ensures
        match payload {
            Some(p) => frame_payload(buf@) == Some(p@),
            None => frame_payload(buf@) is None,
        },
{
    if buf.len() < 2 {
        return None;
    }
    let len: usize = (buf[0] as usize) * 256 + (buf[1] as usize);
    if buf.len() - 2 < len {
        return None;
    }
    let body: &[u8] = vstd::slice::slice_subrange(buf, 2, 2 + len);
    Some(vstd::slice::slice_to_vec(body))
}

/// A header gives back the length it was built with, whatever the version
/// and the flags.
pub proof fn lemma_tunnel_header_round_trip(version: u8, flags: u8, payload_len: u16)
    ensures
        tunnel_length(tunnel_header(version, flags, payload_len)) == Some(payload_len),
{
}

/// A frame of at most 65535 bytes gives back its payload.
pub proof fn lemma_frame_round_trip(payload: Seq<u8>)
    requires
        payload.len() <= 65535,
    ensures
        frame_payload(frame(payload)) == Some(payload),
{
    let f = frame(payload);
    assert(read_be16(f, 0) == payload.len());
    assert(f.subrange(2, 2 + payload.len() as int) =~= payload);
}

} // verus!
