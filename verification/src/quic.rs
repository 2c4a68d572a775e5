//! QUIC long-header packets, read far enough to collect CRYPTO frames.
//!
//! Nothing here removes header protection or decodes packet numbers: the
//! bytes are taken as they stand.

use vstd::prelude::*;
use vstd::slice::slice_subrange;

verus! {

/// How many bytes a variable-length integer takes, by the two top bits of
/// its first byte.
pub open spec fn varint_width(first: u8) -> int {
    if first < 64 {
        1
    } else if first < 128 {
        2
    } else if first < 192 {
        4
    } else {
        8
    }
}

/// The number that the bytes spell, most significant first.
pub open spec fn be_value(bytes: Seq<u8>) -> nat
    decreases bytes.len(),
{
    if bytes.len() == 0 {
        0
    } else {
        be_value(bytes.drop_last()) * 256 + bytes.last() as nat
    }
}

/// The bytes of a variable-length integer of `width` bytes at `pos`, with
/// the two width bits of the first byte cleared.
pub open spec fn varint_bytes(buf: Seq<u8>, pos: int, width: int) -> Seq<u8> {
    seq![(buf[pos] % 64) as u8] + buf.subrange(pos + 1, pos + width)
}

/// The variable-length integer at `pos`: its value and its width; `None`
/// where it does not lie within the buffer.
pub open spec fn varint_at(buf: Seq<u8>, pos: int) -> Option<(u64, usize)> {
    if pos < 0 || pos >= buf.len() {
        None
    } else if pos + varint_width(buf[pos]) > buf.len() {
        None
    } else {
        Some(
            (
                be_value(varint_bytes(buf, pos, varint_width(buf[pos]))) as u64,
                varint_width(buf[pos]) as usize,
            ),
        )
    }
}

/// The strict bound on the value that the first `count` bytes of a
/// variable-length integer can spell.
pub open spec fn varint_bound(count: int) -> int {
    if count <= 1 {
        0x40
    } else if count == 2 {
        0x4000
    } else if count == 3 {
        0x40_0000
    } else if count == 4 {
        0x4000_0000
    } else if count == 5 {
        0x40_0000_0000
    } else if count == 6 {
        0x4000_0000_0000
    } else if count == 7 {
        0x40_0000_0000_0000
    } else {
        0x4000_0000_0000_0000
    }
}

/// Where the frames of a long-header packet begin: behind the first byte,
/// the version, the two connection ids with their lengths, the token with
/// its length, and the packet length. `None` where the packet is short, has
/// no long header or version 0, or where one of these does not lie within
/// the packet or leaves no byte behind it.
pub open spec fn frames_start(p: Seq<u8>) -> Option<int> {
    if p.len() < 6 || p[0] < 128 || (p[1] == 0 && p[2] == 0 && p[3] == 0 && p[4] == 0) {
        None
    } else if 6 + p[5] as int >= p.len() {
        None
    } else {
        let scid_at = 6 + p[5] as int;
        let token_at = scid_at + 1 + p[scid_at] as int;
        if token_at > p.len() {
            None
        } else {
            match varint_at(p, token_at) {
                None => None,
                Some((token_len, w)) => {
                    let length_at = token_at + w + token_len;
                    if length_at > p.len() {
                        None
                    } else {
                        match varint_at(p, length_at) {
                            None => None,
                            Some((_, w2)) => if length_at + w2 >= p.len() {
                                None
                            } else {
                                Some(length_at + w2)
                            },
                        }
                    }
                },
            }
        }
    }
}

/// Whether a frame type is one of those skipped as a stream frame.
pub open spec fn is_stream_like(frame_type: u64) -> bool {
    frame_type == 0x10 || frame_type == 0x1d || frame_type == 0x1e
}

/// Where the frame behind a stream-like frame begins, given the position
/// behind its type: behind stream id, offset, length and that many bytes.
/// `None` where one of the three does not lie within the packet.
pub open spec fn stream_frame_end(p: Seq<u8>, at: int) -> Option<int> {
    match varint_at(p, at) {
        None => None,
        Some((_, w1)) => match varint_at(p, at + w1) {
            None => None,
            Some((_, w2)) => match varint_at(p, at + w1 + w2) {
                None => None,
                Some((len, w3)) => Some(at + w1 + w2 + w3 + len),
            },
        },
    }
}

/// The payloads of the CRYPTO frames from `at` on, one after another.
/// Stream-like frames are stepped over. The walk ends at the end of the
/// packet, at any other frame type, and at a frame that does not lie
/// within the packet.
pub open spec fn crypto_frames(p: Seq<u8>, at: int) -> Seq<u8>
    decreases p.len() - at,
{
    match varint_at(p, at) {
        None => Seq::empty(),
        Some((frame_type, w)) => {
            if frame_type == 0x06 {
                match varint_at(p, at + w) {
                    None => Seq::empty(),
                    Some((len, w2)) => {
                        let data = at + w + w2;
                        if data + len <= p.len() {
                            p.subrange(data, data + len) + crypto_frames(p, data + len)
                        } else {
                            Seq::empty()
                        }
                    },
                }
            } else if is_stream_like(frame_type) {
                match stream_frame_end(p, at + w) {
                    None => Seq::empty(),
                    Some(next) => if next < p.len() {
                        crypto_frames(p, next)
                    } else {
                        Seq::empty()
                    },
                }
            } else {
                Seq::empty()
            }
        },
    }
}

/// The CRYPTO bytes of one packet; empty where the packet's header is not
/// accepted.
pub open spec fn packet_crypto(p: Seq<u8>) -> Seq<u8> {
    match frames_start(p) {
        Some(at) => crypto_frames(p, at),
        None => Seq::empty(),
    }
}

/// The CRYPTO bytes of the packets that may begin at `pos` or behind it:
/// every position whose byte has the long-header bit is tried as the start
/// of a packet that runs to the end of the buffer.
pub open spec fn flow_crypto_from(buf: Seq<u8>, pos: int) -> Seq<u8>
    decreases buf.len() - pos,
{
    if pos < 0 || pos + 6 > buf.len() {
        Seq::empty()
    } else {
        (if buf[pos] >= 128 {
            packet_crypto(buf.subrange(pos, buf.len() as int))
        } else {
            Seq::empty()
        }) + flow_crypto_from(buf, pos + 1)
    }
}

/// The CRYPTO bytes of a flow: those of every packet start in it, in order.
pub open spec fn flow_crypto(buf: Seq<u8>) -> Seq<u8> {
    flow_crypto_from(buf, 0)
}

/// Reads the variable-length integer at `pos`: the value and the number of
/// bytes it takes.
pub fn read_varint(buf: &[u8], pos: usize) -> (r: Option<(u64, usize)>)
    ensures
        r == varint_at(buf@, pos as int),
        r matches Some((v, w)) ==> 1 <= w <= 8 && pos + w <= buf@.len() && v
            < 0x4000_0000_0000_0000,
{
    let n: usize = buf.len();
    if pos >= n {
        return None;
    }
    let first: u8 = buf[pos];
    let len: usize = if first < 64 {
        1
    } else if first < 128 {
        2
    } else if first < 192 {
        4
    } else {
        8
    };
    if n - pos < len {
        return None;
    }
    let ghost bytes = varint_bytes(buf@, pos as int, len as int);
    let mut value: u64 = (first % 64) as u64;
    let mut i: usize = 1;
    proof {
        assert(bytes.take(1).drop_last() =~= Seq::<u8>::empty());
        assert(be_value(bytes.take(1).drop_last()) == 0);
        assert(bytes.take(1).last() == first % 64);
    }
    while i < len
        invariant
            1 <= i <= len <= 8,
            n == buf@.len(),
            pos + len <= n,
            bytes == varint_bytes(buf@, pos as int, len as int),
            value as nat == be_value(bytes.take(i as int)),
            value < varint_bound(i as int),
        decreases len - i,
    {
        value = value * 256 + buf[pos + i] as u64;
        proof {
            let next = bytes.take(i + 1);
            assert(next.drop_last() =~= bytes.take(i as int));
            assert(next.last() == buf@[pos + i]);
        }
        i += 1;
    }
    assert(bytes.take(len as int) =~= bytes);
    Some((value, len))
}

/// Tells whether the first byte of a packet announces a long header.
pub fn is_long_header(first: u8) -> (b: bool)
    ensures
        b == (first >= 128),
{
    first >= 0x80
}

/// Finds where the frames of a long-header packet begin.
fn locate_frames(payload: &[u8]) -> (r: Option<usize>)
    ensures
        match r {
            Some(at) => frames_start(payload@) == Some(at as int) && at < payload@.len(),
            None => frames_start(payload@) is None,
        },
{
    let n: usize = payload.len();
    if n < 6 {
        return None;
    }
    if !is_long_header(payload[0]) {
        return None;
    }
    if payload[1] == 0 && payload[2] == 0 && payload[3] == 0 && payload[4] == 0 {
        return None;
    }
    let dcid_len: usize = payload[5] as usize;
    if n - 6 <= dcid_len {
        return None;
    }
    let scid_at: usize = 6 + dcid_len;
    let scid_len: usize = payload[scid_at] as usize;
    if n - scid_at - 1 < scid_len {
        return None;
    }
    let token_at: usize = scid_at + 1 + scid_len;
    match read_varint(payload, token_at) {
        None => None,
        Some((token_len, w)) => {
            if token_len > (n - token_at - w) as u64 {
                return None;
            }
            let length_at: usize = token_at + w + token_len as usize;
            match read_varint(payload, length_at) {
                None => None,
                Some((_, w2)) => {
                    if n - length_at <= w2 {
                        None
                    } else {
                        Some(length_at + w2)
                    }
                },
            }
        },
    }
}

/// Finds where the frame behind a stream-like frame begins, if that is
/// still within the packet.
fn skip_stream_frame(payload: &[u8], at: usize) -> (r: Option<usize>)
    ensures
        match r {
            Some(next) => stream_frame_end(payload@, at as int) == Some(next as int) && next
                < payload@.len(),
            None => match stream_frame_end(payload@, at as int) {
                Some(next) => next >= payload@.len(),
                None => true,
            },
        },
{
    let n: usize = payload.len();
    match read_varint(payload, at) {
        None => None,
        Some((_, w1)) => match read_varint(payload, at + w1) {
            None => None,
            Some((_, w2)) => match read_varint(payload, at + w1 + w2) {
                None => None,
                Some((len, w3)) => {
                    let data: usize = at + w1 + w2 + w3;
                    if len >= (n - data) as u64 {
                        None
                    } else {
                        Some(data + len as usize)
                    }
                },
            },
        },
    }
}

/// Collects the payloads of the CRYPTO frames of one long-header packet,
/// given without the headers of the layers below.
pub fn extract_crypto_from_quic_packet(payload: &[u8]) -> (out: Vec<u8>)
    ensures
        out@ == packet_crypto(payload@),
{
    let mut out: Vec<u8> = Vec::new();
    let n: usize = payload.len();
    let start: usize = match locate_frames(payload) {
        Some(at) => at,
        None => {
            return out;
        },
    };
    let mut idx: usize = start;
    loop
        invariant
            n == payload@.len(),
            start <= idx <= n,
            out@ + crypto_frames(payload@, idx as int) == crypto_frames(payload@, start as int),
        ensures
            out@ == crypto_frames(payload@, start as int),
        decreases n - idx,
    {
        let ghost before = out@;
        let (frame_type, w): (u64, usize) = match read_varint(payload, idx) {
            Some(pair) => pair,
            None => {
                assert(out@ =~= out@ + Seq::<u8>::empty());
                break;
            },
        };
        let body: usize = idx + w;
        if frame_type == 0x06 {
            let (len, w2): (u64, usize) = match read_varint(payload, body) {
                Some(pair) => pair,
                None => {
                    assert(out@ =~= out@ + Seq::<u8>::empty());
                    break;
                },
            };
            let data: usize = body + w2;
            if len > (n - data) as u64 {
                assert(out@ =~= out@ + Seq::<u8>::empty());
                break;
            }
            let end: usize = data + len as usize;
            out.extend_from_slice(slice_subrange(payload, data, end));
            assert(out@ + crypto_frames(payload@, end as int) =~= before + crypto_frames(
                payload@,
                idx as int,
            ));
            idx = end;
        } else if frame_type == 0x10 || frame_type == 0x1d || frame_type == 0x1e {
            match skip_stream_frame(payload, body) {
                Some(next) => {
                    idx = next;
                },
                None => {
                    assert(out@ =~= out@ + Seq::<u8>::empty());
                    break;
                },
            }
        } else {
            assert(out@ =~= out@ + Seq::<u8>::empty());
            break;
        }
    }
    out
}

/// Collects the CRYPTO bytes of a flow, given as the payloads of its
/// datagrams one after another.
pub fn extract_crypto_from_flow(buf: &[u8]) -> (acc: Vec<u8>)
    ensures
        acc@ == flow_crypto(buf@),
{
    let mut acc: Vec<u8> = Vec::new();
    let n: usize = buf.len();
    let mut pos: usize = 0;
    while n - pos >= 6
        invariant
            n == buf@.len(),
            pos <= n,
            acc@ + flow_crypto_from(buf@, pos as int) == flow_crypto(buf@),
        decreases n - pos,
    {
        let ghost before = acc@;
        if is_long_header(buf[pos]) {
            let extracted: Vec<u8> = extract_crypto_from_quic_packet(slice_subrange(buf, pos, n));
            acc.extend_from_slice(extracted.as_slice());
        }
        assert(acc@ + flow_crypto_from(buf@, pos + 1) =~= before + flow_crypto_from(
            buf@,
            pos as int,
        ));
        pos += 1;
    }
    assert(acc@ =~= acc@ + Seq::<u8>::empty());
    acc
}

} // verus!
