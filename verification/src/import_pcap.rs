//! Importing a capture from its frames, read by hand.
//!
//! The frames are those of an Ethernet capture, as a capture library hands
//! them out one by one. Only IPv4 is read; every other frame is passed
//! over without complaint.

use vstd::prelude::*;
use vstd::slice::{slice_subrange, slice_to_vec};
use crate::error::CoreError;
use crate::flows::{flows_after, located, FlowKey, FlowTable, Segment,
    SegmentModel, TlsSnapshot};
use crate::wire::{be16_at, read_be16, read_be32};

verus! {

/// The length of the IPv4 header that the frame announces, in bytes.
pub open spec fn ip_header_len(frame: Seq<u8>) -> int {
    (frame[14] % 16) as int * 4
}

/// The TCP segment of a frame whose IPv4 header says protocol 6. The
/// payload begins behind as many bytes as the data offset of the TCP
/// header says, and a segment without payload is passed over.
pub open spec fn tcp_segment(frame: Seq<u8>) -> SegmentModel {
    let at = 14 + ip_header_len(frame);
    if frame.len() < at + 20 {
        SegmentModel::Other
    } else {
        let payload_at = at + (frame[at + 12] / 16) as int * 4;
        if payload_at >= frame.len() {
            SegmentModel::Other
        } else {
            SegmentModel::Tcp {
                src_port: read_be16(frame, at) as u16,
                dst_port: read_be16(frame, at + 2) as u16,
                payload: frame.subrange(payload_at, frame.len() as int),
            }
        }
    }
}

/// The UDP datagram of a frame whose IPv4 header says protocol 17. The
/// payload begins behind the eight bytes of the UDP header, and a
/// datagram without payload is passed over.
pub open spec fn udp_segment(frame: Seq<u8>) -> SegmentModel {
    let at = 14 + ip_header_len(frame);
    if frame.len() < at + 8 || at + 8 >= frame.len() {
        SegmentModel::Other
    } else {
        SegmentModel::Udp {
            key: FlowKey {
                src_ip: read_be32(frame, 26) as u32,
                dst_ip: read_be32(frame, 30) as u32,
                src_port: read_be16(frame, at) as u16,
                dst_port: read_be16(frame, at + 2) as u16,
            },
            payload: frame.subrange(at + 8, frame.len() as int),
        }
    }
}

/// What an Ethernet frame carries. The frame must hold an Ethernet header
/// of 14 bytes with type `0x0800`, and an IPv4 header: at least 20 bytes,
/// and as many as its length field says.
pub open spec fn frame_segment(frame: Seq<u8>) -> SegmentModel {
    if frame.len() < 34 || read_be16(frame, 12) != 0x0800 || frame.len() < 14 + ip_header_len(
        frame,
    ) {
        SegmentModel::Other
    } else if frame[23] == 6 {
        tcp_segment(frame)
    } else if frame[23] == 17 {
        udp_segment(frame)
    } else {
        SegmentModel::Other
    }
}

/// What each of the frames carries.
pub open spec fn frame_segments(frames: Seq<Seq<u8>>) -> Seq<SegmentModel> {
    Seq::new(frames.len(), |i: int| frame_segment(frames[i]))
}

/// The 32-bit value at `at`, most significant byte first.
fn be32_at(data: &[u8], at: usize) -> (v: u32)
    requires
        at + 4 <= data@.len(),
    ensures
        v as int == read_be32(data@, at as int),
{
    (data[at] as u32) * 16777216 + (data[at + 1] as u32) * 65536 + (data[at + 2] as u32) * 256 + (
    data[at + 3] as u32)
}

/// Reads the headers of one Ethernet frame and takes out its payload.
pub fn classify_frame(data: &[u8]) -> (segment: Segment)
    ensures
        segment@ == frame_segment(data@),
{
    let n: usize = data.len();
    if n < 34 {
        return Segment::Other;
    }
    if be16_at(data, 12) != 0x0800 {
        return Segment::Other;
    }
    let ihl: usize = ((data[14] % 16) as usize) * 4;
    if n < 14 + ihl {
        return Segment::Other;
    }
    let proto: u8 = data[23];
    let at: usize = 14 + ihl;
    if proto == 6 {
        if n < at + 20 {
            return Segment::Other;
        }
        let src_port: u16 = be16_at(data, at);
        let dst_port: u16 = be16_at(data, at + 2);
        let payload_at: usize = at + ((data[at + 12] / 16) as usize) * 4;
        if payload_at >= n {
            return Segment::Other;
        }
        Segment::Tcp { src_port, dst_port, payload: slice_to_vec(slice_subrange(data, payload_at, n)) }
    } else if proto == 17 {
        if n < at + 8 || at + 8 >= n {
            return Segment::Other;
        }
        let key = FlowKey {
            src_ip: be32_at(data, 26),
            dst_ip: be32_at(data, 30),
            src_port: be16_at(data, at),
            dst_port: be16_at(data, at + 2),
        };
        Segment::Udp { key, payload: slice_to_vec(slice_subrange(data, at + 8, n)) }
    } else {
        Segment::Other
    }
}

/// The frames of a capture as sequences of bytes.
pub open spec fn frame_views(packets: Seq<Vec<u8>>) -> Seq<Seq<u8>> {
    Seq::new(packets.len(), |i: int| packets[i]@)
}

/// Finds the ClientHello in the frames of a capture. The TCP payloads on
/// port 443 are searched first, as one buffer; then each UDP flow on port
/// 443, through its CRYPTO bytes and then as it stands. A capture without
/// a ClientHello gives `NotFound`.
pub fn import_pcap(packets: &Vec<Vec<u8>>) -> (r: Result<TlsSnapshot, CoreError>)
    ensures
        match r {
            Ok(snap) => located(flows_after(frame_segments(frame_views(packets@))), false) == Some(
                snap.raw_client_hello@,
            ) && snap.ja3 is None,
            Err(e) => located(flows_after(frame_segments(frame_views(packets@))), false) is None
                && e == CoreError::NotFound,
        },
{
    let ghost segments = frame_segments(frame_views(packets@));
    let mut table: FlowTable = FlowTable::new();
    let mut i: usize = 0;
    while i < packets.len()
        invariant
            i <= packets@.len(),
            segments == frame_segments(frame_views(packets@)),
            table@ == flows_after(segments.take(i as int)),
        decreases packets.len() - i,
    {
        let segment: Segment = classify_frame(packets[i].as_slice());
        table.absorb(&segment);
        proof {
            let next = segments.take(i + 1);
            assert(next.drop_last() =~= segments.take(i as int));
            assert(next.last() == segment@);
        }
        i += 1;
    }
    assert(segments.take(i as int) =~= segments);
    table.locate(false)
}

} // verus!
