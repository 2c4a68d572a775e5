//! Importing a capture file.
//!
//! The file is a classic pcap file, given as its bytes. Its records are
//! taken apart by pcap-parser and the frames in them by pnet_packet; what
//! is found on port 443 goes into the flow table, and the table is
//! searched for a ClientHello.

use vstd::prelude::*;
use vstd::slice::slice_subrange;
use pnet_packet::Packet;
use crate::error::CoreError;
use crate::flows::{flows_after, located, FlowKey, FlowTable, Segment,
    SegmentModel, TlsSnapshot};
use crate::wire::{read_be16, read_be32, read_le32};

verus! {

/// The byte order of a capture file, by the magic number in its first four
/// bytes: `Some(true)` for most significant byte first. `None` where the
/// file has fewer than the 24 bytes of the global header or an unknown
/// magic number.
pub open spec fn capture_big_endian(capture: Seq<u8>) -> Option<bool> {
    if capture.len() < 24 {
        None
    } else {
        let magic = read_le32(capture, 0);
        if magic == 0xa1b2c3d4 || magic == 0xa1b23c4d {
            Some(false)
        } else if magic == 0xd4c3b2a1 || magic == 0x4d3cb2a1 {
            Some(true)
        } else {
            None
        }
    }
}

/// The captured length that the record at the front of `rest` announces.
pub open spec fn record_caplen(rest: Seq<u8>, big_endian: bool) -> int {
    if big_endian {
        read_be32(rest, 8)
    } else {
        read_le32(rest, 8)
    }
}

/// The frame of the record at the front of `rest`: the bytes behind the
/// record header of 16 bytes, as many as the captured length says. `None`
/// where the record is cut short.
pub open spec fn record_frame(rest: Seq<u8>, big_endian: bool) -> Option<Seq<u8>> {
    if rest.len() < 16 || 16 + record_caplen(rest, big_endian) > rest.len() {
        None
    } else {
        Some(rest.subrange(16, 16 + record_caplen(rest, big_endian)))
    }
}

/// The frames in front of those that follow; nothing where nothing follows.
pub open spec fn frames_then(frames: Seq<Seq<u8>>, rest: Option<Seq<Seq<u8>>>) -> Option<
    Seq<Seq<u8>>,
> {
    match rest {
        Some(more) => Some(frames + more),
        None => None,
    }
}

/// The frames of the records from `pos` to the end of the file. `None`
/// where a record is cut short.
pub open spec fn capture_frames_from(capture: Seq<u8>, pos: int, big_endian: bool) -> Option<
    Seq<Seq<u8>>,
>
    decreases capture.len() - pos,
{
    if pos < 0 || pos >= capture.len() {
        Some(Seq::empty())
    } else {
        match record_frame(capture.subrange(pos, capture.len() as int), big_endian) {
            None => None,
            Some(frame) => frames_then(
                seq![frame],
                capture_frames_from(capture, pos + 16 + frame.len(), big_endian),
            ),
        }
    }
}

/// The frames of a capture file, in order. `None` where the global header
/// is not accepted or a record is cut short.
pub open spec fn capture_frames(capture: Seq<u8>) -> Option<Seq<Seq<u8>>> {
    match capture_big_endian(capture) {
        Some(big_endian) => capture_frames_from(capture, 24, big_endian),
        None => None,
    }
}

/// What pnet_packet reads in an Ethernet frame: nothing where the frame
/// has fewer than the 14 bytes of the header; else the EtherType of bytes
/// 12 and 13 and, as payload, the bytes from 14 on.
pub open spec fn ethernet_parts(frame: Seq<u8>) -> Option<(u16, Seq<u8>)> {
    if frame.len() < 14 {
        None
    } else {
        Some((read_be16(frame, 12) as u16, frame.subrange(14, frame.len() as int)))
    }
}

/// Where pnet_packet lets the payload of an IPv4 packet begin: behind the
/// header of as many 32-bit words as the low half of byte 0 says, and
/// never before byte 20.
pub open spec fn ipv4_payload_start(packet: Seq<u8>) -> int {
    let header = (packet[0] % 16) as int * 4;
    if header > 20 {
        header
    } else {
        20
    }
}

/// How many bytes pnet_packet counts as payload of an IPv4 packet: the
/// total length of bytes 2 and 3 less the header length, and none where
/// the header is the longer.
pub open spec fn ipv4_payload_len(packet: Seq<u8>) -> int {
    let header = (packet[0] % 16) as int * 4;
    let total = read_be16(packet, 2);
    if total > header {
        total - header
    } else {
        0
    }
}

/// What pnet_packet reads in an IPv4 packet: nothing where the packet has
/// fewer than the 20 bytes of the fixed header; else the source of bytes
/// 12 to 15, the destination of bytes 16 to 19, the protocol of byte 9,
/// and as payload the bytes from the payload's start, as many as the
/// payload length says and the packet holds.
pub open spec fn ipv4_parts(packet: Seq<u8>) -> Option<(u32, u32, u8, Seq<u8>)> {
    if packet.len() < 20 {
        None
    } else {
        let start = ipv4_payload_start(packet);
        let end = if start + ipv4_payload_len(packet) < packet.len() {
            start + ipv4_payload_len(packet)
        } else {
            packet.len() as int
        };
        let payload = if packet.len() <= start {
            Seq::empty()
        } else {
            packet.subrange(start, end)
        };
        Some((read_be32(packet, 12) as u32, read_be32(packet, 16) as u32, packet[9], payload))
    }
}

/// Where pnet_packet lets the payload of a TCP segment begin: behind as
/// many 32-bit words as the high half of byte 12 says where that is more
/// than five, else behind byte 20.
pub open spec fn tcp_payload_start(segment: Seq<u8>) -> int {
    let words = (segment[12] / 16) as int;
    if words > 5 {
        words * 4
    } else {
        20
    }
}

/// What pnet_packet reads in a TCP segment: nothing where the segment has
/// fewer than the 20 bytes of the fixed header; else the source port of
/// bytes 0 and 1, the destination port of bytes 2 and 3, and as payload
/// the bytes from the payload's start on.
pub open spec fn tcp_parts(segment: Seq<u8>) -> Option<(u16, u16, Seq<u8>)> {
    if segment.len() < 20 {
        None
    } else {
        let start = tcp_payload_start(segment);
        let payload = if segment.len() <= start {
            Seq::empty()
        } else {
            segment.subrange(start, segment.len() as int)
        };
        Some((read_be16(segment, 0) as u16, read_be16(segment, 2) as u16, payload))
    }
}

/// What pnet_packet reads in a UDP datagram: nothing where the datagram
/// has fewer than the 8 bytes of the header; else the source port of bytes
/// 0 and 1, the destination port of bytes 2 and 3, and as payload the
/// bytes from 8 on.
pub open spec fn udp_parts(datagram: Seq<u8>) -> Option<(u16, u16, Seq<u8>)> {
    if datagram.len() < 8 {
        None
    } else {
        Some(
            (
                read_be16(datagram, 0) as u16,
                read_be16(datagram, 2) as u16,
                datagram.subrange(8, datagram.len() as int),
            ),
        )
    }
}

/// `parse_pcap_header` of pcap-parser, with `is_bigendian` on the header
/// it gives. The parser reads the magic number least significant byte
/// first and knows four values of it; it then needs the rest of the 24
/// bytes. The byte order is that of the two magic numbers whose low half
/// is `0xb2a1`.
#[verifier::external_body]
fn pcap_header(capture: &[u8]) -> (r: Option<bool>)
    ensures
        r == capture_big_endian(capture@),
{
    match pcap_parser::pcap::parse_pcap_header(capture) {
        Ok((_, header)) => Some(header.is_bigendian()),
        Err(_) => None,
    }
}

/// `parse_pcap_frame` of pcap-parser: a record header of 16 bytes whose
/// third field, read least significant byte first, is the number of bytes
/// that follow as the frame. The parser's errors, which it gives where
/// the record is cut short, come back as `None`.
#[verifier::external_body]
fn pcap_frame_le(rest: &[u8]) -> (r: Option<Vec<u8>>)
    ensures
        match r {
            Some(frame) => record_frame(rest@, false) == Some(frame@),
            None => record_frame(rest@, false) is None,
        },
{
    match pcap_parser::pcap::parse_pcap_frame(rest) {
        Ok((_, block)) => Some(block.data.to_vec()),
        Err(_) => None,
    }
}

/// `parse_pcap_frame_be` of pcap-parser: as `parse_pcap_frame`, with the
/// fields read most significant byte first.
#[verifier::external_body]
fn pcap_frame_be(rest: &[u8]) -> (r: Option<Vec<u8>>)
    ensures
        match r {
            Some(frame) => record_frame(rest@, true) == Some(frame@),
            None => record_frame(rest@, true) is None,
        },
{
    match pcap_parser::pcap::parse_pcap_frame_be(rest) {
        Ok((_, block)) => Some(block.data.to_vec()),
        Err(_) => None,
    }
}

/// `EthernetPacket::new`, `get_ethertype` and `payload` of pnet_packet.
/// The first gives nothing for a buffer shorter than the header of 14
/// bytes. The type is read from bytes 12 and 13, most significant first,
/// and the payload is what stands behind the header.
#[verifier::external_body]
fn ethernet_view(frame: &[u8]) -> (r: Option<(u16, Vec<u8>)>)
    ensures
        match r {
            Some((ethertype, payload)) => ethernet_parts(frame@) == Some((ethertype, payload@)),
            None => ethernet_parts(frame@) is None,
        },
{
    let packet = pnet_packet::ethernet::EthernetPacket::new(frame)?;
    Some((packet.get_ethertype().0, packet.payload().to_vec()))
}

/// `Ipv4Packet::new`, `get_source`, `get_destination`,
/// `get_next_level_protocol` and `payload` of pnet_packet. The first gives
/// nothing for a buffer shorter than the fixed header of 20 bytes; the
/// addresses come back as the numbers that std makes of them, most
/// significant byte first. The payload begins behind the fixed header and
/// the options, whose length is the header length less 20 and never below
/// 0; it ends where the total length says, or where the buffer ends if
/// that is earlier; a buffer that ends at or before the payload's start
/// has an empty payload.
#[verifier::external_body]
fn ipv4_view(packet: &[u8]) -> (r: Option<(u32, u32, u8, Vec<u8>)>)
    ensures
        match r {
            Some((src, dst, protocol, payload)) => ipv4_parts(packet@) == Some(
                (src, dst, protocol, payload@),
            ),
            None => ipv4_parts(packet@) is None,
        },
{
    let ip = pnet_packet::ipv4::Ipv4Packet::new(packet)?;
    let src = u32::from(ip.get_source());
    let dst = u32::from(ip.get_destination());
    Some((src, dst, ip.get_next_level_protocol().0, ip.payload().to_vec()))
}

/// `TcpPacket::new`, `get_source`, `get_destination` and `payload` of
/// pnet_packet. The first gives nothing for a buffer shorter than the
/// fixed header of 20 bytes. The payload begins behind the fixed header
/// and the options, whose length is the data offset in bytes less 20 where
/// the offset is over five words, and 0 otherwise; it runs to the end of
/// the buffer, and is empty where the buffer ends at or before its start.
#[verifier::external_body]
fn tcp_view(segment: &[u8]) -> (r: Option<(u16, u16, Vec<u8>)>)
    ensures
        match r {
            Some((src, dst, payload)) => tcp_parts(segment@) == Some((src, dst, payload@)),
            None => tcp_parts(segment@) is None,
        },
{
    let tcp = pnet_packet::tcp::TcpPacket::new(segment)?;
    Some((tcp.get_source(), tcp.get_destination(), tcp.payload().to_vec()))
}

/// `UdpPacket::new`, `get_source`, `get_destination` and `payload` of
/// pnet_packet. The first gives nothing for a buffer shorter than the
/// header of 8 bytes; the payload is what stands behind the header.
#[verifier::external_body]
fn udp_view(datagram: &[u8]) -> (r: Option<(u16, u16, Vec<u8>)>)
    ensures
        match r {
            Some((src, dst, payload)) => udp_parts(datagram@) == Some((src, dst, payload@)),
            None => udp_parts(datagram@) is None,
        },
{
    let udp = pnet_packet::udp::UdpPacket::new(datagram)?;
    Some((udp.get_source(), udp.get_destination(), udp.payload().to_vec()))
}

/// What the transport layer of an IPv4 packet carries: a TCP segment for
/// protocol 6, a UDP datagram for protocol 17.
pub open spec fn transport_segment(src: u32, dst: u32, protocol: u8, payload: Seq<u8>)
    -> SegmentModel {
    if protocol == 6 {
        match tcp_parts(payload) {
            Some((src_port, dst_port, data)) => SegmentModel::Tcp {
                src_port,
                dst_port,
                payload: data,
            },
            None => SegmentModel::Other,
        }
    } else if protocol == 17 {
        match udp_parts(payload) {
            Some((src_port, dst_port, data)) => SegmentModel::Udp {
                key: FlowKey { src_ip: src, dst_ip: dst, src_port, dst_port },
                payload: data,
            },
            None => SegmentModel::Other,
        }
    } else {
        SegmentModel::Other
    }
}

/// What an Ethernet frame carries, read layer by layer. Only frames of
/// type `0x0800`, IPv4, are read further.
pub open spec fn packet_segment(frame: Seq<u8>) -> SegmentModel {
    match ethernet_parts(frame) {
        Some((ethertype, payload)) => if ethertype == 0x0800 {
            match ipv4_parts(payload) {
                Some((src, dst, protocol, data)) => transport_segment(src, dst, protocol, data),
                None => SegmentModel::Other,
            }
        } else {
            SegmentModel::Other
        },
        None => SegmentModel::Other,
    }
}

/// What each of the frames carries.
pub open spec fn packet_segments(frames: Seq<Seq<u8>>) -> Seq<SegmentModel> {
    Seq::new(frames.len(), |i: int| packet_segment(frames[i]))
}

/// What the capture file gives: the ClientHello of its flows, `NotFound`
/// where they hold none, `MalformedInput` where the file cannot be read
/// to its end.
pub open spec fn imported(capture: Seq<u8>) -> Result<Seq<u8>, CoreError> {
    match capture_frames(capture) {
        None => Err(CoreError::MalformedInput),
        Some(frames) => match located(flows_after(packet_segments(frames)), true) {
            Some(hello) => Ok(hello),
            None => Err(CoreError::NotFound),
        },
    }
}

/// Reads the transport layer of an IPv4 packet.
pub fn classify_transport(src: u32, dst: u32, protocol: u8, payload: &[u8]) -> (segment: Segment)
    ensures
        segment@ == transport_segment(src, dst, protocol, payload@),
{
    if protocol == 6 {
        match tcp_view(payload) {
            Some((src_port, dst_port, data)) => Segment::Tcp { src_port, dst_port, payload: data },
            None => Segment::Other,
        }
    } else if protocol == 17 {
        match udp_view(payload) {
            Some((src_port, dst_port, data)) => Segment::Udp {
                key: FlowKey { src_ip: src, dst_ip: dst, src_port, dst_port },
                payload: data,
            },
            None => Segment::Other,
        }
    } else {
        Segment::Other
    }
}

/// Reads the headers of one Ethernet frame and takes out its payload.
pub fn classify_packet(frame: &[u8]) -> (segment: Segment)
    ensures
        segment@ == packet_segment(frame@),
{
    match ethernet_view(frame) {
        Some((ethertype, payload)) => {
            if ethertype != 0x0800 {
                return Segment::Other;
            }
            match ipv4_view(payload.as_slice()) {
                Some((src, dst, protocol, data)) => classify_transport(
                    src,
                    dst,
                    protocol,
                    data.as_slice(),
                ),
                None => Segment::Other,
            }
        },
        None => Segment::Other,
    }
}

/// Finds the ClientHello in a capture file, given as its bytes. The file
/// is read to its end before the search begins. The TCP payloads on port
/// 443 are searched first, as one buffer; then each UDP flow on port 443:
/// through its CRYPTO bytes, through those bytes opened as an Initial
/// payload, and as it stands.
pub fn import_from_pcap(capture: &[u8]) -> (r: Result<TlsSnapshot, CoreError>)
    ensures
        match r {
            Ok(snap) => imported(capture@) == Ok::<Seq<u8>, CoreError>(snap.raw_client_hello@)
                && snap.ja3 is None,
            Err(e) => imported(capture@) == Err::<Seq<u8>, CoreError>(e),
        },
{
    let big_endian: bool = match pcap_header(capture) {
        Some(b) => b,
        None => {
            return Err(CoreError::MalformedInput);
        },
    };
    let n: usize = capture.len();
    let ghost mut frames: Seq<Seq<u8>> = Seq::empty();
    let mut table: FlowTable = FlowTable::new();
    let mut pos: usize = 24;
    assert(frames_then(frames, capture_frames_from(capture@, 24, big_endian)) =~= capture_frames(
        capture@,
    )) by {
        match capture_frames_from(capture@, 24, big_endian) {
            Some(more) => {
                assert(frames + more =~= more);
            },
            None => {},
        }
    }
    while pos < n
        invariant
            n == capture@.len(),
            24 <= pos <= n,
            frames_then(frames, capture_frames_from(capture@, pos as int, big_endian))
                == capture_frames(capture@),
            table@ == flows_after(packet_segments(frames)),
        decreases n - pos,
    {
        let rest: &[u8] = slice_subrange(capture, pos, n);
        let parsed: Option<Vec<u8>> = if big_endian {
            pcap_frame_be(rest)
        } else {
            pcap_frame_le(rest)
        };
        let frame: Vec<u8> = match parsed {
            Some(frame) => frame,
            None => {
                return Err(CoreError::MalformedInput);
            },
        };
        let segment: Segment = classify_packet(frame.as_slice());
        table.absorb(&segment);
        proof {
            let next = frames.push(frame@);
            assert(packet_segments(next).drop_last() =~= packet_segments(frames));
            assert(packet_segments(next).last() == segment@);
            match capture_frames_from(capture@, pos + 16 + frame@.len(), big_endian) {
                Some(more) => {
                    assert(next + more =~= frames + (seq![frame@] + more));
                },
                None => {},
            }
            frames = next;
        }
        pos = pos + 16 + frame.len();
    }
    assert(frames + Seq::<Seq<u8>>::empty() =~= frames);
    table.locate(true)
}

} // verus!
