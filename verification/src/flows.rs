//! The flows of a capture and the search for a ClientHello in them.
//!
//! Traffic on port 443 is sorted into one buffer for all TCP payloads and
//! one buffer for each UDP flow. Payloads are joined in the order of the
//! capture; sequence numbers are not looked at, so segments that arrived
//! out of order stay out of order.

use vstd::prelude::*;
use vstd::slice::{slice_subrange, slice_to_vec};
use crate::error::CoreError;
use crate::quic::{extract_crypto_from_flow, flow_crypto};
use crate::quic_decrypt::{decrypt_initial_crypto, initial_opened};
use crate::template::zero_bytes;
use crate::wire::read_be16;

verus! {

/// The port of TLS and QUIC traffic.
pub const TLS_PORT: u16 = 443;

/// Whether TCP payloads are put in the order of their sequence numbers
/// before they are searched. They are not: a ClientHello whose segments
/// were captured out of order is not found, or found with its bytes out
/// of order.
pub const REORDERS_TCP_SEGMENTS: bool = false;

/// A ClientHello as it was captured.
#[derive(Clone)]
pub struct TlsSnapshot {
    /// The bytes of the record; they stay as captured.
    pub raw_client_hello: Vec<u8>,
    /// The JA3 digest, once it has been computed.
    pub ja3: Option<String>,
}

/// The addresses and ports that name a UDP flow.
#[derive(Clone, Copy, Debug, PartialEq, Eq, Structural)]
pub struct FlowKey {
    pub src_ip: u32,
    pub dst_ip: u32,
    pub src_port: u16,
    pub dst_port: u16,
}

/// What a captured frame carries.
pub enum Segment {
    /// Nothing that the search looks at.
    Other,
    /// The payload of a TCP segment.
    Tcp { src_port: u16, dst_port: u16, payload: Vec<u8> },
    /// The payload of a UDP datagram.
    Udp { key: FlowKey, payload: Vec<u8> },
}

/// A segment as plain values.
pub ghost enum SegmentModel {
    Other,
    Tcp { src_port: u16, dst_port: u16, payload: Seq<u8> },
    Udp { key: FlowKey, payload: Seq<u8> },
}

impl View for Segment {
    type V = SegmentModel;

    open spec fn view(&self) -> SegmentModel {
        match *self {
            Segment::Other => SegmentModel::Other,
            Segment::Tcp { src_port, dst_port, payload } => SegmentModel::Tcp {
                src_port,
                dst_port,
                payload: payload@,
            },
            Segment::Udp { key, payload } => SegmentModel::Udp { key, payload: payload@ },
        }
    }
}

/// The bytes of one UDP flow.
pub struct UdpFlow {
    pub key: FlowKey,
    pub bytes: Vec<u8>,
}

/// The flows of a capture: all TCP payloads in one buffer, and the UDP
/// flows in the order in which each was first seen.
pub struct FlowTable {
    pub tcp: Vec<u8>,
    pub udp: Vec<UdpFlow>,
}

/// The flows as plain values.
pub ghost struct Flows {
    pub tcp: Seq<u8>,
    pub udp: Seq<(FlowKey, Seq<u8>)>,
}

impl View for FlowTable {
    type V = Flows;

    open spec fn view(&self) -> Flows {
        Flows {
            tcp: self.tcp@,
            udp: Seq::new(self.udp@.len(), |i: int| (self.udp@[i].key, self.udp@[i].bytes@)),
        }
    }
}

/// The position of the first flow with this key at or behind `from`, or
/// the number of flows where there is none.
pub open spec fn key_position_from(
    udp: Seq<(FlowKey, Seq<u8>)>,
    key: FlowKey,
    from: int,
) -> int
    decreases udp.len() - from,
{
    if from < 0 || from >= udp.len() {
        udp.len() as int
    } else if udp[from].0 == key {
        from
    } else {
        key_position_from(udp, key, from + 1)
    }
}

/// The flows with one more datagram: its payload goes behind the bytes of
/// its flow, or opens a new flow behind all others.
pub open spec fn with_datagram(
    udp: Seq<(FlowKey, Seq<u8>)>,
    key: FlowKey,
    payload: Seq<u8>,
) -> Seq<(FlowKey, Seq<u8>)> {
    let at = key_position_from(udp, key, 0);
    if at < udp.len() {
        udp.update(at, (key, udp[at].1 + payload))
    } else {
        udp.push((key, payload))
    }
}

/// Whether no two flows have the same key.
pub open spec fn distinct_keys(udp: Seq<(FlowKey, Seq<u8>)>) -> bool {
    forall|i: int, j: int| 0 <= i < j < udp.len() ==> udp[i].0 != udp[j].0
}

/// The flows after one more segment. Only traffic from or to port 443
/// is kept.
pub open spec fn absorbed(flows: Flows, segment: SegmentModel) -> Flows {
    match segment {
        SegmentModel::Other => flows,
        SegmentModel::Tcp { src_port, dst_port, payload } => if src_port == TLS_PORT || dst_port
            == TLS_PORT {
            Flows { tcp: flows.tcp + payload, udp: flows.udp }
        } else {
            flows
        },
        SegmentModel::Udp { key, payload } => if key.src_port == TLS_PORT || key.dst_port
            == TLS_PORT {
            Flows { tcp: flows.tcp, udp: with_datagram(flows.udp, key, payload) }
        } else {
            flows
        },
    }
}

/// The flows after all these segments, in order.
pub open spec fn flows_after(segments: Seq<SegmentModel>) -> Flows
    decreases segments.len(),
{
    if segments.len() == 0 {
        Flows { tcp: Seq::empty(), udp: Seq::empty() }
    } else {
        absorbed(flows_after(segments.drop_last()), segments.last())
    }
}

/// Whether a ClientHello record begins at `i` and lies within the buffer:
/// the byte `0x16`, the handshake type 1 five bytes on, and the record
/// length of bytes 3 and 4 within reach. At least ten bytes must stand
/// from `i` on.
pub open spec fn record_at(buf: Seq<u8>, i: int) -> bool {
    &&& 0 <= i
    &&& i + 9 < buf.len()
    &&& buf[i] == 0x16
    &&& buf[i + 5] == 0x01
    &&& i + 5 + read_be16(buf, i + 3) <= buf.len()
}

/// The first position at or behind `from` where a ClientHello record begins.
pub open spec fn first_record_from(buf: Seq<u8>, from: int) -> Option<int>
    decreases buf.len() - from,
{
    if from < 0 || from + 9 >= buf.len() {
        None
    } else if record_at(buf, from) {
        Some(from)
    } else {
        first_record_from(buf, from + 1)
    }
}

/// The first ClientHello record in the buffer: the five bytes of its
/// header and as many bytes as the header announces.
pub open spec fn client_hello_in(buf: Seq<u8>) -> Option<Seq<u8>> {
    match first_record_from(buf, 0) {
        Some(i) => Some(buf.subrange(i, i + 5 + read_be16(buf, i + 3))),
        None => None,
    }
}

/// The destination connection id of the long-header packet at the front
/// of a flow, if there is one.
pub open spec fn observed_dcid(flow: Seq<u8>) -> Option<Seq<u8>> {
    if flow.len() >= 6 && flow[0] >= 128 && 6 + flow[5] as int <= flow.len() {
        Some(flow.subrange(6, 6 + flow[5] as int))
    } else {
        None
    }
}

/// The CRYPTO bytes of a flow opened as an Initial payload: with
/// AES-128-GCM, the keys of the observed connection id, packet number 0
/// and no associated data.
pub open spec fn opened_crypto(flow: Seq<u8>) -> Option<Seq<u8>> {
    match observed_dcid(flow) {
        Some(dcid) => initial_opened(dcid, 16, flow_crypto(flow), zero_bytes(12), Seq::empty()),
        None => None,
    }
}

/// The ClientHello of one UDP flow. The search goes through the flow's
/// CRYPTO bytes first; then, where `decrypt` is set, through those bytes
/// opened as an Initial payload; at last through the flow as it stands.
/// The first two are tried only where there are CRYPTO bytes.
pub open spec fn flow_hello(flow: Seq<u8>, decrypt: bool) -> Option<Seq<u8>> {
    let crypto = flow_crypto(flow);
    let in_crypto = if crypto.len() > 0 {
        client_hello_in(crypto)
    } else {
        None
    };
    let in_opened = if crypto.len() > 0 && decrypt {
        match opened_crypto(flow) {
            Some(plain) => client_hello_in(plain),
            None => None,
        }
    } else {
        None
    };
    if in_crypto is Some {
        in_crypto
    } else if in_opened is Some {
        in_opened
    } else {
        client_hello_in(flow)
    }
}

/// The ClientHello of the first flow at or behind `from` that has one.
pub open spec fn flows_hello_from(udp: Seq<(FlowKey, Seq<u8>)>, from: int, decrypt: bool)
    -> Option<Seq<u8>>
    decreases udp.len() - from,
{
    if from < 0 || from >= udp.len() {
        None
    } else if flow_hello(udp[from].1, decrypt) is Some {
        flow_hello(udp[from].1, decrypt)
    } else {
        flows_hello_from(udp, from + 1, decrypt)
    }
}

/// The ClientHello of a capture: that of the TCP buffer, or else that of
/// the first UDP flow that has one.
pub open spec fn located(flows: Flows, decrypt: bool) -> Option<Seq<u8>> {
    match client_hello_in(flows.tcp) {
        Some(hello) => Some(hello),
        None => flows_hello_from(flows.udp, 0, decrypt),
    }
}

/// Finds the first ClientHello record in a buffer and copies it out.
pub fn find_client_hello_in_buf(buf: &[u8]) -> (r: Option<Vec<u8>>)
    ensures
        match r {
            Some(hello) => client_hello_in(buf@) == Some(hello@),
            None => client_hello_in(buf@) is None,
        },
{
    let n: usize = buf.len();
    if n < 10 {
        return None;
    }
    let mut i: usize = 0;
    while i < n - 9
        invariant
            n == buf@.len(),
            n >= 10,
            i <= n - 9,
            first_record_from(buf@, i as int) == first_record_from(buf@, 0),
        decreases n - i,
    {
        if buf[i] == 0x16 && buf[i + 5] == 0x01 {
            let len: usize = (buf[i + 3] as usize) * 256 + (buf[i + 4] as usize);
            if n - i - 5 >= len {
                return Some(slice_to_vec(slice_subrange(buf, i, i + 5 + len)));
            }
        }
        i += 1;
    }
    None
}

/// Opens the CRYPTO bytes of a flow as an Initial payload.
fn open_crypto(flow: &[u8], crypto: &[u8]) -> (r: Option<Vec<u8>>)
    requires
        crypto@ == flow_crypto(flow@),
    ensures
        match r {
            Some(plain) => opened_crypto(flow@) == Some(plain@),
            None => opened_crypto(flow@) is None,
        },
{
    let n: usize = flow.len();
    if n < 6 || flow[0] < 128 {
        return None;
    }
    let dcid_len: usize = flow[5] as usize;
    if n - 6 < dcid_len {
        return None;
    }
    let dcid: &[u8] = slice_subrange(flow, 6, 6 + dcid_len);
    let nonce: [u8; 12] = [0, 0, 0, 0, 0, 0, 0, 0, 0, 0, 0, 0];
    assert(nonce@ =~= zero_bytes(12));
    let nothing: Vec<u8> = Vec::new();
    match decrypt_initial_crypto(
        dcid,
        16,
        nothing.as_slice(),
        crypto,
        nonce.as_slice(),
        nothing.as_slice(),
    ) {
        Ok(plain) => Some(plain),
        Err(_) => None,
    }
}

/// Finds the ClientHello of one UDP flow.
pub fn find_in_flow(flow: &[u8], decrypt: bool) -> (r: Option<Vec<u8>>)
    ensures
        match r {
            Some(hello) => flow_hello(flow@, decrypt) == Some(hello@),
            None => flow_hello(flow@, decrypt) is None,
        },
{
    let crypto: Vec<u8> = extract_crypto_from_flow(flow);
    if crypto.len() > 0 {
        match find_client_hello_in_buf(crypto.as_slice()) {
            Some(hello) => {
                return Some(hello);
            },
            None => {},
        }
        if decrypt {
            match open_crypto(flow, crypto.as_slice()) {
                Some(plain) => match find_client_hello_in_buf(plain.as_slice()) {
                    Some(hello) => {
                        return Some(hello);
                    },
                    None => {},
                },
                None => {},
            }
        }
    }
    find_client_hello_in_buf(flow)
}

impl FlowTable {
    /// A table without traffic.
    pub fn new() -> (table: FlowTable)
        ensures
            table@ == flows_after(Seq::empty()),
            distinct_keys(table@.udp),
    {
        let table = FlowTable { tcp: Vec::new(), udp: Vec::new() };
        assert(table@.udp =~= Seq::empty());
        table
    }

    /// Takes one more segment into the table. A table in which no two
    /// flows have the same key stays so.
    pub fn absorb(&mut self, segment: &Segment)
        ensures
            final(self)@ == absorbed(old(self)@, segment@),
            distinct_keys(old(self)@.udp) ==> distinct_keys(final(self)@.udp),
    {
        match segment {
            Segment::Other => {},
            Segment::Tcp { src_port, dst_port, payload } => {
                if *src_port == TLS_PORT || *dst_port == TLS_PORT {
                    self.tcp.extend_from_slice(payload.as_slice());
                    assert(self@.udp =~= old(self)@.udp);
                    assert(self@.tcp =~= old(self)@.tcp + payload@);
                }
            },
            Segment::Udp { key, payload } => {
                if key.src_port == TLS_PORT || key.dst_port == TLS_PORT {
                    self.add_datagram(*key, payload.as_slice());
                }
            },
        }
    }

    /// Puts the payload of a datagram behind the bytes of its flow.
    fn add_datagram(&mut self, key: FlowKey, payload: &[u8])
        ensures
            final(self)@.tcp == old(self)@.tcp,
            final(self)@.udp == with_datagram(old(self)@.udp, key, payload@),
            distinct_keys(old(self)@.udp) ==> distinct_keys(final(self)@.udp),
    {
        let ghost before = self@.udp;
        let mut i: usize = 0;
        while i < self.udp.len()
            invariant
                i <= self.udp@.len(),
                *self == *old(self),
                before == self@.udp,
                key_position_from(before, key, i as int) == key_position_from(before, key, 0),
                forall|j: int| 0 <= j < i ==> before[j].0 != key,
            decreases self.udp.len() - i,
        {
            if self.udp[i].key == key {
                let mut merged: Vec<u8> = slice_to_vec(self.udp[i].bytes.as_slice());
                merged.extend_from_slice(payload);
                assert(merged@ =~= before[i as int].1 + payload@);
                self.udp.set(i, UdpFlow { key, bytes: merged });
                proof {
                    let after = self@.udp;
                    assert(after =~= with_datagram(before, key, payload@));
                    if distinct_keys(before) {
                        assert forall|a: int, b: int| 0 <= a < b < after.len() implies after[a].0
                            != after[b].0 by {
                            assert(after[a].0 == before[a].0);
                            assert(after[b].0 == before[b].0);
                        }
                    }
                }
                return ;
            }
            i += 1;
        }
        self.udp.push(UdpFlow { key, bytes: slice_to_vec(payload) });
        proof {
            let after = self@.udp;
            assert(after =~= with_datagram(before, key, payload@));
            if distinct_keys(before) {
                assert forall|a: int, b: int| 0 <= a < b < after.len() implies after[a].0
                    != after[b].0 by {
                    if b < before.len() {
                        assert(after[a].0 == before[a].0);
                        assert(after[b].0 == before[b].0);
                    } else {
                        assert(before[a].0 != key);
                        assert(after[a].0 == before[a].0);
                        assert(after[b].0 == key);
                    }
                }
            }
        }
    }

    /// Looks for the ClientHello of the capture: in the TCP buffer first,
    /// then in the UDP flows in the order in which they were first seen.
    /// A capture without one gives `NotFound`.
    pub fn locate(&self, decrypt: bool) -> (r: Result<TlsSnapshot, CoreError>)
        ensures
            match r {
                Ok(snap) => located(self@, decrypt) == Some(snap.raw_client_hello@)
                    && snap.ja3 is None,
                Err(e) => located(self@, decrypt) is None && e == CoreError::NotFound,
            },
    {
        match find_client_hello_in_buf(self.tcp.as_slice()) {
            Some(hello) => {
                return Ok(TlsSnapshot { raw_client_hello: hello, ja3: None });
            },
            None => {},
        }
        let ghost udp = self@.udp;
        let mut i: usize = 0;
        while i < self.udp.len()
            invariant
                i <= self.udp@.len(),
                udp == self@.udp,
                client_hello_in(self@.tcp) is None,
                flows_hello_from(udp, i as int, decrypt) == flows_hello_from(udp, 0, decrypt),
            decreases self.udp.len() - i,
        {
            assert(udp[i as int].1 == self.udp@[i as int].bytes@);
            match find_in_flow(self.udp[i].bytes.as_slice(), decrypt) {
                Some(hello) => {
                    return Ok(TlsSnapshot { raw_client_hello: hello, ja3: None });
                },
                None => {},
            }
            i += 1;
        }
        Err(CoreError::NotFound)
    }
}

/// The position that `key_position_from` gives is that of the first flow
/// with the key, and the number of flows where no flow has it.
pub proof fn lemma_key_position(udp: Seq<(FlowKey, Seq<u8>)>, key: FlowKey, from: int)
    requires
        0 <= from <= udp.len(),
    ensures
        from <= key_position_from(udp, key, from) <= udp.len(),
        key_position_from(udp, key, from) < udp.len() ==> udp[key_position_from(
            udp,
            key,
            from,
        )].0 == key,
        forall|j: int| from <= j < key_position_from(udp, key, from) ==> (#[trigger] udp[j]).0 != key,
    decreases udp.len() - from,
{
    if from < udp.len() && udp[from].0 != key {
        lemma_key_position(udp, key, from + 1);
    }
}

/// One more datagram leaves the keys of the flows distinct.
pub proof fn lemma_datagram_keeps_keys_distinct(
    udp: Seq<(FlowKey, Seq<u8>)>,
    key: FlowKey,
    payload: Seq<u8>,
)
    requires
        distinct_keys(udp),
    ensures
        distinct_keys(with_datagram(udp, key, payload)),
{
    lemma_key_position(udp, key, 0);
    let after = with_datagram(udp, key, payload);
    assert forall|a: int, b: int| 0 <= a < b < after.len() implies after[a].0 != after[b].0 by {
        if b < udp.len() {
            assert(after[a].0 == udp[a].0);
            assert(after[b].0 == udp[b].0);
        } else {
            assert(udp[a].0 != key);
            assert(after[a].0 == udp[a].0);
        }
    }
}

/// Whatever the segments of a capture, no two of its flows have the same
/// key.
pub proof fn lemma_flows_have_distinct_keys(segments: Seq<SegmentModel>)
    ensures
        distinct_keys(flows_after(segments).udp),
    decreases segments.len(),
{
    if segments.len() > 0 {
        lemma_flows_have_distinct_keys(segments.drop_last());
        let before = flows_after(segments.drop_last());
        match segments.last() {
            SegmentModel::Udp { key, payload } => {
                lemma_datagram_keeps_keys_distinct(before.udp, key, payload);
            },
            _ => {},
        }
    }
}

/// The record that the search finds begins at the least position where a
/// ClientHello record begins.
pub proof fn lemma_first_record_is_least(buf: Seq<u8>, from: int)
    requires
        0 <= from,
    ensures
        match first_record_from(buf, from) {
            Some(i) => from <= i && record_at(buf, i) && forall|j: int|
                from <= j < i ==> !record_at(buf, j),
            None => forall|j: int| from <= j ==> !record_at(buf, j),
        },
    decreases buf.len() - from,
{
    if from + 9 < buf.len() && !record_at(buf, from) {
        lemma_first_record_is_least(buf, from + 1);
    }
}

} // verus!
