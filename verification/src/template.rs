//! The ClientHello template and its encoder.
//!
//! A template lists what a ClientHello holds. The encoder writes it out as
//! one TLS record, field by field and in the template's own order, so that
//! two equal templates give the same bytes.

use vstd::prelude::*;
use vstd::utf8::encode_utf8;
use crate::clock::unix_time;
use crate::error::CoreError;
use crate::grease::GreaseMode;
use crate::wire::{be16, be24, counted16, counted8, le16, le32, lemma_le32_low_bits, write_bytes,
    write_len16_be, write_len8, write_u16_be, write_u16_le, write_u24_be, write_u32_le};

verus! {

/// One extension of a ClientHello, with the fields that its encoding needs.
pub enum Extension {
    ServerName { host: String },
    SupportedVersions { versions: Vec<u16> },
    SupportedGroups { groups: Vec<u16>, grease_slots: Vec<u16> },
    SignatureAlgorithms { algs: Vec<u16> },
    /// Pairs of a group and its key.
    KeyShare { shares: Vec<(u16, Vec<u8>)> },
    Alpn { protocols: Vec<String> },
    /// That many zero bytes.
    Padding { len: usize },
    EchOuterStub { config_id: Vec<u8> },
    ApplicationSettings { protocols: Vec<String>, data: Vec<u8> },
    PskKeyExchangeModes { modes: Vec<u8> },
    /// Any other extension: its type and its bytes as they are.
    Unknown { typ: u16, bytes: Vec<u8> },
}

/// What a ClientHello is to hold. The two lists keep their order on the wire.
pub struct HelloTemplate {
    pub tls_version: u16,
    pub client_random: Option<[u8; 32]>,
    pub session_id: Option<Vec<u8>>,
    pub cipher_suites: Vec<u16>,
    pub compression_methods: Vec<u8>,
    pub extensions: Vec<Extension>,
    pub grease_mode: GreaseMode,
    pub psk_key_exchange_modes: Option<Vec<u8>>,
}

/// An encoded ClientHello.
pub struct EncodedClientHello {
    /// The TLS record.
    pub raw_bytes: Vec<u8>,
    /// The record wrapped in a capture file, where one was asked for.
    pub pcap_bytes: Option<Vec<u8>>,
}

/// The encoder of templates.
pub struct Encoder;

/// An extension as plain values.
pub ghost enum ExtensionModel {
    ServerName { host: Seq<char> },
    SupportedVersions { versions: Seq<u16> },
    SupportedGroups { groups: Seq<u16>, grease_slots: Seq<u16> },
    SignatureAlgorithms { algs: Seq<u16> },
    KeyShare { shares: Seq<(u16, Seq<u8>)> },
    Alpn { protocols: Seq<Seq<char>> },
    Padding { len: nat },
    EchOuterStub { config_id: Seq<u8> },
    ApplicationSettings { protocols: Seq<Seq<char>>, data: Seq<u8> },
    PskKeyExchangeModes { modes: Seq<u8> },
    Unknown { typ: u16, bytes: Seq<u8> },
}

/// A template as plain values.
pub ghost struct TemplateModel {
    pub tls_version: u16,
    pub client_random: Option<Seq<u8>>,
    pub session_id: Option<Seq<u8>>,
    pub cipher_suites: Seq<u16>,
    pub compression_methods: Seq<u8>,
    pub extensions: Seq<ExtensionModel>,
    pub grease_mode: GreaseMode,
    pub psk_key_exchange_modes: Option<Seq<u8>>,
}

impl View for Extension {
    type V = ExtensionModel;

    open spec fn view(&self) -> ExtensionModel {
        match *self {
            Extension::ServerName { host } => ExtensionModel::ServerName { host: host@ },
            Extension::SupportedVersions { versions } => ExtensionModel::SupportedVersions {
                versions: versions@,
            },
            Extension::SupportedGroups { groups, grease_slots } => ExtensionModel::SupportedGroups {
                groups: groups@,
                grease_slots: grease_slots@,
            },
            Extension::SignatureAlgorithms { algs } => ExtensionModel::SignatureAlgorithms {
                algs: algs@,
            },
            Extension::KeyShare { shares } => ExtensionModel::KeyShare {
                shares: shares.deep_view(),
            },
            Extension::Alpn { protocols } => ExtensionModel::Alpn {
                protocols: protocols.deep_view(),
            },
            Extension::Padding { len } => ExtensionModel::Padding { len: len as nat },
            Extension::EchOuterStub { config_id } => ExtensionModel::EchOuterStub {
                config_id: config_id@,
            },
            Extension::ApplicationSettings { protocols, data } => {
                ExtensionModel::ApplicationSettings {
                    protocols: protocols.deep_view(),
                    data: data@,
                }
            },
            Extension::PskKeyExchangeModes { modes } => ExtensionModel::PskKeyExchangeModes {
                modes: modes@,
            },
            Extension::Unknown { typ, bytes } => ExtensionModel::Unknown { typ, bytes: bytes@ },
        }
    }
}

/// The views of a list of extensions, in order.
pub open spec fn extension_views(exts: Seq<Extension>) -> Seq<ExtensionModel> {
    Seq::new(exts.len(), |i: int| exts[i]@)
}

impl View for HelloTemplate {
    type V = TemplateModel;

    open spec fn view(&self) -> TemplateModel {
        TemplateModel {
            tls_version: self.tls_version,
            client_random: match self.client_random {
                Some(r) => Some(r@),
                None => None,
            },
            session_id: match self.session_id {
                Some(s) => Some(s@),
                None => None,
            },
            cipher_suites: self.cipher_suites@,
            compression_methods: self.compression_methods@,
            extensions: extension_views(self.extensions@),
            grease_mode: self.grease_mode,
            psk_key_exchange_modes: match self.psk_key_exchange_modes {
                Some(m) => Some(m@),
                None => None,
            },
        }
    }
}

/// `n` zero bytes.
pub open spec fn zero_bytes(n: nat) -> Seq<u8> {
    Seq::new(n, |i: int| 0u8)
}

/// The values one after another, two bytes each, most significant first.
pub open spec fn u16s_wire(vals: Seq<u16>) -> Seq<u8>
    decreases vals.len(),
{
    if vals.len() == 0 {
        Seq::empty()
    } else {
        u16s_wire(vals.drop_last()) + be16(vals.last() as int)
    }
}

/// The names one after another, each in UTF-8 behind its length in one byte.
pub open spec fn names_wire(names: Seq<Seq<char>>) -> Seq<u8>
    decreases names.len(),
{
    if names.len() == 0 {
        Seq::empty()
    } else {
        names_wire(names.drop_last()) + counted8(encode_utf8(names.last()))
    }
}

/// The key shares one after another: the group in two bytes, then the key
/// behind its length in two bytes.
pub open spec fn shares_wire(shares: Seq<(u16, Seq<u8>)>) -> Seq<u8>
    decreases shares.len(),
{
    if shares.len() == 0 {
        Seq::empty()
    } else {
        shares_wire(shares.drop_last()) + be16(shares.last().0 as int) + counted16(
            shares.last().1,
        )
    }
}

impl ExtensionModel {
    /// The extension's type on the wire.
    pub open spec fn wire_type(self) -> int {
        match self {
            ExtensionModel::ServerName { .. } => 0x0000,
            ExtensionModel::SupportedVersions { .. } => 0x002b,
            ExtensionModel::SupportedGroups { .. } => 0x000a,
            ExtensionModel::SignatureAlgorithms { .. } => 0x000d,
            ExtensionModel::KeyShare { .. } => 0x0033,
            ExtensionModel::Alpn { .. } => 0x0010,
            ExtensionModel::Padding { .. } => 0x0015,
            ExtensionModel::EchOuterStub { .. } => 0xfe0d,
            ExtensionModel::ApplicationSettings { .. } => 0xff01,
            ExtensionModel::PskKeyExchangeModes { .. } => 0x002d,
            ExtensionModel::Unknown { typ, .. } => typ as int,
        }
    }

    /// The extension's payload.
    pub open spec fn wire_data(self) -> Seq<u8> {
        match self {
            ExtensionModel::ServerName { host } => counted16(
                seq![0u8] + counted16(encode_utf8(host)),
            ),
            ExtensionModel::SupportedVersions { versions } => counted8(u16s_wire(versions)),
            ExtensionModel::SupportedGroups { groups, .. } => counted16(u16s_wire(groups)),
            ExtensionModel::SignatureAlgorithms { algs } => counted16(u16s_wire(algs)),
            ExtensionModel::KeyShare { shares } => counted16(shares_wire(shares)),
            ExtensionModel::Alpn { protocols } => counted16(names_wire(protocols)),
            ExtensionModel::Padding { len } => zero_bytes(len),
            ExtensionModel::EchOuterStub { config_id } => config_id,
            ExtensionModel::ApplicationSettings { protocols, data } => counted16(
                names_wire(protocols),
            ) + data,
            ExtensionModel::PskKeyExchangeModes { modes } => counted8(modes),
            ExtensionModel::Unknown { bytes, .. } => bytes,
        }
    }

    /// The whole extension: type, then the payload behind its length.
    pub open spec fn wire(self) -> Seq<u8> {
        be16(self.wire_type()) + counted16(self.wire_data())
    }
}

/// The extensions one after another, in the order of the list.
pub open spec fn extensions_wire(exts: Seq<ExtensionModel>) -> Seq<u8>
    decreases exts.len(),
{
    if exts.len() == 0 {
        Seq::empty()
    } else {
        extensions_wire(exts.drop_last()) + exts.last().wire()
    }
}

impl TemplateModel {
    /// The bytes of the random field: the template's own. A template
    /// without a client random has none, and is not encoded.
    pub open spec fn random_wire(self) -> Seq<u8> {
        match self.client_random {
            Some(r) => r,
            None => Seq::empty(),
        }
    }

    /// The session id behind its length; an absent one counts as empty.
    pub open spec fn session_wire(self) -> Seq<u8> {
        match self.session_id {
            Some(s) => counted8(s),
            None => counted8(Seq::empty()),
        }
    }

    /// Whether the template can be encoded: it has a client random of 32
    /// bytes, and every length fits the field that carries it. That is one
    /// byte for the session id and the compression methods, and two bytes
    /// for the cipher suites, for each extension's payload, for all
    /// extensions together and for the handshake message in its record.
    pub open spec fn fits_wire(self) -> bool {
        &&& self.client_random matches Some(r) && r.len() == 32
        &&& self.session_id matches Some(s) ==> s.len() <= 255
        &&& 2 * self.cipher_suites.len() <= 65535
        &&& self.compression_methods.len() <= 255
        &&& forall|i: int|
            0 <= i < self.extensions.len() ==> (#[trigger] self.extensions[i]).wire_data().len()
                <= 65535
        &&& extensions_wire(self.extensions).len() <= 65535
        &&& self.handshake().len() <= 65535
    }

    /// The length of the handshake message, by its parts: four bytes of
    /// header, two of version, the random, the session id behind one byte,
    /// the cipher suites behind two, the compression methods behind one,
    /// the extensions behind two.
    pub open spec fn handshake_len(self) -> int {
        4 + 2 + self.random_wire().len() + 1 + (self.session_wire().len() - 1) + 2 + u16s_wire(
            self.cipher_suites,
        ).len() + 1 + self.compression_methods.len() + 2 + extensions_wire(self.extensions).len()
    }

    /// The body of the ClientHello message.
    pub open spec fn body(self) -> Seq<u8> {
        be16(0x0303) + self.random_wire() + self.session_wire() + counted16(
            u16s_wire(self.cipher_suites),
        ) + counted8(self.compression_methods) + counted16(extensions_wire(self.extensions))
    }

    /// The handshake message: type 1, the body's length in three bytes, the body.
    pub open spec fn handshake(self) -> Seq<u8> {
        seq![1u8] + be24(self.body().len() as int) + self.body()
    }

    /// The TLS record: type 22, version `0x0303`, then the handshake
    /// message behind its length.
    pub open spec fn record(self) -> Seq<u8> {
        seq![22u8] + be16(0x0303) + counted16(self.handshake())
    }
}

/// The global header of a capture file: magic `0xd4c3b2a1`, version 2.4,
/// time zone and accuracy 0, snap length 65535, link type 1. All numbers
/// stand least significant byte first.
pub open spec fn capture_global_header() -> Seq<u8> {
    le32(0xd4c3b2a1) + le16(2) + le16(4) + le32(0) + le32(0) + le32(65535) + le32(1)
}

/// The header of one packet in a capture file: the time stamp, then the
/// packet's length twice, each in four bytes, least significant first.
pub open spec fn capture_record_header(len: int, sec: u32, usec: u32) -> Seq<u8> {
    le32(sec as int) + le32(usec as int) + le32(len) + le32(len)
}

/// A capture file of one packet: the global header, the packet's header,
/// the packet.
pub open spec fn capture_file(packet: Seq<u8>, sec: u32, usec: u32) -> Seq<u8> {
    capture_global_header() + capture_record_header(packet.len() as int, sec, usec) + packet
}

/// A capture file of one packet, stamped with a reading of the clock: the
/// seconds since the Unix epoch, cut to their low 32 bits, and the
/// microseconds.
pub open spec fn stamped_capture(packet: Seq<u8>, secs: u64, micros: u32) -> Seq<u8> {
    capture_file(packet, (secs % 0x1_0000_0000) as u32, micros)
}

/// Appends `body` behind its length in one byte.
fn put_counted8(out: &mut Vec<u8>, body: &[u8])
    ensures
        final(out)@ == old(out)@ + counted8(body@),
{
    write_len8(out, body.len());
    write_bytes(out, body);
    assert(out@ =~= old(out)@ + counted8(body@));
}

/// Appends `body` behind its length in two bytes.
fn put_counted16(out: &mut Vec<u8>, body: &[u8])
    ensures
        final(out)@ == old(out)@ + counted16(body@),
{
    write_len16_be(out, body.len());
    write_bytes(out, body);
    assert(out@ =~= old(out)@ + counted16(body@));
}

/// `n` zero bytes.
fn zeros(n: usize) -> (out: Vec<u8>)
    ensures
        out@ == zero_bytes(n as nat),
{
    let mut out: Vec<u8> = Vec::new();
    let mut i: usize = 0;
    while i < n
        invariant
            i <= n,
            out@ == zero_bytes(i as nat),
        decreases n - i,
    {
        out.push(0u8);
        i += 1;
        assert(out@ =~= zero_bytes(i as nat));
    }
    out
}

/// Encodes a list of 16-bit values.
fn u16s_to_wire(vals: &Vec<u16>) -> (out: Vec<u8>)
    ensures
        out@ == u16s_wire(vals@),
{
    let mut out: Vec<u8> = Vec::new();
    let mut i: usize = 0;
    while i < vals.len()
        invariant
            i <= vals.len(),
            out@ == u16s_wire(vals@.take(i as int)),
        decreases vals.len() - i,
    {
        write_u16_be(&mut out, vals[i]);
        proof {
            let next = vals@.take(i + 1);
            assert(next.drop_last() =~= vals@.take(i as int));
        }
        i += 1;
    }
    assert(vals@.take(i as int) =~= vals@);
    out
}

/// Encodes a list of names, each behind its length in one byte.
fn names_to_wire(names: &Vec<String>) -> (out: Vec<u8>)
    ensures
        out@ == names_wire(names.deep_view()),
{
    let ghost all = names.deep_view();
    let mut out: Vec<u8> = Vec::new();
    let mut i: usize = 0;
    while i < names.len()
        invariant
            i <= names.len(),
            all == names.deep_view(),
            all.len() == names.len(),
            out@ == names_wire(all.take(i as int)),
        decreases names.len() - i,
    {
        put_counted8(&mut out, names[i].as_str().as_bytes());
        proof {
            let next = all.take(i + 1);
            assert(next.drop_last() =~= all.take(i as int));
            assert(next.last() == names[i as int]@);
        }
        i += 1;
    }
    assert(all.take(i as int) =~= all);
    out
}

/// Encodes a list of key shares.
fn shares_to_wire(shares: &Vec<(u16, Vec<u8>)>) -> (out: Vec<u8>)
    ensures
        out@ == shares_wire(shares.deep_view()),
{
    let ghost all = shares.deep_view();
    let mut out: Vec<u8> = Vec::new();
    let mut i: usize = 0;
    while i < shares.len()
        invariant
            i <= shares.len(),
            all == shares.deep_view(),
            all.len() == shares.len(),
            out@ == shares_wire(all.take(i as int)),
        decreases shares.len() - i,
    {
        write_u16_be(&mut out, shares[i].0);
        put_counted16(&mut out, shares[i].1.as_slice());
        proof {
            let next = all.take(i + 1);
            assert(next.drop_last() =~= all.take(i as int));
            assert(next.last() == (shares[i as int].0, shares[i as int].1@));
        }
        i += 1;
    }
    assert(all.take(i as int) =~= all);
    out
}

/// The payload of one extension.
fn extension_data(ext: &Extension) -> (data: Vec<u8>)
    ensures
        data@ == ext@.wire_data(),
{
    let mut data: Vec<u8> = Vec::new();
    match ext {
        Extension::ServerName { host } => {
            let mut names: Vec<u8> = Vec::new();
            names.push(0u8);
            put_counted16(&mut names, host.as_str().as_bytes());
            put_counted16(&mut data, names.as_slice());
            assert(names@ =~= seq![0u8] + counted16(encode_utf8(host@)));
        },
        Extension::SupportedVersions { versions } => {
            let list: Vec<u8> = u16s_to_wire(versions);
            put_counted8(&mut data, list.as_slice());
        },
        Extension::SupportedGroups { groups, .. } => {
            let list: Vec<u8> = u16s_to_wire(groups);
            put_counted16(&mut data, list.as_slice());
        },
        Extension::SignatureAlgorithms { algs } => {
            let list: Vec<u8> = u16s_to_wire(algs);
            put_counted16(&mut data, list.as_slice());
        },
        Extension::KeyShare { shares } => {
            let list: Vec<u8> = shares_to_wire(shares);
            put_counted16(&mut data, list.as_slice());
        },
        Extension::Alpn { protocols } => {
            let protos: Vec<u8> = names_to_wire(protocols);
            put_counted16(&mut data, protos.as_slice());
        },
        Extension::Padding { len } => {
            data = zeros(*len);
        },
        Extension::EchOuterStub { config_id } => {
            write_bytes(&mut data, config_id.as_slice());
        },
        Extension::ApplicationSettings { protocols, data: settings } => {
            let protos: Vec<u8> = names_to_wire(protocols);
            put_counted16(&mut data, protos.as_slice());
            write_bytes(&mut data, settings.as_slice());
        },
        Extension::PskKeyExchangeModes { modes } => {
            put_counted8(&mut data, modes.as_slice());
        },
        Extension::Unknown { bytes, .. } => {
            write_bytes(&mut data, bytes.as_slice());
        },
    }
    assert(data@ =~= ext@.wire_data());
    data
}

/// The extension's type on the wire.
fn extension_type(ext: &Extension) -> (typ: u16)
    ensures
        typ as int == ext@.wire_type(),
{
    match ext {
        Extension::ServerName { .. } => 0x0000,
        Extension::SupportedVersions { .. } => 0x002b,
        Extension::SupportedGroups { .. } => 0x000a,
        Extension::SignatureAlgorithms { .. } => 0x000d,
        Extension::KeyShare { .. } => 0x0033,
        Extension::Alpn { .. } => 0x0010,
        Extension::Padding { .. } => 0x0015,
        Extension::EchOuterStub { .. } => 0xfe0d,
        Extension::ApplicationSettings { .. } => 0xff01,
        Extension::PskKeyExchangeModes { .. } => 0x002d,
        Extension::Unknown { typ, .. } => *typ,
    }
}

/// Encodes the extensions in the order of the list.
fn extensions_to_wire(exts: &Vec<Extension>) -> (out: Vec<u8>)
    ensures
        out@ == extensions_wire(extension_views(exts@)),
{
    let ghost all = extension_views(exts@);
    let mut out: Vec<u8> = Vec::new();
    let mut i: usize = 0;
    while i < exts.len()
        invariant
            i <= exts.len(),
            all == extension_views(exts@),
            out@ == extensions_wire(all.take(i as int)),
        decreases exts.len() - i,
    {
        let typ: u16 = extension_type(&exts[i]);
        let data: Vec<u8> = extension_data(&exts[i]);
        write_u16_be(&mut out, typ);
        put_counted16(&mut out, data.as_slice());
        proof {
            let next = all.take(i + 1);
            assert(next.drop_last() =~= all.take(i as int));
            assert(next.last() == exts[i as int]@);
            assert(out@ =~= extensions_wire(all.take(i as int)) + exts[i as int]@.wire());
        }
        i += 1;
    }
    assert(all.take(i as int) =~= all);
    out
}

/// The global header of a capture file.
fn global_header_bytes() -> (out: Vec<u8>)
    ensures
        out@ == capture_global_header(),
{
    let mut out: Vec<u8> = Vec::new();
    write_u32_le(&mut out, 0xd4c3b2a1);
    write_u16_le(&mut out, 2);
    write_u16_le(&mut out, 4);
    assert(out@ =~= le32(0xd4c3b2a1) + le16(2) + le16(4));
    write_u32_le(&mut out, 0);
    write_u32_le(&mut out, 0);
    assert(out@ =~= le32(0xd4c3b2a1) + le16(2) + le16(4) + le32(0) + le32(0));
    write_u32_le(&mut out, 65535);
    write_u32_le(&mut out, 1);
    assert(out@ =~= capture_global_header());
    out
}

/// The header of one packet of `len` bytes in a capture file.
fn record_header_bytes(len: usize, sec: u32, usec: u32) -> (out: Vec<u8>)
    ensures
        out@ == capture_record_header(len as int, sec, usec),
{
    let mut out: Vec<u8> = Vec::new();
    write_u32_le(&mut out, sec);
    write_u32_le(&mut out, usec);
    let low: u32 = ((len as u64) % 4294967296u64) as u32;
    proof {
        lemma_le32_low_bits(len as int);
    }
    write_u32_le(&mut out, low);
    write_u32_le(&mut out, low);
    assert(out@ =~= capture_record_header(len as int, sec, usec));
    out
}

/// Wraps one packet in a capture file with the given time stamp.
pub fn build_capture_file(packet: &[u8], sec: u32, usec: u32) -> (out: Vec<u8>)
    ensures
        out@ == capture_file(packet@, sec, usec),
{
    let mut out: Vec<u8> = global_header_bytes();
    let record: Vec<u8> = record_header_bytes(packet.len(), sec, usec);
    write_bytes(&mut out, record.as_slice());
    write_bytes(&mut out, packet);
    out
}

/// The parts of the handshake message add up to its length.
pub proof fn lemma_handshake_len(t: TemplateModel)
    ensures
        t.handshake().len() == t.handshake_len(),
{
    let body = t.body();
    let p1 = be16(0x0303) + t.random_wire();
    let p2 = p1 + t.session_wire();
    let p3 = p2 + counted16(u16s_wire(t.cipher_suites));
    let p4 = p3 + counted8(t.compression_methods);
    assert(body == p4 + counted16(extensions_wire(t.extensions)));
    assert(t.handshake() == (seq![1u8] + be24(body.len() as int)) + body);
}

impl HelloTemplate {
    /// Tells whether the template can be encoded: whether it has a client
    /// random and every length fits the field that carries it.
    pub fn fits_wire(&self) -> (fits: bool)
        ensures
            fits == self@.fits_wire(),
    {
        if self.client_random.is_none() {
            return false;
        }
        let sid_len: usize = match &self.session_id {
            Some(sid) => sid.len(),
            None => 0,
        };
        if sid_len > 255 || self.cipher_suites.len() > 32767 || self.compression_methods.len()
            > 255 {
            return false;
        }
        let ghost all = extension_views(self.extensions@);
        let mut i: usize = 0;
        while i < self.extensions.len()
            invariant
                i <= self.extensions.len(),
                all == extension_views(self.extensions@),
                forall|j: int| 0 <= j < i ==> (#[trigger] all[j]).wire_data().len() <= 65535,
            decreases self.extensions.len() - i,
        {
            let data: Vec<u8> = extension_data(&self.extensions[i]);
            if data.len() > 65535 {
                assert(all[i as int].wire_data().len() > 65535);
                return false;
            }
            i += 1;
        }
        let wire: Vec<u8> = extensions_to_wire(&self.extensions);
        if wire.len() > 65535 {
            return false;
        }
        let suites: Vec<u8> = u16s_to_wire(&self.cipher_suites);
        if suites.len() > 65535 {
            return false;
        }
        proof {
            lemma_handshake_len(self@);
        }
        let total: usize = 4 + 2 + 32 + 1 + sid_len + 2 + suites.len() + 1
            + self.compression_methods.len() + 2 + wire.len();
        total <= 65535
    }
}

impl Encoder {
    /// Encodes the template as one TLS record and, where a reading of the
    /// clock is given, wraps the record in a capture file stamped with it:
    /// the seconds since the Unix epoch, cut to their low 32 bits, and the
    /// microseconds. A template without a client random, or with a length
    /// that does not fit its field, is malformed and gives no record.
    pub fn encode_at(t: &HelloTemplate, stamp: Option<(u64, u32)>) -> (r: Result<
        EncodedClientHello,
        CoreError,
    >)
        ensures
            match r {
                Ok(enc) => {
                    &&& t@.fits_wire()
                    &&& enc.raw_bytes@ == t@.record()
                    &&& match stamp {
                        Some((secs, micros)) => enc.pcap_bytes matches Some(p) && p@
                            == stamped_capture(t@.record(), secs, micros),
                        None => enc.pcap_bytes is None,
                    }
                },
                Err(e) => !t@.fits_wire() && e == CoreError::MalformedInput,
            },
    {
        if !t.fits_wire() {
            return Err(CoreError::MalformedInput);
        }
        let mut body: Vec<u8> = Vec::new();
        write_u16_be(&mut body, 0x0303);
        match &t.client_random {
            Some(r) => {
                write_bytes(&mut body, r.as_slice());
            },
            None => {},
        }
        match &t.session_id {
            Some(sid) => {
                put_counted8(&mut body, sid.as_slice());
            },
            None => {
                let empty: Vec<u8> = Vec::new();
                put_counted8(&mut body, empty.as_slice());
            },
        }
        let suites: Vec<u8> = u16s_to_wire(&t.cipher_suites);
        put_counted16(&mut body, suites.as_slice());
        put_counted8(&mut body, t.compression_methods.as_slice());
        let exts: Vec<u8> = extensions_to_wire(&t.extensions);
        put_counted16(&mut body, exts.as_slice());
        assert(body@ =~= t@.body());

        let mut handshake: Vec<u8> = Vec::new();
        handshake.push(0x01u8);
        write_u24_be(&mut handshake, body.len());
        write_bytes(&mut handshake, body.as_slice());
        assert(handshake@ =~= t@.handshake());

        let mut record: Vec<u8> = Vec::new();
        record.push(22u8);
        write_u16_be(&mut record, 0x0303);
        put_counted16(&mut record, handshake.as_slice());
        assert(record@ =~= t@.record());

        let pcap_bytes: Option<Vec<u8>> = match stamp {
            Some((secs, micros)) => {
                let sec: u32 = (secs % 0x1_0000_0000u64) as u32;
                Some(build_capture_file(record.as_slice(), sec, micros))
            },
            None => None,
        };
        Ok(EncodedClientHello { raw_bytes: record, pcap_bytes })
    }

    /// Encodes the template as one TLS record and, where `emit_pcap` is set,
    /// wraps the record in a capture file stamped with the current time, as
    /// `encode_at` does with a reading of the clock; the microseconds of the
    /// stamp are below one million.
    ///
    /// A template without a client random, or with a length that does not
    /// fit its field, is malformed and gives no record. Every other template
    /// is encoded; only a clock that cannot give the time makes the call
    /// fail then, and only where a capture file was asked for.
    pub fn encode_client_hello(t: &HelloTemplate, emit_pcap: bool) -> (r: Result<
        EncodedClientHello,
        CoreError,
    >)
        ensures
            t@.fits_wire() && !emit_pcap ==> r is Ok,
            match r {
                Ok(enc) => {
                    &&& t@.fits_wire()
                    &&& enc.raw_bytes@ == t@.record()
                    &&& emit_pcap ==> (enc.pcap_bytes matches Some(p) && exists|
                        secs: u64,
                        micros: u32,
                    |
                        micros < 1_000_000 && p@ == stamped_capture(t@.record(), secs, micros))
                    &&& !emit_pcap ==> enc.pcap_bytes is None
                },
                Err(e) => if t@.fits_wire() {
                    emit_pcap && e == CoreError::Io
                } else {
                    e == CoreError::MalformedInput
                },
            },
    {
        if !t.fits_wire() {
            return Err(CoreError::MalformedInput);
        }
        if emit_pcap {
            match unix_time() {
                Some(reading) => Encoder::encode_at(t, Some(reading)),
                None => Err(CoreError::Io),
            }
        } else {
            Encoder::encode_at(t, None)
        }
    }
}

/// Equal templates have equal records: the record depends on nothing but
/// the template's content.
pub proof fn lemma_encoding_is_deterministic(a: HelloTemplate, b: HelloTemplate)
    requires
        a@ == b@,
    ensures
        a@.record() == b@.record(),
{
}

/// The extensions of two lists joined stand on the wire as those of the
/// first list followed by those of the second: the encoding keeps the
/// order of the list.
pub proof fn lemma_extensions_keep_order(a: Seq<ExtensionModel>, b: Seq<ExtensionModel>)
    ensures
        extensions_wire(a + b) == extensions_wire(a) + extensions_wire(b),
    decreases b.len(),
{
    if b.len() == 0 {
        assert(a + b =~= a);
    } else {
        lemma_extensions_keep_order(a, b.drop_last());
        assert((a + b).drop_last() =~= a + b.drop_last());
        assert((a + b).last() == b.last());
    }
}

} // verus!
