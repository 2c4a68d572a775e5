//! The self-test: what the encoder writes, the fingerprint reader reads.
//!
//! A template that fits its length fields encodes to a record that the
//! reader accepts, and the reader finds in it the template's cipher suites
//! and extension types, in order and without GREASE. So the fingerprint of
//! a capture can be held against that of a template.

use vstd::prelude::*;
use crate::digest::{hex_text, md5_digest};
use crate::flows::TlsSnapshot;
use crate::grease::is_grease_value;
use crate::ja3::{compression_at, extension_fits, extension_formats, extension_groups,
    extension_types, extensions_at, extensions_end, formats_in, groups_in, has_extensions,
    hello_well_framed, ja3_digest, ja3_from_raw, ja3_text, kept_u16s, parsed_hello, suite_pairs,
    suites_at, suites_len, walk_end, ParsedHello};
use crate::template::{extensions_wire, lemma_extensions_keep_order, u16s_wire, Encoder,
    ExtensionModel, HelloTemplate, TemplateModel};
use crate::wire::{be16, be24, counted16, counted8, read_be16};

verus! {

/// The values without those that are GREASE, in order.
pub open spec fn without_grease(vals: Seq<u16>) -> Seq<u16>
    decreases vals.len(),
{
    if vals.len() == 0 {
        Seq::empty()
    } else {
        without_grease(vals.drop_last()) + if is_grease_value(vals.last() as int) {
            Seq::empty()
        } else {
            seq![vals.last()]
        }
    }
}

/// The types of the extensions as they stand on the wire, in order.
pub open spec fn wire_types(exts: Seq<ExtensionModel>) -> Seq<u16> {
    Seq::new(exts.len(), |i: int| exts[i].wire_type() as u16)
}

/// The named groups that the reader takes from one extension: those of
/// its payload where its type is `0x000a`, none otherwise.
pub open spec fn groups_of(ext: ExtensionModel) -> Seq<u16> {
    if ext.wire_type() == 0x000a {
        groups_in(ext.wire_data(), 0, ext.wire_data().len() as int)
    } else {
        Seq::empty()
    }
}

/// The point formats that the reader takes from one extension: those of
/// its payload where its type is `0x000b`, none otherwise.
pub open spec fn formats_of(ext: ExtensionModel) -> Seq<u8> {
    if ext.wire_type() == 0x000b {
        formats_in(ext.wire_data(), 0, ext.wire_data().len() as int)
    } else {
        Seq::empty()
    }
}

/// The named groups of the extensions from the `k`-th on, in order.
pub open spec fn groups_from(exts: Seq<ExtensionModel>, k: int) -> Seq<u16>
    decreases exts.len() - k,
{
    if k < 0 || k >= exts.len() {
        Seq::empty()
    } else {
        groups_of(exts[k]) + groups_from(exts, k + 1)
    }
}

/// The point formats of the extensions from the `k`-th on, in order.
pub open spec fn formats_from(exts: Seq<ExtensionModel>, k: int) -> Seq<u8>
    decreases exts.len() - k,
{
    if k < 0 || k >= exts.len() {
        Seq::empty()
    } else {
        formats_of(exts[k]) + formats_from(exts, k + 1)
    }
}

/// What the reader finds in the record of a template: the legacy version
/// `0x0303`, the cipher suites and the extension types without GREASE, and
/// the named groups and point formats of the extensions that carry them.
pub open spec fn fingerprint_view(t: TemplateModel) -> ParsedHello {
    ParsedHello {
        version: 0x0303,
        cipher_suites: without_grease(t.cipher_suites),
        extensions: without_grease(wire_types(t.extensions)),
        supported_groups: groups_from(t.extensions, 0),
        ec_point_formats: formats_from(t.extensions, 0),
    }
}

/// Whether `part` stands in `raw` at `at`.
#[verifier::opaque]
pub open spec fn stands_at(raw: Seq<u8>, at: int, part: Seq<u8>) -> bool {
    0 <= at && at + part.len() <= raw.len() && raw.subrange(at, at + part.len()) == part
}

/// Both parts of a concatenation stand in it.
proof fn lemma_parts_stand(a: Seq<u8>, b: Seq<u8>)
    ensures
        stands_at(a + b, 0, a),
        stands_at(a + b, a.len() as int, b),
{
    reveal(stands_at);
    assert((a + b).subrange(0, a.len() as int) =~= a);
    assert((a + b).subrange(a.len() as int, (a.len() + b.len()) as int) =~= b);
}

/// What stands in a part stands in the whole.
proof fn lemma_stands_within(raw: Seq<u8>, at: int, part: Seq<u8>, inner_at: int, inner: Seq<u8>)
    requires
        stands_at(raw, at, part),
        stands_at(part, inner_at, inner),
    ensures
        stands_at(raw, at + inner_at, inner),
{
    reveal(stands_at);
    assert(raw.subrange(at + inner_at, at + inner_at + inner.len()) =~= raw.subrange(
        at,
        at + part.len(),
    ).subrange(inner_at, inner_at + inner.len()));
}

/// The bytes of what stands in `raw` are bytes of `raw`.
proof fn lemma_stands_bytes(raw: Seq<u8>, at: int, part: Seq<u8>, j: int)
    requires
        stands_at(raw, at, part),
        0 <= j < part.len(),
    ensures
        raw[at + j] == part[j],
        0 <= at,
        at + part.len() <= raw.len(),
{
    reveal(stands_at);
    assert(raw.subrange(at, at + part.len())[j] == raw[at + j]);
}

/// Filtering GREASE out of two lists joined is filtering each.
pub proof fn lemma_without_grease_add(a: Seq<u16>, b: Seq<u16>)
    ensures
        without_grease(a + b) == without_grease(a) + without_grease(b),
    decreases b.len(),
{
    if b.len() == 0 {
        assert(a + b =~= a);
        assert(without_grease(a) + without_grease(b) =~= without_grease(a));
    } else {
        lemma_without_grease_add(a, b.drop_last());
        assert((a + b).drop_last() =~= a + b.drop_last());
        assert((a + b).last() == b.last());
        let tail = if is_grease_value(b.last() as int) {
            Seq::<u16>::empty()
        } else {
            seq![b.last()]
        };
        assert((without_grease(a) + without_grease(b.drop_last())) + tail =~= without_grease(a) + (
        without_grease(b.drop_last()) + tail));
    }
}

/// A list of 16-bit values takes two bytes for each value on the wire, the
/// high byte first.
proof fn lemma_u16s_wire_bytes(vals: Seq<u16>)
    ensures
        u16s_wire(vals).len() == 2 * vals.len(),
        forall|i: int|
            0 <= i < vals.len() ==> read_be16(u16s_wire(vals), 2 * i) == #[trigger] vals[i] as int,
    decreases vals.len(),
{
    if vals.len() > 0 {
        let head = vals.drop_last();
        lemma_u16s_wire_bytes(head);
        let w = u16s_wire(vals);
        assert(w == u16s_wire(head) + be16(vals.last() as int));
        assert forall|i: int| 0 <= i < vals.len() implies read_be16(w, 2 * i)
            == #[trigger] vals[i] as int by {
            if i < head.len() {
                assert(head[i] == vals[i]);
                assert(w[2 * i] == u16s_wire(head)[2 * i]);
                assert(w[2 * i + 1] == u16s_wire(head)[2 * i + 1]);
            } else {
                let v = vals.last() as int;
                assert(w[2 * i] == be16(v)[0]);
                assert(w[2 * i + 1] == be16(v)[1]);
            }
        }
    }
}

/// Where a list of 16-bit values stands on the wire, the reader keeps
/// those of its values that are not GREASE.
proof fn lemma_kept_of_wire(raw: Seq<u8>, from: int, vals: Seq<u16>, k: nat)
    requires
        stands_at(raw, from, u16s_wire(vals)),
        k <= vals.len(),
    ensures
        kept_u16s(raw, from, k) == without_grease(vals.take(k as int)),
    decreases k,
{
    if k == 0 {
        assert(vals.take(0) =~= Seq::<u16>::empty());
    } else {
        lemma_kept_of_wire(raw, from, vals, (k - 1) as nat);
        lemma_u16s_wire_bytes(vals);
        let w = u16s_wire(vals);
        let at = 2 * (k - 1);
        lemma_stands_bytes(raw, from, w, at);
        lemma_stands_bytes(raw, from, w, at + 1);
        assert(read_be16(raw, from + at) == read_be16(w, at));
        assert(read_be16(w, at) == vals[k - 1] as int);
        assert(vals.take(k as int).drop_last() =~= vals.take(k - 1));
        assert(vals.take(k as int).last() == vals[k - 1]);
    }
}

/// The reader keeps the same values from a window as from the bytes that
/// stand in it.
proof fn lemma_kept_in_window(raw: Seq<u8>, at: int, part: Seq<u8>, from: int, k: nat)
    requires
        stands_at(raw, at, part),
        0 <= from,
        from + 2 * k <= part.len(),
    ensures
        kept_u16s(raw, at + from, k) == kept_u16s(part, from, k),
    decreases k,
{
    if k > 0 {
        lemma_kept_in_window(raw, at, part, from, (k - 1) as nat);
        lemma_stands_bytes(raw, at, part, from + 2 * (k - 1));
        lemma_stands_bytes(raw, at, part, from + 2 * (k - 1) + 1);
    }
}

/// The reader takes the same groups and formats from a payload in the
/// record as from the payload alone.
proof fn lemma_payload_in_window(raw: Seq<u8>, at: int, data: Seq<u8>)
    requires
        stands_at(raw, at, data),
    ensures
        groups_in(raw, at, data.len() as int) == groups_in(data, 0, data.len() as int),
        formats_in(raw, at, data.len() as int) == formats_in(data, 0, data.len() as int),
{
    let len = data.len() as int;
    if len >= 1 {
        lemma_stands_bytes(raw, at, data, 0);
        let list_len = data[0] as int;
        let count = if list_len < len - 1 {
            list_len
        } else {
            len - 1
        };
        let seen = raw.subrange(at + 1, at + 1 + count);
        let held = data.subrange(1, 1 + count);
        assert forall|j: int| 0 <= j < count implies #[trigger] seen[j] == held[j] by {
            lemma_stands_bytes(raw, at, data, 1 + j);
        }
        assert(seen =~= held);
    }
    if len >= 2 {
        lemma_stands_bytes(raw, at, data, 1);
        let list_len = read_be16(data, 0);
        let room = if list_len < len - 2 {
            list_len
        } else {
            len - 2
        };
        lemma_kept_in_window(raw, at, data, 2, (room / 2) as nat);
    }
}

/// The payload of a supported_groups extension gives the reader its
/// groups without GREASE.
pub proof fn lemma_groups_of_supported_groups(groups: Seq<u16>, grease_slots: Seq<u16>)
    requires
        2 * groups.len() + 2 <= 65535,
    ensures
        groups_of(ExtensionModel::SupportedGroups { groups, grease_slots }) == without_grease(
            groups,
        ),
{
    let list = u16s_wire(groups);
    let data = counted16(list);
    lemma_u16s_wire_bytes(groups);
    lemma_parts_stand(be16(list.len() as int), list);
    lemma_stands_bytes(data, 0, be16(list.len() as int), 0);
    lemma_stands_bytes(data, 0, be16(list.len() as int), 1);
    assert(read_be16(data, 0) == 2 * groups.len());
    lemma_kept_of_wire(data, 2, groups, groups.len());
    assert(groups.take(groups.len() as int) =~= groups);
}

/// The extensions on the wire are those before the `k`-th, the `k`-th,
/// and those behind it.
proof fn lemma_extensions_wire_split(exts: Seq<ExtensionModel>, k: int)
    requires
        0 <= k < exts.len(),
    ensures
        extensions_wire(exts) == extensions_wire(exts.take(k)) + exts[k].wire() + extensions_wire(
            exts.skip(k + 1),
        ),
        extensions_wire(exts.take(k + 1)) == extensions_wire(exts.take(k)) + exts[k].wire(),
{
    let upto = exts.take(k + 1);
    assert(upto.drop_last() =~= exts.take(k));
    assert(upto.last() == exts[k]);
    assert(exts =~= upto + exts.skip(k + 1));
    lemma_extensions_keep_order(upto, exts.skip(k + 1));
}

/// The header of an extension gives back its type and the length of its
/// payload.
proof fn lemma_extension_header(ext: ExtensionModel)
    requires
        ext.wire_data().len() <= 65535,
    ensures
        ext.wire().len() == 4 + ext.wire_data().len(),
        read_be16(ext.wire(), 0) == ext.wire_type(),
        read_be16(ext.wire(), 2) == ext.wire_data().len(),
        0 <= ext.wire_type() < 65536,
{
    let w = ext.wire();
    let typ = ext.wire_type();
    let len = ext.wire_data().len() as int;
    assert(w == be16(typ) + (be16(len) + ext.wire_data()));
    assert(w[0] == be16(typ)[0]);
    assert(w[1] == be16(typ)[1]);
    assert(w[2] == be16(len)[0]);
    assert(w[3] == be16(len)[1]);
}

/// Where the extensions of a template stand on the wire, the reader's
/// walk from the `k`-th extension on finds the types of the extensions
/// from the `k`-th on, without GREASE.
proof fn lemma_walk_of_wire(raw: Seq<u8>, start: int, exts: Seq<ExtensionModel>, k: int)
    requires
        stands_at(raw, start, extensions_wire(exts)),
        0 <= k <= exts.len(),
        forall|i: int| 0 <= i < exts.len() ==> (#[trigger] exts[i]).wire_data().len() <= 65535,
    ensures
        extension_types(
            raw,
            start + extensions_wire(exts.take(k)).len(),
            start + extensions_wire(exts).len(),
        ) == without_grease(wire_types(exts.skip(k))),
        extension_groups(
            raw,
            start + extensions_wire(exts.take(k)).len(),
            start + extensions_wire(exts).len(),
        ) == groups_from(exts, k),
        extension_formats(
            raw,
            start + extensions_wire(exts.take(k)).len(),
            start + extensions_wire(exts).len(),
        ) == formats_from(exts, k),
        walk_end(
            raw,
            start + extensions_wire(exts.take(k)).len(),
            start + extensions_wire(exts).len(),
        ) == start + extensions_wire(exts).len(),
    decreases exts.len() - k,
{
    let all = extensions_wire(exts);
    let end = start + all.len();
    let off = extensions_wire(exts.take(k)).len() as int;
    let at = start + off;
    if k == exts.len() {
        assert(exts.take(k) =~= exts);
        assert(wire_types(exts.skip(k)) =~= Seq::<u16>::empty());
        assert(!extension_fits(raw, at, end));
    } else {
        let ext = exts[k];
        let w = ext.wire();
        lemma_extensions_wire_split(exts, k);
        lemma_extension_header(ext);
        let before = extensions_wire(exts.take(k));
        let behind = extensions_wire(exts.skip(k + 1));
        assert(all == (before + w) + behind);
        lemma_parts_stand(before + w, behind);
        lemma_parts_stand(before, w);
        lemma_stands_within(all, 0, before + w, off, w);
        lemma_stands_within(raw, start, all, off, w);
        lemma_stands_bytes(raw, at, w, 0);
        lemma_stands_bytes(raw, at, w, 1);
        lemma_stands_bytes(raw, at, w, 2);
        lemma_stands_bytes(raw, at, w, 3);
        let typ = ext.wire_type();
        let len = ext.wire_data().len() as int;
        assert(read_be16(raw, at) == typ);
        assert(read_be16(raw, at + 2) == len);
        assert(extension_fits(raw, at, end));
        assert(extensions_wire(exts.take(k + 1)).len() == off + 4 + len);
        lemma_walk_of_wire(raw, start, exts, k + 1);
        let data = ext.wire_data();
        assert(w == (be16(typ) + be16(len)) + data);
        lemma_parts_stand(be16(typ) + be16(len), data);
        lemma_stands_within(raw, at, w, 4, data);
        lemma_payload_in_window(raw, at + 4, data);
        let here = seq![typ as u16];
        let rest = wire_types(exts.skip(k + 1));
        assert(wire_types(exts.skip(k)) =~= here + rest);
        lemma_without_grease_add(here, rest);
        assert(here.drop_last() =~= Seq::<u16>::empty());
        assert(without_grease(here.drop_last()) =~= Seq::<u16>::empty());
        assert(without_grease(here) =~= if is_grease_value(typ) {
            Seq::<u16>::empty()
        } else {
            here
        });
    }
}

/// Where the parts of the ClientHello body stand in the body.
proof fn lemma_body_layout(t: TemplateModel)
    requires
        t.fits_wire(),
    ensures
        ({
            let body = t.body();
            let s = t.session_wire().len() - 1;
            let n = t.cipher_suites.len() as int;
            let m = t.compression_methods.len() as int;
            let ex = extensions_wire(t.extensions);
            &&& 0 <= s <= 255
            &&& body.len() == 35 + s + 2 + 2 * n + 1 + m + 2 + ex.len()
            &&& stands_at(body, 0, be16(0x0303))
            &&& body[34] == s
            &&& stands_at(body, 35 + s, be16(2 * n))
            &&& stands_at(body, 35 + s + 2, u16s_wire(t.cipher_suites))
            &&& body[35 + s + 2 + 2 * n] == m
            &&& stands_at(body, 35 + s + 2 + 2 * n + 1 + m, be16(ex.len() as int))
            &&& stands_at(body, 35 + s + 2 + 2 * n + 1 + m + 2, ex)
        }),
{
    let body = t.body();
    let version = be16(0x0303);
    let random = t.random_wire();
    let session = t.session_wire();
    let suites = u16s_wire(t.cipher_suites);
    let suite_block = counted16(suites);
    let methods = counted8(t.compression_methods);
    let ex = extensions_wire(t.extensions);
    let ext_block = counted16(ex);
    lemma_u16s_wire_bytes(t.cipher_suites);
    assert(random.len() == 32);
    let p1 = version + random;
    let p2 = p1 + session;
    let p3 = p2 + suite_block;
    let p4 = p3 + methods;
    assert(body == p4 + ext_block);
    lemma_parts_stand(p4, ext_block);
    lemma_parts_stand(p3, methods);
    lemma_parts_stand(p2, suite_block);
    lemma_parts_stand(p1, session);
    lemma_parts_stand(version, random);
    lemma_parts_stand(be16(suites.len() as int), suites);
    lemma_parts_stand(be16(ex.len() as int), ex);
    // the extension block
    lemma_stands_within(body, p4.len() as int, ext_block, 0, be16(ex.len() as int));
    lemma_stands_within(body, p4.len() as int, ext_block, 2, ex);
    // the compression methods
    lemma_stands_within(body, 0, p4, p3.len() as int, methods);
    lemma_stands_bytes(body, p3.len() as int, methods, 0);
    // the cipher suites
    lemma_stands_within(p4, 0, p3, p2.len() as int, suite_block);
    lemma_stands_within(body, 0, p4, p2.len() as int, suite_block);
    lemma_stands_within(body, p2.len() as int, suite_block, 0, be16(suites.len() as int));
    lemma_stands_within(body, p2.len() as int, suite_block, 2, suites);
    // the session id
    lemma_stands_within(p3, 0, p2, p1.len() as int, session);
    lemma_stands_within(p4, 0, p3, p1.len() as int, session);
    lemma_stands_within(body, 0, p4, p1.len() as int, session);
    lemma_stands_bytes(body, p1.len() as int, session, 0);
    // the version
    lemma_stands_within(p2, 0, p1, 0, version);
    lemma_stands_within(p3, 0, p2, 0, version);
    lemma_stands_within(p4, 0, p3, 0, version);
    lemma_stands_within(body, 0, p4, 0, version);
}

/// The body of the ClientHello stands in the record behind the nine bytes
/// of the record header and the handshake header.
proof fn lemma_record_layout(t: TemplateModel)
    ensures
        t.record().len() == 9 + t.body().len(),
        t.record()[0] == 22,
        t.record()[5] == 1,
        stands_at(t.record(), 9, t.body()),
{
    let body = t.body();
    let hs = t.handshake();
    let raw = t.record();
    let head = seq![1u8] + be24(body.len() as int);
    assert(hs == head + body);
    lemma_parts_stand(head, body);
    let front = seq![22u8] + be16(0x0303);
    let block = counted16(hs);
    assert(raw == front + block);
    lemma_parts_stand(front, block);
    lemma_parts_stand(be16(hs.len() as int), hs);
    lemma_stands_within(raw, 3, block, 2, hs);
    lemma_stands_within(raw, 5, hs, 4, body);
    lemma_stands_bytes(raw, 5, hs, 0);
    assert(hs[0] == 1);
    assert(raw[0] == front[0]);
}

/// Where the parts of a ClientHello body stand in a record as the encoder
/// lays them out, the reader finds each of them where it looks for it.
proof fn lemma_reader_finds_parts(
    raw: Seq<u8>,
    body: Seq<u8>,
    s: int,
    suites: Seq<u16>,
    m: int,
    ex: Seq<u8>,
)
    requires
        raw.len() == 9 + body.len(),
        raw[0] == 22,
        raw[5] == 1,
        stands_at(raw, 9, body),
        0 <= s <= 255,
        2 * suites.len() <= 65535,
        0 <= m <= 255,
        ex.len() <= 65535,
        body.len() == 35 + s + 2 + 2 * suites.len() + 1 + m + 2 + ex.len(),
        stands_at(body, 0, be16(0x0303)),
        body[34] == s,
        stands_at(body, 35 + s, be16(2 * suites.len() as int)),
        stands_at(body, 35 + s + 2, u16s_wire(suites)),
        body[35 + s + 2 + 2 * suites.len()] == m,
        stands_at(body, 35 + s + 2 + 2 * suites.len() + 1 + m, be16(ex.len() as int)),
        stands_at(body, 35 + s + 2 + 2 * suites.len() + 1 + m + 2, ex),
    ensures
        walk_end(raw, extensions_at(raw) + 2, extensions_end(raw)) == extensions_end(raw)
            ==> hello_well_framed(raw),
        read_be16(raw, 9) == 0x0303,
        suite_pairs(raw) == suites.len(),
        stands_at(raw, suites_at(raw) + 2, u16s_wire(suites)),
        has_extensions(raw),
        extensions_end(raw) == extensions_at(raw) + 2 + ex.len(),
        stands_at(raw, extensions_at(raw) + 2, ex),
{
    let n = suites.len() as int;
    let a = 35 + s;
    let c = a + 2 + 2 * n;
    let e = c + 1 + m;
    lemma_stands_within(raw, 9, body, 0, be16(0x0303));
    lemma_stands_bytes(raw, 9, be16(0x0303), 0);
    lemma_stands_bytes(raw, 9, be16(0x0303), 1);
    lemma_stands_bytes(raw, 9, body, 34);
    assert(suites_at(raw) == 9 + a);
    lemma_stands_within(raw, 9, body, a, be16(2 * n));
    lemma_stands_bytes(raw, 9 + a, be16(2 * n), 0);
    lemma_stands_bytes(raw, 9 + a, be16(2 * n), 1);
    assert(suites_len(raw) == 2 * n);
    lemma_stands_within(raw, 9, body, a + 2, u16s_wire(suites));
    assert(compression_at(raw) == 9 + c);
    lemma_stands_bytes(raw, 9, body, c);
    assert(extensions_at(raw) == 9 + e);
    lemma_stands_within(raw, 9, body, e, be16(ex.len() as int));
    lemma_stands_bytes(raw, 9 + e, be16(ex.len() as int), 0);
    lemma_stands_bytes(raw, 9 + e, be16(ex.len() as int), 1);
    assert(read_be16(raw, 9 + e) == ex.len());
    lemma_stands_within(raw, 9, body, e + 2, ex);
}

/// The record of a template that fits its length fields is well framed,
/// and the reader finds in it the legacy version `0x0303`, the template's
/// cipher suites without GREASE, the types of the template's extensions
/// without GREASE, and the named groups and point formats of its
/// extensions, each list in the order of the template.
pub proof fn lemma_encoded_hello_parses(t: TemplateModel)
    requires
        t.fits_wire(),
    ensures
        hello_well_framed(t.record()),
        parsed_hello(t.record()) == fingerprint_view(t),
{
    let raw = t.record();
    let n = t.cipher_suites.len();
    let ex = extensions_wire(t.extensions);
    lemma_record_layout(t);
    lemma_body_layout(t);
    lemma_reader_finds_parts(
        raw,
        t.body(),
        t.session_wire().len() - 1,
        t.cipher_suites,
        t.compression_methods.len() as int,
        ex,
    );
    lemma_kept_of_wire(raw, suites_at(raw) + 2, t.cipher_suites, n);
    assert(t.cipher_suites.take(n as int) =~= t.cipher_suites);
    lemma_walk_of_wire(raw, extensions_at(raw) + 2, t.extensions, 0);
    assert(t.extensions.take(0) =~= Seq::<ExtensionModel>::empty());
    assert(t.extensions.skip(0) =~= t.extensions);
}

/// The JA3 digest of an encoded template is the digest of the line of
/// its fingerprint view: it depends on the template alone, and GREASE in
/// the template's lists does not change it.
pub proof fn lemma_ja3_of_template(t: TemplateModel)
    requires
        t.fits_wire(),
    ensures
        hello_well_framed(t.record()),
        ja3_digest(t.record()) == hex_text(md5_digest(ja3_text(fingerprint_view(t)))),
{
    lemma_encoded_hello_parses(t);
}

/// Holds the fingerprint of a template against that of a captured
/// ClientHello. The two match where the template can be encoded, the
/// captured record is well framed, and both have the same JA3 digest; a
/// record without a digest matches nothing.
pub fn fingerprints_match(t: &HelloTemplate, captured: &TlsSnapshot) -> (matched: bool)
    ensures
        matched == (t@.fits_wire() && hello_well_framed(captured.raw_client_hello@) && ja3_digest(
            captured.raw_client_hello@,
        ) == ja3_digest(t@.record())),
{
    let generated = match Encoder::encode_at(t, None) {
        Ok(enc) => enc,
        Err(_) => {
            return false;
        },
    };
    proof {
        lemma_encoded_hello_parses(t@);
    }
    match ja3_from_raw(captured.raw_client_hello.as_slice()) {
        Ok(seen) => match ja3_from_raw(generated.raw_bytes.as_slice()) {
            Ok(made) => seen == made,
            Err(_) => false,
        },
        Err(_) => false,
    }
}

} // verus!
