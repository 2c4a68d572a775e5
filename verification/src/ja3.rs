//! Reading a ClientHello back and digesting it as JA3.
//!
//! The reader walks the record as a peer would: record header, handshake
//! header, version, random, session id, cipher suites, compression methods,
//! extensions. GREASE values stay out of every list it returns.

use vstd::prelude::*;
use crate::digest::{dash_joined, decimal, decimals16, decimals8, hex_text, md5_digest, md5_hex,
    put_decimal, put_joined16, put_joined8};
use crate::error::CoreError;
use crate::flows::TlsSnapshot;
use crate::grease::{is_grease, is_grease_value};
use crate::wire::{be16_at, read_be16};

verus! {

/// What the fingerprint needs of a ClientHello.
pub struct ParsedClientHello {
    pub version: u16,
    pub cipher_suites: Vec<u16>,
    /// The extension types, in the order of the message.
    pub extensions: Vec<u16>,
    pub supported_groups: Vec<u16>,
    pub ec_point_formats: Vec<u8>,
}

/// A parsed ClientHello as plain values.
pub ghost struct ParsedHello {
    pub version: u16,
    pub cipher_suites: Seq<u16>,
    pub extensions: Seq<u16>,
    pub supported_groups: Seq<u16>,
    pub ec_point_formats: Seq<u8>,
}

impl View for ParsedClientHello {
    type V = ParsedHello;

    open spec fn view(&self) -> ParsedHello {
        ParsedHello {
            version: self.version,
            cipher_suites: self.cipher_suites@,
            extensions: self.extensions@,
            supported_groups: self.supported_groups@,
            ec_point_formats: self.ec_point_formats@,
        }
    }
}

/// The 16-bit values in `count` pairs of bytes from `from`, without those
/// that are GREASE.
pub open spec fn kept_u16s(raw: Seq<u8>, from: int, count: nat) -> Seq<u16>
    decreases count,
{
    if count == 0 {
        Seq::empty()
    } else {
        let v = read_be16(raw, from + 2 * (count - 1));
        kept_u16s(raw, from, (count - 1) as nat) + if is_grease_value(v) {
            Seq::empty()
        } else {
            seq![v as u16]
        }
    }
}

/// Where the length of the cipher suite block stands.
pub open spec fn suites_at(raw: Seq<u8>) -> int {
    44 + raw[43] as int
}

/// The length that the cipher suite block announces.
pub open spec fn suites_len(raw: Seq<u8>) -> int {
    read_be16(raw, suites_at(raw))
}

/// How many cipher suites the block holds: two bytes each.
pub open spec fn suite_pairs(raw: Seq<u8>) -> int {
    suites_len(raw) / 2
}

/// Where the length of the compression methods stands.
pub open spec fn compression_at(raw: Seq<u8>) -> int {
    suites_at(raw) + 2 + suites_len(raw)
}

/// Where the length of the extension block stands.
pub open spec fn extensions_at(raw: Seq<u8>) -> int {
    compression_at(raw) + 1 + raw[compression_at(raw)] as int
}

/// Whether the two bytes of the extension block's length are there. A
/// message may end before them, and then has no extensions.
pub open spec fn has_extensions(raw: Seq<u8>) -> bool {
    extensions_at(raw) + 2 <= raw.len()
}

/// Where the extension block ends.
pub open spec fn extensions_end(raw: Seq<u8>) -> int {
    extensions_at(raw) + 2 + read_be16(raw, extensions_at(raw))
}

/// Whether a whole extension stands at `at`, before `end`.
pub open spec fn extension_fits(raw: Seq<u8>, at: int, end: int) -> bool {
    at + 4 <= end && at + 4 + read_be16(raw, at + 2) <= end
}

/// Where the walk over the extensions from `at` comes to a halt: behind the
/// last extension that lies wholly before `end`.
pub open spec fn walk_end(raw: Seq<u8>, at: int, end: int) -> int
    decreases end - at,
{
    if extension_fits(raw, at, end) {
        walk_end(raw, at + 4 + read_be16(raw, at + 2), end)
    } else {
        at
    }
}

/// Whether `raw` is a handshake record with a ClientHello in which every
/// length field is met by the bytes: the session id, the cipher suites and
/// the compression methods lie within the record, the cipher suite block
/// has an even length, and the extension block, where there is one, lies
/// within the record and is filled by its extensions to the last byte.
pub open spec fn hello_well_framed(raw: Seq<u8>) -> bool {
    &&& raw.len() >= 44
    &&& raw[0] == 22
    &&& raw[5] == 1
    &&& suites_at(raw) + 2 <= raw.len()
    &&& suites_at(raw) + 2 + suites_len(raw) <= raw.len()
    &&& suites_len(raw) % 2 == 0
    &&& compression_at(raw) < raw.len()
    &&& extensions_at(raw) <= raw.len()
    &&& has_extensions(raw) ==> {
        &&& extensions_end(raw) <= raw.len()
        &&& walk_end(raw, extensions_at(raw) + 2, extensions_end(raw)) == extensions_end(raw)
    }
}

/// The named groups in a supported_groups payload of `len` bytes at `at`:
/// the pairs that lie both within the payload and within the list length
/// that its first two bytes announce.
pub open spec fn groups_in(raw: Seq<u8>, at: int, len: int) -> Seq<u16> {
    if len < 2 {
        Seq::empty()
    } else {
        let list_len = read_be16(raw, at);
        let room = if list_len < len - 2 {
            list_len
        } else {
            len - 2
        };
        kept_u16s(raw, at + 2, (room / 2) as nat)
    }
}

/// The point formats in an ec_point_formats payload of `len` bytes at `at`:
/// as many as its first byte announces, but none past the payload.
pub open spec fn formats_in(raw: Seq<u8>, at: int, len: int) -> Seq<u8> {
    if len < 1 {
        Seq::empty()
    } else {
        let list_len = raw[at] as int;
        let count = if list_len < len - 1 {
            list_len
        } else {
            len - 1
        };
        raw.subrange(at + 1, at + 1 + count)
    }
}

/// The types of the extensions from `at` to `end`, without GREASE, as far
/// as whole extensions stand there.
pub open spec fn extension_types(raw: Seq<u8>, at: int, end: int) -> Seq<u16>
    decreases end - at,
{
    if extension_fits(raw, at, end) {
        let typ = read_be16(raw, at);
        let next = at + 4 + read_be16(raw, at + 2);
        (if is_grease_value(typ) {
            Seq::empty()
        } else {
            seq![typ as u16]
        }) + extension_types(raw, next, end)
    } else {
        Seq::empty()
    }
}

/// The named groups of all supported_groups extensions from `at` to `end`.
pub open spec fn extension_groups(raw: Seq<u8>, at: int, end: int) -> Seq<u16>
    decreases end - at,
{
    if extension_fits(raw, at, end) {
        let len = read_be16(raw, at + 2);
        (if read_be16(raw, at) == 0x000a {
            groups_in(raw, at + 4, len)
        } else {
            Seq::empty()
        }) + extension_groups(raw, at + 4 + len, end)
    } else {
        Seq::empty()
    }
}

/// The point formats of all ec_point_formats extensions from `at` to `end`.
pub open spec fn extension_formats(raw: Seq<u8>, at: int, end: int) -> Seq<u8>
    decreases end - at,
{
    if extension_fits(raw, at, end) {
        let len = read_be16(raw, at + 2);
        (if read_be16(raw, at) == 0x000b {
            formats_in(raw, at + 4, len)
        } else {
            Seq::empty()
        }) + extension_formats(raw, at + 4 + len, end)
    } else {
        Seq::empty()
    }
}

/// What a well-framed ClientHello parses to.
pub open spec fn parsed_hello(raw: Seq<u8>) -> ParsedHello {
    let start = extensions_at(raw) + 2;
    let end = extensions_end(raw);
    ParsedHello {
        version: read_be16(raw, 9) as u16,
        cipher_suites: kept_u16s(raw, suites_at(raw) + 2, suite_pairs(raw) as nat),
        extensions: if has_extensions(raw) {
            extension_types(raw, start, end)
        } else {
            Seq::empty()
        },
        supported_groups: if has_extensions(raw) {
            extension_groups(raw, start, end)
        } else {
            Seq::empty()
        },
        ec_point_formats: if has_extensions(raw) {
            extension_formats(raw, start, end)
        } else {
            Seq::empty()
        },
    }
}

/// The line that JA3 digests: version, cipher suites, extension types,
/// named groups and point formats, all in decimal, the lists joined by `-`
/// and the five fields by `,`.
pub open spec fn ja3_text(p: ParsedHello) -> Seq<u8> {
    decimal(p.version as nat) + seq![44u8] + dash_joined(decimals16(p.cipher_suites)) + seq![44u8]
        + dash_joined(decimals16(p.extensions)) + seq![44u8] + dash_joined(
        decimals16(p.supported_groups),
    ) + seq![44u8] + dash_joined(decimals8(p.ec_point_formats))
}

/// The JA3 digest of a well-framed ClientHello: 32 hexadecimal digits.
pub open spec fn ja3_digest(raw: Seq<u8>) -> Seq<char> {
    hex_text(md5_digest(ja3_text(parsed_hello(raw))))
}

/// Appends the values of `count` pairs of bytes from `from` that are not
/// GREASE.
fn keep_u16s(raw: &[u8], from: usize, count: usize, out: &mut Vec<u16>)
    requires
        from + 2 * count <= raw@.len(),
    ensures
        final(out)@ == old(out)@ + kept_u16s(raw@, from as int, count as nat),
{
    let n: usize = raw.len();
    let mut k: usize = 0;
    while k < count
        invariant
            k <= count,
            n == raw@.len(),
            from + 2 * count <= n,
            out@ == old(out)@ + kept_u16s(raw@, from as int, k as nat),
        decreases count - k,
    {
        let v: u16 = be16_at(raw, from + 2 * k);
        if !is_grease(v) {
            out.push(v);
        }
        k += 1;
        assert(out@ =~= old(out)@ + kept_u16s(raw@, from as int, k as nat));
    }
}

/// Reads a ClientHello record. The call succeeds exactly on the well-framed
/// records. Every other input is malformed: a record cut short, a cipher
/// suite block of odd length, an extension whose length points past the
/// extension block, bytes left over behind the last extension.
pub fn parse_client_hello(raw: &[u8]) -> (r: Result<ParsedClientHello, CoreError>)
    ensures
        match r {
            Ok(p) => hello_well_framed(raw@) && p@ == parsed_hello(raw@),
            Err(e) => !hello_well_framed(raw@) && e == CoreError::MalformedInput,
        },
{
    let n: usize = raw.len();
    if n < 44 || raw[0] != 22 || raw[5] != 1 {
        return Err(CoreError::MalformedInput);
    }
    let version: u16 = be16_at(raw, 9);
    let sid_len: usize = raw[43] as usize;
    if n - 44 < sid_len || n - 44 - sid_len < 2 {
        return Err(CoreError::MalformedInput);
    }
    let cs_at: usize = 44 + sid_len;
    let cs_len: usize = be16_at(raw, cs_at) as usize;
    let cs_start: usize = cs_at + 2;
    if n - cs_start < cs_len || cs_len % 2 != 0 {
        return Err(CoreError::MalformedInput);
    }
    let pairs: usize = cs_len / 2;
    let mut cipher_suites: Vec<u16> = Vec::new();
    keep_u16s(raw, cs_start, pairs, &mut cipher_suites);
    let cm_at: usize = cs_start + cs_len;
    if n <= cm_at {
        return Err(CoreError::MalformedInput);
    }
    let cm_len: usize = raw[cm_at] as usize;
    if n - cm_at - 1 < cm_len {
        return Err(CoreError::MalformedInput);
    }
    let ext_at: usize = cm_at + 1 + cm_len;
    let mut extensions: Vec<u16> = Vec::new();
    let mut supported_groups: Vec<u16> = Vec::new();
    let mut ec_point_formats: Vec<u8> = Vec::new();
    if n - ext_at < 2 {
        return Ok(
            ParsedClientHello {
                version,
                cipher_suites,
                extensions,
                supported_groups,
                ec_point_formats,
            },
        );
    }
    let exts_len: usize = be16_at(raw, ext_at) as usize;
    let start: usize = ext_at + 2;
    if n - start < exts_len {
        return Err(CoreError::MalformedInput);
    }
    let end: usize = start + exts_len;
    let mut at: usize = start;
    while end - at >= 4
        invariant
            n == raw@.len(),
            start <= at <= end <= n,
            extensions@ + extension_types(raw@, at as int, end as int) == extension_types(
                raw@,
                start as int,
                end as int,
            ),
            supported_groups@ + extension_groups(raw@, at as int, end as int) == extension_groups(
                raw@,
                start as int,
                end as int,
            ),
            ec_point_formats@ + extension_formats(raw@, at as int, end as int)
                == extension_formats(raw@, start as int, end as int),
            walk_end(raw@, at as int, end as int) == walk_end(raw@, start as int, end as int),
        ensures
            !extension_fits(raw@, at as int, end as int),
        decreases end - at,
    {
        let typ: u16 = be16_at(raw, at);
        let len: usize = be16_at(raw, at + 2) as usize;
        if end - at - 4 < len {
            break;
        }
        let data: usize = at + 4;
        let ghost types_before = extensions@;
        let ghost groups_before = supported_groups@;
        let ghost formats_before = ec_point_formats@;
        if !is_grease(typ) {
            extensions.push(typ);
        }
        if typ == 0x000a {
            if len >= 2 {
                let list_len: usize = be16_at(raw, data) as usize;
                let room: usize = if list_len < len - 2 {
                    list_len
                } else {
                    len - 2
                };
                keep_u16s(raw, data + 2, room / 2, &mut supported_groups);
            }
        } else if typ == 0x000b {
            if len >= 1 {
                let list_len: usize = raw[data] as usize;
                let count: usize = if list_len < len - 1 {
                    list_len
                } else {
                    len - 1
                };
                let mut k: usize = 0;
                while k < count
                    invariant
                        k <= count,
                        n == raw@.len(),
                        data + 1 + count <= n,
                        ec_point_formats@ == formats_before + raw@.subrange(
                            data + 1,
                            data + 1 + k,
                        ),
                    decreases count - k,
                {
                    ec_point_formats.push(raw[data + 1 + k]);
                    k += 1;
                    assert(ec_point_formats@ =~= formats_before + raw@.subrange(
                        data + 1,
                        data + 1 + k,
                    ));
                }
            }
        }
        proof {
            let next = at + 4 + len;
            assert(extension_fits(raw@, at as int, end as int));
            assert(extensions@ + extension_types(raw@, next, end as int) =~= types_before
                + extension_types(raw@, at as int, end as int));
            assert(supported_groups@ + extension_groups(raw@, next, end as int) =~= groups_before
                + extension_groups(raw@, at as int, end as int));
            assert(ec_point_formats@ + extension_formats(raw@, next, end as int) =~= formats_before
                + extension_formats(raw@, at as int, end as int));
        }
        at = data + len;
    }
    if at != end {
        return Err(CoreError::MalformedInput);
    }
    proof {
        assert(extensions@ =~= extension_types(raw@, start as int, end as int));
        assert(supported_groups@ =~= extension_groups(raw@, start as int, end as int));
        assert(ec_point_formats@ =~= extension_formats(raw@, start as int, end as int));
    }
    Ok(ParsedClientHello { version, cipher_suites, extensions, supported_groups, ec_point_formats })
}

/// Writes out the line that JA3 digests.
pub fn ja3_canonical(p: &ParsedClientHello) -> (text: Vec<u8>)
    ensures
        text@ == ja3_text(p@),
{
    let mut text: Vec<u8> = Vec::new();
    put_decimal(&mut text, p.version as u64);
    text.push(44u8);
    put_joined16(&mut text, &p.cipher_suites);
    text.push(44u8);
    put_joined16(&mut text, &p.extensions);
    text.push(44u8);
    put_joined16(&mut text, &p.supported_groups);
    text.push(44u8);
    put_joined8(&mut text, &p.ec_point_formats);
    assert(text@ =~= ja3_text(p@));
    text
}

/// The JA3 fingerprint of a ClientHello record: the MD5 digest of its
/// line, in 32 lowercase hexadecimal digits. Records that are not
/// well framed are malformed and have no fingerprint.
pub fn ja3_from_raw(raw: &[u8]) -> (r: Result<String, CoreError>)
    ensures
        match r {
            Ok(digest) => hello_well_framed(raw@) && digest@ == ja3_digest(raw@) && digest@.len()
                == 32,
            Err(e) => !hello_well_framed(raw@) && e == CoreError::MalformedInput,
        },
{
    match parse_client_hello(raw) {
        Ok(parsed) => {
            let text: Vec<u8> = ja3_canonical(&parsed);
            Ok(md5_hex(text.as_slice()))
        },
        Err(e) => Err(e),
    }
}

/// How a snapshot came to its fingerprint.
pub enum Ja3Outcome {
    /// The record was read and its JA3 digest stands in the snapshot.
    Standard,
    /// The record could not be read. The snapshot has no JA3 digest; what
    /// is handed out here is the MD5 digest of the raw bytes, which names
    /// the capture and is no JA3 value.
    Degraded { raw_digest: String },
}

/// Computes the fingerprint of a snapshot. A well-framed record gets its
/// JA3 digest attached. Any other record leaves the snapshot without a
/// digest, and the outcome carries the digest of the raw bytes, apart
/// from every JA3 value. The captured bytes stay as they are.
pub fn snapshot_to_ja3(snap: &mut TlsSnapshot) -> (outcome: Ja3Outcome)
    ensures
        final(snap).raw_client_hello@ == old(snap).raw_client_hello@,
        hello_well_framed(old(snap).raw_client_hello@) ==> {
            &&& outcome is Standard
            &&& final(snap).ja3 matches Some(digest)
            &&& digest@ == ja3_digest(old(snap).raw_client_hello@)
        },
        !hello_well_framed(old(snap).raw_client_hello@) ==> {
            &&& final(snap).ja3 is None
            &&& outcome matches Ja3Outcome::Degraded { raw_digest }
            &&& raw_digest@ == hex_text(md5_digest(old(snap).raw_client_hello@))
        },
{
    match ja3_from_raw(snap.raw_client_hello.as_slice()) {
        Ok(digest) => {
            snap.ja3 = Some(digest);
            Ja3Outcome::Standard
        },
        Err(_) => {
            snap.ja3 = None;
            Ja3Outcome::Degraded { raw_digest: md5_hex(snap.raw_client_hello.as_slice()) }
        },
    }
}

/// No GREASE value is among the extension types that the walk keeps.
pub proof fn lemma_extension_types_hold_no_grease(raw: Seq<u8>, at: int, end: int, i: int)
    requires
        0 <= i < extension_types(raw, at, end).len(),
    ensures
        !is_grease_value(extension_types(raw, at, end)[i] as int),
    decreases end - at,
{
    if extension_fits(raw, at, end) {
        let typ = read_be16(raw, at);
        let next = at + 4 + read_be16(raw, at + 2);
        if is_grease_value(typ) {
            assert(extension_types(raw, at, end) =~= extension_types(raw, next, end));
            lemma_extension_types_hold_no_grease(raw, next, end, i);
        } else if i > 0 {
            lemma_extension_types_hold_no_grease(raw, next, end, i - 1);
        }
    }
}

/// No GREASE value is among the named groups that the walk keeps.
pub proof fn lemma_extension_groups_hold_no_grease(raw: Seq<u8>, at: int, end: int, i: int)
    requires
        0 <= i < extension_groups(raw, at, end).len(),
    ensures
        !is_grease_value(extension_groups(raw, at, end)[i] as int),
    decreases end - at,
{
    if extension_fits(raw, at, end) {
        let len = read_be16(raw, at + 2);
        let here = if read_be16(raw, at) == 0x000a {
            groups_in(raw, at + 4, len)
        } else {
            Seq::empty()
        };
        if i < here.len() {
            let list_len = read_be16(raw, at + 4);
            let room = if list_len < len - 2 {
                list_len
            } else {
                len - 2
            };
            lemma_kept_u16s_hold_no_grease(raw, at + 6, (room / 2) as nat, i);
        } else {
            lemma_extension_groups_hold_no_grease(raw, at + 4 + len, end, i - here.len());
        }
    }
}

/// A parsed ClientHello holds no GREASE value among its cipher suites, its
/// extension types and its named groups, so none appears in those fields of
/// the line that JA3 digests.
pub proof fn lemma_parsed_hello_holds_no_grease(raw: Seq<u8>)
    ensures
        forall|i: int|
            0 <= i < parsed_hello(raw).cipher_suites.len() ==> !is_grease_value(
                #[trigger] parsed_hello(raw).cipher_suites[i] as int,
            ),
        forall|i: int|
            0 <= i < parsed_hello(raw).extensions.len() ==> !is_grease_value(
                #[trigger] parsed_hello(raw).extensions[i] as int,
            ),
        forall|i: int|
            0 <= i < parsed_hello(raw).supported_groups.len() ==> !is_grease_value(
                #[trigger] parsed_hello(raw).supported_groups[i] as int,
            ),
{
    let p = parsed_hello(raw);
    let start = extensions_at(raw) + 2;
    let end = extensions_end(raw);
    assert forall|i: int| 0 <= i < p.cipher_suites.len() implies !is_grease_value(
        #[trigger] p.cipher_suites[i] as int,
    ) by {
        lemma_kept_u16s_hold_no_grease(raw, suites_at(raw) + 2, suite_pairs(raw) as nat, i);
    }
    assert forall|i: int| 0 <= i < p.extensions.len() implies !is_grease_value(
        #[trigger] p.extensions[i] as int,
    ) by {
        lemma_extension_types_hold_no_grease(raw, start, end, i);
    }
    assert forall|i: int| 0 <= i < p.supported_groups.len() implies !is_grease_value(
        #[trigger] p.supported_groups[i] as int,
    ) by {
        lemma_extension_groups_hold_no_grease(raw, start, end, i);
    }
}

/// The fingerprint depends on the bytes of the record alone: equal records
/// have equal digests.
pub proof fn lemma_ja3_is_deterministic(a: Seq<u8>, b: Seq<u8>)
    requires
        a == b,
    ensures
        hello_well_framed(a) == hello_well_framed(b),
        ja3_digest(a) == ja3_digest(b),
{
}

/// No GREASE value is among the values that `kept_u16s` keeps.
pub proof fn lemma_kept_u16s_hold_no_grease(raw: Seq<u8>, from: int, count: nat, i: int)
    requires
        0 <= i < kept_u16s(raw, from, count).len(),
    ensures
        !is_grease_value(kept_u16s(raw, from, count)[i] as int),
    decreases count,
{
    if count > 0 {
        let head = kept_u16s(raw, from, (count - 1) as nat);
        if i < head.len() {
            lemma_kept_u16s_hold_no_grease(raw, from, (count - 1) as nat, i);
        }
    }
}

} // verus!
