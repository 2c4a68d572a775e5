//! The SETTINGS of HTTP/2 and HTTP/3 as a client sends them, and their
//! digests.
//!
//! Both readers are heuristics over captured bytes: they look for the first
//! place that has the shape of a SETTINGS frame and keep the pairs in the
//! order of the frame.

use vstd::prelude::*;
use crate::digest::{dash_joined, decimal, hex_text, md5_digest, md5_hex, put_decimal};
use crate::quic::{read_varint, varint_at};
use crate::wire::{read_be16, read_be24, read_be32};

verus! {

/// The SETTINGS of an HTTP/2 client.
#[derive(Debug)]
pub struct H2Settings {
    /// Pairs of identifier and value, in the order of the frame.
    pub settings: Vec<(u16, u32)>,
    pub pseudo_headers_order: Vec<String>,
}

/// The SETTINGS of an HTTP/3 client.
#[derive(Debug)]
pub struct H3Settings {
    /// Pairs of identifier and value, in the order of the frame.
    pub settings: Vec<(u64, u64)>,
    pub transport_params: Vec<(u64, Vec<u8>)>,
    pub qpack: Option<(u64, u64)>,
}

/// The 24 bytes with which an HTTP/2 client opens its connection:
/// `PRI * HTTP/2.0`, two line ends, `SM`, two line ends.
pub open spec fn h2_preface() -> Seq<u8> {
    seq![
        0x50u8,
        0x52u8,
        0x49u8,
        0x20u8,
        0x2au8,
        0x20u8,
        0x48u8,
        0x54u8,
        0x54u8,
        0x50u8,
        0x2fu8,
        0x32u8,
        0x2eu8,
        0x30u8,
        0x0du8,
        0x0au8,
        0x0du8,
        0x0au8,
        0x53u8,
        0x4du8,
        0x0du8,
        0x0au8,
        0x0du8,
        0x0au8,
    ]
}

/// Whether the preface stands at `pos`.
pub open spec fn preface_at(raw: Seq<u8>, pos: int) -> bool {
    0 <= pos && pos + 24 <= raw.len() && raw.subrange(pos, pos + 24) == h2_preface()
}

/// The first position at or behind `from` where the preface stands.
pub open spec fn first_preface_from(raw: Seq<u8>, from: int) -> Option<int>
    decreases raw.len() - from,
{
    if from < 0 || from + 24 > raw.len() {
        None
    } else if preface_at(raw, from) {
        Some(from)
    } else {
        first_preface_from(raw, from + 1)
    }
}

/// The `count` settings of six bytes each from `at`: an identifier in two
/// bytes and a value in four, most significant first.
pub open spec fn h2_pairs(raw: Seq<u8>, at: int, count: nat) -> Seq<(u16, u32)> {
    Seq::new(
        count,
        |k: int| (read_be16(raw, at + 6 * k) as u16, read_be32(raw, at + 6 * k + 2) as u32),
    )
}

/// Whether the frame at `idx` is a SETTINGS frame that lies within the bytes.
pub open spec fn settings_frame_at(raw: Seq<u8>, idx: int) -> bool {
    raw[idx + 3] == 4 && idx + 9 + read_be24(raw, idx) <= raw.len()
}

/// The settings of the first SETTINGS frame among the frames from `idx` on.
/// A frame has a header of nine bytes that begins with the payload length
/// in three bytes and the type in one; a trailing partial setting is left
/// out.
pub open spec fn first_settings_from(raw: Seq<u8>, idx: int) -> Option<Seq<(u16, u32)>>
    decreases raw.len() - idx,
{
    if idx < 0 || idx + 9 > raw.len() {
        None
    } else if settings_frame_at(raw, idx) {
        Some(h2_pairs(raw, idx + 9, (read_be24(raw, idx) / 6) as nat))
    } else if idx + 9 + read_be24(raw, idx) > raw.len() {
        None
    } else {
        first_settings_from(raw, idx + 9 + read_be24(raw, idx))
    }
}

/// The settings that an HTTP/2 client sends in `raw`: those of the first
/// SETTINGS frame behind the first preface.
pub open spec fn h2_settings_of(raw: Seq<u8>) -> Option<Seq<(u16, u32)>> {
    match first_preface_from(raw, 0) {
        Some(pos) => first_settings_from(raw, pos + 24),
        None => None,
    }
}

/// The pairs of variable-length integers from `p` on, as long as a pair
/// begins before `end` and both its integers lie within the bytes.
pub open spec fn h3_pairs(raw: Seq<u8>, p: int, end: int) -> Seq<(u64, u64)>
    decreases raw.len() - p,
{
    if p >= end {
        Seq::empty()
    } else {
        match varint_at(raw, p) {
            None => Seq::empty(),
            Some((id, w)) => match varint_at(raw, p + w) {
                None => Seq::empty(),
                Some((value, w2)) => seq![(id, value)] + h3_pairs(raw, p + w + w2, end),
            },
        }
    }
}

/// The settings of the SETTINGS frame at `i`, if there is one: the byte
/// 4, a length as a variable-length integer, and that many bytes within
/// the buffer.
pub open spec fn h3_settings_at(raw: Seq<u8>, i: int) -> Option<Seq<(u64, u64)>> {
    if raw[i] != 4 {
        None
    } else {
        match varint_at(raw, i + 1) {
            None => None,
            Some((len, w)) => if i + 1 + w + len <= raw.len() {
                Some(h3_pairs(raw, i + 1 + w, i + 1 + w + len))
            } else {
                None
            },
        }
    }
}

/// The settings of the first SETTINGS frame at or behind `i`.
pub open spec fn first_h3_settings_from(raw: Seq<u8>, i: int) -> Option<Seq<(u64, u64)>>
    decreases raw.len() - i,
{
    if i < 0 || i >= raw.len() {
        None
    } else if h3_settings_at(raw, i) is Some {
        h3_settings_at(raw, i)
    } else {
        first_h3_settings_from(raw, i + 1)
    }
}

/// The settings that an HTTP/3 client sends in `raw`.
pub open spec fn h3_settings_of(raw: Seq<u8>) -> Option<Seq<(u64, u64)>> {
    first_h3_settings_from(raw, 0)
}

/// The text of one setting: identifier, `:`, value, both in decimal.
pub open spec fn setting_text(id: nat, value: nat) -> Seq<u8> {
    decimal(id) + seq![58u8] + decimal(value)
}

/// The texts of HTTP/2 settings.
pub open spec fn h2_texts(settings: Seq<(u16, u32)>) -> Seq<Seq<u8>> {
    Seq::new(settings.len(), |i: int| setting_text(settings[i].0 as nat, settings[i].1 as nat))
}

/// The texts of HTTP/3 settings.
pub open spec fn h3_texts(settings: Seq<(u64, u64)>) -> Seq<Seq<u8>> {
    Seq::new(settings.len(), |i: int| setting_text(settings[i].0 as nat, settings[i].1 as nat))
}

/// The digest of HTTP/2 settings: MD5, in hexadecimal, of their texts
/// joined by `-`.
pub open spec fn h2_digest(settings: Seq<(u16, u32)>) -> Seq<char> {
    hex_text(md5_digest(dash_joined(h2_texts(settings))))
}

/// The digest of HTTP/3 settings: MD5, in hexadecimal, of their texts
/// joined by `-`.
pub open spec fn h3_digest(settings: Seq<(u64, u64)>) -> Seq<char> {
    hex_text(md5_digest(dash_joined(h3_texts(settings))))
}

/// Tells whether the preface stands at `pos`.
fn has_preface_at(raw: &[u8], pos: usize) -> (b: bool)
    requires
        pos + 24 <= raw@.len(),
    ensures
        b == preface_at(raw@, pos as int),
{
    let preface: [u8; 24] = [
        0x50,
        0x52,
        0x49,
        0x20,
        0x2a,
        0x20,
        0x48,
        0x54,
        0x54,
        0x50,
        0x2f,
        0x32,
        0x2e,
        0x30,
        0x0d,
        0x0a,
        0x0d,
        0x0a,
        0x53,
        0x4d,
        0x0d,
        0x0a,
        0x0d,
        0x0a,
    ];
    assert(preface@ =~= h2_preface());
    let n: usize = raw.len();
    let ghost window = raw@.subrange(pos as int, pos + 24);
    let mut k: usize = 0;
    while k < 24
        invariant
            k <= 24,
            n == raw@.len(),
            pos + 24 <= n,
            preface@ == h2_preface(),
            window == raw@.subrange(pos as int, pos + 24),
            forall|j: int| 0 <= j < k ==> window[j] == h2_preface()[j],
        decreases 24 - k,
    {
        if raw[pos + k] != preface[k] {
            assert(window[k as int] != h2_preface()[k as int]);
            return false;
        }
        k += 1;
    }
    assert(window =~= h2_preface());
    true
}

/// Reads `count` settings of six bytes each from `at`.
fn read_h2_pairs(raw: &[u8], at: usize, count: usize) -> (out: Vec<(u16, u32)>)
    requires
        at + 6 * count <= raw@.len(),
    ensures
        out@ == h2_pairs(raw@, at as int, count as nat),
{
    let n: usize = raw.len();
    let mut out: Vec<(u16, u32)> = Vec::new();
    let mut k: usize = 0;
    while k < count
        invariant
            k <= count,
            n == raw@.len(),
            at + 6 * count <= n,
            out@ == h2_pairs(raw@, at as int, k as nat),
        decreases count - k,
    {
        let p: usize = at + 6 * k;
        let id: u16 = (raw[p] as u16) * 256 + raw[p + 1] as u16;
        let value: u32 = (raw[p + 2] as u32) * 16777216 + (raw[p + 3] as u32) * 65536 + (raw[p
            + 4] as u32) * 256 + raw[p + 5] as u32;
        out.push((id, value));
        k += 1;
        assert(out@ =~= h2_pairs(raw@, at as int, k as nat));
    }
    out
}

/// Finds the first place where the preface stands.
fn find_preface(raw: &[u8]) -> (r: Option<usize>)
    ensures
        match r {
            Some(pos) => first_preface_from(raw@, 0) == Some(pos as int) && pos + 24 <= raw@.len(),
            None => first_preface_from(raw@, 0) is None,
        },
{
    let n: usize = raw.len();
    if n < 24 {
        return None;
    }
    let mut pos: usize = 0;
    while pos <= n - 24
        invariant
            n == raw@.len(),
            n >= 24,
            pos <= n - 24 + 1,
            first_preface_from(raw@, pos as int) == first_preface_from(raw@, 0),
        decreases n - pos,
    {
        if has_preface_at(raw, pos) {
            return Some(pos);
        }
        pos += 1;
    }
    None
}

/// Finds the preface of an HTTP/2 connection and reads the first SETTINGS
/// frame behind it. `None` where there is no preface, or no SETTINGS frame
/// that lies within the bytes.
pub fn extract_h2_settings_from_bytes(raw: &[u8]) -> (r: Option<H2Settings>)
    ensures
        match r {
            Some(h2) => h2_settings_of(raw@) == Some(h2.settings@)
                && h2.pseudo_headers_order@.len() == 0,
            None => h2_settings_of(raw@) is None,
        },
{
    let n: usize = raw.len();
    let pos: usize = match find_preface(raw) {
        Some(pos) => pos,
        None => {
            return None;
        },
    };
    let mut idx: usize = pos + 24;
    while n - idx >= 9
        invariant
            n == raw@.len(),
            idx <= n,
            first_settings_from(raw@, idx as int) == h2_settings_of(raw@),
        decreases n - idx,
    {
        let len: usize = (raw[idx] as usize) * 65536 + (raw[idx + 1] as usize) * 256 + (raw[idx
            + 2] as usize);
        let typ: u8 = raw[idx + 3];
        let fits: bool = n - idx - 9 >= len;
        if typ == 0x4 && fits {
            let settings: Vec<(u16, u32)> = read_h2_pairs(raw, idx + 9, len / 6);
            return Some(H2Settings { settings, pseudo_headers_order: Vec::new() });
        }
        if !fits {
            return None;
        }
        idx = idx + 9 + len;
    }
    None
}

/// Reads pairs of variable-length integers from `p` on, as long as a pair
/// begins before `end`.
fn read_h3_pairs(raw: &[u8], start: usize, end: usize) -> (out: Vec<(u64, u64)>)
    requires
        start <= end <= raw@.len(),
    ensures
        out@ == h3_pairs(raw@, start as int, end as int),
{
    let n: usize = raw.len();
    let mut out: Vec<(u64, u64)> = Vec::new();
    let mut p: usize = start;
    loop
        invariant
            n == raw@.len(),
            start <= p <= n,
            end <= n,
            out@ + h3_pairs(raw@, p as int, end as int) == h3_pairs(raw@, start as int, end as int),
        ensures
            out@ == h3_pairs(raw@, start as int, end as int),
        decreases n - p,
    {
        if p >= end {
            assert(out@ =~= out@ + Seq::<(u64, u64)>::empty());
            break;
        }
        let (id, w): (u64, usize) = match read_varint(raw, p) {
            Some(pair) => pair,
            None => {
                assert(out@ =~= out@ + Seq::<(u64, u64)>::empty());
                break;
            },
        };
        let (value, w2): (u64, usize) = match read_varint(raw, p + w) {
            Some(pair) => pair,
            None => {
                assert(out@ =~= out@ + Seq::<(u64, u64)>::empty());
                break;
            },
        };
        let ghost before = out@;
        out.push((id, value));
        assert(out@ + h3_pairs(raw@, p + w + w2, end as int) =~= before + h3_pairs(
            raw@,
            p as int,
            end as int,
        ));
        p = p + w + w2;
    }
    out
}

/// Reads the first SETTINGS frame of an HTTP/3 stream: the first byte 4
/// that is followed by a length and that many bytes.
pub fn extract_h3_settings_from_bytes(raw: &[u8]) -> (r: Option<H3Settings>)
    ensures
        match r {
            Some(h3) => h3_settings_of(raw@) == Some(h3.settings@)
                && h3.transport_params@.len() == 0 && h3.qpack is None,
            None => h3_settings_of(raw@) is None,
        },
{
    let n: usize = raw.len();
    let mut i: usize = 0;
    while i < n
        invariant
            n == raw@.len(),
            i <= n,
            first_h3_settings_from(raw@, i as int) == h3_settings_of(raw@),
        decreases n - i,
    {
        if raw[i] == 0x04 {
            match read_varint(raw, i + 1) {
                Some((len, w)) => {
                    let start: usize = i + 1 + w;
                    if len <= (n - start) as u64 {
                        let settings: Vec<(u64, u64)> = read_h3_pairs(
                            raw,
                            start,
                            start + len as usize,
                        );
                        return Some(
                            H3Settings { settings, transport_params: Vec::new(), qpack: None },
                        );
                    }
                },
                None => {},
            }
        }
        i += 1;
    }
    None
}

/// Appends the text of one setting.
fn put_setting(out: &mut Vec<u8>, id: u64, value: u64)
    ensures
        final(out)@ == old(out)@ + setting_text(id as nat, value as nat),
{
    put_decimal(out, id);
    out.push(58u8);
    put_decimal(out, value);
    assert(out@ =~= old(out)@ + setting_text(id as nat, value as nat));
}

/// The digest of a client's HTTP/2 settings: 32 hexadecimal digits.
pub fn ja4_h2(h2: &H2Settings) -> (digest: String)
    ensures
        digest@ == h2_digest(h2.settings@),
        digest@.len() == 32,
{
    let ghost all = h2_texts(h2.settings@);
    let mut text: Vec<u8> = Vec::new();
    let mut i: usize = 0;
    while i < h2.settings.len()
        invariant
            i <= h2.settings.len(),
            all == h2_texts(h2.settings@),
            text@ == dash_joined(all.take(i as int)),
        decreases h2.settings.len() - i,
    {
        if i > 0 {
            text.push(45u8);
        }
        put_setting(&mut text, h2.settings[i].0 as u64, h2.settings[i].1 as u64);
        proof {
            let next = all.take(i + 1);
            assert(next.drop_last() =~= all.take(i as int));
            assert(text@ =~= dash_joined(next));
        }
        i += 1;
    }
    assert(all.take(i as int) =~= all);
    md5_hex(text.as_slice())
}

/// The digest of a client's HTTP/3 settings: 32 hexadecimal digits.
pub fn ja4_h3(h3: &H3Settings) -> (digest: String)
    ensures
        digest@ == h3_digest(h3.settings@),
        digest@.len() == 32,
{
    let ghost all = h3_texts(h3.settings@);
    let mut text: Vec<u8> = Vec::new();
    let mut i: usize = 0;
    while i < h3.settings.len()
        invariant
            i <= h3.settings.len(),
            all == h3_texts(h3.settings@),
            text@ == dash_joined(all.take(i as int)),
        decreases h3.settings.len() - i,
    {
        if i > 0 {
            text.push(45u8);
        }
        put_setting(&mut text, h3.settings[i].0, h3.settings[i].1);
        proof {
            let next = all.take(i + 1);
            assert(next.drop_last() =~= all.take(i as int));
            assert(text@ =~= dash_joined(next));
        }
        i += 1;
    }
    assert(all.take(i as int) =~= all);
    md5_hex(text.as_slice())
}

/// The HTTP/2 digest of captured bytes, in 32 hexadecimal digits, where
/// they hold a SETTINGS frame behind a preface.
pub fn ja4_h2_from_raw(raw: &[u8]) -> (r: Option<String>)
    ensures
        match r {
            Some(digest) => (h2_settings_of(raw@) matches Some(settings) && digest@ == h2_digest(
                settings,
            )) && digest@.len() == 32,
            None => h2_settings_of(raw@) is None,
        },
{
    match extract_h2_settings_from_bytes(raw) {
        Some(h2) => Some(ja4_h2(&h2)),
        None => None,
    }
}

/// The HTTP/3 digest of captured bytes, in 32 hexadecimal digits, where
/// they hold a SETTINGS frame.
pub fn ja4_h3_from_raw(raw: &[u8]) -> (r: Option<String>)
    ensures
        match r {
            Some(digest) => (h3_settings_of(raw@) matches Some(settings) && digest@ == h3_digest(
                settings,
            )) && digest@.len() == 32,
            None => h3_settings_of(raw@) is None,
        },
{
    match extract_h3_settings_from_bytes(raw) {
        Some(h3) => Some(ja4_h3(&h3)),
        None => None,
    }
}

} // verus!
