//! Fixed-width integers as they stand on the wire.

use vstd::prelude::*;

verus! {

/// The two low bytes of `v`, most significant first.
pub open spec fn be16(v: int) -> Seq<u8> {
    seq![((v / 256) % 256) as u8, (v % 256) as u8]
}

/// The three low bytes of `v`, most significant first.
pub open spec fn be24(v: int) -> Seq<u8> {
    seq![((v / 65536) % 256) as u8, ((v / 256) % 256) as u8, (v % 256) as u8]
}

/// The two low bytes of `v`, least significant first.
pub open spec fn le16(v: int) -> Seq<u8> {
    seq![(v % 256) as u8, ((v / 256) % 256) as u8]
}

/// The four low bytes of `v`, least significant first.
pub open spec fn le32(v: int) -> Seq<u8> {
    seq![
        (v % 256) as u8,
        ((v / 256) % 256) as u8,
        ((v / 65536) % 256) as u8,
        ((v / 16777216) % 256) as u8,
    ]
}

/// `body` behind its length in one byte. A length over 255 keeps its low byte.
pub open spec fn counted8(body: Seq<u8>) -> Seq<u8> {
    seq![(body.len() % 256) as u8] + body
}

/// `body` behind its length in two bytes, most significant first. A length
/// over 65535 keeps its two low bytes.
pub open spec fn counted16(body: Seq<u8>) -> Seq<u8> {
    be16(body.len() as int) + body
}

/// The number that two bytes at `at` spell, most significant first.
pub open spec fn read_be16(s: Seq<u8>, at: int) -> int {
    s[at] as int * 256 + s[at + 1] as int
}

/// The number that three bytes at `at` spell, most significant first.
pub open spec fn read_be24(s: Seq<u8>, at: int) -> int {
    s[at] as int * 65536 + s[at + 1] as int * 256 + s[at + 2] as int
}

/// The number that four bytes at `at` spell, most significant first.
pub open spec fn read_be32(s: Seq<u8>, at: int) -> int {
    s[at] as int * 16777216 + s[at + 1] as int * 65536 + s[at + 2] as int * 256 + s[at + 3] as int
}

/// The number that four bytes at `at` spell, least significant first.
pub open spec fn read_le32(s: Seq<u8>, at: int) -> int {
    s[at] as int + s[at + 1] as int * 256 + s[at + 2] as int * 65536 + s[at + 3] as int * 16777216
}

/// Reading back two bytes written by `be16` gives the value modulo 65536.
pub proof fn lemma_be16_round_trip(v: int)
    requires
        0 <= v,
    ensures
        be16(v).len() == 2,
        read_be16(be16(v), 0) == v % 65536,
{
}

/// `le32` looks at the low 32 bits only.
pub proof fn lemma_le32_low_bits(v: int)
    requires
        0 <= v,
    ensures
        le32(v % 4294967296) == le32(v),
{
    let r = v % 4294967296;
    let q = v / 4294967296;
    assert(v == q * 4294967296 + r);
    assert(r % 256 == v % 256);
    assert((r / 256) % 256 == (v / 256) % 256);
    assert((r / 65536) % 256 == (v / 65536) % 256);
    assert((r / 16777216) % 256 == (v / 16777216) % 256);
}

/// Reads the 16-bit value at `at`, most significant byte first.
pub fn be16_at(raw: &[u8], at: usize) -> (v: u16)
    requires
        at + 2 <= raw@.len(),
    ensures
        v as int == read_be16(raw@, at as int),
{
    (raw[at] as u16) * 256 + (raw[at + 1] as u16)
}

/// Appends `v` in two bytes, most significant first.
pub fn write_u16_be(buf: &mut Vec<u8>, v: u16)
    ensures
        final(buf)@ == old(buf)@ + be16(v as int),
{
    buf.push((v / 256) as u8);
    buf.push((v % 256) as u8);
}

/// Appends the low 24 bits of `v` in three bytes, most significant first.
pub fn write_u24_be(buf: &mut Vec<u8>, v: usize)
    ensures
        final(buf)@ == old(buf)@ + be24(v as int),
{
    buf.push(((v / 65536) % 256) as u8);
    buf.push(((v / 256) % 256) as u8);
    buf.push((v % 256) as u8);
}

/// Appends `v` in four bytes, least significant first.
pub fn write_u32_le(buf: &mut Vec<u8>, v: u32)
    ensures
        final(buf)@ == old(buf)@ + le32(v as int),
{
    buf.push((v % 256) as u8);
    buf.push(((v / 256) % 256) as u8);
    buf.push(((v / 65536) % 256) as u8);
    buf.push((v / 16777216) as u8);
}

/// Appends `v` in two bytes, least significant first.
pub fn write_u16_le(buf: &mut Vec<u8>, v: u16)
    ensures
        final(buf)@ == old(buf)@ + le16(v as int),
{
    buf.push((v % 256) as u8);
    buf.push((v / 256) as u8);
}

/// Appends the low 16 bits of a length in two bytes, most significant first.
pub fn write_len16_be(buf: &mut Vec<u8>, n: usize)
    ensures
        final(buf)@ == old(buf)@ + be16(n as int),
{
    buf.push(((n / 256) % 256) as u8);
    buf.push((n % 256) as u8);
}

/// Appends the low 8 bits of a length in one byte.
pub fn write_len8(buf: &mut Vec<u8>, n: usize)
    ensures
        final(buf)@ == old(buf)@.push((n as int % 256) as u8),
{
    buf.push((n % 256) as u8);
}

/// Appends every byte of `bytes`.
pub fn write_bytes(buf: &mut Vec<u8>, bytes: &[u8])
    ensures
        final(buf)@ == old(buf)@ + bytes@,
{
    buf.extend_from_slice(bytes);
}

} // verus!
