//! GREASE: the reserved codepoints that a client sprinkles over its lists
//! so that peers prove they ignore what they do not know.

use vstd::prelude::*;
use aes_gcm::aead::rand_core::RngCore;
use crate::error::CoreError;

verus! {

/// How the two GREASE values of a handshake are chosen.
#[derive(Clone, Copy, Debug, PartialEq, Eq, Structural)]
pub enum GreaseMode {
    /// Exactly these two values.
    Fixed(u16, u16),
    /// Two reserved codepoints drawn from the system's entropy source.
    Random,
    /// No GREASE at all.
    NoGrease,
}

/// Whether `v` is one of the sixteen reserved codepoints `0x0a0a`,
/// `0x1a1a`, ... `0xfafa`: both bytes are equal and end in the nibble `a`.
pub open spec fn is_grease_value(v: int) -> bool {
    0 <= v < 65536 && v / 256 == v % 256 && v % 16 == 10
}

/// The reserved codepoint number `k`, counted from `0x0a0a`.
pub open spec fn grease_value(k: int) -> int {
    0x0a0a + 0x1010 * k
}

/// Tells whether `u` is a reserved GREASE codepoint.
pub fn is_grease(u: u16) -> (b: bool)
    ensures
        b == is_grease_value(u as int),
{
    u / 256 == u % 256 && u % 16 == 10
}

/// The reserved codepoint that a byte of entropy selects: its low four bits
/// count from `0x0a0a` upwards.
pub fn grease_from_entropy(byte: u8) -> (v: u16)
    ensures
        v as int == grease_value(byte as int % 16),
        is_grease_value(v as int),
{
    let k: u16 = (byte % 16) as u16;
    0x0a0a + 0x1010 * k
}

/// `OsRng::try_fill_bytes` of rand_core, reached through aes-gcm's `aead`
/// module, on a buffer of two bytes. The bytes come from the operating
/// system, so nothing is claimed of them; `None` stands for the error that
/// the source returns when the system gives no entropy.
#[verifier::external_body]
fn os_entropy_pair() -> (r: Option<(u8, u8)>) {
    let mut buf = [0u8; 2];
    match aes_gcm::aead::OsRng.try_fill_bytes(&mut buf) {
        Ok(()) => Some((buf[0], buf[1])),
        Err(_) => None,
    }
}

/// Two reserved codepoints drawn independently; the two may be equal.
pub fn rand_grease_pair() -> (r: Result<(u16, u16), CoreError>)
    ensures
        match r {
            Ok(pair) => is_grease_value(pair.0 as int) && is_grease_value(pair.1 as int),
            Err(e) => e == CoreError::Io,
        },
{
    match os_entropy_pair() {
        Some((a, b)) => Ok((grease_from_entropy(a), grease_from_entropy(b))),
        None => Err(CoreError::Io),
    }
}

/// The pair of GREASE values for `mode`. `Fixed` hands back its own two
/// values and `NoGrease` the pair `(0, 0)`, which means that nothing is to be
/// inserted; neither can fail.
pub fn get_grease_pairs(mode: GreaseMode) -> (r: Result<(u16, u16), CoreError>)
    ensures
        mode matches GreaseMode::Fixed(x, y) ==> r == Ok::<(u16, u16), CoreError>((x, y)),
        mode is NoGrease ==> r == Ok::<(u16, u16), CoreError>((0u16, 0u16)),
        mode is Random ==> match r {
            Ok(pair) => is_grease_value(pair.0 as int) && is_grease_value(pair.1 as int),
            Err(e) => e == CoreError::Io,
        },
{
    match mode {
        GreaseMode::Fixed(x, y) => Ok((x, y)),
        GreaseMode::Random => rand_grease_pair(),
        GreaseMode::NoGrease => Ok((0, 0)),
    }
}

} // verus!
