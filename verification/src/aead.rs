//! Sealing and opening with ChaCha20-Poly1305 under a counted nonce.
//!
//! Each direction of a tunnel has a key, a nonce salt of twelve bytes and
//! a counter. The nonce of a message is the salt with the counter folded
//! into its first eight bytes, so two counters never give the same nonce.

use vstd::prelude::*;
use chacha20poly1305::aead::{Aead, KeyInit};
use crate::error::CoreError;

verus! {

/// The number of 64-byte blocks at which the cipher refuses a message.
pub const MAX_BLOCKS: u64 = 0xffff_ffff;

/// The eight bytes of `v`, least significant first.
pub open spec fn le64(v: u64) -> Seq<u8> {
    seq![
        (v % 256) as u8,
        ((v / 0x100) % 256) as u8,
        ((v / 0x1_0000) % 256) as u8,
        ((v / 0x100_0000) % 256) as u8,
        ((v / 0x1_0000_0000) % 256) as u8,
        ((v / 0x100_0000_0000) % 256) as u8,
        ((v / 0x1_0000_0000_0000) % 256) as u8,
        ((v / 0x100_0000_0000_0000) % 256) as u8,
    ]
}

/// The nonce of message number `counter`: the first eight bytes of the
/// salt combined with the counter's bytes by exclusive or, then the last
/// four bytes of the salt.
pub open spec fn nonce_of(ns: Seq<u8>, counter: u64) -> Seq<u8> {
    Seq::new(
        12,
        |i: int|
            if i < 8 {
                ns[i] ^ le64(counter)[i]
            } else {
                ns[i]
            },
    )
}

/// What ChaCha20-Poly1305 gives on sealing `plain`; `None` where it refuses.
pub uninterp spec fn chacha20poly1305_sealed(
    key: Seq<u8>,
    nonce: Seq<u8>,
    aad: Seq<u8>,
    plain: Seq<u8>,
) -> Option<Seq<u8>>;

/// What ChaCha20-Poly1305 gives on opening `sealed`; `None` where it refuses.
pub uninterp spec fn chacha20poly1305_opened(
    key: Seq<u8>,
    nonce: Seq<u8>,
    aad: Seq<u8>,
    sealed: Seq<u8>,
) -> Option<Seq<u8>>;

/// `ChaCha20Poly1305::new` and `Aead::encrypt` of the chacha20poly1305
/// crate. Key and nonce must have 32 and 12 bytes, or the conversion to
/// the crate's types would panic. The result is the ciphertext with the
/// tag of 16 bytes behind it. The cipher refuses only a message of 2^32-1
/// blocks of 64 bytes or more; its error comes back as `None`.
#[verifier::external_body]
pub(crate) fn chacha_seal(key: &[u8], nonce: &[u8], aad: &[u8], plain: &[u8]) -> (r: Option<
    Vec<u8>,
>)
    requires
        key@.len() == 32,
        nonce@.len() == 12,
    ensures
        match r {
            Some(sealed) => chacha20poly1305_sealed(key@, nonce@, aad@, plain@) == Some(sealed@)
                && sealed@.len() == plain@.len() + 16,
            None => chacha20poly1305_sealed(key@, nonce@, aad@, plain@) is None,
        },
        plain@.len() / 64 < MAX_BLOCKS ==> r is Some,
{
    let cipher = chacha20poly1305::ChaCha20Poly1305::new(chacha20poly1305::Key::from_slice(key));
    let payload = chacha20poly1305::aead::Payload { msg: plain, aad };
    cipher.encrypt(chacha20poly1305::Nonce::from_slice(nonce), payload).ok()
}

/// `ChaCha20Poly1305::new` and `Aead::decrypt` of the chacha20poly1305
/// crate. Key and nonce must have 32 and 12 bytes, as for sealing. The
/// result is the plaintext; the cipher's error, which it gives where the
/// tag does not match or the input is shorter than a tag, comes back as
/// `None`.
#[verifier::external_body]
pub(crate) fn chacha_open(key: &[u8], nonce: &[u8], aad: &[u8], sealed: &[u8]) -> (r: Option<
    Vec<u8>,
>)
    requires
        key@.len() == 32,
        nonce@.len() == 12,
    ensures
        match r {
            Some(plain) => chacha20poly1305_opened(key@, nonce@, aad@, sealed@) == Some(plain@),
            None => chacha20poly1305_opened(key@, nonce@, aad@, sealed@) is None,
        },
{
    let cipher = chacha20poly1305::ChaCha20Poly1305::new(chacha20poly1305::Key::from_slice(key));
    let payload = chacha20poly1305::aead::Payload { msg: sealed, aad };
    cipher.decrypt(chacha20poly1305::Nonce::from_slice(nonce), payload).ok()
}

/// The eight bytes of `v`, least significant first.
pub fn le64_to_bytes(v: u64) -> (bytes: [u8; 8])
    ensures
        bytes@ == le64(v),
{
    let bytes: [u8; 8] = [
        (v % 256) as u8,
        ((v / 0x100) % 256) as u8,
        ((v / 0x1_0000) % 256) as u8,
        ((v / 0x100_0000) % 256) as u8,
        ((v / 0x1_0000_0000) % 256) as u8,
        ((v / 0x100_0000_0000) % 256) as u8,
        ((v / 0x1_0000_0000_0000) % 256) as u8,
        ((v / 0x100_0000_0000_0000) % 256) as u8,
    ];
    assert(bytes@ =~= le64(v));
    bytes
}

/// Builds the nonce of message number `counter` from the nonce salt.
pub fn ns_and_counter_to_nonce(ns: &[u8], counter: u64) -> (nonce: [u8; 12])
    requires
        ns@.len() == 12,
    ensures
        nonce@ == nonce_of(ns@, counter),
{
    let c: [u8; 8] = le64_to_bytes(counter);
    let nonce: [u8; 12] = [
        ns[0] ^ c[0],
        ns[1] ^ c[1],
        ns[2] ^ c[2],
        ns[3] ^ c[3],
        ns[4] ^ c[4],
        ns[5] ^ c[5],
        ns[6] ^ c[6],
        ns[7] ^ c[7],
        ns[8],
        ns[9],
        ns[10],
        ns[11],
    ];
    assert(nonce@ =~= nonce_of(ns@, counter));
    nonce
}

/// What sealing message number `counter` gives.
pub open spec fn sealed_message(
    key: Seq<u8>,
    ns: Seq<u8>,
    counter: u64,
    aad: Seq<u8>,
    plain: Seq<u8>,
) -> Option<Seq<u8>> {
    chacha20poly1305_sealed(key, nonce_of(ns, counter), aad, plain)
}

/// What opening message number `counter` gives.
pub open spec fn opened_message(
    key: Seq<u8>,
    ns: Seq<u8>,
    counter: u64,
    aad: Seq<u8>,
    sealed: Seq<u8>,
) -> Option<Seq<u8>> {
    chacha20poly1305_opened(key, nonce_of(ns, counter), aad, sealed)
}

/// Seals `plaintext` as message number `counter_le64`. A key that has not
/// 32 bytes belongs to no supported algorithm. Otherwise the cipher seals:
/// its output is the ciphertext with the tag, 16 bytes longer than the
/// plaintext. It refuses only a plaintext of 2^32-1 blocks of 64 bytes or
/// more, which is reported as `Io`.
pub fn seal_chacha20poly1305(
    key: &[u8],
    ns: &[u8],
    counter_le64: u64,
    aad: &[u8],
    plaintext: &[u8],
) -> (r: Result<Vec<u8>, CoreError>)
    requires
        ns@.len() == 12,
    ensures
        key@.len() != 32 ==> r == Err::<Vec<u8>, CoreError>(CoreError::UnsupportedAlgorithm),
        key@.len() == 32 && plaintext@.len() / 64 < MAX_BLOCKS ==> r is Ok,
        key@.len() == 32 ==> match r {
            Ok(sealed) => sealed_message(key@, ns@, counter_le64, aad@, plaintext@) == Some(
                sealed@,
            ) && sealed@.len() == plaintext@.len() + 16,
            Err(e) => e == CoreError::Io && sealed_message(
                key@,
                ns@,
                counter_le64,
                aad@,
                plaintext@,
            ) is None,
        },
{
    if key.len() != 32 {
        return Err(CoreError::UnsupportedAlgorithm);
    }
    let nonce: [u8; 12] = ns_and_counter_to_nonce(ns, counter_le64);
    match chacha_seal(key, nonce.as_slice(), aad, plaintext) {
        Some(sealed) => Ok(sealed),
        None => Err(CoreError::Io),
    }
}

/// Opens `ct_with_tag` as message number `counter_le64`. A key that has
/// not 32 bytes belongs to no supported algorithm. Otherwise the cipher
/// decides: it gives the plaintext, and what it refuses has failed
/// authentication. No part of a refused message is handed out.
pub fn open_chacha20poly1305(
    key: &[u8],
    ns: &[u8],
    counter_le64: u64,
    aad: &[u8],
    ct_with_tag: &[u8],
) -> (r: Result<Vec<u8>, CoreError>)
    requires
        ns@.len() == 12,
    ensures
        key@.len() != 32 ==> r == Err::<Vec<u8>, CoreError>(CoreError::UnsupportedAlgorithm),
        key@.len() == 32 ==> match r {
            Ok(plain) => opened_message(key@, ns@, counter_le64, aad@, ct_with_tag@) == Some(
                plain@,
            ),
            Err(e) => e == CoreError::AuthenticationFailed && opened_message(
                key@,
                ns@,
                counter_le64,
                aad@,
                ct_with_tag@,
            ) is None,
        },
{
    if key.len() != 32 {
        return Err(CoreError::UnsupportedAlgorithm);
    }
    let nonce: [u8; 12] = ns_and_counter_to_nonce(ns, counter_le64);
    match chacha_open(key, nonce.as_slice(), aad, ct_with_tag) {
        Some(plain) => Ok(plain),
        None => Err(CoreError::AuthenticationFailed),
    }
}

/// A number below 2^64 is the sum of its eight bytes, each at its place.
proof fn lemma_le64_spells(v: u64)
    ensures
        v as int == le64(v)[0] as int + 0x100 * le64(v)[1] as int + 0x1_0000 * le64(v)[2] as int
            + 0x100_0000 * le64(v)[3] as int + 0x1_0000_0000 * le64(v)[4] as int
            + 0x100_0000_0000 * le64(v)[5] as int + 0x1_0000_0000_0000 * le64(v)[6] as int
            + 0x100_0000_0000_0000 * le64(v)[7] as int,
{
    let v0 = v as int;
    let v1 = v0 / 256;
    let v2 = v1 / 256;
    let v3 = v2 / 256;
    let v4 = v3 / 256;
    let v5 = v4 / 256;
    let v6 = v5 / 256;
    let v7 = v6 / 256;
    assert(v1 == v0 / 0x100);
    assert(v2 == v0 / 0x1_0000);
    assert(v3 == v0 / 0x100_0000);
    assert(v4 == v0 / 0x1_0000_0000);
    assert(v5 == v0 / 0x100_0000_0000);
    assert(v6 == v0 / 0x1_0000_0000_0000);
    assert(v7 == v0 / 0x100_0000_0000_0000);
    assert(v7 < 256);
}

/// Exclusive or with the same byte keeps different bytes different.
proof fn lemma_xor_keeps_apart(x: u8, a: u8, b: u8)
    requires
        a != b,
    ensures
        x ^ a != x ^ b,
{
    assert(a != b ==> x ^ a != x ^ b) by (bit_vector);
}

/// Two different counters give two different nonces under the same salt:
/// as long as a direction's counter only moves forward, no nonce of that
/// direction comes twice.
pub proof fn lemma_nonces_differ(ns: Seq<u8>, first: u64, second: u64)
    requires
        first != second,
    ensures
        nonce_of(ns, first) != nonce_of(ns, second),
{
    lemma_le64_spells(first);
    lemma_le64_spells(second);
    let a = le64(first);
    let b = le64(second);
    let i = choose|i: int| 0 <= i < 8 && a[i] != b[i];
    assert(exists|i: int| 0 <= i < 8 && a[i] != b[i]) by {
        if forall|i: int| 0 <= i < 8 ==> a[i] == b[i] {
            assert(a[0] == b[0] && a[1] == b[1] && a[2] == b[2] && a[3] == b[3] && a[4] == b[4]
                && a[5] == b[5] && a[6] == b[6] && a[7] == b[7]);
            assert(false);
        }
    };
    lemma_xor_keeps_apart(ns[i], a[i], b[i]);
    assert(nonce_of(ns, first)[i] != nonce_of(ns, second)[i]);
}

} // verus!
