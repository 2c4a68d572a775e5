//! Opening the payload of a QUIC Initial packet.
//!
//! The keys of an Initial packet come from a public salt and the
//! destination connection id, so anyone who sees the packet can derive
//! them. Header protection and packet numbers are the caller's affair:
//! the caller hands over the twelve bytes that the packet number gives.

use vstd::prelude::*;
use aes_gcm::aead::{Aead, KeyInit};
use crate::error::CoreError;
use crate::kdf::{expand_label, expanded_label, hkdf_extract, hkdf_sha256_extract};

verus! {

/// The salt of QUIC version 1.
pub open spec fn initial_salt_v1() -> Seq<u8> {
    seq![
        0x38u8,
        0x76u8,
        0x2cu8,
        0xf7u8,
        0xf5u8,
        0x59u8,
        0x34u8,
        0xb3u8,
        0x4du8,
        0x17u8,
        0x9au8,
        0xe6u8,
        0xa4u8,
        0xc8u8,
        0x0cu8,
        0xadu8,
        0xccu8,
        0xbbu8,
        0x7fu8,
        0x0au8,
    ]
}

/// The bytes of the label `quic key`.
pub open spec fn key_label() -> Seq<u8> {
    seq![0x71u8, 0x75u8, 0x69u8, 0x63u8, 0x20u8, 0x6bu8, 0x65u8, 0x79u8]
}

/// The bytes of the label `quic iv`.
pub open spec fn iv_label() -> Seq<u8> {
    seq![0x71u8, 0x75u8, 0x69u8, 0x63u8, 0x20u8, 0x69u8, 0x76u8]
}

/// The Initial secret of a connection: HKDF-Extract of the connection id
/// under the version's salt.
pub open spec fn initial_secret_of(dcid: Seq<u8>) -> Seq<u8> {
    hkdf_sha256_extract(initial_salt_v1(), dcid)
}

/// The packet protection key of `key_len` bytes.
pub open spec fn initial_key(dcid: Seq<u8>, key_len: nat) -> Seq<u8> {
    expanded_label(initial_secret_of(dcid), key_label(), Seq::empty(), key_len)
}

/// The packet protection IV of 12 bytes.
pub open spec fn initial_iv(dcid: Seq<u8>) -> Seq<u8> {
    expanded_label(initial_secret_of(dcid), iv_label(), Seq::empty(), 12)
}

/// The two sequences combined byte by byte with exclusive or, as long as
/// the first.
pub open spec fn xored(a: Seq<u8>, b: Seq<u8>) -> Seq<u8> {
    Seq::new(a.len(), |i: int| a[i] ^ b[i])
}

/// What AES-128-GCM gives on opening `sealed`; `None` where it refuses.
pub uninterp spec fn aes128_gcm_opened(
    key: Seq<u8>,
    nonce: Seq<u8>,
    aad: Seq<u8>,
    sealed: Seq<u8>,
) -> Option<Seq<u8>>;

/// What AES-256-GCM gives on opening `sealed`; `None` where it refuses.
pub uninterp spec fn aes256_gcm_opened(
    key: Seq<u8>,
    nonce: Seq<u8>,
    aad: Seq<u8>,
    sealed: Seq<u8>,
) -> Option<Seq<u8>>;

/// `Aes128Gcm::new_from_slice` and `Aead::decrypt` of the aes-gcm crate.
/// The first takes a key of 16 bytes; the nonce must have 12 bytes, or
/// the conversion to the crate's nonce type would panic. The second gives
/// the plaintext, or an error where the tag does not match or a length is
/// out of range; the error comes back as `None`.
#[verifier::external_body]
pub(crate) fn aes128_gcm_open(key: &[u8], nonce: &[u8], aad: &[u8], sealed: &[u8]) -> (r: Option<
    Vec<u8>,
>)
    requires
        key@.len() == 16,
        nonce@.len() == 12,
    ensures
        match r {
            Some(plain) => aes128_gcm_opened(key@, nonce@, aad@, sealed@) == Some(plain@),
            None => aes128_gcm_opened(key@, nonce@, aad@, sealed@) is None,
        },
{
    let cipher = aes_gcm::Aes128Gcm::new_from_slice(key).ok()?;
    let payload = aes_gcm::aead::Payload { msg: sealed, aad };
    cipher.decrypt(aes_gcm::Nonce::from_slice(nonce), payload).ok()
}

/// `Aes256Gcm::new_from_slice` and `Aead::decrypt` of the aes-gcm crate,
/// as for the 128-bit cipher, with a key of 32 bytes.
#[verifier::external_body]
pub(crate) fn aes256_gcm_open(key: &[u8], nonce: &[u8], aad: &[u8], sealed: &[u8]) -> (r: Option<
    Vec<u8>,
>)
    requires
        key@.len() == 32,
        nonce@.len() == 12,
    ensures
        match r {
            Some(plain) => aes256_gcm_opened(key@, nonce@, aad@, sealed@) == Some(plain@),
            None => aes256_gcm_opened(key@, nonce@, aad@, sealed@) is None,
        },
{
    let cipher = aes_gcm::Aes256Gcm::new_from_slice(key).ok()?;
    let payload = aes_gcm::aead::Payload { msg: sealed, aad };
    cipher.decrypt(aes_gcm::Nonce::from_slice(nonce), payload).ok()
}

/// What opening an Initial payload gives: the cipher is chosen by the key
/// length, the key and the IV come from the connection id, and the nonce
/// is the IV combined with the caller's twelve bytes.
pub open spec fn initial_opened(
    dcid: Seq<u8>,
    key_len: nat,
    sealed: Seq<u8>,
    nonce: Seq<u8>,
    aad: Seq<u8>,
) -> Option<Seq<u8>> {
    if key_len == 16 {
        aes128_gcm_opened(initial_key(dcid, 16), xored(initial_iv(dcid), nonce), aad, sealed)
    } else {
        aes256_gcm_opened(initial_key(dcid, 32), xored(initial_iv(dcid), nonce), aad, sealed)
    }
}

/// The salt of QUIC version 1.
fn initial_salt() -> (salt: [u8; 20])
    ensures
        salt@ == initial_salt_v1(),
{
    let salt: [u8; 20] = [
        0x38,
        0x76,
        0x2c,
        0xf7,
        0xf5,
        0x59,
        0x34,
        0xb3,
        0x4d,
        0x17,
        0x9a,
        0xe6,
        0xa4,
        0xc8,
        0x0c,
        0xad,
        0xcc,
        0xbb,
        0x7f,
        0x0a,
    ];
    assert(salt@ =~= initial_salt_v1());
    salt
}

/// Derives the Initial secret of the connection with this destination
/// connection id.
pub fn initial_secret(dcid: &[u8]) -> (secret: Vec<u8>)
    ensures
        secret@ == initial_secret_of(dcid@),
        secret@.len() == 32,
{
    let salt: [u8; 20] = initial_salt();
    hkdf_extract(salt.as_slice(), dcid)
}

/// Combines the IV with the caller's bytes by exclusive or.
pub fn xor_nonce(iv: &[u8], nonce: &[u8]) -> (out: Vec<u8>)
    requires
        iv@.len() == nonce@.len(),
    ensures
        out@ == xored(iv@, nonce@),
{
    let mut out: Vec<u8> = Vec::new();
    let mut i: usize = 0;
    while i < iv.len()
        invariant
            i <= iv@.len(),
            iv@.len() == nonce@.len(),
            out@ == xored(iv@, nonce@).take(i as int),
        decreases iv.len() - i,
    {
        out.push(iv[i] ^ nonce[i]);
        i += 1;
        assert(out@ =~= xored(iv@, nonce@).take(i as int));
    }
    assert(xored(iv@, nonce@).take(i as int) =~= xored(iv@, nonce@));
    out
}

/// Opens the sealed payload of an Initial packet of the connection with
/// destination connection id `dcid`. `aead_key_len` selects the cipher:
/// 16 for AES-128-GCM, 32 for AES-256-GCM. `nonce` holds the twelve bytes
/// that the packet number gives; the key info is not looked at.
///
/// A key length other than 16 and 32 is an unsupported algorithm; then a
/// nonce that has not twelve bytes is malformed; then the cipher decides,
/// and what it refuses has failed authentication.
pub fn decrypt_initial_crypto(
    dcid: &[u8],
    aead_key_len: usize,
    _key_info: &[u8],
    ciphertext: &[u8],
    nonce: &[u8],
    aad: &[u8],
) -> (r: Result<Vec<u8>, CoreError>)
    ensures
        aead_key_len != 16 && aead_key_len != 32 ==> r == Err::<Vec<u8>, CoreError>(
            CoreError::UnsupportedAlgorithm,
        ),
        (aead_key_len == 16 || aead_key_len == 32) && nonce@.len() != 12 ==> r == Err::<
            Vec<u8>,
            CoreError,
        >(CoreError::MalformedInput),
        (aead_key_len == 16 || aead_key_len == 32) && nonce@.len() == 12 ==> match r {
            Ok(plain) => initial_opened(dcid@, aead_key_len as nat, ciphertext@, nonce@, aad@)
                == Some(plain@),
            Err(e) => e == CoreError::AuthenticationFailed && initial_opened(
                dcid@,
                aead_key_len as nat,
                ciphertext@,
                nonce@,
                aad@,
            ) is None,
        },
{
    if aead_key_len != 16 && aead_key_len != 32 {
        return Err(CoreError::UnsupportedAlgorithm);
    }
    if nonce.len() != 12 {
        return Err(CoreError::MalformedInput);
    }
    let secret: Vec<u8> = initial_secret(dcid);
    let key_name: [u8; 8] = [0x71, 0x75, 0x69, 0x63, 0x20, 0x6b, 0x65, 0x79];
    let iv_name: [u8; 7] = [0x71, 0x75, 0x69, 0x63, 0x20, 0x69, 0x76];
    assert(key_name@ =~= key_label());
    assert(iv_name@ =~= iv_label());
    let no_context: Vec<u8> = Vec::new();
    let key: Vec<u8> = match expand_label(
        secret.as_slice(),
        key_name.as_slice(),
        no_context.as_slice(),
        aead_key_len,
    ) {
        Ok(k) => k,
        Err(_) => vstd::pervasive::unreached(),
    };
    let iv: Vec<u8> = match expand_label(
        secret.as_slice(),
        iv_name.as_slice(),
        no_context.as_slice(),
        12,
    ) {
        Ok(v) => v,
        Err(_) => vstd::pervasive::unreached(),
    };
    let real_nonce: Vec<u8> = xor_nonce(iv.as_slice(), nonce);
    let opened: Option<Vec<u8>> = if aead_key_len == 16 {
        aes128_gcm_open(key.as_slice(), real_nonce.as_slice(), aad, ciphertext)
    } else {
        aes256_gcm_open(key.as_slice(), real_nonce.as_slice(), aad, ciphertext)
    };
    match opened {
        Some(plain) => Ok(plain),
        None => Err(CoreError::AuthenticationFailed),
    }
}

} // verus!
