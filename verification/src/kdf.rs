//! The key schedule: HKDF with SHA-256 and the labels of TLS 1.3.

use vstd::prelude::*;
use vstd::utf8::encode_utf8;
use hkdf::Hkdf;
use sha2::Sha256;
use crate::error::CoreError;
use crate::wire::{be16, counted8, write_bytes, write_len16_be, write_len8};

verus! {

/// The longest output that one expansion gives: 255 blocks of 32 bytes.
pub const MAX_OUTPUT: usize = 8160;

/// The shortest pseudorandom key: one block of the hash.
pub const MIN_PRK: usize = 32;

/// What HKDF-Extract gives for a salt and input keying material.
pub uninterp spec fn hkdf_sha256_extract(salt: Seq<u8>, ikm: Seq<u8>) -> Seq<u8>;

/// What HKDF-Expand gives for a pseudorandom key, an info block and an
/// output length.
pub uninterp spec fn hkdf_sha256_expand(prk: Seq<u8>, info: Seq<u8>, len: nat) -> Seq<u8>;

/// `Hkdf::<Sha256>::extract` of the hkdf crate, with the salt given: the
/// pseudorandom key, which has the 32 bytes of a SHA-256 output.
#[verifier::external_body]
pub(crate) fn hkdf_extract(salt: &[u8], ikm: &[u8]) -> (prk: Vec<u8>)
    ensures
        prk@ == hkdf_sha256_extract(salt@, ikm@),
        prk@.len() == 32,
{
    let (prk, _) = Hkdf::<Sha256>::extract(Some(salt), ikm);
    prk.to_vec()
}

/// `Hkdf::<Sha256>::from_prk` of the hkdf crate followed by `expand` into
/// a buffer of `len` bytes. The first refuses a key shorter than 32 bytes
/// and nothing else; the second refuses an output over 8160 bytes, which
/// the precondition leaves out, and otherwise fills the buffer.
#[verifier::external_body]
pub(crate) fn hkdf_expand(prk: &[u8], info: &[u8], len: usize) -> (r: Option<Vec<u8>>)
    requires
        len <= MAX_OUTPUT,
    ensures
        r is Some <==> prk@.len() >= MIN_PRK,
        r matches Some(okm) ==> okm@ == hkdf_sha256_expand(prk@, info@, len as nat) && okm@.len()
            == len,
{
    let hk = Hkdf::<Sha256>::from_prk(prk).ok()?;
    let mut okm = vec![0u8; len];
    hk.expand(info, &mut okm).ok()?;
    Some(okm)
}

/// The bytes of `tls13 `, which stand in front of every label.
pub open spec fn label_prefix() -> Seq<u8> {
    seq![0x74u8, 0x6cu8, 0x73u8, 0x31u8, 0x33u8, 0x20u8]
}

/// The info block of a labelled expansion: the output length in two bytes,
/// most significant first; `tls13 ` and the label behind their length in
/// one byte; the context behind its length in one byte.
pub open spec fn label_info(label: Seq<u8>, context: Seq<u8>, length: nat) -> Seq<u8> {
    be16(length as int) + counted8(label_prefix() + label) + counted8(context)
}

/// Whether label, context and output length fit the info block and the
/// expansion.
pub open spec fn label_fits(label: Seq<u8>, context: Seq<u8>, length: nat) -> bool {
    6 + label.len() <= 255 && context.len() <= 255 && length <= MAX_OUTPUT
}

/// What a labelled expansion of `secret` gives.
pub open spec fn expanded_label(secret: Seq<u8>, label: Seq<u8>, context: Seq<u8>, length: nat)
    -> Seq<u8> {
    hkdf_sha256_expand(secret, label_info(label, context, length), length)
}

/// Builds the info block of a labelled expansion.
fn build_label_info(label: &[u8], context: &[u8], length: usize) -> (info: Vec<u8>)
    ensures
        info@ == label_info(label@, context@, length as nat),
{
    let mut info: Vec<u8> = Vec::new();
    write_len16_be(&mut info, length);
    let mut full: Vec<u8> = Vec::new();
    full.push(0x74u8);
    full.push(0x6cu8);
    full.push(0x73u8);
    full.push(0x31u8);
    full.push(0x33u8);
    full.push(0x20u8);
    write_bytes(&mut full, label);
    assert(full@ =~= label_prefix() + label@);
    write_len8(&mut info, full.len());
    write_bytes(&mut info, full.as_slice());
    write_len8(&mut info, context.len());
    write_bytes(&mut info, context);
    assert(info@ =~= label_info(label@, context@, length as nat));
    info
}

/// HKDF-Expand-Label on a label given as bytes. The call succeeds exactly
/// where the secret has at least 32 bytes and label, context and length
/// fit.
pub fn expand_label(secret: &[u8], label: &[u8], context: &[u8], length: usize) -> (r: Result<
    Vec<u8>,
    CoreError,
>)
    ensures
        r is Ok <==> secret@.len() >= MIN_PRK && label_fits(label@, context@, length as nat),
        match r {
            Ok(okm) => okm@ == expanded_label(secret@, label@, context@, length as nat)
                && okm@.len() == length,
            Err(e) => e == CoreError::KeyDerivationError,
        },
{
    if label.len() > 249 || context.len() > 255 || length > MAX_OUTPUT {
        return Err(CoreError::KeyDerivationError);
    }
    let info: Vec<u8> = build_label_info(label, context, length);
    match hkdf_expand(secret, info.as_slice(), length) {
        Some(okm) => Ok(okm),
        None => Err(CoreError::KeyDerivationError),
    }
}

/// HKDF-Expand-Label: expands `secret`, taken as a pseudorandom key, under
/// the info block of `label` and `context`. The label goes in as its UTF-8
/// bytes. The call succeeds exactly where the secret has at least 32
/// bytes, `tls13 ` with the label and the context have at most 255 bytes
/// each, and the length is at most 8160.
pub fn hkdf_expand_label(secret: &[u8], label: &str, context: &[u8], length: usize) -> (r: Result<
    Vec<u8>,
    CoreError,
>)
    ensures
        r is Ok <==> secret@.len() >= MIN_PRK && label_fits(
            encode_utf8(label@),
            context@,
            length as nat,
        ),
        match r {
            Ok(okm) => okm@ == expanded_label(
                secret@,
                encode_utf8(label@),
                context@,
                length as nat,
            ) && okm@.len() == length,
            Err(e) => e == CoreError::KeyDerivationError,
        },
{
    expand_label(secret, label.as_bytes(), context, length)
}

/// The bytes of the label `htx inner v1`.
pub open spec fn inner_label() -> Seq<u8> {
    seq![
        0x68u8,
        0x74u8,
        0x78u8,
        0x20u8,
        0x69u8,
        0x6eu8,
        0x6eu8,
        0x65u8,
        0x72u8,
        0x20u8,
        0x76u8,
        0x31u8,
    ]
}

/// The bytes of the label `ns`.
pub open spec fn salt_label() -> Seq<u8> {
    seq![0x6eu8, 0x73u8]
}

/// The 64 bytes from which both sides' keys are cut.
pub open spec fn k0(exporter: Seq<u8>) -> Seq<u8> {
    expanded_label(exporter, inner_label(), Seq::empty(), 64)
}

/// The client's key: the first half of `k0`.
pub open spec fn k0_client(exporter: Seq<u8>) -> Seq<u8> {
    k0(exporter).subrange(0, 32)
}

/// The server's key: the second half of `k0`.
pub open spec fn k0_server(exporter: Seq<u8>) -> Seq<u8> {
    k0(exporter).subrange(32, 64)
}

/// The nonce salt that belongs to a key.
pub open spec fn nonce_salt(key: Seq<u8>) -> Seq<u8> {
    expanded_label(key, salt_label(), Seq::empty(), 12)
}

/// The tunnel's secrets, derived from the TLS exporter secret.
pub struct KeyMaterial {
    pub k0_client: Vec<u8>,
    pub k0_server: Vec<u8>,
    pub ns_client: Vec<u8>,
    pub ns_server: Vec<u8>,
}

impl KeyMaterial {
    /// Whether these are the secrets that `exporter` gives.
    pub open spec fn derived_from(&self, exporter: Seq<u8>) -> bool {
        &&& self.k0_client@ == k0_client(exporter)
        &&& self.k0_server@ == k0_server(exporter)
        &&& self.ns_client@ == nonce_salt(k0_client(exporter))
        &&& self.ns_server@ == nonce_salt(k0_server(exporter))
    }

    /// Whether the keys have 32 bytes and the salts 12.
    pub open spec fn well_formed(&self) -> bool {
        &&& self.k0_client@.len() == 32
        &&& self.k0_server@.len() == 32
        &&& self.ns_client@.len() == 12
        &&& self.ns_server@.len() == 12
    }

    /// Derives the tunnel's secrets from a 32-byte exporter secret.
    pub fn derive(exporter: &[u8]) -> (keys: KeyMaterial)
        requires
            exporter@.len() == 32,
        ensures
            keys.derived_from(exporter@),
            keys.well_formed(),
    {
        let (k0_client, k0_server, ns_client, ns_server) = derive_k0_and_split(exporter);
        KeyMaterial { k0_client, k0_server, ns_client, ns_server }
    }
}

/// Expands a secret that is known to be long enough under a label that
/// is known to fit.
fn expand_fitting(secret: &[u8], label: &[u8], length: usize) -> (okm: Vec<u8>)
    requires
        secret@.len() >= MIN_PRK,
        label@.len() <= 249,
        length <= MAX_OUTPUT,
    ensures
        okm@ == expanded_label(secret@, label@, Seq::empty(), length as nat),
        okm@.len() == length,
{
    let context: Vec<u8> = Vec::new();
    match expand_label(secret, label, context.as_slice(), length) {
        Ok(okm) => okm,
        Err(_) => vstd::pervasive::unreached(),
    }
}

/// Cuts the 64 bytes of `k0` into the client's key and the server's key.
pub fn split_k0(k0: &[u8]) -> (halves: (Vec<u8>, Vec<u8>))
    requires
        k0@.len() == 64,
    ensures
        halves.0@ == k0@.subrange(0, 32),
        halves.1@ == k0@.subrange(32, 64),
{
    let client: Vec<u8> = vstd::slice::slice_to_vec(vstd::slice::slice_subrange(k0, 0, 32));
    let server: Vec<u8> = vstd::slice::slice_to_vec(vstd::slice::slice_subrange(k0, 32, 64));
    (client, server)
}

/// Derives the secrets of both directions from the 32-byte exporter
/// secret: the client's key, the server's key, the client's nonce salt
/// and the server's nonce salt, in this order. The keys are the two
/// halves of 64 bytes expanded under the label `htx inner v1`; each salt
/// is 12 bytes expanded from its key under the label `ns`. Both contexts
/// are empty.
pub fn derive_k0_and_split(tls_exporter_32: &[u8]) -> (r: (Vec<u8>, Vec<u8>, Vec<u8>, Vec<u8>))
    requires
        tls_exporter_32@.len() == 32,
    ensures
        r.0@ == k0_client(tls_exporter_32@),
        r.1@ == k0_server(tls_exporter_32@),
        r.2@ == nonce_salt(k0_client(tls_exporter_32@)),
        r.3@ == nonce_salt(k0_server(tls_exporter_32@)),
        r.0@.len() == 32,
        r.1@.len() == 32,
        r.2@.len() == 12,
        r.3@.len() == 12,
{
    let inner: [u8; 12] = [0x68, 0x74, 0x78, 0x20, 0x69, 0x6e, 0x6e, 0x65, 0x72, 0x20, 0x76, 0x31];
    let ns: [u8; 2] = [0x6e, 0x73];
    assert(inner@ =~= inner_label());
    assert(ns@ =~= salt_label());
    let k0: Vec<u8> = expand_fitting(tls_exporter_32, inner.as_slice(), 64);
    let (k0c, k0s) = split_k0(k0.as_slice());
    let nsc: Vec<u8> = expand_fitting(k0c.as_slice(), ns.as_slice(), 12);
    let nss: Vec<u8> = expand_fitting(k0s.as_slice(), ns.as_slice(), 12);
    (k0c, k0s, nsc, nss)
}

} // verus!
