use aes_gcm::aead::{Aead, KeyInit, Payload};
use htx_cover::aead::{le64_to_bytes, ns_and_counter_to_nonce, open_chacha20poly1305, seal_chacha20poly1305};
use htx_cover::error::CoreError;
use htx_cover::kdf::{derive_k0_and_split, expand_label, hkdf_expand_label, split_k0, KeyMaterial};
use htx_cover::quic_decrypt::{decrypt_initial_crypto, initial_secret, xor_nonce};

fn unhex(text: &str) -> Vec<u8> {
    (0..text.len() / 2).map(|i| u8::from_str_radix(&text[2 * i..2 * i + 2], 16).unwrap()).collect()
}

// The vectors of RFC 9001, appendix A.1, for the connection id 8394c8f03e515708.
const DCID: &str = "8394c8f03e515708";
const INITIAL_SECRET: &str = "7db5df06e7a69e432496adedb00851923595221596ae2ae9fb8115c1e9ed0a44";
const CLIENT_SECRET: &str = "c00cf151ca5be075ed0ebfb5c80323c42d6b7db67881289af4008f1f6c357aea";
const CLIENT_KEY: &str = "1f369613dd76d5467730efcbe3b1a22d";
const CLIENT_IV: &str = "fa044b2f42a3fd3b46fb255c";
const CLIENT_HP: &str = "9f50449e04a0e810283a1e9933adedd2";

#[test]
fn initial_secret_golden_vector() {
    assert_eq!(initial_secret(&unhex(DCID)), unhex(INITIAL_SECRET));
}

#[test]
fn expand_label_golden_vectors() {
    let initial = unhex(INITIAL_SECRET);
    let client = hkdf_expand_label(&initial, "client in", &[], 32).unwrap();
    assert_eq!(client, unhex(CLIENT_SECRET));
    assert_eq!(hkdf_expand_label(&client, "quic key", &[], 16).unwrap(), unhex(CLIENT_KEY));
    assert_eq!(hkdf_expand_label(&client, "quic iv", &[], 12).unwrap(), unhex(CLIENT_IV));
    assert_eq!(hkdf_expand_label(&client, "quic hp", &[], 16).unwrap(), unhex(CLIENT_HP));
}

#[test]
fn label_as_bytes_and_as_text_agree() {
    let secret = [7u8; 32];
    assert_eq!(
        expand_label(&secret, b"ns", &[1, 2], 12).unwrap(),
        hkdf_expand_label(&secret, "ns", &[1, 2], 12).unwrap()
    );
    // the context goes into the derivation
    assert_ne!(
        hkdf_expand_label(&secret, "ns", &[1, 2], 12).unwrap(),
        hkdf_expand_label(&secret, "ns", &[], 12).unwrap()
    );
    // and so does the length
    let long = hkdf_expand_label(&secret, "ns", &[], 13).unwrap();
    assert_ne!(long[..12], hkdf_expand_label(&secret, "ns", &[], 12).unwrap()[..]);
}

#[test]
fn expand_label_limits() {
    let secret = [7u8; 32];
    let e = Err(CoreError::KeyDerivationError);
    assert_eq!(hkdf_expand_label(&secret[..31], "ns", &[], 12), e);
    assert_eq!(hkdf_expand_label(&[], "ns", &[], 12), e);
    assert!(hkdf_expand_label(&[7u8; 33], "ns", &[], 12).is_ok());
    // "tls13 " and the label must fit one length byte
    assert!(hkdf_expand_label(&secret, &"l".repeat(249), &[], 12).is_ok());
    assert_eq!(hkdf_expand_label(&secret, &"l".repeat(250), &[], 12), e);
    assert!(hkdf_expand_label(&secret, "ns", &[0u8; 255], 12).is_ok());
    assert_eq!(hkdf_expand_label(&secret, "ns", &[0u8; 256], 12), e);
    assert_eq!(hkdf_expand_label(&secret, "ns", &[], 8160).unwrap().len(), 8160);
    assert_eq!(hkdf_expand_label(&secret, "ns", &[], 8161), e);
    assert_eq!(hkdf_expand_label(&secret, "ns", &[], 0).unwrap(), Vec::<u8>::new());
}

#[test]
fn k0_is_split_and_salts_come_from_the_halves() {
    let exporter = [0x42u8; 32];
    let (k0c, k0s, nsc, nss) = derive_k0_and_split(&exporter);
    let k0 = hkdf_expand_label(&exporter, "htx inner v1", &[], 64).unwrap();
    assert_eq!(k0c, k0[..32].to_vec());
    assert_eq!(k0s, k0[32..].to_vec());
    assert_eq!(nsc, hkdf_expand_label(&k0c, "ns", &[], 12).unwrap());
    assert_eq!(nss, hkdf_expand_label(&k0s, "ns", &[], 12).unwrap());
    assert_ne!(k0c, k0s);
    assert_ne!(nsc, nss);
    let keys = KeyMaterial::derive(&exporter);
    assert_eq!((keys.k0_client, keys.k0_server, keys.ns_client, keys.ns_server), (k0c, k0s, nsc, nss));
}

#[test]
fn counter_bytes_least_significant_first() {
    assert_eq!(le64_to_bytes(0x0102030405060708), [8, 7, 6, 5, 4, 3, 2, 1]);
    assert_eq!(le64_to_bytes(0), [0; 8]);
    assert_eq!(le64_to_bytes(u64::MAX), [0xff; 8]);
    assert_eq!(le64_to_bytes(256), [0, 1, 0, 0, 0, 0, 0, 0]);
}

#[test]
fn nonce_folds_the_counter_into_the_salt() {
    let ns = [0x10, 0x20, 0x30, 0x40, 0x50, 0x60, 0x70, 0x80, 0x90, 0xa0, 0xb0, 0xc0];
    assert_eq!(ns_and_counter_to_nonce(&ns, 0), ns);
    assert_eq!(
        ns_and_counter_to_nonce(&ns, 0x0102030405060708),
        [0x18, 0x27, 0x36, 0x45, 0x54, 0x63, 0x72, 0x81, 0x90, 0xa0, 0xb0, 0xc0]
    );
    assert_eq!(
        ns_and_counter_to_nonce(&ns, u64::MAX),
        [0xef, 0xdf, 0xcf, 0xbf, 0xaf, 0x9f, 0x8f, 0x7f, 0x90, 0xa0, 0xb0, 0xc0]
    );
}

#[test]
fn seal_and_open_round_trip() {
    let key = [9u8; 32];
    let ns = [1u8; 12];
    let sealed = seal_chacha20poly1305(&key, &ns, 5, b"header", b"hello tunnel").unwrap();
    assert_eq!(sealed.len(), 12 + 16);
    assert_ne!(&sealed[..12], b"hello tunnel");
    assert_eq!(
        open_chacha20poly1305(&key, &ns, 5, b"header", &sealed),
        Ok(b"hello tunnel".to_vec())
    );
    let empty = seal_chacha20poly1305(&key, &ns, 6, b"", b"").unwrap();
    assert_eq!(empty.len(), 16);
    assert_eq!(open_chacha20poly1305(&key, &ns, 6, b"", &empty), Ok(vec![]));
}

#[test]
fn seal_matches_the_cipher_at_the_counted_nonce() {
    let key = [9u8; 32];
    let ns = [0x10, 0x20, 0x30, 0x40, 0x50, 0x60, 0x70, 0x80, 0x90, 0xa0, 0xb0, 0xc0];
    let nonce = ns_and_counter_to_nonce(&ns, 258);
    let cipher = chacha20poly1305::ChaCha20Poly1305::new(chacha20poly1305::Key::from_slice(&key));
    let expected = cipher
        .encrypt(chacha20poly1305::Nonce::from_slice(&nonce), Payload { msg: b"msg", aad: b"aad" })
        .unwrap();
    assert_eq!(seal_chacha20poly1305(&key, &ns, 258, b"aad", b"msg").unwrap(), expected);
}

#[test]
fn opening_under_another_key_fails_authentication() {
    let ns = [1u8; 12];
    let sealed = seal_chacha20poly1305(&[9u8; 32], &ns, 1, b"", b"secret").unwrap();
    let e = Err(CoreError::AuthenticationFailed);
    assert_eq!(open_chacha20poly1305(&[8u8; 32], &ns, 1, b"", &sealed), e);
    // another counter, another salt, other associated data, a changed byte
    assert_eq!(open_chacha20poly1305(&[9u8; 32], &ns, 2, b"", &sealed), e);
    assert_eq!(open_chacha20poly1305(&[9u8; 32], &[2u8; 12], 1, b"", &sealed), e);
    assert_eq!(open_chacha20poly1305(&[9u8; 32], &ns, 1, b"x", &sealed), e);
    let mut changed = sealed.clone();
    changed[0] ^= 1;
    assert_eq!(open_chacha20poly1305(&[9u8; 32], &ns, 1, b"", &changed), e);
    // shorter than a tag
    assert_eq!(open_chacha20poly1305(&[9u8; 32], &ns, 1, b"", &sealed[..15]), e);
    assert_eq!(open_chacha20poly1305(&[9u8; 32], &ns, 1, b"", &sealed), Ok(b"secret".to_vec()));
}

#[test]
fn key_of_wrong_length_is_unsupported() {
    let ns = [1u8; 12];
    let e = Err(CoreError::UnsupportedAlgorithm);
    assert_eq!(seal_chacha20poly1305(&[9u8; 31], &ns, 1, b"", b"x"), e);
    assert_eq!(seal_chacha20poly1305(&[9u8; 33], &ns, 1, b"", b"x"), e);
    assert_eq!(open_chacha20poly1305(&[], &ns, 1, b"", b"x"), e);
}

fn initial_keys(dcid: &[u8], key_len: usize) -> (Vec<u8>, Vec<u8>) {
    let secret = initial_secret(dcid);
    (
        hkdf_expand_label(&secret, "quic key", &[], key_len).unwrap(),
        hkdf_expand_label(&secret, "quic iv", &[], 12).unwrap(),
    )
}

#[test]
fn initial_payload_is_opened_with_the_derived_keys() {
    let dcid = unhex(DCID);
    let pn = [0, 0, 0, 0, 0, 0, 0, 0, 0, 0, 0, 2];
    for key_len in [16usize, 32] {
        let (key, iv) = initial_keys(&dcid, key_len);
        let nonce: Vec<u8> = iv.iter().zip(pn.iter()).map(|(a, b)| a ^ b).collect();
        let payload = Payload { msg: b"crypto frame", aad: b"header" };
        let sealed = if key_len == 16 {
            let cipher = aes_gcm::Aes128Gcm::new_from_slice(&key).unwrap();
            cipher.encrypt(aes_gcm::Nonce::from_slice(&nonce), payload).unwrap()
        } else {
            let cipher = aes_gcm::Aes256Gcm::new_from_slice(&key).unwrap();
            cipher.encrypt(aes_gcm::Nonce::from_slice(&nonce), payload).unwrap()
        };
        assert_eq!(
            decrypt_initial_crypto(&dcid, key_len, &[], &sealed, &pn, b"header"),
            Ok(b"crypto frame".to_vec())
        );
        let e = Err(CoreError::AuthenticationFailed);
        assert_eq!(decrypt_initial_crypto(&dcid, key_len, &[], &sealed, &pn, b"other"), e);
        assert_eq!(decrypt_initial_crypto(&[1, 2], key_len, &[], &sealed, &pn, b"header"), e);
        assert_eq!(decrypt_initial_crypto(&dcid, key_len, &[], &sealed, &[0; 12], b"header"), e);
        assert_eq!(decrypt_initial_crypto(&dcid, key_len, &[], &sealed[..5], &pn, b"header"), e);
    }
}

#[test]
fn initial_decryption_refuses_other_key_lengths_and_nonces() {
    let dcid = unhex(DCID);
    for key_len in [0usize, 15, 17, 24, 31, 33, 9000] {
        assert_eq!(
            decrypt_initial_crypto(&dcid, key_len, &[], &[0; 32], &[0; 12], &[]),
            Err(CoreError::UnsupportedAlgorithm)
        );
    }
    assert_eq!(
        decrypt_initial_crypto(&dcid, 16, &[], &[0; 32], &[0; 11], &[]),
        Err(CoreError::MalformedInput)
    );
    assert_eq!(
        decrypt_initial_crypto(&dcid, 32, &[], &[0; 32], &[0; 13], &[]),
        Err(CoreError::MalformedInput)
    );
    // the key length is looked at first
    assert_eq!(
        decrypt_initial_crypto(&dcid, 8, &[], &[0; 32], &[], &[]),
        Err(CoreError::UnsupportedAlgorithm)
    );
}

#[test]
fn k0_is_cut_in_the_middle() {
    let k0: Vec<u8> = (0u8..64).collect();
    let (client, server) = split_k0(&k0);
    assert_eq!(client, (0u8..32).collect::<Vec<u8>>());
    assert_eq!(server, (32u8..64).collect::<Vec<u8>>());
}

#[test]
fn nonce_is_iv_xor_packet_number_bytes() {
    assert_eq!(xor_nonce(&[0xff, 0x0f, 0x00], &[0x0f, 0x0f, 0xaa]), vec![0xf0, 0x00, 0xaa]);
    assert_eq!(xor_nonce(&[], &[]), Vec::<u8>::new());
}
