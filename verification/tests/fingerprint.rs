use htx_cover::digest::{hex_lower, md5_hex};
use htx_cover::error::CoreError;
use htx_cover::flows::TlsSnapshot;
use htx_cover::grease::GreaseMode;
use htx_cover::ja3::{ja3_canonical, ja3_from_raw, parse_client_hello, snapshot_to_ja3, Ja3Outcome};
use htx_cover::ja4::{
    extract_h2_settings_from_bytes, extract_h3_settings_from_bytes, ja4_h2, ja4_h2_from_raw, ja4_h3,
    ja4_h3_from_raw, H2Settings, H3Settings,
};
use htx_cover::selftest::fingerprints_match;
use htx_cover::template::{Encoder, Extension, HelloTemplate};
use md5::Digest;

fn reference_md5(text: &[u8]) -> String {
    format!("{:x}", md5::Md5::digest(text))
}

fn hello(cipher_suites: Vec<u16>, extensions: Vec<Extension>) -> Vec<u8> {
    let t = HelloTemplate {
        tls_version: 0x0304,
        client_random: Some([3u8; 32]),
        session_id: Some(vec![1, 2, 3, 4]),
        cipher_suites,
        compression_methods: vec![0],
        extensions,
        grease_mode: GreaseMode::NoGrease,
        psk_key_exchange_modes: None,
    };
    Encoder::encode_client_hello(&t, false).unwrap().raw_bytes
}

#[test]
fn md5_of_known_texts() {
    assert_eq!(md5_hex(b""), "d41d8cd98f00b204e9800998ecf8427e");
    assert_eq!(md5_hex(b"abc"), "900150983cd24fb0d6963f7d28e17f72");
    assert_eq!(md5_hex(b"message digest"), "f96b697d7cb7938d525a2f31aaf161d0");
}

#[test]
fn hex_is_lowercase_with_two_digits_a_byte() {
    assert_eq!(hex_lower(&[0x00, 0x0f, 0xa0, 0xff, 0x5c]), "000fa0ff5c");
    assert_eq!(hex_lower(&[]), "");
}

#[test]
fn parse_reads_what_the_encoder_wrote() {
    let raw = hello(
        vec![0x1301, 0x1302],
        vec![
            Extension::SupportedVersions { versions: vec![0x0304] },
            Extension::SupportedGroups { groups: vec![0x001d, 0x0017], grease_slots: vec![] },
            Extension::Unknown { typ: 0x000b, bytes: vec![2, 0, 1] },
        ],
    );
    let p = parse_client_hello(&raw).unwrap();
    assert_eq!(p.version, 0x0303);
    assert_eq!(p.cipher_suites, vec![0x1301, 0x1302]);
    assert_eq!(p.extensions, vec![0x002b, 0x000a, 0x000b]);
    assert_eq!(p.supported_groups, vec![0x001d, 0x0017]);
    assert_eq!(p.ec_point_formats, vec![0, 1]);
}

#[test]
fn grease_stays_out_of_the_parsed_lists() {
    let raw = hello(
        vec![0x0a0a, 0x1301, 0xfafa, 0x1302],
        vec![
            Extension::Unknown { typ: 0x2a2a, bytes: vec![0] },
            Extension::SupportedGroups { groups: vec![0x3a3a, 0x001d], grease_slots: vec![0x3a3a] },
            Extension::SupportedVersions { versions: vec![0x4a4a, 0x0304] },
        ],
    );
    // the GREASE values are on the wire
    assert!(raw.windows(2).any(|w| w == [0x0a, 0x0a]));
    assert!(raw.windows(2).any(|w| w == [0x2a, 0x2a]));
    let p = parse_client_hello(&raw).unwrap();
    assert_eq!(p.cipher_suites, vec![0x1301, 0x1302]);
    assert_eq!(p.extensions, vec![0x000a, 0x002b]);
    assert_eq!(p.supported_groups, vec![0x001d]);
    assert_eq!(ja3_canonical(&p), b"771,4865-4866,10-43,29,".to_vec());
}

#[test]
fn ja3_line_and_digest() {
    let raw = hello(
        vec![0x1301, 0x1302],
        vec![
            Extension::SupportedVersions { versions: vec![0x0304] },
            Extension::SupportedGroups { groups: vec![0x001d], grease_slots: vec![] },
        ],
    );
    let p = parse_client_hello(&raw).unwrap();
    assert_eq!(ja3_canonical(&p), b"771,4865-4866,43-10,29,".to_vec());
    let digest = ja3_from_raw(&raw).unwrap();
    assert_eq!(digest, reference_md5(b"771,4865-4866,43-10,29,"));
    assert_eq!(digest.len(), 32);
    assert!(digest.chars().all(|c| c.is_ascii_digit() || ('a'..='f').contains(&c)));
}

#[test]
fn ja3_is_the_same_on_every_call() {
    let raw = hello(vec![0x1301, 0x0a0a], vec![Extension::Padding { len: 17 }]);
    let first = ja3_from_raw(&raw).unwrap();
    for _ in 0..5 {
        assert_eq!(ja3_from_raw(&raw).unwrap(), first);
    }
    assert_eq!(ja3_from_raw(&raw.clone()).unwrap(), first);
}

#[test]
fn ja3_line_of_empty_lists() {
    let raw = hello(vec![], vec![]);
    let p = parse_client_hello(&raw).unwrap();
    assert_eq!(ja3_canonical(&p), b"771,,,,".to_vec());
}

#[test]
fn hello_without_extension_block_parses() {
    let mut raw = hello(vec![0x1301], vec![]);
    // cut the two bytes of the extension length
    raw.truncate(raw.len() - 2);
    let p = parse_client_hello(&raw).unwrap();
    assert_eq!(p.cipher_suites, vec![0x1301]);
    assert!(p.extensions.is_empty());
}

#[test]
fn malformed_records_are_refused() {
    let good = hello(vec![0x1301], vec![Extension::Padding { len: 4 }]);
    assert!(parse_client_hello(&good).is_ok());
    assert_eq!(parse_client_hello(&[]).err(), Some(CoreError::MalformedInput));
    assert_eq!(parse_client_hello(&good[..43]).err(), Some(CoreError::MalformedInput));
    let mut not_handshake = good.clone();
    not_handshake[0] = 23;
    assert_eq!(parse_client_hello(&not_handshake).err(), Some(CoreError::MalformedInput));
    let mut not_hello = good.clone();
    not_hello[5] = 2;
    assert_eq!(parse_client_hello(&not_hello).err(), Some(CoreError::MalformedInput));
    // a cipher suite block that runs past the end
    let mut long_suites = good.clone();
    long_suites[48] = 0xff;
    assert_eq!(parse_client_hello(&long_suites).err(), Some(CoreError::MalformedInput));
    // an extension block that runs past the end
    let cut = &good[..good.len() - 1];
    assert_eq!(parse_client_hello(cut).err(), Some(CoreError::MalformedInput));
    assert_eq!(ja3_from_raw(cut).err(), Some(CoreError::MalformedInput));
}

#[test]
fn extension_that_reads_past_its_block_is_malformed() {
    let mut raw = hello(
        vec![0x1301],
        vec![
            Extension::Unknown { typ: 5, bytes: vec![1] },
            Extension::Unknown { typ: 6, bytes: vec![1, 2] },
        ],
    );
    assert_eq!(parse_client_hello(&raw).unwrap().extensions, vec![5, 6]);
    // the second extension now claims more bytes than the block has
    let n = raw.len();
    raw[n - 3] = 9;
    assert_eq!(parse_client_hello(&raw).err(), Some(CoreError::MalformedInput));
    assert_eq!(ja3_from_raw(&raw).err(), Some(CoreError::MalformedInput));
}

#[test]
fn extension_with_no_payload_behind_its_length_is_malformed() {
    let mut raw = vec![0x16, 3, 3, 0, 0x31, 1, 0, 0, 0x2d, 3, 3];
    raw.extend([0u8; 32]);
    // empty session id, no suites, one compression method, a block of four bytes
    raw.extend([0, 0, 0, 1, 0, 0, 4]);
    // supported_groups announcing nine bytes, none behind
    raw.extend([0, 0x0a, 0, 9]);
    assert_eq!(raw.len(), 54);
    assert_eq!(parse_client_hello(&raw).err(), Some(CoreError::MalformedInput));
    // with the length put right the record parses
    raw[53] = 0;
    assert_eq!(parse_client_hello(&raw).unwrap().extensions, vec![0x000a]);
}

#[test]
fn bytes_left_over_in_the_extension_block_are_malformed() {
    let mut raw = hello(vec![0x1301], vec![Extension::Unknown { typ: 5, bytes: vec![1] }]);
    assert!(parse_client_hello(&raw).is_ok());
    // one stray byte behind the extension, counted into the block
    raw.push(0);
    let n = raw.len();
    raw[n - 7] = 6;
    assert_eq!(parse_client_hello(&raw).err(), Some(CoreError::MalformedInput));
}

#[test]
fn cipher_suite_block_of_odd_length_is_malformed() {
    let mut raw = vec![0x16, 3, 3, 0, 0x2c, 1, 0, 0, 0x28, 3, 3];
    raw.extend([0u8; 32]);
    // empty session id, a suite block of one byte, then what would be compression
    raw.extend([0, 0, 1, 0x13, 0x01, 0]);
    assert_eq!(raw.len(), 49);
    assert_eq!(parse_client_hello(&raw).err(), Some(CoreError::MalformedInput));
    raw[45] = 2;
    assert_eq!(parse_client_hello(&raw).unwrap().cipher_suites, vec![0x1301]);
}

#[test]
fn snapshot_gets_its_digest() {
    let raw = hello(vec![0x1301], vec![]);
    let mut snap = TlsSnapshot { raw_client_hello: raw.clone(), ja3: None };
    let outcome = snapshot_to_ja3(&mut snap);
    assert!(matches!(outcome, Ja3Outcome::Standard));
    assert_eq!(snap.ja3, Some(ja3_from_raw(&raw).unwrap()));
    assert_eq!(snap.raw_client_hello, raw);
}

#[test]
fn unreadable_snapshot_is_degraded_not_fingerprinted() {
    let raw = vec![1u8, 2, 3];
    let mut snap = TlsSnapshot { raw_client_hello: raw.clone(), ja3: Some("stale".to_string()) };
    match snapshot_to_ja3(&mut snap) {
        Ja3Outcome::Degraded { raw_digest } => assert_eq!(raw_digest, reference_md5(&raw)),
        Ja3Outcome::Standard => panic!("a record of three bytes has no JA3 digest"),
    }
    assert_eq!(snap.ja3, None);
    assert_eq!(snap.raw_client_hello, raw);
}

fn h2_capture() -> Vec<u8> {
    let mut raw = b"junk".to_vec();
    raw.extend(b"PRI * HTTP/2.0\r\n\r\nSM\r\n\r\n");
    // a WINDOW_UPDATE frame first
    raw.extend([0, 0, 4, 8, 0, 0, 0, 0, 0, 0, 1, 0, 0]);
    // SETTINGS with two settings and one stray byte
    raw.extend([0, 0, 13, 4, 0, 0, 0, 0, 0]);
    raw.extend([0, 1, 0, 1, 0, 0]);
    raw.extend([0, 4, 0, 0x60, 0, 0]);
    raw.extend([0xff]);
    raw.extend([0, 0, 6, 4, 0, 0, 0, 0, 0, 0, 3, 0, 0, 0, 100]);
    raw
}

#[test]
fn h2_settings_of_the_first_settings_frame() {
    let h2 = extract_h2_settings_from_bytes(&h2_capture()).unwrap();
    assert_eq!(h2.settings, vec![(1, 65536), (4, 6291456)]);
    assert!(h2.pseudo_headers_order.is_empty());
    assert_eq!(ja4_h2(&h2), reference_md5(b"1:65536-4:6291456"));
    assert_eq!(ja4_h2_from_raw(&h2_capture()), Some(reference_md5(b"1:65536-4:6291456")));
}

#[test]
fn h2_settings_need_preface_and_frame() {
    assert!(extract_h2_settings_from_bytes(b"").is_none());
    assert!(extract_h2_settings_from_bytes(b"PRI * HTTP/2.0\r\n\r\nSM\r\n\r\n").is_none());
    let mut no_preface = vec![0u8, 0, 6, 4, 0, 0, 0, 0, 0, 0, 3, 0, 0, 0, 100];
    assert!(extract_h2_settings_from_bytes(&no_preface).is_none());
    assert_eq!(ja4_h2_from_raw(&no_preface), None);
    no_preface.splice(0..0, b"PRI * HTTP/2.0\r\n\r\nSM\r\n\r\n".iter().cloned());
    assert_eq!(extract_h2_settings_from_bytes(&no_preface).unwrap().settings, vec![(3, 100)]);
    // a SETTINGS frame that is cut short
    let cut = &no_preface[..no_preface.len() - 1];
    assert!(extract_h2_settings_from_bytes(cut).is_none());
}

#[test]
fn h2_digest_of_no_settings() {
    let h2 = H2Settings { settings: vec![], pseudo_headers_order: vec![] };
    assert_eq!(ja4_h2(&h2), "d41d8cd98f00b204e9800998ecf8427e");
}

#[test]
fn h3_settings_of_the_first_settings_frame() {
    let raw = vec![0x00, 0x04, 0x05, 0x01, 0x40, 0x64, 0x06, 0x19, 0x04, 0x00];
    let h3 = extract_h3_settings_from_bytes(&raw).unwrap();
    assert_eq!(h3.settings, vec![(1, 100), (6, 25)]);
    assert!(h3.transport_params.is_empty());
    assert!(h3.qpack.is_none());
    assert_eq!(ja4_h3(&h3), reference_md5(b"1:100-6:25"));
    assert_eq!(ja4_h3_from_raw(&raw), Some(reference_md5(b"1:100-6:25")));
}

#[test]
fn h3_settings_need_a_frame_that_fits() {
    assert!(extract_h3_settings_from_bytes(&[]).is_none());
    assert!(extract_h3_settings_from_bytes(&[1, 2, 3]).is_none());
    // the length runs past the end
    assert!(extract_h3_settings_from_bytes(&[4, 3, 1, 1]).is_none());
    assert_eq!(ja4_h3_from_raw(&[4, 3, 1, 1]), None);
    // an empty frame
    assert_eq!(extract_h3_settings_from_bytes(&[4, 0]).unwrap().settings, vec![]);
    let big = H3Settings {
        settings: vec![(u64::MAX, 0), (0, 18446744073709551615)],
        transport_params: vec![],
        qpack: None,
    };
    assert_eq!(ja4_h3(&big), reference_md5(b"18446744073709551615:0-0:18446744073709551615"));
}

fn template(cipher_suites: Vec<u16>, extensions: Vec<Extension>) -> HelloTemplate {
    HelloTemplate {
        tls_version: 0x0304,
        client_random: Some([3u8; 32]),
        session_id: Some(vec![1, 2, 3, 4]),
        cipher_suites,
        compression_methods: vec![0],
        extensions,
        grease_mode: GreaseMode::NoGrease,
        psk_key_exchange_modes: None,
    }
}

#[test]
fn template_matches_its_own_capture() {
    let t = template(vec![0x1301], vec![Extension::Padding { len: 2 }]);
    let raw = hello(vec![0x1301], vec![Extension::Padding { len: 2 }]);
    let snap = TlsSnapshot { raw_client_hello: raw, ja3: None };
    assert!(fingerprints_match(&t, &snap));
}

#[test]
fn grease_in_the_template_does_not_change_the_match() {
    let with_grease = template(
        vec![0x0a0a, 0x1301],
        vec![Extension::Unknown { typ: 0x1a1a, bytes: vec![] }, Extension::Padding { len: 2 }],
    );
    let raw = hello(vec![0x1301], vec![Extension::Padding { len: 9 }]);
    let snap = TlsSnapshot { raw_client_hello: raw, ja3: None };
    assert!(fingerprints_match(&with_grease, &snap));
}

#[test]
fn other_suites_or_another_order_do_not_match() {
    let raw = hello(vec![0x1301, 0x1302], vec![]);
    let snap = TlsSnapshot { raw_client_hello: raw, ja3: None };
    assert!(fingerprints_match(&template(vec![0x1301, 0x1302], vec![]), &snap));
    assert!(!fingerprints_match(&template(vec![0x1302, 0x1301], vec![]), &snap));
    assert!(!fingerprints_match(&template(vec![0x1301], vec![]), &snap));
    assert!(!fingerprints_match(
        &template(vec![0x1301, 0x1302], vec![Extension::Padding { len: 0 }]),
        &snap
    ));
}

#[test]
fn unreadable_capture_matches_nothing() {
    let snap = TlsSnapshot { raw_client_hello: vec![0x16, 3, 3], ja3: None };
    assert!(!fingerprints_match(&template(vec![], vec![]), &snap));
}

#[test]
fn template_that_cannot_be_encoded_matches_nothing() {
    let mut t = template(vec![0x1301], vec![]);
    t.client_random = None;
    let snap = TlsSnapshot { raw_client_hello: hello(vec![0x1301], vec![]), ja3: None };
    assert!(!fingerprints_match(&t, &snap));
}

#[test]
fn digests_of_captured_settings_have_32_digits() {
    assert_eq!(ja4_h2_from_raw(&h2_capture()).unwrap().len(), 32);
    assert_eq!(ja4_h3_from_raw(&[4, 0]).unwrap().len(), 32);
}
