use htx_cover::aead::{ns_and_counter_to_nonce, open_chacha20poly1305, seal_chacha20poly1305};
use htx_cover::error::CoreError;
use htx_cover::htx::{decode_frame, encode_frame};
use htx_cover::kdf::derive_k0_and_split;
use htx_cover::tunnel::{Role, TunnelConnection, TunnelState};
use std::collections::HashSet;

const EXPORTER: [u8; 32] = [0x11; 32];

fn pair() -> (TunnelConnection, TunnelConnection) {
    (TunnelConnection::new(&EXPORTER, Role::Client), TunnelConnection::new(&EXPORTER, Role::Server))
}

#[test]
fn a_thousand_send_nonces_are_pairwise_distinct() {
    let (mut client, _) = pair();
    let mut seen = HashSet::new();
    for _ in 0..1000 {
        assert!(seen.insert(client.next_send_nonce().unwrap()));
    }
    assert_eq!(seen.len(), 1000);
}

#[test]
fn a_thousand_sealed_frames_use_the_counters_one_to_a_thousand() {
    let (mut client, _) = pair();
    let (k0c, _, nsc, _) = derive_k0_and_split(&EXPORTER);
    let mut nonces = HashSet::new();
    for n in 1u64..=1000 {
        let frame = client.seal(b"", b"same message").unwrap();
        let expected = seal_chacha20poly1305(&k0c, &nsc, n, b"", b"same message").unwrap();
        assert_eq!(frame, encode_frame(&expected));
        assert!(nonces.insert(ns_and_counter_to_nonce(&nsc, n)));
    }
}

#[test]
fn first_nonce_has_counter_one() {
    let (mut client, mut server) = pair();
    let (_, _, nsc, nss) = derive_k0_and_split(&EXPORTER);
    assert_eq!(client.next_send_nonce(), Ok(ns_and_counter_to_nonce(&nsc, 1)));
    assert_eq!(client.next_send_nonce(), Ok(ns_and_counter_to_nonce(&nsc, 2)));
    assert_eq!(server.next_send_nonce(), Ok(ns_and_counter_to_nonce(&nss, 1)));
}

#[test]
fn messages_go_both_ways_and_open_the_connection() {
    let (mut client, mut server) = pair();
    assert_eq!(client.state(), TunnelState::Handshaking);
    let frame = client.seal(b"aad", b"ping").unwrap();
    assert_eq!(client.state(), TunnelState::Handshaking);
    assert_eq!(server.open(b"aad", &frame), Ok(b"ping".to_vec()));
    assert_eq!(server.state(), TunnelState::Handshaking);
    let reply = server.seal(b"", b"pong").unwrap();
    assert_eq!(server.state(), TunnelState::Open);
    assert_eq!(client.open(b"", &reply), Ok(b"pong".to_vec()));
    assert_eq!(client.state(), TunnelState::Open);
    for i in 0..10u8 {
        let f = client.seal(b"", &[i; 3]).unwrap();
        assert_eq!(server.open(b"", &f), Ok(vec![i; 3]));
    }
}

#[test]
fn frame_is_length_then_ciphertext_with_tag() {
    let (mut client, _) = pair();
    let frame = client.seal(b"", b"12345").unwrap();
    assert_eq!(frame.len(), 2 + 5 + 16);
    assert_eq!(&frame[..2], &[0, 21]);
    let (k0c, _, nsc, _) = derive_k0_and_split(&EXPORTER);
    let sealed = decode_frame(&frame).unwrap();
    assert_eq!(open_chacha20poly1305(&k0c, &nsc, 1, b"", &sealed), Ok(b"12345".to_vec()));
}

#[test]
fn incomplete_frame_asks_for_more_and_changes_nothing() {
    let (mut client, mut server) = pair();
    let frame = client.seal(b"", b"whole message").unwrap();
    assert_eq!(server.open(b"", &frame[..1]), Err(CoreError::IncompleteData));
    assert_eq!(server.open(b"", &frame[..frame.len() - 1]), Err(CoreError::IncompleteData));
    assert_eq!(server.open(b"", &[]), Err(CoreError::IncompleteData));
    assert_eq!(server.state(), TunnelState::Handshaking);
    let mut buffered = frame.clone();
    buffered.extend([0xff, 0xff]);
    assert_eq!(server.open(b"", &buffered), Ok(b"whole message".to_vec()));
}

#[test]
fn failed_authentication_is_fatal() {
    let (mut client, mut server) = pair();
    let mut frame = client.seal(b"", b"message").unwrap();
    frame[5] ^= 0x80;
    assert_eq!(server.open(b"", &frame), Err(CoreError::AuthenticationFailed));
    assert_eq!(server.state(), TunnelState::Closing);
    assert_eq!(server.seal(b"", b"x"), Err(CoreError::ConnectionClosed));
    assert_eq!(server.open(b"", &frame), Err(CoreError::ConnectionClosed));
}

#[test]
fn frame_sealed_under_another_exporter_fails_authentication() {
    let mut client = TunnelConnection::new(&[0x22; 32], Role::Client);
    let (_, mut server) = pair();
    let frame = client.seal(b"", b"message").unwrap();
    assert_eq!(server.open(b"", &frame), Err(CoreError::AuthenticationFailed));
}

#[test]
fn replayed_frame_fails_authentication() {
    let (mut client, mut server) = pair();
    let frame = client.seal(b"", b"once").unwrap();
    assert_eq!(server.open(b"", &frame), Ok(b"once".to_vec()));
    assert_eq!(server.open(b"", &frame), Err(CoreError::AuthenticationFailed));
    assert_eq!(server.state(), TunnelState::Closing);
}

#[test]
fn own_frames_do_not_open() {
    let (mut client, _) = pair();
    let frame = client.seal(b"", b"to the server").unwrap();
    assert_eq!(client.open(b"", &frame), Err(CoreError::AuthenticationFailed));
}

#[test]
fn receive_nonce_must_be_the_next_one() {
    let (_, mut server) = pair();
    let (_, _, nsc, _) = derive_k0_and_split(&EXPORTER);
    assert_eq!(server.validate_receive_nonce(&ns_and_counter_to_nonce(&nsc, 1)), Ok(()));
    assert_eq!(server.validate_receive_nonce(&ns_and_counter_to_nonce(&nsc, 2)), Ok(()));
    // the same nonce again
    assert_eq!(
        server.validate_receive_nonce(&ns_and_counter_to_nonce(&nsc, 2)),
        Err(CoreError::ProtocolViolation)
    );
    assert_eq!(server.state(), TunnelState::Closing);
    assert_eq!(
        server.validate_receive_nonce(&ns_and_counter_to_nonce(&nsc, 3)),
        Err(CoreError::ConnectionClosed)
    );
    let (_, mut other) = pair();
    // a skipped number, and a nonce of the wrong length
    assert_eq!(
        other.validate_receive_nonce(&ns_and_counter_to_nonce(&nsc, 2)),
        Err(CoreError::ProtocolViolation)
    );
    let (_, mut third) = pair();
    assert_eq!(third.validate_receive_nonce(&[0; 11]), Err(CoreError::ProtocolViolation));
}

#[test]
fn closed_connection_refuses_everything() {
    let (mut client, _) = pair();
    client.shutdown();
    assert_eq!(client.state(), TunnelState::Closing);
    assert_eq!(client.seal(b"", b"x"), Err(CoreError::ConnectionClosed));
    client.close();
    assert_eq!(client.state(), TunnelState::Closed);
    assert_eq!(client.seal(b"", b"x"), Err(CoreError::ConnectionClosed));
    assert_eq!(client.open(b"", &[0, 0]), Err(CoreError::ConnectionClosed));
    assert_eq!(client.next_send_nonce(), Err(CoreError::ConnectionClosed));
    assert_eq!(client.validate_receive_nonce(&[0; 12]), Err(CoreError::ConnectionClosed));
    client.shutdown();
    assert_eq!(client.state(), TunnelState::Closed);
}

#[test]
fn plaintext_must_fit_a_frame() {
    let (mut client, mut server) = pair();
    assert_eq!(client.seal(b"", &vec![0u8; 65520]), Err(CoreError::MalformedInput));
    assert_eq!(client.state(), TunnelState::Handshaking);
    let frame = client.seal(b"", &vec![3u8; 65519]).unwrap();
    assert_eq!(frame.len(), 2 + 65535);
    assert_eq!(server.open(b"", &frame), Ok(vec![3u8; 65519]));
    // the refused message took no number
    let (k0c, _, nsc, _) = derive_k0_and_split(&EXPORTER);
    let next = client.seal(b"", b"x").unwrap();
    assert_eq!(next, encode_frame(&seal_chacha20poly1305(&k0c, &nsc, 2, b"", b"x").unwrap()));
}

#[test]
fn ordinary_plaintexts_are_always_sealed() {
    let (mut client, _) = pair();
    for len in [0usize, 1, 63, 64, 65, 4096, 65519] {
        assert!(client.seal(b"aad", &vec![0x5a; len]).is_ok());
    }
}
