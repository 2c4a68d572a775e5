use htx_cover::htx::{decode_frame, decode_tunnel_length, encode_frame, encode_tunnel_header};

#[test]
fn tunnel_header_bytes() {
    let h = encode_tunnel_header(2, 0x80, 0x1234);
    assert_eq!(h, [0x42, 0x4f, 0x48, 0x54, 2, 0x80, 0x12, 0x34]);
}

#[test]
fn tunnel_header_round_trip_over_lengths() {
    for len in [0u16, 1, 255, 256, 4660, 65534, 65535] {
        for (v, f) in [(0u8, 0u8), (1, 0xff), (255, 7)] {
            let h = encode_tunnel_header(v, f, len);
            assert_eq!(decode_tunnel_length(&h), Some(len));
        }
    }
}

#[test]
fn tunnel_length_needs_eight_bytes() {
    assert_eq!(decode_tunnel_length(&[0x42, 0x4f, 0x48, 0x54, 1, 0, 0]), None);
    assert_eq!(decode_tunnel_length(&[]), None);
    // the magic is not looked at
    assert_eq!(decode_tunnel_length(&[0, 0, 0, 0, 0, 0, 1, 2, 99]), Some(258));
}

#[test]
fn frame_bytes() {
    assert_eq!(encode_frame(b"abc"), vec![0, 3, b'a', b'b', b'c']);
    assert_eq!(encode_frame(b""), vec![0, 0]);
    let long = vec![7u8; 300];
    let enc = encode_frame(&long);
    assert_eq!(&enc[..2], &[1, 44]);
    assert_eq!(enc.len(), 302);
}

#[test]
fn frame_round_trip_over_lengths() {
    for len in [0usize, 1, 2, 255, 256, 257, 65534, 65535] {
        let payload: Vec<u8> = (0..len).map(|i| (i % 251) as u8).collect();
        let enc = encode_frame(&payload);
        assert_eq!(enc.len(), len + 2);
        assert_eq!(decode_frame(&enc), Some(payload));
    }
}

#[test]
fn incomplete_frame_is_not_decoded() {
    assert_eq!(decode_frame(&[]), None);
    assert_eq!(decode_frame(&[0]), None);
    assert_eq!(decode_frame(&[0, 3, 1, 2]), None);
    assert_eq!(decode_frame(&[0, 3, 1, 2, 3]), Some(vec![1, 2, 3]));
}

#[test]
fn decode_leaves_what_follows_the_frame() {
    assert_eq!(decode_frame(&[0, 1, 9, 0, 5, 1]), Some(vec![9]));
}
