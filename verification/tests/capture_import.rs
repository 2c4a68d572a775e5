use htx_cover::error::CoreError;
use htx_cover::flows::{
    find_client_hello_in_buf, find_in_flow, FlowKey, FlowTable, Segment, REORDERS_TCP_SEGMENTS,
};
use htx_cover::grease::GreaseMode;
use htx_cover::import_pcap::{classify_frame, import_pcap};
use htx_cover::ja3::ja3_from_raw;
use htx_cover::pcap_importer::{classify_packet, import_from_pcap};
use htx_cover::template::{Encoder, Extension, HelloTemplate};

fn ethernet(ethertype: u16, payload: &[u8]) -> Vec<u8> {
    let mut f = vec![0xaa, 0xaa, 0xaa, 0xaa, 0xaa, 0xaa, 0xbb, 0xbb, 0xbb, 0xbb, 0xbb, 0xbb];
    f.extend(ethertype.to_be_bytes());
    f.extend(payload);
    f
}

fn ipv4(protocol: u8, src: [u8; 4], dst: [u8; 4], payload: &[u8]) -> Vec<u8> {
    let total = (20 + payload.len()) as u16;
    let mut p = vec![0x45, 0x00];
    p.extend(total.to_be_bytes());
    p.extend([0, 0, 0, 0, 64, protocol, 0, 0]);
    p.extend(src);
    p.extend(dst);
    p.extend(payload);
    p
}

fn tcp(src_port: u16, dst_port: u16, payload: &[u8]) -> Vec<u8> {
    let mut s = Vec::new();
    s.extend(src_port.to_be_bytes());
    s.extend(dst_port.to_be_bytes());
    s.extend([0, 0, 0, 1, 0, 0, 0, 0, 0x50, 0x18, 0xff, 0xff, 0, 0, 0, 0]);
    s.extend(payload);
    s
}

fn udp(src_port: u16, dst_port: u16, payload: &[u8]) -> Vec<u8> {
    let mut d = Vec::new();
    d.extend(src_port.to_be_bytes());
    d.extend(dst_port.to_be_bytes());
    d.extend(((8 + payload.len()) as u16).to_be_bytes());
    d.extend([0, 0]);
    d.extend(payload);
    d
}

fn tcp_frame(src_port: u16, dst_port: u16, payload: &[u8]) -> Vec<u8> {
    ethernet(0x0800, &ipv4(6, [10, 0, 0, 1], [10, 0, 0, 2], &tcp(src_port, dst_port, payload)))
}

fn udp_frame(src: [u8; 4], src_port: u16, dst_port: u16, payload: &[u8]) -> Vec<u8> {
    ethernet(0x0800, &ipv4(17, src, [10, 0, 0, 2], &udp(src_port, dst_port, payload)))
}

fn capture_file(frames: &[Vec<u8>], big_endian: bool) -> Vec<u8> {
    let u32_bytes = |v: u32| if big_endian { v.to_be_bytes() } else { v.to_le_bytes() };
    let u16_bytes = |v: u16| if big_endian { v.to_be_bytes() } else { v.to_le_bytes() };
    let mut file = Vec::new();
    file.extend(u32_bytes(0xa1b2c3d4));
    file.extend(u16_bytes(2));
    file.extend(u16_bytes(4));
    file.extend(u32_bytes(0));
    file.extend(u32_bytes(0));
    file.extend(u32_bytes(65535));
    file.extend(u32_bytes(1));
    for frame in frames {
        file.extend(u32_bytes(1_700_000_000));
        file.extend(u32_bytes(5));
        file.extend(u32_bytes(frame.len() as u32));
        file.extend(u32_bytes(frame.len() as u32));
        file.extend(frame);
    }
    file
}

fn sample_hello() -> Vec<u8> {
    let t = HelloTemplate {
        tls_version: 0x0304,
        client_random: Some([0x5a; 32]),
        session_id: Some(vec![1; 32]),
        cipher_suites: vec![0x1301, 0x1302],
        compression_methods: vec![0],
        extensions: vec![
            Extension::SupportedVersions { versions: vec![0x0304] },
            Extension::SupportedGroups { groups: vec![0x001d], grease_slots: vec![] },
        ],
        grease_mode: GreaseMode::NoGrease,
        psk_key_exchange_modes: None,
    };
    Encoder::encode_client_hello(&t, false).unwrap().raw_bytes
}

fn quic_packet(dcid: &[u8], frames: &[u8]) -> Vec<u8> {
    let mut p = vec![0xc0, 0, 0, 0, 1, dcid.len() as u8];
    p.extend(dcid);
    p.extend([0, 0, 0x40, 0x20]);
    p.extend(frames);
    p
}

#[test]
fn imported_hello_has_the_fingerprint_of_the_encoded_one() {
    let hello = sample_hello();
    let generated = ja3_from_raw(&hello).unwrap();
    let frames = vec![tcp_frame(50000, 443, &hello)];
    for big_endian in [false, true] {
        let snap = import_from_pcap(&capture_file(&frames, big_endian)).unwrap();
        assert_eq!(snap.raw_client_hello, hello);
        assert!(snap.ja3.is_none());
        assert_eq!(ja3_from_raw(&snap.raw_client_hello).unwrap(), generated);
    }
    let snap = import_pcap(&frames).unwrap();
    assert_eq!(snap.raw_client_hello, hello);
    assert_eq!(ja3_from_raw(&snap.raw_client_hello).unwrap(), generated);
}

#[test]
fn hello_split_over_segments_is_joined_in_capture_order() {
    let hello = sample_hello();
    let frames = vec![
        tcp_frame(50000, 80, b"not for us"),
        tcp_frame(50000, 443, &hello[..20]),
        ethernet(0x86dd, &[0x16; 60]),
        tcp_frame(443, 50000, &hello[20..]),
        tcp_frame(50000, 443, b"more"),
    ];
    assert_eq!(import_from_pcap(&capture_file(&frames, false)).unwrap().raw_client_hello, hello);
    assert_eq!(import_pcap(&frames).unwrap().raw_client_hello, hello);
}

#[test]
fn capture_without_hello_is_not_found() {
    let frames = vec![tcp_frame(50000, 443, b"no handshake in here at all"), udp_frame([1, 1, 1, 1], 443, 9, b"x")];
    assert_eq!(import_from_pcap(&capture_file(&frames, false)).err(), Some(CoreError::NotFound));
    assert_eq!(import_from_pcap(&capture_file(&[], false)).err(), Some(CoreError::NotFound));
    assert_eq!(import_pcap(&frames).err(), Some(CoreError::NotFound));
    assert_eq!(import_pcap(&vec![]).err(), Some(CoreError::NotFound));
    // the hello is there, but on another port
    let elsewhere = vec![tcp_frame(50000, 8443, &sample_hello())];
    assert_eq!(import_pcap(&elsewhere).err(), Some(CoreError::NotFound));
    assert_eq!(import_from_pcap(&capture_file(&elsewhere, true)).err(), Some(CoreError::NotFound));
}

#[test]
fn unreadable_capture_file_is_malformed() {
    let good = capture_file(&[tcp_frame(50000, 443, &sample_hello())], false);
    assert!(import_from_pcap(&good).is_ok());
    assert_eq!(import_from_pcap(&[]).err(), Some(CoreError::MalformedInput));
    assert_eq!(import_from_pcap(&good[..23]).err(), Some(CoreError::MalformedInput));
    let mut bad_magic = good.clone();
    bad_magic[0] = 0;
    assert_eq!(import_from_pcap(&bad_magic).err(), Some(CoreError::MalformedInput));
    // the last record is cut short, though the hello stands before the cut
    assert_eq!(import_from_pcap(&good[..good.len() - 1]).err(), Some(CoreError::MalformedInput));
    assert_eq!(import_from_pcap(&good[..30]).err(), Some(CoreError::MalformedInput));
}

#[test]
fn nanosecond_captures_are_read() {
    let mut file = capture_file(&[tcp_frame(50000, 443, &sample_hello())], false);
    file[..4].copy_from_slice(&0xa1b23c4du32.to_le_bytes());
    assert_eq!(import_from_pcap(&file).unwrap().raw_client_hello, sample_hello());
}

#[test]
fn hello_in_the_crypto_frames_of_a_udp_flow() {
    let hello = sample_hello();
    let mut frames_a = vec![0x06, 20];
    frames_a.extend(&hello[..20]);
    let mut frames_b = vec![0x06, 0x40, (hello.len() - 20) as u8];
    frames_b.extend(&hello[20..]);
    let frames = vec![
        udp_frame([9, 9, 9, 9], 40000, 443, b"another flow, nothing in it"),
        udp_frame([1, 1, 1, 1], 40000, 443, &quic_packet(&[1, 2, 3, 4], &frames_a)),
        udp_frame([9, 9, 9, 9], 40000, 443, b"still nothing"),
        udp_frame([1, 1, 1, 1], 40000, 443, &quic_packet(&[1, 2, 3, 4], &frames_b)),
    ];
    assert_eq!(import_pcap(&frames).unwrap().raw_client_hello, hello);
    assert_eq!(import_from_pcap(&capture_file(&frames, false)).unwrap().raw_client_hello, hello);
}

#[test]
fn hello_in_a_raw_udp_flow() {
    let hello = sample_hello();
    let frames = vec![udp_frame([1, 1, 1, 1], 443, 40000, &hello)];
    assert_eq!(import_pcap(&frames).unwrap().raw_client_hello, hello);
    assert_eq!(import_from_pcap(&capture_file(&frames, false)).unwrap().raw_client_hello, hello);
}

#[test]
fn tcp_is_searched_before_udp() {
    let mut other = sample_hello();
    other[11] = 0x77;
    let frames = vec![udp_frame([1, 1, 1, 1], 443, 40000, &other), tcp_frame(1, 443, &sample_hello())];
    assert_eq!(import_pcap(&frames).unwrap().raw_client_hello, sample_hello());
    assert_eq!(
        import_from_pcap(&capture_file(&frames, false)).unwrap().raw_client_hello,
        sample_hello()
    );
}

#[test]
fn first_record_in_a_buffer() {
    let hello = sample_hello();
    assert_eq!(find_client_hello_in_buf(&hello), Some(hello.clone()));
    let mut buf = vec![0x16, 0x03, 0x03, 0x00, 0x02, 0x02, 0, 0, 0, 0, 0];
    buf.extend(&hello);
    buf.extend([1, 2, 3]);
    assert_eq!(find_client_hello_in_buf(&buf), Some(hello.clone()));
    // a record whose length runs past the end is passed over
    assert_eq!(find_client_hello_in_buf(&hello[..hello.len() - 1]), None);
    assert_eq!(find_client_hello_in_buf(&[]), None);
    // ten bytes must stand from the start of the record on
    let ten = [0x16, 3, 3, 0, 4, 1, 0, 0, 0, 0];
    assert_eq!(find_client_hello_in_buf(&ten[..9]), None);
    assert_eq!(find_client_hello_in_buf(&ten), Some(ten[..9].to_vec()));
}

#[test]
fn frames_read_by_hand() {
    let frame = tcp_frame(50000, 443, b"payload");
    match classify_frame(&frame) {
        Segment::Tcp { src_port, dst_port, payload } => {
            assert_eq!((src_port, dst_port), (50000, 443));
            assert_eq!(payload, b"payload".to_vec());
        }
        _ => panic!("a TCP segment"),
    }
    match classify_frame(&udp_frame([1, 2, 3, 4], 7, 443, b"datagram")) {
        Segment::Udp { key, payload } => {
            assert_eq!(
                key,
                FlowKey { src_ip: 0x01020304, dst_ip: 0x0a000002, src_port: 7, dst_port: 443 }
            );
            assert_eq!(payload, b"datagram".to_vec());
        }
        _ => panic!("a UDP datagram"),
    }
    assert!(matches!(classify_frame(&[]), Segment::Other));
    assert!(matches!(classify_frame(&frame[..33]), Segment::Other));
    assert!(matches!(classify_frame(&ethernet(0x86dd, &[0; 60])), Segment::Other));
    assert!(matches!(classify_frame(&tcp_frame(1, 2, b"")), Segment::Other));
    assert!(matches!(classify_frame(&udp_frame([1, 2, 3, 4], 1, 2, b"")), Segment::Other));
    let icmp = ethernet(0x0800, &ipv4(1, [1, 1, 1, 1], [2, 2, 2, 2], &[8, 0, 0, 0, 0, 0, 0, 0, 0]));
    assert!(matches!(classify_frame(&icmp), Segment::Other));
}

#[test]
fn tcp_options_are_stepped_over() {
    let mut segment = tcp(50000, 443, b"");
    segment[12] = 0x60;
    segment.extend([1, 1, 1, 1]);
    segment.extend(b"behind options");
    let frame = ethernet(0x0800, &ipv4(6, [1, 1, 1, 1], [2, 2, 2, 2], &segment));
    match classify_frame(&frame) {
        Segment::Tcp { payload, .. } => assert_eq!(payload, b"behind options".to_vec()),
        _ => panic!("a TCP segment"),
    }
    match classify_packet(&frame) {
        Segment::Tcp { payload, .. } => assert_eq!(payload, b"behind options".to_vec()),
        _ => panic!("a TCP segment"),
    }
}

#[test]
fn frames_read_by_the_packet_library() {
    match classify_packet(&tcp_frame(50000, 443, b"payload")) {
        Segment::Tcp { src_port, dst_port, payload } => {
            assert_eq!((src_port, dst_port), (50000, 443));
            assert_eq!(payload, b"payload".to_vec());
        }
        _ => panic!("a TCP segment"),
    }
    match classify_packet(&udp_frame([1, 2, 3, 4], 7, 443, b"datagram")) {
        Segment::Udp { key, payload } => {
            assert_eq!(
                key,
                FlowKey { src_ip: 0x01020304, dst_ip: 0x0a000002, src_port: 7, dst_port: 443 }
            );
            assert_eq!(payload, b"datagram".to_vec());
        }
        _ => panic!("a UDP datagram"),
    }
    assert!(matches!(classify_packet(&[]), Segment::Other));
    assert!(matches!(classify_packet(&ethernet(0x86dd, &[0; 60])), Segment::Other));
    assert!(matches!(classify_packet(&ethernet(0x0800, &[0x45; 10])), Segment::Other));
}

#[test]
fn flow_table_keeps_flows_in_the_order_first_seen() {
    let a = FlowKey { src_ip: 1, dst_ip: 2, src_port: 443, dst_port: 9 };
    let b = FlowKey { src_ip: 3, dst_ip: 2, src_port: 5, dst_port: 443 };
    let c = FlowKey { src_ip: 3, dst_ip: 2, src_port: 5, dst_port: 444 };
    let mut table = FlowTable::new();
    table.absorb(&Segment::Udp { key: a, payload: vec![1] });
    table.absorb(&Segment::Udp { key: b, payload: vec![2] });
    table.absorb(&Segment::Udp { key: c, payload: vec![9] });
    table.absorb(&Segment::Other);
    table.absorb(&Segment::Udp { key: a, payload: vec![3, 4] });
    table.absorb(&Segment::Tcp { src_port: 443, dst_port: 1, payload: vec![5] });
    table.absorb(&Segment::Tcp { src_port: 80, dst_port: 1, payload: vec![6] });
    table.absorb(&Segment::Tcp { src_port: 2, dst_port: 443, payload: vec![7] });
    assert_eq!(table.tcp, vec![5, 7]);
    assert_eq!(table.udp.len(), 2);
    assert_eq!((table.udp[0].key, table.udp[0].bytes.clone()), (a, vec![1, 3, 4]));
    assert_eq!((table.udp[1].key, table.udp[1].bytes.clone()), (b, vec![2]));
    assert_eq!(table.locate(true).err(), Some(CoreError::NotFound));
}

#[test]
fn first_flow_with_a_hello_wins() {
    let hello = sample_hello();
    let mut other = hello.clone();
    other[11] = 0x77;
    let frames = vec![
        udp_frame([1, 1, 1, 1], 443, 1, b"nothing"),
        udp_frame([2, 2, 2, 2], 443, 1, &other),
        udp_frame([3, 3, 3, 3], 443, 1, &hello),
    ];
    assert_eq!(import_pcap(&frames).unwrap().raw_client_hello, other);
}

#[test]
fn sealed_crypto_bytes_are_opened_with_the_initial_keys() {
    use_initial_keys();
}

fn use_initial_keys() {
    let hello = sample_hello();
    let dcid = [0x83, 0x94, 0xc8, 0xf0, 0x3e, 0x51, 0x57, 0x08];
    let secret = htx_cover::quic_decrypt::initial_secret(&dcid);
    let key = htx_cover::kdf::hkdf_expand_label(&secret, "quic key", &[], 16).unwrap();
    let iv = htx_cover::kdf::hkdf_expand_label(&secret, "quic iv", &[], 12).unwrap();
    let sealed = aes_gcm::aead::Aead::encrypt(
        &<aes_gcm::Aes128Gcm as aes_gcm::aead::KeyInit>::new_from_slice(&key).unwrap(),
        aes_gcm::Nonce::from_slice(&iv),
        &hello[..],
    )
    .unwrap();
    // one CRYPTO frame whose payload is the sealed hello
    let mut frames = vec![0x06, 0x40, sealed.len() as u8];
    frames.extend(&sealed);
    let flow = quic_packet(&dcid, &frames);
    assert_eq!(find_in_flow(&flow, true), Some(hello.clone()));
    assert_eq!(find_in_flow(&flow, false), None);
    let capture = capture_file(&[udp_frame([1, 1, 1, 1], 40000, 443, &flow)], false);
    assert_eq!(import_from_pcap(&capture).unwrap().raw_client_hello, hello);
    assert_eq!(import_pcap(&vec![udp_frame([1, 1, 1, 1], 40000, 443, &flow)]).err(), Some(CoreError::NotFound));
}

#[test]
fn segments_out_of_order_are_not_put_in_order() {
    assert!(!REORDERS_TCP_SEGMENTS);
    let hello = sample_hello();
    let frames = vec![tcp_frame(50000, 443, &hello[20..]), tcp_frame(50000, 443, &hello[..20])];
    assert_ne!(import_pcap(&frames).map(|s| s.raw_client_hello).ok(), Some(hello));
}

#[test]
fn ipv4_payload_ends_where_the_total_length_says() {
    // an Ethernet trailer behind the IPv4 packet is no payload
    let mut frame = tcp_frame(50000, 443, b"payload");
    frame.extend([0xee, 0xee, 0xee]);
    match classify_packet(&frame) {
        Segment::Tcp { payload, .. } => assert_eq!(payload, b"payload".to_vec()),
        _ => panic!("a TCP segment"),
    }
    // a total length beyond the buffer is cut at the buffer's end
    let mut long = tcp_frame(50000, 443, b"payload");
    long[16] = 0xff;
    match classify_packet(&long) {
        Segment::Tcp { payload, .. } => assert_eq!(payload, b"payload".to_vec()),
        _ => panic!("a TCP segment"),
    }
    // a total length below the header length leaves no payload, and so no segment
    let mut none = tcp_frame(50000, 443, b"payload");
    none[16] = 0;
    none[17] = 10;
    assert!(matches!(classify_packet(&none), Segment::Other));
}

#[test]
fn ipv4_options_are_stepped_over() {
    let mut packet = ipv4(17, [1, 2, 3, 4], [5, 6, 7, 8], &[]);
    packet[0] = 0x46;
    packet.extend([1, 1, 1, 1]);
    packet.extend(udp(9, 443, b"behind options"));
    let total = packet.len() as u16;
    packet[2..4].copy_from_slice(&total.to_be_bytes());
    match classify_packet(&ethernet(0x0800, &packet)) {
        Segment::Udp { key, payload } => {
            assert_eq!(key, FlowKey { src_ip: 0x01020304, dst_ip: 0x05060708, src_port: 9, dst_port: 443 });
            assert_eq!(payload, b"behind options".to_vec());
        }
        _ => panic!("a UDP datagram"),
    }
    // a header length below five words counts as five
    let mut short = ipv4(17, [1, 2, 3, 4], [5, 6, 7, 8], &udp(9, 443, b"data"));
    short[0] = 0x42;
    match classify_packet(&ethernet(0x0800, &short)) {
        Segment::Udp { payload, .. } => assert_eq!(payload, b"data".to_vec()),
        _ => panic!("a UDP datagram"),
    }
}

#[test]
fn tcp_data_offset_below_five_words_counts_as_five() {
    let mut segment = tcp(50000, 443, b"data");
    segment[12] = 0x20;
    let frame = ethernet(0x0800, &ipv4(6, [1, 1, 1, 1], [2, 2, 2, 2], &segment));
    match classify_packet(&frame) {
        Segment::Tcp { src_port, dst_port, payload } => {
            assert_eq!((src_port, dst_port), (50000, 443));
            assert_eq!(payload, b"data".to_vec());
        }
        _ => panic!("a TCP segment"),
    }
    // an offset behind the end of the segment leaves an empty payload
    let mut far = tcp(50000, 443, b"data");
    far[12] = 0xf0;
    let frame = ethernet(0x0800, &ipv4(6, [1, 1, 1, 1], [2, 2, 2, 2], &far));
    match classify_packet(&frame) {
        Segment::Tcp { payload, .. } => assert!(payload.is_empty()),
        _ => panic!("a TCP segment"),
    }
}

#[test]
fn short_layers_are_passed_over() {
    assert!(matches!(classify_packet(&ethernet(0x0800, &[0x45; 19])), Segment::Other));
    let short_tcp = ethernet(0x0800, &ipv4(6, [1, 1, 1, 1], [2, 2, 2, 2], &[0; 19]));
    assert!(matches!(classify_packet(&short_tcp), Segment::Other));
    let short_udp = ethernet(0x0800, &ipv4(17, [1, 1, 1, 1], [2, 2, 2, 2], &[0; 7]));
    assert!(matches!(classify_packet(&short_udp), Segment::Other));
    let bare_udp = ethernet(0x0800, &ipv4(17, [1, 1, 1, 1], [2, 2, 2, 2], &udp(1, 443, b"")));
    match classify_packet(&bare_udp) {
        Segment::Udp { payload, .. } => assert!(payload.is_empty()),
        _ => panic!("a UDP datagram"),
    }
}
