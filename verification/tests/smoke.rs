use htx_cover::htx::{decode_frame, decode_tunnel_length, encode_frame, encode_tunnel_header};
use htx_cover::lab::control_stream_examples::{generate_example_control_stream, parse_and_validate};
use htx_cover::lab::hello_htx;
use htx_cover::lab::mixnet_sim::simulate_paths;
use htx_cover::lint::control_stream::{run_control_stream_rule, ControlStreamRule};

#[test]
fn control_rule_smoke() {
    assert!(run_control_stream_rule("fixtures/control_stream/positive1.cbor").is_ok());
}

#[test]
fn it_works() {
    let result = 2 + 2;
    assert_eq!(result, 4);
}

#[test]
fn encode_decode_header() {
    let h = encode_tunnel_header(1, 0, 5);
    assert_eq!(decode_tunnel_length(&h), Some(5));
}

#[test]
fn smoke_tunnel_frame() {
    let payload = b"hello";
    let enc = encode_frame(payload);
    let dec = decode_frame(&enc).unwrap();
    assert_eq!(dec, payload);
}

#[test]
fn smoke_control() {
    let b = generate_example_control_stream();
    assert!(!b.is_empty());
    assert!(parse_and_validate(&b).is_ok());
}

#[test]
fn smoke_sim() {
    let s = simulate_paths(5, 20);
    assert_eq!(s.len(), 5);
}

#[test]
fn smoke_tunnel() {
    let p = b"hello";
    let enc = htx_cover::lab::tunnel_mock::encode_frame(p);
    let dec = htx_cover::lab::tunnel_mock::decode_frame(&enc).unwrap();
    assert_eq!(dec, p);
}

#[test]
fn smoke_htx_lab() {
    let s = simulate_paths(3, 20);
    assert_eq!(s.len(), 3);
    let c = generate_example_control_stream();
    assert!(!c.is_empty());
    let enc = htx_cover::lab::tunnel_mock::encode_frame(b"x");
    let dec = htx_cover::lab::tunnel_mock::decode_frame(&enc).unwrap();
    assert_eq!(dec, b"x");
}

#[test]
fn control_rule_is_built() {
    let _rule: ControlStreamRule = ControlStreamRule::new();
    assert!(run_control_stream_rule("").is_ok());
}

#[test]
fn lab_greets() {
    assert_eq!(hello_htx(), "htx-lab placeholder");
}

#[test]
fn sample_control_stream_bytes() {
    assert_eq!(generate_example_control_stream(), vec![1u8, 2, 3]);
}

#[test]
fn simulated_latencies() {
    let s = simulate_paths(9, 20);
    // path 0: two hops, no jitter
    assert_eq!((s[0].path_id, s[0].hops, s[0].latency_ms), (0, 2, 30));
    // path 3: five hops, jitter 39
    assert_eq!((s[3].path_id, s[3].hops, s[3].latency_ms), (3, 5, 84));
    // path 8: five hops, jitter 104 % 100
    assert_eq!((s[8].path_id, s[8].hops, s[8].latency_ms), (8, 5, 49));
    assert!(simulate_paths(0, 0).is_empty());
}
