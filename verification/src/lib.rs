//! A TLS ClientHello cover channel with a keyed tunnel underneath.
//!
//! The crate has three parts: an encoder that turns a declarative
//! template into the exact bytes of a ClientHello record, a fingerprint
//! pipeline that recovers a ClientHello from captured traffic and digests
//! it, and the key schedule and framing of the tunnel that runs after the
//! handshake.

pub mod error;
pub mod wire;
pub mod htx;
pub mod grease;
pub mod clock;
pub mod template;
pub mod digest;
pub mod ja3;
pub mod quic;
pub mod kdf;
pub mod quic_decrypt;
pub mod aead;
pub mod ja4;
pub mod flows;
pub mod import_pcap;
pub mod pcap_importer;
pub mod export_utls;
pub mod tunnel;
pub mod selftest;
pub mod transport;
pub mod lab;
pub mod lint;
