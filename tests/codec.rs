use void_node::codec::{encode_void_code, generate_void_code, parse_void_code, CodecError};
use void_node::identity::{NodeId, ReachableAddress};
use void_node::text::decimal_text;

const PEER: &str = "QmNnooDu7bfjPFoTZYxMNLWUQJyrVwtbZg5gBMjTezGAJN";

#[test]
fn encode_tcp_address_gives_tagged_base64() {
    let a = ReachableAddress::parse("/ip4/127.0.0.1/tcp/4001").unwrap();
    let code = encode_void_code(&a);
    assert_eq!(code, "void://L2lwNC8xMjcuMC4wLjEvdGNwLzQwMDE=");
    let back = parse_void_code(&code).unwrap();
    assert_eq!(back.as_str(), "/ip4/127.0.0.1/tcp/4001");
}

#[test]
fn code_has_no_whitespace_or_control_characters() {
    let a = ReachableAddress::parse("/ip4/10.0.0.7/udp/9000/quic-v1").unwrap();
    let code = encode_void_code(&a);
    assert!(code.starts_with("void://"));
    assert!(code.chars().all(|c| c.is_ascii_graphic()));
}

#[test]
fn round_trip_relay_address() {
    let text = format!("/ip4/1.2.3.4/tcp/1/p2p/{}/p2p-circuit", PEER);
    let a = ReachableAddress::parse(&text).unwrap();
    let code = encode_void_code(&a);
    assert_eq!(
        code,
        "void://L2lwNC8xLjIuMy40L3RjcC8xL3AycC9RbU5ub29EdTdiZmpQRm9UWll4TU5MV1VRSnlyVnd0YlpnNWdCTWpUZXpHQUpOL3AycC1jaXJjdWl0"
    );
    assert_eq!(parse_void_code(&code).unwrap().as_str(), text);
}

#[test]
fn round_trip_empty_address() {
    let a = ReachableAddress::parse("").unwrap();
    let code = encode_void_code(&a);
    assert_eq!(code, "void://");
    assert_eq!(parse_void_code(&code).unwrap().as_str(), "");
}

#[test]
fn decode_non_base64_is_an_error() {
    let r = parse_void_code("void://!!!not-base64!!!");
    assert_eq!(r.unwrap_err(), CodecError::InvalidBase64);
}

#[test]
fn decode_without_tag_is_an_error() {
    assert_eq!(parse_void_code("L2lwNC8xMjcuMC4wLjEvdGNwLzQwMDE=").unwrap_err(), CodecError::MissingScheme);
    assert_eq!(parse_void_code("void:/").unwrap_err(), CodecError::MissingScheme);
    assert_eq!(parse_void_code("").unwrap_err(), CodecError::MissingScheme);
}

#[test]
fn decode_payload_that_is_not_an_address() {
    assert_eq!(parse_void_code("void://aGVsbG8=").unwrap_err(), CodecError::BadDelimiters);
    assert_eq!(parse_void_code("void://YUBiQGM6MQ==").unwrap_err(), CodecError::BadDelimiters);
}

#[test]
fn decode_payload_that_is_not_utf8() {
    assert_eq!(parse_void_code("void:///w==").unwrap_err(), CodecError::InvalidUtf8);
}

#[test]
fn decode_truncated_fields() {
    let no_port = "void://UW1Obm9vRHU3YmZqUEZvVFpZeE1OTFdVUUp5clZ3dGJaZzVnQk1qVGV6R0FKTkAxLjIuMy40";
    assert_eq!(parse_void_code(no_port).unwrap_err(), CodecError::MissingPort);
    let empty_port = "void://UW1Obm9vRHU3YmZqUEZvVFpZeE1OTFdVUUp5clZ3dGJaZzVnQk1qVGV6R0FKTkAxLjIuMy40Og==";
    assert_eq!(parse_void_code(empty_port).unwrap_err(), CodecError::InvalidAddress);
}

#[test]
fn field_code_reads_back_as_quic_address() {
    let peer = NodeId::parse(PEER).unwrap();
    let code = generate_void_code(&peer, "1.2.3.4", 4001);
    assert_eq!(
        code,
        "void://UW1Obm9vRHU3YmZqUEZvVFpZeE1OTFdVUUp5clZ3dGJaZzVnQk1qVGV6R0FKTkAxLjIuMy40OjQwMDE="
    );
    let a = parse_void_code(&code).unwrap();
    assert_eq!(a.as_str(), format!("/ip4/1.2.3.4/udp/4001/quic-v1/p2p/{}", PEER));
}

#[test]
fn field_code_with_bad_ip_is_refused() {
    let peer = NodeId::parse(PEER).unwrap();
    let code = generate_void_code(&peer, "not-an-ip", 1);
    assert_eq!(parse_void_code(&code).unwrap_err(), CodecError::InvalidAddress);
}

#[test]
fn error_messages_are_descriptive() {
    assert_eq!(CodecError::InvalidBase64.message(), "Base64 decode error");
    assert_eq!(CodecError::MissingPort.message(), "Invalid address format. Missing port.");
}

#[test]
fn address_text_is_canonical() {
    assert!(ReachableAddress::parse("ip4/1.2.3.4").is_none());
    assert!(ReachableAddress::parse("/ip4/999.1.1.1/tcp/1").is_none());
    let a = ReachableAddress::parse("/ip6/0:0:0:0:0:0:0:1/tcp/80").unwrap();
    assert_eq!(a.as_str(), "/ip6/::1/tcp/80");
}

#[test]
fn relay_addresses_are_recognised() {
    let r = ReachableAddress::parse(&format!("/ip4/1.2.3.4/tcp/1/p2p/{}/p2p-circuit", PEER)).unwrap();
    let d = ReachableAddress::parse("/ip4/1.2.3.4/tcp/1").unwrap();
    assert!(r.is_relay());
    assert!(!d.is_relay());
}

#[test]
fn node_ids_parse_and_print() {
    assert!(NodeId::parse("not-a-peer").is_none());
    assert!(NodeId::parse("").is_none());
    let id = NodeId::parse(PEER).unwrap();
    assert_eq!(id.as_str(), PEER);
}

#[test]
fn decimal_text_writes_numbers() {
    assert_eq!(decimal_text(0), "0");
    assert_eq!(decimal_text(7), "7");
    assert_eq!(decimal_text(4001), "4001");
    assert_eq!(decimal_text(65535), "65535");
    assert_eq!(decimal_text(u64::MAX), "18446744073709551615");
}

#[test]
fn surrounding_white_space_is_ignored() {
    let a = parse_void_code("  void://L2lwNC8xMjcuMC4wLjEvdGNwLzQwMDE=\n").unwrap();
    assert_eq!(a.as_str(), "/ip4/127.0.0.1/tcp/4001");
    assert_eq!(parse_void_code("void:// L2lwNC8xMjcuMC4wLjEvdGNwLzQwMDE=").unwrap_err(), CodecError::InvalidBase64);
    assert_eq!(parse_void_code(" \t ").unwrap_err(), CodecError::MissingScheme);
}

#[test]
fn code_from_non_canonical_text_reads_back_canonical() {
    // "/ip6/0:0:0:0:0:0:0:1/tcp/80" in base64
    let a = parse_void_code("void://L2lwNi8wOjA6MDowOjA6MDowOjEvdGNwLzgw").unwrap();
    assert_eq!(a.as_str(), "/ip6/::1/tcp/80");
}
