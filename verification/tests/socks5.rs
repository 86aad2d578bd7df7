//! UDP packets and target addresses on the wire.

use wtproxy::socks5::{
    decode_udp_packet, encode_host_port, encode_udp_packet, PacketFault, Socks5Error, ATYP_DOMAIN,
    ATYP_IPV4, ATYP_IPV6,
};
use wtproxy::udp::relayed_payload;

#[test]
fn round_trips_addresses() {
    let mut b = Vec::new();
    encode_udp_packet(&mut b, "127.0.0.1", 80, b"x").unwrap();
    assert_eq!(decode_udp_packet(&b).unwrap().payload_start, b.len() - 1);
    encode_udp_packet(&mut b, "example.com", 443, b"x").unwrap();
    assert_eq!(b[3], ATYP_DOMAIN);
    encode_udp_packet(&mut b, "::1", 53, b"x").unwrap();
    assert_eq!(b[3], ATYP_IPV6);
}

#[test]
fn rejects_invalid_packets() {
    assert!(decode_udp_packet(&[0, 0, 1, ATYP_IPV4]).is_err());
    assert!(decode_udp_packet(&[0, 0, 0, ATYP_DOMAIN, 3, b'a']).is_err());
    assert!(decode_udp_packet(&[0, 0, 0, 99]).is_err());
}

#[test]
fn rejects_oversized_domains() {
    let mut b = Vec::new();
    let host = "a".repeat(256);
    assert!(encode_udp_packet(&mut b, &host, 80, b"x").is_err());
}

#[test]
fn preserves_payload_offset_for_ipv6() {
    let mut b = Vec::new();
    encode_udp_packet(&mut b, "::1", 53, b"payload").unwrap();
    let packet = decode_udp_packet(&b).unwrap();
    assert_eq!(&b[packet.payload_start..], b"payload");
}

#[test]
fn targets_byte_for_byte() {
    let mut b = vec![9];
    encode_host_port(&mut b, "127.0.0.1", 1080).unwrap();
    assert_eq!(b, [9, 1, 127, 0, 0, 1, 0x04, 0x38]);
    let mut b = Vec::new();
    encode_host_port(&mut b, "2001:db8::1", 443).unwrap();
    assert_eq!(
        b,
        [4, 0x20, 0x01, 0x0d, 0xb8, 0, 0, 0, 0, 0, 0, 0, 0, 0, 0, 0, 1, 0x01, 0xbb]
    );
    let mut b = Vec::new();
    encode_host_port(&mut b, "a.io", 80).unwrap();
    assert_eq!(b, [3, 4, b'a', b'.', b'i', b'o', 0, 80]);
}

#[test]
fn what_does_not_fit_leaves_the_buffer() {
    let mut b = vec![7];
    assert_eq!(
        encode_host_port(&mut b, "", 80),
        Err(Socks5Error::EmptyDomain)
    );
    assert_eq!(
        encode_host_port(&mut b, &"a".repeat(256), 80),
        Err(Socks5Error::DomainTooLong)
    );
    assert_eq!(b, [7]);
    assert!(encode_host_port(&mut b, &"a".repeat(255), 80).is_ok());
    assert_eq!(b.len(), 1 + 2 + 255 + 2);
}

#[test]
fn packets_byte_for_byte() {
    let mut b = vec![1, 2, 3];
    encode_udp_packet(&mut b, "1.2.3.4", 5, b"hi").unwrap();
    assert_eq!(b, [0, 0, 0, 1, 1, 2, 3, 4, 0, 5, b'h', b'i']);
    assert_eq!(
        encode_udp_packet(&mut b, "", 5, b"hi"),
        Err(Socks5Error::EmptyDomain)
    );
    assert_eq!(b, [0, 0, 0]);
}

#[test]
fn the_payload_comes_back_for_every_kind_of_target() {
    for host in ["10.0.0.1", "::ffff:10.0.0.1", "example.com", "b\u{fc}cher.example"] {
        let mut b = Vec::new();
        encode_udp_packet(&mut b, host, 53, b"payload").unwrap();
        assert_eq!(relayed_payload(&b).unwrap(), b"payload");
    }
}

fn fault(packet: &[u8]) -> (PacketFault, String) {
    let e = decode_udp_packet(packet).unwrap_err();
    assert_eq!(relayed_payload(packet).unwrap_err(), e);
    (e.fault, e.report)
}

#[test]
fn names_the_fault_of_a_packet() {
    assert_eq!(
        fault(&[0, 0, 0]),
        (PacketFault::Header, "invalid SOCKS5 UDP header".to_owned())
    );
    assert_eq!(fault(&[0, 1, 0, 1]).0, PacketFault::Header);
    assert_eq!(
        fault(&[0, 0, 1, 1]),
        (
            PacketFault::Fragmented,
            "fragmented SOCKS5 UDP packets are unsupported".to_owned()
        )
    );
    assert_eq!(
        fault(&[0, 0, 0, 1, 1, 2, 3]),
        (PacketFault::TruncatedIpv4, "truncated IPv4".to_owned())
    );
    assert_eq!(
        fault(&[0, 0, 0, 4, 1]),
        (PacketFault::TruncatedIpv6, "truncated IPv6".to_owned())
    );
    assert_eq!(
        fault(&[0, 0, 0, 3]),
        (
            PacketFault::TruncatedDomainLength,
            "truncated domain length".to_owned()
        )
    );
    assert_eq!(
        fault(&[0, 0, 0, 3, 2, b'a']),
        (PacketFault::TruncatedDomain, "truncated domain".to_owned())
    );
    assert_eq!(
        fault(&[0, 0, 0, 99]),
        (
            PacketFault::AddressType(99),
            "unsupported SOCKS5 UDP address type: 0x63".to_owned()
        )
    );
    assert_eq!(
        fault(&[0, 0, 0, 1, 1, 2, 3, 4, 0]),
        (PacketFault::TruncatedPort, "truncated port".to_owned())
    );
    assert_eq!(
        fault(&[0, 0, 0, 3, 1, 0xff, 0, 80]),
        (
            PacketFault::DomainNotUtf8,
            "invalid utf-8 sequence of 1 bytes from index 0".to_owned()
        )
    );
}

#[test]
fn an_empty_domain_and_an_empty_payload_decode() {
    assert_eq!(
        decode_udp_packet(&[0, 0, 0, 3, 0, 0, 80]).unwrap().payload_start,
        7
    );
}
