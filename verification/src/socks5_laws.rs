//! What targets and packets amount to on the wire.

use vstd::prelude::*;
use crate::ip;
use crate::ip::Ip;
use crate::ip_laws;
use crate::ip_proofs;
use crate::socks5;
use crate::socks5::{PacketFault, Socks5Error};
use crate::text;

verus! {

/// The two bytes of a port stand for it, the high one first.
pub proof fn law_port_bytes(port: u16)
    ensures
        socks5::port_bytes(port).len() == 2,
        socks5::port_bytes(port)[0] * 256 + socks5::port_bytes(port)[1] == port,
{
}

/// The bytes end with the port.
pub open spec fn ends_with_port(bytes: Seq<u8>, port: u16) -> bool {
    bytes.len() >= 2 && bytes[bytes.len() - 2] * 256 + bytes[bytes.len() - 1] == port
}

/// An IPv4 target on the wire: the type, the four octets and the port.
pub proof fn law_ipv4_target(host: Seq<char>, octets: Seq<u8>, port: u16)
    requires
        ip::parse_ip(host) == Some(Ip::V4(octets)),
    ensures
        socks5::host_port_bytes(host, port) matches Ok(bytes) && bytes.len() == 7 && bytes[0] == 1
            && bytes.subrange(1, 5) == octets && ends_with_port(bytes, port),
{
    ip_proofs::law_parsed_is_complete(host);
    let bytes = socks5::host_port_bytes(host, port)->Ok_0;
    assert(bytes.subrange(1, 5) == octets);
    law_port_bytes(port);
}

/// An IPv6 target on the wire: the type, the eight groups with the high byte of each
/// first, and the port.
pub proof fn law_ipv6_target(host: Seq<char>, groups: Seq<u16>, port: u16)
    requires
        ip::parse_ip(host) == Some(Ip::V6(groups)),
    ensures
        socks5::host_port_bytes(host, port) matches Ok(bytes) && bytes.len() == 19 && bytes[0] == 4 && (
        forall|i: int|
            0 <= i < 8 ==> bytes[1 + 2 * i] * 256 + bytes[2 + 2 * i] == #[trigger] groups[i])
            && ends_with_port(bytes, port),
{
    ip_proofs::law_parsed_is_complete(host);
    let bytes = socks5::host_port_bytes(host, port)->Ok_0;
    let octets = Ip::V6(groups).octets();
    law_port_bytes(port);
    assert forall|i: int| 0 <= i < 8 implies bytes[1 + 2 * i] * 256 + bytes[2 + 2 * i]
        == #[trigger] groups[i] by {
        ip_laws::law_octets(seq![], groups, i);
        assert(bytes[1 + 2 * i] == octets[2 * i]);
        assert(bytes[2 + 2 * i] == octets[2 * i + 1]);
    }
}

/// Any other target on the wire: the type, the length of the name, the very bytes of
/// the name and the port. A name takes 1 to 255 bytes.
pub proof fn law_named_target(host: Seq<char>, port: u16)
    requires
        ip::parse_ip(host) is None,
    ensures
        ({
            let name = vstd::utf8::encode_utf8(host);
            let n = name.len() as int;
            let r = socks5::host_port_bytes(host, port);
            &&& 1 <= n <= 255 ==> (r matches Ok(bytes) && bytes.len() == n + 4 && bytes[0] == 3 && bytes[1]
                == n && bytes.subrange(2, 2 + n) == name && ends_with_port(bytes, port))
            &&& n == 0 ==> r == Err::<Seq<u8>, Socks5Error>(Socks5Error::EmptyDomain)
            &&& n > 255 ==> r == Err::<Seq<u8>, Socks5Error>(Socks5Error::DomainTooLong)
        }),
{
    law_port_bytes(port);
    let name = vstd::utf8::encode_utf8(host);
    if 1 <= name.len() <= 255 {
        let bytes = socks5::host_port_bytes(host, port)->Ok_0;
        assert(bytes.subrange(2, 2 + name.len() as int) == name);
    }
}

/// Targets with the same bytes are the same target: the same port, and the same
/// address or the same bytes of the name.
pub proof fn law_targets_are_told_apart(host: Seq<char>, port: u16, other: Seq<char>, other_port: u16)
    requires
        socks5::host_port_bytes(host, port) is Ok,
        socks5::host_port_bytes(host, port) == socks5::host_port_bytes(other, other_port),
    ensures
        port == other_port,
        ip::parse_ip(host) == ip::parse_ip(other),
        ip::parse_ip(host) is None ==> vstd::utf8::encode_utf8(host) == vstd::utf8::encode_utf8(other),
{
    lemma_target(host, port);
    lemma_target(other, other_port);
    let bytes = socks5::host_port_bytes(host, port)->Ok_0;
    match (ip::parse_ip(host), ip::parse_ip(other)) {
        (Some(Ip::V6(a)), Some(Ip::V6(b))) => {
            ip_proofs::law_parsed_is_complete(host);
            ip_proofs::law_parsed_is_complete(other);
            assert forall|i: int| 0 <= i < 8 implies a[i] == b[i] by {
                assert(bytes[1 + 2 * i] * 256 + bytes[2 + 2 * i] == a[i]);
                assert(bytes[1 + 2 * i] * 256 + bytes[2 + 2 * i] == b[i]);
            }
            assert(a == b);
        },
        _ => {},
    }
}

/// Whatever the target is, what its bytes say.
proof fn lemma_target(host: Seq<char>, port: u16)
    requires
        socks5::host_port_bytes(host, port) is Ok,
    ensures
        ({
            let bytes = socks5::host_port_bytes(host, port)->Ok_0;
            &&& ends_with_port(bytes, port)
            &&& match ip::parse_ip(host) {
                Some(Ip::V4(o)) => bytes[0] == 1 && bytes.subrange(1, 5) == o,
                Some(Ip::V6(groups)) => bytes[0] == 4 && forall|i: int|
                    0 <= i < 8 ==> bytes[1 + 2 * i] * 256 + bytes[2 + 2 * i] == #[trigger] groups[i],
                None => bytes[0] == 3 && bytes.subrange(2, 2 + bytes[1]) == vstd::utf8::encode_utf8(host),
            }
        }),
{
    match ip::parse_ip(host) {
        Some(Ip::V4(o)) => law_ipv4_target(host, o, port),
        Some(Ip::V6(groups)) => law_ipv6_target(host, groups, port),
        None => law_named_target(host, port),
    }
}

/// The payload is found in every packet that a relay may send: from any address of any
/// type, with any port and any payload.
pub proof fn law_any_packet_decodes(
    ipv4: Seq<u8>,
    ipv6: Seq<u8>,
    name: Seq<u8>,
    port: Seq<u8>,
    payload: Seq<u8>,
)
    requires
        ipv4.len() == 4,
        ipv6.len() == 16,
        name.len() <= 255,
        vstd::utf8::valid_utf8(name),
        port.len() == 2,
    ensures
        socks5::payload_start(seq![0u8, 0, 0, 1] + ipv4 + port + payload) == Ok::<int, PacketFault>(10),
        socks5::payload_start(seq![0u8, 0, 0, 4] + ipv6 + port + payload) == Ok::<int, PacketFault>(22),
        socks5::payload_start(seq![0u8, 0, 0, 3, name.len() as u8] + name + port + payload) == Ok::<
            int,
            PacketFault,
        >(7 + name.len() as int),
{
    let packet = seq![0u8, 0, 0, 3, name.len() as u8] + name + port + payload;
    assert(packet[4] == name.len());
    assert(packet.subrange(5, 5 + name.len() as int) == name);
    let four = seq![0u8, 0, 0, 1] + ipv4 + port + payload;
    assert(four[0] == 0 && four[1] == 0 && four[2] == 0 && four[3] == 1);
    let six = seq![0u8, 0, 0, 4] + ipv6 + port + payload;
    assert(six[0] == 0 && six[1] == 0 && six[2] == 0 && six[3] == 4);
    assert(packet[0] == 0 && packet[1] == 0 && packet[2] == 0 && packet[3] == 3);
}

/// Nothing else decodes: the header is zero, the address type is known, the address and
/// the port are there, and a name is UTF-8.
pub proof fn law_only_packets_decode(buf: Seq<u8>, start: int)
    requires
        socks5::payload_start(buf) == Ok::<int, PacketFault>(start),
    ensures
        start <= buf.len(),
        buf[0] == 0 && buf[1] == 0 && buf[2] == 0,
        (buf[3] == 1 && start == 10) || (buf[3] == 4 && start == 22) || (buf[3] == 3 && start == 7 + buf[4]
            && vstd::utf8::valid_utf8(buf.subrange(5, 5 + buf[4]))),
{
}

/// Why a packet is rejected.
pub proof fn law_packet_faults(buf: Seq<u8>)
    ensures
        ({
            let n = buf.len();
            let r = socks5::payload_start(buf);
            let zero = n >= 4 && buf[0] == 0 && buf[1] == 0;
            let whole = zero && buf[2] == 0;
            &&& !zero <==> r == Err::<int, PacketFault>(PacketFault::Header)
            &&& zero && buf[2] != 0 <==> r == Err::<int, PacketFault>(PacketFault::Fragmented)
            &&& whole && buf[3] == 1 && n < 8 <==> r == Err::<int, PacketFault>(PacketFault::TruncatedIpv4)
            &&& whole && buf[3] == 4 && n < 20 <==> r == Err::<int, PacketFault>(PacketFault::TruncatedIpv6)
            &&& whole && buf[3] == 3 && n < 5 <==> r == Err::<int, PacketFault>(
                PacketFault::TruncatedDomainLength,
            )
            &&& whole && buf[3] == 3 && 5 <= n < 5 + buf[4] <==> r == Err::<int, PacketFault>(
                PacketFault::TruncatedDomain,
            )
            &&& whole && buf[3] == 3 && 5 <= n && 5 + buf[4] <= n && !vstd::utf8::valid_utf8(
                buf.subrange(5, 5 + buf[4]),
            ) <==> r == Err::<int, PacketFault>(PacketFault::DomainNotUtf8)
            &&& whole && buf[3] != 1 && buf[3] != 3 && buf[3] != 4 <==> r == Err::<int, PacketFault>(
                PacketFault::AddressType(buf[3]),
            )
            &&& r matches Err(PacketFault::AddressType(b)) ==> b == buf[3]
            &&& whole && ((buf[3] == 1 && 8 <= n < 10) || (buf[3] == 4 && 20 <= n < 22) || (buf[3] == 3 && 5
                <= n && 5 + buf[4] <= n < 7 + buf[4] && vstd::utf8::valid_utf8(buf.subrange(5, 5 + buf[4]))))
                <==> r == Err::<int, PacketFault>(PacketFault::TruncatedPort)
        }),
{
}

/// The reports that tell a byte tell it in hexadecimal, and in full.
pub proof fn law_reports_tell_the_byte(b: u8, buf: Seq<u8>)
    ensures
        socks5::error_message(Socks5Error::AuthReplyVersion(b)) == "invalid SOCKS5 auth reply version: 0x"@
            + text::hex_byte(b),
        socks5::error_message(Socks5Error::AuthRejected(b))
            == "SOCKS5 username/password authentication failed: status 0x"@ + text::hex_byte(b),
        socks5::error_message(Socks5Error::Rejected(b)) == "SOCKS5 request rejected: 0x"@ + text::hex_byte(b),
        socks5::error_message(Socks5Error::ReplyAddressType(b)) == "unsupported SOCKS5 address type: 0x"@
            + text::hex_byte(b),
        socks5::packet_report(buf, PacketFault::AddressType(b))
            == "unsupported SOCKS5 UDP address type: 0x"@ + text::hex_byte(b),
        socks5::packet_report(buf, PacketFault::DomainNotUtf8) == socks5::utf8_complaint(
            buf.subrange(5, 5 + buf[4]),
        ),
{
}

/// The reports of faults that tell no byte depend on nothing else.
pub proof fn law_plain_reports(buf: Seq<u8>)
    ensures
        socks5::packet_report(buf, PacketFault::Header) == "invalid SOCKS5 UDP header"@,
        socks5::packet_report(buf, PacketFault::Fragmented)
            == "fragmented SOCKS5 UDP packets are unsupported"@,
        socks5::packet_report(buf, PacketFault::TruncatedIpv4) == "truncated IPv4"@,
        socks5::packet_report(buf, PacketFault::TruncatedIpv6) == "truncated IPv6"@,
        socks5::packet_report(buf, PacketFault::TruncatedDomainLength) == "truncated domain length"@,
        socks5::packet_report(buf, PacketFault::TruncatedDomain) == "truncated domain"@,
        socks5::packet_report(buf, PacketFault::TruncatedPort) == "truncated port"@,
{
}

} // verus!
