//! The SOCKS5 wire format: target addresses and UDP packets.

use vstd::prelude::*;
use vstd::string::*;
use crate::ip;
use crate::ip::{Ip, IpAddress};
use crate::text;

verus! {

/// The protocol version.
pub const VERSION: u8 = 5;

/// The address type of an IPv4 address.
pub const ATYP_IPV4: u8 = 1;

/// The address type of a domain name.
pub const ATYP_DOMAIN: u8 = 3;

/// The address type of an IPv6 address.
pub const ATYP_IPV6: u8 = 4;

/// Why talking to a SOCKS5 server failed.
#[derive(Clone, Copy, Debug, PartialEq, Eq, Structural)]
pub enum Socks5Error {
    /// The server does not take user names and passwords.
    UserPassRefused,
    /// The server asks for authentication.
    NoAuthRefused,
    UsernameTooLong,
    PasswordTooLong,
    EmptyCredentials,
    /// The answer to the credentials has this version.
    AuthReplyVersion(u8),
    /// The credentials were rejected with this status.
    AuthRejected(u8),
    ReplyHeader,
    /// The request was rejected with this code.
    Rejected(u8),
    ReplyDomain,
    /// The reply has an address of this type.
    ReplyAddressType(u8),
    DomainTooLong,
    EmptyDomain,
}

/// What an error is reported as.
pub open spec fn error_message(e: Socks5Error) -> Seq<char> {
    match e {
        Socks5Error::UserPassRefused =>
            "SOCKS5 proxy does not accept username/password authentication"@,
        Socks5Error::NoAuthRefused => "SOCKS5 proxy does not support no authentication"@,
        Socks5Error::UsernameTooLong => "SOCKS5 username exceeds 255 bytes"@,
        Socks5Error::PasswordTooLong => "SOCKS5 password exceeds 255 bytes"@,
        Socks5Error::EmptyCredentials => "empty SOCKS5 username or password"@,
        Socks5Error::AuthReplyVersion(v) => "invalid SOCKS5 auth reply version: 0x"@ + text::hex_byte(v),
        Socks5Error::AuthRejected(status) =>
            "SOCKS5 username/password authentication failed: status 0x"@ + text::hex_byte(status),
        Socks5Error::ReplyHeader => "invalid SOCKS5 reply header"@,
        Socks5Error::Rejected(code) => "SOCKS5 request rejected: 0x"@ + text::hex_byte(code),
        Socks5Error::ReplyDomain => "SOCKS5 reply address must be an IP address"@,
        Socks5Error::ReplyAddressType(atyp) => "unsupported SOCKS5 address type: 0x"@ + text::hex_byte(
            atyp,
        ),
        Socks5Error::DomainTooLong => "SOCKS5 domain exceeds 255 bytes"@,
        Socks5Error::EmptyDomain => "empty SOCKS5 domain"@,
    }
}

impl Socks5Error {
    /// The report of the error.
    pub fn message(&self) -> (r: String)
        ensures
            r@ == error_message(*self),
    {
        match *self {
            Socks5Error::UserPassRefused =>
                "SOCKS5 proxy does not accept username/password authentication".to_owned(),
            Socks5Error::NoAuthRefused => "SOCKS5 proxy does not support no authentication".to_owned(),
            Socks5Error::UsernameTooLong => "SOCKS5 username exceeds 255 bytes".to_owned(),
            Socks5Error::PasswordTooLong => "SOCKS5 password exceeds 255 bytes".to_owned(),
            Socks5Error::EmptyCredentials => "empty SOCKS5 username or password".to_owned(),
            Socks5Error::AuthReplyVersion(v) => text::with_hex(
                "invalid SOCKS5 auth reply version: 0x",
                v,
            ),
            Socks5Error::AuthRejected(status) => text::with_hex(
                "SOCKS5 username/password authentication failed: status 0x",
                status,
            ),
            Socks5Error::ReplyHeader => "invalid SOCKS5 reply header".to_owned(),
            Socks5Error::Rejected(code) => text::with_hex("SOCKS5 request rejected: 0x", code),
            Socks5Error::ReplyDomain => "SOCKS5 reply address must be an IP address".to_owned(),
            Socks5Error::ReplyAddressType(atyp) => text::with_hex(
                "unsupported SOCKS5 address type: 0x",
                atyp,
            ),
            Socks5Error::DomainTooLong => "SOCKS5 domain exceeds 255 bytes".to_owned(),
            Socks5Error::EmptyDomain => "empty SOCKS5 domain".to_owned(),
        }
    }
}

/// A port in network order.
pub open spec fn port_bytes(port: u16) -> Seq<u8> {
    seq![(port / 256) as u8, (port % 256) as u8]
}

/// A target on the wire: the type and the octets of an IP address, or the type,
/// the length and the bytes of a domain name; then the port.
pub open spec fn host_port_bytes(host: Seq<char>, port: u16) -> Result<Seq<u8>, Socks5Error> {
    match ip::parse_ip(host) {
        Some(Ip::V4(octets)) => Ok(seq![ATYP_IPV4] + octets + port_bytes(port)),
        Some(Ip::V6(groups)) => Ok(seq![ATYP_IPV6] + Ip::V6(groups).octets() + port_bytes(port)),
        None => {
            let name = vstd::utf8::encode_utf8(host);
            if name.len() > 255 {
                Err(Socks5Error::DomainTooLong)
            } else if name.len() == 0 {
                Err(Socks5Error::EmptyDomain)
            } else {
                Ok(seq![ATYP_DOMAIN, name.len() as u8] + name + port_bytes(port))
            }
        },
    }
}

/// Adds a target to `out`. A target that does not fit leaves `out` as it was.
pub fn encode_host_port(out: &mut Vec<u8>, host: &str, port: u16) -> (r: Result<(), Socks5Error>)
    ensures
        match r {
            Ok(()) => host_port_bytes(host@, port) matches Ok(bytes) && final(out)@ == old(out)@ + bytes,
            Err(e) => host_port_bytes(host@, port) == Err::<Seq<u8>, Socks5Error>(e) && final(out)@ == old(
                out,
            )@,
        },
{
    let chars = text::chars_of(host);
    match ip::ip_of(chars.as_slice()) {
        Some(ip) => {
            match ip {
                IpAddress::V4(_) => {
                    out.push(ATYP_IPV4);
                },
                IpAddress::V6(_) => {
                    out.push(ATYP_IPV6);
                },
            }
            ip.push_octets(out);
        },
        None => {
            let bytes = host.as_bytes();
            let n: usize = bytes.len();
            if n > 255 {
                return Err(Socks5Error::DomainTooLong);
            }
            if n == 0 {
                return Err(Socks5Error::EmptyDomain);
            }
            out.push(ATYP_DOMAIN);
            out.push(n as u8);
            out.extend_from_slice(bytes);
        },
    }
    out.push((port / 256) as u8);
    out.push((port % 256) as u8);
    proof {
        let bytes = host_port_bytes(host@, port).unwrap();
        assert(out@ == old(out)@ + bytes);
    }
    Ok(())
}

/// Where the payload of a packet begins.
#[derive(Clone, Copy, Debug, PartialEq, Eq)]
pub struct UdpPacket {
    pub payload_start: usize,
}

/// Makes `buf` the packet that carries `payload` to the target. For a target
/// that does not fit, `buf` is left with the header alone.
pub fn encode_udp_packet(buf: &mut Vec<u8>, host: &str, port: u16, payload: &[u8]) -> (r: Result<
    (),
    Socks5Error,
>)
    ensures
        match r {
            Ok(()) => host_port_bytes(host@, port) matches Ok(target) && final(buf)@ == seq![0u8, 0u8, 0u8]
                + target + payload@,
            Err(e) => host_port_bytes(host@, port) == Err::<Seq<u8>, Socks5Error>(e) && final(buf)@
                == seq![0u8, 0u8, 0u8],
        },
{
    buf.clear();
    buf.push(0);
    buf.push(0);
    buf.push(0);
    assert(buf@ == seq![0u8, 0u8, 0u8]);
    match encode_host_port(buf, host, port) {
        Ok(()) => {
            buf.extend_from_slice(payload);
            Ok(())
        },
        Err(e) => Err(e),
    }
}

/// What is wrong with a UDP packet.
#[derive(Clone, Copy, Debug, PartialEq, Eq, Structural)]
pub enum PacketFault {
    Header,
    Fragmented,
    TruncatedIpv4,
    TruncatedIpv6,
    TruncatedDomainLength,
    TruncatedDomain,
    DomainNotUtf8,
    AddressType(u8),
    TruncatedPort,
}

/// A rejected UDP packet.
#[derive(Debug, PartialEq, Eq)]
pub struct PacketError {
    pub fault: PacketFault,
    /// The report of the error.
    pub report: String,
}

/// Where the address in a packet ends. The packet has at least four bytes, and the
/// last of them is the address type.
pub open spec fn address_end(buf: Seq<u8>) -> Result<int, PacketFault> {
    if buf[3] == ATYP_IPV4 {
        if buf.len() < 8 {
            Err(PacketFault::TruncatedIpv4)
        } else {
            Ok(8)
        }
    } else if buf[3] == ATYP_IPV6 {
        if buf.len() < 20 {
            Err(PacketFault::TruncatedIpv6)
        } else {
            Ok(20)
        }
    } else if buf[3] == ATYP_DOMAIN {
        if buf.len() < 5 {
            Err(PacketFault::TruncatedDomainLength)
        } else if buf.len() < 5 + buf[4] {
            Err(PacketFault::TruncatedDomain)
        } else if !vstd::utf8::valid_utf8(buf.subrange(5, 5 + buf[4])) {
            Err(PacketFault::DomainNotUtf8)
        } else {
            Ok(5 + buf[4])
        }
    } else {
        Err(PacketFault::AddressType(buf[3]))
    }
}

/// Where the payload of a packet begins: after two zero bytes, a zero fragment
/// number, the address and the port.
pub open spec fn payload_start(buf: Seq<u8>) -> Result<int, PacketFault> {
    if buf.len() < 4 || buf[0] != 0 || buf[1] != 0 {
        Err(PacketFault::Header)
    } else if buf[2] != 0 {
        Err(PacketFault::Fragmented)
    } else {
        match address_end(buf) {
            Err(fault) => Err(fault),
            Ok(end) => if buf.len() < end + 2 {
                Err(PacketFault::TruncatedPort)
            } else {
                Ok(end + 2)
            },
        }
    }
}

/// What `Utf8Error` says of bytes that are no UTF-8.
pub uninterp spec fn utf8_complaint(bytes: Seq<u8>) -> Seq<char>;

/// `core::str::from_utf8`, and what its error prints as: nothing for UTF-8, and
/// the complaint otherwise. How the complaint reads is left to `utf8_complaint`.
#[verifier::external_body]
fn check_utf8(bytes: &[u8]) -> (r: Result<(), String>)
    ensures
        r is Ok <==> vstd::utf8::valid_utf8(bytes@),
        r matches Err(complaint) ==> complaint@ == utf8_complaint(bytes@),
{
    match core::str::from_utf8(bytes) {
        Ok(_) => Ok(()),
        Err(e) => Err(e.to_string()),
    }
}

/// What a rejected packet is reported as.
pub open spec fn packet_report(buf: Seq<u8>, fault: PacketFault) -> Seq<char> {
    match fault {
        PacketFault::Header => "invalid SOCKS5 UDP header"@,
        PacketFault::Fragmented => "fragmented SOCKS5 UDP packets are unsupported"@,
        PacketFault::TruncatedIpv4 => "truncated IPv4"@,
        PacketFault::TruncatedIpv6 => "truncated IPv6"@,
        PacketFault::TruncatedDomainLength => "truncated domain length"@,
        PacketFault::TruncatedDomain => "truncated domain"@,
        PacketFault::DomainNotUtf8 => utf8_complaint(buf.subrange(5, 5 + buf[4])),
        PacketFault::AddressType(atyp) => "unsupported SOCKS5 UDP address type: 0x"@ + text::hex_byte(
            atyp,
        ),
        PacketFault::TruncatedPort => "truncated port"@,
    }
}

/// Finds the payload of a packet.
pub fn decode_udp_packet(buf: &[u8]) -> (r: Result<UdpPacket, PacketError>)
    ensures
        match r {
            Ok(packet) => payload_start(buf@) == Ok::<int, PacketFault>(packet.payload_start as int)
                && packet.payload_start <= buf@.len(),
            Err(e) => payload_start(buf@) == Err::<int, PacketFault>(e.fault) && e.report@ == packet_report(
                buf@,
                e.fault,
            ),
        },
{
    let n: usize = buf.len();
    if n < 4 || buf[0] != 0 || buf[1] != 0 {
        return Err(
            PacketError { fault: PacketFault::Header, report: "invalid SOCKS5 UDP header".to_owned() },
        );
    }
    if buf[2] != 0 {
        return Err(
            PacketError {
                fault: PacketFault::Fragmented,
                report: "fragmented SOCKS5 UDP packets are unsupported".to_owned(),
            },
        );
    }
    let atyp = buf[3];
    let end: usize = if atyp == ATYP_IPV4 {
        if n < 8 {
            return Err(
                PacketError { fault: PacketFault::TruncatedIpv4, report: "truncated IPv4".to_owned() },
            );
        }
        8
    } else if atyp == ATYP_IPV6 {
        if n < 20 {
            return Err(
                PacketError { fault: PacketFault::TruncatedIpv6, report: "truncated IPv6".to_owned() },
            );
        }
        20
    } else if atyp == ATYP_DOMAIN {
        if n < 5 {
            return Err(
                PacketError {
                    fault: PacketFault::TruncatedDomainLength,
                    report: "truncated domain length".to_owned(),
                },
            );
        }
        let len: usize = buf[4] as usize;
        if n - 5 < len {
            return Err(
                PacketError { fault: PacketFault::TruncatedDomain, report: "truncated domain".to_owned() },
            );
        }
        match check_utf8(vstd::slice::slice_subrange(buf, 5, 5 + len)) {
            Ok(()) => {},
            Err(report) => {
                return Err(PacketError { fault: PacketFault::DomainNotUtf8, report });
            },
        }
        5 + len
    } else {
        return Err(
            PacketError {
                fault: PacketFault::AddressType(atyp),
                report: text::with_hex("unsupported SOCKS5 UDP address type: 0x", atyp),
            },
        );
    };
    if n - end < 2 {
        return Err(PacketError { fault: PacketFault::TruncatedPort, report: "truncated port".to_owned() });
    }
    Ok(UdpPacket { payload_start: end + 2 })
}

/// A packet that was encoded for any target decodes, and its payload is the one
/// that was encoded.
pub proof fn law_payload_round_trip(host: Seq<char>, port: u16, payload: Seq<u8>)
    requires
        host_port_bytes(host, port) is Ok,
    ensures
        ({
            let packet = seq![0u8, 0u8, 0u8] + host_port_bytes(host, port)->Ok_0 + payload;
            payload_start(packet) matches Ok(start) && packet.skip(start) == payload
        }),
{
    let target = host_port_bytes(host, port)->Ok_0;
    let packet = seq![0u8, 0u8, 0u8] + target + payload;
    let start = 3 + target.len() as int;
    assert(packet.skip(start) == payload);
    assert(packet[3] == target[0]);
    match ip::parse_ip(host) {
        Some(_) => {
            crate::ip_proofs::law_parsed_is_complete(host);
        },
        None => {
            let name = vstd::utf8::encode_utf8(host);
            vstd::utf8::encode_utf8_valid_utf8(host);
            assert(packet[4] == target[1]);
            assert(packet.subrange(5, 5 + packet[4]) == name);
        },
    }
}

} // verus!
