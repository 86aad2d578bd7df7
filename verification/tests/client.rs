//! Exchanges with a SOCKS5 server.

use wtproxy::client::{
    authenticate, connect_exchange, effective_relay, udp_associate_exchange, Exchange, Next, Step,
    AUTH_VERSION, CMD_CONNECT, CMD_UDP_ASSOCIATE, METHOD_USER_PASS, NO_AUTH,
};
use wtproxy::ip::{IpAddress, SocketAddress};
use wtproxy::ip::socket_of;
use wtproxy::socks5::{Socks5Error, ATYP_DOMAIN, ATYP_IPV4, ATYP_IPV6, VERSION};
use wtproxy::text::chars_of;

fn address(s: &str) -> SocketAddress {
    socket_of(chars_of(s).as_slice()).unwrap()
}

/// Plays an exchange against a server that says `input`. Gives what was sent, how
/// much of the input was read, and the end, if the input lasts that long.
fn play(
    start: (Exchange, Step),
    input: &[u8],
) -> (Vec<u8>, usize, Option<Result<SocketAddress, Socks5Error>>) {
    let (mut exchange, mut step) = start;
    let mut sent = Vec::new();
    let mut pos: usize = 0;
    loop {
        sent.extend_from_slice(&step.send);
        match step.next {
            Next::Read(n) => {
                if input.len() - pos < n {
                    return (sent, pos, None);
                }
                step = exchange.advance(&input[pos..pos + n]);
                pos += n;
            }
            Next::Done(a) => return (sent, pos, Some(Ok(a))),
            Next::Fail(e) => return (sent, pos, Some(Err(e))),
        }
    }
}

/// Asks for a relay of a server without authentication that gives this reply and
/// then stays silent.
fn request_with_single_reply(reply: Vec<u8>) -> Result<SocketAddress, Socks5Error> {
    let mut input = vec![VERSION, NO_AUTH];
    input.extend_from_slice(&reply);
    let (sent, read, end) = play(udp_associate_exchange(None), &input);
    assert_eq!(
        sent,
        [VERSION, 1, NO_AUTH, VERSION, CMD_UDP_ASSOCIATE, 0, ATYP_IPV4, 0, 0, 0, 0, 0, 0]
    );
    assert_eq!(read, input.len());
    end.expect("request must not wait for a second reply")
}

#[test]
fn decodes_ipv4_relay_reply_once() {
    let relay =
        request_with_single_reply(vec![VERSION, 0, 0, ATYP_IPV4, 127, 0, 0, 1, 0x04, 0x38])
            .unwrap();
    assert_eq!(relay, address("127.0.0.1:1080"));
}

#[test]
fn decodes_ipv6_relay_reply() {
    let mut reply = vec![VERSION, 0, 0, ATYP_IPV6];
    reply.extend_from_slice(&[0, 0, 0, 0, 0, 0, 0, 0, 0, 0, 0, 0, 0, 0, 0, 1]);
    reply.extend_from_slice(&53u16.to_be_bytes());
    let relay = request_with_single_reply(reply).unwrap();
    assert_eq!(relay, address("[::1]:53"));
}

#[test]
fn relay_falls_back_to_proxy_addr_when_unspecified() {
    let proxy = address("192.0.2.10:1080");
    let unspecified = address("0.0.0.0:1080");
    assert_eq!(
        effective_relay(unspecified, proxy),
        address("192.0.2.10:1080")
    );
    let explicit = address("198.51.100.7:9");
    assert_eq!(effective_relay(explicit, proxy), explicit);
}

#[test]
fn an_unspecified_ipv6_relay_keeps_its_port() {
    assert_eq!(
        effective_relay(address("[::]:9"), address("192.0.2.10:1080")),
        address("192.0.2.10:9")
    );
}

/// Checks the greeting, answers it with a method, and, where a status is given,
/// checks the credentials `user` and `pass` and answers them. The handshake is
/// through when the request goes out.
fn run_handshake(
    auth: Option<(&str, &str)>,
    method_reply: u8,
    auth_reply: Option<u8>,
) -> Result<(), Socks5Error> {
    let expect_method = if auth.is_some() {
        METHOD_USER_PASS
    } else {
        NO_AUTH
    };
    let mut input = vec![VERSION, method_reply];
    let mut expected = vec![VERSION, 1, expect_method];
    if let Some(status) = auth_reply {
        expected.extend_from_slice(b"\x01\x04user\x04pass");
        input.extend_from_slice(&[AUTH_VERSION, status]);
    }
    let (sent, read, end) = play(connect_exchange(auth, "h", 1), &input);
    assert_eq!(read, input.len());
    match end {
        Some(Err(e)) => {
            assert_eq!(sent, expected);
            Err(e)
        }
        Some(Ok(_)) => panic!("handshake must not end an exchange"),
        None => {
            expected.extend_from_slice(&[VERSION, CMD_CONNECT, 0, ATYP_DOMAIN, 1, b'h', 0, 1]);
            assert_eq!(sent, expected);
            Ok(())
        }
    }
}

#[test]
fn no_auth_handshake_unchanged() {
    run_handshake(None, NO_AUTH, None).unwrap();
}

#[test]
fn authenticates_with_username_password() {
    run_handshake(Some(("user", "pass")), METHOD_USER_PASS, Some(0)).unwrap();
}

#[test]
fn rejects_wrong_password() {
    let err = run_handshake(Some(("user", "pass")), METHOD_USER_PASS, Some(1)).unwrap_err();
    assert!(err.message().contains("authentication failed"));
}

#[test]
fn rejects_server_without_user_pass_support() {
    for reply in [0xFF, NO_AUTH] {
        let err = run_handshake(Some(("user", "pass")), reply, None).unwrap_err();
        assert!(err.message().contains("username/password"));
    }
}

#[test]
fn rejects_empty_or_overlong_credentials() {
    assert!(authenticate("", "p").is_err());
    assert!(authenticate("u", "").is_err());
    let long = "x".repeat(256);
    assert!(authenticate(&long, "p").is_err());
    assert!(authenticate("u", &long).is_err());
}

#[test]
fn names_the_fault_of_credentials() {
    let long = "x".repeat(256);
    assert_eq!(authenticate(&long, ""), Err(Socks5Error::UsernameTooLong));
    assert_eq!(authenticate("", &long), Err(Socks5Error::PasswordTooLong));
    assert_eq!(authenticate("", "p"), Err(Socks5Error::EmptyCredentials));
    assert_eq!(
        authenticate("u", "pw"),
        Ok(vec![1, 1, b'u', 2, b'p', b'w'])
    );
    let most = "x".repeat(255);
    assert_eq!(authenticate(&most, &most).unwrap().len(), 3 + 255 + 255);
}

#[test]
fn a_server_that_wants_authentication_is_refused() {
    assert_eq!(
        run_handshake(None, METHOD_USER_PASS, None),
        Err(Socks5Error::NoAuthRefused)
    );
    let (_, _, end) = play(connect_exchange(None, "h", 1), &[4, 0]);
    assert_eq!(end, Some(Err(Socks5Error::NoAuthRefused)));
}

#[test]
fn the_answer_to_credentials_has_a_version_of_its_own() {
    let (_, _, end) = play(
        connect_exchange(Some(("user", "pass")), "h", 1),
        &[VERSION, METHOD_USER_PASS, VERSION, 0],
    );
    assert_eq!(end, Some(Err(Socks5Error::AuthReplyVersion(5))));
}

#[test]
fn credentials_are_checked_before_they_are_sent() {
    let (sent, _, end) = play(
        connect_exchange(Some(("", "pass")), "h", 1),
        &[VERSION, METHOD_USER_PASS],
    );
    assert_eq!(sent, [VERSION, 1, METHOD_USER_PASS]);
    assert_eq!(end, Some(Err(Socks5Error::EmptyCredentials)));
}

#[test]
fn a_target_that_does_not_fit_is_not_sent() {
    let host = "a".repeat(256);
    let (sent, _, end) = play(connect_exchange(None, &host, 1), &[VERSION, NO_AUTH]);
    assert_eq!(sent, [VERSION, 1, NO_AUTH]);
    assert_eq!(end, Some(Err(Socks5Error::DomainTooLong)));
}

#[test]
fn names_the_fault_of_a_reply() {
    let faults = [
        ([4, 0, 0, 1], Socks5Error::ReplyHeader),
        ([5, 0, 1, 1], Socks5Error::ReplyHeader),
        ([5, 7, 0, 1], Socks5Error::Rejected(7)),
        ([5, 0, 0, 3], Socks5Error::ReplyDomain),
        ([5, 0, 0, 2], Socks5Error::ReplyAddressType(2)),
    ];
    for (header, expected) in faults {
        assert_eq!(request_with_single_reply(header.to_vec()), Err(expected));
    }
}

#[test]
fn what_follows_the_reply_is_left_unread() {
    let input = [5, 0, 5, 0, 0, 1, 10, 0, 0, 1, 0, 9, 42, 43];
    let (_, read, end) = play(connect_exchange(None, "example.com", 80), &input);
    assert_eq!(read, 12);
    assert_eq!(
        end,
        Some(Ok(SocketAddress {
            ip: IpAddress::V4([10, 0, 0, 1]),
            port: 9
        }))
    );
}

#[test]
fn reports_errors() {
    let reports = [
        (
            Socks5Error::UserPassRefused,
            "SOCKS5 proxy does not accept username/password authentication",
        ),
        (
            Socks5Error::NoAuthRefused,
            "SOCKS5 proxy does not support no authentication",
        ),
        (
            Socks5Error::UsernameTooLong,
            "SOCKS5 username exceeds 255 bytes",
        ),
        (
            Socks5Error::PasswordTooLong,
            "SOCKS5 password exceeds 255 bytes",
        ),
        (
            Socks5Error::EmptyCredentials,
            "empty SOCKS5 username or password",
        ),
        (
            Socks5Error::AuthReplyVersion(5),
            "invalid SOCKS5 auth reply version: 0x05",
        ),
        (
            Socks5Error::AuthRejected(0xff),
            "SOCKS5 username/password authentication failed: status 0xff",
        ),
        (Socks5Error::ReplyHeader, "invalid SOCKS5 reply header"),
        (Socks5Error::Rejected(9), "SOCKS5 request rejected: 0x09"),
        (
            Socks5Error::ReplyDomain,
            "SOCKS5 reply address must be an IP address",
        ),
        (
            Socks5Error::ReplyAddressType(0x1a),
            "unsupported SOCKS5 address type: 0x1a",
        ),
        (
            Socks5Error::DomainTooLong,
            "SOCKS5 domain exceeds 255 bytes",
        ),
        (Socks5Error::EmptyDomain, "empty SOCKS5 domain"),
    ];
    for (error, report) in reports {
        assert_eq!(error.message(), report);
    }
}
