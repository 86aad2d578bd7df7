//! What an exchange with a SOCKS5 server amounts to, byte for byte.

use vstd::prelude::*;
use crate::client;
use crate::client::{Awaited, Command, Exchange, Go, Move, Next, Phase, Step, Terms};
use crate::client_proofs;
use crate::client_proofs::Outcome;
use crate::ip::{Ip, IpAddress, SocketAddress};
use crate::socks5;
use crate::socks5::Socks5Error;
use crate::socks5_laws;

verus! {

/// The message with the credentials gives them back: each with its length before it.
pub proof fn law_credentials_are_sent_as_they_are(user: Seq<char>, pass: Seq<char>)
    ensures
        ({
            let u = vstd::utf8::encode_utf8(user);
            let p = vstd::utf8::encode_utf8(pass);
            let n = u.len() as int;
            let r = client::auth_bytes(user, pass);
            &&& 1 <= u.len() <= 255 && 1 <= p.len() <= 255 ==> (r matches Ok(m) && m.len() == 3 + u.len()
                + p.len() && m[0] == 1 && m[1] == u.len() && m.subrange(2, 2 + n) == u && m[2 + n] == p.len()
                && m.skip(3 + n) == p)
            &&& u.len() > 255 ==> r == Err::<Seq<u8>, Socks5Error>(Socks5Error::UsernameTooLong)
            &&& u.len() <= 255 && p.len() > 255 ==> r == Err::<Seq<u8>, Socks5Error>(
                Socks5Error::PasswordTooLong,
            )
            &&& u.len() <= 255 && p.len() <= 255 && (u.len() == 0 || p.len() == 0) ==> r == Err::<
                Seq<u8>,
                Socks5Error,
            >(Socks5Error::EmptyCredentials)
        }),
{
    let u = vstd::utf8::encode_utf8(user);
    let p = vstd::utf8::encode_utf8(pass);
    let n = u.len() as int;
    if 1 <= u.len() <= 255 && 1 <= p.len() <= 255 {
        let m = client::auth_bytes(user, pass)->Ok_0;
        assert(m.subrange(2, 2 + n) == u);
        assert(m.skip(3 + n) == p);
    }
}

/// Credentials that make the same message are the same, byte for byte.
pub proof fn law_credentials_are_told_apart(
    user: Seq<char>,
    pass: Seq<char>,
    other_user: Seq<char>,
    other_pass: Seq<char>,
)
    requires
        client::auth_bytes(user, pass) is Ok,
        client::auth_bytes(user, pass) == client::auth_bytes(other_user, other_pass),
    ensures
        vstd::utf8::encode_utf8(user) == vstd::utf8::encode_utf8(other_user),
        vstd::utf8::encode_utf8(pass) == vstd::utf8::encode_utf8(other_pass),
{
    law_credentials_are_sent_as_they_are(user, pass);
    law_credentials_are_sent_as_they_are(other_user, other_pass);
}

/// The port is read as it is written, for every port and every two bytes.
pub proof fn law_port_from(bytes: Seq<u8>, port: u16)
    ensures
        bytes.len() == 2 ==> client::port_from(bytes) == bytes[0] * 256 + bytes[1],
        client::port_from(socks5::port_bytes(port)) == port,
{
    socks5_laws::law_port_bytes(port);
}

/// The groups are read from their octets, the high byte of each first.
pub proof fn law_groups_from(bytes: Seq<u8>, i: int)
    requires
        0 <= i < 8,
    ensures
        client::groups_from(bytes).len() == 8,
        client::groups_from(bytes)[i] == bytes[2 * i] * 256 + bytes[2 * i + 1],
{
}

/// The request names the command and the target, and nothing else.
pub proof fn law_request_bytes(t: Terms)
    ensures
        match socks5::host_port_bytes(t.host, t.port) {
            Ok(target) => client::request_bytes(t) matches Ok(r) && r.len() == 3 + target.len() && r[0] == 5
                && r[1] == (if t.command is Connect {
                1u8
            } else {
                3u8
            }) && r[2] == 0 && r.skip(3) == target,
            Err(e) => client::request_bytes(t) == Err::<Seq<u8>, Socks5Error>(e),
        },
{
    if let Ok(target) = socks5::host_port_bytes(t.host, t.port) {
        assert(client::request_bytes(t)->Ok_0.skip(3) == target);
    }
}

/// The first bytes to the server: the version and the one method that is offered.
pub open spec fn greeting(t: Terms) -> Seq<u8> {
    seq![5u8, 1u8, if t.auth is Some { 2u8 } else { 0u8 }]
}

/// The bytes of a server that lets the client in: it chooses the method, and it accepts
/// the credentials where there are any.
pub open spec fn welcome(t: Terms) -> Seq<u8> {
    if t.auth is Some {
        seq![5u8, 2u8, 1u8, 0u8]
    } else {
        seq![5u8, 0u8]
    }
}

/// The bytes of a client that was let in: the greeting, the credentials where there are
/// any, and the request.
pub open spec fn dialogue(t: Terms, auth: Seq<u8>, target: Seq<u8>) -> Seq<u8> {
    greeting(t) + auth + seq![
        5u8,
        if t.command is Connect {
            1u8
        } else {
            3u8
        },
        0u8,
    ] + target
}

/// The message with the credentials, if there are any, is `auth`.
pub open spec fn credentials_are(t: Terms, auth: Seq<u8>) -> bool {
    match t.auth {
        None => auth.len() == 0,
        Some((user, pass)) => client::auth_bytes(user, pass) == Ok::<Seq<u8>, Socks5Error>(auth),
    }
}

/// Once the client was let in, what it says is the dialogue, and how it ends is up to
/// the reply.
proof fn lemma_let_in(t: Terms, auth: Seq<u8>, target: Seq<u8>, reply: Seq<u8>)
    requires
        credentials_are(t, auth),
        socks5::host_port_bytes(t.host, t.port) == Ok::<Seq<u8>, Socks5Error>(target),
    ensures
        ({
            let input = welcome(t) + reply;
            let at = welcome(t).len() as int;
            client_proofs::run(t, input) == Outcome {
                sent: dialogue(t, auth, target),
                read: client_proofs::reply_at(input, at).0,
                result: client_proofs::reply_at(input, at).1,
            }
        }),
{
    let input = welcome(t) + reply;
    client_proofs::law_steps_make_the_conversation(t, input);
    law_request_bytes(t);
    assert(input[0] == 5 && input[1] == t.method());
    let request = client::request_bytes(t)->Ok_0;
    let head = seq![
        5u8,
        if t.command is Connect {
            1u8
        } else {
            3u8
        },
        0u8,
    ];
    assert(request == head + target) by {
        assert(request == request.take(3) + request.skip(3));
        assert(request.take(3) == head);
    }
    if t.auth is Some {
        assert(input[2] == 1 && input[3] == 0);
        assert(dialogue(t, auth, target) == (greeting(t) + auth) + request);
    } else {
        assert(auth == Seq::<u8>::empty());
        assert(dialogue(t, auth, target) == greeting(t) + request);
    }
}

/// A server that lets the client in and binds an IPv4 address ends the exchange with
/// that very address and port, whatever else it sends.
pub proof fn law_an_ipv4_reply_is_the_bound_address(
    t: Terms,
    auth: Seq<u8>,
    target: Seq<u8>,
    octets: Seq<u8>,
    port: u16,
    more: Seq<u8>,
)
    requires
        credentials_are(t, auth),
        socks5::host_port_bytes(t.host, t.port) == Ok::<Seq<u8>, Socks5Error>(target),
        octets.len() == 4,
    ensures
        client_proofs::run(
            t,
            welcome(t) + (seq![5u8, 0u8, 0u8, 1u8] + octets + seq![(port / 256) as u8, (port % 256) as u8]
                + more),
        ) == (Outcome {
            sent: dialogue(t, auth, target),
            read: welcome(t).len() as int + 10,
            result: Some(Ok((Ip::V4(octets), port))),
        }),
{
    let tail = seq![(port / 256) as u8, (port % 256) as u8];
    let reply = seq![5u8, 0u8, 0u8, 1u8] + octets + tail + more;
    let input = welcome(t) + reply;
    let at = welcome(t).len() as int;
    lemma_let_in(t, auth, target, reply);
    assert(input[at] == reply[0] && input[at + 1] == reply[1] && input[at + 2] == reply[2] && input[at + 3]
        == reply[3]);
    assert(input.subrange(at + 4, at + 8) == octets);
    assert(input.subrange(at + 8, at + 10) == tail);
    law_port_from(tail, port);
}

/// A server that lets the client in and binds an IPv6 address ends the exchange with
/// that very address and port, whatever else it sends.
pub proof fn law_an_ipv6_reply_is_the_bound_address(
    t: Terms,
    auth: Seq<u8>,
    target: Seq<u8>,
    octets: Seq<u8>,
    groups: Seq<u16>,
    port: u16,
    more: Seq<u8>,
)
    requires
        credentials_are(t, auth),
        socks5::host_port_bytes(t.host, t.port) == Ok::<Seq<u8>, Socks5Error>(target),
        octets.len() == 16,
        groups.len() == 8,
        forall|i: int| 0 <= i < 8 ==> #[trigger] groups[i] == octets[2 * i] * 256 + octets[2 * i + 1],
    ensures
        client_proofs::run(
            t,
            welcome(t) + (seq![5u8, 0u8, 0u8, 4u8] + octets + seq![(port / 256) as u8, (port % 256) as u8]
                + more),
        ) == (Outcome {
            sent: dialogue(t, auth, target),
            read: welcome(t).len() as int + 22,
            result: Some(Ok((Ip::V6(groups), port))),
        }),
{
    let tail = seq![(port / 256) as u8, (port % 256) as u8];
    let reply = seq![5u8, 0u8, 0u8, 4u8] + octets + tail + more;
    let input = welcome(t) + reply;
    let at = welcome(t).len() as int;
    lemma_let_in(t, auth, target, reply);
    assert(input[at] == reply[0] && input[at + 1] == reply[1] && input[at + 2] == reply[2] && input[at + 3]
        == reply[3]);
    assert(input.subrange(at + 4, at + 20) == octets);
    assert(input.subrange(at + 20, at + 22) == tail);
    law_port_from(tail, port);
    assert forall|i: int| 0 <= i < 8 implies client::groups_from(octets)[i] == groups[i] by {
        law_groups_from(octets, i);
    }
    assert(client::groups_from(octets) == groups);
}

/// A server that lets the client in but does not grant the request ends the exchange
/// with the reason in its reply.
pub proof fn law_a_reply_that_grants_nothing_fails(
    t: Terms,
    auth: Seq<u8>,
    target: Seq<u8>,
    header: Seq<u8>,
    more: Seq<u8>,
)
    requires
        credentials_are(t, auth),
        socks5::host_port_bytes(t.host, t.port) == Ok::<Seq<u8>, Socks5Error>(target),
        header.len() == 4,
        !(header[0] == 5 && header[1] == 0 && header[2] == 0 && (header[3] == 1 || header[3] == 4)),
    ensures
        client_proofs::run(t, welcome(t) + (header + more)) == (Outcome {
            sent: dialogue(t, auth, target),
            read: welcome(t).len() as int + 4,
            result: Some(
                Err(
                    if header[0] != 5 || header[2] != 0 {
                        Socks5Error::ReplyHeader
                    } else if header[1] != 0 {
                        Socks5Error::Rejected(header[1])
                    } else if header[3] == 3 {
                        Socks5Error::ReplyDomain
                    } else {
                        Socks5Error::ReplyAddressType(header[3])
                    },
                ),
            ),
        }),
{
    let reply = header + more;
    let input = welcome(t) + reply;
    let at = welcome(t).len() as int;
    lemma_let_in(t, auth, target, reply);
    assert(input[at] == header[0] && input[at + 1] == header[1] && input[at + 2] == header[2] && input[at
        + 3] == header[3]);
}

/// A server that chooses another method is sent nothing but the greeting.
pub proof fn law_another_method_is_refused(t: Terms, version: u8, method: u8, more: Seq<u8>)
    requires
        version != 5 || method != (if t.auth is Some {
            2u8
        } else {
            0u8
        }),
    ensures
        client_proofs::run(t, seq![version, method] + more) == (Outcome {
            sent: greeting(t),
            read: 2,
            result: Some(
                Err(
                    if t.auth is Some {
                        Socks5Error::UserPassRefused
                    } else {
                        Socks5Error::NoAuthRefused
                    },
                ),
            ),
        }),
{
    let input = seq![version, method] + more;
    client_proofs::law_steps_make_the_conversation(t, input);
    assert(input[0] == version && input[1] == method);
}

/// A server that does not accept the credentials is not sent the request.
pub proof fn law_rejected_credentials_end_the_exchange(
    t: Terms,
    auth: Seq<u8>,
    version: u8,
    status: u8,
    more: Seq<u8>,
)
    requires
        t.auth is Some,
        credentials_are(t, auth),
        version != 1 || status != 0,
    ensures
        client_proofs::run(t, seq![5u8, 2u8, version, status] + more) == (Outcome {
            sent: greeting(t) + auth,
            read: 4,
            result: Some(
                Err(
                    if version != 1 {
                        Socks5Error::AuthReplyVersion(version)
                    } else {
                        Socks5Error::AuthRejected(status)
                    },
                ),
            ),
        }),
{
    let input = seq![5u8, 2u8, version, status] + more;
    client_proofs::law_steps_make_the_conversation(t, input);
    assert(input[0] == 5 && input[1] == 2 && input[2] == version && input[3] == status);
}

/// What cannot be sent ends the exchange where it would have been sent: credentials
/// right after the greeting, and a target right after the client was let in.
pub proof fn law_what_does_not_fit_is_not_sent(t: Terms, auth: Seq<u8>, e: Socks5Error, more: Seq<u8>)
    ensures
        t.auth matches Some((user, pass)) && client::auth_bytes(user, pass) == Err::<Seq<u8>, Socks5Error>(e)
            ==> client_proofs::run(t, seq![5u8, 2u8] + more) == (Outcome {
            sent: greeting(t),
            read: 2,
            result: Some(Err(e)),
        }),
        credentials_are(t, auth) && socks5::host_port_bytes(t.host, t.port) == Err::<Seq<u8>, Socks5Error>(e)
            ==> client_proofs::run(t, welcome(t) + more) == (Outcome {
            sent: greeting(t) + auth,
            read: welcome(t).len() as int,
            result: Some(Err(e)),
        }),
{
    let short = seq![5u8, 2u8] + more;
    client_proofs::law_steps_make_the_conversation(t, short);
    assert(short[0] == 5 && short[1] == 2);
    let input = welcome(t) + more;
    client_proofs::law_steps_make_the_conversation(t, input);
    law_request_bytes(t);
    assert(input[0] == 5 && input[1] == t.method());
    if t.auth is Some {
        assert(input[2] == 1 && input[3] == 0);
    } else {
        assert(credentials_are(t, auth) ==> greeting(t) + auth == greeting(t));
    }
}

/// As many bytes are awaited as are asked for, and none once the exchange is over.
pub proof fn law_as_much_is_awaited_as_asked_for(t: Terms, awaits: Awaited, reply: Seq<u8>)
    ensures
        ({
            let first = client::first_move(t);
            let then = client::next_move(t, awaits, reply);
            &&& first.go == Go::Read(client::awaited_len(first.awaits))
            &&& then.go matches Go::Read(n) ==> n == client::awaited_len(then.awaits) && n > 0
            &&& !(then.go is Read) <==> then.awaits is Nothing
        }),
{
}

/// The exchange is looked at as what it holds, and a step is made exactly as the move
/// says.
pub proof fn law_steps_are_what_they_hold(e: Exchange, step: Step, m: Move, n: usize, a: SocketAddress)
    ensures
        e.made(step, m) <==> step.send@ == m.send && step.next@ == m.go && e.phase@ == m.awaits,
        e.terms().command == e.command && e.terms().host == e.host@ && e.terms().port == e.port,
        e.terms().auth is Some <==> e.auth is Some,
        e.auth matches Some((user, pass)) ==> e.terms().auth == Some((user@, pass@)),
        Next::Read(n)@ == Go::Read(n as nat),
        Next::Done(a)@ == Go::Done(a.ip@, a.port),
{
}

/// The errors and the phases are looked at as what they are.
pub proof fn law_phases_are_what_they_are(e: Socks5Error, a: IpAddress)
    ensures
        Next::Fail(e)@ == Go::Fail(e),
        Phase::Method@ is Method,
        Phase::AuthReply@ is AuthReply,
        Phase::Header@ is Header,
        Phase::Ipv4@ is Ipv4,
        Phase::Ipv6@ is Ipv6,
        Phase::Port(a)@ == Awaited::Port(a@),
        Phase::Over@ is Nothing,
{
}

/// The commands on the wire.
pub proof fn law_commands()
    ensures
        Command::Connect.byte() == 1,
        Command::UdpAssociate.byte() == 3,
{
}

} // verus!
