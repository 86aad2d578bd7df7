//! What an exchange with a SOCKS5 server guarantees as a whole.

use vstd::prelude::*;
use crate::client;
use crate::client::{Awaited, Go, Move, Terms, AUTH_VERSION, METHOD_USER_PASS};
use crate::config::Proxy;
use crate::ip::Ip;
use crate::socks5::{Socks5Error, ATYP_DOMAIN, ATYP_IPV4, ATYP_IPV6, VERSION};

verus! {

/// How an exchange stands once the server has sent certain bytes: all that was
/// sent to the server, how many of its bytes were read, and the result, if the
/// exchange is over.
pub struct Outcome {
    pub sent: Seq<u8>,
    pub read: int,
    pub result: Option<Result<(Ip, u16), Socks5Error>>,
}

/// Runs an exchange on the bytes of the server: each step sends what it sends,
/// reads as much as it asks for, and the step after that follows. It stops at the
/// end, or where the bytes do not suffice.
pub open spec fn drive(t: Terms, m: Move, sent: Seq<u8>, input: Seq<u8>, read: int) -> Outcome
    decreases input.len() - read,
{
    let sent = sent + m.send;
    match m.go {
        Go::Done(ip, port) => Outcome { sent, read, result: Some(Ok((ip, port))) },
        Go::Fail(e) => Outcome { sent, read, result: Some(Err(e)) },
        Go::Read(n) => if n == 0 || input.len() < read + n {
            Outcome { sent, read, result: None }
        } else {
            drive(
                t,
                client::next_move(t, m.awaits, input.subrange(read, read + n)),
                sent,
                input,
                read + n,
            )
        },
    }
}

/// A whole exchange on the bytes of the server.
pub open spec fn run(t: Terms, input: Seq<u8>) -> Outcome {
    drive(t, client::first_move(t), seq![], input, 0)
}

/// The server's bytes from `at` on, and what comes of them: the reply to the
/// request.
pub open spec fn reply_at(input: Seq<u8>, at: int) -> (int, Option<Result<(Ip, u16), Socks5Error>>) {
    if input.len() < at + 4 {
        (at, None)
    } else if input[at] != VERSION || input[at + 2] != 0 {
        (at + 4, Some(Err(Socks5Error::ReplyHeader)))
    } else if input[at + 1] != 0 {
        (at + 4, Some(Err(Socks5Error::Rejected(input[at + 1]))))
    } else if input[at + 3] == ATYP_DOMAIN {
        (at + 4, Some(Err(Socks5Error::ReplyDomain)))
    } else if input[at + 3] != ATYP_IPV4 && input[at + 3] != ATYP_IPV6 {
        (at + 4, Some(Err(Socks5Error::ReplyAddressType(input[at + 3]))))
    } else {
        let len: int = if input[at + 3] == ATYP_IPV4 {
            4
        } else {
            16
        };
        let octets = input.subrange(at + 4, at + 4 + len);
        if input.len() < at + 4 + len {
            (at + 4, None)
        } else if input.len() < at + 4 + len + 2 {
            (at + 4 + len, None)
        } else {
            (
                at + 4 + len + 2,
                Some(
                    Ok(
                        (
                            if len == 4 {
                                Ip::V4(octets)
                            } else {
                                Ip::V6(client::groups_from(octets))
                            },
                            client::port_from(input.subrange(at + 4 + len, at + 4 + len + 2)),
                        ),
                    ),
                ),
            )
        }
    }
}

/// The request after `sent`, and its reply.
pub open spec fn request_at(t: Terms, sent: Seq<u8>, input: Seq<u8>, at: int) -> Outcome {
    match client::request_bytes(t) {
        Err(e) => Outcome { sent, read: at, result: Some(Err(e)) },
        Ok(request) => {
            let (read, result) = reply_at(input, at);
            Outcome { sent: sent + request, read, result }
        },
    }
}

/// The whole conversation in one view: the greeting, the server's choice, the
/// credentials and their judgement where there are any, the request, its reply.
pub open spec fn conversation(t: Terms, input: Seq<u8>) -> Outcome {
    let greeting = seq![VERSION, 1u8, t.method()];
    if input.len() < 2 {
        Outcome { sent: greeting, read: 0, result: None }
    } else if input[0] != VERSION || input[1] != t.method() {
        let e = if t.auth is Some {
            Socks5Error::UserPassRefused
        } else {
            Socks5Error::NoAuthRefused
        };
        Outcome { sent: greeting, read: 2, result: Some(Err(e)) }
    } else {
        match t.auth {
            None => request_at(t, greeting, input, 2),
            Some((user, pass)) => match client::auth_bytes(user, pass) {
                Err(e) => Outcome { sent: greeting, read: 2, result: Some(Err(e)) },
                Ok(auth) => {
                    let sent = greeting + auth;
                    if input.len() < 4 {
                        Outcome { sent, read: 2, result: None }
                    } else if input[2] != AUTH_VERSION {
                        Outcome {
                            sent,
                            read: 4,
                            result: Some(Err(Socks5Error::AuthReplyVersion(input[2]))),
                        }
                    } else if input[3] != 0 {
                        Outcome { sent, read: 4, result: Some(Err(Socks5Error::AuthRejected(input[3]))) }
                    } else {
                        request_at(t, sent, input, 4)
                    }
                },
            },
        }
    }
}

/// Running the steps of an exchange one after the other is the conversation.
pub proof fn law_steps_make_the_conversation(t: Terms, input: Seq<u8>)
    ensures
        run(t, input) == conversation(t, input),
{
    let m = client::first_move(t);
    let greeting = seq![VERSION, 1u8, t.method()];
    assert(Seq::<u8>::empty() + m.send == greeting);
    if input.len() >= 2 {
        let reply = input.subrange(0, 2);
        let m2 = client::next_move(t, Awaited::Method, reply);
        assert(run(t, input) == drive(t, m2, greeting, input, 2));
        if input[0] != VERSION || input[1] != t.method() {
            assert(greeting + m2.send == greeting);
        } else {
            match t.auth {
                None => {
                    lemma_request(t, greeting, input, 2);
                },
                Some((user, pass)) => match client::auth_bytes(user, pass) {
                    Err(e) => {
                        assert(greeting + m2.send == greeting);
                    },
                    Ok(auth) => {
                        if input.len() >= 4 {
                            let sent = greeting + auth;
                            let m3 = client::next_move(t, Awaited::AuthReply, input.subrange(2, 4));
                            assert(drive(t, m2, greeting, input, 2) == drive(t, m3, sent, input, 4));
                            if input[2] != AUTH_VERSION || input[3] != 0 {
                                assert(sent + m3.send == sent);
                            } else {
                                lemma_request(t, sent, input, 4);
                            }
                        }
                    },
                },
            }
        }
    }
}

/// The request and its reply, step by step.
proof fn lemma_request(t: Terms, sent: Seq<u8>, input: Seq<u8>, at: int)
    requires
        0 <= at <= input.len(),
    ensures
        drive(t, client::request_move(t), sent, input, at) == request_at(t, sent, input, at),
{
    let m = client::request_move(t);
    match client::request_bytes(t) {
        Err(e) => {
            assert(sent + m.send == sent);
        },
        Ok(request) => {
            if input.len() >= at + 4 {
                let header = input.subrange(at, at + 4);
                let m2 = client::next_move(t, Awaited::Header, header);
                let s2 = sent + request;
                assert(drive(t, m, sent, input, at) == drive(t, m2, s2, input, at + 4));
                assert(s2 + m2.send == s2);
                match m2.go {
                    Go::Read(n) => {
                        lemma_address(t, m2, s2, input, at + 4);
                    },
                    _ => {},
                }
            }
        },
    }
}

/// The address and the port of a reply, step by step.
proof fn lemma_address(t: Terms, m: Move, sent: Seq<u8>, input: Seq<u8>, at: int)
    requires
        0 <= at <= input.len(),
        m.send == Seq::<u8>::empty(),
        (m.awaits is Ipv4 && m.go == Go::Read(4)) || (m.awaits is Ipv6 && m.go == Go::Read(16)),
    ensures
        ({
            let len: int = if m.awaits is Ipv4 {
                4
            } else {
                16
            };
            let octets = input.subrange(at, at + len);
            drive(t, m, sent, input, at) == if input.len() < at + len {
                Outcome { sent, read: at, result: None }
            } else if input.len() < at + len + 2 {
                Outcome { sent, read: at + len, result: None }
            } else {
                Outcome {
                    sent,
                    read: at + len + 2,
                    result: Some(
                        Ok(
                            (
                                if len == 4 {
                                    Ip::V4(octets)
                                } else {
                                    Ip::V6(client::groups_from(octets))
                                },
                                client::port_from(input.subrange(at + len, at + len + 2)),
                            ),
                        ),
                    ),
                }
            }
        }),
{
    let len: int = if m.awaits is Ipv4 {
        4
    } else {
        16
    };
    assert(sent + Seq::<u8>::empty() == sent);
    if input.len() >= at + len {
        let m2 = client::next_move(t, m.awaits, input.subrange(at, at + len));
        assert(drive(t, m, sent, input, at) == drive(t, m2, sent, input, at + len));
        if input.len() >= at + len + 2 {
            let m3 = client::next_move(t, m2.awaits, input.subrange(at + len, at + len + 2));
            assert(drive(t, m2, sent, input, at + len) == drive(t, m3, sent, input, at + len + 2));
        }
    }
}

/// An exchange that is over has read its last byte: nothing that the server sends
/// later is awaited, nor does it change anything.
pub proof fn law_one_reply_suffices(t: Terms, input: Seq<u8>, more: Seq<u8>)
    requires
        conversation(t, input).result is Some,
    ensures
        conversation(t, input + more) == conversation(t, input),
        conversation(t, input).read <= input.len(),
{
    if input.len() >= 2 {
        let at: int = if t.auth is Some {
            4
        } else {
            2
        };
        if at <= input.len() && reply_at(input, at).1 is Some {
            lemma_reply_prefix(input, more, at);
        }
    }
}

/// A reply that is complete is the same with more bytes after it.
proof fn lemma_reply_prefix(input: Seq<u8>, more: Seq<u8>, at: int)
    requires
        0 <= at <= input.len(),
        reply_at(input, at).1 is Some,
    ensures
        reply_at(input + more, at) == reply_at(input, at),
        reply_at(input, at).0 <= input.len(),
{
    let all = input + more;
    assert(all.subrange(at + 4, at + 8) == input.subrange(at + 4, at + 8) || input.len() < at + 10);
    assert(all.subrange(at + 8, at + 10) == input.subrange(at + 8, at + 10) || input.len() < at + 10);
    assert(all.subrange(at + 4, at + 20) == input.subrange(at + 4, at + 20) || input.len() < at + 22);
    assert(all.subrange(at + 20, at + 22) == input.subrange(at + 20, at + 22) || input.len() < at + 22);
}

/// With credentials there is no falling back to none: user name and password are
/// the only method offered, and only a server that chose it and accepted the
/// credentials is sent the request or yields an address.
pub proof fn law_no_downgrade(t: Terms, input: Seq<u8>)
    requires
        t.auth is Some,
    ensures
        ({
            let o = conversation(t, input);
            let greeting = seq![VERSION, 1u8, METHOD_USER_PASS];
            let (user, pass) = t.auth->0;
            let accepted = input.len() >= 4 && input[0] == VERSION && input[1] == METHOD_USER_PASS
                && input[2] == AUTH_VERSION && input[3] == 0;
            &&& o.result matches Some(Ok(_)) ==> accepted
            &&& !accepted ==> o.sent == greeting || (client::auth_bytes(user, pass) matches Ok(auth)
                && o.sent == greeting + auth)
            &&& !(input.len() >= 2 && input[0] == VERSION && input[1] == METHOD_USER_PASS)
                ==> o.sent == greeting
        }),
{
}

/// The credentials of an accepted proxy address always fit the message that
/// carries them.
pub proof fn law_configured_credentials_are_sendable(p: Proxy, user: Seq<char>, pass: Seq<char>)
    requires
        p.wf(),
        p.auth == Some((user, pass)),
    ensures
        client::auth_bytes(user, pass) is Ok,
{
}

/// An address of version 6 goes over the wire and comes back.
pub proof fn law_octets_round_trip(groups: Seq<u16>)
    requires
        groups.len() == 8,
    ensures
        client::groups_from(Ip::V6(groups).octets()) == groups,
{
    let octets = Ip::V6(groups).octets();
    assert forall|i: int| 0 <= i < 8 implies client::groups_from(octets)[i] == groups[i] by {
        assert(octets[2 * i] == groups[i] / 256);
        assert(octets[2 * i + 1] == groups[i] % 256);
    }
}

} // verus!
