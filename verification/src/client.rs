//! The SOCKS5 client: greeting, authentication, request and reply.
//!
//! An [`Exchange`] says what to send and how many bytes to read next; it is given
//! the bytes that came, and ends with the address that the server bound or with
//! an error.

use vstd::prelude::*;
use vstd::string::*;
use crate::ip::{Ip, IpAddress, SocketAddress};
use crate::socks5;
use crate::socks5::{encode_host_port, Socks5Error, ATYP_DOMAIN, ATYP_IPV4, ATYP_IPV6, VERSION};

verus! {

/// No authentication.
pub const NO_AUTH: u8 = 0;

/// Authentication by user name and password.
pub const METHOD_USER_PASS: u8 = 2;

/// The version of the authentication by user name and password, which is not the
/// version of the protocol.
pub const AUTH_VERSION: u8 = 1;

/// The command to connect to a target.
pub const CMD_CONNECT: u8 = 1;

/// The command to open a UDP relay.
pub const CMD_UDP_ASSOCIATE: u8 = 3;

/// What the server is asked for.
#[derive(Clone, Copy, Debug, PartialEq, Eq, Structural)]
pub enum Command {
    Connect,
    UdpAssociate,
}

impl Command {
    /// The command on the wire.
    pub open spec fn byte(self) -> u8 {
        match self {
            Command::Connect => CMD_CONNECT,
            Command::UdpAssociate => CMD_UDP_ASSOCIATE,
        }
    }

    /// The command on the wire.
    pub fn code(&self) -> (r: u8)
        ensures
            r == self.byte(),
    {
        match *self {
            Command::Connect => CMD_CONNECT,
            Command::UdpAssociate => CMD_UDP_ASSOCIATE,
        }
    }
}

/// What an exchange is about.
pub struct Terms {
    pub auth: Option<(Seq<char>, Seq<char>)>,
    pub command: Command,
    pub host: Seq<char>,
    pub port: u16,
}

impl Terms {
    /// The one method that is offered: with credentials, only the one that uses
    /// them.
    pub open spec fn method(self) -> u8 {
        if self.auth is Some {
            METHOD_USER_PASS
        } else {
            NO_AUTH
        }
    }
}

/// The credentials on the wire.
pub open spec fn auth_bytes(user: Seq<char>, pass: Seq<char>) -> Result<Seq<u8>, Socks5Error> {
    let u = vstd::utf8::encode_utf8(user);
    let p = vstd::utf8::encode_utf8(pass);
    if u.len() > 255 {
        Err(Socks5Error::UsernameTooLong)
    } else if p.len() > 255 {
        Err(Socks5Error::PasswordTooLong)
    } else if u.len() == 0 || p.len() == 0 {
        Err(Socks5Error::EmptyCredentials)
    } else {
        Ok(seq![AUTH_VERSION, u.len() as u8] + u + seq![p.len() as u8] + p)
    }
}

/// The request on the wire.
pub open spec fn request_bytes(t: Terms) -> Result<Seq<u8>, Socks5Error> {
    match socks5::host_port_bytes(t.host, t.port) {
        Ok(target) => Ok(seq![VERSION, t.command.byte(), 0u8] + target),
        Err(e) => Err(e),
    }
}

/// The eight groups of sixteen octets.
pub open spec fn groups_from(bytes: Seq<u8>) -> Seq<u16> {
    Seq::new(8, |i: int| (bytes[2 * i] * 256 + bytes[2 * i + 1]) as u16)
}

/// The number of two bytes in network order.
pub open spec fn port_from(bytes: Seq<u8>) -> u16 {
    (bytes[0] * 256 + bytes[1]) as u16
}

/// What comes from the server next.
pub enum Awaited {
    Method,
    AuthReply,
    Header,
    Ipv4,
    Ipv6,
    Port(Ip),
    Nothing,
}

/// How an exchange goes on.
pub enum Go {
    /// So many bytes are to be read.
    Read(nat),
    Done(Ip, u16),
    Fail(Socks5Error),
}

/// One step: what is sent, how it goes on, and what is awaited then.
pub struct Move {
    pub send: Seq<u8>,
    pub go: Go,
    pub awaits: Awaited,
}

/// The exchange ends with an error.
pub open spec fn failed(e: Socks5Error) -> Move {
    Move { send: seq![], go: Go::Fail(e), awaits: Awaited::Nothing }
}

/// The greeting.
pub open spec fn first_move(t: Terms) -> Move {
    Move { send: seq![VERSION, 1u8, t.method()], go: Go::Read(2), awaits: Awaited::Method }
}

/// The request, which a target that does not fit prevents.
pub open spec fn request_move(t: Terms) -> Move {
    match request_bytes(t) {
        Ok(bytes) => Move { send: bytes, go: Go::Read(4), awaits: Awaited::Header },
        Err(e) => failed(e),
    }
}

/// The step after the server chose a method.
pub open spec fn after_method(t: Terms, reply: Seq<u8>) -> Move {
    if reply[0] != VERSION || reply[1] != t.method() {
        failed(
            if t.auth is Some {
                Socks5Error::UserPassRefused
            } else {
                Socks5Error::NoAuthRefused
            },
        )
    } else {
        match t.auth {
            Some((user, pass)) => match auth_bytes(user, pass) {
                Ok(bytes) => Move { send: bytes, go: Go::Read(2), awaits: Awaited::AuthReply },
                Err(e) => failed(e),
            },
            None => request_move(t),
        }
    }
}

/// The step after the server judged the credentials.
pub open spec fn after_auth(t: Terms, reply: Seq<u8>) -> Move {
    if reply[0] != AUTH_VERSION {
        failed(Socks5Error::AuthReplyVersion(reply[0]))
    } else if reply[1] != 0 {
        failed(Socks5Error::AuthRejected(reply[1]))
    } else {
        request_move(t)
    }
}

/// The step after the header of the reply to the request.
pub open spec fn after_header(reply: Seq<u8>) -> Move {
    if reply[0] != VERSION || reply[2] != 0 {
        failed(Socks5Error::ReplyHeader)
    } else if reply[1] != 0 {
        failed(Socks5Error::Rejected(reply[1]))
    } else if reply[3] == ATYP_IPV4 {
        Move { send: seq![], go: Go::Read(4), awaits: Awaited::Ipv4 }
    } else if reply[3] == ATYP_IPV6 {
        Move { send: seq![], go: Go::Read(16), awaits: Awaited::Ipv6 }
    } else if reply[3] == ATYP_DOMAIN {
        failed(Socks5Error::ReplyDomain)
    } else {
        failed(Socks5Error::ReplyAddressType(reply[3]))
    }
}

/// How many bytes are awaited.
pub open spec fn awaited_len(awaits: Awaited) -> nat {
    match awaits {
        Awaited::Method => 2,
        Awaited::AuthReply => 2,
        Awaited::Header => 4,
        Awaited::Ipv4 => 4,
        Awaited::Ipv6 => 16,
        Awaited::Port(_) => 2,
        Awaited::Nothing => 0,
    }
}

/// The step after the awaited bytes came.
pub open spec fn next_move(t: Terms, awaits: Awaited, reply: Seq<u8>) -> Move {
    match awaits {
        Awaited::Method => after_method(t, reply),
        Awaited::AuthReply => after_auth(t, reply),
        Awaited::Header => after_header(reply),
        Awaited::Ipv4 => Move { send: seq![], go: Go::Read(2), awaits: Awaited::Port(Ip::V4(reply)) },
        Awaited::Ipv6 => Move {
            send: seq![],
            go: Go::Read(2),
            awaits: Awaited::Port(Ip::V6(groups_from(reply))),
        },
        Awaited::Port(a) => Move {
            send: seq![],
            go: Go::Done(a, port_from(reply)),
            awaits: Awaited::Nothing,
        },
        Awaited::Nothing => failed(Socks5Error::ReplyHeader),
    }
}

/// What an exchange waits for.
#[derive(Clone, Copy, Debug, PartialEq, Eq)]
pub enum Phase {
    Method,
    AuthReply,
    Header,
    Ipv4,
    Ipv6,
    Port(IpAddress),
    Over,
}

impl View for Phase {
    type V = Awaited;

    open spec fn view(&self) -> Awaited {
        match *self {
            Phase::Method => Awaited::Method,
            Phase::AuthReply => Awaited::AuthReply,
            Phase::Header => Awaited::Header,
            Phase::Ipv4 => Awaited::Ipv4,
            Phase::Ipv6 => Awaited::Ipv6,
            Phase::Port(a) => Awaited::Port(a@),
            Phase::Over => Awaited::Nothing,
        }
    }
}

/// How an exchange goes on.
#[derive(Clone, Copy, Debug, PartialEq, Eq)]
pub enum Next {
    /// Read so many bytes and hand them in.
    Read(usize),
    /// The server bound this address.
    Done(SocketAddress),
    Fail(Socks5Error),
}

impl View for Next {
    type V = Go;

    open spec fn view(&self) -> Go {
        match *self {
            Next::Read(n) => Go::Read(n as nat),
            Next::Done(a) => Go::Done(a.ip@, a.port),
            Next::Fail(e) => Go::Fail(e),
        }
    }
}

/// What to do: send these bytes, if any, then go on.
#[derive(Debug, PartialEq, Eq)]
pub struct Step {
    pub send: Vec<u8>,
    pub next: Next,
}

/// An exchange with a SOCKS5 server under way.
pub struct Exchange {
    pub phase: Phase,
    pub auth: Option<(String, String)>,
    pub command: Command,
    pub host: String,
    pub port: u16,
}

impl Exchange {
    /// What the exchange is about.
    pub open spec fn terms(&self) -> Terms {
        Terms {
            auth: match self.auth {
                Some((user, pass)) => Some((user@, pass@)),
                None => None,
            },
            command: self.command,
            host: self.host@,
            port: self.port,
        }
    }

    /// The step and the phase after it are the given move.
    pub open spec fn made(&self, step: Step, m: Move) -> bool {
        &&& step.send@ == m.send
        &&& step.next@ == m.go
        &&& self.phase@ == m.awaits
    }

    /// Begins an exchange.
    pub fn start(auth: Option<(&str, &str)>, command: Command, host: &str, port: u16) -> (r: (
        Exchange,
        Step,
    ))
        ensures
            r.0.terms() == (Terms {
                auth: match auth {
                    Some((user, pass)) => Some((user@, pass@)),
                    None => None,
                },
                command,
                host: host@,
                port,
            }),
            r.0.made(r.1, first_move(r.0.terms())),
    {
        let method = match auth {
            Some(_) => METHOD_USER_PASS,
            None => NO_AUTH,
        };
        let auth = match auth {
            Some((user, pass)) => Some((user.to_owned(), pass.to_owned())),
            None => None,
        };
        let exchange = Exchange { phase: Phase::Method, auth, command, host: host.to_owned(), port };
        let mut send: Vec<u8> = Vec::new();
        send.push(VERSION);
        send.push(1);
        send.push(method);
        assert(send@ == seq![VERSION, 1u8, exchange.terms().method()]);
        (exchange, Step { send, next: Next::Read(2) })
    }

    /// Goes on with the bytes that came, which are as many as were asked for. An
    /// exchange that has ended does not go on.
    pub fn advance(&mut self, reply: &[u8]) -> (step: Step)
        requires
            !(old(self).phase@ is Nothing),
            reply@.len() == awaited_len(old(self).phase@),
        ensures
            final(self).terms() == old(self).terms(),
            final(self).made(step, next_move(old(self).terms(), old(self).phase@, reply@)),
    {
        match self.phase {
            Phase::Method => self.choose_method(reply),
            Phase::AuthReply => {
                if reply[0] != AUTH_VERSION {
                    return self.fail(Socks5Error::AuthReplyVersion(reply[0]));
                }
                if reply[1] != 0 {
                    return self.fail(Socks5Error::AuthRejected(reply[1]));
                }
                self.request()
            },
            Phase::Header => self.read_header(reply),
            Phase::Ipv4 => {
                let octets = [reply[0], reply[1], reply[2], reply[3]];
                assert(octets@ == reply@);
                self.phase = Phase::Port(IpAddress::V4(octets));
                Step { send: Vec::new(), next: Next::Read(2) }
            },
            Phase::Ipv6 => {
                let groups = [
                    (reply[0] as u16) * 256 + (reply[1] as u16),
                    (reply[2] as u16) * 256 + (reply[3] as u16),
                    (reply[4] as u16) * 256 + (reply[5] as u16),
                    (reply[6] as u16) * 256 + (reply[7] as u16),
                    (reply[8] as u16) * 256 + (reply[9] as u16),
                    (reply[10] as u16) * 256 + (reply[11] as u16),
                    (reply[12] as u16) * 256 + (reply[13] as u16),
                    (reply[14] as u16) * 256 + (reply[15] as u16),
                ];
                assert(groups@ == groups_from(reply@));
                self.phase = Phase::Port(IpAddress::V6(groups));
                Step { send: Vec::new(), next: Next::Read(2) }
            },
            Phase::Port(ip) => {
                self.phase = Phase::Over;
                let port: u16 = (reply[0] as u16) * 256 + (reply[1] as u16);
                Step { send: Vec::new(), next: Next::Done(SocketAddress { ip, port }) }
            },
            Phase::Over => self.fail(Socks5Error::ReplyHeader),
        }
    }

    /// Ends with an error.
    fn fail(&mut self, e: Socks5Error) -> (step: Step)
        ensures
            final(self).terms() == old(self).terms(),
            final(self).made(step, failed(e)),
    {
        self.phase = Phase::Over;
        Step { send: Vec::new(), next: Next::Fail(e) }
    }

    /// Checks the method that the server chose.
    fn choose_method(&mut self, reply: &[u8]) -> (step: Step)
        requires
            reply@.len() == 2,
        ensures
            final(self).terms() == old(self).terms(),
            final(self).made(step, after_method(old(self).terms(), reply@)),
    {
        let bytes = match &self.auth {
            Some((user, pass)) => {
                if reply[0] != VERSION || reply[1] != METHOD_USER_PASS {
                    return self.fail(Socks5Error::UserPassRefused);
                }
                authenticate(user.as_str(), pass.as_str())
            },
            None => {
                if reply[0] != VERSION || reply[1] != NO_AUTH {
                    return self.fail(Socks5Error::NoAuthRefused);
                }
                return self.request();
            },
        };
        match bytes {
            Ok(send) => {
                self.phase = Phase::AuthReply;
                Step { send, next: Next::Read(2) }
            },
            Err(e) => self.fail(e),
        }
    }

    /// Sends the request.
    fn request(&mut self) -> (step: Step)
        ensures
            final(self).terms() == old(self).terms(),
            final(self).made(step, request_move(old(self).terms())),
    {
        let mut send: Vec<u8> = Vec::new();
        send.push(VERSION);
        send.push(self.command.code());
        send.push(0);
        assert(send@ == seq![VERSION, self.command.byte(), 0u8]);
        match encode_host_port(&mut send, self.host.as_str(), self.port) {
            Ok(()) => {
                self.phase = Phase::Header;
                Step { send, next: Next::Read(4) }
            },
            Err(e) => self.fail(e),
        }
    }

    /// Checks the header of the reply.
    fn read_header(&mut self, reply: &[u8]) -> (step: Step)
        requires
            reply@.len() == 4,
        ensures
            final(self).terms() == old(self).terms(),
            final(self).made(step, after_header(reply@)),
    {
        if reply[0] != VERSION || reply[2] != 0 {
            return self.fail(Socks5Error::ReplyHeader);
        }
        if reply[1] != 0 {
            return self.fail(Socks5Error::Rejected(reply[1]));
        }
        let atyp = reply[3];
        if atyp == ATYP_IPV4 {
            self.phase = Phase::Ipv4;
            Step { send: Vec::new(), next: Next::Read(4) }
        } else if atyp == ATYP_IPV6 {
            self.phase = Phase::Ipv6;
            Step { send: Vec::new(), next: Next::Read(16) }
        } else if atyp == ATYP_DOMAIN {
            self.fail(Socks5Error::ReplyDomain)
        } else {
            self.fail(Socks5Error::ReplyAddressType(atyp))
        }
    }
}

/// The message that carries the credentials.
pub fn authenticate(user: &str, pass: &str) -> (r: Result<Vec<u8>, Socks5Error>)
    ensures
        match r {
            Ok(bytes) => auth_bytes(user@, pass@) == Ok::<Seq<u8>, Socks5Error>(bytes@),
            Err(e) => auth_bytes(user@, pass@) == Err::<Seq<u8>, Socks5Error>(e),
        },
{
    let u = user.as_bytes();
    let p = pass.as_bytes();
    let ulen: usize = u.len();
    let plen: usize = p.len();
    if ulen > 255 {
        return Err(Socks5Error::UsernameTooLong);
    }
    if plen > 255 {
        return Err(Socks5Error::PasswordTooLong);
    }
    if ulen == 0 || plen == 0 {
        return Err(Socks5Error::EmptyCredentials);
    }
    let mut buf: Vec<u8> = Vec::new();
    buf.push(AUTH_VERSION);
    buf.push(ulen as u8);
    buf.extend_from_slice(u);
    buf.push(plen as u8);
    buf.extend_from_slice(p);
    assert(buf@ == seq![AUTH_VERSION, u@.len() as u8] + u@ + seq![p@.len() as u8] + p@);
    Ok(buf)
}

/// Begins the exchange that connects to a target.
pub fn connect_exchange(auth: Option<(&str, &str)>, host: &str, port: u16) -> (r: (Exchange, Step))
    ensures
        r.0.terms() == (Terms {
            auth: match auth {
                Some((user, pass)) => Some((user@, pass@)),
                None => None,
            },
            command: Command::Connect,
            host: host@,
            port,
        }),
        r.0.made(r.1, first_move(r.0.terms())),
{
    Exchange::start(auth, Command::Connect, host, port)
}

/// Begins the exchange that opens a UDP relay for any sender.
pub fn udp_associate_exchange(auth: Option<(&str, &str)>) -> (r: (Exchange, Step))
    ensures
        r.0.terms() == (Terms {
            auth: match auth {
                Some((user, pass)) => Some((user@, pass@)),
                None => None,
            },
            command: Command::UdpAssociate,
            host: "0.0.0.0"@,
            port: 0,
        }),
        r.0.made(r.1, first_move(r.0.terms())),
{
    Exchange::start(auth, Command::UdpAssociate, "0.0.0.0", 0)
}

/// The relay to use: where the server named no address, the server itself, at the
/// port that it named.
pub fn effective_relay(relay: SocketAddress, proxy: SocketAddress) -> (r: SocketAddress)
    ensures
        r.port == relay.port,
        r.ip == (if relay.ip@.unspecified() {
            proxy.ip
        } else {
            relay.ip
        }),
{
    if relay.ip.is_unspecified() {
        SocketAddress { ip: proxy.ip, port: relay.port }
    } else {
        relay
    }
}

} // verus!
