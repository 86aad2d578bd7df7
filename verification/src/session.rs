//! A WebTransport session: what it carries, and how its TCP streams reach their
//! target.

use vstd::prelude::*;
use vstd::string::*;
use crate::client;
use crate::client::{connect_exchange, Command, Exchange, Step, Terms};
use crate::config::Config;
use crate::endpoint;
use crate::endpoint::{endpoint_host_port, EndpointError, EndpointFault};
use crate::text;

verus! {

/// What a session carries.
#[derive(Clone, Copy, Debug, PartialEq, Eq, Structural)]
pub enum SessionKind {
    Tcp,
    Udp,
}

/// A session for a protocol that is not known.
#[derive(Debug, PartialEq, Eq)]
pub struct SessionError {
    pub protocol: String,
}

/// What a session carries, by the name of its protocol.
pub open spec fn kind_of(protocol: Seq<char>) -> Option<SessionKind> {
    if protocol == "tcp"@ {
        Some(SessionKind::Tcp)
    } else if protocol == "udp"@ {
        Some(SessionKind::Udp)
    } else {
        None
    }
}

impl SessionError {
    /// The report of the error.
    pub fn message(&self) -> (r: String)
        ensures
            r@ == "unknown proxy-protocol: "@ + self.protocol@,
    {
        "unknown proxy-protocol: ".to_owned().concat(self.protocol.as_str())
    }
}

/// What a session carries.
pub fn session_kind(protocol: &str) -> (r: Result<SessionKind, SessionError>)
    ensures
        match r {
            Ok(kind) => kind_of(protocol@) == Some(kind),
            Err(e) => kind_of(protocol@) is None && e.protocol@ == protocol@,
        },
{
    proof {
        reveal_strlit("tcp");
        reveal_strlit("udp");
        assert("tcp"@[0] != "udp"@[0]);
    }
    if text::same(protocol, "tcp") {
        Ok(SessionKind::Tcp)
    } else if text::same(protocol, "udp") {
        Ok(SessionKind::Udp)
    } else {
        Err(SessionError { protocol: protocol.to_owned() })
    }
}

/// What a TCP session was asked to accept.
#[derive(Clone, Copy, Debug, PartialEq, Eq, Structural)]
pub enum Accepted {
    /// A stream with two directions.
    Stream,
    /// Something else.
    Other,
    /// The session was closed.
    Closed,
    /// Accepting failed.
    Failed,
}

/// What a TCP session does with it.
#[derive(Clone, Copy, Debug, PartialEq, Eq, Structural)]
pub enum Serve {
    /// Connects the stream to the target and accepts the next.
    Connect,
    /// Accepts the next.
    Skip,
    /// Ends.
    Stop,
}

/// A TCP session serves streams, passes over anything else, and ends when it was
/// closed or accepting failed.
pub fn on_accepted(accepted: Accepted) -> (r: Serve)
    ensures
        r == (match accepted {
            Accepted::Stream => Serve::Connect,
            Accepted::Other => Serve::Skip,
            Accepted::Closed => Serve::Stop,
            Accepted::Failed => Serve::Stop,
        }),
{
    match accepted {
        Accepted::Stream => Serve::Connect,
        Accepted::Other => Serve::Skip,
        Accepted::Closed => Serve::Stop,
        Accepted::Failed => Serve::Stop,
    }
}

/// How a TCP stream reaches its target.
pub enum TcpRoute {
    /// Through the SOCKS5 proxy at this address, by this exchange.
    Proxied { address: String, exchange: Exchange, first: Step },
    /// By looking the endpoint up here.
    Direct,
}

/// How a TCP stream reaches its target. With a proxy, the proxy is asked for the
/// host as it stands in the endpoint, and with the configured credentials.
pub fn tcp_route(config: &Config, endpoint: &str) -> (r: Result<TcpRoute, EndpointError>)
    ensures
        match r {
            Ok(TcpRoute::Proxied { address, exchange, first }) => {
                &&& config.socks_proxy matches Some(proxy)
                &&& endpoint::split_endpoint(endpoint@) matches Ok((host, port))
                &&& address@ == proxy@.addr
                &&& exchange.terms() == (Terms {
                    auth: proxy@.auth,
                    command: Command::Connect,
                    host,
                    port: port as u16,
                })
                &&& exchange.made(first, client::first_move(exchange.terms()))
            },
            Ok(TcpRoute::Direct) => config.socks_proxy is None,
            Err(e) => config.socks_proxy is Some && e.input@ == endpoint@ && endpoint::split_endpoint(
                endpoint@,
            ) == Err::<(Seq<char>, nat), EndpointFault>(e.fault),
        },
{
    match &config.socks_proxy {
        Some(proxy) => match endpoint_host_port(endpoint) {
            Ok((host, port)) => {
                let (exchange, first) = connect_exchange(proxy.auth(), host.as_str(), port);
                Ok(TcpRoute::Proxied { address: proxy.address().to_owned(), exchange, first })
            },
            Err(e) => Err(e),
        },
        None => Ok(TcpRoute::Direct),
    }
}

/// Why a target could not be reached directly.
#[derive(Clone, Copy, Debug, PartialEq, Eq, Structural)]
pub enum DialFault {
    /// It could not be looked up.
    Lookup,
    /// It has no address.
    NoAddress,
    /// No address of it took the connection.
    Connect,
}

/// What a target that was not reached is reported as.
pub open spec fn dial_message(fault: DialFault, endpoint: Seq<char>) -> Seq<char> {
    match fault {
        DialFault::Lookup => "Failed to resolve endpoint: "@ + endpoint,
        DialFault::NoAddress => "No address resolved for endpoint: "@ + endpoint,
        DialFault::Connect => "Failed to connect to upstream addr: "@ + endpoint,
    }
}

impl DialFault {
    /// The report of the error.
    pub fn message(&self, endpoint: &str) -> (r: String)
        ensures
            r@ == dial_message(*self, endpoint@),
    {
        match *self {
            DialFault::Lookup => "Failed to resolve endpoint: ".to_owned().concat(endpoint),
            DialFault::NoAddress => "No address resolved for endpoint: ".to_owned().concat(endpoint),
            DialFault::Connect => "Failed to connect to upstream addr: ".to_owned().concat(endpoint),
        }
    }
}

/// A target with no address cannot be reached.
pub fn check_found(addresses: usize) -> (r: Result<(), DialFault>)
    ensures
        r == (if addresses == 0 {
            Err::<(), DialFault>(DialFault::NoAddress)
        } else {
            Ok(())
        }),
{
    if addresses == 0 {
        Err(DialFault::NoAddress)
    } else {
        Ok(())
    }
}

/// A session carries TCP or UDP if its protocol is named so, and else nothing.
pub proof fn law_kind(protocol: Seq<char>)
    ensures
        kind_of(protocol) == Some(SessionKind::Tcp) <==> protocol == "tcp"@,
        kind_of(protocol) == Some(SessionKind::Udp) <==> protocol == "udp"@,
        kind_of(protocol) is None <==> protocol != "tcp"@ && protocol != "udp"@,
{
    reveal_strlit("tcp");
    reveal_strlit("udp");
    assert("tcp"@[0] != "udp"@[0]);
}

/// The report holds the whole of the endpoint.
pub proof fn law_reports_hold_the_target(endpoint: Seq<char>)
    ensures
        dial_message(DialFault::Lookup, endpoint) == "Failed to resolve endpoint: "@ + endpoint,
        dial_message(DialFault::NoAddress, endpoint) == "No address resolved for endpoint: "@ + endpoint,
        dial_message(DialFault::Connect, endpoint) == "Failed to connect to upstream addr: "@ + endpoint,
{
}

} // verus!
