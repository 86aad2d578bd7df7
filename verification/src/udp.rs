//! UDP sessions: through the relay of a SOCKS5 proxy, or directly.

use vstd::prelude::*;
use vstd::slice::slice_subrange;
use vstd::string::*;
use crate::client;
use crate::client::{udp_associate_exchange, Command, Exchange, Step, Terms};
use crate::config::Config;
use crate::endpoint;
use crate::endpoint::{endpoint_host_port, EndpointError, EndpointFault};
use crate::session::DialFault;
use crate::socks5;
use crate::socks5::{decode_udp_packet, encode_udp_packet, PacketError, PacketFault, Socks5Error};

verus! {

/// The room for a datagram.
pub const DATAGRAM_SIZE: usize = 65536;

/// How a UDP session reaches its target.
pub enum UdpRoute {
    /// Through a relay that the SOCKS5 proxy at this address opens in this exchange.
    Associate { address: String, exchange: Exchange, first: Step },
    /// By looking the endpoint up here.
    Direct,
}

/// How a UDP session reaches its target. A proxy is asked for a relay with the
/// configured credentials.
pub fn udp_route(config: &Config) -> (r: UdpRoute)
    ensures
        match r {
            UdpRoute::Associate { address, exchange, first } => {
                &&& config.socks_proxy matches Some(proxy)
                &&& address@ == proxy@.addr
                &&& exchange.terms() == (Terms {
                    auth: proxy@.auth,
                    command: Command::UdpAssociate,
                    host: "0.0.0.0"@,
                    port: 0,
                })
                &&& exchange.made(first, client::first_move(exchange.terms()))
            },
            UdpRoute::Direct => config.socks_proxy is None,
        },
{
    match &config.socks_proxy {
        Some(proxy) => {
            let (exchange, first) = udp_associate_exchange(proxy.auth());
            UdpRoute::Associate { address: proxy.address().to_owned(), exchange, first }
        },
        None => UdpRoute::Direct,
    }
}

/// A session without a relay goes out directly where that was allowed and the
/// proxy answered the request with a code that rejects it.
pub open spec fn goes_direct(allowed: bool, e: Socks5Error) -> bool {
    allowed && e is Rejected
}

/// Whether a session that was given no relay goes out directly.
pub fn falls_back(config: &Config, e: Socks5Error) -> (r: bool)
    ensures
        r == goes_direct(config.socks_udp_fallback, e),
{
    match e {
        Socks5Error::Rejected(_) => config.socks_udp_fallback,
        _ => false,
    }
}

/// A session goes out directly only where the configuration allows it and the
/// proxy itself rejected the request: the header of its reply was well-formed and
/// held a code that is not zero.
pub proof fn law_only_a_rejection_falls_back(
    allowed: bool,
    terms: Terms,
    awaits: client::Awaited,
    reply: Seq<u8>,
    e: Socks5Error,
)
    requires
        reply.len() == client::awaited_len(awaits),
        client::next_move(terms, awaits, reply).go == client::Go::Fail(e),
        goes_direct(allowed, e),
    ensures
        allowed,
        awaits is Header,
        reply[0] == socks5::VERSION && reply[2] == 0,
        reply[1] != 0 && e == Socks5Error::Rejected(reply[1]),
{
}

/// The address to bind a socket to that reaches addresses of one family.
pub open spec fn bind_text(ipv6: bool) -> Seq<char> {
    if ipv6 {
        "[::]:0"@
    } else {
        "0.0.0.0:0"@
    }
}

/// The address to bind a socket to.
pub fn bind_address(ipv6: bool) -> (r: &'static str)
    ensures
        r@ == bind_text(ipv6),
{
    if ipv6 {
        "[::]:0"
    } else {
        "0.0.0.0:0"
    }
}

/// What is read from the connection on which a relay was asked for. It is silent
/// as long as the relay is open.
#[derive(Clone, Copy, Debug, PartialEq, Eq, Structural)]
pub enum Control {
    /// A byte.
    Data,
    /// The end.
    End,
    /// An error of the connection.
    Broken,
}

/// What the end of a relay is reported as; an error of the connection speaks for
/// itself.
pub fn control_report(read: Control) -> (r: Option<&'static str>)
    ensures
        match read {
            Control::Data => r matches Some(s) && s@
                == "unexpected data on SOCKS5 UDP control connection"@,
            Control::End => r matches Some(s) && s@ == "SOCKS5 UDP control connection closed"@,
            Control::Broken => r is None,
        },
{
    match read {
        Control::Data => Some("unexpected data on SOCKS5 UDP control connection"),
        Control::End => Some("SOCKS5 UDP control connection closed"),
        Control::Broken => None,
    }
}

/// The payload of a packet from the relay.
pub fn relayed_payload(packet: &[u8]) -> (r: Result<&[u8], PacketError>)
    ensures
        match r {
            Ok(payload) => socks5::payload_start(packet@) matches Ok(start) && payload@ == packet@.skip(start),
            Err(e) => socks5::payload_start(packet@) == Err::<int, PacketFault>(e.fault) && e.report@
                == socks5::packet_report(packet@, e.fault),
        },
{
    let n: usize = packet.len();
    match decode_udp_packet(packet) {
        Ok(found) => {
            let payload = slice_subrange(packet, found.payload_start, n);
            assert(payload@ == packet@.skip(found.payload_start as int));
            Ok(payload)
        },
        Err(e) => Err(e),
    }
}

/// What happens while a relay is open.
pub enum RelayEvent<'a> {
    /// The connection on which it was asked for is no longer silent.
    Control(Control),
    /// The client sent a datagram.
    Datagram(&'a [u8]),
    /// The relay sent a packet.
    Packet(&'a [u8]),
}

/// Why a relay is given up.
#[derive(Debug, PartialEq, Eq)]
pub enum RelayEnd {
    Control(Control),
    /// The target does not fit into a packet.
    Target(Socks5Error),
    /// The packet does not decode.
    Packet(PacketError),
}

impl RelayEnd {
    /// The report; an error of the connection speaks for itself.
    pub fn message(&self) -> (r: Option<String>)
        ensures
            match *self {
                RelayEnd::Control(Control::Data) => r matches Some(s) && s@
                    == "unexpected data on SOCKS5 UDP control connection"@,
                RelayEnd::Control(Control::End) => r matches Some(s) && s@
                    == "SOCKS5 UDP control connection closed"@,
                RelayEnd::Control(Control::Broken) => r is None,
                RelayEnd::Target(e) => r matches Some(s) && s@ == socks5::error_message(e),
                RelayEnd::Packet(e) => r matches Some(s) && s@ == e.report@,
            },
    {
        match self {
            RelayEnd::Control(read) => match control_report(*read) {
                Some(report) => Some(report.to_owned()),
                None => None,
            },
            RelayEnd::Target(e) => Some(e.message()),
            RelayEnd::Packet(e) => Some(e.report.as_str().to_owned()),
        }
    }
}

/// What to do then.
pub enum RelayAction<'a> {
    /// Send the packet at hand to the relay.
    Send,
    /// Hand this datagram to the client.
    Deliver(&'a [u8]),
    /// Give the relay up.
    Stop(RelayEnd),
}

/// A relay to one target, with the packet that was last made for it.
pub struct Relay {
    pub host: String,
    pub port: u16,
    pub packet: Vec<u8>,
}

impl Relay {
    /// A relay to the endpoint.
    pub fn new(endpoint: &str) -> (r: Result<Self, EndpointError>)
        ensures
            match r {
                Ok(relay) => relay.packet@.len() == 0 && endpoint::split_endpoint(endpoint@) == Ok::<
                    (Seq<char>, nat),
                    EndpointFault,
                >((relay.host@, relay.port as nat)),
                Err(e) => e.input@ == endpoint@ && endpoint::split_endpoint(endpoint@) == Err::<
                    (Seq<char>, nat),
                    EndpointFault,
                >(e.fault),
            },
    {
        match endpoint_host_port(endpoint) {
            Ok((host, port)) => Ok(Relay { host, port, packet: Vec::with_capacity(DATAGRAM_SIZE) }),
            Err(e) => Err(e),
        }
    }

    /// Goes on: datagrams are packed for the target, packets are unpacked, and
    /// whatever comes on the control connection is the end. For a target that does
    /// not fit, the packet is left with the header alone.
    pub fn on_event<'a>(&mut self, event: RelayEvent<'a>) -> (action: RelayAction<'a>)
        ensures
            final(self).host == old(self).host,
            final(self).port == old(self).port,
            !(event is Datagram) ==> final(self).packet == old(self).packet,
            match event {
                RelayEvent::Control(read) => action == RelayAction::<'a>::Stop(RelayEnd::Control(read)),
                RelayEvent::Datagram(payload) => match socks5::host_port_bytes(
                    old(self).host@,
                    old(self).port,
                ) {
                    Ok(target) => action is Send && final(self).packet@ == seq![0u8, 0u8, 0u8] + target
                        + payload@,
                    Err(e) => action == RelayAction::<'a>::Stop(RelayEnd::Target(e)) && final(self).packet@
                        == seq![0u8, 0u8, 0u8],
                },
                RelayEvent::Packet(packet) => match socks5::payload_start(packet@) {
                    Ok(start) => action matches RelayAction::Deliver(payload) && payload@ == packet@.skip(
                        start,
                    ),
                    Err(fault) => action matches RelayAction::Stop(RelayEnd::Packet(e)) && e.fault == fault
                        && e.report@ == socks5::packet_report(packet@, fault),
                },
            },
    {
        match event {
            RelayEvent::Control(read) => RelayAction::Stop(RelayEnd::Control(read)),
            RelayEvent::Datagram(payload) => {
                match encode_udp_packet(&mut self.packet, self.host.as_str(), self.port, payload) {
                    Ok(()) => RelayAction::Send,
                    Err(e) => RelayAction::Stop(RelayEnd::Target(e)),
                }
            },
            RelayEvent::Packet(packet) => match relayed_payload(packet) {
                Ok(payload) => RelayAction::Deliver(payload),
                Err(e) => RelayAction::Stop(RelayEnd::Packet(e)),
            },
        }
    }
}

/// The attempts to reach a target at one of its addresses: those that failed, in
/// order, each with its error.
pub struct Attempts {
    /// For each address, whether it is an IPv6 address.
    pub ipv6: Seq<bool>,
    pub failures: Seq<Seq<char>>,
}

impl Attempts {
    /// There are addresses, and none was tried twice.
    pub open spec fn wf(self) -> bool {
        self.ipv6.len() > 0 && self.failures.len() <= self.ipv6.len()
    }

    /// The address to try, and where to bind: the first that has not failed.
    pub open spec fn pending(self) -> Option<(int, Seq<char>)> {
        if self.failures.len() < self.ipv6.len() {
            Some((self.failures.len() as int, bind_text(self.ipv6[self.failures.len() as int])))
        } else {
            None
        }
    }
}

/// What a target that was not reached at any of its addresses is reported as.
pub open spec fn give_up_message(endpoint: Seq<char>, failures: Seq<Seq<char>>) -> Seq<char> {
    "Failed to connect UDP to endpoint "@ + endpoint + ": "@ + (if failures.len() == 0 {
        "no candidate address"@
    } else {
        failures.last()
    })
}

/// The search for an address at which a target is reached.
pub struct Candidates {
    ipv6: Vec<bool>,
    errors: Vec<String>,
}

impl View for Candidates {
    type V = Attempts;

    closed spec fn view(&self) -> Attempts {
        Attempts { ipv6: self.ipv6@, failures: self.errors@.map_values(|e: String| e@) }
    }
}

impl Candidates {
    #[verifier::type_invariant]
    spec fn inv(self) -> bool {
        self.ipv6@.len() > 0 && self.errors@.len() <= self.ipv6@.len()
    }

    /// A search among addresses, of which there must be one.
    pub fn new(ipv6: Vec<bool>) -> (r: Result<Self, DialFault>)
        ensures
            match r {
                Ok(c) => ipv6@.len() > 0 && c@ == (Attempts { ipv6: ipv6@, failures: seq![] }) && c@.wf(),
                Err(fault) => ipv6@.len() == 0 && fault == DialFault::NoAddress,
            },
    {
        if ipv6.len() == 0 {
            return Err(DialFault::NoAddress);
        }
        let c = Candidates { ipv6, errors: Vec::new() };
        assert(c@.failures == Seq::<Seq<char>>::empty());
        Ok(c)
    }

    /// The address to try, by its place in the list, and where to bind the socket.
    pub fn pending(&self) -> (r: Option<(usize, &'static str)>)
        ensures
            match r {
                Some((i, bind)) => self@.pending() == Some((i as int, bind@)),
                None => self@.pending() is None,
            },
    {
        let tried: usize = self.errors.len();
        if tried < self.ipv6.len() {
            Some((tried, bind_address(self.ipv6[tried])))
        } else {
            None
        }
    }

    /// Goes on to the next address after an error.
    pub fn failed(self, error: String) -> (r: Self)
        requires
            self@.pending() is Some,
        ensures
            r@ == (Attempts { ipv6: self@.ipv6, failures: self@.failures.push(error@) }),
            r@.wf(),
    {
        proof {
            use_type_invariant(&self);
        }
        let mut errors = self.errors;
        errors.push(error);
        let c = Candidates { ipv6: self.ipv6, errors };
        assert(c@.failures == self@.failures.push(error@));
        c
    }

    /// The report of a target that was not reached.
    pub fn give_up(&self, endpoint: &str) -> (r: String)
        ensures
            r@ == give_up_message(endpoint@, self@.failures),
    {
        let head = "Failed to connect UDP to endpoint ".to_owned().concat(endpoint).concat(": ");
        let n: usize = self.errors.len();
        if n == 0 {
            head.concat("no candidate address")
        } else {
            head.concat(self.errors[n - 1].as_str())
        }
    }
}

/// Addresses are tried in the order of the list, each once, up to the last: after
/// as many failures as there were attempts the next address is the next in the
/// list, and after the last one the last error is reported.
pub proof fn law_each_address_is_tried_in_turn(ipv6: Seq<bool>, errors: Seq<Seq<char>>, endpoint: Seq<char>)
    requires
        0 < ipv6.len(),
        errors.len() <= ipv6.len(),
    ensures
        ({
            let a = Attempts { ipv6, failures: errors };
            &&& a.wf()
            &&& errors.len() < ipv6.len() ==> a.pending() == Some(
                (errors.len() as int, bind_text(ipv6[errors.len() as int])),
            )
            &&& errors.len() == ipv6.len() ==> a.pending() is None && give_up_message(
                endpoint,
                a.failures,
            ) == "Failed to connect UDP to endpoint "@ + endpoint + ": "@ + errors.last()
        }),
{
}

/// A session goes out directly exactly if that is allowed and the proxy rejected the
/// request, whatever the code.
pub proof fn law_fallback(allowed: bool, e: Socks5Error, code: u8)
    ensures
        goes_direct(true, Socks5Error::Rejected(code)),
        !goes_direct(false, e),
        goes_direct(allowed, e) ==> e is Rejected,
{
}

/// A socket is bound to any address of the family and any port.
pub proof fn law_bind_text()
    ensures
        bind_text(true) == "[::]:0"@,
        bind_text(false) == "0.0.0.0:0"@,
{
}

/// The report names the endpoint, and the last of the errors if there is one.
pub proof fn law_give_up(endpoint: Seq<char>, failures: Seq<Seq<char>>, error: Seq<char>)
    ensures
        give_up_message(endpoint, failures.push(error)) == "Failed to connect UDP to endpoint "@ + endpoint
            + ": "@ + error,
        give_up_message(endpoint, seq![]) == "Failed to connect UDP to endpoint "@ + endpoint + ": "@
            + "no candidate address"@,
{
}

} // verus!
