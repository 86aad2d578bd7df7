//! The target of a session, written as `host:port`.

use vstd::prelude::*;
use vstd::slice::slice_subrange;
use vstd::string::*;
use crate::ip;
use crate::ip_proofs;
use crate::socks5;
use crate::text;
use crate::text_laws;
use crate::text_proofs;

verus! {

/// What is wrong with an endpoint.
#[derive(Clone, Copy, Debug, PartialEq, Eq, Structural)]
pub enum EndpointFault {
    Format,
    Port,
}

/// A rejected endpoint.
#[derive(Debug, PartialEq, Eq)]
pub struct EndpointError {
    pub fault: EndpointFault,
    /// The text that was rejected.
    pub input: String,
}

/// What a rejected endpoint is reported as.
pub open spec fn endpoint_message(fault: EndpointFault, input: Seq<char>) -> Seq<char> {
    match fault {
        EndpointFault::Format => "Invalid endpoint format: "@ + input,
        EndpointFault::Port => "Invalid port in endpoint: "@ + input,
    }
}

impl EndpointError {
    /// The report of the error.
    pub fn message(&self) -> (r: String)
        ensures
            r@ == endpoint_message(self.fault, self.input@),
    {
        match self.fault {
            EndpointFault::Format => "Invalid endpoint format: ".to_owned().concat(self.input.as_str()),
            EndpointFault::Port => "Invalid port in endpoint: ".to_owned().concat(self.input.as_str()),
        }
    }
}

/// A host without the brackets around it.
pub open spec fn unbracketed(host: Seq<char>) -> Seq<char> {
    text::trim_end(text::trim_start(host, '['), ']')
}

/// Takes the brackets off a host: `[::1]` becomes `::1`.
pub fn unbracket(host: &str) -> (r: &str)
    ensures
        r@ == unbracketed(host@),
{
    let chars = text::chars_of(host);
    let all = chars.as_slice();
    let n: usize = all.len();
    let i: usize = text::start_without(all, '[');
    let rest = slice_subrange(all, i, n);
    assert(rest@ == host@.skip(i as int));
    let j: usize = text::end_without(rest, ']');
    let r = host.substring_char(i, i + j);
    assert(r@ == rest@.take(j as int));
    r
}

/// The host and the port of an endpoint. An IP address stands for itself, in its
/// canonical text; anything else is taken as it is, up to the last colon, without
/// brackets.
pub open spec fn split_endpoint(s: Seq<char>) -> Result<(Seq<char>, nat), EndpointFault> {
    match ip::parse_socket(s) {
        Some((a, port)) => Ok((ip::ip_text(a), port)),
        None => match text::rfind(s, ':') {
            None => Err(EndpointFault::Format),
            Some(i) => match text::port_number(s.skip(i + 1)) {
                None => Err(EndpointFault::Port),
                Some(port) => Ok((unbracketed(s.take(i)), port)),
            },
        },
    }
}

/// Splits an endpoint into its host and its port.
pub fn endpoint_host_port(endpoint: &str) -> (r: Result<(String, u16), EndpointError>)
    ensures
        match r {
            Ok((host, port)) => split_endpoint(endpoint@) == Ok::<(Seq<char>, nat), EndpointFault>(
                (host@, port as nat),
            ),
            Err(e) => e.input@ == endpoint@ && split_endpoint(endpoint@) == Err::<
                (Seq<char>, nat),
                EndpointFault,
            >(e.fault),
        },
{
    let chars = text::chars_of(endpoint);
    let all = chars.as_slice();
    let n: usize = all.len();
    if let Some(a) = ip::socket_of(all) {
        return Ok((a.ip.to_text(), a.port));
    }
    let i: usize = match text::rfind_char(all, ':') {
        Some(i) => i,
        None => {
            return Err(EndpointError { fault: EndpointFault::Format, input: endpoint.to_owned() });
        },
    };
    let port_text = slice_subrange(all, i + 1, n);
    assert(port_text@ == endpoint@.skip(i + 1));
    let port: u16 = match text::port_of(port_text) {
        Some(port) => port,
        None => {
            return Err(EndpointError { fault: EndpointFault::Port, input: endpoint.to_owned() });
        },
    };
    let host = endpoint.substring_char(0, i);
    assert(host@ == endpoint@.take(i as int));
    Ok((unbracket(host).to_owned(), port))
}

/// A host that is no IP address and has no brackets is passed on as it is.
pub proof fn law_names_pass_through(host: Seq<char>, port: Seq<char>)
    requires
        ip::parse_v4(host) is None,
        host.len() > 0 ==> host[0] != '[' && host.last() != ']',
        text::port_number(port) is Some,
    ensures
        split_endpoint(host.push(':') + port) == Ok::<(Seq<char>, nat), EndpointFault>(
            (host, text::port_number(port)->0),
        ),
{
    let s = host.push(':') + port;
    text_proofs::lemma_port_free(port);
    assert(s.skip(host.len() as int + 1) == port);
    assert(s.take(host.len() as int) == host);
    text_proofs::lemma_rfind_at(s, host.len() as int, ':');
}

/// A name is left to the proxy to look up: the proxy is asked for the very name that
/// stands in the endpoint.
pub proof fn law_names_reach_the_proxy(host: Seq<char>, port: Seq<char>)
    requires
        ip::parse_ip(host) is None,
        host[0] != '[' && host.last() != ']',
        1 <= vstd::utf8::encode_utf8(host).len() <= 255,
        text::port_number(port) is Some,
    ensures
        ({
            let number = text::port_number(port)->0;
            let name = vstd::utf8::encode_utf8(host);
            &&& split_endpoint(host.push(':') + port) == Ok::<(Seq<char>, nat), EndpointFault>(
                (host, number),
            )
            &&& socks5::host_port_bytes(host, number as u16) == Ok::<Seq<u8>, socks5::Socks5Error>(
                seq![socks5::ATYP_DOMAIN, name.len() as u8] + name + socks5::port_bytes(number as u16),
            )
        }),
{
    law_names_pass_through(host, port);
}

/// An endpoint with an IP address asks the proxy for that very address.
pub proof fn law_addresses_reach_the_proxy(s: Seq<char>)
    requires
        ip::parse_socket(s) is Some,
    ensures
        ({
            let (a, port) = ip::parse_socket(s)->0;
            let atyp = if a is V4 {
                socks5::ATYP_IPV4
            } else {
                socks5::ATYP_IPV6
            };
            &&& split_endpoint(s) == Ok::<(Seq<char>, nat), EndpointFault>((ip::ip_text(a), port))
            &&& socks5::host_port_bytes(ip::ip_text(a), port as u16) == Ok::<
                Seq<u8>,
                socks5::Socks5Error,
            >(seq![atyp] + a.octets() + socks5::port_bytes(port as u16))
        }),
{
    let (a, port) = ip::parse_socket(s)->0;
    ip_proofs::law_parsed_is_complete(s);
    ip_proofs::law_text_round_trip(a);
}

/// `inner` stands in `host` at `k`, with opening brackets before it and closing ones
/// after it.
pub open spec fn in_brackets(host: Seq<char>, inner: Seq<char>, k: int) -> bool {
    let end = k + inner.len();
    &&& 0 <= k && end <= host.len()
    &&& inner == host.subrange(k, end)
    &&& forall|i: int| 0 <= i < k ==> host[i] == '['
    &&& forall|i: int| end <= i < host.len() ==> host[i] == ']'
}

/// A host loses the opening brackets at its start and the closing ones at its end, all
/// of them and nothing else.
pub proof fn law_unbracketed(host: Seq<char>)
    ensures
        exists|k: int| #[trigger] in_brackets(host, unbracketed(host), k),
        unbracketed(host).len() > 0 ==> unbracketed(host)[0] != '[' && unbracketed(host).last() != ']',
{
    let t = text::trim_start(host, '[');
    let r = unbracketed(host);
    text_laws::law_trim_start(host, '[');
    text_laws::law_trim_end(t, ']');
    let k = host.len() - t.len();
    assert(r == host.subrange(k, k + r.len()));
    assert forall|i: int| k + r.len() <= i < host.len() implies host[i] == ']' by {
        assert(t[i - k] == host[i]);
    }
    assert(in_brackets(host, r, k));
}

/// How an endpoint is split, whatever it is: an address is taken for itself; anything
/// else goes up to its last colon, loses its brackets, and has a port after the colon.
pub proof fn law_endpoint(host: Seq<char>, port: Seq<char>, s: Seq<char>)
    requires
        s == host.push(':') + port,
        text_proofs::free_of(port, ':'),
    ensures
        ip::parse_socket(s) matches Some((a, n)) ==> split_endpoint(s) == Ok::<
            (Seq<char>, nat),
            EndpointFault,
        >((ip::ip_text(a), n)),
        ip::parse_socket(s) is None ==> match text::port_number(port) {
            Some(n) => split_endpoint(s) == Ok::<(Seq<char>, nat), EndpointFault>((unbracketed(host), n)),
            None => split_endpoint(s) == Err::<(Seq<char>, nat), EndpointFault>(EndpointFault::Port),
        },
{
    assert(s.skip(host.len() as int + 1) == port);
    assert(s.take(host.len() as int) == host);
    text_proofs::lemma_rfind_at(s, host.len() as int, ':');
}

/// An endpoint has a colon.
pub proof fn law_an_endpoint_has_a_port(s: Seq<char>)
    requires
        text_proofs::free_of(s, ':'),
    ensures
        split_endpoint(s) == Err::<(Seq<char>, nat), EndpointFault>(EndpointFault::Format),
{
    text_laws::law_rfind(s, ':', 0);
}

/// The report holds the whole of the rejected text.
pub proof fn law_reports_hold_the_endpoint(s: Seq<char>)
    ensures
        endpoint_message(EndpointFault::Format, s) == "Invalid endpoint format: "@ + s,
        endpoint_message(EndpointFault::Port, s) == "Invalid port in endpoint: "@ + s,
{
}

} // verus!
