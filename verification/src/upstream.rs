//! The HTTP server behind this one.

use vstd::prelude::*;
use vstd::string::*;
use crate::endpoint;
use crate::endpoint::unbracket;
use crate::text;

verus! {

/// The error of reading a URI, carried and never looked into.
#[verifier::external_type_specification]
#[verifier::external_body]
pub struct ExInvalidUri(http::uri::InvalidUri);

/// The host and the port of a URI, as far as it has them.
#[derive(Debug, PartialEq, Eq)]
pub struct UriParts {
    pub host: Option<String>,
    pub port: Option<u16>,
}

impl View for UriParts {
    type V = (Option<Seq<char>>, Option<u16>);

    open spec fn view(&self) -> (Option<Seq<char>>, Option<u16>) {
        (
            match self.host {
                Some(host) => Some(host@),
                None => None,
            },
            self.port,
        )
    }
}

/// The host and the port that `http::Uri` finds in a text; nothing for a text that
/// is no URI.
pub uninterp spec fn uri_parts(s: Seq<char>) -> Option<(Option<Seq<char>>, Option<u16>)>;

/// `<http::Uri as FromStr>::from_str`, and the `host` and `port_u16` of what it
/// makes. The grammar of URIs is left to `uri_parts`.
#[verifier::external_body]
fn parse_uri(s: &str) -> (r: Result<UriParts, http::uri::InvalidUri>)
    ensures
        match r {
            Ok(parts) => uri_parts(s@) == Some(parts@),
            Err(_) => uri_parts(s@) is None,
        },
{
    let uri: http::Uri = s.parse()?;
    Ok(UriParts { host: uri.host().map(|host| host.to_owned()), port: uri.port_u16() })
}

/// Why an upstream address is of no use.
pub enum UpstreamError {
    Invalid(http::uri::InvalidUri),
    NoHost,
}

/// Where to connect: the host without brackets, and the port, which is 80 unless
/// the URI has one.
pub open spec fn connect_target(parts: (Option<Seq<char>>, Option<u16>)) -> Option<(Seq<char>, u16)> {
    match parts.0 {
        None => None,
        Some(host) => Some(
            (
                endpoint::unbracketed(host),
                match parts.1 {
                    Some(port) => port,
                    None => 80,
                },
            ),
        ),
    }
}

/// Where the parts of a URI say to connect.
pub fn target_of(parts: &UriParts) -> (r: Option<(String, u16)>)
    ensures
        match r {
            Some((host, port)) => connect_target(parts@) == Some((host@, port)),
            None => connect_target(parts@) is None,
        },
{
    let port: u16 = match parts.port {
        Some(port) => port,
        None => 80,
    };
    match &parts.host {
        Some(host) => Some((unbracket(host.as_str()).to_owned(), port)),
        None => None,
    }
}

/// Where an upstream address says to connect.
pub fn upstream_target(upstream: &str) -> (r: Result<(String, u16), UpstreamError>)
    ensures
        match r {
            Ok((host, port)) => uri_parts(upstream@) matches Some(parts) && connect_target(parts) == Some(
                (host@, port),
            ),
            Err(UpstreamError::Invalid(_)) => uri_parts(upstream@) is None,
            Err(UpstreamError::NoHost) => uri_parts(upstream@) matches Some(parts) && connect_target(
                parts,
            ) is None,
        },
{
    match parse_uri(upstream) {
        Ok(parts) => match target_of(&parts) {
            Some(target) => Ok(target),
            None => Err(UpstreamError::NoHost),
        },
        Err(e) => Err(UpstreamError::Invalid(e)),
    }
}

/// The URI of a request at the upstream server: the path and the query after the
/// server's own address without its closing slashes.
pub open spec fn redirect_text(upstream: Seq<char>, path_and_query: Option<Seq<char>>) -> Seq<char> {
    text::trim_end(upstream, '/') + match path_and_query {
        Some(rest) => rest,
        None => seq![],
    }
}

/// The text of the URI of a request at the upstream server.
pub fn redirect_target(upstream: &str, path_and_query: Option<&str>) -> (r: String)
    ensures
        r@ == redirect_text(
            upstream@,
            match path_and_query {
                Some(rest) => Some(rest@),
                None => None,
            },
        ),
{
    let chars = text::chars_of(upstream);
    let n: usize = text::end_without(chars.as_slice(), '/');
    let base = upstream.substring_char(0, n);
    assert(base@ == upstream@.take(n as int));
    match path_and_query {
        Some(rest) => base.to_owned().concat(rest),
        None => {
            let r = base.to_owned();
            assert(r@ == text::trim_end(upstream@, '/') + Seq::<char>::empty());
            r
        },
    }
}

/// The URI of a request at the upstream server, if it is one.
pub fn redirect_uri(upstream: &str, path_and_query: Option<&str>) -> (r: Result<
    String,
    http::uri::InvalidUri,
>)
    ensures
        ({
            let target = redirect_text(
                upstream@,
                match path_and_query {
                    Some(rest) => Some(rest@),
                    None => None,
                },
            );
            match r {
                Ok(uri) => uri@ == target && uri_parts(target) is Some,
                Err(_) => uri_parts(target) is None,
            }
        }),
{
    let target = redirect_target(upstream, path_and_query);
    match parse_uri(target.as_str()) {
        Ok(_) => Ok(target),
        Err(e) => Err(e),
    }
}

/// Slashes at the end of the upstream address make no difference.
pub proof fn law_closing_slashes_do_not_count(upstream: Seq<char>, path_and_query: Option<Seq<char>>)
    ensures
        redirect_text(upstream.push('/'), path_and_query) == redirect_text(upstream, path_and_query),
{
    assert(upstream.push('/').drop_last() == upstream);
}

/// A request keeps the whole of its path and its query: they follow the address of the
/// server, which is as it was configured if it does not end with a slash.
pub proof fn law_path_and_query_are_kept(upstream: Seq<char>, path_and_query: Seq<char>)
    requires
        upstream.len() > 0 ==> upstream.last() != '/',
    ensures
        redirect_text(upstream, Some(path_and_query)) == upstream + path_and_query,
        redirect_text(upstream, None) == upstream,
{
    assert(upstream + Seq::<char>::empty() == upstream);
}

/// A URI with a host says to connect to that host without brackets, at its port or else
/// at 80; one without a host says nothing.
pub proof fn law_connect_target(host: Seq<char>, port: u16)
    ensures
        connect_target((Some(host), Some(port))) == Some((endpoint::unbracketed(host), port)),
        connect_target((Some(host), None)) == Some((endpoint::unbracketed(host), 80u16)),
        connect_target((None, Some(port))) is None,
        connect_target((None, None)) is None,
{
}

/// The parts of a URI are looked at as what they hold.
pub proof fn law_parts_are_what_they_hold(parts: UriParts)
    ensures
        parts@.1 == parts.port,
        parts@.0 is Some <==> parts.host is Some,
        parts.host matches Some(host) ==> parts@.0 == Some(host@),
{
}

} // verus!
