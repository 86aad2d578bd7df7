//! The configuration of the server, and the SOCKS5 proxy address in it.

use vstd::prelude::*;
use vstd::slice::slice_subrange;
use vstd::string::*;
use crate::text;

verus! {

/// What is wrong with a SOCKS5 proxy address.
#[derive(Clone, Copy, Debug, PartialEq, Eq, Structural)]
pub enum ProxyFault {
    MissingPort,
    InvalidPort,
    EmptyHost,
    InvalidBrackets,
    InvalidCredentials,
    UsernameLength,
    PasswordLength,
}

/// A rejected SOCKS5 proxy address.
#[derive(Debug, PartialEq, Eq)]
pub struct ProxyError {
    pub fault: ProxyFault,
    /// The text that was rejected.
    pub input: String,
}

/// What a rejected address is reported as.
pub open spec fn proxy_message(fault: ProxyFault, input: Seq<char>) -> Seq<char> {
    match fault {
        ProxyFault::MissingPort => "invalid SOCKS5 proxy address (missing port): "@ + input,
        ProxyFault::InvalidPort => "invalid port in SOCKS5 proxy address: "@ + input,
        ProxyFault::EmptyHost => "empty host in SOCKS5 proxy address: "@ + input,
        ProxyFault::InvalidBrackets => "invalid bracketed IPv6 in SOCKS5 proxy address: "@ + input,
        ProxyFault::InvalidCredentials => "invalid credentials in SOCKS5 proxy address: "@ + input,
        ProxyFault::UsernameLength => "SOCKS5 username must be 1-255 bytes"@,
        ProxyFault::PasswordLength => "SOCKS5 password must be 1-255 bytes"@,
    }
}

impl ProxyError {
    /// The report of the error.
    pub fn message(&self) -> (r: String)
        ensures
            r@ == proxy_message(self.fault, self.input@),
    {
        let input = self.input.as_str();
        match self.fault {
            ProxyFault::MissingPort => "invalid SOCKS5 proxy address (missing port): ".to_owned().concat(
                input,
            ),
            ProxyFault::InvalidPort => "invalid port in SOCKS5 proxy address: ".to_owned().concat(input),
            ProxyFault::EmptyHost => "empty host in SOCKS5 proxy address: ".to_owned().concat(input),
            ProxyFault::InvalidBrackets => "invalid bracketed IPv6 in SOCKS5 proxy address: ".to_owned()
                .concat(input),
            ProxyFault::InvalidCredentials => "invalid credentials in SOCKS5 proxy address: ".to_owned()
                .concat(input),
            ProxyFault::UsernameLength => "SOCKS5 username must be 1-255 bytes".to_owned(),
            ProxyFault::PasswordLength => "SOCKS5 password must be 1-255 bytes".to_owned(),
        }
    }
}

/// What a proxy address says.
pub struct Proxy {
    /// `host:port`.
    pub addr: Seq<char>,
    /// The user name and the password.
    pub auth: Option<(Seq<char>, Seq<char>)>,
}

/// The number of bytes that a text takes.
pub open spec fn byte_len(s: Seq<char>) -> nat {
    vstd::utf8::encode_utf8(s).len()
}

/// A user name or a password takes 1 to 255 bytes.
pub open spec fn credential(s: Seq<char>) -> bool {
    1 <= byte_len(s) <= 255
}

/// The colon before the host in `user:pass:host`. A host that ends with a
/// bracket begins with one.
pub open spec fn host_colon(rest: Seq<char>) -> Option<int> {
    if rest.last() == ']' {
        text::rfind_pair(rest, ':', '[')
    } else {
        text::rfind(rest, ':')
    }
}

/// The credentials go up to the first colon, the password after it.
pub open spec fn proxy_with_credentials(creds: Seq<char>, host: Seq<char>, port: nat) -> Result<
    Proxy,
    ProxyFault,
> {
    if host.len() == 0 {
        Err(ProxyFault::EmptyHost)
    } else {
        match text::find(creds, ':') {
            None => Err(ProxyFault::InvalidCredentials),
            Some(k) => if !credential(creds.take(k)) {
                Err(ProxyFault::UsernameLength)
            } else if !credential(creds.skip(k + 1)) {
                Err(ProxyFault::PasswordLength)
            } else {
                Ok(
                    Proxy {
                        addr: host.push(':') + text::numeral(port, 10),
                        auth: Some((creds.take(k), creds.skip(k + 1))),
                    },
                )
            },
        }
    }
}

/// Reads `host:port` or `user:pass:host:port` from the right: the port, then the
/// host, then the credentials. What begins with a bracket or holds no further
/// colon has no credentials.
pub open spec fn parse_proxy(s: Seq<char>) -> Result<Proxy, ProxyFault> {
    match text::rfind(s, ':') {
        None => Err(ProxyFault::MissingPort),
        Some(i) => match text::port_number(s.skip(i + 1)) {
            None => Err(ProxyFault::InvalidPort),
            Some(port) => {
                let rest = s.take(i);
                if rest.len() == 0 {
                    Err(ProxyFault::EmptyHost)
                } else if rest[0] == '[' || text::find(rest, ':') is None {
                    Ok(Proxy { addr: s, auth: None })
                } else {
                    match host_colon(rest) {
                        None => Err(ProxyFault::InvalidBrackets),
                        Some(j) => proxy_with_credentials(rest.take(j), rest.skip(j + 1), port),
                    }
                }
            },
        },
    }
}

/// What `{:?}` makes of a string: the string in quotes, with escapes.
pub uninterp spec fn quoted(s: Seq<char>) -> Seq<char>;

/// `<str as Debug>::fmt`, by way of `format!`: the string as a quoted literal.
/// What the escapes of unusual characters look like is left to `quoted`.
#[verifier::external_body]
fn quote(s: &str) -> (r: String)
    ensures
        r@ == quoted(s@),
{
    format!("{:?}", s)
}

/// The printed form of a proxy with the given address and user name. There is no
/// room for a password in it.
pub open spec fn debug_form(addr: Seq<char>, user: Option<Seq<char>>) -> Seq<char> {
    "SocksProxy { addr: "@ + quoted(addr) + ", auth: "@ + (match user {
        None => "None"@,
        Some(user) => "Some(("@ + quoted(user) + ", \"***\"))"@,
    }) + " }"@
}

/// A SOCKS5 proxy: its address and, where it asks for them, the credentials.
#[derive(Clone)]
pub struct SocksProxy {
    /// `host:port`, where an IPv6 host is in brackets.
    pub addr: String,
    auth: Option<(String, String)>,
}

impl View for SocksProxy {
    type V = Proxy;

    closed spec fn view(&self) -> Proxy {
        Proxy {
            addr: self.addr@,
            auth: match self.auth {
                Some((user, pass)) => Some((user@, pass@)),
                None => None,
            },
        }
    }
}

impl Proxy {
    /// The user name.
    pub open spec fn user(self) -> Option<Seq<char>> {
        match self.auth {
            Some((user, _)) => Some(user),
            None => None,
        }
    }

    /// The credentials fit the wire format.
    pub open spec fn wf(self) -> bool {
        self.auth matches Some((user, pass)) ==> credential(user) && credential(pass)
    }
}

impl SocksProxy {
    /// The user name and the password.
    pub fn auth(&self) -> (r: Option<(&str, &str)>)
        ensures
            match r {
                Some((user, pass)) => self@.auth == Some((user@, pass@)),
                None => self@.auth is None,
            },
    {
        match &self.auth {
            Some((user, pass)) => Some((user.as_str(), pass.as_str())),
            None => None,
        }
    }

    /// The address as `host:port`.
    pub fn address(&self) -> (r: &str)
        ensures
            r@ == self@.addr,
    {
        self.addr.as_str()
    }

    /// Reads a proxy address.
    pub fn parse(s: &str) -> (r: Result<Self, ProxyError>)
        ensures
            match r {
                Ok(proxy) => proxy@.wf() && parse_proxy(s@) == Ok::<Proxy, ProxyFault>(proxy@),
                Err(e) => e.input@ == s@ && parse_proxy(s@) == Err::<Proxy, ProxyFault>(e.fault),
            },
    {
        let chars = text::chars_of(s);
        let all = chars.as_slice();
        let n: usize = all.len();
        let i: usize = match text::rfind_char(all, ':') {
            Some(i) => i,
            None => {
                return Err(ProxyError { fault: ProxyFault::MissingPort, input: s.to_owned() });
            },
        };
        let rest = slice_subrange(all, 0, i);
        let port_text = slice_subrange(all, i + 1, n);
        assert(rest@ == s@.take(i as int));
        assert(port_text@ == s@.skip(i + 1));
        let port: u16 = match text::port_of(port_text) {
            Some(port) => port,
            None => {
                return Err(ProxyError { fault: ProxyFault::InvalidPort, input: s.to_owned() });
            },
        };
        if i == 0 {
            return Err(ProxyError { fault: ProxyFault::EmptyHost, input: s.to_owned() });
        }
        let plain = rest[0] == '[' || match text::find_char(rest, ':') {
            Some(_) => false,
            None => true,
        };
        if plain {
            return Ok(SocksProxy { addr: s.to_owned(), auth: None });
        }
        let colon = if rest[i - 1] == ']' {
            text::rfind_two(rest, ':', '[')
        } else {
            text::rfind_char(rest, ':')
        };
        let j: usize = match colon {
            Some(j) => j,
            None => {
                return Err(ProxyError { fault: ProxyFault::InvalidBrackets, input: s.to_owned() });
            },
        };
        let creds = slice_subrange(rest, 0, j);
        let host = slice_subrange(rest, j + 1, i);
        assert(creds@ == rest@.take(j as int));
        assert(host@ == rest@.skip(j + 1));
        match Self::with_credentials(creds, host, port) {
            Ok(proxy) => Ok(proxy),
            Err(fault) => Err(ProxyError { fault, input: s.to_owned() }),
        }
    }

    /// Puts a proxy together from its credentials, its host and its port.
    fn with_credentials(creds: &[char], host: &[char], port: u16) -> (r: Result<Self, ProxyFault>)
        ensures
            match r {
                Ok(proxy) => proxy@.wf() && proxy_with_credentials(creds@, host@, port as nat) == Ok::<
                    Proxy,
                    ProxyFault,
                >(proxy@),
                Err(fault) => proxy_with_credentials(creds@, host@, port as nat) == Err::<Proxy, ProxyFault>(
                    fault,
                ),
            },
    {
        if host.len() == 0 {
            return Err(ProxyFault::EmptyHost);
        }
        let n: usize = creds.len();
        let k: usize = match text::find_char(creds, ':') {
            Some(k) => k,
            None => {
                return Err(ProxyFault::InvalidCredentials);
            },
        };
        let user_text = slice_subrange(creds, 0, k);
        let pass_text = slice_subrange(creds, k + 1, n);
        assert(user_text@ == creds@.take(k as int));
        assert(pass_text@ == creds@.skip(k + 1));
        let user = text::string_of(user_text);
        let user_len: usize = user.as_str().as_bytes().len();
        if user_len == 0 || user_len > 255 {
            return Err(ProxyFault::UsernameLength);
        }
        let pass = text::string_of(pass_text);
        let pass_len: usize = pass.as_str().as_bytes().len();
        if pass_len == 0 || pass_len > 255 {
            return Err(ProxyFault::PasswordLength);
        }
        let mut addr: Vec<char> = Vec::new();
        text::push_chars(&mut addr, host);
        addr.push(':');
        text::push_number(&mut addr, port as u64, 10);
        assert(addr@ == host@.push(':') + text::numeral(port as nat, 10));
        Ok(SocksProxy { addr: text::string_of(addr.as_slice()), auth: Some((user, pass)) })
    }

    /// The proxy in a form to print, with the password hidden.
    pub fn debug_text(&self) -> (r: String)
        ensures
            r@ == debug_form(self@.addr, self@.user()),
    {
        let mut r = "SocksProxy { addr: ".to_owned().concat(quote(self.addr.as_str()).as_str());
        r.append(", auth: ");
        match &self.auth {
            None => {
                r.append("None");
            },
            Some((user, _)) => {
                let auth = "Some((".to_owned().concat(quote(user.as_str()).as_str()).concat(", \"***\"))");
                r.append(auth.as_str());
            },
        }
        r.append(" }");
        r
    }
}

/// The configuration of the server.
#[derive(Clone)]
pub struct Config {
    /// The address to listen on.
    pub listen: String,
    /// The HTTP server that requests are passed on to.
    pub upstream: String,
    /// The file with the certificate chain.
    pub cert: String,
    /// The file with the private key.
    pub key: String,
    /// The path of WebTransport sessions.
    pub path: String,
    pub socks_proxy: Option<SocksProxy>,
    /// Whether a UDP session goes out directly when the SOCKS5 server rejects UDP
    /// ASSOCIATE. Such a session bypasses the proxy: its target is resolved here
    /// and sees the address of this host.
    pub socks_udp_fallback: bool,
    /// The initial congestion window.
    pub cwnd: Option<u64>,
}

/// A truth value as it is printed.
pub open spec fn bool_text(b: bool) -> Seq<char> {
    if b {
        "true"@
    } else {
        "false"@
    }
}

/// The printed form of a configuration. Of the proxy it holds what the printed form
/// of the proxy holds, and so no password.
pub open spec fn config_form(c: Config) -> Seq<char> {
    "Config { listen: "@ + quoted(c.listen@) + ", upstream: "@ + quoted(c.upstream@) + ", cert: "@
        + quoted(c.cert@) + ", key: "@ + quoted(c.key@) + ", path: "@ + quoted(c.path@)
        + ", socks_proxy: "@ + (match c.socks_proxy {
        None => "None"@,
        Some(proxy) => "Some("@ + debug_form(proxy@.addr, proxy@.user()) + ")"@,
    }) + ", socks_udp_fallback: "@ + bool_text(c.socks_udp_fallback) + ", cwnd: "@ + (match c.cwnd {
        None => "None"@,
        Some(n) => "Some("@ + text::numeral(n as nat, 10) + ")"@,
    }) + " }"@
}

/// The configuration as it is written down.
pub struct ConfigFields {
    pub listen: String,
    pub upstream: String,
    pub cert: String,
    pub key: String,
    pub path: String,
    pub socks_proxy: Option<String>,
    pub socks_udp_fallback: Option<bool>,
    pub cwnd: Option<u64>,
}

impl Config {
    /// Checks what was written down. A proxy address that does not read fails the
    /// whole; without a word on it there is no UDP fallback.
    pub fn from_fields(fields: ConfigFields) -> (r: Result<Config, ProxyError>)
        ensures
            match r {
                Ok(c) => {
                    &&& c.listen == fields.listen && c.upstream == fields.upstream
                    &&& c.cert == fields.cert && c.key == fields.key && c.path == fields.path
                    &&& c.cwnd == fields.cwnd
                    &&& c.socks_udp_fallback == (fields.socks_udp_fallback == Some(true))
                    &&& match (c.socks_proxy, fields.socks_proxy) {
                        (None, None) => true,
                        (Some(p), Some(s)) => p@.wf() && parse_proxy(s@) == Ok::<Proxy, ProxyFault>(p@),
                        _ => false,
                    }
                },
                Err(e) => fields.socks_proxy matches Some(s) && e.input@ == s@ && parse_proxy(s@) == Err::<
                    Proxy,
                    ProxyFault,
                >(e.fault),
            },
    {
        let socks_proxy = match &fields.socks_proxy {
            Some(s) => match SocksProxy::parse(s.as_str()) {
                Ok(proxy) => Some(proxy),
                Err(e) => {
                    return Err(e);
                },
            },
            None => None,
        };
        let socks_udp_fallback = match fields.socks_udp_fallback {
            Some(on) => on,
            None => false,
        };
        Ok(
            Config {
                listen: fields.listen,
                upstream: fields.upstream,
                cert: fields.cert,
                key: fields.key,
                path: fields.path,
                socks_proxy,
                socks_udp_fallback,
                cwnd: fields.cwnd,
            },
        )
    }

    /// The configuration in a form to print, with the password of the proxy hidden.
    pub fn debug_text(&self) -> (r: String)
        ensures
            r@ == config_form(*self),
    {
        let mut r = "Config { listen: ".to_owned().concat(quote(self.listen.as_str()).as_str());
        r.append(", upstream: ");
        r.append(quote(self.upstream.as_str()).as_str());
        r.append(", cert: ");
        r.append(quote(self.cert.as_str()).as_str());
        r.append(", key: ");
        r.append(quote(self.key.as_str()).as_str());
        r.append(", path: ");
        r.append(quote(self.path.as_str()).as_str());
        r.append(", socks_proxy: ");
        match &self.socks_proxy {
            None => {
                r.append("None");
            },
            Some(proxy) => {
                let shown = "Some(".to_owned().concat(proxy.debug_text().as_str()).concat(")");
                r.append(shown.as_str());
            },
        }
        r.append(", socks_udp_fallback: ");
        if self.socks_udp_fallback {
            r.append("true");
        } else {
            r.append("false");
        }
        r.append(", cwnd: ");
        match self.cwnd {
            None => {
                r.append("None");
            },
            Some(n) => {
                let mut digits: Vec<char> = Vec::new();
                text::push_number(&mut digits, n, 10);
                assert(digits@ == text::numeral(n as nat, 10));
                let number = text::string_of(digits.as_slice());
                let shown = "Some(".to_owned().concat(number.as_str()).concat(")");
                r.append(shown.as_str());
            },
        }
        r.append(" }");
        r
    }
}

} // verus!
