//! What proxy addresses guarantee.

use vstd::prelude::*;
use crate::config;
use crate::config::{Config, Proxy, ProxyFault, SocksProxy};
use crate::text;
use crate::text_laws;
use crate::text_proofs;

verus! {

/// A host that can follow credentials: one without a colon, or one in brackets.
pub open spec fn delimited_host(host: Seq<char>) -> bool {
    ||| host.len() > 0 && text_proofs::free_of(host, ':') && host.last() != ']'
    ||| host.len() > 1 && host[0] == '[' && host.last() == ']' && text_proofs::free_of(host.skip(1), '[')
}

/// `host:port` is a proxy without credentials, and its address is the text
/// itself. The host holds no colon or begins with a bracket.
pub proof fn law_plain_address(host: Seq<char>, port: Seq<char>)
    requires
        host.len() > 0,
        text_proofs::free_of(host, ':') || host[0] == '[',
        text::port_number(port) is Some,
    ensures
        config::parse_proxy(host.push(':') + port) == Ok::<Proxy, ProxyFault>(
            Proxy { addr: host.push(':') + port, auth: None },
        ),
{
    lemma_last_colon(host, port);
    if host[0] != '[' {
        text_proofs::lemma_find_none(host, ':');
    }
}

/// `user:pass:host:port` is a proxy with these credentials. The password may hold
/// colons; the user name may not, nor may it begin with a bracket.
pub proof fn law_address_with_credentials(
    user: Seq<char>,
    pass: Seq<char>,
    host: Seq<char>,
    port: Seq<char>,
)
    requires
        config::credential(user),
        config::credential(pass),
        text_proofs::free_of(user, ':'),
        user[0] != '[',
        delimited_host(host),
        text::port_number(port) is Some,
    ensures
        config::parse_proxy(user.push(':') + pass.push(':') + host.push(':') + port) == Ok::<
            Proxy,
            ProxyFault,
        >(
            Proxy {
                addr: host.push(':') + text::numeral(text::port_number(port).unwrap(), 10),
                auth: Some((user, pass)),
            },
        ),
{
    let creds = user.push(':') + pass;
    let rest = creds.push(':') + host;
    let s = user.push(':') + pass.push(':') + host.push(':') + port;
    assert(s == rest.push(':') + port);
    lemma_last_colon(rest, port);
    assert(user.len() > 0) by {
        if user.len() == 0 {
            assert(vstd::utf8::encode_utf8(user).len() == 0);
        }
    }
    assert(rest[0] == user[0]);
    assert(creds.take(user.len() as int) == user);
    assert(creds.skip(user.len() as int + 1) == pass);
    text_proofs::lemma_find_at(creds, user.len() as int, ':');
    assert(rest.take(user.len() as int) == user);
    text_proofs::lemma_find_at(rest, user.len() as int, ':');
    let j = creds.len() as int;
    assert(rest.take(j) == creds);
    assert(rest.skip(j + 1) == host);
    assert(rest.last() == host.last());
    if host.last() == ']' {
        assert(rest.skip(j + 2) == host.skip(1));
        text_proofs::lemma_rfind_pair_at(rest, j, ':', '[');
    } else {
        text_proofs::lemma_rfind_at(rest, j, ':');
    }
    assert(config::host_colon(rest) == Some(j));
}

/// The credentials of an accepted address take 1 to 255 bytes each.
pub proof fn law_credentials_fit(s: Seq<char>)
    ensures
        config::parse_proxy(s) matches Ok(p) ==> p.wf(),
{
}

/// The printed form is the same whatever the password is.
pub proof fn law_password_is_hidden(p: Proxy, user: Seq<char>, pass: Seq<char>, other: Seq<char>)
    requires
        p.auth == Some((user, pass)),
    ensures
        config::debug_form(p.addr, p.user()) == config::debug_form(
            p.addr,
            (Proxy { addr: p.addr, auth: Some((user, other)) }).user(),
        ),
{
}

/// The printed form of a configuration is the same whatever the password of its proxy
/// is.
pub proof fn law_configured_password_is_hidden(c: Config, d: Config, p: SocksProxy, q: SocksProxy)
    requires
        c.socks_proxy == Some(p),
        d.socks_proxy == Some(q),
        p@.addr == q@.addr,
        p@.user() == q@.user(),
        c.listen@ == d.listen@ && c.upstream@ == d.upstream@ && c.cert@ == d.cert@ && c.key@ == d.key@,
        c.path@ == d.path@ && c.socks_udp_fallback == d.socks_udp_fallback && c.cwnd == d.cwnd,
    ensures
        config::config_form(c) == config::config_form(d),
{
}

/// The last colon of `rest:port` is the one before the port.
proof fn lemma_last_colon(rest: Seq<char>, port: Seq<char>)
    requires
        text::port_number(port) is Some,
    ensures
        text::rfind(rest.push(':') + port, ':') == Some(rest.len() as int),
        (rest.push(':') + port).take(rest.len() as int) == rest,
        (rest.push(':') + port).skip(rest.len() as int + 1) == port,
{
    let s = rest.push(':') + port;
    text_proofs::lemma_port_free(port);
    assert(s.skip(rest.len() as int + 1) == port);
    assert(s.take(rest.len() as int) == rest);
    text_proofs::lemma_rfind_at(s, rest.len() as int, ':');
}

/// A credential takes 1 to 255 bytes.
pub proof fn law_credential(s: Seq<char>)
    ensures
        config::credential(s) <==> 1 <= vstd::utf8::encode_utf8(s).len() <= 255,
{
}

/// An address has a colon.
pub proof fn law_an_address_has_a_port(s: Seq<char>)
    requires
        text_proofs::free_of(s, ':'),
    ensures
        config::parse_proxy(s) == Err::<Proxy, ProxyFault>(ProxyFault::MissingPort),
{
    text_laws::law_rfind(s, ':', 0);
}

/// What follows the last colon is the port, and what is before it says who and where.
pub proof fn law_the_port_comes_last(rest: Seq<char>, port: Seq<char>)
    requires
        text_proofs::free_of(port, ':'),
    ensures
        ({
            let s = rest.push(':') + port;
            let r = config::parse_proxy(s);
            &&& text::port_number(port) is None <==> r == Err::<Proxy, ProxyFault>(ProxyFault::InvalidPort)
            &&& text::port_number(port) is Some && rest.len() == 0 ==> r == Err::<Proxy, ProxyFault>(
                ProxyFault::EmptyHost,
            )
            &&& text::port_number(port) is Some && rest.len() > 0 && (rest[0] == '[' || text_proofs::free_of(
                rest,
                ':',
            )) ==> r == Ok::<Proxy, ProxyFault>(Proxy { addr: s, auth: None })
            &&& text::port_number(port) is Some && rest.len() > 0 && rest[0] != '[' && !text_proofs::free_of(
                rest,
                ':',
            ) && rest.last() == ']' && (forall|i: int| !#[trigger] text_laws::pair_at(rest, ':', '[', i))
                ==> r == Err::<Proxy, ProxyFault>(ProxyFault::InvalidBrackets)
        }),
{
    let s = rest.push(':') + port;
    assert(s.skip(rest.len() as int + 1) == port);
    assert(s.take(rest.len() as int) == rest);
    text_proofs::lemma_rfind_at(s, rest.len() as int, ':');
    text_laws::law_find(rest, ':', 0);
    text_laws::law_rfind_pair(rest, ':', '[', 0);
    if rest.len() > 0 && rest.last() != ']' {
        text_laws::law_rfind(rest, ':', 0);
    }
}

/// `host` is what follows the credentials: after the last colon, or after the last colon
/// that a bracket follows where the text ends with a bracket.
pub open spec fn follows_credentials(host: Seq<char>) -> bool {
    if host.len() > 0 && host.last() == ']' {
        host[0] == '[' && forall|i: int| !#[trigger] text_laws::pair_at(host, ':', '[', i)
    } else {
        text_proofs::free_of(host, ':')
    }
}

/// An address with credentials: an empty host, credentials without a colon, and a user
/// name or a password of a length that does not fit are rejected in this order; all else
/// is taken as it is, but for the port, which is written anew.
pub proof fn law_credentials_come_first(creds: Seq<char>, host: Seq<char>, port: Seq<char>)
    requires
        text::port_number(port) is Some,
        creds.len() > 0 ==> creds[0] != '[',
        follows_credentials(host),
    ensures
        ({
            let r = config::parse_proxy(creds.push(':') + host.push(':') + port);
            let n = text::port_number(port)->0;
            &&& host.len() == 0 ==> r == Err::<Proxy, ProxyFault>(ProxyFault::EmptyHost)
            &&& host.len() > 0 && text_proofs::free_of(creds, ':') ==> r == Err::<Proxy, ProxyFault>(
                ProxyFault::InvalidCredentials,
            )
            &&& forall|user: Seq<char>, pass: Seq<char>|
                #![trigger user.push(':') + pass]
                host.len() > 0 && creds == user.push(':') + pass && text_proofs::free_of(user, ':') ==> r == (
                if !(1 <= vstd::utf8::encode_utf8(user).len() <= 255) {
                    Err::<Proxy, ProxyFault>(ProxyFault::UsernameLength)
                } else if !(1 <= vstd::utf8::encode_utf8(pass).len() <= 255) {
                    Err::<Proxy, ProxyFault>(ProxyFault::PasswordLength)
                } else {
                    Ok::<Proxy, ProxyFault>(
                        Proxy {
                            addr: host.push(':') + text::numeral(n, 10),
                            auth: Some((user, pass)),
                        },
                    )
                })
        }),
{
    let rest = creds.push(':') + host;
    let s = creds.push(':') + host.push(':') + port;
    let j = creds.len() as int;
    assert(s == rest.push(':') + port);
    lemma_last_colon(rest, port);
    assert(rest[j] == ':');
    assert(rest.take(j) == creds);
    assert(rest.skip(j + 1) == host);
    if creds.len() > 0 {
        assert(rest[0] == creds[0]);
    }
    assert(text::find(rest, ':') is Some) by {
        text_laws::law_find(rest, ':', 0);
    }
    if host.len() > 0 && host.last() == ']' {
        assert(rest.last() == ']');
        assert(text_laws::pair_at(rest, ':', '[', j));
        assert forall|i: int| i > j implies !#[trigger] text_laws::pair_at(rest, ':', '[', i) by {
            if text_laws::pair_at(rest, ':', '[', i) {
                assert(text_laws::pair_at(host, ':', '[', i - j - 1));
            }
        }
        text_laws::law_rfind_pair(rest, ':', '[', j);
    } else {
        text_proofs::lemma_rfind_at(rest, j, ':');
        if host.len() > 0 {
            assert(rest.last() == host.last());
        } else {
            assert(rest.last() == ':');
        }
    }
    assert(config::host_colon(rest) == Some(j));
    text_laws::law_find(creds, ':', 0);
    assert forall|user: Seq<char>, pass: Seq<char>|
        #![trigger user.push(':') + pass]
        host.len() > 0 && creds == user.push(':') + pass && text_proofs::free_of(user, ':') implies config::parse_proxy(
        s,
    ) == (if !(1 <= vstd::utf8::encode_utf8(user).len() <= 255) {
        Err::<Proxy, ProxyFault>(ProxyFault::UsernameLength)
    } else if !(1 <= vstd::utf8::encode_utf8(pass).len() <= 255) {
        Err::<Proxy, ProxyFault>(ProxyFault::PasswordLength)
    } else {
        Ok::<Proxy, ProxyFault>(
            Proxy {
                addr: host.push(':') + text::numeral(text::port_number(port)->0, 10),
                auth: Some((user, pass)),
            },
        )
    }) by {
        let k = user.len() as int;
        assert(creds.take(k) == user);
        assert(creds.skip(k + 1) == pass);
        text_proofs::lemma_find_at(creds, k, ':');
    }
}

/// The report holds the whole of the rejected address, unless it is about a length.
pub proof fn law_reports_hold_the_address(s: Seq<char>)
    ensures
        config::proxy_message(ProxyFault::MissingPort, s)
            == "invalid SOCKS5 proxy address (missing port): "@ + s,
        config::proxy_message(ProxyFault::InvalidPort, s) == "invalid port in SOCKS5 proxy address: "@ + s,
        config::proxy_message(ProxyFault::EmptyHost, s) == "empty host in SOCKS5 proxy address: "@ + s,
        config::proxy_message(ProxyFault::InvalidBrackets, s)
            == "invalid bracketed IPv6 in SOCKS5 proxy address: "@ + s,
        config::proxy_message(ProxyFault::InvalidCredentials, s)
            == "invalid credentials in SOCKS5 proxy address: "@ + s,
        config::proxy_message(ProxyFault::UsernameLength, s) == "SOCKS5 username must be 1-255 bytes"@,
        config::proxy_message(ProxyFault::PasswordLength, s) == "SOCKS5 password must be 1-255 bytes"@,
{
}

/// What is printed of a proxy: its address and its user name, and stars for the
/// password.
pub proof fn law_printed_proxy(addr: Seq<char>, user: Seq<char>, pass: Seq<char>)
    ensures
        config::debug_form(addr, None) == "SocksProxy { addr: "@ + config::quoted(addr) + ", auth: "@ + "None"@
            + " }"@,
        config::debug_form(addr, (Proxy { addr, auth: Some((user, pass)) }).user()) == "SocksProxy { addr: "@
            + config::quoted(addr) + ", auth: "@ + ("Some(("@ + config::quoted(user) + ", \"***\"))"@) + " }"@,
        (Proxy { addr, auth: None }).user() is None,
        (Proxy { addr, auth: Some((user, pass)) }).wf() <==> config::credential(user) && config::credential(
            pass,
        ),
{
}

/// What is printed of a configuration: all its fields in order, the proxy as it is
/// printed by itself.
pub proof fn law_printed_configuration(c: Config, proxy: Seq<char>, cwnd: Seq<char>)
    requires
        match c.socks_proxy {
            None => proxy == "None"@,
            Some(p) => proxy == "Some("@ + config::debug_form(p@.addr, p@.user()) + ")"@,
        },
        match c.cwnd {
            None => cwnd == "None"@,
            Some(n) => cwnd == "Some("@ + text::numeral(n as nat, 10) + ")"@,
        },
    ensures
        config::config_form(c) == "Config { listen: "@ + config::quoted(c.listen@) + ", upstream: "@
            + config::quoted(c.upstream@) + ", cert: "@ + config::quoted(c.cert@) + ", key: "@
            + config::quoted(c.key@) + ", path: "@ + config::quoted(c.path@) + ", socks_proxy: "@ + proxy
            + ", socks_udp_fallback: "@ + (if c.socks_udp_fallback {
            "true"@
        } else {
            "false"@
        }) + ", cwnd: "@ + cwnd + " }"@,
{
}

} // verus!
