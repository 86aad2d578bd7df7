//! Endpoints, IP addresses and the upstream server.

use wtproxy::endpoint::{endpoint_host_port, unbracket, EndpointFault};
use wtproxy::ip::{ip_of, socket_of, IpAddress};
use wtproxy::text::chars_of;
use wtproxy::upstream::{
    redirect_target, redirect_uri, target_of, upstream_target, UpstreamError, UriParts,
};

#[test]
fn unbrackets_ipv6_literals() {
    assert_eq!(unbracket("[::1]"), "::1");
    assert_eq!(unbracket("[2001:db8::1]"), "2001:db8::1");
    assert_eq!(unbracket("example.com"), "example.com");
    assert_eq!(unbracket("127.0.0.1"), "127.0.0.1");
}

#[test]
fn unbrackets_as_far_as_there_are_brackets() {
    assert_eq!(unbracket(""), "");
    assert_eq!(unbracket("[[x]]"), "x");
    assert_eq!(unbracket("]x["), "]x[");
    assert_eq!(unbracket("[]"), "");
}

fn split(endpoint: &str) -> (String, u16) {
    endpoint_host_port(endpoint).unwrap()
}

#[test]
fn splits_endpoints() {
    assert_eq!(split("example.com:443"), ("example.com".to_owned(), 443));
    assert_eq!(split("127.0.0.1:80"), ("127.0.0.1".to_owned(), 80));
    assert_eq!(split("[::1]:443"), ("::1".to_owned(), 443));
    // An address comes out in its shortest form.
    assert_eq!(
        split("[2001:DB8:0:0:0:0:0:1]:53"),
        ("2001:db8::1".to_owned(), 53)
    );
    // What is no address is split at the last colon.
    assert_eq!(split("::1:443"), ("::1".to_owned(), 443));
    assert_eq!(split("[name]:1"), ("name".to_owned(), 1));
    assert_eq!(split("127.0.0.01:80"), ("127.0.0.01".to_owned(), 80));
    assert_eq!(split(":80"), ("".to_owned(), 80));
    assert_eq!(split("a:+80"), ("a".to_owned(), 80));
}

#[test]
fn names_the_fault_of_an_endpoint() {
    let e = endpoint_host_port("example.com").unwrap_err();
    assert_eq!(e.fault, EndpointFault::Format);
    assert_eq!(e.message(), "Invalid endpoint format: example.com");
    let e = endpoint_host_port("example.com:http").unwrap_err();
    assert_eq!(e.fault, EndpointFault::Port);
    assert_eq!(e.message(), "Invalid port in endpoint: example.com:http");
    let e = endpoint_host_port("1.2.3.4:65536").unwrap_err();
    assert_eq!(e.fault, EndpointFault::Port);
}

fn ip(s: &str) -> Option<IpAddress> {
    ip_of(chars_of(s).as_slice())
}

#[test]
fn reads_ip_addresses() {
    assert_eq!(ip("1.2.3.4"), Some(IpAddress::V4([1, 2, 3, 4])));
    assert_eq!(ip("::"), Some(IpAddress::V6([0; 8])));
    assert_eq!(
        ip("1:2:3:4:5:6:7:8"),
        Some(IpAddress::V6([1, 2, 3, 4, 5, 6, 7, 8]))
    );
    assert_eq!(
        ip("fe80::abcd"),
        Some(IpAddress::V6([0xfe80, 0, 0, 0, 0, 0, 0, 0xabcd]))
    );
    assert_eq!(
        ip("::ffff:1.2.3.4"),
        Some(IpAddress::V6([0, 0, 0, 0, 0, 0xffff, 0x0102, 0x0304]))
    );
    assert_eq!(
        ip("1:2:3:4:5:6:1.2.3.4"),
        Some(IpAddress::V6([1, 2, 3, 4, 5, 6, 0x0102, 0x0304]))
    );
    assert_eq!(
        ip("1::8"),
        Some(IpAddress::V6([1, 0, 0, 0, 0, 0, 0, 8]))
    );
    assert_eq!(ip("1::"), Some(IpAddress::V6([1, 0, 0, 0, 0, 0, 0, 0])));
}

#[test]
fn rejects_what_is_no_ip_address() {
    for s in [
        "",
        "1.2.3",
        "1.2.3.4.5",
        "256.1.1.1",
        "1.2.3.04",
        "1.2.3.",
        " 1.2.3.4",
        "1:2:3:4:5:6:7",
        "1:2:3:4:5:6:7:8:9",
        "1::2::3",
        ":::",
        ":1",
        "1:",
        "12345::",
        "g::",
        "1:2:3:4:5:6:7:1.2.3.4",
        "::1.2.3",
        "1.2.3.4::",
        "fe80::1%1",
        "+1::",
    ] {
        assert_eq!(ip(s), None, "{}", s);
    }
}

/// Texts that are addresses or nearly so read as the standard library reads them.
#[test]
fn reads_what_the_standard_library_reads() {
    for s in [
        "1.2.3.4", "0.0.0.0", "255.255.255.255", "1.2.3.4.", "01.2.3.4", "1.2.3.0", "1.2.3.00",
        "::", "::1", "1::", "1:2:3:4:5:6:7:8", "1:2:3:4:5:6:7::", "::2:3:4:5:6:7:8", "1::3:4:5:6:7:8",
        "1:2:3:4::5:6:7:8", "::1.2.3.4", "::ffff:0:0", "64:ff9b::1.2.3.4", "1:2:3:4:5:6:7.7.7.7",
        "0001::", "00001::", "abcd:EF01::", ":", "1", "1:2", "::1:", "1:::2", "::1.2.3.4:5",
        "1.2.3.4:5::", "::1.2.3.256", "[::1]", "%", "::%0", "a.b.c.d",
    ] {
        let expected: Option<core::net::IpAddr> = s.parse().ok();
        let text = ip(s).map(|a| a.to_text());
        assert_eq!(text, expected.map(|a| a.to_string()), "{}", s);
    }
}

#[test]
fn writes_ip_addresses_in_short() {
    for (groups, text) in [
        ([0, 0, 0, 0, 0, 0, 0, 0], "::"),
        ([0, 0, 0, 0, 0, 0, 0, 1], "::1"),
        ([1, 0, 0, 0, 0, 0, 0, 0], "1::"),
        ([1, 0, 0, 2, 0, 0, 0, 3], "1:0:0:2::3"),
        ([1, 0, 0, 2, 3, 0, 0, 4], "1::2:3:0:0:4"),
        ([1, 0, 2, 0, 3, 0, 4, 0], "1:0:2:0:3:0:4:0"),
        ([0, 0, 0, 0, 0, 0xffff, 0x0a00, 0x0001], "::ffff:10.0.0.1"),
        ([0x2001, 0xdb8, 0, 0, 0, 0, 0, 0xabcd], "2001:db8::abcd"),
        ([0xffff; 8], "ffff:ffff:ffff:ffff:ffff:ffff:ffff:ffff"),
    ] {
        let a = IpAddress::V6(groups);
        assert_eq!(a.to_text(), text);
        assert_eq!(ip(text), Some(a));
    }
    assert_eq!(IpAddress::V4([10, 0, 200, 255]).to_text(), "10.0.200.255");
}

#[test]
fn reads_socket_addresses() {
    let read = |s: &str| socket_of(chars_of(s).as_slice()).map(|a| (a.ip.to_text(), a.port));
    assert_eq!(read("1.2.3.4:80"), Some(("1.2.3.4".to_owned(), 80)));
    assert_eq!(read("[::1]:65535"), Some(("::1".to_owned(), 65535)));
    assert_eq!(read("[fe80::1%7]:1"), Some(("fe80::1".to_owned(), 1)));
    for s in ["1.2.3.4", "1.2.3.4:", "1.2.3.4:65536", "::1:80", "[::1]", "[::1]80", "[1.2.3.4]:80"] {
        assert_eq!(read(s), None, "{}", s);
    }
}

fn target(upstream: &str) -> (String, u16) {
    match upstream_target(upstream) {
        Ok(target) => target,
        Err(UpstreamError::Invalid(e)) => panic!("{}", e),
        Err(UpstreamError::NoHost) => panic!("no host"),
    }
}

#[test]
fn finds_the_upstream_server() {
    assert_eq!(target("http://127.0.0.1:8080"), ("127.0.0.1".to_owned(), 8080));
    assert_eq!(target("http://example.com/"), ("example.com".to_owned(), 80));
    assert_eq!(target("http://[::1]:8080"), ("::1".to_owned(), 8080));
    assert_eq!(target("https://example.com"), ("example.com".to_owned(), 80));
}

#[test]
fn an_upstream_server_needs_a_host() {
    assert!(matches!(upstream_target("/path"), Err(UpstreamError::NoHost)));
    assert!(matches!(
        upstream_target("http://a b/"),
        Err(UpstreamError::Invalid(_))
    ));
    assert!(matches!(upstream_target(""), Err(UpstreamError::Invalid(_))));
}

#[test]
fn the_parts_of_a_uri_say_where_to_connect() {
    let parts = |host: Option<&str>, port: Option<u16>| UriParts {
        host: host.map(|h| h.to_owned()),
        port,
    };
    assert_eq!(
        target_of(&parts(Some("[::1]"), None)),
        Some(("::1".to_owned(), 80))
    );
    assert_eq!(
        target_of(&parts(Some("h"), Some(1))),
        Some(("h".to_owned(), 1))
    );
    assert_eq!(target_of(&parts(None, Some(1))), None);
}

#[test]
fn redirects_requests() {
    assert_eq!(
        redirect_target("http://127.0.0.1:80/", Some("/a?b=c")),
        "http://127.0.0.1:80/a?b=c"
    );
    assert_eq!(
        redirect_target("http://127.0.0.1:80//", Some("/")),
        "http://127.0.0.1:80/"
    );
    assert_eq!(
        redirect_target("http://127.0.0.1:80", None),
        "http://127.0.0.1:80"
    );
    assert_eq!(
        redirect_uri("http://h/base/", Some("/a")).unwrap(),
        "http://h/base/a"
    );
    assert!(redirect_uri("http://a b", Some("/a")).is_err());
    assert!(redirect_uri("", None).is_err());
}
