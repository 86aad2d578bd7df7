//! Proxy addresses and the configuration.

use wtproxy::config::{Config, ConfigFields, ProxyError, ProxyFault, SocksProxy};

fn fault(s: &str) -> ProxyFault {
    match SocksProxy::parse(s) {
        Ok(_) => panic!("{} was accepted", s),
        Err(e) => {
            assert_eq!(e.input, s);
            e.fault
        }
    }
}

fn message(s: &str) -> String {
    match SocksProxy::parse(s) {
        Ok(_) => panic!("{} was accepted", s),
        Err(e) => e.message(),
    }
}

fn parsed(s: &str) -> SocksProxy {
    match SocksProxy::parse(s) {
        Ok(p) => p,
        Err(e) => panic!("{}", e.message()),
    }
}

#[test]
fn parses_plain_host_port_without_auth() {
    let p = parsed("1.2.3.4:1080");
    assert_eq!(p.addr, "1.2.3.4:1080");
    assert!(p.auth().is_none());
    let p = parsed("example.com:1080");
    assert_eq!(p.addr, "example.com:1080");
    assert!(p.auth().is_none());
}

#[test]
fn parses_bracketed_ipv6_without_auth() {
    let p = parsed("[::1]:1080");
    assert_eq!(p.addr, "[::1]:1080");
    assert!(p.auth().is_none());
}

#[test]
fn parses_auth_with_domain_and_ipv4() {
    let p = parsed("user:pass:example.com:1080");
    assert_eq!(p.addr, "example.com:1080");
    assert_eq!(p.auth(), Some(("user", "pass")));
}

#[test]
fn parses_auth_with_bracketed_ipv6() {
    let p = parsed("user:pass:[::1]:1080");
    assert_eq!(p.addr, "[::1]:1080");
    assert_eq!(p.auth(), Some(("user", "pass")));
}

#[test]
fn password_may_contain_colons() {
    let p = parsed("user:p:a:s:s:host:1080");
    assert_eq!(p.addr, "host:1080");
    assert_eq!(p.auth(), Some(("user", "p:a:s:s")));
}

#[test]
fn rejects_malformed_addresses() {
    assert!(SocksProxy::parse("example.com").is_err());
    assert!(SocksProxy::parse("example.com:abc").is_err());
    assert!(SocksProxy::parse(":1080").is_err());
    assert!(SocksProxy::parse(":pass:host:1080").is_err());
    assert!(SocksProxy::parse("user::host:1080").is_err());
    assert!(SocksProxy::parse("userpass:host:1080").is_err());
}

#[test]
fn rejects_overlong_credentials() {
    let user = "u".repeat(256);
    assert!(SocksProxy::parse(format!("{user}:p:host:1080").as_str()).is_err());
    let pass = "p".repeat(256);
    assert!(SocksProxy::parse(format!("u:{pass}:host:1080").as_str()).is_err());
    let user = "u".repeat(255);
    assert!(SocksProxy::parse(format!("{user}:p:host:1080").as_str()).is_ok());
}

#[test]
fn debug_hides_password() {
    let p = parsed("user:secret:host:1080");
    let dbg = p.debug_text();
    assert!(!dbg.contains("secret"));
    assert!(dbg.contains("***"));
}

#[test]
fn debug_text_in_full() {
    let p = parsed("user:secret:host:1080");
    assert_eq!(
        p.debug_text(),
        "SocksProxy { addr: \"host:1080\", auth: Some((\"user\", \"***\")) }"
    );
    let p = parsed("a\"b:1");
    assert_eq!(
        p.debug_text(),
        "SocksProxy { addr: \"a\\\"b:1\", auth: None }"
    );
}

#[test]
fn passwords_make_no_difference_to_the_debug_text() {
    assert_eq!(
        parsed("user:one:host:1080").debug_text(),
        parsed("user:two:host:1080").debug_text()
    );
}

#[test]
fn names_the_fault_of_an_address() {
    assert_eq!(fault("example.com"), ProxyFault::MissingPort);
    assert_eq!(fault(""), ProxyFault::MissingPort);
    assert_eq!(fault("example.com:abc"), ProxyFault::InvalidPort);
    assert_eq!(fault("example.com:65536"), ProxyFault::InvalidPort);
    assert_eq!(fault("example.com:"), ProxyFault::InvalidPort);
    assert_eq!(fault("example.com:-1"), ProxyFault::InvalidPort);
    assert_eq!(fault(":1080"), ProxyFault::EmptyHost);
    assert_eq!(fault("user:pass::1080"), ProxyFault::EmptyHost);
    assert_eq!(fault("user:pass]:1080"), ProxyFault::InvalidBrackets);
    assert_eq!(fault("userpass:host:1080"), ProxyFault::InvalidCredentials);
    assert_eq!(fault(":pass:host:1080"), ProxyFault::UsernameLength);
    assert_eq!(fault("user::host:1080"), ProxyFault::PasswordLength);
}

#[test]
fn reports_the_fault_of_an_address() {
    assert_eq!(
        message("example.com"),
        "invalid SOCKS5 proxy address (missing port): example.com"
    );
    assert_eq!(
        message("h:x"),
        "invalid port in SOCKS5 proxy address: h:x"
    );
    assert_eq!(message(":1"), "empty host in SOCKS5 proxy address: :1");
    assert_eq!(
        message("u:p]:1"),
        "invalid bracketed IPv6 in SOCKS5 proxy address: u:p]:1"
    );
    assert_eq!(
        message("up:h:1"),
        "invalid credentials in SOCKS5 proxy address: up:h:1"
    );
    assert_eq!(message(":p:h:1"), "SOCKS5 username must be 1-255 bytes");
    assert_eq!(message("u::h:1"), "SOCKS5 password must be 1-255 bytes");
}

#[test]
fn ports_are_written_without_sign_and_zeros() {
    // A plain address stays as it was written; one with credentials is put
    // together again.
    assert_eq!(parsed("host:+0080").addr, "host:+0080");
    assert_eq!(parsed("u:p:host:+0080").addr, "host:80");
    assert_eq!(parsed("u:p:host:0").addr, "host:0");
    assert_eq!(parsed("u:p:host:65535").addr, "host:65535");
}

#[test]
fn lengths_are_counted_in_bytes() {
    let user = "\u{e9}".repeat(128);
    assert_eq!(fault(&format!("{user}:p:host:1")), ProxyFault::UsernameLength);
    let user = "\u{e9}".repeat(127);
    assert_eq!(
        parsed(&format!("{user}:p:host:1")).auth(),
        Some((user.as_str(), "p"))
    );
}

#[test]
fn a_user_name_may_not_begin_with_a_bracket() {
    let p = parsed("[u:p:host:1");
    assert_eq!(p.addr, "[u:p:host:1");
    assert!(p.auth().is_none());
}

/// Reads the fields of a configuration out of a TOML document.
fn from_toml(text: &str) -> Result<Config, ProxyError> {
    let table: toml::Table = text.parse().unwrap();
    let field = |name: &str| table.get(name).and_then(|v| v.as_str()).map(|s| s.to_owned());
    Config::from_fields(ConfigFields {
        listen: field("listen").unwrap(),
        upstream: field("upstream").unwrap(),
        cert: field("cert").unwrap(),
        key: field("key").unwrap(),
        path: field("path").unwrap(),
        socks_proxy: field("socks_proxy"),
        socks_udp_fallback: table.get("socks_udp_fallback").and_then(|v| v.as_bool()),
        cwnd: table
            .get("cwnd")
            .and_then(|v| v.as_integer())
            .map(|n| n as u64),
    })
}

#[test]
fn toml_deserialization_fails_fast_on_bad_proxy() {
    let bad = r#"
            listen = "127.0.0.1:443"
            upstream = "http://127.0.0.1:80"
            cert = "c.pem"
            key = "k.pem"
            path = "/"
            socks_proxy = "user:pass:noport"
        "#;
    assert!(from_toml(bad).is_err());
}

#[test]
fn udp_fallback_defaults_to_false() {
    let minimal = r#"
            listen = "127.0.0.1:443"
            upstream = "http://127.0.0.1:80"
            cert = "c.pem"
            key = "k.pem"
            path = "/"
        "#;
    match from_toml(minimal) {
        Ok(config) => {
            assert!(!config.socks_udp_fallback);
            assert!(config.socks_proxy.is_none());
            assert_eq!(config.cwnd, None);
        }
        Err(e) => panic!("{}", e.message()),
    }
}

#[test]
fn udp_fallback_parses_true() {
    let with_flag = r#"
            listen = "127.0.0.1:443"
            upstream = "http://127.0.0.1:80"
            cert = "c.pem"
            key = "k.pem"
            path = "/"
            socks_udp_fallback = true
        "#;
    match from_toml(with_flag) {
        Ok(config) => assert!(config.socks_udp_fallback),
        Err(e) => panic!("{}", e.message()),
    }
}

#[test]
fn a_configuration_keeps_its_fields() {
    let full = r#"
            listen = "127.0.0.1:443"
            upstream = "http://127.0.0.1:80"
            cert = "c.pem"
            key = "k.pem"
            path = "/wt"
            socks_proxy = "user:pass:host:1080"
            socks_udp_fallback = false
            cwnd = 7
        "#;
    match from_toml(full) {
        Ok(config) => {
            assert_eq!(config.listen, "127.0.0.1:443");
            assert_eq!(config.upstream, "http://127.0.0.1:80");
            assert_eq!(config.cert, "c.pem");
            assert_eq!(config.key, "k.pem");
            assert_eq!(config.path, "/wt");
            assert_eq!(config.cwnd, Some(7));
            assert!(!config.socks_udp_fallback);
            let proxy = config.socks_proxy.unwrap();
            assert_eq!(proxy.address(), "host:1080");
            assert_eq!(proxy.auth(), Some(("user", "pass")));
        }
        Err(e) => panic!("{}", e.message()),
    }
}

fn config_with(proxy: Option<&str>, fallback: bool, cwnd: Option<u64>) -> Config {
    Config {
        listen: "127.0.0.1:443".to_owned(),
        upstream: "http://127.0.0.1:80".to_owned(),
        cert: "c.pem".to_owned(),
        key: "k.pem".to_owned(),
        path: "/\"wt\"".to_owned(),
        socks_proxy: proxy.map(parsed),
        socks_udp_fallback: fallback,
        cwnd,
    }
}

#[test]
fn the_debug_text_of_a_configuration_in_full() {
    assert_eq!(
        config_with(None, false, None).debug_text(),
        "Config { listen: \"127.0.0.1:443\", upstream: \"http://127.0.0.1:80\", cert: \"c.pem\", \
         key: \"k.pem\", path: \"/\\\"wt\\\"\", socks_proxy: None, socks_udp_fallback: false, cwnd: None }"
    );
    assert_eq!(
        config_with(Some("user:secret:host:1080"), true, Some(u64::MAX)).debug_text(),
        "Config { listen: \"127.0.0.1:443\", upstream: \"http://127.0.0.1:80\", cert: \"c.pem\", \
         key: \"k.pem\", path: \"/\\\"wt\\\"\", \
         socks_proxy: Some(SocksProxy { addr: \"host:1080\", auth: Some((\"user\", \"***\")) }), \
         socks_udp_fallback: true, cwnd: Some(18446744073709551615) }"
    );
}

#[test]
fn the_debug_text_of_a_configuration_hides_the_password() {
    let one = config_with(Some("user:secret:host:1080"), false, Some(7)).debug_text();
    let two = config_with(Some("user:other:host:1080"), false, Some(7)).debug_text();
    assert!(!one.contains("secret"));
    assert!(one.contains("***"));
    assert_eq!(one, two);
}
