//! Connections, sessions and their routes.

use wtproxy::client::{Command, Next};
use wtproxy::config::{Config, SocksProxy};
use wtproxy::connection::{
    settings_wait, Action, Connection, Event, RequestHead, Seen, Stage, Wait,
};
use wtproxy::endpoint::EndpointFault;
use wtproxy::headers::RequestError;
use wtproxy::ip::socket_of;
use wtproxy::session::{
    check_found, on_accepted, session_kind, tcp_route, Accepted, DialFault, Serve, SessionKind,
    TcpRoute,
};
use wtproxy::socks5::Socks5Error;
use wtproxy::text::chars_of;
use wtproxy::udp::{
    bind_address, control_report, falls_back, udp_route, Candidates, Control, Relay, RelayAction,
    RelayEnd, RelayEvent, UdpRoute,
};

fn head(method: &str, protocol: Option<&str>, path: &str) -> RequestHead {
    RequestHead {
        method: method.to_owned(),
        protocol: protocol.map(|p| p.to_owned()),
        path: path.to_owned(),
    }
}

fn session_request() -> http::HeaderMap {
    let mut headers = http::HeaderMap::new();
    headers.insert("proxy-protocol", http::HeaderValue::from_static("tcp"));
    headers.insert("proxy-endpoint", http::HeaderValue::from_static("h:1"));
    headers
}

fn config(proxy: Option<&str>, fallback: bool) -> Config {
    Config {
        listen: "127.0.0.1:443".to_owned(),
        upstream: "http://127.0.0.1:80".to_owned(),
        cert: "c.pem".to_owned(),
        key: "k.pem".to_owned(),
        path: "/wt".to_owned(),
        socks_proxy: proxy.map(|s| match SocksProxy::parse(s) {
            Ok(p) => p,
            Err(e) => panic!("{}", e.message()),
        }),
        socks_udp_fallback: fallback,
        cwnd: None,
    }
}

#[test]
fn only_webtransport_at_the_path_opens_a_session() {
    assert!(head("CONNECT", Some("webtransport"), "/wt").opens_session("/wt"));
    assert!(!head("GET", Some("webtransport"), "/wt").opens_session("/wt"));
    assert!(!head("CONNECT", Some("connect-udp"), "/wt").opens_session("/wt"));
    assert!(!head("CONNECT", None, "/wt").opens_session("/wt"));
    assert!(!head("CONNECT", Some("webtransport"), "/wt/").opens_session("/wt"));
}

#[test]
fn a_connection_serves_requests_until_a_session_takes_it_over() {
    let mut c = Connection::new("/wt");
    let none = http::HeaderMap::new();
    assert_eq!(c.on_request(&head("GET", None, "/"), &none), Action::Redirect);
    assert_eq!(c.on_request(&head("GET", None, "/wt"), &none), Action::Redirect);
    assert_eq!(c.stage, Stage::Accepting);
    let session = head("CONNECT", Some("webtransport"), "/wt");
    assert_eq!(
        c.on_request(&session, &session_request()),
        Action::AwaitSettings {
            protocol: "tcp".to_owned(),
            endpoint: "h:1".to_owned()
        }
    );
    assert_eq!(c.stage, Stage::Settling);
    assert_eq!(c.on_event(Event::Settled), Action::OpenSession);
    assert_eq!(c.stage, Stage::Serving);
    assert_eq!(c.on_event(Event::SessionEnded), Action::Finish);
    assert_eq!(c.stage, Stage::Over);
}

#[test]
fn a_session_without_its_headers_ends_the_connection() {
    let mut c = Connection::new("/wt");
    let session = head("CONNECT", Some("webtransport"), "/wt");
    assert_eq!(
        c.on_request(&session, &http::HeaderMap::new()),
        Action::Refuse(RequestError::MissingProtocol)
    );
    assert_eq!(c.stage, Stage::Over);
}

#[test]
fn a_connection_ends() {
    for (event, action) in [
        (Event::Closed, Action::Finish),
        (Event::AcceptFailed, Action::Finish),
        (Event::Unreadable, Action::Fail),
    ] {
        let mut c = Connection::new("/wt");
        assert_eq!(c.on_event(event), action);
        assert_eq!(c.stage, Stage::Over);
    }
    let mut c = Connection {
        stage: Stage::Settling,
        path: "/wt".to_owned(),
    };
    assert_eq!(c.on_event(Event::SettingsLate), Action::Finish);
    assert_eq!(c.stage, Stage::Over);
    let mut c = Connection {
        stage: Stage::Serving,
        path: "/wt".to_owned(),
    };
    assert_eq!(c.on_event(Event::SessionFailed), Action::Fail);
    assert_eq!(c.stage, Stage::Over);
}

#[test]
fn settings_are_looked_at_after_each_frame() {
    assert_eq!(
        settings_wait(Seen::Settings { webtransport: true }),
        Wait::Proceed
    );
    assert_eq!(
        settings_wait(Seen::Settings {
            webtransport: false
        }),
        Wait::Read
    );
    assert_eq!(settings_wait(Seen::Frame), Wait::Look);
    assert_eq!(settings_wait(Seen::Broken), Wait::Proceed);
    assert_eq!(settings_wait(Seen::Nothing), Wait::Suspend);
}

#[test]
fn sessions_carry_tcp_or_udp() {
    assert_eq!(session_kind("tcp"), Ok(SessionKind::Tcp));
    assert_eq!(session_kind("udp"), Ok(SessionKind::Udp));
    for other in ["", "TCP", "icmp"] {
        let e = session_kind(other).unwrap_err();
        assert_eq!(e.message(), format!("unknown proxy-protocol: {other}"));
    }
}

#[test]
fn tcp_sessions_serve_streams_until_they_end() {
    assert_eq!(on_accepted(Accepted::Stream), Serve::Connect);
    assert_eq!(on_accepted(Accepted::Other), Serve::Skip);
    assert_eq!(on_accepted(Accepted::Closed), Serve::Stop);
    assert_eq!(on_accepted(Accepted::Failed), Serve::Stop);
}

#[test]
fn tcp_goes_through_the_proxy_with_the_name_of_the_target() {
    let config = config(Some("user:pass:proxy:1080"), false);
    match tcp_route(&config, "example.com:443") {
        Ok(TcpRoute::Proxied {
            address,
            exchange,
            first,
        }) => {
            assert_eq!(address, "proxy:1080");
            assert_eq!(exchange.command, Command::Connect);
            assert_eq!(exchange.host, "example.com");
            assert_eq!(exchange.port, 443);
            assert_eq!(
                exchange.auth,
                Some(("user".to_owned(), "pass".to_owned()))
            );
            assert_eq!(first.send, [5, 1, 2]);
            assert_eq!(first.next, Next::Read(2));
        }
        _ => panic!("not through the proxy"),
    }
    match tcp_route(&config, "example.com") {
        Err(e) => assert_eq!(e.fault, EndpointFault::Format),
        Ok(_) => panic!("accepted"),
    }
}

#[test]
fn tcp_goes_direct_without_a_proxy() {
    assert!(matches!(
        tcp_route(&config(None, false), "no colon"),
        Ok(TcpRoute::Direct)
    ));
}

#[test]
fn targets_need_an_address() {
    assert_eq!(check_found(0), Err(DialFault::NoAddress));
    assert_eq!(check_found(1), Ok(()));
    assert_eq!(
        DialFault::NoAddress.message("h:1"),
        "No address resolved for endpoint: h:1"
    );
    assert_eq!(
        DialFault::Lookup.message("h:1"),
        "Failed to resolve endpoint: h:1"
    );
    assert_eq!(
        DialFault::Connect.message("h:1"),
        "Failed to connect to upstream addr: h:1"
    );
}

#[test]
fn udp_asks_the_proxy_for_a_relay() {
    match udp_route(&config(Some("proxy:1080"), false)) {
        UdpRoute::Associate {
            address,
            exchange,
            first,
        } => {
            assert_eq!(address, "proxy:1080");
            assert_eq!(exchange.command, Command::UdpAssociate);
            assert_eq!(exchange.host, "0.0.0.0");
            assert_eq!(exchange.port, 0);
            assert_eq!(exchange.auth, None);
            assert_eq!(first.send, [5, 1, 0]);
        }
        UdpRoute::Direct => panic!("not through the proxy"),
    }
    assert!(matches!(
        udp_route(&config(None, false)),
        UdpRoute::Direct
    ));
}

#[test]
fn only_an_allowed_rejection_falls_back() {
    let allowed = config(Some("proxy:1080"), true);
    let denied = config(Some("proxy:1080"), false);
    assert!(falls_back(&allowed, Socks5Error::Rejected(7)));
    assert!(falls_back(&allowed, Socks5Error::Rejected(9)));
    assert!(!falls_back(&denied, Socks5Error::Rejected(7)));
    for e in [
        Socks5Error::UserPassRefused,
        Socks5Error::NoAuthRefused,
        Socks5Error::AuthRejected(1),
        Socks5Error::ReplyHeader,
        Socks5Error::ReplyDomain,
    ] {
        assert!(!falls_back(&allowed, e));
    }
}

#[test]
fn sockets_are_bound_to_the_family_of_the_target() {
    for ipv6 in [false, true] {
        let bound = socket_of(chars_of(bind_address(ipv6)).as_slice()).unwrap();
        assert_eq!(bound.ip.is_ipv6(), ipv6);
        assert!(bound.ip.is_unspecified());
        assert_eq!(bound.port, 0);
    }
}

#[test]
fn a_relay_ends_with_its_control_connection() {
    assert_eq!(
        control_report(Control::Data),
        Some("unexpected data on SOCKS5 UDP control connection")
    );
    assert_eq!(
        control_report(Control::End),
        Some("SOCKS5 UDP control connection closed")
    );
    assert_eq!(control_report(Control::Broken), None);
}

#[test]
fn addresses_are_tried_in_turn() {
    assert!(matches!(
        Candidates::new(vec![]),
        Err(DialFault::NoAddress)
    ));
    let c = match Candidates::new(vec![true, false]) {
        Ok(c) => c,
        Err(_) => panic!("there are addresses"),
    };
    assert_eq!(
        c.give_up("h:1"),
        "Failed to connect UDP to endpoint h:1: no candidate address"
    );
    assert_eq!(c.pending(), Some((0, "[::]:0")));
    let c = c.failed("first".to_owned());
    assert_eq!(c.pending(), Some((1, "0.0.0.0:0")));
    let c = c.failed("second".to_owned());
    assert_eq!(c.pending(), None);
    assert_eq!(
        c.give_up("h:1"),
        "Failed to connect UDP to endpoint h:1: second"
    );
}

#[test]
fn a_relay_packs_and_unpacks() {
    let mut relay = match Relay::new("1.2.3.4:5") {
        Ok(relay) => relay,
        Err(e) => panic!("{}", e.message()),
    };
    assert!(matches!(
        relay.on_event(RelayEvent::Datagram(b"hi")),
        RelayAction::Send
    ));
    assert_eq!(relay.packet, [0, 0, 0, 1, 1, 2, 3, 4, 0, 5, b'h', b'i']);
    let packet = relay.packet.clone();
    match relay.on_event(RelayEvent::Packet(&packet)) {
        RelayAction::Deliver(payload) => assert_eq!(payload, b"hi"),
        _ => panic!("not delivered"),
    }
    assert_eq!(relay.packet, packet);
}

fn end(action: RelayAction) -> RelayEnd {
    match action {
        RelayAction::Stop(end) => end,
        _ => panic!("the relay goes on"),
    }
}

#[test]
fn a_relay_ends_on_what_it_cannot_handle() {
    assert_eq!(
        Relay::new("nowhere").map(|_| ()).unwrap_err().fault,
        EndpointFault::Format
    );
    let mut relay = match Relay::new(":80") {
        Ok(relay) => relay,
        Err(e) => panic!("{}", e.message()),
    };
    let e = end(relay.on_event(RelayEvent::Datagram(b"hi")));
    assert_eq!(e, RelayEnd::Target(Socks5Error::EmptyDomain));
    assert_eq!(relay.packet, [0, 0, 0]);
    assert_eq!(e.message(), Some("empty SOCKS5 domain".to_owned()));
    let e = end(relay.on_event(RelayEvent::Packet(&[0])));
    assert_eq!(e.message(), Some("invalid SOCKS5 UDP header".to_owned()));
    let e = end(relay.on_event(RelayEvent::Control(Control::Data)));
    assert_eq!(
        e.message(),
        Some("unexpected data on SOCKS5 UDP control connection".to_owned())
    );
    let e = end(relay.on_event(RelayEvent::Control(Control::End)));
    assert_eq!(
        e.message(),
        Some("SOCKS5 UDP control connection closed".to_owned())
    );
    let e = end(relay.on_event(RelayEvent::Control(Control::Broken)));
    assert_eq!(e.message(), None);
}

#[test]
fn names_and_addresses_reach_the_proxy() {
    let config = config(Some("proxy:1080"), false);
    for (endpoint, request) in [
        (
            "a.io:80",
            vec![5, 1, 0, 3, 4, b'a', b'.', b'i', b'o', 0, 80],
        ),
        ("1.2.3.4:80", vec![5, 1, 0, 1, 1, 2, 3, 4, 0, 80]),
        (
            "[::1]:80",
            vec![5, 1, 0, 4, 0, 0, 0, 0, 0, 0, 0, 0, 0, 0, 0, 0, 0, 0, 0, 1, 0, 80],
        ),
    ] {
        match tcp_route(&config, endpoint) {
            Ok(TcpRoute::Proxied { mut exchange, .. }) => {
                assert_eq!(exchange.advance(&[5, 0]).send, request);
            }
            _ => panic!("not through the proxy"),
        }
    }
}
