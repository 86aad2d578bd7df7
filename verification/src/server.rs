//! The settings of the server, and how it starts and stops serving connections.

use vstd::prelude::*;
use vstd::string::*;

verus! {

/// How many WebTransport sessions a connection offers: the first one takes the
/// connection over.
pub const MAX_SESSIONS: u64 = 1;

/// How much early data a QUIC connection may carry.
pub const MAX_EARLY_DATA: u32 = 0xffff_ffff;

/// How many seconds the connection to a SOCKS5 proxy may take.
pub const PROXY_CONNECT_SECS: u64 = 10;

/// After how many idle seconds a connection to a SOCKS5 proxy is probed, and how
/// far the probes are apart.
pub const PROXY_PROBE_SECS: u64 = 60;

/// How many probes go unanswered before the connection counts as lost.
pub const PROXY_PROBES: u32 = 5;

/// How many seconds connections have to end when the server stops.
pub const SHUTDOWN_SECS: u64 = 30;

/// The settings of the QUIC transport.
#[derive(Clone, Copy, Debug, PartialEq, Eq)]
pub struct TransportSettings {
    pub keep_alive_secs: u64,
    /// How many bytes a stream may have under way.
    pub stream_window: u32,
    /// How many bytes all the streams of a connection may have under way.
    pub connection_window: u32,
    pub segmentation_offload: bool,
    pub idle_timeout_ms: u32,
    /// The initial congestion window, where it is not the default.
    pub initial_window: Option<u64>,
}

/// The settings of the QUIC transport: windows of 8 MiB and twice that, and a
/// connection that is kept alive every minute and given up after five.
pub fn transport_settings(cwnd: Option<u64>) -> (r: TransportSettings)
    ensures
        r.keep_alive_secs == 60,
        r.stream_window == 8 * 1024 * 1024,
        r.connection_window == 2 * r.stream_window,
        r.segmentation_offload,
        r.idle_timeout_ms == 5 * 60 * 1000,
        r.initial_window == cwnd,
{
    TransportSettings {
        keep_alive_secs: 60,
        stream_window: 8_388_608,
        connection_window: 16_777_216,
        segmentation_offload: true,
        idle_timeout_ms: 300_000,
        initial_window: cwnd,
    }
}

/// The bytes of texts.
pub open spec fn texts_bytes(texts: Seq<Seq<char>>) -> Seq<Seq<u8>> {
    texts.map_values(|s: Seq<char>| vstd::utf8::encode_utf8(s))
}

/// Byte strings by value.
pub open spec fn bytes_view(items: Seq<Vec<u8>>) -> Seq<Seq<u8>> {
    items.map_values(|item: Vec<u8>| item@)
}

/// Adds the bytes of a text.
fn push_bytes(items: &mut Vec<Vec<u8>>, s: &str)
    ensures
        bytes_view(final(items)@) == bytes_view(old(items)@).push(vstd::utf8::encode_utf8(s@)),
{
    let mut item: Vec<u8> = Vec::new();
    item.extend_from_slice(s.as_bytes());
    assert(item@ == vstd::utf8::encode_utf8(s@));
    items.push(item);
}

/// The protocols that QUIC connections are offered: HTTP/3 and its last drafts.
pub fn alpn_protocols() -> (r: Vec<Vec<u8>>)
    ensures
        bytes_view(r@) == texts_bytes(seq!["h3"@, "h3-32"@, "h3-31"@, "h3-30"@, "h3-29"@]),
{
    let mut items: Vec<Vec<u8>> = Vec::new();
    push_bytes(&mut items, "h3");
    push_bytes(&mut items, "h3-32");
    push_bytes(&mut items, "h3-31");
    push_bytes(&mut items, "h3-30");
    push_bytes(&mut items, "h3-29");
    items
}

/// What a serving server meets.
#[derive(Clone, Copy, Debug, PartialEq, Eq, Structural)]
pub enum Arrival {
    Connection,
    /// There will be no more connections.
    NoMore,
    /// The server was told to stop.
    Interrupt,
}

/// What it does then.
#[derive(Clone, Copy, Debug, PartialEq, Eq, Structural)]
pub enum Serving {
    /// Serves the connection and waits for the next.
    Serve,
    /// Waits for its connections to end.
    Drain,
    /// Closes its socket first.
    CloseAndDrain,
}

/// A server serves connections until there are no more or it is told to stop.
pub fn on_arrival(arrival: Arrival) -> (r: Serving)
    ensures
        r == (match arrival {
            Arrival::Connection => Serving::Serve,
            Arrival::NoMore => Serving::Drain,
            Arrival::Interrupt => Serving::CloseAndDrain,
        }),
{
    match arrival {
        Arrival::Connection => Serving::Serve,
        Arrival::NoMore => Serving::Drain,
        Arrival::Interrupt => Serving::CloseAndDrain,
    }
}

/// What a stopping server meets.
#[derive(Clone, Copy, Debug, PartialEq, Eq, Structural)]
pub enum Departure {
    /// A connection ended.
    Ended,
    /// No connection is left.
    NoneLeft,
    /// The time is up.
    TimeUp,
}

/// What it does then.
#[derive(Clone, Copy, Debug, PartialEq, Eq, Structural)]
pub enum Draining {
    /// Waits on.
    Wait,
    /// Stops.
    Stop,
    /// Breaks off the connections that are left, and stops.
    Abort,
}

/// A stopping server waits for its connections as long as the time lasts.
pub fn on_departure(departure: Departure) -> (r: Draining)
    ensures
        r == (match departure {
            Departure::Ended => Draining::Wait,
            Departure::NoneLeft => Draining::Stop,
            Departure::TimeUp => Draining::Abort,
        }),
{
    match departure {
        Departure::Ended => Draining::Wait,
        Departure::NoneLeft => Draining::Stop,
        Departure::TimeUp => Draining::Abort,
    }
}

/// Byte strings are looked at as what they hold.
pub proof fn law_bytes(items: Seq<Vec<u8>>, texts: Seq<Seq<char>>, i: int)
    ensures
        bytes_view(items).len() == items.len(),
        0 <= i < items.len() ==> bytes_view(items)[i] == items[i]@,
        texts_bytes(texts).len() == texts.len(),
        0 <= i < texts.len() ==> texts_bytes(texts)[i] == vstd::utf8::encode_utf8(texts[i]),
{
}

} // verus!
