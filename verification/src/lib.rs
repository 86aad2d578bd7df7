//! The logic of a WebTransport proxy server.
//!
//! A client opens a WebTransport session over HTTP/3 and names a target; the server
//! carries the TCP streams or the UDP datagrams of the session to it, directly or
//! through a SOCKS5 proxy. Any other request is passed on to an upstream HTTP
//! server.
//!
//! Nothing here reads or writes: sockets, files and timers are left to the program
//! around this library, which hands in what came and does what it is told.
//!
//! - [`config`]: the configuration and the address of the SOCKS5 proxy;
//! - [`connection`], [`session`], [`udp`]: connections, their sessions, their routes;
//! - [`client`], [`socks5`]: the SOCKS5 client and its wire format;
//! - [`headers`], [`upstream`]: requests and responses, and the upstream server;
//! - [`endpoint`], [`ip`], [`text`]: targets, IP addresses, and text as such;
//! - [`server`], [`tls`]: settings, certificates and keys;
//! - the modules that end in `_laws` and `_proofs`: what holds of all of these.

use vstd::prelude::*;

pub mod client;
pub mod client_laws;
pub mod client_proofs;
pub mod config;
pub mod config_proofs;
pub mod connection;
pub mod endpoint;
pub mod headers;
pub mod headers_laws;
pub mod ip;
pub mod ip_laws;
pub mod ip_proofs;
pub mod server;
pub mod session;
pub mod socks5;
pub mod socks5_laws;
pub mod text;
pub mod text_laws;
pub mod text_proofs;
pub mod tls;
pub mod udp;
pub mod upstream;

verus! {

} // verus!
