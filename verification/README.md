# wtproxy

A WebTransport proxy server. A client opens a WebTransport session over HTTP/3 with
an extended CONNECT at the configured path and two headers: `proxy-protocol`, which is
`tcp` or `udp`, and `proxy-endpoint`, the target as `host:port`. The server carries the
streams or the datagrams of the session to the target, directly or through a SOCKS5
proxy. Every other request goes to an upstream HTTP server.

- `src/` is the library: the rules of the server, with contracts that Verus proves. It
  does no I/O.
- `app/` is the program around it: sockets, files, timers and logging.
- `tests/` runs the library on concrete values.

## Configuration

`config.toml` in the working directory:

```toml
listen = "0.0.0.0:443"
upstream = "http://127.0.0.1:8080"
cert = "cert.pem"
key = "key.pem"
path = "/wt"
# host:port or user:pass:host:port; an IPv6 host is in brackets
socks_proxy = "user:pass:proxy.example:1080"
# go direct when the proxy rejects UDP ASSOCIATE; off by default
socks_udp_fallback = false
# initial congestion window in bytes
cwnd = 1000000
```

With credentials the proxy is offered no other method of authentication. A UDP session
that goes direct bypasses the proxy: its target is looked up here and sees the address
of this host.

## What rests on trust

The contracts of the functions marked `external_body` and of the
`assume_specification` items are believed, not proved. They speak of `http` (URIs,
header names, header maps), `rustls-pemfile` and `rustls-pki-types` (PEM files), and of
`String::push`, `str`'s `Debug` and `str::from_utf8` of the standard library.
