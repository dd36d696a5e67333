# sase

A small VPN (TUN device, TCP/UDP/WebSocket transports) whose decision logic
is specified and proved with Verus.

- `src/` is the verified library:
  - `routing/`: rule configuration and validation, matching, the routing
    engine (rules stably sorted by priority, first match wins) and the
    replaceable engine (reads use the engine last put in place; a refused
    reload keeps the one in place);
  - `codec/`: length-prefixed framing and the protocol messages;
  - `common.rs`: the datagram packet header and the settings;
  - `server.rs`, `datagram.rs`: the session tables of the stream server and
    of the datagram server, and what each received message does to them;
  - `client.rs`: the handshake answer, received messages, keep-alives and
    reconnection back-off;
  - `transport.rs`, `tunnel.rs`, `proxy.rs`, `probe.rs`: WebSocket URLs and
    TCP read buffers, forwarding from the tunnel device, the transparent
    proxies' packet-filter rules, and the routing probe's input.
- `app/` holds the program around it: command line, sockets, TLS, the TUN
  device, files, the asynchronous event loops, and the lock that lets the
  tunnel task and a reloader share the routing engine.
- `tests/` exercises the library on concrete values.
