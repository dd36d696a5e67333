//! SASE: a small VPN whose packet-routing rules, wire framing and session
//! bookkeeping are specified and proved with Verus.
pub mod client;
pub mod codec;
pub mod common;
pub mod datagram;
pub mod peer;
pub mod probe;
pub mod proxy;
pub mod routing;
pub mod server;
pub mod text;
pub mod transport;
pub mod tun_config;
pub mod tunnel;
pub mod endian;
pub mod net;
