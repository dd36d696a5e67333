//! The features of a packet that rules look at, read from its IP header.
use super::rule::Protocol;
use crate::endian::{be32, be32_bytes, lemma_be32_bytes_of_value, u32_from_be_bytes};
use crate::net::{dotted, dotted_text};
use crate::text::{decimal, usize_to_text};
use etherparse::{NetSlice as N, SlicedPacket, TransportSlice as T};
use vstd::prelude::*;

verus! {

/// The network layer of a sliced packet, as far as routing reads it.
#[derive(Debug, Clone, Copy)]
pub enum NetHeader {
    /// Source and destination address.
    Ipv4([u8; 4], [u8; 4]),
    Ipv6,
    Arp,
    /// No network layer was found.
    Absent,
}

/// The transport layer of a sliced packet, as far as routing reads it.
#[derive(Debug, Clone, Copy, PartialEq, Eq, Structural)]
pub enum TransportHeader {
    Icmpv4,
    Icmpv6,
    /// Source and destination port.
    Udp(u16, u16),
    /// Source and destination port.
    Tcp(u16, u16),
    /// No transport layer was found.
    Absent,
}

/// The headers found when slicing a packet from its IP layer downwards.
#[derive(Debug, Clone, Copy)]
pub struct SlicedIp {
    pub net: NetHeader,
    pub transport: TransportHeader,
}

/// What etherparse's `SlicedPacket::from_ip` finds in a buffer (`None` when it
/// reports an error).
pub uninterp spec fn spec_slice_ip(data: Seq<u8>) -> Option<SlicedIp>;

/// Trusted: etherparse's `SlicedPacket::from_ip`, with the network and
/// transport slices reduced to their variants and to the addresses and ports
/// that routing reads. The result is named: the header grammar is etherparse's.
#[verifier::external_body]
pub(crate) fn slice_ip(data: &[u8]) -> (r: Option<SlicedIp>)
    ensures
        r == spec_slice_ip(data@),
{
    let p = SlicedPacket::from_ip(data).ok()?;
    let net = match &p.net {
        Some(N::Ipv4(s)) => NetHeader::Ipv4(s.header().source(), s.header().destination()),
        Some(N::Ipv6(_)) => NetHeader::Ipv6,
        Some(N::Arp(_)) => NetHeader::Arp,
        None => NetHeader::Absent,
    };
    Some(SlicedIp { net, transport: match &p.transport {
        Some(T::Icmpv4(_)) => TransportHeader::Icmpv4,
        Some(T::Icmpv6(_)) => TransportHeader::Icmpv6,
        Some(T::Udp(u)) => TransportHeader::Udp(u.source_port(), u.destination_port()),
        Some(T::Tcp(t)) => TransportHeader::Tcp(t.source_port(), t.destination_port()),
        None => TransportHeader::Absent,
    } })
}

/// The features of one packet.
#[derive(Debug, Clone, Copy, PartialEq, Eq, Structural)]
pub struct PacketContext {
    pub src_ip: u32,
    pub dst_ip: u32,
    /// TCP/UDP source port.
    pub src_port: Option<u16>,
    /// TCP/UDP destination port.
    pub dst_port: Option<u16>,
    pub protocol: Protocol,
}

/// The context of a sliced packet: IPv4 only; TCP and UDP carry ports, ICMPv4
/// none; an ICMPv6 transport is refused; with no transport the protocol is `Other(0)`.
pub open spec fn spec_context_from_sliced(s: SlicedIp) -> Option<PacketContext> {
    match s.net {
        NetHeader::Ipv4(source, destination) => {
            let (src, dst) = (be32(source), be32(destination));
            match s.transport {
                TransportHeader::Absent => Some(PacketContext { src_ip: src, dst_ip: dst, src_port: None, dst_port: None, protocol: Protocol::Other(0) }),
                TransportHeader::Tcp(source_port, destination_port) =>
                    Some(PacketContext { src_ip: src, dst_ip: dst, src_port: Some(source_port), dst_port: Some(destination_port), protocol: Protocol::Tcp }),
                TransportHeader::Udp(source_port, destination_port) =>
                    Some(PacketContext { src_ip: src, dst_ip: dst, src_port: Some(source_port), dst_port: Some(destination_port), protocol: Protocol::Udp }),
                TransportHeader::Icmpv4 =>
                    Some(PacketContext { src_ip: src, dst_ip: dst, src_port: None, dst_port: None, protocol: Protocol::Icmp }),
                TransportHeader::Icmpv6 => None,
            }
        },
        _ => None,
    }
}

/// The context of a sliced IPv4 packet carries the header's addresses and,
/// for TCP and UDP, its ports in place (source port as source, destination
/// port as destination); ICMP carries no ports.
pub proof fn lemma_context_fields(s: SlicedIp)
    ensures
        s.net matches NetHeader::Ipv4(source, destination) ==> (!(s.transport is Icmpv6) ==> (
            spec_context_from_sliced(s) matches Some(c) && be32_bytes(c.src_ip) == source@
                && be32_bytes(c.dst_ip) == destination@)),
        spec_context_from_sliced(s) matches Some(c) ==> (s.transport matches TransportHeader::Tcp(sp, dp) ==> (
            c.src_port == Some(sp) && c.dst_port == Some(dp) && c.protocol == Protocol::Tcp)),
        spec_context_from_sliced(s) matches Some(c) ==> (s.transport matches TransportHeader::Udp(sp, dp) ==> (
            c.src_port == Some(sp) && c.dst_port == Some(dp) && c.protocol == Protocol::Udp)),
        spec_context_from_sliced(s) matches Some(c) ==> (s.transport is Icmpv4 ==> (c.src_port is None
            && c.dst_port is None && c.protocol == Protocol::Icmp)),
        (!(s.net is Ipv4) || s.transport is Icmpv6) ==> spec_context_from_sliced(s) is None,
{
    if let NetHeader::Ipv4(source, destination) = s.net {
        lemma_be32_bytes_of_value(source);
        lemma_be32_bytes_of_value(destination);
    }
}

impl PacketContext {
    pub fn new(src_ip: u32, dst_ip: u32, src_port: Option<u16>, dst_port: Option<u16>, protocol: Protocol) -> (r: Self)
        ensures
            r == (PacketContext { src_ip, dst_ip, src_port, dst_port, protocol }),
    {
        PacketContext { src_ip, dst_ip, src_port, dst_port, protocol }
    }

    /// The context of already sliced headers.
    pub fn from_sliced(s: SlicedIp) -> (r: Option<Self>)
        ensures
            r == spec_context_from_sliced(s),
    {
        let (source, destination) = match s.net {
            NetHeader::Ipv4(source, destination) => (source, destination),
            _ => {
                return None;
            },
        };
        let src_ip = u32_from_be_bytes(source);
        let dst_ip = u32_from_be_bytes(destination);
        let mut src_port = None;
        let mut dst_port = None;
        let mut protocol = Protocol::Other(0);
        match s.transport {
            TransportHeader::Tcp(source_port, destination_port) => {
                src_port = Some(source_port);
                dst_port = Some(destination_port);
                protocol = Protocol::Tcp;
            },
            TransportHeader::Udp(source_port, destination_port) => {
                src_port = Some(source_port);
                dst_port = Some(destination_port);
                protocol = Protocol::Udp;
            },
            TransportHeader::Icmpv4 => {
                protocol = Protocol::Icmp;
                src_port = None;
                dst_port = None;
            },
            TransportHeader::Icmpv6 => {
                return None;
            },
            TransportHeader::Absent => {},
        }
        Some(Self::new(src_ip, dst_ip, src_port, dst_port, protocol))
    }

    /// The context of a raw IP packet.
    pub fn from_ip_packet(data: &[u8]) -> (r: Option<Self>)
        ensures
            r == match spec_slice_ip(data@) {
                None => None,
                Some(s) => spec_context_from_sliced(s),
            },
    {
        match slice_ip(data) {
            None => None,
            Some(s) => Self::from_sliced(s),
        }
    }
}

/// A port as text, or "-" when there is none.
pub open spec fn port_text(p: Option<u16>) -> Seq<char> {
    match p {
        Some(n) => decimal(n as nat),
        None => "-"@,
    }
}

fn port_to_text(p: Option<u16>) -> (r: String)
    ensures
        r@ == port_text(p),
{
    match p {
        Some(n) => usize_to_text(n as usize),
        None => "-".to_string(),
    }
}

impl PacketContext {
    /// "SRC:PORT -> DST:PORT (PROTOCOL)".
    pub open spec fn spec_text(self) -> Seq<char> {
        dotted(self.src_ip) + ":"@ + port_text(self.src_port) + " -> "@ + dotted(self.dst_ip) + ":"@
            + port_text(self.dst_port) + " ("@ + self.protocol.spec_text() + ")"@
    }

    /// The context as text.
    pub fn to_string(&self) -> (s: String)
        ensures
            s@ == self.spec_text(),
    {
        let mut s = dotted_text(self.src_ip);
        s.append(":");
        let sp = port_to_text(self.src_port);
        s.append(sp.as_str());
        s.append(" -> ");
        let dst = dotted_text(self.dst_ip);
        s.append(dst.as_str());
        s.append(":");
        let dp = port_to_text(self.dst_port);
        s.append(dp.as_str());
        s.append(" (");
        let proto = self.protocol.to_string();
        s.append(proto.as_str());
        s.append(")");
        s
    }
}

} // verus!
