//! Whether a rule applies to a packet.
use super::config::{parse_port_range, spec_port_range};
use super::context::PacketContext;
use super::rule::{spec_protocol_from_str, MatchCondition, Protocol, RoutingRule};
use crate::net::{
    network_contains, parse_ipv4_addr, parse_ipv4_network, spec_network_contains,
    spec_parse_ipv4_addr, spec_parse_ipv4_network,
};
use vstd::prelude::*;

verus! {

/// A destination condition: a network in CIDR notation containing the
/// address, or, when the text is no network, an address equal to it.
pub open spec fn spec_matches_ip(cidr: Seq<char>, ip: u32) -> bool {
    match spec_parse_ipv4_network(cidr) {
        Ok((addr, prefix)) => spec_network_contains(addr, prefix, ip),
        Err(_) => spec_parse_ipv4_addr(cidr) == Some(ip),
    }
}

/// A port condition: the packet has a port and it lies in the specified
/// range; an ill-formed specification matches nothing.
pub open spec fn spec_matches_port(port_spec: Seq<char>, packet_port: Option<u16>) -> bool {
    match packet_port {
        None => false,
        Some(port) => match spec_port_range(port_spec) {
            Ok((start, end)) => start <= port && port <= end,
            Err(_) => false,
        },
    }
}

/// A protocol condition: the text names the packet's protocol.
pub open spec fn spec_matches_protocol(proto: Seq<char>, packet_proto: Protocol) -> bool {
    spec_protocol_from_str(proto) == Some(packet_proto)
}

/// Every present field of the condition holds of the packet.
pub open spec fn spec_matches_condition(cond: MatchCondition, packet: PacketContext) -> bool {
    &&& cond.dst_ip matches Some(ip) ==> spec_matches_ip(ip@, packet.dst_ip)
    &&& cond.dst_port matches Some(port) ==> spec_matches_port(port@, packet.dst_port)
    &&& cond.protocol matches Some(proto) ==> spec_matches_protocol(proto@, packet.protocol)
}

/// A rule applies when it is enabled and its condition holds.
pub open spec fn spec_rule_matches(rule: RoutingRule, packet: PacketContext) -> bool {
    rule.enabled && spec_matches_condition(rule.match_cond, packet)
}

pub struct Matcher;

impl Matcher {
    pub fn matches(rule: &RoutingRule, packet: &PacketContext) -> (r: bool)
        ensures
            r == spec_rule_matches(*rule, *packet),
    {
        rule.enabled && Self::matches_condition(&rule.match_cond, packet)
    }

    pub fn matches_condition(cond: &MatchCondition, packet: &PacketContext) -> (r: bool)
        ensures
            r == spec_matches_condition(*cond, *packet),
    {
        if let Some(dst_ip) = &cond.dst_ip {
            if !Self::matches_ip(dst_ip.as_str(), packet.dst_ip) {
                return false;
            }
        }
        if let Some(dst_port) = &cond.dst_port {
            if !Self::matches_port(dst_port.as_str(), packet.dst_port) {
                return false;
            }
        }
        if let Some(proto) = &cond.protocol {
            if !Self::matches_protocol(proto.as_str(), packet.protocol) {
                return false;
            }
        }
        true
    }

    pub fn matches_ip(cidr: &str, ip: u32) -> (r: bool)
        ensures
            r == spec_matches_ip(cidr@, ip),
    {
        match parse_ipv4_network(cidr) {
            Ok((addr, prefix)) => network_contains(addr, prefix, ip),
            Err(_) => match parse_ipv4_addr(cidr) {
                Some(a) => a == ip,
                None => false,
            },
        }
    }

    pub fn matches_port(port_spec: &str, packet_port: Option<u16>) -> (r: bool)
        ensures
            r == spec_matches_port(port_spec@, packet_port),
    {
        let port = match packet_port {
            Some(p) => p,
            None => {
                return false;
            },
        };
        match parse_port_range(port_spec) {
            Ok((start, end)) => start <= port && port <= end,
            Err(_) => false,
        }
    }

    pub fn matches_protocol(proto_str: &str, packet_proto: Protocol) -> (r: bool)
        ensures
            r == spec_matches_protocol(proto_str@, packet_proto),
    {
        match Protocol::from_str(proto_str) {
            Some(proto) => proto == packet_proto,
            None => false,
        }
    }
}

} // verus!
