//! Protocols, match conditions and routing rules.
use super::action::RoutingAction;
use crate::text::{byte_decimal, spec_to_lowercase, text_eq, to_lowercase, u8_to_text};
use vstd::prelude::*;

verus! {

/// The transport protocol of a packet.
#[derive(Debug, Clone, Copy, PartialEq, Eq, Structural)]
pub enum Protocol {
    Tcp,
    Udp,
    Icmp,
    /// Any other protocol, with its IP protocol number.
    Other(u8),
}

/// The protocol named by an IP header's protocol field.
pub open spec fn spec_protocol_from_number(value: u8) -> Protocol {
    if value == 6 {
        Protocol::Tcp
    } else if value == 17 {
        Protocol::Udp
    } else if value == 1 {
        Protocol::Icmp
    } else {
        Protocol::Other(value)
    }
}

impl vstd::std_specs::convert::FromSpecImpl<u8> for Protocol {
    open spec fn obeys_from_spec() -> bool {
        true
    }

    open spec fn from_spec(v: u8) -> Self {
        spec_protocol_from_number(v)
    }
}

impl From<u8> for Protocol {
    fn from(value: u8) -> (r: Self) {
        if value == 6 {
            Protocol::Tcp
        } else if value == 17 {
            Protocol::Udp
        } else if value == 1 {
            Protocol::Icmp
        } else {
            Protocol::Other(value)
        }
    }
}

/// The protocol that a lower-case name denotes.
pub open spec fn spec_protocol_from_lower(lower: Seq<char>) -> Option<Protocol> {
    if lower == "tcp"@ {
        Some(Protocol::Tcp)
    } else if lower == "udp"@ {
        Some(Protocol::Udp)
    } else if lower == "icmp"@ {
        Some(Protocol::Icmp)
    } else {
        None
    }
}

/// The protocol that a rule's protocol text denotes, case-insensitively.
pub open spec fn spec_protocol_from_str(s: Seq<char>) -> Option<Protocol> {
    spec_protocol_from_lower(spec_to_lowercase(s))
}

impl Protocol {
    /// Parses "tcp", "udp" or "icmp", in any case.
    pub fn from_str(s: &str) -> (r: Option<Self>)
        ensures
            r == spec_protocol_from_str(s@),
    {
        let lower = to_lowercase(s);
        let l = lower.as_str();
        if text_eq(l, "tcp") {
            Some(Protocol::Tcp)
        } else if text_eq(l, "udp") {
            Some(Protocol::Udp)
        } else if text_eq(l, "icmp") {
            Some(Protocol::Icmp)
        } else {
            None
        }
    }
}

impl Protocol {
    /// "tcp", "udp", "icmp" or "other(N)".
    pub open spec fn spec_text(self) -> Seq<char> {
        match self {
            Protocol::Tcp => "tcp"@,
            Protocol::Udp => "udp"@,
            Protocol::Icmp => "icmp"@,
            Protocol::Other(n) => "other("@ + byte_decimal(n) + ")"@,
        }
    }

    /// The protocol as text.
    pub fn to_string(&self) -> (s: String)
        ensures
            s@ == self.spec_text(),
    {
        match self {
            Protocol::Tcp => "tcp".to_string(),
            Protocol::Udp => "udp".to_string(),
            Protocol::Icmp => "icmp".to_string(),
            Protocol::Other(n) => {
                let mut s = "other(".to_string();
                let t = u8_to_text(*n);
                s.append(t.as_str());
                s.append(")");
                s
            },
        }
    }
}

impl Default for Protocol {
    fn default() -> (r: Self)
        ensures
            r == Protocol::Other(0),
    {
        Protocol::Other(0)
    }
}

/// A rule's condition: each present field must match; absent fields match anything.
#[derive(Debug, Clone)]
pub struct MatchCondition {
    /// Destination address or CIDR range, such as "10.0.0.0/8" or "192.168.1.1".
    pub dst_ip: Option<String>,
    /// Destination port or inclusive range, such as "443" or "1-1024".
    pub dst_port: Option<String>,
    /// "tcp", "udp" or "icmp".
    pub protocol: Option<String>,
}

impl Default for MatchCondition {
    fn default() -> (r: Self)
        ensures
            r.dst_ip is None,
            r.dst_port is None,
            r.protocol is None,
    {
        MatchCondition { dst_ip: None, dst_port: None, protocol: None }
    }
}

impl MatchCondition {
    /// Whether any field is present.
    pub open spec fn spec_has_conditions(&self) -> bool {
        self.dst_ip is Some || self.dst_port is Some || self.protocol is Some
    }

    /// A condition with no fields.
    pub fn new() -> (r: Self)
        ensures
            r.dst_ip is None,
            r.dst_port is None,
            r.protocol is None,
    {
        MatchCondition { dst_ip: None, dst_port: None, protocol: None }
    }

    pub fn with_dst_ip(self, ip: &str) -> (r: Self)
        ensures
            r.dst_ip matches Some(s) && s@ == ip@,
            r.dst_port == self.dst_port,
            r.protocol == self.protocol,
    {
        MatchCondition { dst_ip: Some(ip.to_string()), ..self }
    }

    pub fn with_dst_port(self, port: &str) -> (r: Self)
        ensures
            r.dst_port matches Some(s) && s@ == port@,
            r.dst_ip == self.dst_ip,
            r.protocol == self.protocol,
    {
        MatchCondition { dst_port: Some(port.to_string()), ..self }
    }

    pub fn with_protocol(self, protocol: &str) -> (r: Self)
        ensures
            r.protocol matches Some(s) && s@ == protocol@,
            r.dst_ip == self.dst_ip,
            r.dst_port == self.dst_port,
    {
        MatchCondition { protocol: Some(protocol.to_string()), ..self }
    }

    /// Whether any field is present.
    pub fn has_conditions(&self) -> (r: bool)
        ensures
            r == self.spec_has_conditions(),
    {
        self.dst_ip.is_some() || self.dst_port.is_some() || self.protocol.is_some()
    }
}

/// A rule: a condition and the action taken for packets that meet it.
#[derive(Debug, Clone)]
pub struct RoutingRule {
    /// Name used in decisions and messages.
    pub name: String,
    /// Identifier; 0 means "assign one from the rule's position".
    pub id: u32,
    /// Higher values are tried first.
    pub priority: u32,
    pub match_cond: MatchCondition,
    pub action: RoutingAction,
    /// Disabled rules never match.
    pub enabled: bool,
}

/// Rules are enabled unless a configuration says otherwise.
pub fn default_enabled() -> (r: bool)
    ensures
        r,
{
    true
}

impl RoutingRule {
    /// An enabled rule with id 0 and priority 0.
    pub fn new(name: &str, match_cond: MatchCondition, action: RoutingAction) -> (r: Self)
        ensures
            r.name@ == name@,
            r.id == 0,
            r.priority == 0,
            r.match_cond == match_cond,
            r.action == action,
            r.enabled,
    {
        RoutingRule { name: name.to_string(), id: 0, priority: 0, match_cond, action, enabled: true }
    }

    pub fn with_id(self, id: u32) -> (r: Self)
        ensures
            r == (RoutingRule { id, ..self }),
    {
        RoutingRule { id, ..self }
    }

    pub fn with_priority(self, priority: u32) -> (r: Self)
        ensures
            r == (RoutingRule { priority, ..self }),
    {
        RoutingRule { priority, ..self }
    }

    pub fn with_enabled(self, enabled: bool) -> (r: Self)
        ensures
            r == (RoutingRule { enabled, ..self }),
    {
        RoutingRule { enabled, ..self }
    }
}

} // verus!
