//! Rule configuration: the rule list, its validation and port-range syntax.
use super::action::RoutingAction;
use super::rule::{spec_protocol_from_str, Protocol, RoutingRule};
use crate::net::{parse_ipv4_network, spec_parse_ipv4_network};
use crate::text::{decimal, parse_u16, spec_parse_u16, usize_to_text};
use vstd::prelude::*;
use vstd::string::*;

verus! {

/// How often `c` occurs in `s`.
pub open spec fn count_char(s: Seq<char>, c: char) -> nat
    decreases s.len(),
{
    if s.len() == 0 {
        0
    } else {
        count_char(s.drop_last(), c) + if s.last() == c {
            1nat
        } else {
            0nat
        }
    }
}

/// The position of the first `c` in `s`, or -1 when there is none.
pub open spec fn first_index_of(s: Seq<char>, c: char) -> int
    decreases s.len(),
{
    if s.len() == 0 {
        -1
    } else {
        let f = first_index_of(s.drop_last(), c);
        if f >= 0 {
            f
        } else if s.last() == c {
            s.len() - 1
        } else {
            -1
        }
    }
}

/// `c` occurs in `s` exactly when it is counted.
pub proof fn lemma_count_char_contains(s: Seq<char>, c: char)
    ensures
        (count_char(s, c) > 0) == s.contains(c),
    decreases s.len(),
{
    if s.len() > 0 {
        lemma_count_char_contains(s.drop_last(), c);
        if s.drop_last().contains(c) {
            let j = choose|j: int| 0 <= j < s.drop_last().len() && s.drop_last()[j] == c;
            assert(s[j] == c);
        }
        if s.contains(c) && s.last() != c {
            let j = choose|j: int| 0 <= j < s.len() && s[j] == c;
            assert(s.drop_last()[j] == c);
        }
    }
}

/// Why a port specification is rejected.
#[derive(Debug, Clone, Copy, PartialEq, Eq, Structural)]
pub enum PortRangeFault {
    /// More than one '-'.
    BadFormat,
    /// The text before '-' is no port number.
    BadStart,
    /// The text after '-' is no port number.
    BadEnd,
    /// The range is empty.
    StartAfterEnd,
    /// A single port that is no port number.
    BadPort,
}

/// A port specification: "443" is the range 443..=443, "1-1024" an inclusive
/// range. Splitting at '-' gives one more piece than there are '-'s, so a
/// range is well formed only with exactly one '-'.
pub open spec fn spec_port_range(s: Seq<char>) -> Result<(u16, u16), PortRangeFault> {
    if s.contains('-') {
        if count_char(s, '-') != 1 {
            Err(PortRangeFault::BadFormat)
        } else {
            let k = first_index_of(s, '-');
            match spec_parse_u16(s.take(k)) {
                None => Err(PortRangeFault::BadStart),
                Some(start) => match spec_parse_u16(s.skip(k + 1)) {
                    None => Err(PortRangeFault::BadEnd),
                    Some(end) => if start > end {
                        Err(PortRangeFault::StartAfterEnd)
                    } else {
                        Ok((start, end))
                    },
                },
            }
        }
    } else {
        match spec_parse_u16(s) {
            None => Err(PortRangeFault::BadPort),
            Some(p) => Ok((p, p)),
        }
    }
}

/// The message that reports each fault.
pub open spec fn port_range_message(f: PortRangeFault) -> Seq<char> {
    match f {
        PortRangeFault::BadFormat => "无效的范围格式"@,
        PortRangeFault::BadStart => "起始端口无效"@,
        PortRangeFault::BadEnd => "结束端口无效"@,
        PortRangeFault::StartAfterEnd => "起始端口大于结束端口"@,
        PortRangeFault::BadPort => "端口无效"@,
    }
}

/// The outcome `parse_port_range` returns: the range, or the fault's message.
pub open spec fn port_range_result_matches(r: Result<(u16, u16), String>, s: Seq<char>) -> bool {
    match spec_port_range(s) {
        Ok(v) => r == Ok::<(u16, u16), String>(v),
        Err(f) => r matches Err(e) && e@ == port_range_message(f),
    }
}

/// A port range that is read is never empty: its start is at most its end.
pub proof fn lemma_port_range_ordered(s: Seq<char>)
    ensures
        spec_port_range(s) matches Ok((start, end)) ==> start <= end,
{
}

/// Parses a port specification: a single port "443" or an inclusive range "1-1024".
pub fn parse_port_range(s: &str) -> (r: Result<(u16, u16), String>)
    ensures
        port_range_result_matches(r, s@),
{
    let n = s.unicode_len();
    let mut count: usize = 0;
    let mut first: usize = n;
    let mut i: usize = 0;
    while i < n
        invariant
            n == s@.len(),
            i <= n,
            count <= i,
            count == count_char(s@.take(i as int), '-'),
            (first < n) == (count > 0),
            first < n ==> first < i && first as int == first_index_of(s@.take(i as int), '-'),
            first >= n ==> first_index_of(s@.take(i as int), '-') == -1,
        decreases n - i,
    {
        assert(s@.take(i + 1).drop_last() =~= s@.take(i as int));
        if s.get_char(i) == '-' {
            if first >= n {
                first = i;
            }
            count = count + 1;
        }
        i = i + 1;
    }
    assert(s@.take(n as int) =~= s@);
    proof {
        lemma_count_char_contains(s@, '-');
    }
    if count > 0 {
        if count != 1 {
            return Err("无效的范围格式".to_string());
        }
        let head = s.substring_char(0, first);
        let tail = s.substring_char(first + 1, n);
        assert(head@ =~= s@.take(first as int));
        assert(tail@ =~= s@.skip(first + 1));
        let start = match parse_u16(head) {
            Some(v) => v,
            None => {
                return Err("起始端口无效".to_string());
            },
        };
        let end = match parse_u16(tail) {
            Some(v) => v,
            None => {
                return Err("结束端口无效".to_string());
            },
        };
        if start > end {
            return Err("起始端口大于结束端口".to_string());
        }
        Ok((start, end))
    } else {
        match parse_u16(s) {
            Some(p) => Ok((p, p)),
            None => Err("端口无效".to_string()),
        }
    }
}

/// Why a configuration is refused; each carries a message naming the rule.
#[derive(Debug, Clone)]
pub enum ConfigError {
    /// A rule without conditions, or with an unknown protocol.
    ValidationError(String),
    /// A destination that is no IPv4 network.
    InvalidCidr(String),
    /// A destination port that is no port range.
    InvalidPortRange(String),
}

/// A `ConfigError` as its kind and message text.
pub enum ConfigErrorView {
    ValidationError(Seq<char>),
    InvalidCidr(Seq<char>),
    InvalidPortRange(Seq<char>),
}

impl View for ConfigError {
    type V = ConfigErrorView;

    open spec fn view(&self) -> ConfigErrorView {
        match self {
            ConfigError::ValidationError(m) => ConfigErrorView::ValidationError(m@),
            ConfigError::InvalidCidr(m) => ConfigErrorView::InvalidCidr(m@),
            ConfigError::InvalidPortRange(m) => ConfigErrorView::InvalidPortRange(m@),
        }
    }
}

impl ConfigError {
    /// The error's message.
    pub open spec fn spec_text(self) -> Seq<char> {
        match self {
            ConfigError::ValidationError(m) => "规则验证失败: "@ + m@,
            ConfigError::InvalidCidr(m) => "无效的 CIDR 表示: "@ + m@,
            ConfigError::InvalidPortRange(m) => "无效的端口范围: "@ + m@,
        }
    }

    pub fn to_string(&self) -> (s: String)
        ensures
            s@ == self.spec_text(),
    {
        let (mut s, m) = match self {
            ConfigError::ValidationError(m) => ("规则验证失败: ".to_string(), m),
            ConfigError::InvalidCidr(m) => ("无效的 CIDR 表示: ".to_string(), m),
            ConfigError::InvalidPortRange(m) => ("无效的端口范围: ".to_string(), m),
        };
        s.append(m.as_str());
        s
    }
}

/// The action taken when no rule matches, unless a configuration names one.
pub fn default_action() -> (r: RoutingAction)
    ensures
        r == RoutingAction::Direct,
{
    RoutingAction::Direct
}

/// A rule file: the default action and the rules.
#[derive(Debug, Clone)]
pub struct RuleConfig {
    /// The action when no rule matches.
    pub default_action: RoutingAction,
    pub rules: Vec<RoutingRule>,
}

impl Default for RuleConfig {
    fn default() -> (r: Self)
        ensures
            r.default_action == RoutingAction::Direct,
            r.rules@.len() == 0,
    {
        RuleConfig { default_action: RoutingAction::Direct, rules: Vec::new() }
    }
}

pub open spec fn message_no_conditions(name: Seq<char>, index: usize) -> Seq<char> {
    "规则 '"@ + name + "' (索引 "@ + decimal(index as nat) + ") 没有任何匹配条件"@
}

pub open spec fn message_bad_field(name: Seq<char>, field: Seq<char>, value: Seq<char>, reason: Seq<char>) -> Seq<char> {
    "规则 '"@ + name + "' 的 "@ + field + " 无效: "@ + value + " ("@ + reason + ")"@
}

pub open spec fn message_bad_protocol(name: Seq<char>, value: Seq<char>) -> Seq<char> {
    "规则 '"@ + name + "' 的 protocol 无效: "@ + value + " (必须是 tcp/udp/icmp)"@
}

/// The error that the rule at `index` gives rise to, checking in turn that it
/// has a condition, a valid destination network, a valid port range and a
/// known protocol; `None` when the rule is valid.
pub open spec fn spec_rule_error(rule: RoutingRule, index: usize) -> Option<ConfigErrorView> {
    let cond = rule.match_cond;
    if !cond.spec_has_conditions() {
        Some(ConfigErrorView::ValidationError(message_no_conditions(rule.name@, index)))
    } else if cond.dst_ip is Some && spec_parse_ipv4_network(cond.dst_ip.unwrap()@) is Err {
        let ip = cond.dst_ip.unwrap()@;
        Some(ConfigErrorView::InvalidCidr(message_bad_field(rule.name@, "dst_ip"@, ip,
            spec_parse_ipv4_network(ip)->Err_0)))
    } else if cond.dst_port is Some && spec_port_range(cond.dst_port.unwrap()@) is Err {
        let port = cond.dst_port.unwrap()@;
        Some(ConfigErrorView::InvalidPortRange(message_bad_field(rule.name@, "dst_port"@, port,
            port_range_message(spec_port_range(port)->Err_0))))
    } else if cond.protocol is Some && spec_protocol_from_str(cond.protocol.unwrap()@) is None {
        Some(ConfigErrorView::ValidationError(message_bad_protocol(rule.name@, cond.protocol.unwrap()@)))
    } else {
        None
    }
}

/// The rule keeps everything but its id, which, when it was 0, becomes its
/// position counted from 1.
pub open spec fn spec_assigned(rule: RoutingRule, index: int) -> RoutingRule {
    RoutingRule { id: if rule.id == 0 { (index + 1) as u32 } else { rule.id }, ..rule }
}

/// A rule is valid exactly when it has some condition and every field it
/// has reads: the destination as an IPv4 network, the port as a port range,
/// the protocol as a protocol name; each field is checked whatever the others are.
pub proof fn lemma_rule_valid_iff(rule: RoutingRule, index: usize)
    ensures
        spec_rule_error(rule, index) is None <==> {
            &&& rule.match_cond.spec_has_conditions()
            &&& (rule.match_cond.dst_ip matches Some(ip) ==> spec_parse_ipv4_network(ip@) is Ok)
            &&& (rule.match_cond.dst_port matches Some(port) ==> spec_port_range(port@) is Ok)
            &&& (rule.match_cond.protocol matches Some(proto) ==> spec_protocol_from_str(proto@) is Some)
        },
        (rule.match_cond.protocol matches Some(proto) && spec_protocol_from_str(proto@) is None)
            ==> spec_rule_error(rule, index) is Some,
{
}

/// After ids are assigned every rule has a non-zero id, so assigning them
/// again changes nothing.
pub proof fn lemma_assigned_ids_settle(rule: RoutingRule, index: int)
    requires
        0 <= index < u32::MAX,
    ensures
        spec_assigned(rule, index).id != 0,
        spec_assigned(spec_assigned(rule, index), index) == spec_assigned(rule, index),
{
}

fn message_no_conditions_text(name: &str, index: usize) -> (r: String)
    ensures
        r@ == message_no_conditions(name@, index),
{
    let mut m = "规则 '".to_string();
    m.append(name);
    m.append("' (索引 ");
    let idx = usize_to_text(index);
    m.append(idx.as_str());
    m.append(") 没有任何匹配条件");
    m
}

fn message_bad_field_text(name: &str, field: &str, value: &str, reason: &str) -> (r: String)
    ensures
        r@ == message_bad_field(name@, field@, value@, reason@),
{
    let mut m = "规则 '".to_string();
    m.append(name);
    m.append("' 的 ");
    m.append(field);
    m.append(" 无效: ");
    m.append(value);
    m.append(" (");
    m.append(reason);
    m.append(")");
    m
}

fn message_bad_protocol_text(name: &str, value: &str) -> (r: String)
    ensures
        r@ == message_bad_protocol(name@, value@),
{
    let mut m = "规则 '".to_string();
    m.append(name);
    m.append("' 的 protocol 无效: ");
    m.append(value);
    m.append(" (必须是 tcp/udp/icmp)");
    m
}

impl RuleConfig {
    /// Checks every rule, in order; the first invalid rule gives the error.
    pub fn validate(&self) -> (r: Result<(), ConfigError>)
        ensures
            r is Ok <==> (forall|i: int| 0 <= i < self.rules@.len() ==> #[trigger] spec_rule_error(self.rules@[i], i as usize) is None),
            r matches Err(e) ==> exists|i: int| 0 <= i < self.rules@.len()
                && spec_rule_error(self.rules@[i], i as usize) == Some(e@)
                && (forall|j: int| 0 <= j < i ==> #[trigger] spec_rule_error(self.rules@[j], j as usize) is None),
    {
        let n = self.rules.len();
        let mut index: usize = 0;
        while index < n
            invariant
                n == self.rules@.len(),
                index <= n,
                forall|j: int| 0 <= j < index ==> #[trigger] spec_rule_error(self.rules@[j], j as usize) is None,
            decreases n - index,
        {
            let rule = &self.rules[index];
            let name = rule.name.as_str();
            if !rule.match_cond.has_conditions() {
                let e = ConfigError::ValidationError(message_no_conditions_text(name, index));
                assert(spec_rule_error(self.rules@[index as int], (index as int) as usize) == Some(e@));
                return Err(e);
            }
            if let Some(cidr) = &rule.match_cond.dst_ip {
                if let Err(reason) = parse_ipv4_network(cidr.as_str()) {
                    let e = ConfigError::InvalidCidr(message_bad_field_text(name, "dst_ip", cidr.as_str(), reason.as_str()));
                    assert(spec_rule_error(self.rules@[index as int], (index as int) as usize) == Some(e@));
                    return Err(e);
                }
            }
            if let Some(port) = &rule.match_cond.dst_port {
                if let Err(reason) = parse_port_range(port.as_str()) {
                    let e = ConfigError::InvalidPortRange(message_bad_field_text(name, "dst_port", port.as_str(), reason.as_str()));
                    assert(spec_rule_error(self.rules@[index as int], (index as int) as usize) == Some(e@));
                    return Err(e);
                }
            }
            if let Some(proto) = &rule.match_cond.protocol {
                if Protocol::from_str(proto.as_str()).is_none() {
                    let e = ConfigError::ValidationError(message_bad_protocol_text(name, proto.as_str()));
                    assert(spec_rule_error(self.rules@[index as int], (index as int) as usize) == Some(e@));
                    return Err(e);
                }
            }
            assert(spec_rule_error(self.rules@[index as int], index) is None);
            index = index + 1;
        }
        Ok(())
    }

    /// Gives each rule whose id is 0 its position counted from 1.
    pub fn assign_ids(self) -> (r: Self)
        requires
            self.rules@.len() < u32::MAX,
        ensures
            r.default_action == self.default_action,
            r.rules@.len() == self.rules@.len(),
            forall|i: int| 0 <= i < r.rules@.len() ==> #[trigger] r.rules@[i] == spec_assigned(self.rules@[i], i),
    {
        let mut config = self;
        let n = config.rules.len();
        let mut next_id: u32 = 1;
        let mut i: usize = 0;
        while i < n
            invariant
                n == config.rules@.len(),
                n == self.rules@.len(),
                n < u32::MAX,
                i <= n,
                next_id == i + 1,
                config.default_action == self.default_action,
                forall|j: int| 0 <= j < i ==> #[trigger] config.rules@[j] == spec_assigned(self.rules@[j], j),
                forall|j: int| i <= j < n ==> #[trigger] config.rules@[j] == self.rules@[j],
            decreases n - i,
        {
            if config.rules[i].id == 0 {
                config.rules[i].id = next_id;
            }
            next_id = next_id + 1;
            i = i + 1;
        }
        config
    }
}

} // verus!
