use sase::routing::config::parse_port_range;
use sase::routing::matcher::Matcher;
use sase::routing::{
    ConfigError, HotReloadableEngine, MatchCondition, PacketContext, Protocol, RoutingAction, RoutingDecision,
    RoutingEngine, RoutingRule, RuleConfig,
};

fn ip(s: &str) -> u32 {
    s.split('.').fold(0u32, |acc, octet| (acc << 8) | octet.parse::<u8>().unwrap() as u32)
}

fn packet(dst: &str, port: Option<u16>, protocol: Protocol) -> PacketContext {
    PacketContext::new(ip("192.168.1.100"), ip(dst), Some(40000), port, protocol)
}

#[test]
fn port_range_single_and_range() {
    assert_eq!(parse_port_range("443"), Ok((443, 443)));
    assert_eq!(parse_port_range("1-1024"), Ok((1, 1024)));
    assert_eq!(parse_port_range("0-65535"), Ok((0, 65535)));
    assert_eq!(parse_port_range("80-80"), Ok((80, 80)));
}

#[test]
fn port_range_errors() {
    assert_eq!(parse_port_range("1-2-3"), Err("无效的范围格式".to_string()));
    assert_eq!(parse_port_range("a-5"), Err("起始端口无效".to_string()));
    assert_eq!(parse_port_range("-5"), Err("起始端口无效".to_string()));
    assert_eq!(parse_port_range("5-b"), Err("结束端口无效".to_string()));
    assert_eq!(parse_port_range("5-70000"), Err("结束端口无效".to_string()));
    assert_eq!(parse_port_range("10-5"), Err("起始端口大于结束端口".to_string()));
    assert_eq!(parse_port_range("abc"), Err("端口无效".to_string()));
    assert_eq!(parse_port_range("70000"), Err("端口无效".to_string()));
    assert_eq!(parse_port_range(""), Err("端口无效".to_string()));
}

#[test]
fn matcher_ip_networks() {
    assert!(Matcher::matches_ip("10.0.0.0/8", ip("10.1.2.3")));
    assert!(!Matcher::matches_ip("10.0.0.0/8", ip("11.0.0.1")));
    assert!(Matcher::matches_ip("0.0.0.0/0", ip("203.0.113.9")));
    assert!(Matcher::matches_ip("192.168.1.7/32", ip("192.168.1.7")));
    assert!(!Matcher::matches_ip("192.168.1.7/32", ip("192.168.1.8")));
    assert!(Matcher::matches_ip("8.8.8.8", ip("8.8.8.8")));
    assert!(!Matcher::matches_ip("not-an-address", ip("8.8.8.8")));
}

#[test]
fn matcher_ports_and_protocols() {
    assert!(Matcher::matches_port("80-90", Some(85)));
    assert!(Matcher::matches_port("80-90", Some(80)));
    assert!(Matcher::matches_port("80-90", Some(90)));
    assert!(!Matcher::matches_port("80-90", Some(91)));
    assert!(!Matcher::matches_port("80-90", None));
    assert!(!Matcher::matches_port("bogus", Some(80)));
    assert!(Matcher::matches_protocol("TCP", Protocol::Tcp));
    assert!(Matcher::matches_protocol("Udp", Protocol::Udp));
    assert!(Matcher::matches_protocol("icmp", Protocol::Icmp));
    assert!(!Matcher::matches_protocol("udp", Protocol::Tcp));
    assert!(!Matcher::matches_protocol("gre", Protocol::Other(47)));
}

#[test]
fn matcher_conditions_and_disabled_rules() {
    let cond = MatchCondition::new().with_dst_ip("10.0.0.0/8").with_dst_port("443").with_protocol("tcp");
    assert!(Matcher::matches_condition(&cond, &packet("10.2.3.4", Some(443), Protocol::Tcp)));
    assert!(!Matcher::matches_condition(&cond, &packet("10.2.3.4", Some(443), Protocol::Udp)));
    assert!(!Matcher::matches_condition(&cond, &packet("10.2.3.4", Some(444), Protocol::Tcp)));
    assert!(!Matcher::matches_condition(&cond, &packet("11.2.3.4", Some(443), Protocol::Tcp)));
    let rule = RoutingRule::new("r", cond, RoutingAction::Proxy);
    assert!(Matcher::matches(&rule, &packet("10.2.3.4", Some(443), Protocol::Tcp)));
    let off = rule.with_enabled(false);
    assert!(!Matcher::matches(&off, &packet("10.2.3.4", Some(443), Protocol::Tcp)));
}

#[test]
fn protocol_names() {
    assert_eq!(Protocol::from_str("TCP"), Some(Protocol::Tcp));
    assert_eq!(Protocol::from_str("iCmP"), Some(Protocol::Icmp));
    assert_eq!(Protocol::from_str("sctp"), None);
    assert_eq!(Protocol::from(6u8), Protocol::Tcp);
    assert_eq!(Protocol::from(17u8), Protocol::Udp);
    assert_eq!(Protocol::from(1u8), Protocol::Icmp);
    assert_eq!(Protocol::from(47u8), Protocol::Other(47));
    assert_eq!(Protocol::Other(47).to_string(), "other(47)");
    assert_eq!(Protocol::Udp.to_string(), "udp");
    assert_eq!(Protocol::default(), Protocol::Other(0));
}

#[test]
fn match_condition_builders() {
    let empty = MatchCondition::new();
    assert!(!empty.has_conditions());
    let c = MatchCondition::new().with_dst_port("53");
    assert!(c.has_conditions());
    assert_eq!(c.dst_port, Some("53".to_string()));
    assert_eq!(c.dst_ip, None);
    let r = RoutingRule::new("dns", c, RoutingAction::Direct);
    assert_eq!(r.id, 0);
    assert_eq!(r.priority, 0);
    assert!(r.enabled);
    let r = r.with_id(9).with_priority(100);
    assert_eq!(r.id, 9);
    assert_eq!(r.priority, 100);
}

#[test]
fn validate_reports_first_invalid_rule() {
    let mut config = RuleConfig::default();
    config.rules.push(RoutingRule::new("ok", MatchCondition::new().with_dst_port("80"), RoutingAction::Direct));
    config.rules.push(RoutingRule::new("empty", MatchCondition::new(), RoutingAction::Drop));
    config.rules.push(RoutingRule::new("bad-port", MatchCondition::new().with_dst_port("9-1"), RoutingAction::Drop));
    match config.validate() {
        Err(ConfigError::ValidationError(m)) => assert_eq!(m, "规则 'empty' (索引 1) 没有任何匹配条件"),
        other => panic!("unexpected {:?}", other),
    }
}

#[test]
fn validate_error_kinds() {
    let mut config = RuleConfig::default();
    config.rules.push(RoutingRule::new("p", MatchCondition::new().with_dst_port("9-1"), RoutingAction::Drop));
    let e = config.validate().unwrap_err();
    match &e {
        ConfigError::InvalidPortRange(m) => {
            assert_eq!(m, "规则 'p' 的 dst_port 无效: 9-1 (起始端口大于结束端口)")
        }
        other => panic!("unexpected {:?}", other),
    }
    assert_eq!(e.to_string(), "无效的端口范围: 规则 'p' 的 dst_port 无效: 9-1 (起始端口大于结束端口)");

    let mut config = RuleConfig::default();
    config.rules.push(RoutingRule::new("q", MatchCondition::new().with_protocol("gre"), RoutingAction::Drop));
    match config.validate() {
        Err(ConfigError::ValidationError(m)) => {
            assert_eq!(m, "规则 'q' 的 protocol 无效: gre (必须是 tcp/udp/icmp)")
        }
        other => panic!("unexpected {:?}", other),
    }

    let mut config = RuleConfig::default();
    config.rules.push(RoutingRule::new("c", MatchCondition::new().with_dst_ip("10.0.0.0/40"), RoutingAction::Drop));
    match config.validate() {
        Err(ConfigError::InvalidCidr(m)) => assert!(m.starts_with("规则 'c' 的 dst_ip 无效: 10.0.0.0/40 (")),
        other => panic!("unexpected {:?}", other),
    }
    assert_eq!(
        ConfigError::ValidationError("x".to_string()).to_string(),
        "规则验证失败: x"
    );
    assert_eq!(ConfigError::InvalidCidr("y".to_string()).to_string(), "无效的 CIDR 表示: y");
}

#[test]
fn assign_ids_fills_only_zero_ids() {
    let mut config = RuleConfig::default();
    config.rules.push(RoutingRule::new("a", MatchCondition::new().with_dst_port("1"), RoutingAction::Direct));
    config.rules.push(RoutingRule::new("b", MatchCondition::new().with_dst_port("2"), RoutingAction::Direct).with_id(77));
    config.rules.push(RoutingRule::new("c", MatchCondition::new().with_dst_port("3"), RoutingAction::Direct));
    let assigned = config.assign_ids();
    let ids: Vec<u32> = assigned.rules.iter().map(|r| r.id).collect();
    assert_eq!(ids, vec![1, 77, 3]);
    let again = assigned.clone().assign_ids();
    let ids_again: Vec<u32> = again.rules.iter().map(|r| r.id).collect();
    assert_eq!(ids_again, ids);
}

#[test]
fn action_text_and_default() {
    assert_eq!(RoutingAction::default(), RoutingAction::Direct);
    assert_eq!(RoutingAction::Direct.to_string(), "direct");
    assert_eq!(RoutingAction::Intranet.to_string(), "intranet");
    assert_eq!(RoutingAction::Proxy.to_string(), "proxy");
    assert_eq!(RoutingAction::Drop.to_string(), "drop");
    assert_eq!(sase::routing::config::default_action(), RoutingAction::Direct);
}

#[test]
fn decision_constructors() {
    let d = RoutingDecision::default_action(RoutingAction::Proxy);
    assert!(d.is_default);
    assert_eq!(d.rule_id(), None);
    assert!(!d.is_drop());
    assert_eq!(d.to_string(), "default -> proxy");
    let r = RoutingDecision::from_rule(4, "block".to_string(), RoutingAction::Drop);
    assert!(!r.is_default);
    assert!(r.is_drop());
    assert_eq!(r.rule_id(), Some(4));
    assert_eq!(r.to_string(), "rule 'block' (id=4) -> drop");
}

#[test]
fn context_text() {
    let p = PacketContext::new(ip("10.0.0.1"), ip("8.8.8.8"), Some(5353), Some(53), Protocol::Udp);
    assert_eq!(p.to_string(), "10.0.0.1:5353 -> 8.8.8.8:53 (udp)");
    let q = PacketContext::new(ip("10.0.0.1"), ip("8.8.4.4"), None, None, Protocol::Icmp);
    assert_eq!(q.to_string(), "10.0.0.1:- -> 8.8.4.4:- (icmp)");
}

fn ipv4_udp_packet(src: [u8; 4], dst: [u8; 4], sport: u16, dport: u16) -> Vec<u8> {
    let payload = [1u8, 2, 3, 4];
    let total = 20 + 8 + payload.len();
    let mut p = vec![0x45, 0, (total >> 8) as u8, total as u8, 0, 0, 0x40, 0, 64, 17, 0, 0];
    p.extend_from_slice(&src);
    p.extend_from_slice(&dst);
    let udp_len = 8 + payload.len();
    p.extend_from_slice(&sport.to_be_bytes());
    p.extend_from_slice(&dport.to_be_bytes());
    p.extend_from_slice(&(udp_len as u16).to_be_bytes());
    p.extend_from_slice(&[0, 0]);
    p.extend_from_slice(&payload);
    p
}

fn ipv4_tcp_packet(src: [u8; 4], dst: [u8; 4], sport: u16, dport: u16) -> Vec<u8> {
    let total = 20 + 20;
    let mut p = vec![0x45, 0, 0, total as u8, 0, 0, 0x40, 0, 64, 6, 0, 0];
    p.extend_from_slice(&src);
    p.extend_from_slice(&dst);
    p.extend_from_slice(&sport.to_be_bytes());
    p.extend_from_slice(&dport.to_be_bytes());
    p.extend_from_slice(&[0, 0, 0, 1, 0, 0, 0, 0, 0x50, 0x02, 0xff, 0xff, 0, 0, 0, 0]);
    p
}

#[test]
fn context_from_ip_packets() {
    let udp = ipv4_udp_packet([10, 0, 0, 2], [8, 8, 8, 8], 5353, 53);
    let ctx = PacketContext::from_ip_packet(&udp).unwrap();
    assert_eq!(ctx, PacketContext::new(ip("10.0.0.2"), ip("8.8.8.8"), Some(5353), Some(53), Protocol::Udp));
    let tcp = ipv4_tcp_packet([10, 0, 0, 2], [1, 1, 1, 1], 40001, 443);
    let ctx = PacketContext::from_ip_packet(&tcp).unwrap();
    assert_eq!(ctx.protocol, Protocol::Tcp);
    assert_eq!(ctx.dst_port, Some(443));
    assert_eq!(ctx.src_ip, ip("10.0.0.2"));
    assert_eq!(PacketContext::from_ip_packet(&[0x45, 0, 0]), None);
    assert_eq!(PacketContext::from_ip_packet(&[]), None);
}

#[test]
fn forwarding_follows_the_decision() {
    let mut config = RuleConfig::default();
    config.rules.push(RoutingRule::new("no-dns", MatchCondition::new().with_dst_port("53").with_protocol("udp"), RoutingAction::Drop));
    let engine = HotReloadableEngine::new(RoutingEngine::from_config(config).unwrap());
    let dns = ipv4_udp_packet([10, 0, 0, 2], [8, 8, 8, 8], 5353, 53);
    let web = ipv4_tcp_packet([10, 0, 0, 2], [1, 1, 1, 1], 40001, 443);
    assert!(!sase::tunnel::forward_from_tun(Some(&engine), &dns));
    assert!(sase::tunnel::forward_from_tun(Some(&engine), &web));
    assert!(sase::tunnel::forward_from_tun(None, &dns));
    assert!(sase::tunnel::forward_from_tun(Some(&engine), &[1, 2, 3]));
}

#[test]
fn hot_reload_replaces_rules() {
    let mut first = RuleConfig::default();
    first.rules.push(RoutingRule::new("drop-web", MatchCondition::new().with_dst_port("443"), RoutingAction::Drop));
    let mut engine = HotReloadableEngine::new(RoutingEngine::from_config(first).unwrap());
    let web = packet("1.1.1.1", Some(443), Protocol::Tcp);
    assert_eq!(engine.rule_count(), 1);
    assert_eq!(engine.match_packet(&web).action, RoutingAction::Drop);

    let mut second = RuleConfig::default();
    second.default_action = RoutingAction::Proxy;
    engine.replace(RoutingEngine::from_config(second).unwrap());
    assert_eq!(engine.rule_count(), 0);
    assert_eq!(engine.default_action(), RoutingAction::Proxy);
    let d = engine.match_packet(&web);
    assert!(d.is_default);
    assert_eq!(d.action, RoutingAction::Proxy);
}

#[test]
fn refused_reload_keeps_the_engine() {
    let mut first = RuleConfig::default();
    first.rules.push(RoutingRule::new("drop-web", MatchCondition::new().with_dst_port("443"), RoutingAction::Drop));
    let mut engine = HotReloadableEngine::new(RoutingEngine::from_config(first).unwrap());
    let web = packet("1.1.1.1", Some(443), Protocol::Tcp);

    let mut bad = RuleConfig::default();
    bad.default_action = RoutingAction::Proxy;
    bad.rules.push(RoutingRule::new("empty", MatchCondition::new(), RoutingAction::Direct));
    match engine.reload_config(bad) {
        Err(ConfigError::ValidationError(m)) => assert_eq!(m, "规则 'empty' (索引 0) 没有任何匹配条件"),
        other => panic!("unexpected {:?}", other),
    }
    assert_eq!(engine.rule_count(), 1);
    assert_eq!(engine.match_packet(&web).action, RoutingAction::Drop);

    let mut good = RuleConfig::default();
    good.rules.push(RoutingRule::new("proxy-web", MatchCondition::new().with_dst_port("443"), RoutingAction::Proxy).with_priority(5));
    good.rules.push(RoutingRule::new("drop-web", MatchCondition::new().with_dst_port("443"), RoutingAction::Drop));
    assert!(engine.reload_config(good).is_ok());
    assert_eq!(engine.rule_count(), 2);
    let d = engine.match_packet(&web);
    assert_eq!(d.action, RoutingAction::Proxy);
    assert_eq!(d.rule_id, Some(1));
}

#[test]
fn rule_order_does_not_matter_with_distinct_ids() {
    let a = RoutingRule::new("a", MatchCondition::new().with_dst_port("443"), RoutingAction::Proxy).with_id(7).with_priority(3);
    let b = RoutingRule::new("b", MatchCondition::new().with_dst_port("400-500"), RoutingAction::Drop).with_id(2).with_priority(3);
    let c = RoutingRule::new("c", MatchCondition::new().with_protocol("udp"), RoutingAction::Direct).with_id(5).with_priority(9);
    let mut one = RuleConfig::default();
    one.rules = vec![a.clone(), b.clone(), c.clone()];
    let mut two = RuleConfig::default();
    two.rules = vec![c, b, a];
    let e1 = RoutingEngine::from_config(one).unwrap();
    let e2 = RoutingEngine::from_config(two).unwrap();
    for p in [
        packet("1.1.1.1", Some(443), Protocol::Tcp),
        packet("1.1.1.1", Some(450), Protocol::Udp),
        packet("1.1.1.1", Some(80), Protocol::Tcp),
    ] {
        let (d1, d2) = (e1.match_packet(&p), e2.match_packet(&p));
        assert_eq!((d1.action, d1.rule_id, d1.rule_name.clone(), d1.is_default), (d2.action, d2.rule_id, d2.rule_name, d2.is_default));
    }
    let d = e1.match_packet(&packet("1.1.1.1", Some(443), Protocol::Tcp));
    assert_eq!(d.rule_id, Some(2));
}

#[test]
fn from_config_leaves_validation_to_the_reader() {
    let mut config = RuleConfig::default();
    config.rules.push(RoutingRule::new("empty", MatchCondition::new(), RoutingAction::Drop));
    assert!(config.validate().is_err());
    let engine = RoutingEngine::from_config(config).unwrap();
    assert_eq!(engine.rule_count(), 1);
    let d = engine.match_packet(&packet("1.2.3.4", Some(1), Protocol::Tcp));
    assert_eq!(d.action, RoutingAction::Drop);
    assert_eq!(d.rule_id, Some(1));
}

#[test]
fn context_of_icmp_and_ipv6_packets() {
    let mut icmp = vec![0x45, 0, 0, 28, 0, 0, 0, 0, 64, 1, 0, 0, 10, 0, 0, 2, 8, 8, 4, 4];
    icmp.extend_from_slice(&[8, 0, 0, 0, 0, 1, 0, 1]);
    let ctx = PacketContext::from_ip_packet(&icmp).unwrap();
    assert_eq!(ctx, PacketContext::new(ip("10.0.0.2"), ip("8.8.4.4"), None, None, Protocol::Icmp));
    let mut v6 = vec![0x60, 0, 0, 0, 0, 0, 59, 64];
    v6.extend_from_slice(&[0u8; 32]);
    assert_eq!(PacketContext::from_ip_packet(&v6), None);
}
