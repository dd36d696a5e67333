use sase::routing::{MatchCondition, PacketContext, Protocol, RoutingAction, RoutingEngine, RoutingRule, RuleConfig};

fn action_named(name: &str) -> RoutingAction {
    match name {
        "direct" => RoutingAction::Direct,
        "intranet" => RoutingAction::Intranet,
        "proxy" => RoutingAction::Proxy,
        "drop" => RoutingAction::Drop,
        other => panic!("unknown action {}", other),
    }
}

/// Builds a rule configuration from TOML text, the way rule files are read.
fn config_from_toml(text: &str) -> RuleConfig {
    let table: toml::Table = text.parse().unwrap();
    let mut config = RuleConfig::default();
    if let Some(a) = table.get("default_action") {
        config.default_action = action_named(a.as_str().unwrap());
    }
    if let Some(rules) = table.get("rules").and_then(|v| v.as_array()) {
        for r in rules {
            let t = r.as_table().unwrap();
            let c = t.get("match_cond").unwrap().as_table().unwrap();
            let mut cond = MatchCondition::new();
            if let Some(v) = c.get("dst_ip") {
                cond = cond.with_dst_ip(v.as_str().unwrap());
            }
            if let Some(v) = c.get("dst_port") {
                cond = cond.with_dst_port(v.as_str().unwrap());
            }
            if let Some(v) = c.get("protocol") {
                cond = cond.with_protocol(v.as_str().unwrap());
            }
            let name = t.get("name").unwrap().as_str().unwrap();
            let action = action_named(t.get("action").unwrap().as_str().unwrap());
            let mut rule = RoutingRule::new(name, cond, action);
            if let Some(v) = t.get("id") {
                rule = rule.with_id(v.as_integer().unwrap() as u32);
            }
            if let Some(v) = t.get("priority") {
                rule = rule.with_priority(v.as_integer().unwrap() as u32);
            }
            if let Some(v) = t.get("enabled") {
                rule = rule.with_enabled(v.as_bool().unwrap());
            }
            config.rules.push(rule);
        }
    }
    config.validate().unwrap();
    config
}

/// A dotted-quad address as a number, most significant octet first.
fn ip(s: &str) -> u32 {
    s.split('.').fold(0u32, |acc, octet| (acc << 8) | octet.parse::<u8>().unwrap() as u32)
}

fn create_test_engine() -> RoutingEngine {
    RoutingEngine::from_config(config_from_toml(
        r#"
default_action = "direct"

[[rules]]
name = "ssh drop"
priority = 200
match_cond = { dst_port = "22", protocol = "tcp" }
action = "drop"

[[rules]]
name = "intranet"
priority = 100
match_cond = { dst_ip = "10.0.0.0/8" }
action = "intranet"

[[rules]]
name = "https proxy"
priority = 50
match_cond = { dst_port = "443" }
action = "proxy"
"#,
    ))
    .unwrap()
}

#[test]
fn test_matches_highest_priority_rule() {
    let engine = create_test_engine();
    let packet = PacketContext::new(ip("192.168.1.1"), ip("10.0.1.5"), Some(12345), Some(22), Protocol::Tcp);

    let decision = engine.match_packet(&packet);
    assert_eq!(decision.action, RoutingAction::Drop);
    assert_eq!(decision.rule_id, Some(1));
}

#[test]
fn test_uses_default_action_when_no_rule_matches() {
    let engine = create_test_engine();
    let packet = PacketContext::new(ip("192.168.1.1"), ip("8.8.8.8"), Some(12345), Some(80), Protocol::Tcp);

    let decision = engine.match_packet(&packet);
    assert_eq!(decision.action, RoutingAction::Direct);
    assert!(decision.is_default);
}

#[test]
fn test_matches_port_rule() {
    let engine = create_test_engine();
    let packet = PacketContext::new(ip("192.168.1.1"), ip("8.8.8.8"), Some(12345), Some(443), Protocol::Tcp);

    let decision = engine.match_packet(&packet);
    assert_eq!(decision.action, RoutingAction::Proxy);
    assert_eq!(decision.rule_name.as_deref(), Some("https proxy"));
}

#[test]
fn intranet_rule_matches_inside_network() {
    let engine = create_test_engine();
    let packet = PacketContext::new(ip("192.168.1.1"), ip("10.0.1.5"), Some(12345), Some(80), Protocol::Tcp);
    let decision = engine.match_packet(&packet);
    assert_eq!(decision.action, RoutingAction::Intranet);
    assert_eq!(decision.rule_id, Some(2));
    assert!(!decision.is_default);
}

#[test]
fn rules_are_tried_by_priority_then_id() {
    let any_tcp = || MatchCondition::new().with_protocol("tcp");
    let mut config = RuleConfig::default();
    config.rules.push(RoutingRule::new("low", any_tcp(), RoutingAction::Proxy).with_priority(1));
    config.rules.push(RoutingRule::new("high-b", any_tcp(), RoutingAction::Drop).with_priority(9).with_id(7));
    config.rules.push(RoutingRule::new("high-a", any_tcp(), RoutingAction::Intranet).with_priority(9).with_id(5));
    let engine = RoutingEngine::from_config(config).unwrap();
    assert_eq!(engine.rule_count(), 3);
    let packet = PacketContext::new(ip("1.1.1.1"), ip("2.2.2.2"), Some(1), Some(2), Protocol::Tcp);
    let decision = engine.match_packet(&packet);
    assert_eq!(decision.rule_name.as_deref(), Some("high-a"));
    assert_eq!(decision.action, RoutingAction::Intranet);
}

#[test]
fn disabled_rule_never_matches() {
    let mut config = RuleConfig::default();
    config.default_action = RoutingAction::Proxy;
    config
        .rules
        .push(RoutingRule::new("off", MatchCondition::new().with_protocol("udp"), RoutingAction::Drop).with_enabled(false));
    let engine = RoutingEngine::from_config(config).unwrap();
    let packet = PacketContext::new(ip("1.1.1.1"), ip("2.2.2.2"), Some(1), Some(53), Protocol::Udp);
    let decision = engine.match_packet(&packet);
    assert!(decision.is_default);
    assert_eq!(decision.action, RoutingAction::Proxy);
    assert_eq!(decision.rule_id(), None);
    assert_eq!(decision.to_string(), "default -> proxy");
    assert_eq!(engine.default_action(), RoutingAction::Proxy);
}

#[test]
fn decision_text_names_rule() {
    let engine = create_test_engine();
    let packet = PacketContext::new(ip("1.1.1.1"), ip("9.9.9.9"), Some(1), Some(443), Protocol::Udp);
    let decision = engine.match_packet(&packet);
    assert_eq!(decision.to_string(), "rule 'https proxy' (id=3) -> proxy");
    assert!(!decision.is_drop());
}
