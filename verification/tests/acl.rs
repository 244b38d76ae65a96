//! Access-control evaluation: IP lists, domain patterns, and rule
//! scanning.

use net_relay::config::{AccessControlConfig, AccessRule, RuleAction};

fn rule(domain: &str, action: RuleAction, enabled: bool) -> AccessRule {
    AccessRule {
        name: String::new(),
        domain: domain.to_string(),
        path: None,
        action,
        enabled,
    }
}

#[test]
fn wildcard_matches_subdomain_and_bare_domain() {
    assert!(net_relay::config::domain_matches("a.example.com", "*.example.com"));
    assert!(net_relay::config::domain_matches("example.com", "*.example.com"));
}

#[test]
fn wildcard_rejects_other_domains() {
    assert!(!net_relay::config::domain_matches("example.org", "*.example.com"));
    assert!(!net_relay::config::domain_matches("evil-example.com", "*.example.com"));
}

#[test]
fn exact_domain_pattern() {
    assert!(net_relay::config::domain_matches("example.com", "example.com"));
    assert!(!net_relay::config::domain_matches("a.example.com", "example.com"));
    assert!(!net_relay::config::domain_matches("Example.com", "example.com"));
}

#[test]
fn ip_exact_and_prefix_patterns() {
    assert!(net_relay::config::ip_matches("10.0.0.5", "10.0.0.5"));
    assert!(!net_relay::config::ip_matches("10.0.0.50", "10.0.0.5"));
    assert!(net_relay::config::ip_matches("192.168.1.7", "192.168.1/24"));
    assert!(!net_relay::config::ip_matches("192.168.2.7", "192.168.1/24"));
}

#[test]
fn blacklist_denies_first() {
    let mut ac = AccessControlConfig::default();
    ac.ip_blacklist.push("10.0.0.5".to_string());
    assert!(!ac.is_ip_allowed("10.0.0.5"));
    assert!(ac.is_ip_allowed("10.0.0.6"));
}

#[test]
fn nonempty_whitelist_admits_only_members() {
    let mut ac = AccessControlConfig::default();
    ac.ip_whitelist.push("10.1.2.3".to_string());
    assert!(ac.is_ip_allowed("10.1.2.3"));
    assert!(!ac.is_ip_allowed("10.1.2.4"));
}

#[test]
fn empty_whitelist_is_no_constraint() {
    let ac = AccessControlConfig::default();
    assert!(ac.is_ip_allowed("203.0.113.9"));
}

#[test]
fn blacklist_wins_over_whitelist() {
    let mut ac = AccessControlConfig::default();
    ac.ip_whitelist.push("10.0.0.5".to_string());
    ac.ip_blacklist.push("10.0.0.5".to_string());
    assert!(!ac.is_ip_allowed("10.0.0.5"));
}

#[test]
fn same_snapshot_same_ip_same_result() {
    let mut ac = AccessControlConfig::default();
    ac.ip_blacklist.push("10.0.0.5".to_string());
    let first = ac.is_ip_allowed("10.0.0.5");
    let second = ac.is_ip_allowed("10.0.0.5");
    assert_eq!(first, second);
}

#[test]
fn first_enabled_matching_rule_decides() {
    let mut ac = AccessControlConfig::default();
    ac.rules.push(rule("*.example.com", RuleAction::Deny, false));
    ac.rules.push(rule("*.example.com", RuleAction::Allow, true));
    ac.rules.push(rule("*.example.com", RuleAction::Deny, true));
    assert!(ac.is_target_allowed("sub.example.com", None));
}

#[test]
fn no_matching_rule_falls_back_to_default() {
    let mut ac = AccessControlConfig::default();
    ac.rules.push(rule("*.example.com", RuleAction::Deny, true));
    assert!(ac.is_target_allowed("other.org", None));
    ac.allow_by_default = false;
    assert!(!ac.is_target_allowed("other.org", None));
}

#[test]
fn disabled_rule_never_matches() {
    let r = rule("*.example.com", RuleAction::Deny, false);
    assert!(!r.matches("a.example.com", None));
}

#[test]
fn path_prefix_rule() {
    let mut r = rule("example.com", RuleAction::Deny, true);
    r.path = Some("/admin".to_string());
    assert!(r.matches("example.com", Some("/admin/users")));
    assert!(!r.matches("example.com", Some("/public")));
    assert!(!r.matches("example.com", None));
}

#[test]
fn deny_rule_blocks_target() {
    let mut ac = AccessControlConfig::default();
    ac.rules.push(rule("*.example.com", RuleAction::Deny, true));
    assert!(!ac.is_target_allowed("sub.example.com", None));
}
