//! Tests for wildcard host matching and the policy engine.

use bwrap_core::config::{DefaultMode, HostGroup, NetworkConfig};
use bwrap_core::engine::PolicyEngine;
use bwrap_core::matcher::{calculate_hostname_specificity, wildcard_match, HostMatcher};
use bwrap_core::omap::OrderedMap;

fn group(hosts: &[&str], hosts_deny: &[&str], groups: &[&str]) -> HostGroup {
    HostGroup {
        description: String::new(),
        hosts: hosts.iter().map(|s| s.to_string()).collect(),
        hosts_deny: hosts_deny.iter().map(|s| s.to_string()).collect(),
        groups: groups.iter().map(|s| s.to_string()).collect(),
    }
}

#[test]
fn test_wildcard_matching() {
    let mut matcher = HostMatcher::new();
    matcher.add_pattern("*.example.com");
    matcher.add_pattern("test.*.org");

    assert!(matcher.matches_host("foo.example.com"));
    assert!(matcher.matches_host("bar.example.com"));
    assert!(matcher.matches_host("test.something.org"));
    assert!(!matcher.matches_host("example.com"));
    assert!(!matcher.matches_host("something.org"));
}

#[test]
fn test_specificity_matching() {
    let mut matcher = HostMatcher::new();
    matcher.add_pattern("*.example.com");
    matcher.add_pattern("*.api.example.com");

    // More specific pattern should win
    assert_eq!(matcher.matches_with_specificity("test.api.example.com"), Some(4));
    assert_eq!(matcher.matches_with_specificity("test.example.com"), Some(3));

    // No match
    assert_eq!(matcher.matches_with_specificity("other.org"), None);
}

#[test]
fn test_hostname_specificity() {
    assert_eq!(calculate_hostname_specificity("api.example.com"), 3);
    assert_eq!(calculate_hostname_specificity("test.api.example.com"), 4);
    assert_eq!(calculate_hostname_specificity("localhost"), 1);
    assert_eq!(calculate_hostname_specificity("example.com"), 2);
}

#[test]
fn wildcard_question_mark_matches_one_character() {
    assert!(wildcard_match("te?t.com", "test.com"));
    assert!(!wildcard_match("te?t.com", "tet.com"));
    assert!(wildcard_match("*", "anything.at.all"));
    assert!(wildcard_match("", ""));
    assert!(!wildcard_match("", "x"));
    assert!(wildcard_match("a*b*c", "axxbyyc"));
    assert!(!wildcard_match("a*b*c", "axxbyy"));
}

#[test]
fn engine_longest_match_and_default() {
    let mut groups: OrderedMap<HostGroup> = OrderedMap::new();
    groups.insert(
        "anthropic".to_string(),
        group(&["*.anthropic.com"], &[], &[]),
    );
    groups.insert(
        "secrets".to_string(),
        group(&[], &["internal.anthropic.com"], &[]),
    );
    let network = NetworkConfig { groups };
    let engine = PolicyEngine::from_network_policy(
        vec!["anthropic".to_string()],
        vec!["secrets".to_string()],
        DefaultMode::Deny,
        &network,
    )
    .unwrap();

    // allow pattern matches, deny does not
    assert!(engine.allow("api.anthropic.com", None));
    // both match with the same specificity: deny wins the tie
    assert!(!engine.allow("internal.anthropic.com", None));
    // neither matches: the default decides
    assert!(!engine.allow("example.com", None));
}

#[test]
fn engine_default_allow_falls_through() {
    let network = NetworkConfig { groups: OrderedMap::new() };
    let engine =
        PolicyEngine::from_network_policy(vec![], vec![], DefaultMode::Allow, &network).unwrap();
    assert!(engine.allow("anything.example", None));
}

#[test]
fn engine_expands_group_references() {
    let mut groups: OrderedMap<HostGroup> = OrderedMap::new();
    groups.insert("outer".to_string(), group(&["outer.com"], &[], &["inner"]));
    groups.insert("inner".to_string(), group(&["inner.com"], &[], &[]));
    let network = NetworkConfig { groups };
    let engine = PolicyEngine::from_network_policy(
        vec!["outer".to_string()],
        vec![],
        DefaultMode::Deny,
        &network,
    )
    .unwrap();
    assert!(engine.allow("outer.com", None));
    assert!(engine.allow("inner.com", None));
    assert!(!engine.allow("other.com", None));
}

#[test]
fn engine_reports_missing_group() {
    let network = NetworkConfig { groups: OrderedMap::new() };
    let r = PolicyEngine::from_network_policy(
        vec!["absent".to_string()],
        vec![],
        DefaultMode::Deny,
        &network,
    );
    assert!(r.is_err());
}
