//! Tests for configuration merging, validation, resolution and the
//! launcher's decisions.

use bwrap_core::builtin::get_builtin;
use bwrap_core::config::{
    Config, ConfigLoader, DefaultMode, FilesystemSpec, HostGroup, NetworkConfig, NetworkMode,
    NetworkPolicy, Policy,
};
use bwrap_core::launcher::{determine_network_mode, CommonArgs, NetworkDecision, ProxyMode};
use bwrap_core::resolver::{resolve_filesystem_config, resolve_policy};
use bwrap_core::validate::ConfigValidator;

fn group(hosts: &[&str], groups: &[&str]) -> HostGroup {
    HostGroup {
        description: "test".to_string(),
        hosts: hosts.iter().map(|s| s.to_string()).collect(),
        hosts_deny: Vec::new(),
        groups: groups.iter().map(|s| s.to_string()).collect(),
    }
}

fn plain_args() -> CommonArgs {
    CommonArgs {
        no_network: false,
        full_home_access: false,
        verbose: false,
        shell: false,
        allow_ro_paths: Vec::new(),
        allow_rw_paths: Vec::new(),
        dir: None,
        pass_env_vars: Vec::new(),
        proxy_config: None,
        bw_relay_path: None,
        policy: None,
        learn: None,
        learn_deny: None,
        list_policies: false,
        list_groups: false,
        cli_args: Vec::new(),
    }
}

#[test]
fn loader_test_default_config() {
    let config = Config::default();
    assert_eq!(config.common.config_version, "1.0");
    assert!(!config.common.verbose);
}

#[test]
fn test_builtin_loads() {
    let config = get_builtin();
    assert_eq!(config.common.config_version, "1.0");
}

#[test]
fn test_builtin_has_policies() {
    let config = get_builtin();
    assert!(config.policy.policies.get("shell").is_some(), "shell policy not found");
    assert!(config.policy.policies.get("agent").is_some(), "agent policy not found");
    assert!(config.policy.policies.get("gemini").is_some(), "gemini policy not found");
    assert!(config.policy.policies.get("deny").is_some(), "deny policy not found");
    assert!(config.policy.policies.get("open").is_some(), "open policy not found");
}

#[test]
fn test_no_cycle() {
    let mut network = NetworkConfig { groups: bwrap_core::omap::OrderedMap::new() };
    network.groups.insert("a".to_string(), group(&[], &["b"]));
    network.groups.insert("b".to_string(), group(&[], &[]));
    assert!(ConfigValidator::check_cycles(&network).is_ok());
}

#[test]
fn test_detect_cycle() {
    let mut network = NetworkConfig { groups: bwrap_core::omap::OrderedMap::new() };
    network.groups.insert("a".to_string(), group(&[], &["b"]));
    network.groups.insert("b".to_string(), group(&[], &["a"]));
    assert!(ConfigValidator::check_cycles(&network).is_err());
}

#[test]
fn validate_rejects_unsafe_patterns() {
    for bad in ["a**b.com", "bad\nhost", "bad\0host"] {
        let mut network = NetworkConfig { groups: bwrap_core::omap::OrderedMap::new() };
        network.groups.insert("g".to_string(), group(&[bad], &[]));
        assert!(ConfigValidator::validate_patterns(&network).is_err(), "{bad:?} accepted");
    }
    let mut network = NetworkConfig { groups: bwrap_core::omap::OrderedMap::new() };
    network.groups.insert("g".to_string(), group(&["*.example.com"], &[]));
    assert!(ConfigValidator::validate_patterns(&network).is_ok());
}

#[test]
fn validate_rejects_unsafe_deny_patterns() {
    // deny patterns get the same scrutiny as allow patterns
    for bad in ["a**b", "bad\nhost", "bad\0host"] {
        let mut network = NetworkConfig { groups: bwrap_core::omap::OrderedMap::new() };
        network.groups.insert(
            "g".to_string(),
            HostGroup {
                description: "test".to_string(),
                hosts: Vec::new(),
                hosts_deny: vec![bad.to_string()],
                groups: Vec::new(),
            },
        );
        assert!(ConfigValidator::validate(&network).is_err(), "{bad:?} accepted in hosts_deny");
    }
    let mut network = NetworkConfig { groups: bwrap_core::omap::OrderedMap::new() };
    network.groups.insert(
        "g".to_string(),
        HostGroup {
            description: "test".to_string(),
            hosts: Vec::new(),
            hosts_deny: vec!["internal.example.com".to_string()],
            groups: Vec::new(),
        },
    );
    assert!(ConfigValidator::validate(&network).is_ok());
}

#[test]
fn validate_rejects_unknown_references() {
    let mut network = NetworkConfig { groups: bwrap_core::omap::OrderedMap::new() };
    network.groups.insert("a".to_string(), group(&[], &["missing"]));
    assert!(ConfigValidator::validate_references(&network).is_err());
}

#[test]
fn merge_override_wins_and_extends() {
    let mut base = Config::default();
    base.network.groups.insert("shared".to_string(), group(&["base.com"], &[]));
    base.network.groups.insert("only_base".to_string(), group(&["b.com"], &[]));
    let mut over = Config::default();
    over.network.groups.insert("shared".to_string(), group(&["override.com"], &[]));
    over.network.groups.insert("only_over".to_string(), group(&["o.com"], &[]));

    let merged = ConfigLoader::merge_configs(base, over);
    // the override's entry replaces the base's wholesale
    let shared = merged.network.groups.get("shared").unwrap();
    assert_eq!(shared.hosts, vec!["override.com".to_string()]);
    // entries unique to either side survive
    assert!(merged.network.groups.get("only_base").is_some());
    assert!(merged.network.groups.get("only_over").is_some());
    // the base entry keeps its position, the new key is appended
    assert_eq!(merged.network.groups.key_at(0).as_str(), "shared");
    assert_eq!(merged.network.groups.key_at(2).as_str(), "only_over");
}

#[test]
fn merge_with_itself_changes_nothing() {
    let mut config = Config::default();
    config.network.groups.insert("g".to_string(), group(&["a.com"], &[]));
    config.policy.policies.insert("p".to_string(), Policy::default());
    let copy = config.clone();

    let merged = ConfigLoader::merge_configs(config, copy);
    assert_eq!(merged.network.groups.len(), 1);
    assert_eq!(merged.network.groups.get("g").unwrap().hosts, vec!["a.com".to_string()]);
    assert_eq!(merged.policy.policies.len(), 1);
    assert_eq!(merged.common.config_version, "1.0");
}

#[test]
fn extends_composition() {
    let mut config = Config::default();
    let mut base_spec = FilesystemSpec::default();
    base_spec.ro_home_dirs.push(".cargo".to_string());
    config.filesystem.configs.insert("base".to_string(), base_spec);
    let mut dev_spec = FilesystemSpec::default();
    dev_spec.extends.push("base".to_string());
    dev_spec.ro_home_dirs.push(".rustup".to_string());
    config.filesystem.configs.insert("dev".to_string(), dev_spec);

    let resolved = resolve_filesystem_config(&config, "dev").unwrap();
    assert_eq!(resolved.ro_home_dirs, vec![".cargo".to_string(), ".rustup".to_string()]);
    assert!(resolved.extends.is_empty());
}

#[test]
fn extends_cycle_is_rejected() {
    let mut config = Config::default();
    let mut a = FilesystemSpec::default();
    a.extends.push("b".to_string());
    config.filesystem.configs.insert("a".to_string(), a);
    let mut b = FilesystemSpec::default();
    b.extends.push("a".to_string());
    config.filesystem.configs.insert("b".to_string(), b);

    let err = resolve_filesystem_config(&config, "a").unwrap_err();
    match err {
        bwrap_core::error::SandboxError::ConfigError(m) => {
            assert!(m.starts_with("Circular reference in filesystem config:"));
        }
        other => panic!("unexpected error {other:?}"),
    }
}

#[test]
fn resolve_policy_not_found() {
    let config = Config::default();
    let err = resolve_policy(&config, "absent").unwrap_err();
    match err {
        bwrap_core::error::SandboxError::ConfigError(m) => {
            assert!(m.starts_with("Policy not found:"));
        }
        other => panic!("unexpected error {other:?}"),
    }
}

#[test]
fn proxy_mode_parse_and_print() {
    assert!(matches!(ProxyMode::parse("open"), Ok(ProxyMode::Open)));
    assert!(matches!(ProxyMode::parse("learning"), Ok(ProxyMode::Learning)));
    match ProxyMode::parse("restrictive:agent") {
        Ok(ProxyMode::Restrictive(p)) => assert_eq!(p, "agent"),
        other => panic!("unexpected {other:?}"),
    }
    assert!(ProxyMode::parse("restrictive:").is_err());
    assert!(ProxyMode::parse("bogus").is_err());
    assert_eq!(ProxyMode::Restrictive("x".to_string()).to_string(), "restrictive:x");
}

#[test]
fn open_policy_runs_without_filtering() {
    let mut args = plain_args();
    args.policy = Some("open".to_string());
    let (decision, name) = determine_network_mode(&args);
    assert!(matches!(decision, NetworkDecision::Enabled));
    assert_eq!(name, "open");
}

#[test]
fn lockdown_policy_disables_network() {
    let mut args = plain_args();
    args.policy = Some("lockdown".to_string());
    let (decision, name) = determine_network_mode(&args);
    assert!(matches!(decision, NetworkDecision::Disabled));
    assert_eq!(name, "lockdown");
}

#[test]
fn learn_flag_selects_open_policy_with_recording() {
    let mut args = plain_args();
    args.learn = Some("/tmp/out.toml".to_string());
    let (decision, name) = determine_network_mode(&args);
    assert_eq!(name, "open");
    match decision {
        NetworkDecision::Filtered { policy_name, learning_mode, learning_output } => {
            assert_eq!(policy_name, "open");
            assert_eq!(learning_mode.as_deref(), Some("learn"));
            assert_eq!(learning_output.as_deref(), Some("/tmp/out.toml"));
        }
        other => panic!("unexpected {other:?}"),
    }
}

#[test]
fn learn_deny_flag_defaults_to_deny_policy() {
    let mut args = plain_args();
    args.learn_deny = Some("/tmp/den.toml".to_string());
    let (decision, name) = determine_network_mode(&args);
    assert_eq!(name, "deny");
    match decision {
        NetworkDecision::Filtered { policy_name, learning_mode, learning_output } => {
            assert_eq!(policy_name, "deny");
            assert_eq!(learning_mode.as_deref(), Some("learn_deny"));
            assert_eq!(learning_output.as_deref(), Some("/tmp/den.toml"));
        }
        other => panic!("unexpected {other:?}"),
    }
}

#[test]
fn effective_allow_groups_honours_alias() {
    let mut np = NetworkPolicy {
        network: NetworkMode::Proxy,
        default: DefaultMode::Deny,
        allow_groups: Vec::new(),
        deny_groups: Vec::new(),
        groups: vec!["legacy".to_string()],
    };
    assert_eq!(np.effective_allow_groups(), vec!["legacy".to_string()]);
    np.allow_groups.push("new".to_string());
    assert_eq!(np.effective_allow_groups(), vec!["new".to_string()]);
}

#[test]
fn error_messages_name_the_failure() {
    let mut network = NetworkConfig { groups: bwrap_core::omap::OrderedMap::new() };
    network.groups.insert("a".to_string(), group(&[], &["b"]));
    network.groups.insert("b".to_string(), group(&[], &["a"]));
    let err = ConfigValidator::check_cycles(&network).unwrap_err();
    let text = err.message();
    assert!(text.starts_with("Cycle detected in group references:"));
    assert!(text.contains(" -> "));

    let err = resolve_policy(&Config::default(), "absent").unwrap_err();
    assert_eq!(err.message(), "Config error: Policy not found: absent");
}
