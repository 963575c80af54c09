//! The built-in default configuration: the lowest-priority layer, with
//! the stock host groups, filesystem specs, policies and tool entries.

use vstd::prelude::*;

use crate::config::{
    Config, DefaultMode, FilesystemSpec, HostGroup, NetworkMode, NetworkPolicy, Policy, ToolConfig,
};

verus! {

/// One string, owned.
fn s(text: &str) -> (r: String)
    ensures
        r@ == text@,
{
    text.to_owned()
}

/// A host group with the given allow patterns.
fn allow_group(description: &str, hosts: Vec<String>) -> (r: HostGroup)
    ensures
        r.description@ == description@,
        r.hosts == hosts,
        r.hosts_deny@.len() == 0,
        r.groups@.len() == 0,
{
    HostGroup { description: s(description), hosts, hosts_deny: Vec::new(), groups: Vec::new() }
}

/// A policy with the given network settings.
fn policy_of(
    description: &str,
    network: NetworkMode,
    default: DefaultMode,
    allow_groups: Vec<String>,
    filesystem: Option<String>,
) -> (r: Policy)
    ensures
        r.network.network == network,
        r.network.default == default,
        r.network.allow_groups == allow_groups,
        r.network.deny_groups@.len() == 0,
        r.network.groups@.len() == 0,
{
    Policy {
        description: Some(s(description)),
        network: NetworkPolicy {
            network,
            default,
            allow_groups,
            deny_groups: Vec::new(),
            groups: Vec::new(),
        },
        filesystem,
    }
}

/// Build the built-in configuration: the `anthropic` and `google` host
/// groups, a `base` filesystem spec, and the `open`, `lockdown`,
/// `deny`, `shell`, `agent` and `gemini` policies.
pub fn builtin_config() -> (r: Config)
    ensures
        r.wf(),
        r.common.config_version@ == "1.0"@,
{
    let mut config = Config::default();

    let mut anthropic_hosts: Vec<String> = Vec::new();
    anthropic_hosts.push(s("*.anthropic.com"));
    anthropic_hosts.push(s("agent-api.example"));
    anthropic_hosts.push(s("statsig.anthropic.com"));
    config.network.groups.insert(s("anthropic"), allow_group("Anthropic services", anthropic_hosts));

    let mut google_hosts: Vec<String> = Vec::new();
    google_hosts.push(s("*.googleapis.com"));
    google_hosts.push(s("*.google.com"));
    config.network.groups.insert(s("google"), allow_group("Google services", google_hosts));

    let mut packages_hosts: Vec<String> = Vec::new();
    packages_hosts.push(s("*.github.com"));
    packages_hosts.push(s("*.crates.io"));
    packages_hosts.push(s("registry.npmjs.org"));
    packages_hosts.push(s("pypi.org"));
    config.network.groups.insert(s("packages"), allow_group("Package registries", packages_hosts));

    let mut base_spec = FilesystemSpec::default();
    base_spec.description = Some(s("Baseline developer filesystem"));
    base_spec.ro_home_dirs.push(s(".cargo"));
    base_spec.ro_home_dirs.push(s(".rustup"));
    base_spec.ro_home_files.push(s(".gitconfig"));
    base_spec.essential_etc_files.push(s("hostname"));
    base_spec.essential_etc_files.push(s("hosts"));
    base_spec.essential_etc_files.push(s("resolv.conf"));
    base_spec.essential_etc_files.push(s("passwd"));
    base_spec.essential_etc_files.push(s("group"));
    base_spec.essential_etc_dirs.push(s("ssl"));
    base_spec.essential_etc_dirs.push(s("pki"));
    config.filesystem.configs.insert(s("base"), base_spec);

    config.policy.policies.insert(
        s("open"),
        policy_of(
            "Full network access",
            NetworkMode::Open,
            DefaultMode::Allow,
            Vec::new(),
            Some(s("base")),
        ),
    );
    config.policy.policies.insert(
        s("lockdown"),
        policy_of(
            "No network access",
            NetworkMode::Disabled,
            DefaultMode::Deny,
            Vec::new(),
            Some(s("base")),
        ),
    );
    config.policy.policies.insert(
        s("deny"),
        policy_of(
            "Deny everything not allowed",
            NetworkMode::Proxy,
            DefaultMode::Deny,
            Vec::new(),
            Some(s("base")),
        ),
    );
    config.policy.policies.insert(
        s("shell"),
        policy_of(
            "Interactive shell with open network",
            NetworkMode::Open,
            DefaultMode::Allow,
            Vec::new(),
            Some(s("base")),
        ),
    );
    let mut agent_groups: Vec<String> = Vec::new();
    agent_groups.push(s("anthropic"));
    agent_groups.push(s("packages"));
    config.policy.policies.insert(
        s("agent"),
        policy_of(
            "Anthropic tooling",
            NetworkMode::Proxy,
            DefaultMode::Deny,
            agent_groups,
            Some(s("base")),
        ),
    );
    let mut gemini_groups: Vec<String> = Vec::new();
    gemini_groups.push(s("google"));
    gemini_groups.push(s("packages"));
    config.policy.policies.insert(
        s("gemini"),
        policy_of(
            "Google tooling",
            NetworkMode::Proxy,
            DefaultMode::Deny,
            gemini_groups,
            Some(s("base")),
        ),
    );

    let agent_tool = ToolConfig {
        enabled: true,
        proxy_mode: None,
        default_policy: Some(s("agent")),
    };
    config.tools.insert(s("agent"), agent_tool);
    let gemini_tool = ToolConfig {
        enabled: true,
        proxy_mode: None,
        default_policy: Some(s("gemini")),
    };
    config.tools.insert(s("gemini"), gemini_tool);

    config
}

/// The built-in configuration.
pub fn get_builtin() -> (r: Config)
    ensures
        r.wf(),
        r.common.config_version@ == "1.0"@,
{
    builtin_config()
}

} // verus!
