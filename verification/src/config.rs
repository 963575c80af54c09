//! Configuration schema: host groups, filesystem specs, policies.
//!
//! The top-level [`Config`] mirrors the TOML document layout.  Each
//! map-shaped section is an insertion-ordered map so listings and merge
//! precedence are deterministic.  Merging replaces entries wholesale:
//! a key present in the override wins over the base's entry of the same
//! name, and the `common` section of the override replaces the base's.

use vstd::prelude::*;

use crate::omap::{OrderedMap, seq_get, seq_has, spec_merge};
use crate::omap::{lemma_merge_get, lemma_merge_self};

verus! {

/// A named group of wildcard host patterns, composable by reference.
#[derive(Debug, Clone)]
pub struct HostGroup {
    pub description: String,
    /// Host patterns to allow.
    pub hosts: Vec<String>,
    /// Host patterns to explicitly deny.
    pub hosts_deny: Vec<String>,
    /// Names of other groups included by reference.
    pub groups: Vec<String>,
}

/// Network configuration: the named host groups.
#[derive(Debug, Clone)]
pub struct NetworkConfig {
    pub groups: OrderedMap<HostGroup>,
}

/// How the sandbox reaches the network.
#[derive(Debug, Clone, Copy, PartialEq, Eq, Structural)]
pub enum NetworkMode {
    /// Full network access without a proxy.
    Open,
    /// No network access at all.
    Disabled,
    /// Network access through the filtering proxy.
    Proxy,
}

/// Outcome when no rule matches a host.
#[derive(Debug, Clone, Copy, PartialEq, Eq, Structural)]
pub enum DefaultMode {
    Allow,
    Deny,
}

/// Proxy-specific settings inside `[common]`.
#[derive(Debug, Clone)]
pub struct ProxyConfig {
    pub default_mode: String,
    pub socket_dir: String,
    pub learning_output: String,
}

/// Settings shared across all tools.
#[derive(Debug, Clone)]
pub struct CommonConfig {
    pub config_version: String,
    pub verbose: bool,
    pub proxy: ProxyConfig,
}

/// A named recipe of mount points.
#[derive(Debug, Clone)]
pub struct FilesystemSpec {
    pub description: Option<String>,
    pub ro_home_dirs: Vec<String>,
    pub rw_home_dirs: Vec<String>,
    pub ro_home_files: Vec<String>,
    pub rw_home_files: Vec<String>,
    pub essential_etc_files: Vec<String>,
    pub essential_etc_dirs: Vec<String>,
    pub system_paths: Vec<String>,
    pub ro_paths: Vec<String>,
    pub rw_paths: Vec<String>,
    /// Other filesystem specs this one extends.
    pub extends: Vec<String>,
}

/// Filesystem configuration: the named filesystem specs.
#[derive(Debug, Clone)]
pub struct FilesystemConfig {
    pub configs: OrderedMap<FilesystemSpec>,
}

/// Network settings within a policy.
#[derive(Debug, Clone)]
pub struct NetworkPolicy {
    pub network: NetworkMode,
    pub default: DefaultMode,
    pub allow_groups: Vec<String>,
    pub deny_groups: Vec<String>,
    /// Older alias for `allow_groups`, honoured when the latter is empty.
    pub groups: Vec<String>,
}

/// A named policy combining network and filesystem configuration.
#[derive(Debug, Clone)]
pub struct Policy {
    pub description: Option<String>,
    pub network: NetworkPolicy,
    /// Name of a filesystem spec.
    pub filesystem: Option<String>,
}

/// Policy configuration: the named policies.
#[derive(Debug, Clone)]
pub struct PolicyConfig {
    pub policies: OrderedMap<Policy>,
}

/// Per-tool entry in the configuration file.
#[derive(Debug, Clone)]
pub struct ToolConfig {
    pub enabled: bool,
    pub proxy_mode: Option<String>,
    pub default_policy: Option<String>,
}

/// The complete configuration document.
#[derive(Debug, Clone)]
pub struct Config {
    pub common: CommonConfig,
    pub network: NetworkConfig,
    pub filesystem: FilesystemConfig,
    pub policy: PolicyConfig,
    pub tools: OrderedMap<ToolConfig>,
}

pub fn default_config_version() -> (r: String)
    ensures
        r@ == "1.0"@,
{
    "1.0".to_owned()
}

pub fn default_proxy_mode() -> (r: String)
    ensures
        r@ == "restrictive"@,
{
    "restrictive".to_owned()
}

pub fn default_socket_dir() -> (r: String)
    ensures
        r@ == "/tmp"@,
{
    "/tmp".to_owned()
}

pub fn default_learning_output() -> (r: String)
    ensures
        r@ == "~/.config/bw-agent/learned-domains.toml"@,
{
    "~/.config/bw-agent/learned-domains.toml".to_owned()
}

pub fn default_network_mode() -> (r: NetworkMode)
    ensures
        r == NetworkMode::Proxy,
{
    NetworkMode::Proxy
}

pub fn default_default_mode() -> (r: DefaultMode)
    ensures
        r == DefaultMode::Deny,
{
    DefaultMode::Deny
}

pub fn default_true() -> (r: bool)
    ensures
        r,
{
    true
}

impl Default for ProxyConfig {
    /// The proxy settings used when `[common.proxy]` is absent.
    fn default() -> (r: Self)
        ensures
            r.default_mode@ == "restrictive"@,
            r.socket_dir@ == "/tmp"@,
            r.learning_output@ == "~/.config/bw-agent/learned-domains.toml"@,
    {
        ProxyConfig {
            default_mode: default_proxy_mode(),
            socket_dir: default_socket_dir(),
            learning_output: default_learning_output(),
        }
    }
}

impl Default for CommonConfig {
    /// The common settings used when `[common]` is absent.
    fn default() -> (r: Self)
        ensures
            r.config_version@ == "1.0"@,
            !r.verbose,
            r.proxy.default_mode@ == "restrictive"@,
    {
        CommonConfig { config_version: default_config_version(), verbose: false, proxy: ProxyConfig::default() }
    }
}

impl Default for FilesystemSpec {
    /// A filesystem spec with every list empty.
    fn default() -> (r: Self)
        ensures
            r.description is None,
            r.ro_home_dirs@.len() == 0,
            r.rw_home_dirs@.len() == 0,
            r.ro_home_files@.len() == 0,
            r.rw_home_files@.len() == 0,
            r.essential_etc_files@.len() == 0,
            r.essential_etc_dirs@.len() == 0,
            r.system_paths@.len() == 0,
            r.ro_paths@.len() == 0,
            r.rw_paths@.len() == 0,
            r.extends@.len() == 0,
    {
        FilesystemSpec {
            description: None,
            ro_home_dirs: Vec::new(),
            rw_home_dirs: Vec::new(),
            ro_home_files: Vec::new(),
            rw_home_files: Vec::new(),
            essential_etc_files: Vec::new(),
            essential_etc_dirs: Vec::new(),
            system_paths: Vec::new(),
            ro_paths: Vec::new(),
            rw_paths: Vec::new(),
            extends: Vec::new(),
        }
    }
}

impl Default for NetworkPolicy {
    /// Proxy mode with default-deny and no groups.
    fn default() -> (r: Self)
        ensures
            r.network == NetworkMode::Proxy,
            r.default == DefaultMode::Deny,
            r.allow_groups@.len() == 0,
            r.deny_groups@.len() == 0,
            r.groups@.len() == 0,
    {
        NetworkPolicy {
            network: default_network_mode(),
            default: default_default_mode(),
            allow_groups: Vec::new(),
            deny_groups: Vec::new(),
            groups: Vec::new(),
        }
    }
}

impl Default for Policy {
    /// A policy with default network settings and no filesystem spec.
    fn default() -> (r: Self)
        ensures
            r.description is None,
            r.network.network == NetworkMode::Proxy,
            r.network.default == DefaultMode::Deny,
            r.network.allow_groups@.len() == 0,
            r.network.deny_groups@.len() == 0,
            r.network.groups@.len() == 0,
            r.filesystem is None,
    {
        Policy { description: None, network: NetworkPolicy::default(), filesystem: None }
    }
}

impl NetworkPolicy {
    /// The allow groups actually in force: `allow_groups` when present,
    /// else the older `groups` alias.
    pub open spec fn spec_effective_allow_groups(&self) -> Seq<Seq<char>> {
        if self.allow_groups@.len() > 0 {
            self.allow_groups.deep_view()
        } else {
            self.groups.deep_view()
        }
    }

    /// Get the effective allow groups, honouring the older alias.
    pub fn effective_allow_groups(&self) -> (r: Vec<String>)
        ensures
            r.deep_view() == self.spec_effective_allow_groups(),
    {
        if self.allow_groups.len() > 0 {
            crate::strutil::clone_string_vec(&self.allow_groups)
        } else {
            crate::strutil::clone_string_vec(&self.groups)
        }
    }
}

impl Config {
    /// Every map-shaped section has unique keys.
    pub open spec fn wf(&self) -> bool {
        &&& self.network.groups.wf()
        &&& self.filesystem.configs.wf()
        &&& self.policy.policies.wf()
        &&& self.tools.wf()
    }
}

impl Default for Config {
    /// An empty configuration: no groups, specs, policies or tools.
    fn default() -> (r: Self)
        ensures
            r.common.config_version@ == "1.0"@,
            !r.common.verbose,
            r.network.groups@.len() == 0,
            r.filesystem.configs@.len() == 0,
            r.policy.policies@.len() == 0,
            r.tools@.len() == 0,
            r.wf(),
    {
        Config {
            common: CommonConfig::default(),
            network: NetworkConfig { groups: OrderedMap::new() },
            filesystem: FilesystemConfig { configs: OrderedMap::new() },
            policy: PolicyConfig { policies: OrderedMap::new() },
            tools: OrderedMap::new(),
        }
    }
}

/// Loads and merges configuration layers.  The file discovery and the
/// TOML decoding live with the caller; merging is verified here.
pub struct ConfigLoader;

impl ConfigLoader {
    /// Merge an override configuration on top of a base configuration.
    ///
    /// Each key of a map-shaped section present in the override
    /// replaces the base's entry of the same name wholesale; the
    /// `common` section is replaced entirely.
    pub fn merge_configs(base: Config, override_cfg: Config) -> (r: Config)
        requires
            base.wf(),
            override_cfg.wf(),
        ensures
            r.network.groups@ == spec_merge(base.network.groups@, override_cfg.network.groups@),
            r.filesystem.configs@ == spec_merge(
                base.filesystem.configs@,
                override_cfg.filesystem.configs@,
            ),
            r.policy.policies@ == spec_merge(base.policy.policies@, override_cfg.policy.policies@),
            r.tools@ == spec_merge(base.tools@, override_cfg.tools@),
            r.common == override_cfg.common,
            r.wf(),
    {
        let mut base = base;
        base.network.groups.merge_from(override_cfg.network.groups);
        base.filesystem.configs.merge_from(override_cfg.filesystem.configs);
        base.policy.policies.merge_from(override_cfg.policy.policies);
        base.tools.merge_from(override_cfg.tools);
        base.common = override_cfg.common;
        base
    }
}

/// Merge idempotence: merging a configuration with itself yields the
/// same configuration — every map keeps exactly its entries, and the
/// `common` section is replaced by itself.
pub proof fn lemma_merge_configs_idempotent(c: Config)
    requires
        c.wf(),
    ensures
        spec_merge(c.network.groups@, c.network.groups@) == c.network.groups@,
        spec_merge(c.filesystem.configs@, c.filesystem.configs@) == c.filesystem.configs@,
        spec_merge(c.policy.policies@, c.policy.policies@) == c.policy.policies@,
        spec_merge(c.tools@, c.tools@) == c.tools@,
{
    lemma_merge_self(c.network.groups@);
    lemma_merge_self(c.filesystem.configs@);
    lemma_merge_self(c.policy.policies@);
    lemma_merge_self(c.tools@);
}

/// Precedence: for a key present in the override map, the merged map
/// returns the override's value; for any other key, the base's.
pub proof fn lemma_merge_configs_precedence(base: Config, override_cfg: Config, name: Seq<char>)
    requires
        override_cfg.wf(),
    ensures
        seq_get(spec_merge(base.network.groups@, override_cfg.network.groups@), name) == if seq_has(
            override_cfg.network.groups@,
            name,
        ) {
            seq_get(override_cfg.network.groups@, name)
        } else {
            seq_get(base.network.groups@, name)
        },
        seq_get(spec_merge(base.policy.policies@, override_cfg.policy.policies@), name) == if seq_has(
            override_cfg.policy.policies@,
            name,
        ) {
            seq_get(override_cfg.policy.policies@, name)
        } else {
            seq_get(base.policy.policies@, name)
        },
        seq_get(spec_merge(base.filesystem.configs@, override_cfg.filesystem.configs@), name)
            == if seq_has(override_cfg.filesystem.configs@, name) {
            seq_get(override_cfg.filesystem.configs@, name)
        } else {
            seq_get(base.filesystem.configs@, name)
        },
        seq_get(spec_merge(base.tools@, override_cfg.tools@), name) == if seq_has(
            override_cfg.tools@,
            name,
        ) {
            seq_get(override_cfg.tools@, name)
        } else {
            seq_get(base.tools@, name)
        },
{
    lemma_merge_get(base.network.groups@, override_cfg.network.groups@, name);
    lemma_merge_get(base.policy.policies@, override_cfg.policy.policies@, name);
    lemma_merge_get(base.filesystem.configs@, override_cfg.filesystem.configs@, name);
    lemma_merge_get(base.tools@, override_cfg.tools@, name);
}

} // verus!
