//! Launcher-side decisions: the shared command-line surface, the proxy
//! operating mode, and the choice of network mode and policy.  Spawning
//! the daemon, probing the filesystem and running bubblewrap stay with
//! the caller; every decision about *what* to run is made here.

use vstd::prelude::*;

use vstd::string::StringExecFns;

use crate::config::{Config, NetworkMode, Policy};
use crate::omap::{seq_get, seq_has};
use crate::resolver::{ResolveOutcome, fs_lists, fs_lists_empty, resolve_filesystem_config, resolve_policy, spec_resolve};
use crate::strutil::{str_eq, str_starts_with, str_chars, chars_to_string};

verus! {

/// The shared command-line arguments of the launcher front-ends.
#[derive(Debug, Clone)]
pub struct CommonArgs {
    /// Disable network access.
    pub no_network: bool,
    /// Bind the whole home directory read-write.
    pub full_home_access: bool,
    /// Print the resolved configuration to stderr.
    pub verbose: bool,
    /// Run an interactive shell instead of the tool.
    pub shell: bool,
    /// Extra read-only mounts.
    pub allow_ro_paths: Vec<String>,
    /// Extra read-write mounts.
    pub allow_rw_paths: Vec<String>,
    /// Working directory inside the sandbox.
    pub dir: Option<String>,
    /// Environment variables copied from the host.
    pub pass_env_vars: Vec<String>,
    /// Explicit configuration file.
    pub proxy_config: Option<String>,
    /// Explicit relay binary location.
    pub bw_relay_path: Option<String>,
    /// Policy name to enforce.
    pub policy: Option<String>,
    /// Learning mode output file.
    pub learn: Option<String>,
    /// Learning-deny mode output file.
    pub learn_deny: Option<String>,
    /// List policies and exit.
    pub list_policies: bool,
    /// List host groups and exit.
    pub list_groups: bool,
    /// Arguments forwarded to the tool.
    pub cli_args: Vec<String>,
}

/// Proxy operating mode.
#[derive(Debug, Clone)]
pub enum ProxyMode {
    /// Allow all traffic.
    Open,
    /// Allow all traffic but record accessed domains.
    Learning,
    /// Enforce the named policy.
    Restrictive(String),
}

impl ProxyMode {
    /// Parse a mode string: `open`, `learning`, or `restrictive:<name>`
    /// with a nonempty name.
    pub fn parse(s: &str) -> (r: Result<ProxyMode, String>)
        ensures
            s@ == "open"@ ==> (r matches Ok(m) && m is Open),
            s@ == "learning"@ ==> (r matches Ok(m) && m is Learning),
            (crate::strutil::spec_starts_with(s@, "restrictive:"@) && s@.len() > 12) ==> (r matches
                Ok(m) && m matches ProxyMode::Restrictive(p) && p@ == s@.skip(12)),
            !(s@ == "open"@ || s@ == "learning"@ || (crate::strutil::spec_starts_with(
                s@,
                "restrictive:"@,
            ) && s@.len() > 12)) ==> r is Err,
    {
        proof {
            vstd::prelude::reveal_strlit("open");
            vstd::prelude::reveal_strlit("learning");
            vstd::prelude::reveal_strlit("restrictive:");
            assert("open"@.len() == 4 && "learning"@.len() == 8 && "restrictive:"@.len() == 12);
        }
        if str_eq(s, "open") {
            Ok(ProxyMode::Open)
        } else if str_eq(s, "learning") {
            Ok(ProxyMode::Learning)
        } else if str_starts_with(s, "restrictive:") {
            let chars = str_chars(s);
            let n = chars.len();
            if n <= 12 {
                let mut msg = String::new();
                msg.append("Invalid proxy mode: ");
                msg.append(s);
                return Err(msg);
            }
            let policy = chars_to_string(&chars, 12, n);
            proof {
                assert(policy@ =~= s@.skip(12));
            }
            Ok(ProxyMode::Restrictive(policy))
        } else {
            let mut msg = String::new();
            msg.append("Invalid proxy mode: ");
            msg.append(s);
            Err(msg)
        }
    }

    /// The mode written back as text.
    pub fn to_string(&self) -> (r: String)
        ensures
            self is Open ==> r@ == "open"@,
            self is Learning ==> r@ == "learning"@,
            self matches ProxyMode::Restrictive(p) ==> r@ == "restrictive:"@ + p@,
    {
        match self {
            ProxyMode::Open => "open".to_owned(),
            ProxyMode::Learning => "learning".to_owned(),
            ProxyMode::Restrictive(p) => {
                let mut out = String::new();
                out.append("restrictive:");
                out.append(p.as_str());
                out
            },
        }
    }
}

/// The network plan the launcher settles on.  For a filtered plan the
/// caller spawns the filter daemon and learns the socket path from it.
#[derive(Debug, Clone)]
pub enum NetworkDecision {
    /// Full network access.
    Enabled,
    /// No network access.
    Disabled,
    /// Filtered through the proxy under the named policy.
    Filtered {
        /// The policy the daemon enforces.
        policy_name: String,
        /// `learn` or `learn_deny`, when learning.
        learning_mode: Option<String>,
        /// Learning output file.
        learning_output: Option<String>,
    },
}

/// Whether the arguments ask for the filtering proxy.
pub open spec fn wants_proxy(common: CommonArgs) -> bool {
    common.policy is Some || common.learn is Some || common.learn_deny is Some
}

/// Whether the arguments name the open policy without asking to learn.
pub open spec fn plain_open_policy(common: CommonArgs) -> bool {
    &&& common.policy matches Some(p) && p@ == "open"@
    &&& common.learn is None
    &&& common.learn_deny is None
}

/// Decide the network mode from the command-line flags: `lockdown`
/// disables the network outright and `open` leaves it open with no
/// filtering at all; `--learn` runs the open policy and records;
/// `--learn-deny` enforces the chosen policy (default `deny`) and
/// records denials; any other `--policy` enforces it; `--no-network`
/// disables; and nothing at all leaves the network open.
pub fn determine_network_mode(common: &CommonArgs) -> (r: (NetworkDecision, String))
    ensures
        (common.policy matches Some(p) && p@ == "lockdown"@) ==> r.0 is Disabled && r.1@
            == "lockdown"@,
        plain_open_policy(*common) ==> r.0 is Enabled && r.1@ == "open"@,
        !(common.policy matches Some(p) && p@ == "lockdown"@) && !plain_open_policy(*common)
            ==> {
            if wants_proxy(*common) {
                match common.learn {
                    Some(out) => {
                        &&& r.0 matches NetworkDecision::Filtered {
                            policy_name,
                            learning_mode,
                            learning_output,
                        }
                        &&& policy_name@ == "open"@
                        &&& learning_mode matches Some(m) && m@ == "learn"@
                        &&& learning_output matches Some(o) && o@ == out@
                        &&& r.1@ == "open"@
                    },
                    None => match common.learn_deny {
                        Some(out) => {
                            &&& r.0 matches NetworkDecision::Filtered {
                                policy_name,
                                learning_mode,
                                learning_output,
                            }
                            &&& policy_name@ == (match common.policy {
                                Some(p) => p@,
                                None => "deny"@,
                            })
                            &&& learning_mode matches Some(m) && m@ == "learn_deny"@
                            &&& learning_output matches Some(o) && o@ == out@
                            &&& r.1@ == (match common.policy {
                                Some(p) => p@,
                                None => "deny"@,
                            })
                        },
                        None => {
                            &&& r.0 matches NetworkDecision::Filtered {
                                policy_name,
                                learning_mode,
                                learning_output,
                            }
                            &&& policy_name@ == (match common.policy {
                                Some(p) => p@,
                                None => "default"@,
                            })
                            &&& learning_mode is None
                            &&& learning_output is None
                            &&& r.1@ == (match common.policy {
                                Some(p) => p@,
                                None => "default"@,
                            })
                        },
                    },
                }
            } else if common.no_network {
                r.0 is Disabled && r.1@ == "lockdown"@
            } else {
                r.0 is Enabled && r.1@ == "default"@
            }
        },
{
    proof {
        vstd::prelude::reveal_strlit("open");
        vstd::prelude::reveal_strlit("lockdown");
        assert("open"@.len() == 4 && "lockdown"@.len() == 8);
    }
    let lockdown = match &common.policy {
        Some(p) => str_eq(p.as_str(), "lockdown"),
        None => false,
    };
    if lockdown {
        return (NetworkDecision::Disabled, "lockdown".to_owned());
    }
    let plain_open = match &common.policy {
        Some(p) => str_eq(p.as_str(), "open") && common.learn.is_none()
            && common.learn_deny.is_none(),
        None => false,
    };
    if plain_open {
        return (NetworkDecision::Enabled, "open".to_owned());
    }
    let use_proxy = common.policy.is_some() || common.learn.is_some()
        || common.learn_deny.is_some();
    if use_proxy {
        match &common.learn {
            Some(out) => {
                let name = "open".to_owned();
                (
                    NetworkDecision::Filtered {
                        policy_name: name.clone(),
                        learning_mode: Some("learn".to_owned()),
                        learning_output: Some(out.clone()),
                    },
                    name,
                )
            },
            None => match &common.learn_deny {
                Some(out) => {
                    let name = match &common.policy {
                        Some(p) => p.clone(),
                        None => "deny".to_owned(),
                    };
                    (
                        NetworkDecision::Filtered {
                            policy_name: name.clone(),
                            learning_mode: Some("learn_deny".to_owned()),
                            learning_output: Some(out.clone()),
                        },
                        name,
                    )
                },
                None => {
                    let name = match &common.policy {
                        Some(p) => p.clone(),
                        None => "default".to_owned(),
                    };
                    (
                        NetworkDecision::Filtered {
                            policy_name: name.clone(),
                            learning_mode: None,
                            learning_output: None,
                        },
                        name,
                    )
                },
            },
        }
    } else if common.no_network {
        (NetworkDecision::Disabled, "lockdown".to_owned())
    } else {
        (NetworkDecision::Enabled, "default".to_owned())
    }
}

/// A filesystem spec with every list empty flattens to the empty lists.
proof fn lemma_default_fs_lists(d: crate::config::FilesystemSpec)
    requires
        d.description is None,
        d.ro_home_dirs@.len() == 0,
        d.rw_home_dirs@.len() == 0,
        d.ro_home_files@.len() == 0,
        d.rw_home_files@.len() == 0,
        d.essential_etc_files@.len() == 0,
        d.essential_etc_dirs@.len() == 0,
        d.system_paths@.len() == 0,
        d.ro_paths@.len() == 0,
        d.rw_paths@.len() == 0,
        d.extends@.len() == 0,
    ensures
        fs_lists(d) == fs_lists_empty(),
{
    assert(fs_lists(d).ro_home_dirs =~= Seq::<Seq<char>>::empty());
    assert(fs_lists(d).rw_home_dirs =~= Seq::<Seq<char>>::empty());
    assert(fs_lists(d).ro_home_files =~= Seq::<Seq<char>>::empty());
    assert(fs_lists(d).rw_home_files =~= Seq::<Seq<char>>::empty());
    assert(fs_lists(d).essential_etc_files =~= Seq::<Seq<char>>::empty());
    assert(fs_lists(d).essential_etc_dirs =~= Seq::<Seq<char>>::empty());
    assert(fs_lists(d).system_paths =~= Seq::<Seq<char>>::empty());
    assert(fs_lists(d).ro_paths =~= Seq::<Seq<char>>::empty());
    assert(fs_lists(d).rw_paths =~= Seq::<Seq<char>>::empty());
    assert(fs_lists(d).extends =~= Seq::<Seq<char>>::empty());
}

/// Everything the launcher needs after settling the policy.
#[derive(Debug, Clone)]
pub struct PolicySetup {
    /// The resolved policy.
    pub policy: Policy,
    /// The policy name in force.
    pub policy_name: String,
    /// The flattened filesystem spec the policy names.
    pub filesystem_spec: crate::config::FilesystemSpec,
    /// The settled network plan.
    pub network: NetworkDecision,
}

/// Settle the policy for a tool: pick the policy named on the command
/// line or the tool's default, resolve it (falling back to the default
/// policy when unknown), flatten its filesystem spec (falling back to
/// an empty one), and decide the network mode — the command-line flags
/// when any were given, else the policy's own network setting.
pub fn setup_policy(config: &Config, common: &CommonArgs, default_policy: &str) -> (r: PolicySetup)
    ensures
        r.policy_name@ == (match common.policy {
            Some(p) => p@,
            None => default_policy@,
        }),
        !seq_has(config.policy.policies@, r.policy_name@) ==> {
            &&& r.policy.network.network == NetworkMode::Proxy
            &&& r.policy.network.default == crate::config::DefaultMode::Deny
            &&& r.policy.network.allow_groups@.len() == 0
        },
        seq_has(config.policy.policies@, r.policy_name@) ==> {
            let stored = seq_get(config.policy.policies@, r.policy_name@)->Some_0;
            &&& r.policy.network.network == stored.network.network
            &&& r.policy.network.default == stored.network.default
            &&& r.policy.network.allow_groups.deep_view() == stored.network.allow_groups.deep_view()
            &&& r.policy.network.deny_groups.deep_view() == stored.network.deny_groups.deep_view()
            &&& r.policy.network.groups.deep_view() == stored.network.groups.deep_view()
            &&& match (r.policy.filesystem, stored.filesystem) {
                (Some(a), Some(b)) => a@ == b@,
                (None, None) => true,
                _ => false,
            }
        },
        ({
            let fs_name = if seq_has(config.policy.policies@, r.policy_name@) {
                seq_get(config.policy.policies@, r.policy_name@)->Some_0.filesystem
            } else {
                None::<String>
            };
            match fs_name {
                Some(f) => match spec_resolve(config.filesystem.configs@, f@, Seq::empty()) {
                    ResolveOutcome::Resolved(lists) => fs_lists(r.filesystem_spec) == lists,
                    _ => fs_lists(r.filesystem_spec) == fs_lists_empty(),
                },
                None => fs_lists(r.filesystem_spec) == fs_lists_empty(),
            }
        }),
        (common.no_network && !(common.policy matches Some(p) && p@ == "lockdown"@))
            ==> r.network is Disabled,
        (!common.no_network && (common.policy matches Some(p) && p@ == "lockdown"@))
            ==> r.network is Disabled,
        (!common.no_network && plain_open_policy(*common)) ==> r.network is Enabled,
        (!common.no_network && wants_proxy(*common) && !(common.policy matches Some(p) && p@
            == "lockdown"@) && !plain_open_policy(*common)) ==> {
            &&& r.network matches NetworkDecision::Filtered {
                policy_name,
                learning_mode,
                learning_output,
            }
            &&& policy_name@ == (match common.learn {
                Some(_) => "open"@,
                None => match common.policy {
                    Some(p) => p@,
                    None => if common.learn_deny is Some {
                        "deny"@
                    } else {
                        "default"@
                    },
                },
            })
            &&& (common.learn is Some ==> (learning_mode matches Some(m) && m@ == "learn"@))
            &&& ((common.learn is None && common.learn_deny is Some) ==> (learning_mode matches
                Some(m) && m@ == "learn_deny"@))
            &&& ((common.learn is None && common.learn_deny is None) ==> learning_mode is None
                && learning_output is None)
        },
        (!common.no_network && !wants_proxy(*common)) ==> {
            match seq_get(config.policy.policies@, r.policy_name@) {
                Some(stored) => {
                    &&& (stored.network.network == NetworkMode::Open ==> r.network is Enabled)
                    &&& (stored.network.network == NetworkMode::Disabled
                        ==> r.network is Disabled)
                    &&& (stored.network.network == NetworkMode::Proxy ==> (r.network matches
                        NetworkDecision::Filtered { policy_name, learning_mode, learning_output }
                        && policy_name@ == r.policy_name@ && learning_mode is None
                        && learning_output is None))
                },
                None => r.network matches NetworkDecision::Filtered {
                    policy_name,
                    learning_mode,
                    learning_output,
                } && policy_name@ == r.policy_name@ && learning_mode is None && learning_output
                    is None,
            }
        },
{
    let policy_name: String = match &common.policy {
        Some(p) => p.clone(),
        None => default_policy.to_owned(),
    };
    let policy = match resolve_policy(config, policy_name.as_str()) {
        Ok(p) => p,
        Err(_) => Policy::default(),
    };
    let filesystem_spec = match &policy.filesystem {
        Some(fs_name) => match resolve_filesystem_config(config, fs_name.as_str()) {
            Ok(spec) => spec,
            Err(_) => {
                let d = crate::config::FilesystemSpec::default();
                proof {
                    lemma_default_fs_lists(d);
                }
                d
            },
        },
        None => {
            let d = crate::config::FilesystemSpec::default();
            proof {
                lemma_default_fs_lists(d);
            }
            d
        },
    };
    let network: NetworkDecision = if common.no_network {
        NetworkDecision::Disabled
    } else if common.policy.is_some() || common.learn.is_some() || common.learn_deny.is_some() {
        let (decision, _) = determine_network_mode(common);
        decision
    } else {
        match policy.network.network {
            NetworkMode::Open => NetworkDecision::Enabled,
            NetworkMode::Disabled => NetworkDecision::Disabled,
            NetworkMode::Proxy => NetworkDecision::Filtered {
                policy_name: policy_name.clone(),
                learning_mode: None,
                learning_output: None,
            },
        }
    };
    PolicySetup { policy, policy_name, filesystem_spec, network }
}

} // verus!
