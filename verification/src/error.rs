//! Error types for configuration handling, policy evaluation and
//! sandbox assembly.
//!
//! The types carry plain strings; `message` renders each as the text a
//! diagnostic shows.

use vstd::prelude::*;

use vstd::string::StringExecFns;

use crate::strutil::spec_starts_with;

verus! {

/// A configuration failed validation.
#[derive(Debug, Clone)]
pub enum ValidationError {
    /// The group reference graph holds a cycle; `path` names it.
    CycleDetected { path: String },
    /// A group refers to a name that does not exist.
    UnknownGroup { group: String },
    /// A wildcard pattern holds `**`, a NUL or a newline.
    InvalidPattern { pattern: String },
    /// An unknown proxy mode string.
    InvalidMode { mode: String },
}

impl ValidationError {
    /// The error as diagnostic text.
    pub fn message(&self) -> (r: String)
        ensures
            self matches ValidationError::CycleDetected { path } ==> r@
                == "Cycle detected in group references: "@ + path@,
            self matches ValidationError::UnknownGroup { group } ==> r@
                == "Unknown group reference: "@ + group@,
            self matches ValidationError::InvalidPattern { pattern } ==> r@
                == "Invalid wildcard pattern: "@ + pattern@,
            self matches ValidationError::InvalidMode { mode } ==> r@ == "Invalid proxy mode: "@
                + mode@,
    {
        let mut out = String::new();
        match self {
            ValidationError::CycleDetected { path } => {
                out.append("Cycle detected in group references: ");
                out.append(path.as_str());
            },
            ValidationError::UnknownGroup { group } => {
                out.append("Unknown group reference: ");
                out.append(group.as_str());
            },
            ValidationError::InvalidPattern { pattern } => {
                out.append("Invalid wildcard pattern: ");
                out.append(pattern.as_str());
            },
            ValidationError::InvalidMode { mode } => {
                out.append("Invalid proxy mode: ");
                out.append(mode.as_str());
            },
        }
        out
    }
}

/// Errors raised while building or consulting the filtering proxy.
#[derive(Debug, Clone)]
pub enum ProxyError {
    /// A validation failure, carried through.
    Validation(ValidationError),
    /// A policy name that the configuration does not define.
    PolicyNotFound { policy: String },
    /// A group name that the configuration does not define.
    GroupNotFound { group: String },
    /// Any other configuration problem, described in text.
    ConfigError(String),
}

impl ProxyError {
    /// The error as diagnostic text.
    pub fn message(&self) -> (r: String)
        ensures
            self matches ProxyError::Validation(inner) ==> spec_starts_with(
                r@,
                "Configuration validation error: "@,
            ),
            self matches ProxyError::PolicyNotFound { policy } ==> r@ == "Policy not found: "@
                + policy@,
            self matches ProxyError::GroupNotFound { group } ==> r@ == "Group not found: "@
                + group@,
            self matches ProxyError::ConfigError(m) ==> r@ == "Config error: "@ + m@,
    {
        let mut out = String::new();
        match self {
            ProxyError::Validation(inner) => {
                let text = inner.message();
                out.append("Configuration validation error: ");
                out.append(text.as_str());
                proof {
                    assert(out@.subrange(0, "Configuration validation error: "@.len() as int)
                        =~= "Configuration validation error: "@);
                }
            },
            ProxyError::PolicyNotFound { policy } => {
                out.append("Policy not found: ");
                out.append(policy.as_str());
            },
            ProxyError::GroupNotFound { group } => {
                out.append("Group not found: ");
                out.append(group.as_str());
            },
            ProxyError::ConfigError(m) => {
                out.append("Config error: ");
                out.append(m.as_str());
            },
        }
        out
    }
}

/// Errors raised while assembling the sandbox.
#[derive(Debug, Clone)]
pub enum SandboxError {
    /// The tool binary was not found at the given path.
    CliNotFound(String),
    /// A symlink under `/etc` did not resolve.
    SymlinkResolution(String),
    /// The target directory does not exist.
    DirNotFound(String),
    /// A required environment variable is missing.
    EnvVarNotFound(String),
    /// Any other configuration problem, described in text.
    ConfigError(String),
}

impl SandboxError {
    /// The error as diagnostic text.
    pub fn message(&self) -> (r: String)
        ensures
            self matches SandboxError::CliNotFound(p) ==> r@ == "Tool CLI not found at "@ + p@,
            self matches SandboxError::SymlinkResolution(p) ==> r@
                == "Failed to resolve symlink "@ + p@,
            self matches SandboxError::DirNotFound(p) ==> r@ == "Directory does not exist: "@
                + p@,
            self matches SandboxError::EnvVarNotFound(v) ==> spec_starts_with(
                r@,
                "Environment variable "@,
            ),
            self matches SandboxError::ConfigError(m) ==> r@ == "Config error: "@ + m@,
    {
        let mut out = String::new();
        match self {
            SandboxError::CliNotFound(p) => {
                out.append("Tool CLI not found at ");
                out.append(p.as_str());
            },
            SandboxError::SymlinkResolution(p) => {
                out.append("Failed to resolve symlink ");
                out.append(p.as_str());
            },
            SandboxError::DirNotFound(p) => {
                out.append("Directory does not exist: ");
                out.append(p.as_str());
            },
            SandboxError::EnvVarNotFound(v) => {
                out.append("Environment variable ");
                out.append(v.as_str());
                out.append(" not found");
                proof {
                    assert(out@.subrange(0, "Environment variable "@.len() as int)
                        =~= "Environment variable "@);
                }
            },
            SandboxError::ConfigError(m) => {
                out.append("Config error: ");
                out.append(m.as_str());
            },
        }
        out
    }
}

} // verus!
