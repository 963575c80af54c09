//! Verified core of a bubblewrap-based sandboxing harness.
//!
//! The crate models the policy configuration — host groups, filesystem
//! specs and named policies in insertion-ordered maps (`omap`,
//! `config`), merged in layers and validated for reference cycles and
//! unsafe wildcard patterns (`validate`) — the wildcard host matcher
//! and the longest-match policy engine (`matcher`, `engine`), the
//! resolution of filesystem specs along `extends` references
//! (`resolver`), the line protocol between the in-sandbox relay and
//! the filter daemon (`protocol`, `httpparse`), the learning recorder
//! with its TOML rendering (`learning`), and the assembly of the
//! bubblewrap command line (`mount`, `env`, `sandbox`, `launcher`).
//!
//! All I/O stays outside the library: callers probe the filesystem,
//! move the bytes and run the processes, and hand plain values in.

pub mod builtin;
pub mod config;
pub mod engine;
pub mod env;
pub mod error;
pub mod httpparse;
pub mod launcher;
pub mod learning;
pub mod matcher;
pub mod mount;
pub mod omap;
pub mod protocol;
pub mod resolver;
pub mod sandbox;
pub mod strutil;
pub mod validate;
