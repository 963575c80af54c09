//! Tests for the environment builder and the relay command line.

use bwrap_core::env::EnvironmentBuilder;
use bwrap_core::sandbox::build_relay_command;

#[test]
fn test_set_env() {
    let mut builder = EnvironmentBuilder::new();
    builder.set("FOO", "bar");

    assert_eq!(builder.vars().get("FOO"), Some(&"bar".to_string()));
}

#[test]
fn test_to_args() {
    let mut builder = EnvironmentBuilder::new();
    builder.set("FOO", "bar");
    builder.set("BAZ", "qux");

    let args = builder.to_args();

    // --setenv KEY VALUE for each variable
    assert_eq!(args.len(), 6);
    assert!(args.contains(&"--setenv".to_string()));
    assert_eq!(args[1], "FOO");
    assert_eq!(args[2], "bar");
    assert_eq!(args[4], "BAZ");
    assert_eq!(args[5], "qux");
}

#[test]
fn setting_a_key_twice_replaces_its_value() {
    let mut builder = EnvironmentBuilder::new();
    builder.set("FOO", "bar");
    builder.set("FOO", "baz");
    assert_eq!(builder.vars().get("FOO"), Some(&"baz".to_string()));
    assert_eq!(builder.vars().len(), 1);
}

#[test]
fn pass_through_only_present_values() {
    let mut builder = EnvironmentBuilder::new();
    builder.pass_through_many(vec![
        ("PRESENT".to_string(), Some("yes".to_string())),
        ("ABSENT".to_string(), None),
    ]);
    assert_eq!(builder.vars().get("PRESENT"), Some(&"yes".to_string()));
    assert!(builder.vars().get("ABSENT").is_none());
}

#[test]
fn test_build_relay_command() {
    let cmd = build_relay_command(
        "/proxy.sock",
        "/bw-relay",
        "/usr/bin/agent",
        &vec!["arg1".to_string(), "arg2".to_string()],
    );

    assert_eq!(cmd[0], "/bw-relay");
    assert_eq!(cmd[1], "--socket");
    assert_eq!(cmd[2], "/proxy.sock");
    assert_eq!(cmd[3], "--");
    assert_eq!(cmd[4], "/usr/bin/agent");
    assert_eq!(cmd[5], "arg1");
    assert_eq!(cmd[6], "arg2");
}

#[test]
fn set_many_keeps_order_and_last_value() {
    let mut builder = EnvironmentBuilder::new();
    builder.set("KEEP", "old");
    builder.set_many(vec![
        ("A".to_string(), "1".to_string()),
        ("B".to_string(), "2".to_string()),
        ("A".to_string(), "3".to_string()),
    ]);
    assert_eq!(builder.vars().get("A"), Some(&"3".to_string()));
    assert_eq!(builder.vars().get("B"), Some(&"2".to_string()));
    assert_eq!(builder.vars().get("KEEP"), Some(&"old".to_string()));
}
