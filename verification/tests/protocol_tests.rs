//! Tests for the daemon's wire protocol and the sandbox assembly.

use bwrap_core::config::{DefaultMode, HostGroup, NetworkConfig};
use bwrap_core::engine::PolicyEngine;
use bwrap_core::protocol::{
    decide_request, is_ok_reply, parse_connect_line, reply_blocked, reply_error, reply_fail,
    reply_ok, DaemonAction,
};
use bwrap_core::omap::OrderedMap;
use bwrap_core::sandbox::{
    HomeAccessMode, NetworkMode, PathProbe, SandboxBuilder, SandboxConfig, ToolConfig, Uuid,
};

fn line(s: &str) -> Vec<u8> {
    s.as_bytes().to_vec()
}

#[test]
fn parse_accepts_exact_connect_lines() {
    let parsed = parse_connect_line(&line("CONNECT example.com 443\n")).unwrap();
    assert_eq!(parsed.0, "example.com");
    assert_eq!(parsed.1, 443);
}

#[test]
fn parse_rejects_everything_else() {
    for bad in [
        "HELLO\n",
        "CONNECT example.com 443",       // no newline
        "CONNECT  example.com 443\n",    // empty host
        "CONNECT example.com 99999\n",   // port too large
        "CONNECT example.com 44x\n",     // not a number
        "CONNECT example.com\n",         // no port
        "connect example.com 443\n",     // wrong case
        "CONNECT exa\tmple.com 443\n",   // whitespace in host
        "",
    ] {
        assert!(parse_connect_line(&line(bad)).is_none(), "{bad:?} accepted");
    }
}

#[test]
fn malformed_requests_are_rejected() {
    let decision = decide_request(None, &line("HELLO\n"));
    assert!(matches!(decision, DaemonAction::Reject));
}

#[test]
fn well_formed_requests_connect_without_an_engine() {
    let decision = decide_request(None, &line("CONNECT api.x.com 443\n"));
    match decision {
        DaemonAction::Connect { host, port } => {
            assert_eq!(host, "api.x.com");
            assert_eq!(port, 443);
        }
        other => panic!("unexpected {other:?}"),
    }
}

#[test]
fn denied_hosts_are_blocked() {
    let mut groups: OrderedMap<HostGroup> = OrderedMap::new();
    groups.insert(
        "anthropic".to_string(),
        HostGroup {
            description: String::new(),
            hosts: vec!["*.anthropic.com".to_string()],
            hosts_deny: vec![],
            groups: vec![],
        },
    );
    let network = NetworkConfig { groups };
    let engine = PolicyEngine::from_network_policy(
        vec!["anthropic".to_string()],
        vec![],
        DefaultMode::Deny,
        &network,
    )
    .unwrap();

    let ok = decide_request(Some(&engine), &line("CONNECT api.anthropic.com 443\n"));
    assert!(matches!(ok, DaemonAction::Connect { .. }));
    let blocked = decide_request(Some(&engine), &line("CONNECT example.com 443\n"));
    match blocked {
        DaemonAction::Blocked { host } => assert_eq!(host, "example.com"),
        other => panic!("unexpected {other:?}"),
    }
}

#[test]
fn replies_are_bit_exact() {
    assert_eq!(reply_ok(), b"OK\n".to_vec());
    assert_eq!(reply_blocked(), b"BLOCKED\n".to_vec());
    assert_eq!(reply_fail(), b"FAIL\n".to_vec());
    assert_eq!(reply_error(), b"ERROR\n".to_vec());
    assert!(is_ok_reply(&b"OK\n".to_vec()));
    assert!(is_ok_reply(&b"OK".to_vec()));
    assert!(!is_ok_reply(&b"BLOCKED\n".to_vec()));
}

fn sandbox_config(network_mode: NetworkMode, shell: bool) -> SandboxConfig {
    SandboxConfig {
        tool_name: "agent".to_string(),
        policy_name: "agent".to_string(),
        tool_config: ToolConfig {
            name: "agent".to_string(),
            cli_path: "/usr/bin/agent".to_string(),
            default_args: vec!["--flag".to_string()],
            cli_args: vec!["hello".to_string()],
            help_text: String::new(),
        },
        target_dir: "/work".to_string(),
        network_mode,
        home_access: HomeAccessMode::Safe,
        additional_ro_paths: vec![],
        additional_rw_paths: vec![],
        env_vars: vec![],
        pass_through_env: vec![],
        verbose: false,
        shell,
    bw_relay_path: None,
    }
}

#[test]
fn filtered_command_wraps_the_tool_in_the_relay() {
    let config = sandbox_config(
        NetworkMode::Filtered {
            proxy_socket: "/tmp/bw-proxy-1.sock".to_string(),
            policy_name: "agent".to_string(),
            learning_output: None,
            learning_mode: None,
        },
        false,
    );
    let mut builder =
        SandboxBuilder::new(config, bwrap_core::config::FilesystemSpec::default(), true, true)
            .unwrap();
    builder.set_tmp_export_dir("/tmp/bw-agent-1234".to_string());
    builder.setup_environment("/home/u", "u", "/usr/bin", "xterm", vec![]);
    let args = builder.build_command();

    assert!(args.contains(&"--unshare-net".to_string()));
    assert!(!args.contains(&"--share-net".to_string()));
    let relay_pos = args.iter().position(|a| a == "/bw-relay").unwrap();
    assert_eq!(args[relay_pos + 1], "--socket");
    assert_eq!(args[relay_pos + 2], "/proxy.sock");
    assert_eq!(args[relay_pos + 3], "--");
    assert_eq!(args[relay_pos + 4], "/usr/bin/agent");
    assert_eq!(args[relay_pos + 5], "--flag");
    assert_eq!(args[relay_pos + 6], "hello");
}

#[test]
fn open_command_shares_the_network() {
    let config = sandbox_config(NetworkMode::Enabled, false);
    let builder =
        SandboxBuilder::new(config, bwrap_core::config::FilesystemSpec::default(), true, true)
            .unwrap();
    let args = builder.build_command();
    assert!(args.contains(&"--share-net".to_string()));
    assert!(!args.contains(&"/bw-relay".to_string()));
    assert!(args.contains(&"--die-with-parent".to_string()));
    assert!(args.contains(&"--clearenv".to_string()));
}

#[test]
fn shell_mode_runs_a_shell() {
    let config = sandbox_config(NetworkMode::Disabled, true);
    let builder =
        SandboxBuilder::new(config, bwrap_core::config::FilesystemSpec::default(), false, true)
            .unwrap();
    let args = builder.build_command();
    assert!(args.contains(&"--unshare-net".to_string()));
    let sh_pos = args.iter().position(|a| a == "/bin/sh").unwrap();
    assert_eq!(args[sh_pos + 1], "-i");
}

#[test]
fn missing_tool_fails_unless_shell() {
    let config = sandbox_config(NetworkMode::Enabled, false);
    let r = SandboxBuilder::new(config, bwrap_core::config::FilesystemSpec::default(), false, true);
    assert!(r.is_err());
}

#[test]
fn etc_mounts_resolve_symlinks() {
    let mut spec = bwrap_core::config::FilesystemSpec::default();
    spec.essential_etc_files.push("resolv.conf".to_string());
    spec.essential_etc_files.push("hosts".to_string());
    let config = sandbox_config(NetworkMode::Enabled, false);
    let mut builder = SandboxBuilder::new(config, spec, true, true).unwrap();
    builder
        .mount_minimal_etc(
            &vec![
                PathProbe::SymlinkTo("/run/systemd/resolve/stub-resolv.conf".to_string()),
                PathProbe::Present,
            ],
            &vec![],
        )
        .unwrap();
    let args = builder.build_command();
    let text = args.join(" ");
    assert!(text.contains("--tmpfs /etc"));
    assert!(text.contains("--ro-bind-try /run/systemd/resolve/stub-resolv.conf /etc/resolv.conf"));
    assert!(text.contains("--ro-bind-try /etc/hosts /etc/hosts"));
    assert!(text.contains("--remount-ro /etc"));
}

#[test]
fn home_mounts_skip_missing_paths() {
    let mut spec = bwrap_core::config::FilesystemSpec::default();
    spec.ro_home_dirs.push(".cargo".to_string());
    spec.ro_home_dirs.push(".absent".to_string());
    let config = sandbox_config(NetworkMode::Enabled, false);
    let mut builder = SandboxBuilder::new(config, spec, true, true).unwrap();
    builder.mount_ro_home_dirs("/home/u", &vec![true, false]);
    let text = builder.build_command().join(" ");
    assert!(text.contains("--ro-bind-try /home/u/.cargo /home/u/.cargo"));
    assert!(!text.contains(".absent"));
}

#[test]
fn session_identifiers_are_nonempty() {
    let id = Uuid::new_v4().to_string();
    assert!(!id.is_empty());
}

#[test]
fn setup_mounts_orders_the_whole_list() {
    let mut spec = bwrap_core::config::FilesystemSpec::default();
    spec.essential_etc_files.push("hosts".to_string());
    spec.ro_home_dirs.push(".cargo".to_string());
    spec.ro_paths.push("/opt/data".to_string());
    let config = sandbox_config(
        NetworkMode::Filtered {
            proxy_socket: "/tmp/bw-proxy-7.sock".to_string(),
            policy_name: "agent".to_string(),
            learning_output: None,
            learning_mode: None,
        },
        false,
    );
    let mut builder = SandboxBuilder::new(config, spec, true, true).unwrap();
    let probes = bwrap_core::sandbox::HostProbes {
        home: "/home/u".to_string(),
        etc_file_probes: vec![PathProbe::Present],
        etc_dir_probes: vec![],
        ro_home_dirs_exist: vec![true],
        rw_home_dirs_exist: vec![],
        ro_home_files_exist: vec![],
        rw_home_files_exist: vec![],
        ro_paths_exist: vec![false],
        rw_paths_exist: vec![],
        usr_exists: true,
        lib_exists: false,
        lib64_exists: true,
        relay_path: Some("/usr/bin/bw-relay".to_string()),
        additional_ro: vec![("/work/notes".to_string(), true)],
        additional_rw: vec![],
    };
    builder.setup_mounts(&probes).unwrap();
    let text = builder.build_command().join(" ");
    assert!(text.contains("--tmpfs /etc"));
    assert!(text.contains("--ro-bind-try /etc/hosts /etc/hosts"));
    assert!(text.contains("--remount-ro /etc"));
    assert!(text.contains("--ro-bind-try /home/u/.cargo /home/u/.cargo"));
    // a listed path that does not exist is skipped
    assert!(!text.contains("/opt/data"));
    assert!(text.contains("--ro-bind /usr /usr"));
    assert!(!text.contains("--ro-bind /lib /lib "));
    assert!(text.contains("--ro-bind /lib64 /lib64"));
    assert!(text.contains("--symlink /usr/bin /bin"));
    assert!(text.contains("--bind /work /work"));
    assert!(text.contains("--ro-bind /usr/bin/bw-relay /bw-relay"));
    assert!(text.contains("--proc /proc"));
    assert!(text.contains("--dev-bind /dev /dev"));
    assert!(text.contains("--ro-bind /work/notes /work/notes"));
    assert!(text.contains("--bind /tmp/bw-proxy-7.sock /proxy.sock"));
}

#[test]
fn missing_relay_fails_in_filtered_mode() {
    let config = sandbox_config(
        NetworkMode::Filtered {
            proxy_socket: "/tmp/bw-proxy-8.sock".to_string(),
            policy_name: "agent".to_string(),
            learning_output: None,
            learning_mode: None,
        },
        false,
    );
    let mut builder =
        SandboxBuilder::new(config, bwrap_core::config::FilesystemSpec::default(), true, true)
            .unwrap();
    let probes = bwrap_core::sandbox::HostProbes {
        home: "/home/u".to_string(),
        etc_file_probes: vec![],
        etc_dir_probes: vec![],
        ro_home_dirs_exist: vec![],
        rw_home_dirs_exist: vec![],
        ro_home_files_exist: vec![],
        rw_home_files_exist: vec![],
        ro_paths_exist: vec![],
        rw_paths_exist: vec![],
        usr_exists: true,
        lib_exists: true,
        lib64_exists: true,
        relay_path: None,
        additional_ro: vec![],
        additional_rw: vec![],
    };
    assert!(builder.setup_mounts(&probes).is_err());
}

#[test]
fn connect_request_line_round_trips() {
    let text = bwrap_core::protocol::format_connect_request("api.example.com", 443);
    assert_eq!(text, "CONNECT api.example.com 443\n");
    let parsed = parse_connect_line(&text.into_bytes()).unwrap();
    assert_eq!(parsed.0, "api.example.com");
    assert_eq!(parsed.1, 443);
}
