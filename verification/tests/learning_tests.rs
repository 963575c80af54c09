//! Tests for the learning recorder and its TOML rendering.

use bwrap_core::engine::IpAddress;
use bwrap_core::learning::{format_toml_array, LearningRecorder};

#[test]
fn learning_test_record_host() {
    let mut recorder = LearningRecorder::new();
    recorder.record_host("example.com");
    recorder.record_host("api.example.com");
    recorder.record_host("example.com"); // Duplicate

    let stats = recorder.stats();
    assert_eq!(stats.host_count, 2);
}

#[test]
fn learning_test_record_ip() {
    let mut recorder = LearningRecorder::new();
    let ipv4 = IpAddress::V4(0xC0A80101);
    let ipv6 = IpAddress::V6(0x20010DB8000000000000000000000001u128);

    // Address recording is a no-op since address filtering was removed
    recorder.record_ip(ipv4);
    recorder.record_ip(ipv6);

    let stats = recorder.stats();
    assert_eq!(stats.host_count, 0);
}

#[test]
fn test_record_denied_host() {
    let mut recorder = LearningRecorder::new();
    recorder.record_denied_host("blocked.com");
    recorder.record_denied_host("blocked.com"); // Duplicate

    let denied_name = recorder.denied_group_name();
    let group = recorder.config.network.groups.get(&denied_name).unwrap();
    assert_eq!(group.hosts.len(), 1);
}

#[test]
fn learning_test_stats() {
    let mut recorder = LearningRecorder::new();
    recorder.record_host("example.com");
    // Address recording is a no-op since address filtering was removed
    recorder.record_ip(IpAddress::V4(0xC0A80101));
    recorder.record_ip(IpAddress::V6(1));

    let stats = recorder.stats();
    assert_eq!(stats.host_count, 1);
    assert_eq!(stats.total(), 1);
}

#[test]
fn test_format_toml_array() {
    let values = vec!["host1.com".to_string(), "host2.com".to_string()];
    let result = format_toml_array("hosts", &values);

    assert!(result.contains("hosts = ["));
    assert!(result.contains("\"host1.com\""));
    assert!(result.contains("\"host2.com\""));
}

#[test]
fn test_format_toml_array_empty() {
    let values: Vec<String> = vec![];
    let result = format_toml_array("hosts", &values);
    assert_eq!(result, "");
}

#[test]
fn session_name_is_stamped() {
    let recorder = LearningRecorder::new();
    assert!(recorder.session_name().starts_with("learned_session_"));
    assert!(recorder.session_name().len() > "learned_session_".len());
}

#[test]
fn render_writes_group_sections() {
    let mut recorder = LearningRecorder::with_session_name("test_session".to_string());
    recorder.record_host("example.com");
    recorder.record_host("api.example.com");
    recorder.record_denied_host("blocked.com");

    let text = recorder.render();
    assert!(text.contains("[network.groups.test_session]"));
    assert!(text.contains("[network.groups.test_session_denied]"));
    assert!(text.contains("\"example.com\""));
    assert!(text.contains("\"api.example.com\""));
    assert!(text.contains("\"blocked.com\""));
}

#[test]
fn rendered_text_parses_as_toml() {
    let mut recorder = LearningRecorder::with_session_name("roundtrip".to_string());
    recorder.record_host("api.x.com");
    let text = recorder.render();
    let value: toml::Table = toml::from_str(&text).unwrap();
    let hosts = value["network"]["groups"]["roundtrip"]["hosts"].as_array().unwrap();
    assert_eq!(hosts.len(), 1);
    assert_eq!(hosts[0].as_str(), Some("api.x.com"));
}
