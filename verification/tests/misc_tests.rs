use oxipulse::phone_home::auth_header_valid;
use oxipulse::cli::{parse_cli_command, version_line, CliCommand};
use oxipulse::metrics::{disk_label, ipv4_first_order, ping_targets, DiskInfo, NetCounters};
use oxipulse::phone_home::{
    bearer_auth_value, last_error_kind, needs_remote_config, remote_config_url, resolve_telemetry,
    telemetry_url, RemoteConfig,
};
use oxipulse::updater::{failure_message, restart_needed, update_now_reply, UpdateCheck, UpdateReply};

fn args(v: &[&str]) -> Vec<String> {
    v.iter().map(|s| s.to_string()).collect()
}

#[test]
fn cli_commands() {
    assert_eq!(parse_cli_command(&args(&["oxipulse"])), CliCommand::Run);
    assert_eq!(parse_cli_command(&args(&["oxipulse", "--version"])), CliCommand::Version);
    assert_eq!(parse_cli_command(&args(&["oxipulse", "-V"])), CliCommand::Version);
    assert_eq!(parse_cli_command(&args(&["oxipulse", "status"])), CliCommand::Status);
    assert_eq!(parse_cli_command(&args(&["oxipulse", "top", "x"])), CliCommand::Top);
    assert_eq!(parse_cli_command(&args(&["oxipulse", "-v"])), CliCommand::Run);
    assert_eq!(version_line("0.3.8"), "oxipulse 0.3.8");
}

#[test]
fn disks() {
    let d = DiskInfo::from_space("sda1".to_string(), 100, 30);
    assert_eq!((d.name.as_str(), d.total_bytes, d.used_bytes), ("sda1", 100, 70));
    let d = DiskInfo::from_space("x".to_string(), 10, 30);
    assert_eq!(d.used_bytes, 0);
    assert_eq!(disk_label("sda1", "/", false), "sda1");
    assert_eq!(disk_label("", "/mnt/data", false), "/mnt/data");
    assert_eq!(disk_label("Local Disk", "C:\\", true), "C:");
    assert_eq!(disk_label("Local Disk", "\\/\\", true), "Local Disk");
    assert_eq!(disk_label("n", "D:/data//", true), "D:/data");
}

#[test]
fn net_counters_delta() {
    let mut c = NetCounters::new();
    assert_eq!(c.advance(1000, 500), None);
    assert_eq!(c.advance(1500, 400), Some((500, 0)));
    assert_eq!(c.advance(1500, 900), Some((0, 500)));
}

#[test]
fn ping_target_choice() {
    assert_eq!(
        ping_targets(&vec![], "http://h:4317"),
        vec!["http://h:4317".to_string(), "1.1.1.1:53".to_string()]
    );
    let t = vec!["a".to_string(), "b".to_string()];
    assert_eq!(ping_targets(&t, "http://h:4317"), t);
}

#[test]
fn ipv4_first() {
    assert_eq!(ipv4_first_order(&vec![false, true, false, true]), vec![1, 3, 0, 2]);
    assert_eq!(ipv4_first_order(&vec![]), Vec::<usize>::new());
}

#[test]
fn telemetry_resolution() {
    assert!(!needs_remote_config(Some(false)));
    assert!(needs_remote_config(None));
    let on = Some(RemoteConfig { telemetry_enabled: true });
    assert!(resolve_telemetry(Some(true), None));
    assert!(!resolve_telemetry(Some(false), on));
    assert!(resolve_telemetry(None, on));
    assert!(!resolve_telemetry(None, None));
    assert_eq!(remote_config_url("https://api.x"), "https://api.x/agents/me/config");
    assert_eq!(telemetry_url("https://api.x"), "https://api.x/agents/me/telemetry");
    assert_eq!(last_error_kind(true), "connectivity");
    assert_eq!(last_error_kind(false), "none");
    assert_eq!(bearer_auth_value("abc"), "Bearer abc");
}

#[test]
fn update_outcomes() {
    assert!(restart_needed(&UpdateCheck::Updated));
    assert!(!restart_needed(&UpdateCheck::UpToDate));
    assert_eq!(failure_message(&UpdateCheck::Failed("x".to_string())), Some("update check failed: x".to_string()));
    assert_eq!(failure_message(&UpdateCheck::Panicked("y".to_string())), Some("update task panicked: y".to_string()));
    assert_eq!(failure_message(&UpdateCheck::UpToDate), None);
    assert!(matches!(update_now_reply(&UpdateCheck::Updated), UpdateReply::Done { updated: true }));
    assert!(matches!(update_now_reply(&UpdateCheck::UpToDate), UpdateReply::Done { updated: false }));
    match update_now_reply(&UpdateCheck::Failed("e".to_string())) {
        UpdateReply::Failed { message } => assert_eq!(message, "update check failed: e"),
        _ => panic!("expected a failure"),
    }
}

#[test]
fn auth_header_validity() {
    assert!(auth_header_valid("abc.DEF-123_~"));
    assert!(auth_header_valid("tab\there"));
    assert!(auth_header_valid("caf\u{e9}"));
    assert!(auth_header_valid(""));
    assert!(!auth_header_valid("line\nbreak"));
    assert!(!auth_header_valid("del\u{7f}"));
    for t in ["abc", "a\tb", "caf\u{e9}", "x\ny", "\u{7f}", "\u{1f}"] {
        let expected = tonic::metadata::MetadataValue::<tonic::metadata::Ascii>::try_from(format!("Bearer {}", t)).is_ok();
        assert_eq!(auth_header_valid(t), expected, "token {:?}", t);
    }
}
