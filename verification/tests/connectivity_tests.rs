use oxipulse::connectivity::{log_status_change, parse_host_port, StatusChange};

#[test]
fn host_port_from_urls() {
    assert_eq!(parse_host_port("http://host:4317").unwrap(), "host:4317");
    assert_eq!(parse_host_port("https://ingest.example.com:443/").unwrap(), "ingest.example.com:443");
    assert_eq!(parse_host_port("https://ingest.example.com").unwrap(), "ingest.example.com:4317");
    assert_eq!(parse_host_port("host").unwrap(), "host:4317");
    assert_eq!(parse_host_port("1.1.1.1:53").unwrap(), "1.1.1.1:53");
    assert_eq!(parse_host_port("https://https://a//").unwrap(), "a:4317");
    assert_eq!(parse_host_port("https://http://a").unwrap(), "a:4317");
    assert_eq!(parse_host_port("").unwrap(), ":4317");
    assert_eq!(
        parse_host_port("https://ingest.example.com:4317/v1/metrics").unwrap(),
        "ingest.example.com:4317"
    );
    assert_eq!(parse_host_port("http://host/path:9").unwrap(), "host:4317");
}

#[test]
fn status_changes() {
    assert_eq!(log_status_change(false, true, 7), StatusChange::WentOffline);
    assert_eq!(log_status_change(true, false, 7), StatusChange::Reconnected { flushing: 7 });
    assert_eq!(log_status_change(true, true, 7), StatusChange::Unchanged);
    assert_eq!(log_status_change(false, false, 0), StatusChange::Unchanged);
}
