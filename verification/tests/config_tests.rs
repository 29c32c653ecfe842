use oxipulse::config_file::sync_version_field;
use oxipulse::config::{
    default_api_url, default_buffer_max, default_interval, effective_endpoint, telemetry_flag,
    Config, ConfigError, EnvOverrides,
};

fn no_env() -> EnvOverrides {
    EnvOverrides {
        endpoint: None,
        token: None,
        interval_secs: None,
        buffer_max: None,
        telemetry: None,
        api_url: None,
        mode: None,
        latency_targets: None,
    }
}

#[test]
fn test_config_error_display() {
    assert!(ConfigError::MissingEndpoint.message().contains("missing OTLP endpoint"));
    assert!(ConfigError::MissingToken.message().contains("missing auth token"));
    assert!(ConfigError::ParseError("invalid toml".to_string()).message().contains("invalid toml"));
}

#[test]
fn test_local_agent_mode_default_endpoint() {
    let mode = Some("local_agent".to_string());
    let endpoint = String::new();
    let effective_endpoint = effective_endpoint(&mode, endpoint);
    assert_eq!(effective_endpoint, "http://localhost:4317".to_string());
}

#[test]
fn config_error_messages_are_exact() {
    assert_eq!(
        ConfigError::MissingEndpoint.message(),
        "missing OTLP endpoint \u{2014} set 'endpoint' in config.toml or OXIPULSE_ENDPOINT env var"
    );
    assert_eq!(
        ConfigError::MissingToken.message(),
        "missing auth token \u{2014} set 'token' in config.toml or OXIPULSE_TOKEN env var"
    );
    assert_eq!(
        ConfigError::ParseError("bad".to_string()).message(),
        "config parse error: bad"
    );
}

#[test]
fn effective_endpoint_local_agent_overrides_endpoint() {
    let local = Some("local_agent".to_string());
    assert_eq!(
        effective_endpoint(&local, "https://ingest.securyblack.com:4317".to_string()),
        "http://localhost:4317"
    );
    assert_eq!(effective_endpoint(&Some("direct".to_string()), "http://x:1".to_string()), "http://x:1");
    assert_eq!(effective_endpoint(&Some("direct".to_string()), String::new()), "");
    assert_eq!(effective_endpoint(&None, String::new()), "");
}

#[test]
fn defaults() {
    assert_eq!(default_interval(), 30);
    assert_eq!(default_buffer_max(), 8640);
    assert_eq!(default_api_url(), "https://api.securyblack.com");
    let c = Config::default();
    assert_eq!(c.version, None);
    assert_eq!(c.endpoint, "");
    assert_eq!(c.token, "");
    assert_eq!(c.mode, None);
    assert_eq!(c.interval_secs, 30);
    assert_eq!(c.buffer_max_size, 8640);
    assert_eq!(c.telemetry_enabled, None);
    assert_eq!(c.api_url, "https://api.securyblack.com");
    assert!(c.latency_targets.is_empty());
}

#[test]
fn env_overrides_apply() {
    let mut c = Config::default();
    let env = EnvOverrides {
        endpoint: Some("https://ingest.example.com:4317".to_string()),
        token: Some("tok".to_string()),
        interval_secs: Some("+15".to_string()),
        buffer_max: Some("100".to_string()),
        telemetry: Some("YES".to_string()),
        api_url: Some("http://api.local".to_string()),
        mode: Some("direct".to_string()),
        latency_targets: Some(" 1.1.1.1:53 , ,example.com:443,\u{3000}".to_string()),
    };
    c.apply_env(&env);
    assert_eq!(c.endpoint, "https://ingest.example.com:4317");
    assert_eq!(c.token, "tok");
    assert_eq!(c.interval_secs, 15);
    assert_eq!(c.buffer_max_size, 100);
    assert_eq!(c.telemetry_enabled, Some(true));
    assert_eq!(c.api_url, "http://api.local");
    assert_eq!(c.mode, Some("direct".to_string()));
    assert_eq!(c.latency_targets, vec!["1.1.1.1:53".to_string(), "example.com:443".to_string()]);
}

#[test]
fn env_overrides_ignore_unparsable_values() {
    let mut c = Config::default();
    let mut env = no_env();
    env.interval_secs = Some("ten".to_string());
    env.buffer_max = Some("-5".to_string());
    env.telemetry = Some("maybe".to_string());
    c.apply_env(&env);
    assert_eq!(c.interval_secs, 30);
    assert_eq!(c.buffer_max_size, 8640);
    assert_eq!(c.telemetry_enabled, None);

    env.interval_secs = Some("18446744073709551616".to_string());
    env.telemetry = Some("Off".to_string());
    c.apply_env(&env);
    assert_eq!(c.interval_secs, 30);
    assert_eq!(c.telemetry_enabled, None);

    env.interval_secs = Some("18446744073709551615".to_string());
    env.telemetry = Some("FALSE".to_string());
    c.apply_env(&env);
    assert_eq!(c.interval_secs, u64::MAX);
    assert_eq!(c.telemetry_enabled, Some(false));
}

#[test]
fn telemetry_words() {
    for w in ["true", "1", "yes"] {
        assert_eq!(telemetry_flag(w), Some(true));
    }
    for w in ["false", "0", "no"] {
        assert_eq!(telemetry_flag(w), Some(false));
    }
    assert_eq!(telemetry_flag("TRUE"), None);
    assert_eq!(telemetry_flag(""), None);
}

#[test]
fn finish_checks_endpoint_then_token() {
    let c = Config::default();
    assert!(matches!(c.finish("0.3.8"), Err(ConfigError::MissingEndpoint)));

    let mut c = Config::default();
    c.endpoint = "http://x:4317".to_string();
    assert!(matches!(c.finish("0.3.8"), Err(ConfigError::MissingToken)));

    let mut c = Config::default();
    c.mode = Some("local_agent".to_string());
    c.token = "t".to_string();
    let done = c.finish("0.3.8").ok().unwrap();
    assert_eq!(done.endpoint, "http://localhost:4317");
    assert_eq!(done.version, Some("0.3.8".to_string()));
    assert_eq!(done.token, "t");
}

#[test]
fn from_sources_applies_env_before_checking() {
    let file = Config::default();
    let mut env = no_env();
    env.endpoint = Some("http://collector:4317".to_string());
    env.token = Some("secret".to_string());
    let cfg = Config::from_sources(file, &env, "1.2.3").ok().unwrap();
    assert_eq!(cfg.endpoint, "http://collector:4317");
    assert_eq!(cfg.token, "secret");
    assert_eq!(cfg.version, Some("1.2.3".to_string()));

    let mut env = no_env();
    env.mode = Some("local_agent".to_string());
    assert!(matches!(
        Config::from_sources(Config::default(), &env, "1.2.3"),
        Err(ConfigError::MissingToken)
    ));
}

#[test]
fn version_field_is_synced() {
    assert_eq!(
        sync_version_field("endpoint = \"e\"\nversion = \"0.3.7\"\ntoken = \"t\"\n", "0.3.8"),
        Some("endpoint = \"e\"\nversion = \"0.3.8\"\ntoken = \"t\"\n".to_string())
    );
    assert_eq!(sync_version_field("version = \"0.3.8\"\nendpoint = \"e\"", "0.3.8"), None);
    assert_eq!(
        sync_version_field("endpoint = \"e\"\n", "0.3.8"),
        Some("version = \"0.3.8\"\nendpoint = \"e\"\n".to_string())
    );
    assert_eq!(
        sync_version_field("  version=\"old\"", "1.0.0"),
        Some("version = \"1.0.0\"".to_string())
    );
    assert_eq!(
        sync_version_field("versions = 1\n", "1.0.0"),
        Some("version = \"1.0.0\"\nversions = 1\n".to_string())
    );
    assert_eq!(sync_version_field("", "1.0.0"), Some("version = \"1.0.0\"\n".to_string()));
}
