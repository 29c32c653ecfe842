use vstd::prelude::*;
use vstd::string::StringExecFns;
use crate::text::{
    parse_u64, parse_usize, spec_parse_unsigned, spec_split, spec_trimmed_nonempty,
    split_trimmed_nonempty, str_eq, string_views,
};

verus! {

/// Default collection interval, in seconds.
pub fn default_interval() -> (r: u64)
    ensures
        r == 30,
{
    30
}

/// Default number of snapshots kept while offline.
pub fn default_buffer_max() -> (r: usize)
    ensures
        r == 8640,
{
    8640
}

/// Default API base URL for remote configuration and telemetry pings.
pub fn default_api_url() -> (r: String)
    ensures
        r@ == "https://api.securyblack.com"@,
{
    String::from_str("https://api.securyblack.com")
}

/// The view of an optional string.
pub open spec fn opt_view(o: Option<String>) -> Option<Seq<char>> {
    match o {
        Some(s) => Some(s@),
        None => None,
    }
}

/// Agent configuration.
pub struct Config {
    /// Agent version
    pub version: Option<String>,
    /// OTLP collector endpoint (e.g. "https://ingest.example.com:4317")
    pub endpoint: String,
    /// Authentication token sent as a header to the OTLP collector
    pub token: String,
    /// Deployment mode: "direct" (default) or "local_agent" (sends to localhost:4317)
    pub mode: Option<String>,
    /// How often to collect and send metrics, in seconds (default: 30)
    pub interval_secs: u64,
    /// Maximum number of metric snapshots to buffer when offline (default: 8640)
    pub buffer_max_size: usize,
    /// Opt-in usage telemetry: absent defers to the server-side setting,
    /// `true` and `false` override it.
    pub telemetry_enabled: Option<bool>,
    /// API base URL used for remote config and telemetry pings.
    pub api_url: String,
    /// Latency targets to check; empty falls back to the endpoint.
    pub latency_targets: Vec<String>,
}

impl Config {
    /// Whether `self` holds the default settings.
    pub open spec fn is_default(&self) -> bool {
        &&& self.version is None
        &&& self.endpoint@ == Seq::<char>::empty()
        &&& self.token@ == Seq::<char>::empty()
        &&& self.mode is None
        &&& self.interval_secs == 30
        &&& self.buffer_max_size == 8640
        &&& self.telemetry_enabled is None
        &&& self.api_url@ == "https://api.securyblack.com"@
        &&& self.latency_targets@.len() == 0
    }
}

impl Default for Config {
    fn default() -> (c: Self)
        ensures
            c.is_default(),
    {
        Config {
            version: None,
            endpoint: String::new(),
            token: String::new(),
            mode: None,
            interval_secs: default_interval(),
            buffer_max_size: default_buffer_max(),
            telemetry_enabled: None,
            api_url: default_api_url(),
            latency_targets: Vec::new(),
        }
    }
}


/// Why a configuration cannot be used.
#[derive(Debug)]
pub enum ConfigError {
    MissingEndpoint,
    MissingToken,
    ParseError(String),
}

impl ConfigError {
    /// The text shown for this error.
    pub open spec fn spec_message(&self) -> Seq<char> {
        match self {
            ConfigError::MissingEndpoint =>
                "missing OTLP endpoint \u{2014} set 'endpoint' in config.toml or OXIPULSE_ENDPOINT env var"@,
            ConfigError::MissingToken =>
                "missing auth token \u{2014} set 'token' in config.toml or OXIPULSE_TOKEN env var"@,
            ConfigError::ParseError(msg) => "config parse error: "@ + msg@,
        }
    }

    /// The text shown for this error.
    pub fn message(&self) -> (m: String)
        ensures
            m@ == self.spec_message(),
    {
        match self {
            ConfigError::MissingEndpoint => String::from_str(
                "missing OTLP endpoint \u{2014} set 'endpoint' in config.toml or OXIPULSE_ENDPOINT env var",
            ),
            ConfigError::MissingToken => String::from_str(
                "missing auth token \u{2014} set 'token' in config.toml or OXIPULSE_TOKEN env var",
            ),
            ConfigError::ParseError(msg) => {
                let mut m = String::from_str("config parse error: ");
                m.append(msg.as_str());
                m
            },
        }
    }
}

/// The values of the environment variables that override the file:
/// `OXIPULSE_ENDPOINT`, `OXIPULSE_TOKEN`, `OXIPULSE_INTERVAL_SECS`,
/// `OXIPULSE_BUFFER_MAX`, `OXIPULSE_TELEMETRY`, `OXIPULSE_API_URL`,
/// `OXIPULSE_MODE` and `OXIPULSE_LATENCY_TARGETS`; `None` where unset.
pub struct EnvOverrides {
    pub endpoint: Option<String>,
    pub token: Option<String>,
    pub interval_secs: Option<String>,
    pub buffer_max: Option<String>,
    pub telemetry: Option<String>,
    pub api_url: Option<String>,
    pub mode: Option<String>,
    pub latency_targets: Option<String>,
}

/// What `str::to_lowercase` returns for `s`.
pub uninterp spec fn spec_lowercase(s: Seq<char>) -> Seq<char>;

/// Whether every character of `s` is ASCII.
pub open spec fn spec_is_ascii(s: Seq<char>) -> bool {
    forall|i: int| 0 <= i < s.len() ==> (#[trigger] s[i] as u32) < 128
}

/// `c` with `A`..`Z` mapped to `a`..`z`.
pub open spec fn spec_ascii_lower_char(c: char) -> char {
    if 65 <= (c as u32) <= 90 {
        ((c as u32) + 32) as char
    } else {
        c
    }
}

/// Calls `str::to_lowercase`; its result is named `spec_lowercase`, as the
/// full Unicode case mapping is not restated here. For ASCII text the
/// mapping is the ASCII one (`A`..`Z` to `a`..`z`, all else unchanged),
/// which is what Unicode's lowercase mapping gives on ASCII letters.
#[verifier::external_body]
fn lowercase(s: &str) -> (r: String)
    ensures
        r@ == spec_lowercase(s@),
        spec_is_ascii(s@) ==> r@ == s@.map_values(|c: char| spec_ascii_lower_char(c)),
{
    s.to_lowercase()
}

/// The telemetry switch a lower-cased `OXIPULSE_TELEMETRY` value stands for.
pub open spec fn spec_telemetry_flag(lowered: Seq<char>) -> Option<bool> {
    if lowered == "true"@ || lowered == "1"@ || lowered == "yes"@ {
        Some(true)
    } else if lowered == "false"@ || lowered == "0"@ || lowered == "no"@ {
        Some(false)
    } else {
        None
    }
}

/// Whether a lower-cased `OXIPULSE_TELEMETRY` value is one of the words
/// that enable telemetry.
pub open spec fn is_enabling_word(lowered: Seq<char>) -> bool {
    lowered == "true"@ || lowered == "1"@ || lowered == "yes"@
}

/// Whether a lower-cased `OXIPULSE_TELEMETRY` value is one of the words
/// that disable telemetry.
pub open spec fn is_disabling_word(lowered: Seq<char>) -> bool {
    lowered == "false"@ || lowered == "0"@ || lowered == "no"@
}

/// The switch table is exact: `true`, `1` and `yes` enable, `false`, `0`
/// and `no` disable, and every other value names no switch.
pub proof fn lemma_telemetry_flag_table(lowered: Seq<char>)
    ensures
        !(is_enabling_word(lowered) && is_disabling_word(lowered)),
        spec_telemetry_flag(lowered) == Some(true) <==> is_enabling_word(lowered),
        spec_telemetry_flag(lowered) == Some(false) <==> is_disabling_word(lowered),
        spec_telemetry_flag(lowered) is None <==> !is_enabling_word(lowered)
            && !is_disabling_word(lowered),
{
    reveal_strlit("true");
    reveal_strlit("1");
    reveal_strlit("yes");
    reveal_strlit("false");
    reveal_strlit("0");
    reveal_strlit("no");
    assert("true"@ != "false"@ && "true"@ != "0"@ && "true"@ != "no"@) by {
        assert("true"@[0] != "false"@[0]);
    }
    assert("1"@ != "false"@ && "1"@ != "0"@ && "1"@ != "no"@) by {
        assert("1"@[0] != "0"@[0]);
        assert("1"@[0] != "no"@[0]);
    }
    assert("yes"@ != "false"@ && "yes"@ != "0"@ && "yes"@ != "no"@) by {
        assert("yes"@[0] != "no"@[0]);
    }
}

/// An `OXIPULSE_TELEMETRY` value overrides the file's telemetry setting only
/// when it names a switch: an enabling word turns telemetry on, a disabling
/// word turns it off, and any other value (or none) leaves the setting as
/// the file had it.
pub proof fn lemma_telemetry_override(old_cfg: Config, env: EnvOverrides, cfg: Config)
    requires
        spec_env_applied(old_cfg, env, cfg),
    ensures
        match env.telemetry {
            Some(v) => {
                let l = spec_lowercase(v@);
                &&& is_enabling_word(l) ==> cfg.telemetry_enabled == Some(true)
                &&& is_disabling_word(l) ==> cfg.telemetry_enabled == Some(false)
                &&& !is_enabling_word(l) && !is_disabling_word(l) ==> cfg.telemetry_enabled
                    == old_cfg.telemetry_enabled
            },
            None => cfg.telemetry_enabled == old_cfg.telemetry_enabled,
        },
{
    if let Some(v) = env.telemetry {
        lemma_telemetry_flag_table(spec_lowercase(v@));
    }
}

/// Reads a lower-cased telemetry switch: `true`, `1`, `yes` enable,
/// `false`, `0`, `no` disable, anything else leaves the setting alone.
pub fn telemetry_flag(lowered: &str) -> (r: Option<bool>)
    ensures
        r == spec_telemetry_flag(lowered@),
        r == Some(true) <==> is_enabling_word(lowered@),
        r == Some(false) <==> is_disabling_word(lowered@),
        r is None <==> !is_enabling_word(lowered@) && !is_disabling_word(lowered@),
{
    proof {
        lemma_telemetry_flag_table(lowered@);
    }
    if str_eq(lowered, "true") || str_eq(lowered, "1") || str_eq(lowered, "yes") {
        Some(true)
    } else if str_eq(lowered, "false") || str_eq(lowered, "0") || str_eq(lowered, "no") {
        Some(false)
    } else {
        None
    }
}

/// `current` overridden by `value` when that is set.
pub open spec fn spec_override(current: Seq<char>, value: Option<String>) -> Seq<char> {
    match value {
        Some(v) => v@,
        None => current,
    }
}

/// `current` overridden by the number `value` holds, when it is set and
/// parses as an unsigned integer no larger than `max`.
pub open spec fn spec_override_number(current: nat, value: Option<String>, max: nat) -> nat {
    match value {
        Some(v) => match spec_parse_unsigned(v@, max) {
            Some(n) => n,
            None => current,
        },
        None => current,
    }
}

/// `current` overridden by the switch `value` names, when it is set and
/// names one.
pub open spec fn spec_override_telemetry(current: Option<bool>, value: Option<String>) -> Option<
    bool,
> {
    match value {
        Some(v) => match spec_telemetry_flag(spec_lowercase(v@)) {
            Some(b) => Some(b),
            None => current,
        },
        None => current,
    }
}

/// The latency targets listed in a comma-separated value.
pub open spec fn spec_target_list(s: Seq<char>) -> Seq<Seq<char>> {
    spec_trimmed_nonempty(spec_split(s, ','))
}

/// `cfg` once the environment `env` has overridden it.
pub open spec fn spec_env_applied(old_cfg: Config, env: EnvOverrides, cfg: Config) -> bool {
    &&& opt_view(cfg.version) == opt_view(old_cfg.version)
    &&& cfg.endpoint@ == spec_override(old_cfg.endpoint@, env.endpoint)
    &&& cfg.token@ == spec_override(old_cfg.token@, env.token)
    &&& cfg.interval_secs == spec_override_number(
        old_cfg.interval_secs as nat,
        env.interval_secs,
        u64::MAX as nat,
    )
    &&& cfg.buffer_max_size == spec_override_number(
        old_cfg.buffer_max_size as nat,
        env.buffer_max,
        usize::MAX as nat,
    )
    &&& cfg.telemetry_enabled == spec_override_telemetry(old_cfg.telemetry_enabled, env.telemetry)
    &&& cfg.api_url@ == spec_override(old_cfg.api_url@, env.api_url)
    &&& opt_view(cfg.mode) == match env.mode {
        Some(m) => Some(m@),
        None => opt_view(old_cfg.mode),
    }
    &&& string_views(cfg.latency_targets@) == match env.latency_targets {
        Some(t) => spec_target_list(t@),
        None => string_views(old_cfg.latency_targets@),
    }
}

/// Whether `mode` names the local-agent mode.
pub open spec fn spec_is_local_agent(mode: Option<Seq<char>>) -> bool {
    mode == Some("local_agent"@)
}

/// The endpoint used: in local-agent mode metrics go to the collector on
/// `localhost:4317` instead of the configured endpoint.
pub open spec fn spec_effective_endpoint(mode: Option<Seq<char>>, endpoint: Seq<char>) -> Seq<
    char,
> {
    if spec_is_local_agent(mode) {
        "http://localhost:4317"@
    } else {
        endpoint
    }
}

/// The endpoint used: in local-agent mode metrics go to the collector on
/// `localhost:4317` instead of the configured endpoint.
pub fn effective_endpoint(mode: &Option<String>, endpoint: String) -> (r: String)
    ensures
        r@ == spec_effective_endpoint(opt_view(*mode), endpoint@),
{
    let local = match mode {
        Some(m) => str_eq(m.as_str(), "local_agent"),
        None => false,
    };
    if local {
        String::from_str("http://localhost:4317")
    } else {
        endpoint
    }
}

impl Config {
    /// Applies the environment overrides to the configuration read from the
    /// file.
    pub fn apply_env(&mut self, env: &EnvOverrides)
        ensures
            spec_env_applied(*old(self), *env, *final(self)),
            match env.telemetry {
                Some(v) => {
                    let l = spec_lowercase(v@);
                    &&& is_enabling_word(l) ==> final(self).telemetry_enabled == Some(true)
                    &&& is_disabling_word(l) ==> final(self).telemetry_enabled == Some(false)
                    &&& !is_enabling_word(l) && !is_disabling_word(l)
                        ==> final(self).telemetry_enabled == old(self).telemetry_enabled
                },
                None => final(self).telemetry_enabled == old(self).telemetry_enabled,
            },
    {
        proof {
            if env.telemetry is Some {
                lemma_telemetry_flag_table(spec_lowercase(env.telemetry->0@));
            }
        }
        if let Some(v) = &env.endpoint {
            self.endpoint = v.clone();
        }
        if let Some(v) = &env.token {
            self.token = v.clone();
        }
        if let Some(v) = &env.interval_secs {
            if let Some(n) = parse_u64(v.as_str()) {
                self.interval_secs = n;
            }
        }
        if let Some(v) = &env.buffer_max {
            if let Some(n) = parse_usize(v.as_str()) {
                self.buffer_max_size = n;
            }
        }
        if let Some(v) = &env.telemetry {
            let lowered = lowercase(v.as_str());
            match telemetry_flag(lowered.as_str()) {
                Some(b) => {
                    self.telemetry_enabled = Some(b);
                },
                None => {},
            }
        }
        if let Some(v) = &env.api_url {
            self.api_url = v.clone();
        }
        if let Some(v) = &env.mode {
            self.mode = Some(v.clone());
        }
        if let Some(v) = &env.latency_targets {
            self.latency_targets = split_trimmed_nonempty(v.as_str(), ',');
        }
    }

    /// The endpoint this configuration resolves to.
    pub open spec fn spec_resolved_endpoint(&self) -> Seq<char> {
        spec_effective_endpoint(opt_view(self.mode), self.endpoint@)
    }

    /// Whether `self` and `other` agree on every setting other than the
    /// version and the endpoint.
    pub open spec fn same_settings(&self, other: &Config) -> bool {
        &&& self.token@ == other.token@
        &&& opt_view(self.mode) == opt_view(other.mode)
        &&& self.interval_secs == other.interval_secs
        &&& self.buffer_max_size == other.buffer_max_size
        &&& self.telemetry_enabled == other.telemetry_enabled
        &&& self.api_url@ == other.api_url@
        &&& string_views(self.latency_targets@) == string_views(other.latency_targets@)
    }

    /// What `finish` gives for `self`: the error when no endpoint or token is
    /// set (local-agent mode always has one), else the configuration with its
    /// resolved endpoint and the running version.
    pub open spec fn spec_finished(&self, pkg_version: Seq<char>, r: Result<Config, ConfigError>) -> bool {
        match r {
            Ok(c) => {
                &&& self.spec_resolved_endpoint().len() > 0
                &&& self.token@.len() > 0
                &&& c.endpoint@ == self.spec_resolved_endpoint()
                &&& opt_view(c.version) == Some(pkg_version)
                &&& c.same_settings(self)
            },
            Err(ConfigError::MissingEndpoint) => self.spec_resolved_endpoint().len() == 0,
            Err(ConfigError::MissingToken) => {
                &&& self.spec_resolved_endpoint().len() > 0
                &&& self.token@.len() == 0
            },
            Err(ConfigError::ParseError(_)) => false,
        }
    }

    /// Points the endpoint at the local collector in local-agent mode,
    /// checks that an endpoint and a token are set, and records the running
    /// version.
    pub fn finish(self, pkg_version: &str) -> (r: Result<Config, ConfigError>)
        ensures
            self.spec_finished(pkg_version@, r),
    {
        let mut cfg = self;
        let endpoint = effective_endpoint(&cfg.mode, cfg.endpoint);
        cfg.endpoint = endpoint;
        if cfg.endpoint.as_str().is_empty() {
            return Err(ConfigError::MissingEndpoint);
        }
        if cfg.token.as_str().is_empty() {
            return Err(ConfigError::MissingToken);
        }
        cfg.version = Some(String::from_str(pkg_version));
        Ok(cfg)
    }

    /// Resolves the configuration read from the file against the
    /// environment overrides and checks it.
    pub fn from_sources(file: Config, env: &EnvOverrides, pkg_version: &str) -> (r: Result<
        Config,
        ConfigError,
    >)
        ensures
            exists|applied: Config|
                spec_env_applied(file, *env, applied) && applied.spec_finished(pkg_version@, r),
    {
        let mut cfg = file;
        cfg.apply_env(env);
        let ghost applied = cfg;
        let r = cfg.finish(pkg_version);
        assert(spec_env_applied(file, *env, applied) && applied.spec_finished(pkg_version@, r));
        r
    }
}

} // verus!
