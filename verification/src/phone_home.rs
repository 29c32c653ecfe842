use vstd::prelude::*;
use vstd::string::StringExecFns;

verus! {

/// Server-side settings for this agent.
#[derive(Debug, Clone, Copy, PartialEq, Eq, Structural)]
pub struct RemoteConfig {
    pub telemetry_enabled: bool,
}

/// Whether the server-side settings must be fetched to decide on telemetry:
/// only when the local configuration leaves it open.
pub fn needs_remote_config(local: Option<bool>) -> (needed: bool)
    ensures
        needed == (local is None),
{
    local.is_none()
}

/// Whether usage telemetry is on: an explicit local choice wins; otherwise
/// the server-side setting decides, and without one telemetry stays off.
pub fn resolve_telemetry(local: Option<bool>, remote: Option<RemoteConfig>) -> (on: bool)
    ensures
        on == match local {
            Some(v) => v,
            None => match remote {
                Some(rc) => rc.telemetry_enabled,
                None => false,
            },
        },
{
    match local {
        Some(v) => v,
        None => match remote {
            Some(rc) => rc.telemetry_enabled,
            None => false,
        },
    }
}

/// The URL of this agent's server-side settings.
pub fn remote_config_url(api_url: &str) -> (url: String)
    ensures
        url@ == api_url@ + "/agents/me/config"@,
{
    let mut url = String::from_str(api_url);
    url.append("/agents/me/config");
    url
}

/// The URL that usage pings are posted to.
pub fn telemetry_url(api_url: &str) -> (url: String)
    ensures
        url@ == api_url@ + "/agents/me/telemetry"@,
{
    let mut url = String::from_str(api_url);
    url.append("/agents/me/telemetry");
    url
}

/// The kind of the last error reported in a usage ping.
pub fn last_error_kind(offline: bool) -> (kind: &'static str)
    ensures
        kind@ == if offline {
            "connectivity"@
        } else {
            "none"@
        },
{
    if offline {
        "connectivity"
    } else {
        "none"
    }
}

/// The `authorization` header value that carries `token`.
pub fn bearer_auth_value(token: &str) -> (value: String)
    ensures
        value@ == "Bearer "@ + token@,
{
    let mut value = String::from_str("Bearer ");
    value.append(token);
    value
}


/// Whether every character of `s` may stand in a gRPC metadata (HTTP header)
/// value: a tab, or a character other than DEL whose code is at least 32.
/// Non-ASCII characters qualify, since all their UTF-8 bytes are 128 or more.
pub open spec fn spec_header_value_valid(s: Seq<char>) -> bool {
    forall|i: int|
        0 <= i < s.len() ==> (#[trigger] s[i] == '\t' || (32 <= (s[i] as u32) && (s[i] as u32)
            != 127))
}

/// Whether the `authorization` value for `token` is a valid metadata value,
/// so that the exporter can be built with it.
pub fn auth_header_valid(token: &str) -> (ok: bool)
    ensures
        ok == spec_header_value_valid("Bearer "@ + token@),
{
    let v = crate::text::chars_of(token);
    let n = v.len();
    let mut i: usize = 0;
    while i < n
        invariant
            n == v@.len(),
            v@ == token@,
            i <= n,
            spec_header_value_valid(v@.take(i as int)),
        decreases n - i,
    {
        let c = v[i];
        let u = c as u32;
        if !(c == '\t' || (32 <= u && u != 127)) {
            proof {
                reveal_strlit("Bearer ");
                let full = "Bearer "@ + token@;
                assert(full[7 + i] == c);
            }
            return false;
        }
        proof {
            let t = v@.take(i + 1);
            assert forall|j: int| 0 <= j < t.len() implies (#[trigger] t[j] == '\t' || (32 <= (
            t[j] as u32) && (t[j] as u32) != 127)) by {
                if j < i {
                    assert(t[j] == v@.take(i as int)[j]);
                }
            }
        }
        i = i + 1;
    }
    proof {
        reveal_strlit("Bearer ");
        assert(v@.take(n as int) =~= token@);
        let full = "Bearer "@ + token@;
        assert forall|j: int| 0 <= j < full.len() implies (#[trigger] full[j] == '\t' || (32 <= (
        full[j] as u32) && (full[j] as u32) != 127)) by {
            if j >= 7 {
                assert(full[j] == token@[j - 7]);
                assert(token@[j - 7] == v@.take(n as int)[j - 7]);
            }
        }
    }
    true
}

} // verus!
