use vstd::prelude::*;
use vstd::string::StrSliceExecFns;
use vstd::string::StringExecFns;
use crate::text::{chars_of, lemma_before_char_at, spec_before_char};

verus! {

/// `s` with every leading repetition of the non-empty pattern `p` removed.
pub open spec fn spec_trim_start_matches(s: Seq<char>, p: Seq<char>) -> Seq<char>
    decreases s.len(),
{
    if p.len() > 0 && p.len() <= s.len() && s.take(p.len() as int) == p {
        spec_trim_start_matches(s.skip(p.len() as int), p)
    } else {
        s
    }
}

/// The authority of an endpoint URL: once `https://` and `http://` prefixes
/// are removed, the text before the first `/` (any path is dropped).
pub open spec fn spec_authority(endpoint: Seq<char>) -> Seq<char> {
    spec_before_char(
        spec_trim_start_matches(spec_trim_start_matches(endpoint, "https://"@), "http://"@),
        '/',
    )
}

/// `host:port` for an endpoint URL: its authority, with the default gRPC
/// port `4317` added when it names no port.
pub open spec fn spec_host_port(endpoint: Seq<char>) -> Seq<char> {
    let w = spec_authority(endpoint);
    if w.contains(':') {
        w
    } else {
        w + ":4317"@
    }
}

/// The address always names a port: the one in the URL, or the default.
pub proof fn lemma_host_port_has_port(endpoint: Seq<char>)
    ensures
        spec_host_port(endpoint).contains(':'),
        spec_authority(endpoint).contains(':') ==> spec_host_port(endpoint) == spec_authority(endpoint),
        !spec_authority(endpoint).contains(':') ==> spec_host_port(endpoint) == spec_authority(
            endpoint,
        ) + ":4317"@,
{
    let w = spec_authority(endpoint);
    if !w.contains(':') {
        reveal_strlit(":4317");
        let r = w + ":4317"@;
        assert(r[w.len() as int] == ':');
    }
}

/// The address never carries a path: it holds no `/`.
pub proof fn lemma_host_port_has_no_path(endpoint: Seq<char>)
    ensures
        !spec_host_port(endpoint).contains('/'),
{
    let t = spec_trim_start_matches(spec_trim_start_matches(endpoint, "https://"@), "http://"@);
    crate::text::lemma_before_char_props(t, '/');
    let w = spec_authority(endpoint);
    reveal_strlit(":4317");
    if !w.contains(':') {
        let r = w + ":4317"@;
        assert forall|i: int| 0 <= i < r.len() implies r[i] != '/' by {
            if i < w.len() {
                assert(w[i] == t[i]);
            }
        }
    } else {
        assert forall|i: int| 0 <= i < w.len() implies w[i] != '/' by {
            assert(w[i] == t[i]);
        }
    }
}

/// Whether `v[lo..]` starts with `p`.
pub fn starts_with_at(v: &Vec<char>, lo: usize, hi: usize, p: &Vec<char>) -> (b: bool)
    requires
        lo <= hi <= v@.len(),
    ensures
        b == (p@.len() <= hi - lo && v@.subrange(lo as int, lo + p@.len()) == p@),
{
    if p.len() > hi - lo {
        return false;
    }
    let mut k: usize = 0;
    while k < p.len()
        invariant
            lo <= hi <= v@.len(),
            p@.len() <= hi - lo,
            k <= p@.len(),
            forall|j: int| 0 <= j < k ==> v@[lo + j] == p@[j],
        decreases p@.len() - k,
    {
        if v[lo + k] != p[k] {
            assert(v@.subrange(lo as int, lo + p@.len())[k as int] != p@[k as int]);
            return false;
        }
        k = k + 1;
    }
    assert(v@.subrange(lo as int, lo + p@.len()) =~= p@);
    true
}

/// Moves `lo` past every repetition of `p` at the start of `v[lo..hi]`.
fn skip_prefixes(v: &Vec<char>, lo: usize, hi: usize, p: &Vec<char>) -> (r: usize)
    requires
        lo <= hi <= v@.len(),
        p@.len() > 0,
    ensures
        lo <= r <= hi,
        v@.subrange(r as int, hi as int) == spec_trim_start_matches(
            v@.subrange(lo as int, hi as int),
            p@,
        ),
{
    let mut a = lo;
    while starts_with_at(v, a, hi, p)
        invariant
            lo <= a <= hi <= v@.len(),
            p@.len() > 0,
            spec_trim_start_matches(v@.subrange(lo as int, hi as int), p@)
                == spec_trim_start_matches(v@.subrange(a as int, hi as int), p@),
        decreases hi - a,
    {
        let ghost cur = v@.subrange(a as int, hi as int);
        assert(cur.take(p@.len() as int) =~= v@.subrange(a as int, a + p@.len()));
        assert(cur.skip(p@.len() as int) =~= v@.subrange(a + p@.len(), hi as int));
        a = a + p.len();
    }
    proof {
        let cur = v@.subrange(a as int, hi as int);
        if p@.len() <= cur.len() {
            assert(cur.take(p@.len() as int) =~= v@.subrange(a as int, a + p@.len()));
        }
    }
    a
}

/// Extracts `host:port` from URLs like `http://host:4317` or
/// `https://host:4317/v1/metrics`, dropping any path; without a port, the
/// default gRPC port 4317 is added.
pub fn parse_host_port(endpoint: &str) -> (r: Option<String>)
    ensures
        r is Some,
        r.unwrap()@ == spec_host_port(endpoint@),
{
    let v = chars_of(endpoint);
    let https = chars_of("https://");
    let http = chars_of("http://");
    proof {
        reveal_strlit("https://");
        reveal_strlit("http://");
    }
    let n = v.len();
    let a = skip_prefixes(&v, 0, n, &https);
    let a = skip_prefixes(&v, a, n, &http);
    let mut b = a;
    assert(v@.subrange(0, n as int) =~= endpoint@);
    while b < n && v[b] != '/'
        invariant
            a <= b <= n == v@.len(),
            forall|i: int| a <= i < b ==> v@[i] != '/',
        decreases n - b,
    {
        b = b + 1;
    }
    proof {
        let rest = v@.subrange(a as int, n as int);
        assert forall|i: int| 0 <= i < b - a implies rest[i] != '/' by {
            assert(rest[i] == v@[a + i]);
        }
        lemma_before_char_at(rest, '/', b - a);
        assert(rest.take(b - a) =~= v@.subrange(a as int, b as int));
    }
    let mut has_colon = false;
    let mut k = a;
    while k < b
        invariant
            a <= k <= b <= n == v@.len(),
            has_colon == exists|j: int| a <= j < k && v@[j] == ':',
        decreases b - k,
    {
        if v[k] == ':' {
            has_colon = true;
        }
        k = k + 1;
    }
    let ghost w = v@.subrange(a as int, b as int);
    assert(w == spec_authority(endpoint@));
    if has_colon {
        proof {
            let j = choose|j: int| a <= j < b && v@[j] == ':';
            assert(w[j - a] == ':');
        }
    } else {
        assert forall|j: int| 0 <= j < w.len() implies w[j] != ':' by {
            assert(w[j] == v@[a + j]);
        }
    }
    let mut addr = String::from_str(endpoint.substring_char(a, b));
    if !has_colon {
        addr.append(":4317");
    }
    Some(addr)
}


/// A change of connectivity worth a log line.
#[derive(Debug, Clone, Copy, PartialEq, Eq, Structural)]
pub enum StatusChange {
    /// The collector became unreachable: the agent switches to offline mode.
    WentOffline,
    /// The collector is reachable again; `flushing` snapshots wait in the buffer.
    Reconnected { flushing: usize },
    /// Nothing changed.
    Unchanged,
}

/// The status change from `was_offline` to `now_offline` with `buffered`
/// snapshots waiting.
pub open spec fn spec_status_change(was_offline: bool, now_offline: bool, buffered: usize) -> StatusChange {
    if !was_offline && now_offline {
        StatusChange::WentOffline
    } else if was_offline && !now_offline {
        StatusChange::Reconnected { flushing: buffered }
    } else {
        StatusChange::Unchanged
    }
}

/// Decides which status change to log when the agent goes from
/// `was_offline` to `now_offline` with `buffered` snapshots waiting.
pub fn log_status_change(was_offline: bool, now_offline: bool, buffered: usize) -> (c:
    StatusChange)
    ensures
        c == spec_status_change(was_offline, now_offline, buffered),
{
    if !was_offline && now_offline {
        StatusChange::WentOffline
    } else if was_offline && !now_offline {
        StatusChange::Reconnected { flushing: buffered }
    } else {
        StatusChange::Unchanged
    }
}

} // verus!
