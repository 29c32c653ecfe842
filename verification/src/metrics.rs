use vstd::prelude::*;
use vstd::string::StringExecFns;
use crate::text::{chars_of, string_views};

verus! {

/// Space on one disk.
#[derive(Debug)]
pub struct DiskInfo {
    pub name: String,
    pub total_bytes: u64,
    pub used_bytes: u64,
}

impl DiskInfo {
    /// A disk of `total_bytes` with `available_bytes` free; the space in use
    /// is the difference, or zero when more is reported free than in total.
    pub fn from_space(name: String, total_bytes: u64, available_bytes: u64) -> (d: DiskInfo)
        ensures
            d.name@ == name@,
            d.total_bytes == total_bytes,
            d.used_bytes == if total_bytes >= available_bytes {
                (total_bytes - available_bytes) as u64
            } else {
                0u64
            },
    {
        let used_bytes = if total_bytes >= available_bytes {
            total_bytes - available_bytes
        } else {
            0
        };
        DiskInfo { name, total_bytes, used_bytes }
    }
}

/// Whether `c` is a path separator on Windows.
pub open spec fn is_path_separator(c: char) -> bool {
    c == '\\' || c == '/'
}

/// `s` with every trailing `\` and `/` removed.
pub open spec fn spec_trim_separators(s: Seq<char>) -> Seq<char>
    decreases s.len(),
{
    if s.len() > 0 && is_path_separator(s.last()) {
        spec_trim_separators(s.drop_last())
    } else {
        s
    }
}

/// The label of a disk: on Windows its mount point without trailing
/// separators (the device name when that leaves nothing), elsewhere its
/// device name (the mount point when the name is empty).
pub open spec fn spec_disk_label(name: Seq<char>, mount_point: Seq<char>, windows: bool) -> Seq<
    char,
> {
    if windows {
        let m = spec_trim_separators(mount_point);
        if m.len() == 0 {
            name
        } else {
            m
        }
    } else if name.len() == 0 {
        mount_point
    } else {
        name
    }
}

/// The label under which a disk's metrics are reported.
pub fn disk_label(name: &str, mount_point: &str, windows: bool) -> (label: String)
    ensures
        label@ == spec_disk_label(name@, mount_point@, windows),
{
    if windows {
        let v = chars_of(mount_point);
        let mut b = v.len();
        assert(v@.subrange(0, b as int) =~= mount_point@);
        while b > 0 && (v[b - 1] == '\\' || v[b - 1] == '/')
            invariant
                b <= v@.len(),
                v@ == mount_point@,
                spec_trim_separators(mount_point@) == spec_trim_separators(
                    v@.subrange(0, b as int),
                ),
            decreases b,
        {
            assert(v@.subrange(0, b as int).drop_last() =~= v@.subrange(0, b - 1));
            b = b - 1;
        }
        if b == 0 {
            String::from_str(name)
        } else {
            String::from_str(mount_point.substring_char(0, b))
        }
    } else if name.is_empty() {
        String::from_str(mount_point)
    } else {
        String::from_str(name)
    }
}

/// Byte counters of the previous collection, used to turn the cumulative
/// interface counters into per-interval deltas.
pub struct NetCounters {
    /// Bytes received up to the previous collection.
    pub last_in: u64,
    /// Bytes transmitted up to the previous collection.
    pub last_out: u64,
    /// Whether a previous collection exists.
    pub primed: bool,
}

impl NetCounters {
    /// Counters before the first collection.
    pub fn new() -> (c: NetCounters)
        ensures
            c.last_in == 0,
            c.last_out == 0,
            !c.primed,
    {
        NetCounters { last_in: 0, last_out: 0, primed: false }
    }

    /// Records the cumulative counters of this collection and returns the
    /// bytes received and transmitted since the previous one (saturating at
    /// zero when a counter went backwards), or nothing on the first
    /// collection.
    pub fn advance(&mut self, raw_in: u64, raw_out: u64) -> (delta: Option<(u64, u64)>)
        ensures
            final(self).last_in == raw_in,
            final(self).last_out == raw_out,
            final(self).primed,
            delta == if old(self).primed {
                Some(
                    (
                        if raw_in >= old(self).last_in {
                            (raw_in - old(self).last_in) as u64
                        } else {
                            0u64
                        },
                        if raw_out >= old(self).last_out {
                            (raw_out - old(self).last_out) as u64
                        } else {
                            0u64
                        },
                    ),
                )
            } else {
                None::<(u64, u64)>
            },
    {
        let delta = if self.primed {
            let din = if raw_in >= self.last_in {
                raw_in - self.last_in
            } else {
                0
            };
            let dout = if raw_out >= self.last_out {
                raw_out - self.last_out
            } else {
                0
            };
            Some((din, dout))
        } else {
            None
        };
        self.last_in = raw_in;
        self.last_out = raw_out;
        self.primed = true;
        delta
    }
}

/// The target measured when none is configured besides the endpoint:
/// Cloudflare's DNS resolver.
pub open spec fn spec_fallback_target() -> Seq<char> {
    "1.1.1.1:53"@
}

/// The targets to measure latency to: the configured ones, or, when none
/// are configured, the endpoint and the fallback target `1.1.1.1:53`.
pub fn ping_targets(latency_targets: &Vec<String>, default_endpoint: &str) -> (targets: Vec<
    String,
>)
    ensures
        string_views(targets@) == if latency_targets@.len() == 0 {
            seq![default_endpoint@, spec_fallback_target()]
        } else {
            string_views(latency_targets@)
        },
{
    let mut targets: Vec<String> = Vec::new();
    if latency_targets.len() == 0 {
        targets.push(String::from_str(default_endpoint));
        targets.push(String::from_str("1.1.1.1:53"));
        assert(string_views(targets@) =~= seq![default_endpoint@, spec_fallback_target()]);
        return targets;
    }
    let n = latency_targets.len();
    let mut i: usize = 0;
    while i < n
        invariant
            n == latency_targets@.len(),
            i <= n,
            string_views(targets@) == string_views(latency_targets@).take(i as int),
        decreases n - i,
    {
        let t = latency_targets[i].clone();
        assert(t@ == latency_targets@[i as int]@);
        let ghost before = targets@;
        targets.push(t);
        assert(string_views(targets@) =~= string_views(before).push(t@));
        assert(string_views(targets@) =~= string_views(latency_targets@).take(i + 1));
        i = i + 1;
    }
    assert(string_views(latency_targets@).take(n as int) =~= string_views(latency_targets@));
    targets
}

/// The positions of `flags` that hold `want`, in order.
pub open spec fn spec_positions(flags: Seq<bool>, want: bool) -> Seq<usize>
    decreases flags.len(),
{
    if flags.len() == 0 {
        Seq::<usize>::empty()
    } else {
        let r = spec_positions(flags.drop_last(), want);
        if flags.last() == want {
            r.push((flags.len() - 1) as usize)
        } else {
            r
        }
    }
}

/// The order in which to try resolved addresses: the IPv4 ones first, then
/// the others, each group in resolution order.
pub fn ipv4_first_order(is_ipv4: &Vec<bool>) -> (order: Vec<usize>)
    ensures
        order@ == spec_positions(is_ipv4@, true) + spec_positions(is_ipv4@, false),
{
    let mut order: Vec<usize> = Vec::new();
    let n = is_ipv4.len();
    let mut pass: usize = 0;
    while pass < 2
        invariant
            n == is_ipv4@.len(),
            pass <= 2,
            pass == 0 ==> order@ == Seq::<usize>::empty(),
            pass == 1 ==> order@ == spec_positions(is_ipv4@, true),
            pass == 2 ==> order@ == spec_positions(is_ipv4@, true) + spec_positions(
                is_ipv4@,
                false,
            ),
        decreases 2 - pass,
    {
        let want = pass == 0;
        let ghost base = order@;
        let mut i: usize = 0;
        assert(is_ipv4@.take(0) =~= Seq::<bool>::empty());
        assert(base + spec_positions(is_ipv4@.take(0), want) =~= base);
        while i < n
            invariant
                n == is_ipv4@.len(),
                i <= n,
                order@ == base + spec_positions(is_ipv4@.take(i as int), want),
            decreases n - i,
        {
            assert(is_ipv4@.take(i + 1).drop_last() =~= is_ipv4@.take(i as int));
            if is_ipv4[i] == want {
                order.push(i);
            }
            assert(order@ =~= base + spec_positions(is_ipv4@.take(i + 1), want));
            i = i + 1;
        }
        assert(is_ipv4@.take(n as int) =~= is_ipv4@);
        pass = pass + 1;
    }
    order
}

} // verus!
