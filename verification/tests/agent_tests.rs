use oxipulse::agent::Agent;
use oxipulse::connectivity::StatusChange;

fn tick(a: &mut Agent<u32>, reachable: bool, m: u32) -> (bool, Vec<u32>, StatusChange) {
    let probe = a.begin_tick();
    let result = if probe { Some(reachable) } else { None };
    let out = a.finish_tick(result, m);
    (probe, out.records, out.status)
}

#[test]
fn online_ticks_export_immediately() {
    let mut a = Agent::new(30, 10);
    assert_eq!(tick(&mut a, true, 1), (true, vec![1], StatusChange::Unchanged));
    assert_eq!(tick(&mut a, true, 2), (true, vec![2], StatusChange::Unchanged));
    assert!(!a.is_offline());
    assert_eq!(a.buffered_len(), 0);
}

#[test]
fn outage_is_buffered_and_flushed_in_order() {
    // interval 60 s: backoff ceiling of 5 ticks.
    let mut a = Agent::new(60, 100);
    let mut exported = Vec::new();
    let (p, out, st) = tick(&mut a, false, 1);
    assert!(p);
    assert!(out.is_empty());
    assert_eq!(st, StatusChange::WentOffline);
    // Wait 1: next tick does not probe.
    let (p, out, st) = tick(&mut a, true, 2);
    assert!(!p);
    assert!(out.is_empty());
    assert_eq!(st, StatusChange::Unchanged);
    assert!(a.is_offline());
    // Probe fails again, wait doubles to 2.
    let (p, _, _) = tick(&mut a, false, 3);
    assert!(p);
    let (p, _, _) = tick(&mut a, true, 4);
    assert!(!p);
    let (p, _, _) = tick(&mut a, true, 5);
    assert!(!p);
    assert_eq!(a.buffered_len(), 5);
    let (p, out, st) = tick(&mut a, true, 6);
    assert!(p);
    assert_eq!(st, StatusChange::Reconnected { flushing: 5 });
    exported.extend(out);
    assert_eq!(exported, vec![1, 2, 3, 4, 5, 6]);
    assert!(!a.is_offline());
    assert_eq!(a.buffered_len(), 0);
}

#[test]
fn long_outage_keeps_newest() {
    let mut a = Agent::new(300, 3);
    for m in 0..10 {
        let _ = tick(&mut a, false, m);
    }
    assert_eq!(a.buffered_len(), 3);
    // Ceiling of one tick: probes on every other tick.
    let mut out = Vec::new();
    for m in 10..12 {
        let (_, o, _) = tick(&mut a, true, m);
        out.extend(o);
    }
    assert_eq!(out, vec![7, 8, 9, 10, 11]);
}

#[test]
fn several_outages_lose_nothing() {
    // Buffer of 2: outages of at most 2 buffered ticks lose nothing.
    let mut a = Agent::new(300, 2);
    let reach = [true, false, false, true, false, true, true, false, false, true];
    let mut exported = Vec::new();
    for (i, r) in reach.iter().enumerate() {
        let probe = a.begin_tick();
        let out = a.finish_tick(if probe { Some(*r) } else { None }, i as u32);
        assert!(!out.buffer_was_full);
        exported.extend(out.records);
    }
    assert_eq!(exported, (0..10u32).collect::<Vec<_>>());
}

#[test]
fn full_buffer_is_reported() {
    let mut a = Agent::new(30, 1);
    let probe = a.begin_tick();
    let out = a.finish_tick(if probe { Some(false) } else { None }, 1u32);
    assert!(!out.buffer_was_full);
    let probe = a.begin_tick();
    let out = a.finish_tick(if probe { Some(false) } else { None }, 2u32);
    assert!(out.buffer_was_full);
    assert_eq!(a.buffered_len(), 1);
}
