use vstd::prelude::*;
use crate::backoff::{
    Backoff, BackoffView, lemma_operations_keep_wf, spec_backoff_new, spec_on_failure,
    spec_on_success, spec_should_check,
};
use crate::buffer::{
    OfflineBuffer, lemma_push_all_keeps_newest, spec_newest, spec_push_all, spec_push_bounded,
};
use crate::connectivity::{StatusChange, log_status_change, spec_status_change};

verus! {

/// Abstract state of the collection loop.
pub struct AgentView<T> {
    /// Whether the collector was unreachable at the last check.
    pub offline: bool,
    /// Snapshots waiting for the collector, oldest first.
    pub buffered: Seq<T>,
    /// Capacity of the offline buffer.
    pub max_size: nat,
    /// State of the reconnection backoff.
    pub backoff: BackoffView,
}

impl<T> AgentView<T> {
    /// The invariant of the loop: nothing waits in the buffer while online.
    pub open spec fn wf(self) -> bool {
        &&& self.backoff.wf()
        &&& !self.offline ==> self.buffered.len() == 0
    }
}

/// The start of a tick: whether to probe the collector. Online, every tick
/// probes; offline, the backoff decides.
pub open spec fn spec_begin_tick<T>(v: AgentView<T>) -> (AgentView<T>, bool) {
    if !v.offline {
        (v, true)
    } else {
        let (b, due) = spec_should_check(v.backoff);
        (AgentView { backoff: b, ..v }, due)
    }
}

/// The end of a tick with snapshot `m`, given the probe's result (`None`
/// when no probe was made): the new state, the snapshots to export in
/// order, and the status change to log.
pub open spec fn spec_finish_tick<T>(v: AgentView<T>, probe: Option<bool>, m: T) -> (
    AgentView<T>,
    Seq<T>,
    StatusChange,
) {
    if probe == Some(true) {
        (
            AgentView {
                offline: false,
                buffered: Seq::<T>::empty(),
                max_size: v.max_size,
                backoff: if v.offline {
                    spec_on_success(v.backoff)
                } else {
                    v.backoff
                },
            },
            v.buffered.push(m),
            spec_status_change(v.offline, false, v.buffered.len() as usize),
        )
    } else {
        (
            AgentView {
                offline: true,
                buffered: spec_push_bounded(v.buffered, v.max_size, m),
                max_size: v.max_size,
                backoff: if probe is Some {
                    spec_on_failure(v.backoff)
                } else {
                    v.backoff
                },
            },
            Seq::<T>::empty(),
            spec_status_change(v.offline, true, 0),
        )
    }
}

/// A whole tick: snapshot `m`, and `reachable` as the answer a probe would
/// get. Gives the new state and the snapshots exported.
pub open spec fn spec_tick<T>(v: AgentView<T>, reachable: bool, m: T) -> (AgentView<T>, Seq<T>) {
    let (v1, due) = spec_begin_tick(v);
    let probe = if due {
        Some(reachable)
    } else {
        None
    };
    let (v2, out, _) = spec_finish_tick(v1, probe, m);
    (v2, out)
}

/// A run of ticks: the final state and everything exported, in order.
pub open spec fn spec_run<T>(v: AgentView<T>, reachable: Seq<bool>, ms: Seq<T>) -> (
    AgentView<T>,
    Seq<T>,
)
    recommends
        reachable.len() == ms.len(),
    decreases ms.len(),
{
    if ms.len() == 0 || reachable.len() == 0 {
        (v, Seq::<T>::empty())
    } else {
        let (w, out) = spec_run(v, reachable.drop_last(), ms.drop_last());
        let (w2, out2) = spec_tick(w, reachable.last(), ms.last());
        (w2, out + out2)
    }
}

/// A tick keeps the loop invariant and the buffer capacity.
pub proof fn lemma_tick_keeps_wf<T>(v: AgentView<T>, reachable: bool, m: T)
    requires
        v.wf(),
    ensures
        spec_tick(v, reachable, m).0.wf(),
        spec_tick(v, reachable, m).0.max_size == v.max_size,
{
    lemma_operations_keep_wf(v.backoff);
    lemma_operations_keep_wf(spec_begin_tick(v).0.backoff);
}

/// No snapshot is lost while the backlog fits in the buffer: over any run of
/// ticks, what was exported followed by what is still buffered is exactly
/// what was buffered before followed by every snapshot of the run, in order.
pub proof fn lemma_no_loss_within_capacity<T>(v: AgentView<T>, reachable: Seq<bool>, ms: Seq<T>)
    requires
        v.wf(),
        reachable.len() == ms.len(),
        v.buffered.len() + ms.len() <= v.max_size,
    ensures
        spec_run(v, reachable, ms).1 + spec_run(v, reachable, ms).0.buffered == v.buffered + ms,
        spec_run(v, reachable, ms).0.wf(),
        spec_run(v, reachable, ms).0.max_size == v.max_size,
{
    lemma_capacity_drops_nothing(v, reachable, ms);
    lemma_no_loss(v, reachable, ms);
}

/// A tick that finds the collector reachable again after an outage resets
/// the backoff: the next wait is one tick, nothing is left to count down,
/// and the ceiling is unchanged.
pub proof fn lemma_reconnect_resets_backoff<T>(v: AgentView<T>, m: T)
    requires
        v.wf(),
        v.offline,
    ensures
        !spec_finish_tick(v, Some(true), m).0.offline,
        spec_finish_tick(v, Some(true), m).0.backoff.current_ticks == 1,
        spec_finish_tick(v, Some(true), m).0.backoff.countdown == 0,
        spec_finish_tick(v, Some(true), m).0.backoff.max_ticks == v.backoff.max_ticks,
{
}

/// After a reconnection, the first failed probe makes only the next tick
/// skip the probe; the tick after that probes again, whatever happened in
/// the outage before.
pub proof fn lemma_failure_after_reconnect_waits_one_tick<T>(
    v: AgentView<T>,
    m0: T,
    m1: T,
    m2: T,
    r2: bool,
)
    requires
        v.wf(),
        v.offline,
    ensures
        ({
            let w1 = spec_finish_tick(v, Some(true), m0).0;
            let w2 = spec_tick(w1, false, m1).0;
            let w3 = spec_tick(w2, r2, m2).0;
            &&& spec_begin_tick(w1).1
            &&& w2.offline
            &&& !spec_begin_tick(w2).1
            &&& w3.offline
            &&& spec_begin_tick(w3).1
        }),
{
    lemma_reconnect_resets_backoff(v, m0);
}

/// A run whose snapshots fit in the buffer next to the backlog never pushes
/// into a full buffer.
proof fn lemma_capacity_drops_nothing<T>(v: AgentView<T>, reachable: Seq<bool>, ms: Seq<T>)
    requires
        v.wf(),
        reachable.len() == ms.len(),
        v.buffered.len() + ms.len() <= v.max_size,
    ensures
        spec_run_drops_nothing(v, reachable, ms),
    decreases ms.len(),
{
    if ms.len() > 0 {
        let rp = reachable.drop_last();
        let mp = ms.drop_last();
        lemma_capacity_drops_nothing(v, rp, mp);
        lemma_no_loss(v, rp, mp);
        let (w, out) = spec_run(v, rp, mp);
        assert((out + w.buffered).len() == v.buffered.len() + mp.len());
        assert(w.buffered.len() < w.max_size);
    }
}

/// Whether a tick puts its snapshot into a full buffer, so that the oldest
/// buffered snapshot is dropped.
pub open spec fn spec_tick_drops<T>(v: AgentView<T>, reachable: bool) -> bool {
    &&& !(spec_begin_tick(v).1 && reachable)
    &&& v.buffered.len() >= v.max_size
    &&& v.buffered.len() > 0
}

/// Whether no tick of a run drops a buffered snapshot.
pub open spec fn spec_run_drops_nothing<T>(v: AgentView<T>, reachable: Seq<bool>, ms: Seq<T>) -> bool
    decreases ms.len(),
{
    if ms.len() == 0 || reachable.len() == 0 {
        true
    } else {
        &&& spec_run_drops_nothing(v, reachable.drop_last(), ms.drop_last())
        &&& !spec_tick_drops(spec_run(v, reachable.drop_last(), ms.drop_last()).0, reachable.last())
    }
}

/// No snapshot is lost by a run in which no tick pushes into a full buffer,
/// however many outages it holds and however long: what was exported
/// followed by what is still buffered is exactly what was buffered before
/// followed by every snapshot of the run, in order, each once.
pub proof fn lemma_no_loss<T>(v: AgentView<T>, reachable: Seq<bool>, ms: Seq<T>)
    requires
        v.wf(),
        reachable.len() == ms.len(),
        spec_run_drops_nothing(v, reachable, ms),
    ensures
        spec_run(v, reachable, ms).1 + spec_run(v, reachable, ms).0.buffered == v.buffered + ms,
        spec_run(v, reachable, ms).0.wf(),
        spec_run(v, reachable, ms).0.max_size == v.max_size,
    decreases ms.len(),
{
    if ms.len() == 0 {
        assert(v.buffered + ms =~= v.buffered);
        assert(Seq::<T>::empty() + v.buffered =~= v.buffered);
    } else {
        let rp = reachable.drop_last();
        let mp = ms.drop_last();
        lemma_no_loss(v, rp, mp);
        let (w, out) = spec_run(v, rp, mp);
        lemma_tick_keeps_wf(w, reachable.last(), ms.last());
        let (w2, out2) = spec_tick(w, reachable.last(), ms.last());
        assert(spec_begin_tick(w).0.buffered == w.buffered);
        assert(v.buffered + ms =~= (v.buffered + mp).push(ms.last()));
        assert(out + out2 + w2.buffered =~= (out + w.buffered).push(ms.last()));
    }
}

/// While the collector stays unreachable, nothing is exported and the
/// buffer holds the newest `max_size` snapshots, oldest first: when full,
/// the oldest entry is dropped to make room for the newest.
pub proof fn lemma_offline_run_keeps_newest<T>(v: AgentView<T>, reachable: Seq<bool>, ms: Seq<T>)
    requires
        v.wf(),
        v.max_size >= 1,
        v.buffered.len() <= v.max_size,
        reachable.len() == ms.len(),
        forall|i: int| 0 <= i < reachable.len() ==> !reachable[i],
    ensures
        spec_run(v, reachable, ms).1 == Seq::<T>::empty(),
        spec_run(v, reachable, ms).0.buffered == spec_newest(v.buffered + ms, v.max_size),
        ms.len() > 0 ==> spec_run(v, reachable, ms).0.offline,
{
    lemma_offline_run_is_push_all(v, reachable, ms);
    lemma_push_all_keeps_newest(v.buffered, v.max_size, ms);
}

proof fn lemma_offline_run_is_push_all<T>(v: AgentView<T>, reachable: Seq<bool>, ms: Seq<T>)
    requires
        v.wf(),
        reachable.len() == ms.len(),
        forall|i: int| 0 <= i < reachable.len() ==> !reachable[i],
    ensures
        spec_run(v, reachable, ms).1 == Seq::<T>::empty(),
        spec_run(v, reachable, ms).0.buffered == spec_push_all(v.buffered, v.max_size, ms),
        spec_run(v, reachable, ms).0.max_size == v.max_size,
        spec_run(v, reachable, ms).0.wf(),
        ms.len() > 0 ==> spec_run(v, reachable, ms).0.offline,
    decreases ms.len(),
{
    if ms.len() > 0 {
        let rp = reachable.drop_last();
        let mp = ms.drop_last();
        assert forall|i: int| 0 <= i < rp.len() implies !rp[i] by {
            assert(rp[i] == reachable[i]);
        }
        lemma_offline_run_is_push_all(v, rp, mp);
        let (w, out) = spec_run(v, rp, mp);
        assert(!reachable.last()) by {
            assert(reachable.last() == reachable[reachable.len() - 1]);
        }
        lemma_tick_keeps_wf(w, reachable.last(), ms.last());
        let (w2, out2) = spec_tick(w, reachable.last(), ms.last());
        assert(out + out2 =~= Seq::<T>::empty());
    }
}

/// What one tick hands back to the loop.
pub struct TickOutcome<T> {
    /// The status change to log.
    pub status: StatusChange,
    /// Snapshots to export now, oldest first: the backlog, then this tick's.
    pub records: Vec<T>,
    /// Whether this tick's snapshot went into a full buffer, so that the
    /// oldest one was dropped to make room (worth a warning).
    pub buffer_was_full: bool,
}

/// The decisions of the collection loop: when to probe the collector,
/// what to export, and what to keep in the offline buffer.
pub struct Agent<T> {
    buffer: OfflineBuffer<T>,
    backoff: Backoff,
    offline: bool,
}

impl<T> View for Agent<T> {
    type V = AgentView<T>;

    closed spec fn view(&self) -> AgentView<T> {
        AgentView {
            offline: self.offline,
            buffered: self.buffer@,
            max_size: self.buffer.max_size(),
            backoff: self.backoff@,
        }
    }
}

impl<T> Agent<T> {
    /// Nothing waits in the buffer while online, and the backoff is sound.
    #[verifier::type_invariant]
    spec fn inv(self) -> bool {
        self@.wf()
    }

    /// An online agent with an empty buffer of `buffer_max_size` entries and
    /// a fresh backoff for `interval_secs`.
    pub fn new(interval_secs: u64, buffer_max_size: usize) -> (a: Self)
        requires
            interval_secs > 0,
        ensures
            a@ == (AgentView::<T> {
                offline: false,
                buffered: Seq::empty(),
                max_size: buffer_max_size as nat,
                backoff: spec_backoff_new(interval_secs as nat),
            }),
            a@.wf(),
    {
        Agent {
            buffer: OfflineBuffer::new(buffer_max_size),
            backoff: Backoff::new(interval_secs),
            offline: false,
        }
    }

    /// Whether the collector was unreachable at the last check.
    pub fn is_offline(&self) -> (b: bool)
        ensures
            b == self@.offline,
    {
        self.offline
    }

    /// The number of buffered snapshots.
    pub fn buffered_len(&self) -> (n: usize)
        ensures
            n == self@.buffered.len(),
    {
        self.buffer.len()
    }

    /// Starts a tick: whether to probe the collector now.
    pub fn begin_tick(&mut self) -> (probe: bool)
        ensures
            (final(self)@, probe) == spec_begin_tick(old(self)@),
            final(self)@.wf(),
            !old(self)@.offline ==> probe && final(self)@ == old(self)@,
            old(self)@.offline ==> probe == (old(self)@.backoff.countdown == 0),
            final(self)@.buffered == old(self)@.buffered,
            final(self)@.offline == old(self)@.offline,
    {
        proof {
            use_type_invariant(&*self);
        }
        if !self.offline {
            true
        } else {
            let mut backoff = Backoff::new(1);
            std::mem::swap(&mut backoff, &mut self.backoff);
            let due = backoff.should_check();
            self.backoff = backoff;
            due
        }
    }

    /// Ends a tick with snapshot `m`, given the probe's result, or `None`
    /// when `begin_tick` said not to probe.
    pub fn finish_tick(&mut self, probe: Option<bool>, m: T) -> (out: TickOutcome<T>)
        ensures
            (final(self)@, out.records@, out.status) == spec_finish_tick(old(self)@, probe, m),
            out.buffer_was_full == (probe != Some(true) && old(self)@.buffered.len()
                >= old(self)@.max_size),
            final(self)@.wf(),
            final(self)@.backoff.max_ticks == old(self)@.backoff.max_ticks,
            probe == Some(true) && old(self)@.offline ==> final(self)@.backoff.current_ticks == 1
                && final(self)@.backoff.countdown == 0,
            probe == Some(true) && !old(self)@.offline ==> final(self)@.backoff == old(
                self,
            )@.backoff,
            probe == Some(true) ==> !final(self)@.offline && final(self)@.buffered.len() == 0,
            probe == Some(true) ==> out.records@ == old(self)@.buffered.push(m),
            probe != Some(true) ==> out.records@.len() == 0 && final(self)@.offline
                && final(self)@.buffered.last() == m,
            probe != Some(true) && old(self)@.buffered.len() < old(self)@.max_size
                ==> final(self)@.buffered == old(self)@.buffered.push(m),
            probe == Some(false) ==> final(self)@.backoff.countdown == old(
                self,
            )@.backoff.current_ticks,
            probe is None ==> final(self)@.backoff == old(self)@.backoff,
    {
        proof {
            use_type_invariant(&*self);
        }
        let ghost v = self@;
        let reachable = match probe {
            Some(r) => r,
            None => false,
        };
        let mut backoff = Backoff::new(1);
        std::mem::swap(&mut backoff, &mut self.backoff);
        let mut buffer: OfflineBuffer<T> = OfflineBuffer::new(0);
        std::mem::swap(&mut buffer, &mut self.buffer);
        if reachable {
            let status = log_status_change(self.offline, false, buffer.len());
            let mut records = if self.offline {
                let drained = buffer.drain_all();
                backoff.on_success();
                drained
            } else {
                Vec::new()
            };
            records.push(m);
            self.backoff = backoff;
            self.buffer = buffer;
            self.offline = false;
            assert(records@ =~= v.buffered.push(m));
            assert(self@.buffered =~= Seq::<T>::empty());
            TickOutcome { status, records, buffer_was_full: false }
        } else {
            let status = log_status_change(self.offline, true, 0);
            if probe.is_some() {
                backoff.on_failure();
            }
            let buffer_was_full = buffer.push(m);
            self.offline = true;
            self.backoff = backoff;
            self.buffer = buffer;
            let records: Vec<T> = Vec::new();
            assert(records@ =~= Seq::<T>::empty());
            TickOutcome { status, records, buffer_was_full }
        }
    }
}

} // verus!
