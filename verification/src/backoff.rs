use vstd::prelude::*;
use vstd::arithmetic::power2::pow2;

verus! {

/// Longest wait, in seconds, that the backoff ever asks for between checks.
pub const MAX_WAIT_SECS: u64 = 300;

/// Abstract state of a [`Backoff`], counted in collection ticks.
pub struct BackoffView {
    /// Ticks to wait after the next failure.
    pub current_ticks: nat,
    /// Ceiling for `current_ticks`.
    pub max_ticks: nat,
    /// Ticks still to skip before the next check.
    pub countdown: nat,
}

impl BackoffView {
    /// The invariant that every backoff keeps.
    pub open spec fn wf(self) -> bool {
        &&& 1 <= self.current_ticks <= self.max_ticks
        &&& self.max_ticks <= MAX_WAIT_SECS
        &&& self.countdown <= self.max_ticks
    }
}

/// Ceiling, in ticks, for a collection interval of `interval_secs` seconds.
pub open spec fn spec_max_ticks(interval_secs: nat) -> nat {
    let q = MAX_WAIT_SECS as nat / interval_secs;
    if q >= 1 { q } else { 1 }
}

/// A fresh backoff for the given interval.
pub open spec fn spec_backoff_new(interval_secs: nat) -> BackoffView {
    BackoffView { current_ticks: 1, max_ticks: spec_max_ticks(interval_secs), countdown: 0 }
}

/// One call of `should_check`: the new state and the answer.
pub open spec fn spec_should_check(v: BackoffView) -> (BackoffView, bool) {
    if v.countdown == 0 {
        (v, true)
    } else {
        (BackoffView { countdown: (v.countdown - 1) as nat, ..v }, false)
    }
}

/// One call of `on_failure`.
pub open spec fn spec_on_failure(v: BackoffView) -> BackoffView {
    let doubled = 2 * v.current_ticks;
    BackoffView {
        current_ticks: if doubled <= v.max_ticks { doubled } else { v.max_ticks },
        max_ticks: v.max_ticks,
        countdown: v.current_ticks,
    }
}

/// One call of `on_success`.
pub open spec fn spec_on_success(v: BackoffView) -> BackoffView {
    BackoffView { current_ticks: 1, max_ticks: v.max_ticks, countdown: 0 }
}


/// The state after `k` consecutive failed checks.
pub open spec fn spec_after_failures(v: BackoffView, k: nat) -> BackoffView
    decreases k,
{
    if k == 0 {
        v
    } else {
        spec_on_failure(spec_after_failures(v, (k - 1) as nat))
    }
}

/// The state after `n` calls of `should_check`.
pub open spec fn spec_after_checks(v: BackoffView, n: nat) -> BackoffView
    decreases n,
{
    if n == 0 {
        v
    } else {
        spec_should_check(spec_after_checks(v, (n - 1) as nat)).0
    }
}

/// Every operation keeps the backoff invariant.
pub proof fn lemma_operations_keep_wf(v: BackoffView)
    requires
        v.wf(),
    ensures
        spec_should_check(v).0.wf(),
        spec_on_failure(v).wf(),
        spec_on_success(v).wf(),
{
}

/// A fresh backoff satisfies the invariant, and its ceiling is at least one
/// tick and at most `300 / interval_secs` ticks.
pub proof fn lemma_new_is_wf(interval_secs: nat)
    requires
        interval_secs > 0,
    ensures
        spec_backoff_new(interval_secs).wf(),
        spec_backoff_new(interval_secs).max_ticks >= 1,
        interval_secs <= MAX_WAIT_SECS ==> spec_backoff_new(interval_secs).max_ticks
            == MAX_WAIT_SECS as nat / interval_secs,
{
    assert(MAX_WAIT_SECS as nat / interval_secs <= MAX_WAIT_SECS) by (nonlinear_arith)
        requires interval_secs > 0;
    if interval_secs <= MAX_WAIT_SECS {
        assert(MAX_WAIT_SECS as nat / interval_secs >= 1) by (nonlinear_arith)
            requires interval_secs > 0, interval_secs <= MAX_WAIT_SECS;
    }
}

/// Starting from a wait of one tick, `k` consecutive failures leave the wait
/// at `min(2^k, max_ticks)`: the wait doubles and then stays at the ceiling.
pub proof fn lemma_failures_double_up_to_ceiling(v: BackoffView, k: nat)
    requires
        v.wf(),
        v.current_ticks == 1,
    ensures
        spec_after_failures(v, k).wf(),
        spec_after_failures(v, k).max_ticks == v.max_ticks,
        spec_after_failures(v, k).current_ticks == if pow2(k) <= v.max_ticks {
            pow2(k)
        } else {
            v.max_ticks
        },
    decreases k,
{
    if k == 0 {
        vstd::arithmetic::power2::lemma2_to64();
    } else {
        lemma_failures_double_up_to_ceiling(v, (k - 1) as nat);
        vstd::arithmetic::power2::lemma_pow2_unfold(k);
    }
}

/// While a wait counts down, `should_check` answers no exactly `countdown`
/// times and then yes; the other fields stay as they are.
pub proof fn lemma_countdown_then_check(v: BackoffView, n: nat)
    requires
        v.wf(),
        n <= v.countdown,
    ensures
        spec_after_checks(v, n).countdown == v.countdown - n,
        spec_after_checks(v, n).current_ticks == v.current_ticks,
        spec_after_checks(v, n).max_ticks == v.max_ticks,
        spec_should_check(spec_after_checks(v, n)).1 <==> n == v.countdown,
    decreases n,
{
    if n > 0 {
        lemma_countdown_then_check(v, (n - 1) as nat);
    }
}

/// In any sound state, a check comes within `max_ticks + 1` calls of
/// `should_check` without a failure between them: the calls before it answer
/// no, and there are at most `max_ticks` of them (about five minutes).
pub proof fn lemma_check_within_ceiling(v: BackoffView)
    requires
        v.wf(),
    ensures
        v.countdown <= v.max_ticks,
        forall|n: nat| n < v.countdown ==> !(#[trigger] spec_should_check(spec_after_checks(v, n))).1,
        spec_should_check(spec_after_checks(v, v.countdown)).1,
{
    assert forall|n: nat| n < v.countdown implies !(#[trigger] spec_should_check(
        spec_after_checks(v, n),
    )).1 by {
        lemma_countdown_then_check(v, n);
    }
    lemma_countdown_then_check(v, v.countdown);
}

/// After a failure, the next `w` ticks skip the check and the one after
/// checks again, where `w` is the wait the backoff held before the failure.
pub proof fn lemma_failure_skips_wait(v: BackoffView, n: nat)
    requires
        v.wf(),
        n <= v.current_ticks,
    ensures
        spec_should_check(spec_after_checks(spec_on_failure(v), n)).1 <==> n == v.current_ticks,
{
    lemma_countdown_then_check(spec_on_failure(v), n);
}

/// The state after a run of ticks, each a `should_check` (`false`) or a
/// failed check (`true`).
pub open spec fn spec_apply_ticks(v: BackoffView, failures: Seq<bool>) -> BackoffView
    decreases failures.len(),
{
    if failures.len() == 0 {
        v
    } else {
        let w = spec_apply_ticks(v, failures.drop_last());
        if failures.last() {
            spec_on_failure(w)
        } else {
            spec_should_check(w).0
        }
    }
}

/// The wait set by the last failure of a run of ticks (0 when none failed).
pub open spec fn spec_last_wait(v: BackoffView, failures: Seq<bool>) -> nat
    decreases failures.len(),
{
    if failures.len() == 0 {
        0
    } else if failures.last() {
        spec_apply_ticks(v, failures.drop_last()).current_ticks
    } else {
        spec_last_wait(v, failures.drop_last())
    }
}

/// Between successes, each failure sets a wait twice the previous one, up
/// to the ceiling, and one tick for the first failure: waits never
/// decrease, never pass the ceiling, and the invariant holds throughout.
pub proof fn lemma_waits_double_between_successes(v: BackoffView, failures: Seq<bool>)
    requires
        v.wf(),
        v.current_ticks == 1,
    ensures
        spec_apply_ticks(v, failures).wf(),
        spec_apply_ticks(v, failures).max_ticks == v.max_ticks,
        spec_on_failure(spec_apply_ticks(v, failures)).countdown == if spec_last_wait(
            v,
            failures,
        ) == 0 {
            1
        } else if 2 * spec_last_wait(v, failures) <= v.max_ticks {
            2 * spec_last_wait(v, failures)
        } else {
            v.max_ticks
        },
        spec_last_wait(v, failures) <= spec_on_failure(spec_apply_ticks(v, failures)).countdown,
        spec_on_failure(spec_apply_ticks(v, failures)).countdown <= v.max_ticks,
    decreases failures.len(),
{
    if failures.len() > 0 {
        lemma_waits_double_between_successes(v, failures.drop_last());
        lemma_operations_keep_wf(spec_apply_ticks(v, failures.drop_last()));
    }
}

/// After a success the very next tick checks again.
pub proof fn lemma_success_checks_next_tick(v: BackoffView)
    requires
        v.wf(),
    ensures
        spec_should_check(spec_on_success(v)).1,
        spec_on_success(v).current_ticks == 1,
{
}

/// One event in the life of a backoff.
pub enum BackoffEvent {
    /// A call of `should_check`.
    Check,
    /// A call of `on_failure`.
    Failure,
    /// A call of `on_success`.
    Success,
}

/// The state after a history of events.
pub open spec fn spec_apply_events(v: BackoffView, events: Seq<BackoffEvent>) -> BackoffView
    decreases events.len(),
{
    if events.len() == 0 {
        v
    } else {
        let w = spec_apply_events(v, events.drop_last());
        match events.last() {
            BackoffEvent::Check => spec_should_check(w).0,
            BackoffEvent::Failure => spec_on_failure(w),
            BackoffEvent::Success => spec_on_success(w),
        }
    }
}

/// A success resets the wait to one tick with nothing left to count down,
/// and keeps the ceiling.
pub proof fn lemma_success_resets_wait_keeps_ceiling(v: BackoffView)
    requires
        v.wf(),
    ensures
        spec_on_success(v).max_ticks == v.max_ticks,
        spec_on_success(v).current_ticks == 1,
        spec_on_success(v).countdown == 0,
        spec_on_success(v).wf(),
{
}

/// The ceiling is fixed for the backoff's life: whatever checks, failures
/// and successes happen, it stays `max(300 / interval_secs, 1)` ticks, and
/// neither the next wait nor the wait being counted down ever exceeds it.
pub proof fn lemma_ceiling_is_fixed(interval_secs: nat, events: Seq<BackoffEvent>)
    requires
        interval_secs > 0,
    ensures
        ({
            let v = spec_apply_events(spec_backoff_new(interval_secs), events);
            let ceiling: nat = if 300nat / interval_secs >= 1 {
                300nat / interval_secs
            } else {
                1
            };
            &&& v.wf()
            &&& v.max_ticks == ceiling
            &&& 1 <= v.current_ticks <= ceiling
            &&& v.countdown <= ceiling
        }),
    decreases events.len(),
{
    lemma_new_is_wf(interval_secs);
    if events.len() > 0 {
        lemma_ceiling_is_fixed(interval_secs, events.drop_last());
        lemma_operations_keep_wf(
            spec_apply_events(spec_backoff_new(interval_secs), events.drop_last()),
        );
    }
}

/// Exponential backoff for connectivity checks: the wait (in ticks) doubles
/// after each failure, up to a ceiling of about five minutes.
pub struct Backoff {
    current_ticks: u64,
    max_ticks: u64,
    countdown: u64,
}

impl View for Backoff {
    type V = BackoffView;

    closed spec fn view(&self) -> BackoffView {
        BackoffView {
            current_ticks: self.current_ticks as nat,
            max_ticks: self.max_ticks as nat,
            countdown: self.countdown as nat,
        }
    }
}

impl Backoff {
    #[verifier::type_invariant]
    spec fn inv(self) -> bool {
        self@.wf()
    }

    /// A backoff whose ceiling is `300 / interval_secs` ticks, at least one.
    pub fn new(interval_secs: u64) -> (b: Self)
        requires
            interval_secs > 0,
        ensures
            b@ == spec_backoff_new(interval_secs as nat),
            b@.wf(),
    {
        let q = MAX_WAIT_SECS / interval_secs;
        let max_ticks = if q >= 1 { q } else { 1 };
        Backoff { current_ticks: 1, max_ticks, countdown: 0 }
    }

    /// Whether a connectivity check is due this tick; a tick that is not
    /// due counts down the wait.
    pub fn should_check(&mut self) -> (due: bool)
        ensures
            (final(self)@, due) == spec_should_check(old(self)@),
            final(self)@.wf(),
            due == (old(self)@.countdown == 0),
            final(self)@.max_ticks == old(self)@.max_ticks,
            final(self)@.current_ticks == old(self)@.current_ticks,
            final(self)@.countdown == if due {
                old(self)@.countdown as int
            } else {
                old(self)@.countdown - 1
            },
    {
        proof { use_type_invariant(&*self); }
        if self.countdown == 0 {
            true
        } else {
            self.countdown = self.countdown - 1;
            false
        }
    }

    /// Backs off after a failed check.
    pub fn on_failure(&mut self)
        ensures
            final(self)@ == spec_on_failure(old(self)@),
            final(self)@.wf(),
            final(self)@.max_ticks == old(self)@.max_ticks,
            final(self)@.countdown == old(self)@.current_ticks,
            final(self)@.current_ticks == if 2 * old(self)@.current_ticks <= old(self)@.max_ticks {
                2 * old(self)@.current_ticks
            } else {
                old(self)@.max_ticks
            },
    {
        proof { use_type_invariant(&*self); }
        let doubled = self.current_ticks * 2;
        self.countdown = self.current_ticks;
        self.current_ticks = if doubled <= self.max_ticks { doubled } else { self.max_ticks };
    }

    /// Resets after a successful check.
    pub fn on_success(&mut self)
        ensures
            final(self)@ == spec_on_success(old(self)@),
            final(self)@.wf(),
            final(self)@.max_ticks == old(self)@.max_ticks,
            final(self)@.current_ticks == 1,
            final(self)@.countdown == 0,
    {
        proof { use_type_invariant(&*self); }
        self.current_ticks = 1;
        self.countdown = 0;
    }
}

} // verus!
