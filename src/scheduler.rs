//! The drift-aware periodic scheduler, as a state machine. The caller owns
//! the timer: it waits for a tick, hands the number of elapsed intervals to
//! [`Scheduler::on_tick`], and runs one collection pass per returned action.
//!
//! Times are milliseconds since the scheduler was armed. A wake that reports
//! `n` elapsed intervals advances the clock by `n` times the interval length,
//! so that the end of the run follows the wall clock even when wakes are late.
use vstd::prelude::*;

verus! {

/// State of a running schedule.
#[derive(Clone, Copy, Debug, PartialEq, Eq, Structural)]
pub struct Scheduler {
    /// Time reached, in milliseconds since arming.
    pub current: u64,
    /// End of the run: the configured total period.
    pub end: u64,
    /// Sampling interval in milliseconds.
    pub interval: u64,
    /// Number of wakes handled so far.
    pub wakes: u64,
}

/// What the caller does on a wake.
#[derive(Clone, Copy, Debug, PartialEq, Eq, Structural)]
pub struct TickAction {
    /// Collection passes to run now: always exactly one.
    pub passes: u64,
    /// Intervals that were missed and will not be collected; above zero the
    /// caller reports a warning.
    pub missed: u64,
}

pub open spec fn saturate(x: int) -> u64 {
    if x > u64::MAX {
        u64::MAX
    } else {
        x as u64
    }
}

impl Scheduler {
    pub open spec fn wf(self) -> bool {
        self.interval > 0
    }

    /// The state of a freshly armed schedule.
    pub open spec fn arm_spec(period: u64, interval: u64) -> Scheduler {
        Scheduler { current: 0, end: period, interval, wakes: 0 }
    }

    pub open spec fn running_spec(self) -> bool {
        self.current < self.end
    }

    /// The state after a wake that reports `elapsed` intervals.
    pub open spec fn tick_spec(self, elapsed: u64) -> Scheduler {
        Scheduler {
            current: saturate(self.current + elapsed * self.interval),
            end: self.end,
            interval: self.interval,
            wakes: saturate(self.wakes + 1),
        }
    }

    /// The state after `k` on-time wakes, each reporting a single interval.
    pub open spec fn nominal_after(self, k: nat) -> Scheduler
        decreases k,
    {
        if k == 0 {
            self
        } else {
            self.nominal_after((k - 1) as nat).tick_spec(1)
        }
    }

    /// Arms a schedule for a run of `period` milliseconds sampled every
    /// `interval` milliseconds.
    pub fn arm(period: u64, interval: u64) -> (r: Scheduler)
        requires
            interval > 0,
        ensures
            r.wf(),
            r == Scheduler::arm_spec(period, interval),
    {
        Scheduler { current: 0, end: period, interval, wakes: 0 }
    }

    /// Whether the caller waits for another tick.
    pub fn is_running(&self) -> (r: bool)
        ensures
            r == self.running_spec(),
    {
        self.current < self.end
    }

    /// Handles one wake of the timer that reports `elapsed` intervals since
    /// the previous wake. Exactly one pass is run whatever `elapsed` is; the
    /// missed intervals are not replayed.
    pub fn on_tick(&mut self, elapsed: u64) -> (r: TickAction)
        ensures
            *final(self) == old(self).tick_spec(elapsed),
            r.passes == 1,
            r.missed == if elapsed > 0 { elapsed - 1 } else { 0 },
    {
        let advance = match elapsed.checked_mul(self.interval) {
            Some(a) => a,
            None => u64::MAX,
        };
        self.current = self.current.saturating_add(advance);
        self.wakes = self.wakes.saturating_add(1);
        let missed = if elapsed > 0 { elapsed - 1 } else { 0 };
        TickAction { passes: 1, missed }
    }
}

proof fn lemma_nominal_current(s: Scheduler, k: nat)
    requires
        s.current == 0,
        s.wakes == 0,
        k * s.interval <= u64::MAX,
        k <= u64::MAX,
    ensures
        s.nominal_after(k).current == k * s.interval,
        s.nominal_after(k).end == s.end,
        s.nominal_after(k).interval == s.interval,
        s.nominal_after(k).wakes == k,
    decreases k,
{
    if k > 0 {
        let j = (k - 1) as nat;
        assert(j * s.interval <= k * s.interval) by (nonlinear_arith)
            requires
                j <= k,
        ;
        lemma_nominal_current(s, j);
        assert(j * s.interval + s.interval == k * s.interval) by (nonlinear_arith)
            requires
                j + 1 == k,
        ;
        assert(1 * s.interval == s.interval);
    } else {
        assert(k * s.interval == 0) by (nonlinear_arith)
            requires
                k == 0,
        ;
    }
}

/// A run of period `period` sampled every `interval` that sees only on-time
/// wakes stops after the wake at which its clock reaches the end, and the
/// time it has then run is at least the period and less than the period
/// plus one interval.
pub proof fn lemma_run_elapsed_within_one_interval(period: u64, interval: u64, k: nat)
    requires
        interval > 0,
        period > 0,
        period + interval <= u64::MAX,
        forall|j: nat| j < k ==> (#[trigger] Scheduler::arm_spec(period, interval).nominal_after(j)).running_spec(),
        !Scheduler::arm_spec(period, interval).nominal_after(k).running_spec(),
    ensures
        Scheduler::arm_spec(period, interval).nominal_after(k).current == k * interval,
        Scheduler::arm_spec(period, interval).nominal_after(k).wakes == k,
        period <= k * interval < period + interval,
{
    let s = Scheduler::arm_spec(period, interval);
    // The number of on-time wakes needed to reach the end.
    let m = ((period + interval - 1) as int / interval as int) as nat;
    assert(m * interval >= period && m * interval <= period + interval - 1) by (nonlinear_arith)
        requires
            interval > 0,
            period > 0,
            m == (period + interval - 1) as int / interval as int,
    ;
    assert(m <= u64::MAX) by (nonlinear_arith)
        requires
            m * interval <= u64::MAX,
            interval > 0,
    ;
    if k > m {
        lemma_nominal_current(s, m);
        assert(!s.nominal_after(m).running_spec());
        assert(s.nominal_after(m).running_spec());
    }
    assert(k * interval <= m * interval) by (nonlinear_arith)
        requires
            k <= m,
    ;
    lemma_nominal_current(s, k);
    if k == 0 {
        assert(s.running_spec());
    } else {
        let j = (k - 1) as nat;
        assert(j * interval <= k * interval) by (nonlinear_arith)
            requires
                j <= k,
        ;
        lemma_nominal_current(s, j);
        assert(s.nominal_after(j).running_spec());
        assert(j * interval + interval == k * interval) by (nonlinear_arith)
            requires
                j + 1 == k,
        ;
    }
}

/// Whatever the wakes reported, overruns included, a schedule that has
/// stopped has run for at least its period.
pub proof fn lemma_stopped_run_covers_period(s: Scheduler)
    requires
        !s.running_spec(),
    ensures
        s.current >= s.end,
{
}

} // verus!
