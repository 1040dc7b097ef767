//! Fixed-cadence sampling schedule, as a state machine driven by the caller's
//! clock (milliseconds) and by the outcome of each sample.
use vstd::prelude::*;

verus! {

#[derive(Clone, Copy, Debug, PartialEq, Eq, Structural)]
pub enum SchedulerState {
    Idle,
    Running { next_tick: u64 },
    Stopped,
}

/// How one sample went.
#[derive(Clone, Copy, Debug, PartialEq, Eq, Structural)]
pub enum SampleOutcome {
    Succeeded,
    TransientError,
    FatalError,
}

/// What the sampling loop does at the top of an iteration.
#[derive(Clone, Copy, Debug, PartialEq, Eq, Structural)]
pub enum PollDecision {
    /// Leave the loop; no further sample is taken.
    Halt,
    /// Take a sample now.
    Sample,
    /// Nothing is due yet; sleep this many milliseconds.
    Sleep { ms: u64 },
}

/// What the sampling loop does after a sample.
#[derive(Clone, Copy, Debug, PartialEq, Eq, Structural)]
pub enum SampleDecision {
    /// Hand the snapshot to the consumer, then sleep.
    Publish { sleep_ms: u64 },
    /// Drop the failed sample, then sleep.
    Skip { sleep_ms: u64 },
    /// Stop sampling and report the error.
    Halt,
}

pub struct SamplingScheduler {
    pub interval_ms: u64,
    pub state: SchedulerState,
}

/// `a + b`, held at `u64::MAX`.
pub open spec fn add_capped(a: u64, b: u64) -> u64 {
    if a + b > u64::MAX {
        u64::MAX
    } else {
        (a + b) as u64
    }
}

/// Milliseconds from `now` until `tick`, zero when it is already past.
pub open spec fn until(tick: u64, now: u64) -> u64 {
    if tick > now {
        (tick - now) as u64
    } else {
        0
    }
}

/// The state and decision at the top of a loop iteration.
pub open spec fn poll_step(st: SchedulerState, now: u64, stop_requested: bool) -> (
    SchedulerState,
    PollDecision,
) {
    match st {
        SchedulerState::Running { next_tick } => {
            if stop_requested {
                (SchedulerState::Stopped, PollDecision::Halt)
            } else if now >= next_tick {
                (st, PollDecision::Sample)
            } else {
                (st, PollDecision::Sleep { ms: (next_tick - now) as u64 })
            }
        },
        SchedulerState::Idle => if stop_requested {
            (SchedulerState::Stopped, PollDecision::Halt)
        } else {
            (st, PollDecision::Halt)
        },
        SchedulerState::Stopped => (st, PollDecision::Halt),
    }
}

/// The state and decision after a sample has completed at `now`.
pub open spec fn sample_step(st: SchedulerState, interval: u64, now: u64, outcome: SampleOutcome) -> (
    SchedulerState,
    SampleDecision,
) {
    match st {
        SchedulerState::Running { next_tick } => {
            let next = add_capped(next_tick, interval);
            match outcome {
                SampleOutcome::Succeeded => (
                    SchedulerState::Running { next_tick: next },
                    SampleDecision::Publish { sleep_ms: until(next, now) },
                ),
                SampleOutcome::TransientError => (
                    SchedulerState::Running { next_tick: next },
                    SampleDecision::Skip { sleep_ms: until(next, now) },
                ),
                SampleOutcome::FatalError => (SchedulerState::Stopped, SampleDecision::Halt),
            }
        },
        _ => (st, SampleDecision::Halt),
    }
}

fn add_capped_exec(a: u64, b: u64) -> (r: u64)
    ensures
        r == add_capped(a, b),
{
    if a > u64::MAX - b {
        u64::MAX
    } else {
        a + b
    }
}

impl SamplingScheduler {
    pub fn new(interval_ms: u64) -> (r: Self)
        ensures
            r.interval_ms == interval_ms,
            r.state == SchedulerState::Idle,
    {
        SamplingScheduler { interval_ms, state: SchedulerState::Idle }
    }

    /// Starts an idle schedule: the first tick falls one interval after `now`.
    /// A running or stopped schedule is left as it is.
    pub fn start(&mut self, now: u64)
        ensures
            final(self).interval_ms == old(self).interval_ms,
            final(self).state == if old(self).state == SchedulerState::Idle {
                SchedulerState::Running { next_tick: add_capped(now, old(self).interval_ms) }
            } else {
                old(self).state
            },
    {
        if let SchedulerState::Idle = self.state {
            self.state = SchedulerState::Running { next_tick: add_capped_exec(now, self.interval_ms) };
        }
    }

    /// The top of a loop iteration: a pending stop ends the schedule;
    /// otherwise a sample is due once `now` reaches the next tick.
    pub fn poll(&mut self, now: u64, stop_requested: bool) -> (r: PollDecision)
        ensures
            final(self).interval_ms == old(self).interval_ms,
            (final(self).state, r) == poll_step(old(self).state, now, stop_requested),
    {
        match self.state {
            SchedulerState::Running { next_tick } => {
                if stop_requested {
                    self.state = SchedulerState::Stopped;
                    PollDecision::Halt
                } else if now >= next_tick {
                    PollDecision::Sample
                } else {
                    PollDecision::Sleep { ms: next_tick - now }
                }
            },
            SchedulerState::Idle => {
                if stop_requested {
                    self.state = SchedulerState::Stopped;
                }
                PollDecision::Halt
            },
            SchedulerState::Stopped => PollDecision::Halt,
        }
    }

    /// Records how a sample went, at `now`. A success or a transient error
    /// moves the next tick on by exactly one interval, whatever the time the
    /// sample took; a fatal error stops the schedule.
    pub fn finish_sample(&mut self, now: u64, outcome: SampleOutcome) -> (r: SampleDecision)
        ensures
            final(self).interval_ms == old(self).interval_ms,
            (final(self).state, r) == sample_step(old(self).state, old(self).interval_ms, now, outcome),
    {
        match self.state {
            SchedulerState::Running { next_tick } => {
                let next = add_capped_exec(next_tick, self.interval_ms);
                let sleep_ms = if next > now {
                    next - now
                } else {
                    0
                };
                match outcome {
                    SampleOutcome::Succeeded => {
                        self.state = SchedulerState::Running { next_tick: next };
                        SampleDecision::Publish { sleep_ms }
                    },
                    SampleOutcome::TransientError => {
                        self.state = SchedulerState::Running { next_tick: next };
                        SampleDecision::Skip { sleep_ms }
                    },
                    SampleOutcome::FatalError => {
                        self.state = SchedulerState::Stopped;
                        SampleDecision::Halt
                    },
                }
            },
            _ => SampleDecision::Halt,
        }
    }
}

/// The state after a run of samples, each completed at the given time with
/// the given outcome.
pub open spec fn after_samples(
    st: SchedulerState,
    interval: u64,
    samples: Seq<(u64, SampleOutcome)>,
) -> SchedulerState
    decreases samples.len(),
{
    if samples.len() == 0 {
        st
    } else {
        let before = after_samples(st, interval, samples.drop_last());
        sample_step(before, interval, samples.last().0, samples.last().1).0
    }
}

/// Ticks keep a fixed cadence from the start time: after `k` samples that
/// did not fail fatally, completed at any times at all, the next tick is
/// `start + (k + 1) * interval`.
pub proof fn lemma_fixed_cadence(start: u64, interval: u64, samples: Seq<(u64, SampleOutcome)>)
    requires
        start + (samples.len() + 1) * interval <= u64::MAX,
        forall|i: int|
            0 <= i < samples.len() ==> (#[trigger] samples[i]).1 != SampleOutcome::FatalError,
    ensures
        after_samples(
            SchedulerState::Running { next_tick: (start + interval) as u64 },
            interval,
            samples,
        ) == (SchedulerState::Running {
            next_tick: (start + (samples.len() + 1) * interval) as u64,
        }),
    decreases samples.len(),
{
    let k = samples.len() as int;
    if k > 0 {
        assert(start + k * interval <= start + (k + 1) * interval) by (nonlinear_arith)
            requires
                interval >= 0,
        ;
        assert forall|i: int| 0 <= i < k - 1 implies (#[trigger] samples.drop_last()[i]).1
            != SampleOutcome::FatalError by {
            assert(samples.drop_last()[i] == samples[i]);
        }
        lemma_fixed_cadence(start, interval, samples.drop_last());
        assert(samples.last() == samples[k - 1]);
        assert(start + k * interval + interval == start + (k + 1) * interval) by (nonlinear_arith);
    } else {
        assert((samples.len() + 1) * interval == interval) by (nonlinear_arith)
            requires
                samples.len() == 0,
        ;
    }
}

/// A fatal error ends sampling for good: the schedule is stopped, and a
/// stopped schedule never asks for another sample, whatever happens next.
pub proof fn lemma_fatal_is_final(
    st: SchedulerState,
    interval: u64,
    now: u64,
    later: Seq<(u64, SampleOutcome)>,
    poll_time: u64,
    stop_requested: bool,
)
    requires
        st is Running,
    ensures
        sample_step(st, interval, now, SampleOutcome::FatalError).0 == SchedulerState::Stopped,
        after_samples(SchedulerState::Stopped, interval, later) == SchedulerState::Stopped,
        poll_step(after_samples(SchedulerState::Stopped, interval, later), poll_time, stop_requested)
            == (SchedulerState::Stopped, PollDecision::Halt),
    decreases later.len(),
{
    if later.len() > 0 {
        lemma_fatal_is_final(st, interval, now, later.drop_last(), poll_time, stop_requested);
    }
}

/// A transient error publishes nothing and leaves the schedule running.
pub proof fn lemma_transient_keeps_running(st: SchedulerState, interval: u64, now: u64)
    requires
        st is Running,
    ensures
        sample_step(st, interval, now, SampleOutcome::TransientError).0 is Running,
        sample_step(st, interval, now, SampleOutcome::TransientError).1 is Skip,
{
}

} // verus!
