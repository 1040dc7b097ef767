use nvsmi_gui::scheduler::{
    PollDecision, SampleDecision, SampleOutcome, SamplingScheduler, SchedulerState,
};

#[test]
fn ticks_keep_a_fixed_cadence_despite_sample_time() {
    let mut s = SamplingScheduler::new(100);
    s.start(0);
    assert_eq!(s.state, SchedulerState::Running { next_tick: 100 });
    let mut sample_times = Vec::new();
    let mut now: u64 = 0;
    for _ in 0..5 {
        match s.poll(now, false) {
            PollDecision::Sample => {
                sample_times.push(now);
                now += 30;
                match s.finish_sample(now, SampleOutcome::Succeeded) {
                    SampleDecision::Publish { sleep_ms } => now += sleep_ms,
                    other => panic!("unexpected {:?}", other),
                }
            }
            PollDecision::Sleep { ms } => {
                now += ms;
                sample_times.push(u64::MAX);
                sample_times.pop();
            }
            PollDecision::Halt => panic!("halted"),
        }
    }
    assert_eq!(sample_times, vec![100, 200, 300, 400]);
    assert_eq!(s.state, SchedulerState::Running { next_tick: 500 });
}

#[test]
fn sleep_until_next_tick() {
    let mut s = SamplingScheduler::new(100);
    s.start(1000);
    assert_eq!(s.poll(1040, false), PollDecision::Sleep { ms: 60 });
    assert_eq!(s.poll(1100, false), PollDecision::Sample);
    assert_eq!(
        s.finish_sample(1130, SampleOutcome::Succeeded),
        SampleDecision::Publish { sleep_ms: 70 }
    );
}

#[test]
fn late_sample_sleeps_zero() {
    let mut s = SamplingScheduler::new(100);
    s.start(0);
    assert_eq!(s.poll(100, false), PollDecision::Sample);
    assert_eq!(
        s.finish_sample(350, SampleOutcome::Succeeded),
        SampleDecision::Publish { sleep_ms: 0 }
    );
    assert_eq!(s.state, SchedulerState::Running { next_tick: 200 });
    assert_eq!(s.poll(350, false), PollDecision::Sample);
}

#[test]
fn fatal_error_stops_sampling() {
    let mut s = SamplingScheduler::new(100);
    s.start(0);
    assert_eq!(s.poll(100, false), PollDecision::Sample);
    assert_eq!(s.finish_sample(110, SampleOutcome::FatalError), SampleDecision::Halt);
    assert_eq!(s.state, SchedulerState::Stopped);
    assert_eq!(s.poll(200, false), PollDecision::Halt);
    assert_eq!(s.poll(10_000, false), PollDecision::Halt);
    assert_eq!(s.finish_sample(10_000, SampleOutcome::Succeeded), SampleDecision::Halt);
}

#[test]
fn transient_error_skips_and_continues() {
    let mut s = SamplingScheduler::new(100);
    s.start(0);
    assert_eq!(s.poll(100, false), PollDecision::Sample);
    assert_eq!(
        s.finish_sample(120, SampleOutcome::TransientError),
        SampleDecision::Skip { sleep_ms: 80 }
    );
    assert_eq!(s.state, SchedulerState::Running { next_tick: 200 });
    assert_eq!(s.poll(200, false), PollDecision::Sample);
}

#[test]
fn stop_request_is_seen_at_the_next_poll() {
    let mut s = SamplingScheduler::new(50);
    s.start(0);
    assert_eq!(s.poll(60, true), PollDecision::Halt);
    assert_eq!(s.state, SchedulerState::Stopped);
}

#[test]
fn idle_schedule_does_not_sample() {
    let mut s = SamplingScheduler::new(50);
    assert_eq!(s.poll(1000, false), PollDecision::Halt);
    assert_eq!(s.state, SchedulerState::Idle);
    assert_eq!(s.finish_sample(1000, SampleOutcome::Succeeded), SampleDecision::Halt);
}

#[test]
fn start_twice_keeps_first_schedule() {
    let mut s = SamplingScheduler::new(10);
    s.start(5);
    s.start(100);
    assert_eq!(s.state, SchedulerState::Running { next_tick: 15 });
}

#[test]
fn tick_arithmetic_saturates() {
    let mut s = SamplingScheduler::new(100);
    s.start(u64::MAX - 10);
    assert_eq!(s.state, SchedulerState::Running { next_tick: u64::MAX });
}
