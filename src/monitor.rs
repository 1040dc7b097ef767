//! The consumer side: what one sample does to the dashboard's state.
use vstd::prelude::*;

use crate::device::DeviceView;
use crate::history::pushed;
use crate::process::{arranged, copy_rows, ProcessTable};
use crate::scheduler::{sample_step, SampleDecision, SampleOutcome, SamplingScheduler};
use crate::snapshot::{is_fatal_spec, QueryError, SystemState};

verus! {

/// Dashboard state: the latest snapshot, the metric histories, the process
/// table and the sampling schedule that feeds them.
pub struct Monitor {
    pub current_state: Option<SystemState>,
    pub device_view: DeviceView,
    pub process_table: ProcessTable,
    pub scheduler: SamplingScheduler,
    pub last_error: Option<QueryError>,
}

/// How a sample result counts for the schedule.
pub open spec fn outcome_of(result: Result<SystemState, QueryError>) -> SampleOutcome {
    match result {
        Ok(_) => SampleOutcome::Succeeded,
        Err(e) => if is_fatal_spec(e) {
            SampleOutcome::FatalError
        } else {
            SampleOutcome::TransientError
        },
    }
}

impl Monitor {
    pub open spec fn wf(&self) -> bool {
        self.device_view.device_stats_plot.wf()
    }

    /// A dashboard with no data yet, sampling every `interval_ms` once started.
    pub fn new(interval_ms: u64) -> (r: Self)
        ensures
            r.wf(),
            r.current_state is None,
            r.last_error is None,
            r.scheduler.interval_ms == interval_ms,
            r.scheduler.state == crate::scheduler::SchedulerState::Idle,
            r.device_view.device_stats_plot.temperature_vals@.len() == 0,
            r.device_view.device_stats_plot.memory_usage_vals@.len() == 0,
            r.device_view.device_stats_plot.power_usage_vals@.len() == 0,
            r.process_table.processes@.len() == 0,
            r.process_table.spec_sort_kind() is None,
    {
        Monitor {
            current_state: None,
            device_view: DeviceView::default(),
            process_table: ProcessTable::default(),
            scheduler: SamplingScheduler::new(interval_ms),
            last_error: None,
        }
    }

    fn outcome(result: &Result<SystemState, QueryError>) -> (r: SampleOutcome)
        ensures
            r == outcome_of(*result),
    {
        match result {
            Ok(_) => SampleOutcome::Succeeded,
            Err(e) => if e.is_fatal() {
                SampleOutcome::FatalError
            } else {
                SampleOutcome::TransientError
            },
        }
    }

    /// Takes the result of a sample completed at `now`. A published snapshot
    /// becomes the current state, replaces the table's rows (arranged by the
    /// table's sort state), appends one reading to each history and sets
    /// the memory chart's upper end to the total memory in MB. Anything else
    /// leaves the histories, the rows and the current state alone; an error
    /// is kept for display.
    pub fn on_sample(&mut self, now: u64, result: Result<SystemState, QueryError>) -> (r:
        SampleDecision)
        requires
            old(self).wf(),
        ensures
            final(self).wf(),
            final(self).scheduler.interval_ms == old(self).scheduler.interval_ms,
            (final(self).scheduler.state, r) == sample_step(
                old(self).scheduler.state,
                old(self).scheduler.interval_ms,
                now,
                outcome_of(result),
            ),
            final(self).process_table.spec_sort_kind() == old(self).process_table.spec_sort_kind(),
            final(self).process_table.spec_descending() == old(
                self,
            ).process_table.spec_descending(),
            final(self).process_table.selected() == old(self).process_table.selected(),
            result is Err ==> final(self).last_error == Some(result->Err_0),
            result is Ok ==> final(self).last_error == old(self).last_error,
            r is Publish ==> {
                let snap = result->Ok_0;
                let old_plot = old(self).device_view.device_stats_plot;
                let plot = final(self).device_view.device_stats_plot;
                &&& final(self).current_state == Some(snap)
                &&& arranged(
                    final(self).process_table.processes@,
                    snap.process_state.processes@,
                    old(self).process_table.spec_sort_kind(),
                    old(self).process_table.spec_descending(),
                )
                &&& plot.temperature_vals@ == pushed(
                    old_plot.temperature_vals@,
                    snap.device_state.temperature as u64,
                )
                &&& plot.memory_usage_vals@ == pushed(
                    old_plot.memory_usage_vals@,
                    snap.device_state.mem_info.used / 1_000_000,
                )
                &&& plot.power_usage_vals@ == pushed(
                    old_plot.power_usage_vals@,
                    (snap.device_state.power_usage / 1000) as u64,
                )
                &&& plot.max_memory_usage == snap.device_state.mem_info.total / 1_000_000
            },
            !(r is Publish) ==> {
                let old_plot = old(self).device_view.device_stats_plot;
                let plot = final(self).device_view.device_stats_plot;
                &&& final(self).current_state == old(self).current_state
                &&& final(self).process_table.processes@ == old(self).process_table.processes@
                &&& plot.temperature_vals@ == old_plot.temperature_vals@
                &&& plot.memory_usage_vals@ == old_plot.memory_usage_vals@
                &&& plot.power_usage_vals@ == old_plot.power_usage_vals@
                &&& plot.max_memory_usage == old_plot.max_memory_usage
            },
    {
        let outcome = Self::outcome(&result);
        let decision = self.scheduler.finish_sample(now, outcome);
        match result {
            Ok(snap) => {
                if let SampleDecision::Publish { .. } = decision {
                    let plot = &mut self.device_view.device_stats_plot;
                    plot.record(&snap.device_state);
                    plot.set_max_memory_usage(snap.device_state.mem_info.total / 1_000_000);
                    self.process_table.set_processes(copy_rows(&snap.process_state.processes));
                    self.current_state = Some(snap);
                }
            },
            Err(e) => {
                self.last_error = Some(e);
            },
        }
        decision
    }
}

} // verus!
