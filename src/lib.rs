//! Telemetry engine of a GPU monitor: bounded metric history, sampling
//! schedule, snapshot assembly, the sortable process table and the chart
//! gesture controller.
use vstd::prelude::*;

pub mod device;
pub mod history;
pub mod monitor;
pub mod process;
pub mod scheduler;
pub mod snapshot;
pub mod view;

verus! {

} // verus!
