//! Device readings and the metric histories that the charts draw.
use vstd::prelude::*;

use crate::history::{pushed, MetricHistory};

verus! {

/// Integer division rounding toward zero, as Rust's `/` does.
pub open spec fn trunc_div(a: int, b: int) -> int {
    if a >= 0 {
        a / b
    } else {
        -((-a) / b)
    }
}

/// Relies on `nvml_wrapper::cuda_driver_version_major`, which is
/// `version / 1000`.
#[verifier::external_body]
fn cuda_major(version: i32) -> (r: i32)
    ensures
        r == trunc_div(version as int, 1000),
{
    nvml_wrapper::cuda_driver_version_major(version)
}

/// Relies on `nvml_wrapper::cuda_driver_version_minor`, which is
/// `(version % 1000) / 10`.
#[verifier::external_body]
fn cuda_minor(version: i32) -> (r: i32)
    ensures
        r == trunc_div(version - 1000 * trunc_div(version as int, 1000), 10),
{
    nvml_wrapper::cuda_driver_version_minor(version)
}

#[derive(Clone, Copy, Debug, PartialEq, Eq, Structural)]
pub struct CudaDriverVersion {
    pub major: i32,
    pub minor: i32,
}

impl CudaDriverVersion {
    /// Splits a driver version as NVML reports it (`12040` is 12.4).
    pub fn from_raw(version: i32) -> (r: Self)
        ensures
            r.major == trunc_div(version as int, 1000),
            r.minor == trunc_div(version - 1000 * trunc_div(version as int, 1000), 10),
    {
        CudaDriverVersion { major: cuda_major(version), minor: cuda_minor(version) }
    }
}

/// Frame-buffer memory in bytes.
#[derive(Clone, Copy, Debug, PartialEq, Eq, Structural)]
pub struct MemoryInfo {
    pub free: u64,
    pub total: u64,
    pub used: u64,
}

#[derive(Clone, Debug)]
pub struct DeviceState {
    pub name: String,
    pub driver_version: String,
    pub cuda_driver_version: CudaDriverVersion,
    pub temperature: u32,
    pub mem_info: MemoryInfo,
    pub fan_speeds: Vec<u32>,
    pub power_usage: u32,
}

/// Histories of temperature (degrees), memory use (MB) and power (W), with
/// the upper ends of their charts.
pub struct DeviceStatsPlot {
    pub temperature_vals: MetricHistory,
    pub max_temperature: u32,
    pub memory_usage_vals: MetricHistory,
    pub max_memory_usage: u64,
    pub power_usage_vals: MetricHistory,
    pub max_power_usage: u32,
}

impl DeviceStatsPlot {
    pub open spec fn wf(&self) -> bool {
        &&& self.temperature_vals.wf()
        &&& self.memory_usage_vals.wf()
        &&& self.power_usage_vals.wf()
    }

    pub fn set_max_memory_usage(&mut self, max_memory_usage: u64)
        ensures
            final(self).max_memory_usage == max_memory_usage,
            final(self).max_temperature == old(self).max_temperature,
            final(self).max_power_usage == old(self).max_power_usage,
            final(self).temperature_vals@ == old(self).temperature_vals@,
            final(self).memory_usage_vals@ == old(self).memory_usage_vals@,
            final(self).power_usage_vals@ == old(self).power_usage_vals@,
            final(self).wf() == old(self).wf(),
    {
        self.max_memory_usage = max_memory_usage;
    }

    /// Appends one reading to each history: temperature in degrees, used
    /// memory in MB and power in W.
    pub fn record(&mut self, device: &DeviceState)
        requires
            old(self).wf(),
        ensures
            final(self).wf(),
            final(self).temperature_vals@ == pushed(
                old(self).temperature_vals@,
                device.temperature as u64,
            ),
            final(self).memory_usage_vals@ == pushed(
                old(self).memory_usage_vals@,
                device.mem_info.used / 1_000_000,
            ),
            final(self).power_usage_vals@ == pushed(
                old(self).power_usage_vals@,
                (device.power_usage / 1000) as u64,
            ),
            final(self).max_temperature == old(self).max_temperature,
            final(self).max_memory_usage == old(self).max_memory_usage,
            final(self).max_power_usage == old(self).max_power_usage,
    {
        self.temperature_vals.push(device.temperature as u64);
        self.memory_usage_vals.push(device.mem_info.used / 1_000_000);
        self.power_usage_vals.push((device.power_usage / 1000) as u64);
    }
}

impl Default for DeviceStatsPlot {
    fn default() -> (r: Self)
        ensures
            r.wf(),
            r.temperature_vals@.len() == 0,
            r.memory_usage_vals@.len() == 0,
            r.power_usage_vals@.len() == 0,
            r.max_temperature == 100,
            r.max_memory_usage == 0,
            r.max_power_usage == 1000,
    {
        DeviceStatsPlot {
            temperature_vals: MetricHistory::new(),
            max_temperature: 100,
            memory_usage_vals: MetricHistory::new(),
            max_memory_usage: 0,
            power_usage_vals: MetricHistory::new(),
            max_power_usage: 1000,
        }
    }
}

pub struct DeviceView {
    pub device_stats_plot: DeviceStatsPlot,
}

impl Default for DeviceView {
    fn default() -> (r: Self)
        ensures
            r.device_stats_plot.wf(),
            r.device_stats_plot.temperature_vals@.len() == 0,
            r.device_stats_plot.memory_usage_vals@.len() == 0,
            r.device_stats_plot.power_usage_vals@.len() == 0,
            r.device_stats_plot.max_temperature == 100,
            r.device_stats_plot.max_memory_usage == 0,
            r.device_stats_plot.max_power_usage == 1000,
    {
        DeviceView { device_stats_plot: DeviceStatsPlot::default() }
    }
}

} // verus!
