//! Assembly of one consistent reading of the device from the results of
//! the individual queries.
use vstd::prelude::*;

use crate::device::{CudaDriverVersion, DeviceState, MemoryInfo};
use crate::process::{GpuMemory, ProcessData, ProcessKind};

verus! {

/// Why a device query failed.
#[derive(Clone, Copy, Debug, PartialEq, Eq, Structural)]
pub enum QueryError {
    /// The device fell off the bus or is otherwise inaccessible.
    GpuLost,
    /// The management library was not initialised.
    Uninitialized,
    /// The driver or the management library could not be loaded.
    DriverNotLoaded,
    /// The device does not support the query.
    NotSupported,
    /// The caller lacks the permission for the query.
    NoPermission,
    /// The query took too long.
    Timeout,
    /// Any other failure of a single query.
    Other,
}

/// Errors after which no further sample can succeed.
pub open spec fn is_fatal_spec(e: QueryError) -> bool {
    match e {
        QueryError::GpuLost | QueryError::Uninitialized | QueryError::DriverNotLoaded => true,
        _ => false,
    }
}

impl QueryError {
    pub fn is_fatal(&self) -> (r: bool)
        ensures
            r == is_fatal_spec(*self),
    {
        match self {
            QueryError::GpuLost | QueryError::Uninitialized | QueryError::DriverNotLoaded => true,
            _ => false,
        }
    }
}

/// A process as the device lists it, with its name when it could be resolved.
#[derive(Clone, Debug)]
pub struct RawProcess {
    pub pid: u32,
    pub used_gpu_memory: GpuMemory,
    pub name: Option<String>,
}

/// The results of every query that one sample makes.
pub struct DeviceReadings {
    pub name: Result<String, QueryError>,
    pub driver_version: Result<String, QueryError>,
    pub cuda_driver_version: Result<i32, QueryError>,
    pub temperature: Result<u32, QueryError>,
    pub mem_info: Result<MemoryInfo, QueryError>,
    pub power_usage: Result<u32, QueryError>,
    pub graphics_processes: Result<Vec<RawProcess>, QueryError>,
    pub compute_processes: Result<Vec<RawProcess>, QueryError>,
    pub fan_speeds: Vec<Result<u32, QueryError>>,
}

#[derive(Clone, Debug)]
pub struct ProcessState {
    pub processes: Vec<ProcessData>,
}

#[derive(Clone, Debug)]
pub struct SystemState {
    pub device_state: DeviceState,
    pub process_state: ProcessState,
}

/// The name shown for a process whose name could not be resolved.
pub open spec fn unknown_name() -> Seq<char> {
    "Unknown"@
}

/// The first failed device-attribute query, in the order they are made.
pub open spec fn first_error(r: DeviceReadings) -> Option<QueryError> {
    if r.name is Err {
        Some(r.name->Err_0)
    } else if r.driver_version is Err {
        Some(r.driver_version->Err_0)
    } else if r.cuda_driver_version is Err {
        Some(r.cuda_driver_version->Err_0)
    } else if r.temperature is Err {
        Some(r.temperature->Err_0)
    } else if r.mem_info is Err {
        Some(r.mem_info->Err_0)
    } else if r.power_usage is Err {
        Some(r.power_usage->Err_0)
    } else {
        None
    }
}

/// The processes a listing gave; a failed listing gives none.
pub open spec fn listed(l: Result<Vec<RawProcess>, QueryError>) -> Seq<RawProcess> {
    match l {
        Ok(v) => v@,
        Err(_) => Seq::empty(),
    }
}

/// `row` is the table row for `raw`, a process of kind `kind`.
pub open spec fn is_row_of(row: ProcessData, raw: RawProcess, kind: ProcessKind) -> bool {
    &&& row.pid == raw.pid
    &&& row.used_gpu_memory == raw.used_gpu_memory
    &&& row.process_kind == kind
    &&& row.process_name@ == match raw.name {
        Some(n) => n@,
        None => unknown_name(),
    }
}

/// `rows` are the rows for the graphics processes followed by those for the
/// compute processes.
pub open spec fn rows_of(rows: Seq<ProcessData>, graphics: Seq<RawProcess>, compute: Seq<RawProcess>) -> bool {
    &&& rows.len() == graphics.len() + compute.len()
    &&& forall|i: int|
        0 <= i < graphics.len() ==> is_row_of(#[trigger] rows[i], graphics[i], ProcessKind::Graphics)
    &&& forall|i: int|
        0 <= i < compute.len() ==> is_row_of(
            #[trigger] rows[graphics.len() + i],
            compute[i],
            ProcessKind::Compute,
        )
}

/// A fan speed as shown: a failed read shows as zero.
pub open spec fn fan_value(r: Result<u32, QueryError>) -> u32 {
    match r {
        Ok(v) => v,
        Err(_) => 0,
    }
}

fn append_rows(rows: &mut Vec<ProcessData>, listing: &Result<Vec<RawProcess>, QueryError>, kind: ProcessKind)
    ensures
        final(rows)@.len() == old(rows)@.len() + listed(*listing).len(),
        forall|i: int| 0 <= i < old(rows)@.len() ==> #[trigger] final(rows)@[i] == old(rows)@[i],
        forall|i: int|
            0 <= i < listed(*listing).len() ==> is_row_of(
                #[trigger] final(rows)@[old(rows)@.len() + i],
                listed(*listing)[i],
                kind,
            ),
{
    if let Ok(procs) = listing {
        let ghost start = rows@;
        let mut i: usize = 0;
        while i < procs.len()
            invariant
                i <= procs@.len(),
                procs@ == listed(*listing),
                rows@.len() == start.len() + i,
                forall|k: int| 0 <= k < start.len() ==> #[trigger] rows@[k] == start[k],
                forall|k: int|
                    0 <= k < i ==> is_row_of(#[trigger] rows@[start.len() + k], procs@[k], kind),
            decreases procs@.len() - i,
        {
            let raw = &procs[i];
            let process_name = match &raw.name {
                Some(n) => n.clone(),
                None => "Unknown".to_owned(),
            };
            rows.push(
                ProcessData {
                    pid: raw.pid,
                    used_gpu_memory: raw.used_gpu_memory,
                    process_kind: kind,
                    process_name,
                },
            );
            i = i + 1;
        }
    }
}

/// Builds one snapshot. It fails, with the first error, when any
/// device-attribute query failed; failed process listings and fan reads
/// only degrade their own part.
pub fn build_snapshot(readings: DeviceReadings) -> (r: Result<SystemState, QueryError>)
    ensures
        first_error(readings) is Some <==> r is Err,
        r is Err ==> r->Err_0 == first_error(readings)->Some_0,
        r is Ok ==> {
            let s = r->Ok_0;
            let d = s.device_state;
            &&& d.name == readings.name->Ok_0
            &&& d.driver_version == readings.driver_version->Ok_0
            &&& d.cuda_driver_version == (CudaDriverVersion {
                major: crate::device::trunc_div(readings.cuda_driver_version->Ok_0 as int, 1000) as i32,
                minor: crate::device::trunc_div(
                    readings.cuda_driver_version->Ok_0 - 1000 * crate::device::trunc_div(
                        readings.cuda_driver_version->Ok_0 as int,
                        1000,
                    ),
                    10,
                ) as i32,
            })
            &&& d.temperature == readings.temperature->Ok_0
            &&& d.mem_info == readings.mem_info->Ok_0
            &&& d.power_usage == readings.power_usage->Ok_0
            &&& d.fan_speeds@.len() == readings.fan_speeds@.len()
            &&& forall|i: int|
                0 <= i < d.fan_speeds@.len() ==> #[trigger] d.fan_speeds@[i] == fan_value(
                    readings.fan_speeds@[i],
                )
            &&& rows_of(
                s.process_state.processes@,
                listed(readings.graphics_processes),
                listed(readings.compute_processes),
            )
        },
{
    let name = match readings.name {
        Ok(v) => v,
        Err(e) => return Err(e),
    };
    let driver_version = match readings.driver_version {
        Ok(v) => v,
        Err(e) => return Err(e),
    };
    let cuda = match readings.cuda_driver_version {
        Ok(v) => v,
        Err(e) => return Err(e),
    };
    let temperature = match readings.temperature {
        Ok(v) => v,
        Err(e) => return Err(e),
    };
    let mem_info = match readings.mem_info {
        Ok(v) => v,
        Err(e) => return Err(e),
    };
    let power_usage = match readings.power_usage {
        Ok(v) => v,
        Err(e) => return Err(e),
    };
    let mut processes: Vec<ProcessData> = Vec::new();
    append_rows(&mut processes, &readings.graphics_processes, ProcessKind::Graphics);
    let ghost mid = processes@;
    let ghost graphics = listed(readings.graphics_processes);
    assert forall|i: int| 0 <= i < graphics.len() implies is_row_of(
        #[trigger] mid[i],
        graphics[i],
        ProcessKind::Graphics,
    ) by {
        assert(mid[0 + i] == mid[i]);
    }
    append_rows(&mut processes, &readings.compute_processes, ProcessKind::Compute);
    let mut fan_speeds: Vec<u32> = Vec::new();
    let mut i: usize = 0;
    while i < readings.fan_speeds.len()
        invariant
            i <= readings.fan_speeds@.len(),
            fan_speeds@.len() == i,
            forall|k: int| 0 <= k < i ==> #[trigger] fan_speeds@[k] == fan_value(readings.fan_speeds@[k]),
        decreases readings.fan_speeds@.len() - i,
    {
        let speed = match &readings.fan_speeds[i] {
            Ok(v) => *v,
            Err(_) => 0,
        };
        fan_speeds.push(speed);
        i = i + 1;
    }
    let device_state = DeviceState {
        name,
        driver_version,
        cuda_driver_version: CudaDriverVersion::from_raw(cuda),
        temperature,
        mem_info,
        fan_speeds,
        power_usage,
    };
    Ok(SystemState { device_state, process_state: ProcessState { processes } })
}

} // verus!
