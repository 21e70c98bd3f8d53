//! The shapes of control-plane responses, and the summaries they carry.

use vstd::prelude::*;
use vstd::string::StringExecFns;
use crate::config::ServiceConfig;
use crate::instance::{Instance, InstanceStatus, count_running, status_name};
use crate::text::{decimal, push_decimal};

verus! {

/// A response body: status 1 with data on success, status 0 with one error
/// message on failure.
#[derive(Debug)]
pub struct ApiResponse<T> {
    pub status: i32,
    pub data: Option<T>,
    pub errors: Vec<String>,
}

impl<T> ApiResponse<T> {
    /// A successful response carrying `data`.
    pub fn success(data: T) -> (r: Self)
        ensures
            r.status == 1,
            r.data == Some(data),
            r.errors@.len() == 0,
    {
        ApiResponse { status: 1, data: Some(data), errors: Vec::new() }
    }

    /// A failed response carrying `message`.
    pub fn error(message: &str) -> (r: ApiResponse<()>)
        ensures
            r.status == 0,
            r.data is None,
            r.errors@.len() == 1,
            r.errors@[0]@ == message@,
    {
        let mut errors: Vec<String> = Vec::new();
        errors.push(message.to_owned());
        ApiResponse { status: 0, data: None, errors }
    }
}

/// Summary of the whole service.
#[derive(Debug, Clone)]
pub struct ServiceStatus {
    pub service_status: String,
    pub instances_running: usize,
    pub instances_total: usize,
    /// Resident memory of all instances together, in whole MB.
    pub memory_usage_mb: u64,
    /// The user port range, as `start-end`.
    pub port_range: String,
}

/// Summary of one instance.
#[derive(Debug, Clone)]
pub struct InstanceStatusResponse {
    pub username: String,
    pub status: String,
    pub port: u16,
    /// Resident memory in whole MB.
    pub memory_usage_mb: u64,
    /// CPU use in hundredths of a percent.
    pub cpu_usage: u32,
    pub app_count: u32,
}

impl InstanceStatusResponse {
    /// The summary of `instance`.
    pub fn from_instance(instance: &Instance) -> (r: Self)
        ensures
            r.username@ == instance.username@,
            r.status@ == status_name(instance.status),
            r.port == instance.port,
            r.memory_usage_mb == instance.memory_usage / 1048576,
            r.cpu_usage == instance.cpu_usage,
            r.app_count == instance.app_count,
    {
        InstanceStatusResponse {
            username: instance.username.clone(),
            status: String::from_str(instance.status.as_str()),
            port: instance.port,
            memory_usage_mb: instance.memory_usage / 1048576,
            cpu_usage: instance.cpu_usage,
            app_count: instance.app_count,
        }
    }
}

/// Total resident memory of the instances, saturating at `u64::MAX`.
pub open spec fn memory_total(s: Seq<Instance>) -> u64
    decreases s.len(),
{
    if s.len() == 0 {
        0
    } else {
        let t = memory_total(s.drop_last());
        if t as int + s.last().memory_usage as int > u64::MAX {
            u64::MAX
        } else {
            (t + s.last().memory_usage) as u64
        }
    }
}

/// The `start-end` text of a port range.
pub open spec fn range_text(start: u16, end: u16) -> Seq<char> {
    decimal(start as nat) + "-"@ + decimal(end as nat)
}

/// The summary of the service: whether it runs, how many instances run of
/// how many, their memory, and the user port range.
pub fn service_status(running: bool, instances: &Vec<Instance>, service: &ServiceConfig) -> (r: ServiceStatus)
    ensures
        r.service_status@ == if running {
            "running"@
        } else {
            "stopped"@
        },
        r.instances_running == count_running(instances@),
        r.instances_total == instances@.len(),
        r.memory_usage_mb == memory_total(instances@) / 1048576,
        r.port_range@ == range_text(service.port_range_start, service.port_range_end),
{
    proof {
        reveal_strlit("running");
        reveal_strlit("stopped");
        reveal_strlit("-");
    }
    let mut total: u64 = 0;
    let mut running_count: usize = 0;
    let mut i: usize = 0;
    while i < instances.len()
        invariant
            i <= instances@.len(),
            total == memory_total(instances@.subrange(0, i as int)),
            running_count == count_running(instances@.subrange(0, i as int)),
            running_count <= i,
        decreases instances@.len() - i,
    {
        proof {
            assert(instances@.subrange(0, i + 1).drop_last() =~= instances@.subrange(0, i as int));
        }
        let m = instances[i].memory_usage;
        total = if total > u64::MAX - m {
            u64::MAX
        } else {
            total + m
        };
        if instances[i].status == InstanceStatus::Running {
            running_count = running_count + 1;
        }
        i = i + 1;
    }
    assert(instances@.subrange(0, i as int) =~= instances@);
    let mut range = String::new();
    push_decimal(&mut range, service.port_range_start as u64);
    range.append("-");
    push_decimal(&mut range, service.port_range_end as u64);
    assert(range@ =~= range_text(service.port_range_start, service.port_range_end));
    ServiceStatus {
        service_status: String::from_str(if running {
            "running"
        } else {
            "stopped"
        }),
        instances_running: running_count,
        instances_total: instances.len(),
        memory_usage_mb: total / 1048576,
        port_range: range,
    }
}

/// The last `n` of `lines`, in order: all of them when there are fewer.
pub fn last_lines(lines: Vec<String>, n: usize) -> (r: Vec<String>)
    ensures
        r@ == if lines@.len() > n {
            lines@.subrange(lines@.len() - n, lines@.len() as int)
        } else {
            lines@
        },
{
    if lines.len() <= n {
        return lines;
    }
    let start = lines.len() - n;
    let mut out: Vec<String> = Vec::new();
    let mut i: usize = start;
    while i < lines.len()
        invariant
            start <= i <= lines@.len(),
            out@ == lines@.subrange(start as int, i as int),
        decreases lines@.len() - i,
    {
        out.push(lines[i].clone());
        i = i + 1;
        assert(out@ =~= lines@.subrange(start as int, i as int));
    }
    out
}

} // verus!
