//! The controller's wire messages, as plain values.
//!
//! These are the records that the views are built from: what the controller
//! sends over gRPC, with well-known protobuf types (`Timestamp`, `Duration`)
//! reduced to their two integer fields and protobuf maps kept as lists of
//! entries.
use vstd::prelude::*;

verus! {

/// A point in time: seconds since the UNIX epoch and a nanosecond offset.
#[derive(Debug, Clone, Copy, PartialEq, Eq, Default)]
pub struct Timestamp {
    pub seconds: i64,
    pub nanos: i32,
}

/// A signed span of time in seconds and nanoseconds.
#[derive(Debug, Clone, Copy, PartialEq, Eq, Default)]
pub struct Duration {
    pub seconds: i64,
    pub nanos: i32,
}

/// Devices of one kind (`"gpu"`, ...) allocated to a job.
#[derive(Debug, Clone, Default)]
pub struct DeviceGroup {
    pub kind: String,
    pub devices: Vec<u32>,
}

/// Resources allocated to a job or on a node.
#[derive(Debug, Clone, Default)]
pub struct ResourceAllocations {
    pub cpus: u32,
    pub memory_mb: u64,
    /// One entry per device kind; the kinds are the keys of a map, so none
    /// occurs twice (`crate::job::kinds_distinct`).
    pub devices: Vec<DeviceGroup>,
}

/// One GPU of a node.
#[derive(Debug, Clone, Default)]
pub struct GpuResource {
    pub device_id: u32,
    pub gpu_type: String,
    pub memory_mb: u64,
}

/// A node's total capacity.
#[derive(Debug, Clone, Default)]
pub struct ResourceSet {
    pub cpus: u32,
    pub memory_mb: u64,
    pub gpus: Vec<GpuResource>,
}

#[derive(Debug, Clone, Default)]
pub struct JobInfo {
    pub job_id: u32,
    pub name: String,
    pub user: String,
    pub uid: u32,
    pub partition: String,
    pub account: String,
    pub qos: String,
    /// Wire discriminant of the job's state.
    pub state: i32,
    pub state_reason: String,
    pub submit_time: Option<Timestamp>,
    pub start_time: Option<Timestamp>,
    pub end_time: Option<Timestamp>,
    pub time_limit: Option<Duration>,
    pub run_time: Option<Duration>,
    pub num_nodes: u32,
    pub num_tasks: u32,
    pub cpus_per_task: u32,
    pub nodelist: String,
    pub work_dir: String,
    pub command: String,
    pub stdout_path: String,
    pub stderr_path: String,
    pub stdin_path: String,
    pub exit_code: i32,
    pub exit_signal: i32,
    pub derived_exit_code: i32,
    pub priority: u32,
    pub reservation: String,
    pub comment: String,
    pub array_job_id: u32,
    pub array_task_id: u32,
    pub req_gpus: u32,
    pub req_gpus_detail: String,
    pub resources: Option<ResourceAllocations>,
}

#[derive(Debug, Clone, Default)]
pub struct JobStepInfo {
    pub job_id: u32,
    pub step_id: u32,
    pub name: String,
    pub state: String,
    pub num_tasks: u32,
}

#[derive(Debug, Clone, Default)]
pub struct NodeInfo {
    pub name: String,
    /// Wire discriminant of the node's state.
    pub state: i32,
    pub state_reason: String,
    pub partitions: Vec<String>,
    pub total_resources: Option<ResourceSet>,
    pub alloc_resources: Option<ResourceAllocations>,
    pub free_memory_mb: u64,
    pub cpu_load: u32,
    pub arch: String,
    pub os: String,
    pub features: Vec<String>,
    pub boot_time: Option<Timestamp>,
    pub last_busy: Option<Timestamp>,
    pub active_reservation: String,
}

#[derive(Debug, Clone, Default)]
pub struct PartitionInfo {
    pub name: String,
    pub state: String,
    pub is_default: bool,
    pub total_nodes: u32,
    pub total_cpus: u32,
    pub nodes: String,
    pub max_time: Option<Duration>,
    pub default_time: Option<Duration>,
    pub max_nodes: u32,
    pub min_nodes: u32,
    pub priority_tier: u32,
    pub preempt_mode: String,
    pub allow_root: bool,
    pub exclusive_user: bool,
    /// Comma-joined account names.
    pub allow_accounts: String,
    pub deny_accounts: String,
    pub allow_groups: String,
    pub allow_qos: String,
}

#[derive(Debug, Clone, Default)]
pub struct ReservationInfo {
    pub name: String,
    pub start_time: String,
    pub end_time: String,
    pub nodes: String,
    pub state: String,
    /// Comma-joined flag names.
    pub flags: String,
    pub accounts: String,
    pub users: String,
    pub owner: String,
}

#[derive(Debug, Clone, Default)]
pub struct PingResponse {
    pub hostname: String,
    pub version: String,
    pub server_time: Option<Timestamp>,
    pub federation_peers: Vec<String>,
}

/// Number of jobs in one state, keyed by the state's wire discriminant.
#[derive(Debug, Clone, Copy, Default)]
pub struct JobStateCount {
    pub state: i32,
    pub count: u64,
}

#[derive(Debug, Clone, Default)]
pub struct JobMetrics {
    pub total: u64,
    pub by_state: Vec<JobStateCount>,
    pub held_pending: u64,
    pub running_cpus: u64,
    pub running_memory_bytes: u64,
    pub running_gpus: u64,
}

/// Number of nodes in one state, keyed by the state's wire discriminant.
#[derive(Debug, Clone, Copy, Default)]
pub struct NodeStateCount {
    pub state: i32,
    pub count: u64,
}

#[derive(Debug, Clone, Default)]
pub struct NodeMetrics {
    pub total: u64,
    pub by_state: Vec<NodeStateCount>,
    pub total_cpus: u64,
    pub alloc_cpus: u64,
    pub total_memory_bytes: u64,
    pub alloc_memory_bytes: u64,
    pub total_gpus: u64,
    pub alloc_gpus: u64,
}

#[derive(Debug, Clone, Default)]
pub struct SchedStats {
    pub plugin: String,
    pub cycles: u64,
    pub cycle_last_time_us: u64,
    pub cycle_total_time_us: u64,
    pub cycle_avg_time_us: u64,
    pub schedule_last_time_us: u64,
    pub schedule_total_time_us: u64,
    pub schedule_avg_time_us: u64,
    pub jobs_submitted: u64,
    pub jobs_started: u64,
    pub jobs_finalized: u64,
    pub jobs_started_last_cycle: u64,
    pub exit_end: u64,
    pub exit_max_depth: u64,
}

#[derive(Debug, Clone, Default)]
pub struct RpcOperationStats {
    pub operation: String,
    pub count: u64,
    pub total_time_us: u64,
    pub avg_time_us: u64,
}

#[derive(Debug, Clone, Default)]
pub struct RpcStats {
    pub by_operation: Vec<RpcOperationStats>,
}

} // verus!

verus! {

/// A query for jobs, every filter optional (empty means any).
#[derive(Debug, Clone, Default)]
pub struct GetJobsRequest {
    /// Wire discriminants of the states to include.
    pub states: Vec<i32>,
    pub user: String,
    pub partition: String,
    pub account: String,
    pub job_ids: Vec<u32>,
    pub name: String,
}

} // verus!
