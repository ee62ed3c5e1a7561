//! Job-shaped views: queue/accounting records, live step statistics, and job
//! steps.
use vstd::prelude::*;

use crate::state::JobState;
use crate::text::{decimal, decimal_string, same_text};
use crate::util::{div_toward_zero, duration_secs, minutes, seconds, ts_secs};
use crate::wire::{DeviceGroup, Duration, JobInfo, JobStepInfo, ResourceAllocations, Timestamp};

verus! {

/// Seconds of a present timestamp.
pub open spec fn time_secs(t: Option<Timestamp>) -> Option<i64> {
    match t {
        Some(t) => Some(t.seconds),
        None => None,
    }
}

/// Whole minutes of a present duration, rounded toward zero.
pub open spec fn duration_minutes(d: Option<Duration>) -> Option<i64> {
    match d {
        Some(d) => Some(div_toward_zero(d.seconds as int, 60) as i64),
        None => None,
    }
}

/// Seconds of a duration, zero when absent.
pub open spec fn duration_or_zero(d: Option<Duration>) -> i64 {
    match d {
        Some(d) => d.seconds,
        None => 0,
    }
}

/// The name published for a job state discriminant: the state's name, or
/// `UNKNOWN` for a discriminant no state has.
pub open spec fn job_state_text(state: i32) -> Seq<char> {
    match JobState::from_wire(state) {
        Some(s) => s.name(),
        None => "UNKNOWN"@,
    }
}

/// A job as published by `GET /jobs`, `squeue`, `sacct`, and
/// `scontrol show job`.
#[derive(Debug, Clone)]
pub struct JobView {
    pub job_id: u32,
    pub name: String,
    pub user_name: String,
    pub user_id: u32,
    pub partition: String,
    pub account: String,
    pub qos: String,
    pub job_state: String,
    pub state_reason: String,
    pub submit_time: Option<i64>,
    pub start_time: Option<i64>,
    pub end_time: Option<i64>,
    /// Wall-clock limit in minutes. `None` means unlimited.
    pub time_limit: Option<i64>,
    pub run_time: i64,
    pub node_count: u32,
    pub tasks: u32,
    pub cpus_per_task: u32,
    pub nodes: String,
    pub current_working_directory: String,
    pub command: String,
    pub standard_output: String,
    pub standard_error: String,
    pub standard_input: String,
    pub exit_code: i32,
    pub exit_signal: i32,
    pub derived_exit_code: i32,
    pub priority: u32,
    pub reservation: String,
    pub comment: String,
    pub array_job_id: u32,
    pub array_task_id: u32,
    pub requested_gpus: u32,
    pub requested_gpus_detail: String,
}

impl JobView {
    /// Whether this view publishes `job`: every field copied or converted
    /// from the record.
    pub open spec fn shows(self, job: JobInfo) -> bool {
        &&& self.job_id == job.job_id
        &&& self.name@ == job.name@
        &&& self.user_name@ == job.user@
        &&& self.user_id == job.uid
        &&& self.partition@ == job.partition@
        &&& self.account@ == job.account@
        &&& self.qos@ == job.qos@
        &&& self.job_state@ == job_state_text(job.state)
        &&& self.state_reason@ == job.state_reason@
        &&& self.submit_time == time_secs(job.submit_time)
        &&& self.start_time == time_secs(job.start_time)
        &&& self.end_time == time_secs(job.end_time)
        &&& self.time_limit == duration_minutes(job.time_limit)
        &&& self.run_time == duration_or_zero(job.run_time)
        &&& self.node_count == job.num_nodes
        &&& self.tasks == job.num_tasks
        &&& self.cpus_per_task == job.cpus_per_task
        &&& self.nodes@ == job.nodelist@
        &&& self.current_working_directory@ == job.work_dir@
        &&& self.command@ == job.command@
        &&& self.standard_output@ == job.stdout_path@
        &&& self.standard_error@ == job.stderr_path@
        &&& self.standard_input@ == job.stdin_path@
        &&& self.exit_code == job.exit_code
        &&& self.exit_signal == job.exit_signal
        &&& self.derived_exit_code == job.derived_exit_code
        &&& self.priority == job.priority
        &&& self.reservation@ == job.reservation@
        &&& self.comment@ == job.comment@
        &&& self.array_job_id == job.array_job_id
        &&& self.array_task_id == job.array_task_id
        &&& self.requested_gpus == job.req_gpus
        &&& self.requested_gpus_detail@ == job.req_gpus_detail@
    }

    pub fn from(job: &JobInfo) -> (r: JobView)
        ensures
            r.shows(*job),
    {
        JobView {
            job_id: job.job_id,
            name: job.name.clone(),
            user_name: job.user.clone(),
            user_id: job.uid,
            partition: job.partition.clone(),
            account: job.account.clone(),
            qos: job.qos.clone(),
            job_state: job_state_name(job.state),
            state_reason: job.state_reason.clone(),
            submit_time: ts_secs(job.submit_time.as_ref()),
            start_time: ts_secs(job.start_time.as_ref()),
            end_time: ts_secs(job.end_time.as_ref()),
            time_limit: minutes(job.time_limit.as_ref()),
            run_time: duration_secs(job.run_time.as_ref()),
            node_count: job.num_nodes,
            tasks: job.num_tasks,
            cpus_per_task: job.cpus_per_task,
            nodes: job.nodelist.clone(),
            current_working_directory: job.work_dir.clone(),
            command: job.command.clone(),
            standard_output: job.stdout_path.clone(),
            standard_error: job.stderr_path.clone(),
            standard_input: job.stdin_path.clone(),
            exit_code: job.exit_code,
            exit_signal: job.exit_signal,
            derived_exit_code: job.derived_exit_code,
            priority: job.priority,
            reservation: job.reservation.clone(),
            comment: job.comment.clone(),
            array_job_id: job.array_job_id,
            array_task_id: job.array_task_id,
            requested_gpus: job.req_gpus,
            requested_gpus_detail: job.req_gpus_detail.clone(),
        }
    }
}

/// The devices of the first group of kind `kind`; the kinds are map keys, so
/// there is at most one such group.
pub open spec fn devices_of_kind(groups: Seq<DeviceGroup>, kind: Seq<char>) -> Option<Seq<u32>>
    decreases groups.len(),
{
    if groups.len() == 0 {
        None
    } else if groups[0].kind@ == kind {
        Some(groups[0].devices@)
    } else {
        devices_of_kind(groups.drop_first(), kind)
    }
}

/// Whether no device kind occurs twice in `groups`: the kinds are the keys of
/// the map the groups come from.
pub open spec fn kinds_distinct(groups: Seq<DeviceGroup>) -> bool {
    forall|i: int, j: int|
        0 <= i < j < groups.len() ==> (#[trigger] groups[i]).kind@ != (#[trigger] groups[j]).kind@
}

/// With distinct kinds the groups act as a map: looking a kind up gives the
/// devices of the one group of that kind, and nothing when no group has it.
pub proof fn device_lookup_by_kind(groups: Seq<DeviceGroup>, kind: Seq<char>)
    requires
        kinds_distinct(groups),
    ensures
        forall|i: int|
            0 <= i < groups.len() && (#[trigger] groups[i]).kind@ == kind ==> devices_of_kind(
                groups,
                kind,
            ) == Some(groups[i].devices@),
        (forall|i: int| 0 <= i < groups.len() ==> (#[trigger] groups[i]).kind@ != kind)
            ==> devices_of_kind(groups, kind) is None,
    decreases groups.len(),
{
    if groups.len() > 0 {
        let rest = groups.drop_first();
        assert forall|i: int, j: int| 0 <= i < j < rest.len() implies (#[trigger] rest[i]).kind@
            != (#[trigger] rest[j]).kind@ by {
            assert(rest[i] == groups[i + 1] && rest[j] == groups[j + 1]);
        }
        device_lookup_by_kind(rest, kind);
        assert forall|i: int|
            0 <= i < groups.len() && (#[trigger] groups[i]).kind@ == kind implies devices_of_kind(
            groups,
            kind,
        ) == Some(groups[i].devices@) by {
            if i > 0 {
                assert(groups[0].kind@ != groups[i].kind@);
                assert(rest[i - 1] == groups[i]);
            }
        }
        if forall|i: int| 0 <= i < groups.len() ==> (#[trigger] groups[i]).kind@ != kind {
            assert(groups[0].kind@ != kind);
            assert forall|i: int| 0 <= i < rest.len() implies (#[trigger] rest[i]).kind@ != kind by {
                assert(rest[i] == groups[i + 1]);
            }
        }
    }
}

/// Number of GPUs in an allocation: the devices under the `gpu` kind, zero
/// when there is no allocation or no such kind.
pub open spec fn gpu_count(res: Option<ResourceAllocations>) -> nat {
    match res {
        Some(r) => match devices_of_kind(r.devices@, "gpu"@) {
            Some(d) => d.len(),
            None => 0,
        },
        None => 0,
    }
}

/// Number of devices under the `gpu` kind of `groups`.
fn gpu_devices(groups: &Vec<DeviceGroup>) -> (r: usize)
    ensures
        r == (match devices_of_kind(groups@, "gpu"@) {
            Some(d) => d.len(),
            None => 0,
        }),
{
    let mut i: usize = 0;
    assert(groups@.skip(0) == groups@);
    while i < groups.len()
        invariant
            i <= groups.len(),
            devices_of_kind(groups@, "gpu"@) == devices_of_kind(groups@.skip(i as int), "gpu"@),
        decreases groups.len() - i,
    {
        assert(groups@.skip(i as int)[0] == groups@[i as int]);
        assert(groups@.skip(i as int).drop_first() == groups@.skip(i + 1));
        if same_text(groups[i].kind.as_str(), "gpu") {
            return groups[i].devices.len();
        }
        i = i + 1;
    }
    0
}

/// Total CPUs of a job: tasks times CPUs per task, a task having at least one.
pub open spec fn job_cpus(job: JobInfo) -> int {
    job.num_tasks * (if job.cpus_per_task > 1 { job.cpus_per_task as int } else { 1 })
}

/// Live resource usage for a running job, as reported by `sstat`.
///
/// The `ave_*`/`max_*` counters require per-process sampling on the agents,
/// which Spur does not collect yet; they are `None` rather than the `"N/A"`
/// placeholder the text renderer prints.
#[derive(Debug, Clone)]
pub struct JobStatisticsView {
    pub job_id: u32,
    pub job_state: String,
    pub elapsed: i64,
    pub tasks: u32,
    pub cpus: u32,
    pub memory_allocated_mb: u64,
    pub gpus_allocated: usize,
    pub nodes: String,
    pub ave_rss: Option<u64>,
    pub ave_vm_size: Option<u64>,
    pub max_rss: Option<u64>,
    pub max_vm_size: Option<u64>,
}

impl JobStatisticsView {
    /// Whether this view reports the live usage of `job`.
    pub open spec fn shows(self, job: JobInfo) -> bool {
        &&& self.job_id == job.job_id
        &&& self.job_state@ == job_state_text(job.state)
        &&& self.elapsed == duration_or_zero(job.run_time)
        &&& self.tasks == job.num_tasks
        &&& self.cpus == job_cpus(job)
        &&& self.memory_allocated_mb == (match job.resources {
            Some(r) => r.memory_mb,
            None => 0,
        })
        &&& self.gpus_allocated == gpu_count(job.resources)
        &&& self.nodes@ == job.nodelist@
        &&& self.ave_rss is None
        &&& self.ave_vm_size is None
        &&& self.max_rss is None
        &&& self.max_vm_size is None
    }

    /// The statistics of `job`; its CPU total must fit the field.
    pub fn from(job: &JobInfo) -> (r: JobStatisticsView)
        requires
            job_cpus(*job) <= u32::MAX,
        ensures
            r.shows(*job),
    {
        let per_task = if job.cpus_per_task > 1 {
            job.cpus_per_task
        } else {
            1
        };
        let (memory, gpus) = match &job.resources {
            Some(r) => (r.memory_mb, gpu_devices(&r.devices)),
            None => (0, 0),
        };
        JobStatisticsView {
            job_id: job.job_id,
            job_state: job_state_name(job.state),
            elapsed: duration_secs(job.run_time.as_ref()),
            tasks: job.num_tasks,
            cpus: job.num_tasks * per_task,
            memory_allocated_mb: memory,
            gpus_allocated: gpus,
            nodes: job.nodelist.clone(),
            ave_rss: None,
            ave_vm_size: None,
            max_rss: None,
            max_vm_size: None,
        }
    }
}

#[derive(Debug, Clone)]
pub struct StepView {
    pub job_id: u32,
    pub step_id: u32,
    /// `batch`, `extern`, or the numeric step ID, matching `scontrol show steps`.
    pub step_name: String,
    pub name: String,
    pub state: String,
    pub tasks: u32,
}

/// Slurm's sentinel step IDs for the implicit batch and extern steps.
pub const STEP_ID_BATCH: u32 = 0xFFFF_FFFE;

pub const STEP_ID_EXTERN: u32 = 0xFFFF_FFFD;

/// How Slurm names a step ID: `batch` and `extern` for the implicit steps,
/// the decimal number otherwise.
pub open spec fn step_label(step_id: u32) -> Seq<char> {
    if step_id == STEP_ID_BATCH {
        "batch"@
    } else if step_id == STEP_ID_EXTERN {
        "extern"@
    } else {
        decimal(step_id as nat)
    }
}

/// Render a step ID the way Slurm names it: the implicit batch and extern steps
/// get names rather than their sentinel numbers.
pub fn step_id_label(step_id: u32) -> (r: String)
    ensures
        r@ == step_label(step_id),
{
    if step_id == STEP_ID_BATCH {
        String::from_str("batch")
    } else if step_id == STEP_ID_EXTERN {
        String::from_str("extern")
    } else {
        decimal_string(step_id as u64)
    }
}

impl StepView {
    /// Whether this view publishes `step`.
    pub open spec fn shows(self, step: JobStepInfo) -> bool {
        &&& self.job_id == step.job_id
        &&& self.step_id == step.step_id
        &&& self.step_name@ == step_label(step.step_id)
        &&& self.name@ == step.name@
        &&& self.state@ == step.state@
        &&& self.tasks == step.num_tasks
    }

    pub fn from(step: &JobStepInfo) -> (r: StepView)
        ensures
            r.shows(*step),
    {
        StepView {
            job_id: step.job_id,
            step_id: step.step_id,
            step_name: step_id_label(step.step_id),
            name: step.name.clone(),
            state: step.state.clone(),
            tasks: step.num_tasks,
        }
    }
}

/// The published name of a job state discriminant; `UNKNOWN` when no state
/// has it.
pub fn job_state_name(state: i32) -> (r: String)
    ensures
        r@ == job_state_text(state),
{
    match JobState::from_proto_i32(state) {
        Some(s) => String::from_str(s.display()),
        None => String::from_str("UNKNOWN"),
    }
}

/// A job's wall-clock limit in seconds, for callers that need it alongside the
/// minute-granularity view field.
pub fn time_limit_seconds(job: &JobInfo) -> (r: Option<i64>)
    ensures
        r == (match job.time_limit {
            Some(d) => Some(d.seconds),
            None => None,
        }),
{
    seconds(job.time_limit.as_ref())
}

/// The batch and extern steps get their names; any other step ID is printed
/// as its number, so distinct step IDs always get distinct labels.
pub proof fn step_labels_are_distinct(a: u32, b: u32)
    requires
        a != b,
    ensures
        step_label(a) != step_label(b),
{
    reveal_strlit("batch");
    reveal_strlit("extern");
    if a != STEP_ID_BATCH && a != STEP_ID_EXTERN && b != STEP_ID_BATCH && b != STEP_ID_EXTERN {
        crate::text::lemma_decimal_injective(a as nat, b as nat);
    } else {
        if a != STEP_ID_BATCH && a != STEP_ID_EXTERN {
            crate::text::lemma_decimal_digits(a as nat);
            assert(!crate::text::is_digit(step_label(b)[0]));
            assert(crate::text::is_digit(step_label(a)[0]));
        }
        if b != STEP_ID_BATCH && b != STEP_ID_EXTERN {
            crate::text::lemma_decimal_digits(b as nat);
            assert(!crate::text::is_digit(step_label(a)[0]));
            assert(crate::text::is_digit(step_label(b)[0]));
        }
    }
}

/// A published job view carries each field of the job record under its
/// published name: identity, owner and placement, the state's published name,
/// the submit, start and end times in seconds, the time limit in whole
/// minutes, the run time in seconds (zero when absent), the size, the
/// working directory and command, the standard output, error and input paths,
/// the exit status, priority, reservation, comment, array position and GPU
/// request.
pub proof fn job_view_carries_the_record(v: JobView, job: JobInfo)
    requires
        v.shows(job),
    ensures
        v.job_id == job.job_id,
        v.name@ == job.name@,
        v.user_name@ == job.user@,
        v.user_id == job.uid,
        v.partition@ == job.partition@,
        v.account@ == job.account@,
        v.qos@ == job.qos@,
        v.job_state@ == (match JobState::from_wire(job.state) {
            Some(st) => st.name(),
            None => "UNKNOWN"@,
        }),
        v.state_reason@ == job.state_reason@,
        v.submit_time == (match job.submit_time {
            Some(t) => Some(t.seconds),
            None => None,
        }),
        v.start_time == (match job.start_time {
            Some(t) => Some(t.seconds),
            None => None,
        }),
        v.end_time == (match job.end_time {
            Some(t) => Some(t.seconds),
            None => None,
        }),
        v.time_limit == (match job.time_limit {
            Some(d) => Some(div_toward_zero(d.seconds as int, 60) as i64),
            None => None,
        }),
        v.run_time == (match job.run_time {
            Some(d) => d.seconds,
            None => 0,
        }),
        v.node_count == job.num_nodes,
        v.tasks == job.num_tasks,
        v.cpus_per_task == job.cpus_per_task,
        v.nodes@ == job.nodelist@,
        v.current_working_directory@ == job.work_dir@,
        v.command@ == job.command@,
        v.standard_output@ == job.stdout_path@,
        v.standard_error@ == job.stderr_path@,
        v.standard_input@ == job.stdin_path@,
        v.exit_code == job.exit_code,
        v.exit_signal == job.exit_signal,
        v.derived_exit_code == job.derived_exit_code,
        v.priority == job.priority,
        v.reservation@ == job.reservation@,
        v.comment@ == job.comment@,
        v.array_job_id == job.array_job_id,
        v.array_task_id == job.array_task_id,
        v.requested_gpus == job.req_gpus,
        v.requested_gpus_detail@ == job.req_gpus_detail@,
{
}

/// The statistics of a job carry its ID, its state's published name, its run
/// time in seconds (zero when absent), its task count, tasks times CPUs per
/// task (at least one each), its allocated memory and GPUs (zero without an
/// allocation) and its node list; the counters nobody samples are absent.
pub proof fn job_statistics_carry_the_record(v: JobStatisticsView, job: JobInfo)
    requires
        v.shows(job),
    ensures
        v.job_id == job.job_id,
        v.job_state@ == (match JobState::from_wire(job.state) {
            Some(st) => st.name(),
            None => "UNKNOWN"@,
        }),
        v.elapsed == (match job.run_time {
            Some(d) => d.seconds,
            None => 0,
        }),
        v.tasks == job.num_tasks,
        v.cpus == job.num_tasks * (if job.cpus_per_task > 1 {
            job.cpus_per_task as int
        } else {
            1
        }),
        v.memory_allocated_mb == (match job.resources {
            Some(r) => r.memory_mb,
            None => 0,
        }),
        job.resources is None ==> v.gpus_allocated == 0,
        job.resources matches Some(r) ==> v.gpus_allocated == (match devices_of_kind(
            r.devices@,
            "gpu"@,
        ) {
            Some(d) => d.len(),
            None => 0,
        }),
        v.nodes@ == job.nodelist@,
        v.ave_rss is None,
        v.ave_vm_size is None,
        v.max_rss is None,
        v.max_vm_size is None,
{
}

/// A step view carries the step's job and step IDs, its label, name, state
/// and task count.
pub proof fn step_view_carries_the_record(v: StepView, step: JobStepInfo)
    requires
        v.shows(step),
    ensures
        v.job_id == step.job_id,
        v.step_id == step.step_id,
        v.step_name@ == step_label(step.step_id),
        v.name@ == step.name@,
        v.state@ == step.state@,
        v.tasks == step.num_tasks,
{
}

/// The implicit batch and extern steps are named `batch` and `extern`; every
/// other step is named by its number in decimal.
pub proof fn step_labels_name_the_implicit_steps(step_id: u32)
    ensures
        step_id == 0xFFFF_FFFEu32 ==> step_label(step_id) == "batch"@,
        step_id == 0xFFFF_FFFDu32 ==> step_label(step_id) == "extern"@,
        step_id != 0xFFFF_FFFEu32 && step_id != 0xFFFF_FFFDu32 ==> step_label(step_id) == decimal(
            step_id as nat,
        ),
{
}

} // verus!
