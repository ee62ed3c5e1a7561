//! `sdiag`: controller diagnostics as a structured document or as text.
use vstd::prelude::*;

use crate::bytes::{bytes_text, format_bytes};
use crate::diag::{
    active_jobs, active_total, finished_jobs, finished_total, job_count, jobs_in, node_count,
    nodes_in, rpc_statistics, rpc_view, by_total_descending, DiagnosticsView, JobStatisticsSummary,
    NodeStatisticsSummary, RpcStatisticsView, SchedulerStatisticsView, ServerView,
};
use crate::output::OutputArgs;
use crate::state::{all_job_states, all_node_states, JobState, NodeState};
use crate::text::{
    align_left, align_right, decimal, join, join_strings, labeled_number, labeled_text,
    left_aligned, push_decimal, push_line, right_aligned, decimal_string,
};
use crate::wire::{JobMetrics, NodeMetrics, PingResponse, RpcOperationStats, RpcStats, SchedStats};

verus! {

/// Options of `sdiag`.
#[derive(Debug, Clone)]
pub struct SdiagArgs {
    /// Don't print header
    pub noheader: bool,
    /// Reset accumulated statistics counters on the controller
    pub reset: bool,
    pub output: OutputArgs,
    /// Controller address
    pub controller: String,
}

/// chrono's rendering, `%Y-%m-%dT%H:%M:%S`, of the UTC time `secs` seconds
/// and `nanos` nanoseconds after the epoch; of the epoch itself when chrono
/// has no such time.
pub uninterp spec fn utc_text(secs: i64, nanos: u32) -> Seq<char>;

/// Renders a UTC time with `chrono::DateTime::from_timestamp` and
/// `format("%Y-%m-%dT%H:%M:%S")`, falling back to the epoch when
/// `from_timestamp` has no such time. The contract claims only that the text
/// is a function of the two arguments (`utc_text`); what chrono prints is not
/// restated.
#[verifier::external_body]
fn chrono_utc_text(secs: i64, nanos: u32) -> (r: String)
    ensures
        r@ == utc_text(secs, nanos),
{
    chrono::DateTime::from_timestamp(secs, nanos).unwrap_or_default().format(
        "%Y-%m-%dT%H:%M:%S",
    ).to_string()
}

/// The server time as the report shows it: chrono's rendering of the ping's
/// time, `N/A` when the ping carries none.
pub open spec fn server_time_text(ping: PingResponse) -> Seq<char> {
    match ping.server_time {
        Some(t) => utc_text(t.seconds, t.nanos as u32),
        None => "N/A"@,
    }
}

/// The server time of `ping`, rendered.
pub fn server_time(ping: &PingResponse) -> (r: String)
    ensures
        r@ == server_time_text(*ping),
{
    match &ping.server_time {
        Some(t) => chrono_utc_text(t.seconds, t.nanos as u32),
        None => String::from_str("N/A"),
    }
}

/// The line reporting how many jobs are in `s`.
pub open spec fn job_state_line(m: JobMetrics, s: JobState) -> Seq<char> {
    "  "@ + align_left(s.name(), 18) + ": "@ + decimal(jobs_in(m, s) as nat)
}

/// The line reporting how many nodes are in `s`.
pub open spec fn node_state_line(m: NodeMetrics, s: NodeState) -> Seq<char> {
    "  "@ + align_left(s.upper_name(), 18) + ": "@ + decimal(nodes_in(m, s) as nat)
}

/// The job section of the report; `rate` is the success rate, printed with
/// one decimal.
pub open spec fn job_statistics_text(m: JobMetrics, rate: Seq<char>) -> Seq<Seq<char>> {
    seq![Seq::empty(), "Job Statistics:"@, "  Total Jobs        : "@ + decimal(m.total as nat)]
        + all_job_states().map_values(|s: JobState| job_state_line(m, s)) + (if m.held_pending > 0 {
        seq!["  Held (pending)    : "@ + decimal(m.held_pending as nat)]
    } else {
        Seq::empty()
    }) + seq![
        "  CPUs Allocated    : "@ + decimal(m.running_cpus as nat),
        "  Memory Allocated  : "@ + bytes_text(m.running_memory_bytes as nat),
        "  GPUs Allocated    : "@ + decimal(m.running_gpus as nat),
        Seq::empty(),
        "Derived Statistics:"@,
        "  Finished Jobs     : "@ + decimal(finished_total(m) as nat),
        "  Success Rate      : "@ + rate + "%"@,
        "  Active Jobs       : "@ + decimal(active_total(m) as nat)
            + " (running + completing + suspended)"@,
    ]
}

/// The job section of the report: totals, a line per state, allocation and
/// the derived totals. `success_rate` is the success rate already printed
/// with one decimal.
pub fn job_statistics_lines(metrics: &JobMetrics, success_rate: &str) -> (r: Vec<String>)
    requires
        finished_total(*metrics) <= u64::MAX,
        active_total(*metrics) <= u64::MAX,
    ensures
        r.deep_view() == job_statistics_text(*metrics, success_rate@),
{
    let mut lines: Vec<String> = Vec::new();
    push_line(&mut lines, String::new());
    push_line(&mut lines, String::from_str("Job Statistics:"));
    push_line(&mut lines, labeled_number("  Total Jobs        : ", metrics.total));
    let ghost head = lines.deep_view();
    let all = JobState::all();
    let mut i: usize = 0;
    while i < all.len()
        invariant
            i <= all.len(),
            all@ == all_job_states(),
            lines.deep_view() == head + all_job_states().take(i as int).map_values(
                |s: JobState| job_state_line(*metrics, s),
            ),
        decreases all.len() - i,
    {
        let s = all[i];
        let mut l = String::from_str("  ");
        l.append(left_aligned(s.display(), 18).as_str());
        l.append(": ");
        push_decimal(&mut l, job_count(metrics, s));
        push_line(&mut lines, l);
        assert(all_job_states().take(i + 1) == all_job_states().take(i as int).push(s));
        assert(all_job_states().take(i + 1).map_values(|s: JobState| job_state_line(*metrics, s))
            == all_job_states().take(i as int).map_values(
            |s: JobState| job_state_line(*metrics, s),
        ).push(job_state_line(*metrics, s)));
        i = i + 1;
    }
    assert(all_job_states().take(10) == all_job_states());
    if metrics.held_pending > 0 {
        push_line(&mut lines, labeled_number("  Held (pending)    : ", metrics.held_pending));
    }
    push_line(&mut lines, labeled_number("  CPUs Allocated    : ", metrics.running_cpus));
    push_line(&mut lines, 
        labeled_text("  Memory Allocated  : ", format_bytes(metrics.running_memory_bytes).as_str()),
    );
    push_line(&mut lines, labeled_number("  GPUs Allocated    : ", metrics.running_gpus));
    push_line(&mut lines, String::new());
    push_line(&mut lines, String::from_str("Derived Statistics:"));
    push_line(&mut lines, labeled_number("  Finished Jobs     : ", finished_jobs(metrics)));
    let mut rate = labeled_text("  Success Rate      : ", success_rate);
    rate.append("%");
    push_line(&mut lines, rate);
    let mut active = labeled_number("  Active Jobs       : ", active_jobs(metrics));
    active.append(" (running + completing + suspended)");
    push_line(&mut lines, active);
    lines
}

/// The node section of the report.
pub open spec fn node_statistics_text(m: NodeMetrics) -> Seq<Seq<char>> {
    seq![Seq::empty(), "Node Statistics:"@, "  Total Nodes       : "@ + decimal(m.total as nat)]
        + all_node_states().map_values(|s: NodeState| node_state_line(m, s)) + seq![
        "  Total CPUs        : "@ + decimal(m.total_cpus as nat),
        "  Allocated CPUs    : "@ + decimal(m.alloc_cpus as nat),
        "  Total Memory      : "@ + bytes_text(m.total_memory_bytes as nat),
        "  Allocated Memory  : "@ + bytes_text(m.alloc_memory_bytes as nat),
        "  Total GPUs        : "@ + decimal(m.total_gpus as nat),
        "  Allocated GPUs    : "@ + decimal(m.alloc_gpus as nat),
    ]
}

/// The node section of the report: totals, a line per state, capacity and
/// allocation.
pub fn node_statistics_lines(metrics: &NodeMetrics) -> (r: Vec<String>)
    ensures
        r.deep_view() == node_statistics_text(*metrics),
{
    let mut lines: Vec<String> = Vec::new();
    push_line(&mut lines, String::new());
    push_line(&mut lines, String::from_str("Node Statistics:"));
    push_line(&mut lines, labeled_number("  Total Nodes       : ", metrics.total));
    let ghost head = lines.deep_view();
    let all = NodeState::all();
    let mut i: usize = 0;
    while i < all.len()
        invariant
            i <= all.len(),
            all@ == all_node_states(),
            lines.deep_view() == head + all_node_states().take(i as int).map_values(
                |s: NodeState| node_state_line(*metrics, s),
            ),
        decreases all.len() - i,
    {
        let s = all[i];
        let mut l = String::from_str("  ");
        l.append(left_aligned(s.display_upper(), 18).as_str());
        l.append(": ");
        push_decimal(&mut l, node_count(metrics, s));
        push_line(&mut lines, l);
        assert(all_node_states().take(i + 1) == all_node_states().take(i as int).push(s));
        assert(all_node_states().take(i + 1).map_values(|s: NodeState| node_state_line(*metrics, s))
            == all_node_states().take(i as int).map_values(
            |s: NodeState| node_state_line(*metrics, s),
        ).push(node_state_line(*metrics, s)));
        i = i + 1;
    }
    assert(all_node_states().take(7) == all_node_states());
    push_line(&mut lines, labeled_number("  Total CPUs        : ", metrics.total_cpus));
    push_line(&mut lines, labeled_number("  Allocated CPUs    : ", metrics.alloc_cpus));
    push_line(&mut lines, labeled_text("  Total Memory      : ", format_bytes(metrics.total_memory_bytes).as_str()));
    push_line(&mut lines, 
        labeled_text("  Allocated Memory  : ", format_bytes(metrics.alloc_memory_bytes).as_str()),
    );
    push_line(&mut lines, labeled_number("  Total GPUs        : ", metrics.total_gpus));
    push_line(&mut lines, labeled_number("  Allocated GPUs    : ", metrics.alloc_gpus));
    lines
}

/// The scheduler section of the report.
pub open spec fn scheduler_statistics_text(s: SchedStats) -> Seq<Seq<char>> {
    seq![
        Seq::empty(),
        "Scheduler Statistics:"@,
        "  Plugin              : "@ + s.plugin@,
        "  Cycles              : "@ + decimal(s.cycles as nat),
        "  Cycle last (us)     : "@ + decimal(s.cycle_last_time_us as nat),
        "  Cycle total (us)    : "@ + decimal(s.cycle_total_time_us as nat),
        "  Cycle avg (us)      : "@ + decimal(s.cycle_avg_time_us as nat),
        "  Schedule last (us)  : "@ + decimal(s.schedule_last_time_us as nat),
        "  Schedule total (us) : "@ + decimal(s.schedule_total_time_us as nat),
        "  Schedule avg (us)   : "@ + decimal(s.schedule_avg_time_us as nat),
        "  Jobs submitted      : "@ + decimal(s.jobs_submitted as nat),
        "  Jobs started        : "@ + decimal(s.jobs_started as nat),
        "  Jobs finalized      : "@ + decimal(s.jobs_finalized as nat),
        "  Jobs started (last) : "@ + decimal(s.jobs_started_last_cycle as nat),
        "  Exit end of queue   : "@ + decimal(s.exit_end as nat),
        "  Exit max depth      : "@ + decimal(s.exit_max_depth as nat),
    ]
}

/// The scheduler section of the report, one line per counter.
pub fn scheduler_statistics_lines(stats: &SchedStats) -> (r: Vec<String>)
    ensures
        r.deep_view() == scheduler_statistics_text(*stats),
{
    let mut lines: Vec<String> = Vec::new();
    push_line(&mut lines, String::new());
    push_line(&mut lines, String::from_str("Scheduler Statistics:"));
    push_line(&mut lines, labeled_text("  Plugin              : ", stats.plugin.as_str()));
    push_line(&mut lines, labeled_number("  Cycles              : ", stats.cycles));
    push_line(&mut lines, labeled_number("  Cycle last (us)     : ", stats.cycle_last_time_us));
    push_line(&mut lines, labeled_number("  Cycle total (us)    : ", stats.cycle_total_time_us));
    push_line(&mut lines, labeled_number("  Cycle avg (us)      : ", stats.cycle_avg_time_us));
    push_line(&mut lines, labeled_number("  Schedule last (us)  : ", stats.schedule_last_time_us));
    push_line(&mut lines, labeled_number("  Schedule total (us) : ", stats.schedule_total_time_us));
    push_line(&mut lines, labeled_number("  Schedule avg (us)   : ", stats.schedule_avg_time_us));
    push_line(&mut lines, labeled_number("  Jobs submitted      : ", stats.jobs_submitted));
    push_line(&mut lines, labeled_number("  Jobs started        : ", stats.jobs_started));
    push_line(&mut lines, labeled_number("  Jobs finalized      : ", stats.jobs_finalized));
    push_line(&mut lines, labeled_number("  Jobs started (last) : ", stats.jobs_started_last_cycle));
    push_line(&mut lines, labeled_number("  Exit end of queue   : ", stats.exit_end));
    push_line(&mut lines, labeled_number("  Exit max depth      : ", stats.exit_max_depth));
    lines
}

/// One row of the RPC table.
pub open spec fn rpc_line(op: RpcStatisticsView) -> Seq<char> {
    "  "@ + align_left(op.operation@, 24) + " count:"@ + align_right(decimal(op.count as nat), 8)
        + "  ave_time_us:"@ + align_right(decimal(op.average_time_us as nat), 8)
        + "  total_time_us:"@ + decimal(op.total_time_us as nat)
}

/// The RPC section of the report: a row per operation, largest total time
/// first, or a note that there were none.
pub open spec fn rpc_statistics_text(stats: RpcStats) -> Seq<Seq<char>> {
    let ops = by_total_descending(
        stats.by_operation@.map_values(|op: RpcOperationStats| rpc_view(op)),
    );
    seq![Seq::empty(), "Remote Procedure Call statistics by operation:"@] + if ops.len() == 0 {
        seq!["  (no RPC calls recorded)"@]
    } else {
        ops.map_values(|op: RpcStatisticsView| rpc_line(op))
    }
}

/// The RPC section of the report.
pub fn rpc_statistics_lines(stats: &RpcStats) -> (r: Vec<String>)
    ensures
        r.deep_view() == rpc_statistics_text(*stats),
{
    let mut lines: Vec<String> = Vec::new();
    push_line(&mut lines, String::new());
    push_line(&mut lines, String::from_str("Remote Procedure Call statistics by operation:"));
    let ops = rpc_statistics(stats);
    if ops.len() == 0 {
        push_line(&mut lines, String::from_str("  (no RPC calls recorded)"));
        return lines;
    }
    let ghost head = lines.deep_view();
    let mut i: usize = 0;
    while i < ops.len()
        invariant
            i <= ops.len(),
            lines.deep_view() == head + ops@.take(i as int).map_values(
                |op: RpcStatisticsView| rpc_line(op),
            ),
        decreases ops.len() - i,
    {
        let op = &ops[i];
        let mut l = String::from_str("  ");
        l.append(left_aligned(op.operation.as_str(), 24).as_str());
        l.append(" count:");
        l.append(right_aligned(decimal_string(op.count).as_str(), 8).as_str());
        l.append("  ave_time_us:");
        l.append(right_aligned(decimal_string(op.average_time_us).as_str(), 8).as_str());
        l.append("  total_time_us:");
        push_decimal(&mut l, op.total_time_us);
        push_line(&mut lines, l);
        assert(ops@.take(i + 1) == ops@.take(i as int).push(ops@[i as int]));
        assert(ops@.take(i + 1).map_values(|op: RpcStatisticsView| rpc_line(op)) == ops@.take(
            i as int,
        ).map_values(|op: RpcStatisticsView| rpc_line(op)).push(rpc_line(ops@[i as int])));
        i = i + 1;
    }
    assert(ops@.take(ops.len() as int) == ops@);
    lines
}

/// The banner rule above and below the report title.
pub open spec fn banner_rule() -> Seq<char> {
    "***********************************************"@
}

/// The whole text report. `rate` is the success rate printed with one
/// decimal.
pub open spec fn report_text(
    noheader: bool,
    ping: PingResponse,
    jm: JobMetrics,
    nm: NodeMetrics,
    ss: SchedStats,
    rpc: RpcStats,
    rate: Seq<char>,
) -> Seq<Seq<char>> {
    let time = server_time_text(ping);
    (if noheader {
        Seq::empty()
    } else {
        seq![banner_rule(), "sdiag output at "@ + time, banner_rule(), Seq::empty()]
    }) + seq![
        "Server Information:"@,
        "  Hostname          : "@ + ping.hostname@,
        "  Version           : "@ + ping.version@,
        "  Server Time       : "@ + time,
    ] + (if ping.federation_peers.len() == 0 {
        Seq::empty()
    } else {
        seq!["  Federation Peers  : "@ + join(ping.federation_peers.deep_view(), ", "@)]
    }) + job_statistics_text(jm, rate) + node_statistics_text(nm) + scheduler_statistics_text(ss)
        + rpc_statistics_text(rpc)
}

/// Appends every line of `more`.
fn append_lines(lines: &mut Vec<String>, more: Vec<String>)
    ensures
        final(lines).deep_view() == old(lines).deep_view() + more.deep_view(),
{
    let ghost start = lines.deep_view();
    let mut i: usize = 0;
    while i < more.len()
        invariant
            i <= more.len(),
            lines.deep_view() == start + more.deep_view().take(i as int),
        decreases more.len() - i,
    {
        push_line(lines, more[i].clone());
        assert(more.deep_view().take(i + 1) == more.deep_view().take(i as int).push(more[i as int]@));
        i = i + 1;
    }
    assert(more.deep_view().take(more.len() as int) == more.deep_view());
}

/// The text report of `sdiag`: an optional banner, the server, then the job,
/// node, scheduler and RPC sections. `success_rate` is the success rate
/// already printed with one decimal.
pub fn render_text(
    args: &SdiagArgs,
    ping: &PingResponse,
    job_metrics: &JobMetrics,
    node_metrics: &NodeMetrics,
    sched_stats: &SchedStats,
    rpc_stats: &RpcStats,
    success_rate: &str,
) -> (r: Vec<String>)
    requires
        finished_total(*job_metrics) <= u64::MAX,
        active_total(*job_metrics) <= u64::MAX,
    ensures
        r.deep_view() == report_text(
            args.noheader,
            *ping,
            *job_metrics,
            *node_metrics,
            *sched_stats,
            *rpc_stats,
            success_rate@,
        ),
{
    let time = server_time(ping);
    let mut lines: Vec<String> = Vec::new();
    if !args.noheader {
        push_line(&mut lines, String::from_str("***********************************************"));
        push_line(&mut lines, labeled_text("sdiag output at ", time.as_str()));
        push_line(&mut lines, String::from_str("***********************************************"));
        push_line(&mut lines, String::new());
    }
    push_line(&mut lines, String::from_str("Server Information:"));
    push_line(&mut lines, labeled_text("  Hostname          : ", ping.hostname.as_str()));
    push_line(&mut lines, labeled_text("  Version           : ", ping.version.as_str()));
    push_line(&mut lines, labeled_text("  Server Time       : ", time.as_str()));
    if ping.federation_peers.len() > 0 {
        push_line(&mut lines, 
            labeled_text(
                "  Federation Peers  : ",
                join_strings(&ping.federation_peers, ", ").as_str(),
            ),
        );
    }
    append_lines(&mut lines, job_statistics_lines(job_metrics, success_rate));
    append_lines(&mut lines, node_statistics_lines(node_metrics));
    append_lines(&mut lines, scheduler_statistics_lines(sched_stats));
    append_lines(&mut lines, rpc_statistics_lines(rpc_stats));
    lines
}

/// The structured document of `sdiag`: every section under `statistics`.
pub fn diagnostics_view(
    ping: &PingResponse,
    job_metrics: &JobMetrics,
    node_metrics: &NodeMetrics,
    sched_stats: &SchedStats,
    rpc_stats: &RpcStats,
) -> (r: DiagnosticsView)
    requires
        finished_total(*job_metrics) <= u64::MAX,
        active_total(*job_metrics) <= u64::MAX,
    ensures
        r.server.shows(*ping),
        r.jobs.shows(*job_metrics),
        r.nodes.shows(*node_metrics),
        r.scheduler.shows(*sched_stats),
        r.rpcs@ == by_total_descending(
            rpc_stats.by_operation@.map_values(|op: RpcOperationStats| rpc_view(op)),
        ),
{
    DiagnosticsView {
        server: ServerView::from(ping),
        jobs: JobStatisticsSummary::from(job_metrics),
        nodes: NodeStatisticsSummary::from(node_metrics),
        scheduler: SchedulerStatisticsView::from(sched_stats),
        rpcs: rpc_statistics(rpc_stats),
    }
}


/// The report opens with the banner rule unless the header is suppressed, in
/// which case it opens with the server section.
pub proof fn sdiag_report_opening(
    noheader: bool,
    ping: PingResponse,
    jm: JobMetrics,
    nm: NodeMetrics,
    ss: SchedStats,
    rpc: RpcStats,
    rate: Seq<char>,
)
    ensures
        !noheader ==> report_text(noheader, ping, jm, nm, ss, rpc, rate)[0] == banner_rule(),
        noheader ==> report_text(noheader, ping, jm, nm, ss, rpc, rate)[0]
            == "Server Information:"@,
{
}

/// The node section lists, after its heading and the node total, one line
/// per node state in report order with that state's count, then the total
/// and allocated CPUs, the total and allocated memory in binary units, and
/// the total and allocated GPUs, each from its own counter.
pub proof fn node_section_lines(m: NodeMetrics)
    ensures
        node_statistics_text(m).len() == 16,
        node_statistics_text(m)[2] == "  Total Nodes       : "@ + decimal(m.total as nat),
        forall|i: int|
            0 <= i < 7 ==> #[trigger] node_statistics_text(m)[3 + i] == "  "@ + align_left(
                all_node_states()[i].upper_name(),
                18,
            ) + ": "@ + decimal(nodes_in(m, all_node_states()[i]) as nat),
        node_statistics_text(m)[10] == "  Total CPUs        : "@ + decimal(m.total_cpus as nat),
        node_statistics_text(m)[11] == "  Allocated CPUs    : "@ + decimal(m.alloc_cpus as nat),
        node_statistics_text(m)[12] == "  Total Memory      : "@ + bytes_text(m.total_memory_bytes as nat),
        node_statistics_text(m)[13] == "  Allocated Memory  : "@ + bytes_text(m.alloc_memory_bytes as nat),
        node_statistics_text(m)[14] == "  Total GPUs        : "@ + decimal(m.total_gpus as nat),
        node_statistics_text(m)[15] == "  Allocated GPUs    : "@ + decimal(m.alloc_gpus as nat),
{
    assert forall|i: int| 0 <= i < 7 implies #[trigger] node_statistics_text(m)[3 + i] == "  "@
        + align_left(all_node_states()[i].upper_name(), 18) + ": "@ + decimal(
        nodes_in(m, all_node_states()[i]) as nat,
    ) by {
        assert(node_statistics_text(m)[3 + i] == all_node_states().map_values(
            |s: NodeState| node_state_line(m, s),
        )[i]);
    }
}

/// The job section lists, after its heading and the job total, one line per
/// job state in report order with that state's count, the held jobs when
/// there are any, the allocated CPUs, memory in binary units and GPUs, then
/// the finished total, the success rate and the active total.
pub proof fn job_section_lines(m: JobMetrics, rate: Seq<char>)
    ensures
        ({
            let t = job_statistics_text(m, rate);
            let h: int = if m.held_pending > 0 { 1 } else { 0 };
            &&& t.len() == 21 + h
            &&& t[2] == "  Total Jobs        : "@ + decimal(m.total as nat)
            &&& forall|i: int|
                0 <= i < 10 ==> #[trigger] t[3 + i] == "  "@ + align_left(all_job_states()[i].name(), 18)
                    + ": "@ + decimal(jobs_in(m, all_job_states()[i]) as nat)
            &&& m.held_pending > 0 ==> t[13] == "  Held (pending)    : "@ + decimal(m.held_pending as nat)
            &&& t[13 + h] == "  CPUs Allocated    : "@ + decimal(m.running_cpus as nat)
            &&& t[14 + h] == "  Memory Allocated  : "@ + bytes_text(m.running_memory_bytes as nat)
            &&& t[15 + h] == "  GPUs Allocated    : "@ + decimal(m.running_gpus as nat)
            &&& t[18 + h] == "  Finished Jobs     : "@ + decimal(finished_total(m) as nat)
            &&& t[19 + h] == "  Success Rate      : "@ + rate + "%"@
            &&& t[20 + h] == "  Active Jobs       : "@ + decimal(active_total(m) as nat)
                + " (running + completing + suspended)"@
        }),
{
    let t = job_statistics_text(m, rate);
    assert forall|i: int| 0 <= i < 10 implies #[trigger] t[3 + i] == "  "@ + align_left(
        all_job_states()[i].name(),
        18,
    ) + ": "@ + decimal(jobs_in(m, all_job_states()[i]) as nat) by {
        assert(t[3 + i] == all_job_states().map_values(|s: JobState| job_state_line(m, s))[i]);
    }
}

/// The scheduler section lists, after its heading, the plugin and each
/// counter, every one from its own field.
pub proof fn scheduler_section_lines(st: SchedStats)
    ensures
        scheduler_statistics_text(st).len() == 16,
        scheduler_statistics_text(st)[2] == "  Plugin              : "@ + st.plugin@,
        scheduler_statistics_text(st)[3] == "  Cycles              : "@ + decimal(st.cycles as nat),
        scheduler_statistics_text(st)[4] == "  Cycle last (us)     : "@ + decimal(st.cycle_last_time_us as nat),
        scheduler_statistics_text(st)[5] == "  Cycle total (us)    : "@ + decimal(st.cycle_total_time_us as nat),
        scheduler_statistics_text(st)[6] == "  Cycle avg (us)      : "@ + decimal(st.cycle_avg_time_us as nat),
        scheduler_statistics_text(st)[7] == "  Schedule last (us)  : "@ + decimal(st.schedule_last_time_us as nat),
        scheduler_statistics_text(st)[8] == "  Schedule total (us) : "@ + decimal(st.schedule_total_time_us as nat),
        scheduler_statistics_text(st)[9] == "  Schedule avg (us)   : "@ + decimal(st.schedule_avg_time_us as nat),
        scheduler_statistics_text(st)[10] == "  Jobs submitted      : "@ + decimal(st.jobs_submitted as nat),
        scheduler_statistics_text(st)[11] == "  Jobs started        : "@ + decimal(st.jobs_started as nat),
        scheduler_statistics_text(st)[12] == "  Jobs finalized      : "@ + decimal(st.jobs_finalized as nat),
        scheduler_statistics_text(st)[13] == "  Jobs started (last) : "@ + decimal(st.jobs_started_last_cycle as nat),
        scheduler_statistics_text(st)[14] == "  Exit end of queue   : "@ + decimal(st.exit_end as nat),
        scheduler_statistics_text(st)[15] == "  Exit max depth      : "@ + decimal(st.exit_max_depth as nat),
{
}

/// The report reads: the banner with the server time unless suppressed, the
/// server's host name, version and time (chrono's rendering of the ping's
/// time, `N/A` without one), the federation peers joined with `, ` when there
/// are any, then the job, node, scheduler and RPC sections in that order.
pub proof fn sdiag_report_layout(
    noheader: bool,
    ping: PingResponse,
    jm: JobMetrics,
    nm: NodeMetrics,
    ss: SchedStats,
    rpc: RpcStats,
    rate: Seq<char>,
)
    ensures
        ({
            let r = report_text(noheader, ping, jm, nm, ss, rpc, rate);
            let time = match ping.server_time {
                Some(t) => utc_text(t.seconds, t.nanos as u32),
                None => "N/A"@,
            };
            let b: int = if noheader { 0 } else { 4 };
            let f: int = if ping.federation_peers.len() == 0 { 0 } else { 1 };
            let js = job_statistics_text(jm, rate);
            let ns = node_statistics_text(nm);
            let sc = scheduler_statistics_text(ss);
            let rs = rpc_statistics_text(rpc);
            let start = b + 4 + f;
            &&& r.len() == start + js.len() + ns.len() + sc.len() + rs.len()
            &&& !noheader ==> r[1] == "sdiag output at "@ + time
            &&& r[b] == "Server Information:"@
            &&& r[b + 1] == "  Hostname          : "@ + ping.hostname@
            &&& r[b + 2] == "  Version           : "@ + ping.version@
            &&& r[b + 3] == "  Server Time       : "@ + time
            &&& f == 1 ==> r[b + 4] == "  Federation Peers  : "@ + join(
                ping.federation_peers.deep_view(),
                ", "@,
            )
            &&& r.subrange(start, start + js.len()) == js
            &&& r.subrange(start + js.len(), start + js.len() + ns.len()) == ns
            &&& r.subrange(start + js.len() + ns.len(), start + js.len() + ns.len() + sc.len()) == sc
            &&& r.subrange(start + js.len() + ns.len() + sc.len(), r.len() as int) == rs
        }),
{
    let r = report_text(noheader, ping, jm, nm, ss, rpc, rate);
    let b: int = if noheader { 0 } else { 4 };
    let f: int = if ping.federation_peers.len() == 0 { 0 } else { 1 };
    let js = job_statistics_text(jm, rate);
    let ns = node_statistics_text(nm);
    let sc = scheduler_statistics_text(ss);
    let rs = rpc_statistics_text(rpc);
    let start = b + 4 + f;
    assert(r.subrange(start, start + js.len()) =~= js);
    assert(r.subrange(start + js.len(), start + js.len() + ns.len()) =~= ns);
    assert(r.subrange(start + js.len() + ns.len(), start + js.len() + ns.len() + sc.len()) =~= sc);
    assert(r.subrange(start + js.len() + ns.len() + sc.len(), r.len() as int) =~= rs);
}

} // verus!
