//! Controller diagnostics, as published by `sdiag`.
use vstd::prelude::*;

use crate::job::time_secs;
use crate::state::{
    all_job_states, all_node_states, job_state_names_are_distinct, node_state_names_are_distinct,
    JobState, NodeState,
};
use crate::text::copy_strings;
use crate::util::ts_secs;
use crate::wire::{
    JobMetrics, JobStateCount, NodeMetrics, NodeStateCount, PingResponse, RpcOperationStats,
    RpcStats, SchedStats,
};

verus! {

#[derive(Debug, Clone)]
pub struct DiagnosticsView {
    pub server: ServerView,
    pub jobs: JobStatisticsSummary,
    pub nodes: NodeStatisticsSummary,
    pub scheduler: SchedulerStatisticsView,
    pub rpcs: Vec<RpcStatisticsView>,
}

#[derive(Debug, Clone)]
pub struct ServerView {
    pub hostname: String,
    pub version: String,
    pub server_time: Option<i64>,
    pub federation_peers: Vec<String>,
}

impl ServerView {
    /// Whether this view publishes `ping`.
    pub open spec fn shows(self, ping: PingResponse) -> bool {
        &&& self.hostname@ == ping.hostname@
        &&& self.version@ == ping.version@
        &&& self.server_time == time_secs(ping.server_time)
        &&& self.federation_peers.deep_view() == ping.federation_peers.deep_view()
    }

    pub fn from(ping: &PingResponse) -> (r: ServerView)
        ensures
            r.shows(*ping),
    {
        ServerView {
            hostname: ping.hostname.clone(),
            version: ping.version.clone(),
            server_time: ts_secs(ping.server_time.as_ref()),
            federation_peers: copy_strings(&ping.federation_peers),
        }
    }
}

/// The count of the first entry recorded for discriminant `wire`, zero when
/// there is none.
pub open spec fn job_entry_count(entries: Seq<JobStateCount>, wire: i32) -> u64
    decreases entries.len(),
{
    if entries.len() == 0 {
        0
    } else if entries[0].state == wire {
        entries[0].count
    } else {
        job_entry_count(entries.drop_first(), wire)
    }
}

/// The count of the first entry recorded for discriminant `wire`, zero when
/// there is none.
pub open spec fn node_entry_count(entries: Seq<NodeStateCount>, wire: i32) -> u64
    decreases entries.len(),
{
    if entries.len() == 0 {
        0
    } else if entries[0].state == wire {
        entries[0].count
    } else {
        node_entry_count(entries.drop_first(), wire)
    }
}

/// Number of jobs the metrics report in state `s`.
pub open spec fn jobs_in(m: JobMetrics, s: JobState) -> u64 {
    job_entry_count(m.by_state@, s.wire())
}

/// Number of nodes the metrics report in state `s`.
pub open spec fn nodes_in(m: NodeMetrics, s: NodeState) -> u64 {
    node_entry_count(m.by_state@, s.wire())
}

/// Sum of the job counts of those `states` that satisfy `p`.
pub open spec fn jobs_where(m: JobMetrics, states: Seq<JobState>, p: spec_fn(JobState) -> bool) -> int
    decreases states.len(),
{
    if states.len() == 0 {
        0
    } else {
        jobs_where(m, states.drop_last(), p) + if p(states.last()) {
            jobs_in(m, states.last()) as int
        } else {
            0
        }
    }
}

/// Jobs that have finished, in any terminal state.
pub open spec fn finished_total(m: JobMetrics) -> int {
    jobs_where(m, all_job_states(), |s: JobState| s.terminal())
}

/// Jobs holding resources: running, completing or suspended.
pub open spec fn active_total(m: JobMetrics) -> int {
    jobs_where(m, all_job_states(), |s: JobState| s.active())
}

/// The job count `metrics` reports for `state`: the first entry recorded
/// for its discriminant, zero when there is none.
pub fn job_count(metrics: &JobMetrics, state: JobState) -> (r: u64)
    ensures
        r == jobs_in(*metrics, state),
{
    let wire = state.to_proto_i32();
    let entries = &metrics.by_state;
    let mut i: usize = 0;
    assert(entries@.skip(0) == entries@);
    while i < entries.len()
        invariant
            i <= entries.len(),
            job_entry_count(entries@, wire) == job_entry_count(entries@.skip(i as int), wire),
            wire == state.wire(),
            entries@ == metrics.by_state@,
        decreases entries.len() - i,
    {
        assert(entries@.skip(i as int)[0] == entries@[i as int]);
        assert(entries@.skip(i as int).drop_first() == entries@.skip(i + 1));
        if entries[i].state == wire {
            assert(job_entry_count(entries@.skip(i as int), wire) == entries@[i as int].count);
            return entries[i].count;
        }
        i = i + 1;
    }
    0
}

/// The node count `metrics` reports for `state`: the first entry recorded
/// for its discriminant, zero when there is none.
pub fn node_count(metrics: &NodeMetrics, state: NodeState) -> (r: u64)
    ensures
        r == nodes_in(*metrics, state),
{
    let wire = state.to_proto_i32();
    let entries = &metrics.by_state;
    let mut i: usize = 0;
    assert(entries@.skip(0) == entries@);
    while i < entries.len()
        invariant
            i <= entries.len(),
            node_entry_count(entries@, wire) == node_entry_count(entries@.skip(i as int), wire),
            wire == state.wire(),
            entries@ == metrics.by_state@,
        decreases entries.len() - i,
    {
        assert(entries@.skip(i as int)[0] == entries@[i as int]);
        assert(entries@.skip(i as int).drop_first() == entries@.skip(i + 1));
        if entries[i].state == wire {
            assert(node_entry_count(entries@.skip(i as int), wire) == entries@[i as int].count);
            return entries[i].count;
        }
        i = i + 1;
    }
    0
}

proof fn lemma_jobs_where_monotone(m: JobMetrics, states: Seq<JobState>, p: spec_fn(JobState) -> bool, k: int)
    requires
        0 <= k <= states.len(),
    ensures
        0 <= jobs_where(m, states.take(k), p) <= jobs_where(m, states, p),
    decreases states.len(),
{
    if states.len() > 0 {
        if k == states.len() {
            assert(states.take(k) == states);
            lemma_jobs_where_monotone(m, states.drop_last(), p, 0);
            assert(states.drop_last().take(0) == states.take(0));
        } else {
            assert(states.drop_last().take(k) == states.take(k));
            lemma_jobs_where_monotone(m, states.drop_last(), p, k);
        }
    } else {
        assert(states.take(k) == states);
    }
}

/// Sum of the counts of those states that satisfy `p`, for `p` one of the
/// terminal and active classifications.
fn sum_jobs(metrics: &JobMetrics, terminal: bool) -> (r: u64)
    requires
        terminal ==> finished_total(*metrics) <= u64::MAX,
        !terminal ==> active_total(*metrics) <= u64::MAX,
    ensures
        terminal ==> r == finished_total(*metrics),
        !terminal ==> r == active_total(*metrics),
{
    let ghost p: spec_fn(JobState) -> bool = if terminal {
        |s: JobState| s.terminal()
    } else {
        |s: JobState| s.active()
    };
    let all = JobState::all();
    let mut total: u64 = 0;
    let mut i: usize = 0;
    while i < all.len()
        invariant
            i <= all.len(),
            all@ == all_job_states(),
            total == jobs_where(*metrics, all@.take(i as int), p),
            jobs_where(*metrics, all@, p) <= u64::MAX,
            p == (if terminal {
                |s: JobState| s.terminal()
            } else {
                |s: JobState| s.active()
            }),
        decreases all.len() - i,
    {
        let s = all[i];
        assert(all@.take(i + 1).drop_last() == all@.take(i as int));
        let selected = if terminal {
            s.is_terminal()
        } else {
            s.is_active()
        };
        proof {
            lemma_jobs_where_monotone(*metrics, all@, p, i + 1);
        }
        if selected {
            total = total + job_count(metrics, s);
        }
        i = i + 1;
    }
    assert(all@.take(all.len() as int) == all@);
    total
}

/// Jobs in a terminal state.
pub fn finished_jobs(metrics: &JobMetrics) -> (r: u64)
    requires
        finished_total(*metrics) <= u64::MAX,
    ensures
        r == finished_total(*metrics),
{
    sum_jobs(metrics, true)
}

/// Jobs that are running, completing or suspended.
pub fn active_jobs(metrics: &JobMetrics) -> (r: u64)
    requires
        active_total(*metrics) <= u64::MAX,
    ensures
        r == active_total(*metrics),
{
    sum_jobs(metrics, false)
}

#[derive(Debug, Clone)]
pub struct JobStatisticsSummary {
    pub total: u64,
    /// Counts keyed by state name, e.g. `("RUNNING", 3)`, one entry per state
    /// in report order.
    pub by_state: Vec<(String, u64)>,
    pub held_pending: u64,
    pub cpus_allocated: u64,
    pub memory_allocated_bytes: u64,
    pub gpus_allocated: u64,
    pub finished: u64,
    pub active: u64,
}

impl JobStatisticsSummary {
    /// Whether this summary reports `m`: one `by_state` entry per job state,
    /// named after it, with the count the metrics give it.
    pub open spec fn shows(self, m: JobMetrics) -> bool {
        &&& self.total == m.total
        &&& self.by_state.len() == all_job_states().len()
        &&& forall|i: int|
            0 <= i < all_job_states().len() ==> {
                &&& (#[trigger] self.by_state[i]).0@ == all_job_states()[i].name()
                &&& self.by_state[i].1 == jobs_in(m, all_job_states()[i])
            }
        &&& self.held_pending == m.held_pending
        &&& self.cpus_allocated == m.running_cpus
        &&& self.memory_allocated_bytes == m.running_memory_bytes
        &&& self.gpus_allocated == m.running_gpus
        &&& self.finished == finished_total(m)
        &&& self.active == active_total(m)
    }

    /// The summary of `metrics`, whose finished and active totals must fit.
    pub fn from(metrics: &JobMetrics) -> (r: JobStatisticsSummary)
        requires
            finished_total(*metrics) <= u64::MAX,
            active_total(*metrics) <= u64::MAX,
        ensures
            r.shows(*metrics),
    {
        let all = JobState::all();
        let mut by_state: Vec<(String, u64)> = Vec::new();
        let mut i: usize = 0;
        while i < all.len()
            invariant
                i <= all.len(),
                all@ == all_job_states(),
                by_state.len() == i,
                forall|j: int|
                    0 <= j < i ==> {
                        &&& (#[trigger] by_state[j]).0@ == all_job_states()[j].name()
                        &&& by_state[j].1 == jobs_in(*metrics, all_job_states()[j])
                    },
            decreases all.len() - i,
        {
            let s = all[i];
            by_state.push((String::from_str(s.display()), job_count(metrics, s)));
            i = i + 1;
        }
        JobStatisticsSummary {
            total: metrics.total,
            by_state,
            held_pending: metrics.held_pending,
            cpus_allocated: metrics.running_cpus,
            memory_allocated_bytes: metrics.running_memory_bytes,
            gpus_allocated: metrics.running_gpus,
            finished: finished_jobs(metrics),
            active: active_jobs(metrics),
        }
    }
}

#[derive(Debug, Clone)]
pub struct NodeStatisticsSummary {
    pub total: u64,
    /// Counts keyed by upper-case state name, one entry per state in report
    /// order.
    pub by_state: Vec<(String, u64)>,
    pub total_cpus: u64,
    pub alloc_cpus: u64,
    pub total_memory_bytes: u64,
    pub alloc_memory_bytes: u64,
    pub total_gpus: u64,
    pub alloc_gpus: u64,
}

impl NodeStatisticsSummary {
    /// Whether this summary reports `m`: one `by_state` entry per node state,
    /// named after it, with the count the metrics give it.
    pub open spec fn shows(self, m: NodeMetrics) -> bool {
        &&& self.total == m.total
        &&& self.by_state.len() == all_node_states().len()
        &&& forall|i: int|
            0 <= i < all_node_states().len() ==> {
                &&& (#[trigger] self.by_state[i]).0@ == all_node_states()[i].upper_name()
                &&& self.by_state[i].1 == nodes_in(m, all_node_states()[i])
            }
        &&& self.total_cpus == m.total_cpus
        &&& self.alloc_cpus == m.alloc_cpus
        &&& self.total_memory_bytes == m.total_memory_bytes
        &&& self.alloc_memory_bytes == m.alloc_memory_bytes
        &&& self.total_gpus == m.total_gpus
        &&& self.alloc_gpus == m.alloc_gpus
    }

    pub fn from(metrics: &NodeMetrics) -> (r: NodeStatisticsSummary)
        ensures
            r.shows(*metrics),
    {
        let all = NodeState::all();
        let mut by_state: Vec<(String, u64)> = Vec::new();
        let mut i: usize = 0;
        while i < all.len()
            invariant
                i <= all.len(),
                all@ == all_node_states(),
                by_state.len() == i,
                forall|j: int|
                    0 <= j < i ==> {
                        &&& (#[trigger] by_state[j]).0@ == all_node_states()[j].upper_name()
                        &&& by_state[j].1 == nodes_in(*metrics, all_node_states()[j])
                    },
            decreases all.len() - i,
        {
            let s = all[i];
            by_state.push((String::from_str(s.display_upper()), node_count(metrics, s)));
            i = i + 1;
        }
        NodeStatisticsSummary {
            total: metrics.total,
            by_state,
            total_cpus: metrics.total_cpus,
            alloc_cpus: metrics.alloc_cpus,
            total_memory_bytes: metrics.total_memory_bytes,
            alloc_memory_bytes: metrics.alloc_memory_bytes,
            total_gpus: metrics.total_gpus,
            alloc_gpus: metrics.alloc_gpus,
        }
    }
}

#[derive(Debug, Clone)]
pub struct SchedulerStatisticsView {
    pub plugin: String,
    pub cycles: u64,
    pub cycle_last_time_us: u64,
    pub cycle_total_time_us: u64,
    pub cycle_avg_time_us: u64,
    pub schedule_last_time_us: u64,
    pub schedule_total_time_us: u64,
    pub schedule_avg_time_us: u64,
    pub jobs_submitted: u64,
    pub jobs_started: u64,
    pub jobs_finalized: u64,
    pub jobs_started_last_cycle: u64,
    pub exit_end: u64,
    pub exit_max_depth: u64,
}

impl SchedulerStatisticsView {
    /// Whether this view publishes `stats`, field for field.
    pub open spec fn shows(self, stats: SchedStats) -> bool {
        &&& self.plugin@ == stats.plugin@
        &&& self.cycles == stats.cycles
        &&& self.cycle_last_time_us == stats.cycle_last_time_us
        &&& self.cycle_total_time_us == stats.cycle_total_time_us
        &&& self.cycle_avg_time_us == stats.cycle_avg_time_us
        &&& self.schedule_last_time_us == stats.schedule_last_time_us
        &&& self.schedule_total_time_us == stats.schedule_total_time_us
        &&& self.schedule_avg_time_us == stats.schedule_avg_time_us
        &&& self.jobs_submitted == stats.jobs_submitted
        &&& self.jobs_started == stats.jobs_started
        &&& self.jobs_finalized == stats.jobs_finalized
        &&& self.jobs_started_last_cycle == stats.jobs_started_last_cycle
        &&& self.exit_end == stats.exit_end
        &&& self.exit_max_depth == stats.exit_max_depth
    }

    pub fn from(stats: &SchedStats) -> (r: SchedulerStatisticsView)
        ensures
            r.shows(*stats),
    {
        SchedulerStatisticsView {
            plugin: stats.plugin.clone(),
            cycles: stats.cycles,
            cycle_last_time_us: stats.cycle_last_time_us,
            cycle_total_time_us: stats.cycle_total_time_us,
            cycle_avg_time_us: stats.cycle_avg_time_us,
            schedule_last_time_us: stats.schedule_last_time_us,
            schedule_total_time_us: stats.schedule_total_time_us,
            schedule_avg_time_us: stats.schedule_avg_time_us,
            jobs_submitted: stats.jobs_submitted,
            jobs_started: stats.jobs_started,
            jobs_finalized: stats.jobs_finalized,
            jobs_started_last_cycle: stats.jobs_started_last_cycle,
            exit_end: stats.exit_end,
            exit_max_depth: stats.exit_max_depth,
        }
    }
}

#[derive(Debug, Clone)]
pub struct RpcStatisticsView {
    pub operation: String,
    pub count: u64,
    pub average_time_us: u64,
    pub total_time_us: u64,
}

/// The view of one operation's statistics.
pub open spec fn rpc_view(op: RpcOperationStats) -> RpcStatisticsView {
    RpcStatisticsView {
        operation: op.operation,
        count: op.count,
        average_time_us: op.avg_time_us,
        total_time_us: op.total_time_us,
    }
}

/// `x` placed into `s` after every entry whose total time is at least its own.
pub open spec fn insert_by_total(s: Seq<RpcStatisticsView>, x: RpcStatisticsView) -> Seq<
    RpcStatisticsView,
>
    decreases s.len(),
{
    if s.len() == 0 {
        seq![x]
    } else if s.last().total_time_us >= x.total_time_us {
        s.push(x)
    } else {
        insert_by_total(s.drop_last(), x).push(s.last())
    }
}

/// `s` in order of total time, descending; entries with equal totals keep
/// their relative order.
pub open spec fn by_total_descending(s: Seq<RpcStatisticsView>) -> Seq<RpcStatisticsView>
    decreases s.len(),
{
    if s.len() == 0 {
        s
    } else {
        insert_by_total(by_total_descending(s.drop_last()), s.last())
    }
}

proof fn lemma_insert_by_total_at(s: Seq<RpcStatisticsView>, x: RpcStatisticsView, pos: int)
    requires
        0 <= pos <= s.len(),
        pos == 0 || s[pos - 1].total_time_us >= x.total_time_us,
        forall|k: int| pos <= k < s.len() ==> (#[trigger] s[k]).total_time_us < x.total_time_us,
    ensures
        insert_by_total(s, x) == s.insert(pos, x),
    decreases s.len(),
{
    if s.len() > 0 {
        if pos == s.len() {
            assert(s.insert(pos, x) == s.push(x));
        } else {
            assert(s.last().total_time_us < x.total_time_us);
            lemma_insert_by_total_at(s.drop_last(), x, pos);
            assert(s.insert(pos, x) == s.drop_last().insert(pos, x).push(s.last()));
        }
    } else {
        assert(s.insert(pos, x) == seq![x]);
    }
}

/// RPC statistics ordered by total time descending, matching the text renderer.
pub fn rpc_statistics(stats: &RpcStats) -> (r: Vec<RpcStatisticsView>)
    ensures
        r@ == by_total_descending(stats.by_operation@.map_values(|op: RpcOperationStats| rpc_view(op))),
{
    let ops = &stats.by_operation;
    let ghost views = ops@.map_values(|op: RpcOperationStats| rpc_view(op));
    let mut out: Vec<RpcStatisticsView> = Vec::new();
    let mut i: usize = 0;
    while i < ops.len()
        invariant
            i <= ops.len(),
            views == ops@.map_values(|op: RpcOperationStats| rpc_view(op)),
            out@ == by_total_descending(views.take(i as int)),
        decreases ops.len() - i,
    {
        let op = &ops[i];
        let x = RpcStatisticsView {
            operation: op.operation.clone(),
            count: op.count,
            average_time_us: op.avg_time_us,
            total_time_us: op.total_time_us,
        };
        assert(x == views[i as int]);
        let mut pos = out.len();
        while pos > 0 && out[pos - 1].total_time_us < x.total_time_us
            invariant
                pos <= out.len(),
                forall|k: int| pos <= k < out.len() ==> (#[trigger] out[k]).total_time_us < x.total_time_us,
            decreases pos,
        {
            pos = pos - 1;
        }
        proof {
            lemma_insert_by_total_at(out@, x, pos as int);
            assert(views.take(i + 1).drop_last() == views.take(i as int));
        }
        out.insert(pos, x);
        i = i + 1;
    }
    assert(views.take(ops.len() as int) == views);
    out
}

proof fn lemma_insert_by_total_sorted(s: Seq<RpcStatisticsView>, x: RpcStatisticsView)
    requires
        forall|i: int, j: int| 0 <= i < j < s.len() ==> s[i].total_time_us >= s[j].total_time_us,
    ensures
        insert_by_total(s, x).len() == s.len() + 1,
        insert_by_total(s, x).to_multiset() == s.to_multiset().insert(x),
        forall|i: int, j: int|
            0 <= i < j < insert_by_total(s, x).len() ==> insert_by_total(s, x)[i].total_time_us
                >= insert_by_total(s, x)[j].total_time_us,
    decreases s.len(),
{
    broadcast use vstd::seq_lib::group_to_multiset_ensures;

    if s.len() > 0 && s.last().total_time_us < x.total_time_us {
        let t = insert_by_total(s.drop_last(), x);
        lemma_insert_by_total_sorted(s.drop_last(), x);
        assert(s.drop_last().push(s.last()) == s);
        let r = t.push(s.last());
        assert forall|i: int, j: int| 0 <= i < j < r.len() implies r[i].total_time_us
            >= r[j].total_time_us by {
            if j == r.len() - 1 {
                // Every entry of `t` is either `x` or an entry of `s` ahead of its last.
                assert(t.to_multiset().count(t[i]) > 0);
                if t[i] != x {
                    assert(s.drop_last().to_multiset().count(t[i]) > 0);
                    let k = choose|k: int| 0 <= k < s.drop_last().len() && s.drop_last()[k] == t[i];
                    assert(s[k] == t[i]);
                }
            }
        }
    } else if s.len() > 0 {
        let r = s.push(x);
        assert forall|i: int, j: int| 0 <= i < j < r.len() implies r[i].total_time_us
            >= r[j].total_time_us by {
            if j == r.len() - 1 && i < s.len() - 1 {
                assert(s[i].total_time_us >= s[s.len() - 1].total_time_us);
            }
        }
    }
}

/// The entries of `s` whose total time is `t`, in order.
pub open spec fn with_total(s: Seq<RpcStatisticsView>, t: u64) -> Seq<RpcStatisticsView>
    decreases s.len(),
{
    if s.len() == 0 {
        s
    } else if s.last().total_time_us == t {
        with_total(s.drop_last(), t).push(s.last())
    } else {
        with_total(s.drop_last(), t)
    }
}

/// Inserting `x` by total time puts it after every entry with its own total.
proof fn lemma_insert_with_total(s: Seq<RpcStatisticsView>, x: RpcStatisticsView, t: u64)
    ensures
        with_total(insert_by_total(s, x), t) == (if x.total_time_us == t {
            with_total(s, t).push(x)
        } else {
            with_total(s, t)
        }),
    decreases s.len(),
{
    if s.len() == 0 {
        let e = Seq::<RpcStatisticsView>::empty();
        assert(seq![x].drop_last() == e);
        assert(insert_by_total(s, x) == e.push(x));
        assert(with_total(e, t) == e);
        assert(s == e);
    } else if s.last().total_time_us >= x.total_time_us {
        assert(s.push(x).drop_last() == s);
        assert(insert_by_total(s, x) == s.push(x));
    } else {
        lemma_insert_with_total(s.drop_last(), x, t);
        let u = insert_by_total(s.drop_last(), x);
        assert(insert_by_total(s, x) == u.push(s.last()));
        assert(u.push(s.last()).drop_last() == u);
    }
}

/// The RPC table lists every operation exactly once, in order of total time,
/// largest first; operations with equal totals keep their order.
pub proof fn rpc_statistics_are_a_sorted_permutation(s: Seq<RpcStatisticsView>)
    ensures
        by_total_descending(s).len() == s.len(),
        by_total_descending(s).to_multiset() == s.to_multiset(),
        forall|i: int, j: int|
            0 <= i < j < s.len() ==> by_total_descending(s)[i].total_time_us
                >= by_total_descending(s)[j].total_time_us,
        forall|t: u64| #[trigger] with_total(by_total_descending(s), t) == with_total(s, t),
    decreases s.len(),
{
    broadcast use vstd::seq_lib::group_to_multiset_ensures;

    if s.len() > 0 {
        rpc_statistics_are_a_sorted_permutation(s.drop_last());
        lemma_insert_by_total_sorted(by_total_descending(s.drop_last()), s.last());
        assert(s.drop_last().push(s.last()) == s);
        assert forall|t: u64| #[trigger] with_total(by_total_descending(s), t) == with_total(s, t) by {
            lemma_insert_with_total(by_total_descending(s.drop_last()), s.last(), t);
            assert(with_total(by_total_descending(s.drop_last()), t) == with_total(s.drop_last(), t));
        }
    }
}


/// The derived totals add up the states they name: finished jobs are those
/// completed, failed, cancelled, timed out, lost to a node failure or
/// preempted; active jobs are those running, completing or suspended.
pub proof fn derived_totals_expand(m: JobMetrics)
    ensures
        finished_total(m) == jobs_in(m, JobState::Completed) + jobs_in(m, JobState::Failed)
            + jobs_in(m, JobState::Cancelled) + jobs_in(m, JobState::Timeout) + jobs_in(
            m,
            JobState::NodeFail,
        ) + jobs_in(m, JobState::Preempted),
        active_total(m) == jobs_in(m, JobState::Running) + jobs_in(m, JobState::Completing)
            + jobs_in(m, JobState::Suspended),
{
    reveal_with_fuel(jobs_where, 11);
    let all = all_job_states();
    assert(all.drop_last().drop_last().drop_last().drop_last().drop_last().drop_last().drop_last().drop_last().drop_last().drop_last() == Seq::<JobState>::empty());
}

/// A job summary keys every state by its name: the entry at the state's
/// place in report order carries the state's name and count, and no other
/// entry has that name.
pub proof fn job_summary_keys_states_by_name(s: JobStatisticsSummary, m: JobMetrics, st: JobState)
    requires
        s.shows(m),
    ensures
        0 <= st.wire() < s.by_state.len(),
        s.by_state[st.wire() as int].0@ == st.name(),
        s.by_state[st.wire() as int].1 == jobs_in(m, st),
        forall|i: int|
            0 <= i < s.by_state.len() && i != st.wire() ==> (#[trigger] s.by_state[i]).0@
                != st.name(),
{
    let all = all_job_states();
    assert(all[st.wire() as int] == st);
    assert forall|i: int| 0 <= i < s.by_state.len() && i != st.wire() implies (
    #[trigger] s.by_state[i]).0@ != st.name() by {
        assert(all[i].wire() == i);
        job_state_names_are_distinct(all[i], st);
    }
}

/// A node summary keys every state by its upper-case name: the entry at the
/// state's place in report order carries the state's name and count, and no
/// other entry has that name.
pub proof fn node_summary_keys_states_by_name(s: NodeStatisticsSummary, m: NodeMetrics, st: NodeState)
    requires
        s.shows(m),
    ensures
        0 <= st.wire() < s.by_state.len(),
        s.by_state[st.wire() as int].0@ == st.upper_name(),
        s.by_state[st.wire() as int].1 == nodes_in(m, st),
        forall|i: int|
            0 <= i < s.by_state.len() && i != st.wire() ==> (#[trigger] s.by_state[i]).0@
                != st.upper_name(),
{
    let all = all_node_states();
    assert(all[st.wire() as int] == st);
    assert forall|i: int| 0 <= i < s.by_state.len() && i != st.wire() implies (
    #[trigger] s.by_state[i]).0@ != st.upper_name() by {
        assert(all[i].wire() == i);
        node_state_names_are_distinct(all[i], st);
    }
}

/// The server section publishes the ping's host name, version, server time
/// in seconds and federation peers.
pub proof fn server_view_carries_the_ping(v: ServerView, ping: PingResponse)
    requires
        v.shows(ping),
    ensures
        v.hostname@ == ping.hostname@,
        v.version@ == ping.version@,
        v.server_time == (match ping.server_time {
            Some(t) => Some(t.seconds),
            None => None,
        }),
        v.federation_peers.deep_view() == ping.federation_peers.deep_view(),
{
}

/// The job summary publishes the job total, the held jobs, the CPUs, memory
/// and GPUs of running jobs, and the finished and active totals, which add
/// up the terminal and the active states.
pub proof fn job_summary_carries_the_metrics(s: JobStatisticsSummary, m: JobMetrics)
    requires
        s.shows(m),
    ensures
        s.total == m.total,
        s.held_pending == m.held_pending,
        s.cpus_allocated == m.running_cpus,
        s.memory_allocated_bytes == m.running_memory_bytes,
        s.gpus_allocated == m.running_gpus,
        s.finished == jobs_in(m, JobState::Completed) + jobs_in(m, JobState::Failed) + jobs_in(
            m,
            JobState::Cancelled,
        ) + jobs_in(m, JobState::Timeout) + jobs_in(m, JobState::NodeFail) + jobs_in(
            m,
            JobState::Preempted,
        ),
        s.active == jobs_in(m, JobState::Running) + jobs_in(m, JobState::Completing) + jobs_in(
            m,
            JobState::Suspended,
        ),
{
    derived_totals_expand(m);
}

/// The node summary publishes the node total and the total and allocated
/// CPUs, memory and GPUs, each from its own counter.
pub proof fn node_summary_carries_the_metrics(s: NodeStatisticsSummary, m: NodeMetrics)
    requires
        s.shows(m),
    ensures
        s.total == m.total,
        s.total_cpus == m.total_cpus,
        s.alloc_cpus == m.alloc_cpus,
        s.total_memory_bytes == m.total_memory_bytes,
        s.alloc_memory_bytes == m.alloc_memory_bytes,
        s.total_gpus == m.total_gpus,
        s.alloc_gpus == m.alloc_gpus,
{
}

/// The scheduler view publishes the plugin and every counter under its own
/// name.
pub proof fn scheduler_view_carries_the_stats(v: SchedulerStatisticsView, st: SchedStats)
    requires
        v.shows(st),
    ensures
        v.plugin@ == st.plugin@,
        v.cycles == st.cycles,
        v.cycle_last_time_us == st.cycle_last_time_us,
        v.cycle_total_time_us == st.cycle_total_time_us,
        v.cycle_avg_time_us == st.cycle_avg_time_us,
        v.schedule_last_time_us == st.schedule_last_time_us,
        v.schedule_total_time_us == st.schedule_total_time_us,
        v.schedule_avg_time_us == st.schedule_avg_time_us,
        v.jobs_submitted == st.jobs_submitted,
        v.jobs_started == st.jobs_started,
        v.jobs_finalized == st.jobs_finalized,
        v.jobs_started_last_cycle == st.jobs_started_last_cycle,
        v.exit_end == st.exit_end,
        v.exit_max_depth == st.exit_max_depth,
{
}

/// An RPC entry publishes the operation's name, call count, average and total
/// time.
pub proof fn rpc_entry_carries_the_operation(op: RpcOperationStats)
    ensures
        rpc_view(op).operation@ == op.operation@,
        rpc_view(op).count == op.count,
        rpc_view(op).average_time_us == op.avg_time_us,
        rpc_view(op).total_time_us == op.total_time_us,
{
}

/// A job state's count is the count of the first entry recorded for its
/// discriminant, and zero when no entry has it.
pub proof fn job_counts_come_from_the_first_entry(entries: Seq<JobStateCount>, wire: i32)
    ensures
        forall|k: int|
            0 <= k < entries.len() && (#[trigger] entries[k]).state == wire && (forall|j: int|
                0 <= j < k ==> (#[trigger] entries[j]).state != wire) ==> job_entry_count(entries, wire)
                == entries[k].count,
        (forall|k: int| 0 <= k < entries.len() ==> (#[trigger] entries[k]).state != wire)
            ==> job_entry_count(entries, wire) == 0,
    decreases entries.len(),
{
    if entries.len() > 0 {
        let rest = entries.drop_first();
        job_counts_come_from_the_first_entry(rest, wire);
        assert forall|k: int|
            0 <= k < entries.len() && (#[trigger] entries[k]).state == wire && (forall|j: int|
                0 <= j < k ==> (#[trigger] entries[j]).state != wire) implies job_entry_count(entries, wire)
            == entries[k].count by {
            if k > 0 {
                assert(entries[0].state != wire);
                assert(rest[k - 1] == entries[k]);
                assert forall|j: int| 0 <= j < k - 1 implies (#[trigger] rest[j]).state != wire by {
                    assert(rest[j] == entries[j + 1]);
                }
            }
        }
        if forall|k: int| 0 <= k < entries.len() ==> (#[trigger] entries[k]).state != wire {
            assert(entries[0].state != wire);
            assert forall|k: int| 0 <= k < rest.len() implies (#[trigger] rest[k]).state != wire by {
                assert(rest[k] == entries[k + 1]);
            }
        }
    }
}

/// A node state's count is the count of the first entry recorded for its
/// discriminant, and zero when no entry has it.
pub proof fn node_counts_come_from_the_first_entry(entries: Seq<NodeStateCount>, wire: i32)
    ensures
        forall|k: int|
            0 <= k < entries.len() && (#[trigger] entries[k]).state == wire && (forall|j: int|
                0 <= j < k ==> (#[trigger] entries[j]).state != wire) ==> node_entry_count(entries, wire)
                == entries[k].count,
        (forall|k: int| 0 <= k < entries.len() ==> (#[trigger] entries[k]).state != wire)
            ==> node_entry_count(entries, wire) == 0,
    decreases entries.len(),
{
    if entries.len() > 0 {
        let rest = entries.drop_first();
        node_counts_come_from_the_first_entry(rest, wire);
        assert forall|k: int|
            0 <= k < entries.len() && (#[trigger] entries[k]).state == wire && (forall|j: int|
                0 <= j < k ==> (#[trigger] entries[j]).state != wire) implies node_entry_count(entries, wire)
            == entries[k].count by {
            if k > 0 {
                assert(entries[0].state != wire);
                assert(rest[k - 1] == entries[k]);
                assert forall|j: int| 0 <= j < k - 1 implies (#[trigger] rest[j]).state != wire by {
                    assert(rest[j] == entries[j + 1]);
                }
            }
        }
        if forall|k: int| 0 <= k < entries.len() ==> (#[trigger] entries[k]).state != wire {
            assert(entries[0].state != wire);
            assert forall|k: int| 0 <= k < rest.len() implies (#[trigger] rest[k]).state != wire by {
                assert(rest[k] == entries[k + 1]);
            }
        }
    }
}

} // verus!
