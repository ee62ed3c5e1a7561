use spur_api::diag::{active_jobs, finished_jobs, job_count, node_count, rpc_statistics, JobStatisticsSummary, NodeStatisticsSummary, ServerView};
use spur_api::state::{JobState, NodeState};
use spur_api::wire::{JobMetrics, JobStateCount, NodeMetrics, NodeStateCount, PingResponse, RpcOperationStats, RpcStats, Timestamp};

fn metrics() -> JobMetrics {
    JobMetrics {
        total: 6,
        by_state: vec![
            JobStateCount { state: JobState::Pending.to_proto_i32(), count: 1 },
            JobStateCount { state: JobState::Running.to_proto_i32(), count: 1 },
            JobStateCount { state: JobState::Suspended.to_proto_i32(), count: 1 },
            JobStateCount { state: JobState::NodeFail.to_proto_i32(), count: 1 },
            JobStateCount { state: JobState::Completed.to_proto_i32(), count: 2 },
        ],
        held_pending: 0,
        running_cpus: 4,
        running_memory_bytes: 0,
        running_gpus: 0,
    }
}

fn count_of(by_state: &[(String, u64)], name: &str) -> Option<u64> {
    by_state.iter().find(|(k, _)| k == name).map(|(_, c)| *c)
}

#[test]
fn derived_totals_use_terminal_and_active_flags() {
    assert_eq!(finished_jobs(&metrics()), 3);
    assert_eq!(active_jobs(&metrics()), 2);
}

#[test]
fn job_summary_keys_states_by_name() {
    let summary = JobStatisticsSummary::from(&metrics());
    assert_eq!(count_of(&summary.by_state, "RUNNING"), Some(1));
    assert_eq!(count_of(&summary.by_state, "COMPLETED"), Some(2));
    // Every known state is present, so consumers can index without checking.
    assert_eq!(summary.by_state.len(), JobState::all().len());
    assert_eq!(summary.finished, 3);
    assert_eq!(summary.active, 2);
}

#[test]
fn node_summary_keys_states_by_name() {
    let summary = NodeStatisticsSummary::from(&NodeMetrics::default());
    assert_eq!(count_of(&summary.by_state, "IDLE"), Some(0));
    assert_eq!(summary.by_state.len(), NodeState::all().len());
}

#[test]
fn the_first_entry_for_a_state_counts() {
    let m = JobMetrics {
        by_state: vec![
            JobStateCount { state: JobState::Running.to_proto_i32(), count: 5 },
            JobStateCount { state: JobState::Running.to_proto_i32(), count: 9 },
        ],
        ..Default::default()
    };
    assert_eq!(job_count(&m, JobState::Running), 5);
    assert_eq!(job_count(&m, JobState::Failed), 0);
    let n = NodeMetrics {
        by_state: vec![NodeStateCount { state: NodeState::Down.to_proto_i32(), count: 3 }],
        ..Default::default()
    };
    assert_eq!(node_count(&n, NodeState::Down), 3);
    assert_eq!(node_count(&n, NodeState::Idle), 0);
}

#[test]
fn rpc_statistics_sort_by_total_time_descending() {
    let stats = RpcStats {
        by_operation: vec![
            RpcOperationStats {
                operation: "GetJobs".into(),
                count: 5,
                total_time_us: 250,
                avg_time_us: 50,
            },
            RpcOperationStats {
                operation: "SubmitJob".into(),
                count: 2,
                total_time_us: 3000,
                avg_time_us: 1500,
            },
        ],
    };
    let views = rpc_statistics(&stats);
    assert_eq!(views[0].operation, "SubmitJob");
    assert_eq!(views[1].operation, "GetJobs");
}

#[test]
fn rpc_statistics_keep_the_order_of_equal_totals() {
    let op = |name: &str, total: u64| RpcOperationStats { operation: name.into(), count: 1, total_time_us: total, avg_time_us: total };
    let stats = RpcStats { by_operation: vec![op("a", 5), op("b", 9), op("c", 5), op("d", 9), op("e", 1)] };
    let names: Vec<String> = rpc_statistics(&stats).into_iter().map(|v| v.operation).collect();
    assert_eq!(names, vec!["b", "d", "a", "c", "e"]);
}

#[test]
fn server_view_copies_the_ping() {
    let ping = PingResponse {
        hostname: "ctld01".into(),
        version: "0.6.0".into(),
        server_time: Some(Timestamp { seconds: 77, nanos: 0 }),
        federation_peers: vec!["west@10.0.0.1:6817".into()],
    };
    let view = ServerView::from(&ping);
    assert_eq!(view.hostname, "ctld01");
    assert_eq!(view.server_time, Some(77));
    assert_eq!(view.federation_peers, vec!["west@10.0.0.1:6817"]);
}
