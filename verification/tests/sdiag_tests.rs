use spur_api::diag::{finished_jobs, job_count};
use spur_api::output::{Encoding, OutputArgs, OutputFormat, DATA_PARSER};
use spur_api::sdiag::{
    diagnostics_view, job_statistics_lines, node_statistics_lines, render_text,
    rpc_statistics_lines, scheduler_statistics_lines, server_time, SdiagArgs,
};
use spur_api::state::JobState;
use spur_api::wire::{JobMetrics, JobStateCount, NodeMetrics, PingResponse, RpcOperationStats, RpcStats, SchedStats, Timestamp};

fn args(noheader: bool, json: bool, yaml: bool) -> SdiagArgs {
    SdiagArgs {
        noheader,
        reset: false,
        output: OutputArgs {
            json: if json { Some(DATA_PARSER.to_string()) } else { None },
            yaml: if yaml { Some(DATA_PARSER.to_string()) } else { None },
        },
        controller: "http://localhost:6817".to_string(),
    }
}

/// The success rate as the command prints it: completed over finished, in
/// percent, with one decimal.
fn success_rate_text(m: &JobMetrics) -> String {
    let finished = finished_jobs(m);
    let rate = if finished == 0 {
        0.0
    } else {
        (job_count(m, JobState::Completed) as f64 / finished as f64) * 100.0
    };
    format!("{:.1}", rate)
}

#[test]
fn sdiag_structured_output_flags_are_accepted() {
    assert_eq!(
        args(false, true, false).output.format().unwrap(),
        OutputFormat::Structured(Encoding::Json)
    );
    assert_eq!(
        args(false, false, true).output.format().unwrap(),
        OutputFormat::Structured(Encoding::Yaml)
    );
}

#[test]
fn json_document_nests_every_section_under_statistics() {
    let view = diagnostics_view(
        &PingResponse {
            hostname: "ctld01".into(),
            version: "0.6.0".into(),
            ..Default::default()
        },
        &JobMetrics::default(),
        &NodeMetrics::default(),
        &SchedStats {
            plugin: "backfill".into(),
            cycles: 5,
            ..Default::default()
        },
        &RpcStats::default(),
    );
    assert_eq!(view.server.hostname, "ctld01");
    assert_eq!(view.scheduler.plugin, "backfill");
    assert_eq!(view.scheduler.cycles, 5);
    assert!(view.rpcs.is_empty());
    assert!(!view.jobs.by_state.is_empty());
}

#[test]
fn text_rendering_includes_the_banner_unless_suppressed() {
    let ping = PingResponse {
        hostname: "ctld01".into(),
        ..Default::default()
    };
    let jm = JobMetrics::default();
    let render = |noheader: bool| {
        render_text(
            &args(noheader, false, false),
            &ping,
            &jm,
            &NodeMetrics::default(),
            &SchedStats::default(),
            &RpcStats::default(),
            &success_rate_text(&jm),
        )
    };
    assert!(render(false)[0].starts_with("****"));
    assert_eq!(render(true)[0], "Server Information:");
}

#[test]
fn server_time_is_rendered_in_utc_or_not_available() {
    let ping = PingResponse {
        server_time: Some(Timestamp { seconds: 1_700_000_000, nanos: 0 }),
        ..Default::default()
    };
    assert_eq!(server_time(&ping), "2023-11-14T22:13:20");
    assert_eq!(server_time(&PingResponse::default()), "N/A");
    let ping = PingResponse {
        hostname: "ctld01".into(),
        federation_peers: vec!["west@a".into(), "east@b".into()],
        server_time: Some(Timestamp { seconds: 0, nanos: 0 }),
        ..Default::default()
    };
    let jm = JobMetrics::default();
    let lines = render_text(&args(false, false, false), &ping, &jm, &NodeMetrics::default(), &SchedStats::default(), &RpcStats::default(), &success_rate_text(&jm));
    assert_eq!(lines[1], "sdiag output at 1970-01-01T00:00:00");
    assert!(lines.iter().any(|l| l == "  Federation Peers  : west@a, east@b"));
    assert!(lines.iter().any(|l| l == "  Server Time       : 1970-01-01T00:00:00"));
}

#[test]
fn job_statistics_lines_report_every_state_and_the_derived_totals() {
    let metrics = JobMetrics {
        total: 3,
        by_state: vec![
            JobStateCount {
                state: JobState::Running.to_proto_i32(),
                count: 1,
            },
            JobStateCount {
                state: JobState::Completed.to_proto_i32(),
                count: 2,
            },
        ],
        ..Default::default()
    };
    let lines = job_statistics_lines(&metrics, &success_rate_text(&metrics));
    assert!(lines
        .iter()
        .any(|l| l.contains("RUNNING") && l.ends_with('1')));
    assert!(lines.iter().any(|l| l.contains("Finished Jobs     : 2")));
    assert!(lines
        .iter()
        .any(|l| l.contains("Success Rate      : 100.0%")));
    assert!(lines.iter().any(|l| l.contains("Active Jobs       : 1")));
}

#[test]
fn job_statistics_lines_pad_state_names_and_show_held_jobs() {
    let metrics = JobMetrics { held_pending: 2, running_memory_bytes: 1536, ..Default::default() };
    let lines = job_statistics_lines(&metrics, "0.0");
    assert!(lines.iter().any(|l| l == "  PENDING           : 0"));
    assert!(lines.iter().any(|l| l == "  Held (pending)    : 2"));
    assert!(lines.iter().any(|l| l == "  Memory Allocated  : 1.5 KiB"));
    assert!(!job_statistics_lines(&JobMetrics::default(), "0.0").iter().any(|l| l.contains("Held")));
}

#[test]
fn node_statistics_lines_report_capacity_and_allocation() {
    let metrics = NodeMetrics {
        total: 2,
        total_cpus: 256,
        alloc_cpus: 64,
        ..Default::default()
    };
    let lines = node_statistics_lines(&metrics);
    assert!(lines.iter().any(|l| l.contains("Total Nodes       : 2")));
    assert!(lines.iter().any(|l| l.contains("Total CPUs        : 256")));
    assert!(lines.iter().any(|l| l.contains("Allocated CPUs    : 64")));
    assert!(lines.iter().any(|l| l.contains("IDLE")));
}

#[test]
fn scheduler_statistics_lines_include_cycle_and_lifecycle_fields() {
    let stats = SchedStats {
        plugin: "backfill".into(),
        cycles: 5,
        cycle_total_time_us: 2500,
        cycle_last_time_us: 600,
        cycle_avg_time_us: 500,
        schedule_total_time_us: 800,
        schedule_last_time_us: 200,
        schedule_avg_time_us: 160,
        jobs_submitted: 10,
        jobs_started: 8,
        jobs_finalized: 7,
        jobs_started_last_cycle: 2,
        exit_end: 4,
        exit_max_depth: 1,
    };
    let lines = scheduler_statistics_lines(&stats);
    assert!(lines.iter().any(|l| l.contains("Plugin")));
    assert!(lines.iter().any(|l| l.contains("Cycles")));
    assert!(lines.iter().any(|l| l.contains("Cycle total (us)")));
    assert!(lines.iter().any(|l| l.contains("Schedule total (us)")));
    assert!(lines.iter().any(|l| l.contains("Jobs started (last) : 2")));
    assert!(lines.iter().any(|l| l.contains("Exit end of queue   : 4")));
    assert!(lines.iter().any(|l| l.contains("Exit max depth      : 1")));
}

#[test]
fn rpc_statistics_lines_empty_state() {
    let lines = rpc_statistics_lines(&RpcStats::default());
    assert!(lines.iter().any(|l| l == "  (no RPC calls recorded)"));
    assert!(lines
        .iter()
        .any(|l| l == "Remote Procedure Call statistics by operation:"));
}

#[test]
fn rpc_statistics_lines_sorted_by_total_time_us() {
    let stats = RpcStats {
        by_operation: vec![
            RpcOperationStats {
                operation: "GetJobs".into(),
                count: 5,
                total_time_us: 250,
                avg_time_us: 50,
            },
            RpcOperationStats {
                operation: "SubmitJob".into(),
                count: 2,
                total_time_us: 3000,
                avg_time_us: 1500,
            },
        ],
    };
    let lines = rpc_statistics_lines(&stats);
    let data_lines: Vec<&String> = lines.iter().filter(|l| l.contains("count:")).collect();
    assert_eq!(data_lines.len(), 2);
    assert!(data_lines[0].contains("SubmitJob"));
    assert!(data_lines[1].contains("GetJobs"));
    assert!(data_lines[0].contains("ave_time_us:"));
    assert!(data_lines[0].contains("total_time_us:3000"));
}

#[test]
fn rpc_rows_match_the_column_layout() {
    let stats = RpcStats {
        by_operation: vec![RpcOperationStats { operation: "Ping".into(), count: 7, total_time_us: 90, avg_time_us: 12 }],
    };
    let lines = rpc_statistics_lines(&stats);
    assert_eq!(
        lines[2],
        format!("  {:24} count:{:8}  ave_time_us:{:8}  total_time_us:{}", "Ping", 7, 12, 90)
    );
}
