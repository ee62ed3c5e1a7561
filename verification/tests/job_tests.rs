use spur_api::job::{job_state_name, step_id_label, time_limit_seconds, JobStatisticsView, JobView, StepView};
use spur_api::state::JobState;
use spur_api::util::{duration_secs, minutes, ts_secs};
use spur_api::wire::{DeviceGroup, Duration, JobInfo, JobStepInfo, ResourceAllocations, Timestamp};

fn sample() -> JobInfo {
    JobInfo {
        job_id: 42,
        name: "train".into(),
        user: "alice".into(),
        uid: 1000,
        partition: "gpu".into(),
        account: "research".into(),
        state: JobState::Running.to_proto_i32(),
        state_reason: "None".into(),
        submit_time: Some(Timestamp {
            seconds: 1_700_000_000,
            nanos: 0,
        }),
        start_time: Some(Timestamp {
            seconds: 1_700_000_060,
            nanos: 0,
        }),
        time_limit: Some(Duration {
            seconds: 3600,
            nanos: 0,
        }),
        run_time: Some(Duration {
            seconds: 120,
            nanos: 0,
        }),
        num_nodes: 2,
        num_tasks: 4,
        cpus_per_task: 8,
        nodelist: "node[01-02]".into(),
        qos: "normal".into(),
        priority: 500,
        ..Default::default()
    }
}

#[test]
fn job_view_carries_identity_and_state() {
    let view = JobView::from(&sample());
    assert_eq!(view.job_id, 42);
    assert_eq!(view.user_name, "alice");
    assert_eq!(view.job_state, "RUNNING");
    assert_eq!(view.nodes, "node[01-02]");
}

#[test]
fn time_limit_is_reported_in_minutes() {
    let view = JobView::from(&sample());
    assert_eq!(view.time_limit, Some(60));
    assert_eq!(view.run_time, 120);
}

#[test]
fn absent_times_and_limits_serialize_as_null() {
    let view = JobView::from(&JobInfo::default());
    assert_eq!(view.time_limit, None);
    assert_eq!(view.start_time, None);
    assert_eq!(view.end_time, None);
}

#[test]
fn unknown_state_discriminant_falls_back_to_a_name() {
    assert_eq!(job_state_name(9999), "UNKNOWN");
}

#[test]
fn statistics_view_derives_total_cpus_from_tasks() {
    let view = JobStatisticsView::from(&sample());
    assert_eq!(view.cpus, 32);
    assert_eq!(view.elapsed, 120);
    assert_eq!(view.gpus_allocated, 0);
}

#[test]
fn unsampled_statistics_counters_are_null_not_placeholders() {
    let view = JobStatisticsView::from(&sample());
    assert!(view.ave_rss.is_none());
    assert!(view.max_rss.is_none());
}

#[test]
fn statistics_view_counts_the_gpu_devices_and_memory() {
    let mut job = sample();
    job.resources = Some(ResourceAllocations {
        cpus: 32,
        memory_mb: 2048,
        devices: vec![
            DeviceGroup { kind: "nic".into(), devices: vec![0] },
            DeviceGroup { kind: "gpu".into(), devices: vec![0, 1, 2] },
        ],
    });
    let view = JobStatisticsView::from(&job);
    assert_eq!(view.gpus_allocated, 3);
    assert_eq!(view.memory_allocated_mb, 2048);
}

#[test]
fn a_task_counts_at_least_one_cpu() {
    let mut job = sample();
    job.cpus_per_task = 0;
    assert_eq!(JobStatisticsView::from(&job).cpus, 4);
}

#[test]
fn step_views_name_the_implicit_steps() {
    let step = JobStepInfo { job_id: 7, step_id: 0xFFFF_FFFE, name: "batch".into(), state: "RUNNING".into(), num_tasks: 1 };
    let view = StepView::from(&step);
    assert_eq!(view.step_name, "batch");
    assert_eq!(view.job_id, 7);
    assert_eq!(step_id_label(0xFFFF_FFFD), "extern");
    assert_eq!(step_id_label(4_294_967_295), "4294967295");
    assert_eq!(step_id_label(0), "0");
}

#[test]
fn every_state_has_its_name() {
    for s in JobState::all() {
        assert_eq!(job_state_name(s.to_proto_i32()), s.display());
        assert_eq!(JobState::from_proto_i32(s.to_proto_i32()), Some(s));
    }
    assert_eq!(job_state_name(-1), "UNKNOWN");
    assert_eq!(job_state_name(10), "UNKNOWN");
}

#[test]
fn minutes_truncates_toward_zero() {
    let d = Duration {
        seconds: 119,
        nanos: 0,
    };
    assert_eq!(minutes(Some(&d)), Some(1));
    assert_eq!(minutes(None), None);
}

#[test]
fn negative_durations_round_toward_zero_too() {
    let d = Duration { seconds: -119, nanos: 0 };
    assert_eq!(minutes(Some(&d)), Some(-1));
    let d = Duration { seconds: i64::MIN, nanos: 0 };
    assert_eq!(minutes(Some(&d)), Some(i64::MIN / 60));
}

#[test]
fn duration_secs_defaults_to_zero_when_absent() {
    assert_eq!(duration_secs(None), 0);
}

#[test]
fn ts_secs_preserves_absence() {
    assert_eq!(ts_secs(None), None);
    let t = Timestamp {
        seconds: 5,
        nanos: 0,
    };
    assert_eq!(ts_secs(Some(&t)), Some(5));
}

#[test]
fn time_limit_seconds_keeps_the_seconds() {
    assert_eq!(time_limit_seconds(&sample()), Some(3600));
    assert_eq!(time_limit_seconds(&JobInfo::default()), None);
}
