use spur_api::output::{Encoding, OutputArgs, OutputFormat, DATA_PARSER};
use spur_api::sprio::{pending_jobs_request, priority_factors, render_text, PriorityLine, SprioArgs};
use spur_api::state::JobState;
use spur_api::wire::{JobInfo, PartitionInfo, Timestamp};

fn pending(job_id: u32, partition: &str, priority: u32, submit_secs: i64) -> JobInfo {
    JobInfo {
        job_id,
        user: "alice".into(),
        partition: partition.into(),
        priority,
        submit_time: Some(Timestamp {
            seconds: submit_secs,
            nanos: 0,
        }),
        ..Default::default()
    }
}

fn args(long: bool, noheader: bool) -> SprioArgs {
    SprioArgs {
        jobs: None,
        user: None,
        long,
        noheader,
        output: OutputArgs::default(),
        controller: "http://localhost:6817".to_string(),
    }
}

fn line(job_id: u32, partition: &str, tier: u32) -> PriorityLine {
    PriorityLine {
        job_id,
        user_name: "alice".into(),
        priority: 100,
        age_factor: format!("{:.4}", 1.0),
        fair_share_factor: format!("{:.4}", 1.0),
        partition: partition.into(),
        partition_tier: tier,
        qos: "normal".into(),
        effective_priority: 100,
    }
}

#[test]
fn sprio_structured_output_flags_are_accepted() {
    let mut a = args(false, false);
    a.output = OutputArgs { json: Some(DATA_PARSER.to_string()), yaml: None };
    assert_eq!(a.output.format().unwrap(), OutputFormat::Structured(Encoding::Json));
    a.output = OutputArgs { json: None, yaml: Some(DATA_PARSER.to_string()) };
    assert_eq!(a.output.format().unwrap(), OutputFormat::Structured(Encoding::Yaml));
}

#[test]
fn a_freshly_submitted_job_has_no_age() {
    let factors = priority_factors(&[pending(1, "gpu", 100, 1_000)], &[], 1_000);
    assert_eq!(factors[0].age_minutes, 0);
    assert_eq!(factors[0].priority, 100);
}

#[test]
fn age_is_counted_in_whole_minutes() {
    let factors = priority_factors(&[pending(1, "gpu", 100, 0)], &[], 10080 * 60 * 4 + 59);
    assert_eq!(factors[0].age_minutes, 40320);
    let unsubmitted = JobInfo { job_id: 2, ..Default::default() };
    assert_eq!(priority_factors(&[unsubmitted], &[], 5_000)[0].age_minutes, 0);
}

#[test]
fn the_partition_tier_is_looked_up_by_name() {
    let partitions = vec![PartitionInfo {
        name: "gpu".into(),
        priority_tier: 3,
        ..Default::default()
    }];
    let factors = priority_factors(&[pending(1, "gpu", 100, 0)], &partitions, 0);
    assert_eq!(factors[0].partition_tier, 3);
}

#[test]
fn an_unknown_partition_falls_back_to_tier_one() {
    let factors = priority_factors(&[pending(1, "missing", 50, 0)], &[], 0);
    assert_eq!(factors[0].partition_tier, 1);
}

#[test]
fn an_empty_qos_is_reported_as_normal() {
    let factors = priority_factors(&[pending(1, "gpu", 1, 0)], &[], 0);
    assert_eq!(factors[0].qos, "normal");
    let mut job = pending(1, "gpu", 1, 0);
    job.qos = "high".into();
    assert_eq!(priority_factors(&[job], &[], 0)[0].qos, "high");
}

#[test]
fn long_output_adds_qos_and_effective_columns() {
    let lines = render_text(&args(true, false), &[line(7, "gpu", 1)]);
    assert!(lines[0].contains("EFFECTIVE"));
    assert!(lines[0].contains("QOS"));
    assert!(lines[1].contains("gpu(T1)"));
}

#[test]
fn noheader_suppresses_only_the_header() {
    let lines = render_text(&args(false, true), &[line(7, "gpu", 1)]);
    assert_eq!(lines.len(), 1);
    assert!(lines[0].contains('7'));
}

#[test]
fn short_rows_match_the_column_layout() {
    let lines = render_text(&args(false, false), &[line(7, "gpu", 2)]);
    assert_eq!(
        lines[0],
        format!("{:>10} {:>10} {:>10} {:>10} {:>10} {:>10}", "JOBID", "USER", "PRIORITY", "AGE", "FAIRSHARE", "PARTITION")
    );
    assert_eq!(
        lines[1],
        format!("{:>10} {:>10} {:>10} {:>10.4} {:>10.4} {:>10}", 7, "alice", 100, 1.0, 1.0, 2)
    );
}

#[test]
fn the_query_asks_for_pending_jobs_of_the_requested_ids() {
    let mut a = args(false, false);
    a.jobs = Some("3, 5,x".into());
    a.user = Some("bob".into());
    let req = pending_jobs_request(&a);
    assert_eq!(req.states, vec![JobState::Pending.to_proto_i32()]);
    assert_eq!(req.job_ids, vec![3, 5]);
    assert_eq!(req.user, "bob");
    let req = pending_jobs_request(&args(false, false));
    assert!(req.job_ids.is_empty());
    assert!(req.user.is_empty());
}
