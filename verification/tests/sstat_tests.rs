use spur_api::output::{Encoding, OutputArgs, OutputFormat, DATA_PARSER};
use spur_api::sstat::{
    default_fields, field_width, format_duration, format_header, not_running_note, parse_field_list,
    render_text, requested_job_ids, resolve_field, statistics_views, SstatArgs, StatField,
};
use spur_api::state::JobState;
use spur_api::wire::{Duration, JobInfo};

fn running(job_id: u32) -> JobInfo {
    JobInfo {
        job_id,
        state: JobState::Running.to_proto_i32(),
        num_tasks: 4,
        cpus_per_task: 8,
        nodelist: "node[01-02]".into(),
        run_time: Some(Duration {
            seconds: 3661,
            nanos: 0,
        }),
        ..Default::default()
    }
}

fn args(job_id: &str) -> SstatArgs {
    SstatArgs {
        job_id: job_id.to_string(),
        format: None,
        noheader: false,
        parsable: false,
        output: OutputArgs::default(),
        controller: "http://localhost:6817".to_string(),
    }
}

#[test]
fn sstat_structured_output_flags_are_accepted() {
    let mut a = args("1");
    a.output.json = Some(DATA_PARSER.to_string());
    assert_eq!(a.output.format().unwrap(), OutputFormat::Structured(Encoding::Json));

    let mut a = args("1");
    a.output.yaml = Some(DATA_PARSER.to_string());
    assert_eq!(a.output.format().unwrap(), OutputFormat::Structured(Encoding::Yaml));
}

#[test]
fn json_document_carries_usage_under_a_statistics_key() {
    let views = statistics_views(&[running(5)]);
    assert_eq!(views[0].job_id, 5);
    assert_eq!(views[0].cpus, 32);
    assert_eq!(views[0].elapsed, 3661);
}

#[test]
fn text_rendering_emits_a_header_and_separator_above_the_rows() {
    let lines = render_text(&args("5"), &[running(5)]);
    assert_eq!(lines.len(), 3);
    assert!(lines[0].contains("JobID"));
    assert!(lines[1].contains("---"));
    assert!(lines[2].contains('5'));
}

#[test]
fn parsable_output_uses_pipes_and_omits_the_separator() {
    let mut a = args("5");
    a.parsable = true;
    let lines = render_text(&a, &[running(5)]);
    assert_eq!(lines.len(), 2);
    assert!(lines[0].ends_with('|'));
    assert!(lines[1].contains("node[01-02]|"));
}

#[test]
fn noheader_drops_the_header_and_its_separator() {
    let mut a = args("5");
    a.noheader = true;
    let lines = render_text(&a, &[running(5)]);
    assert_eq!(lines.len(), 1);
}

#[test]
fn non_numeric_job_ids_fail_before_connecting() {
    let err = requested_job_ids("abc").unwrap_err();
    assert!(err.contains("no valid job IDs"));
}

#[test]
fn job_ids_skip_pieces_that_are_not_numbers() {
    assert_eq!(requested_job_ids(" 3, x,+4,,4294967295,4294967296,-1").unwrap(), vec![3, 4, 4294967295]);
}

#[test]
fn rows_follow_the_default_columns() {
    let lines = render_text(&args("5"), &[running(5)]);
    let expected_header = format!(
        "{:>10}  {:>8}  {:>8}  {:>10}  {:>10}  {:>12}  {:>20}",
        "JobID", "NTasks", "NCPUS", "MemAlloc", "GPUAlloc", "Elapsed", "Nodelist"
    );
    assert_eq!(lines[0], expected_header);
    let expected_row = format!(
        "{:>10}  {:>8}  {:>8}  {:>10}  {:>10}  {:>12}  {:>20}",
        "5", "4", "32", "0M", "0", "01:01:01", "node[01-02]"
    );
    assert_eq!(lines[2], expected_row);
    assert_eq!(lines[1], format!("{}  {}  {}  {}  {}  {}  {}", "-".repeat(10), "-".repeat(8), "-".repeat(8), "-".repeat(10), "-".repeat(10), "-".repeat(12), "-".repeat(20)));
}

#[test]
fn field_names_are_matched_case_insensitively_with_aliases() {
    let (fields, unknown) = parse_field_list(" JobID, ncpus ,GRES,bogus,State");
    assert_eq!(fields, vec![StatField::JobId, StatField::Cpus, StatField::GpuAlloc, StatField::State]);
    assert_eq!(unknown, vec!["bogus"]);
    let (fields, _) = parse_field_list("\u{212A}ILL");
    assert!(fields.is_empty());
}

#[test]
fn unsampled_fields_print_placeholders() {
    let job = running(5);
    assert_eq!(resolve_field(&job, &StatField::AveCpu), "N/A");
    assert_eq!(resolve_field(&job, &StatField::MaxRss), "N/A");
    assert_eq!(resolve_field(&job, &StatField::State), "RUNNING");
    assert_eq!(resolve_field(&JobInfo::default(), &StatField::Elapsed), "00:00:00");
    assert_eq!(format_header(&StatField::JobId), "     JobID");
    assert_eq!(field_width(&StatField::NodeList), 20);
    assert_eq!(default_fields().len(), 7);
}

#[test]
fn durations_print_days_only_when_present() {
    assert_eq!(format_duration(0), "00:00:00");
    assert_eq!(format_duration(3661), "01:01:01");
    assert_eq!(format_duration(-59), "00:00:59");
    assert_eq!(format_duration(86_400 * 3 + 5), "3-00:00:05");
    assert_eq!(format_duration(i64::MIN), "106751991167300-15:30:08");
}

#[test]
fn jobs_that_are_not_running_are_noted() {
    assert!(not_running_note(5, &running(5)).is_none());
    let pending = JobInfo { job_id: 6, ..Default::default() };
    assert_eq!(not_running_note(6, &pending).unwrap(), "sstat: job 6 is not running (state: PENDING)");
}

#[test]
fn a_huge_cpu_total_only_matters_to_the_cpu_column() {
    let mut job = running(9);
    job.num_tasks = u32::MAX;
    job.cpus_per_task = 2;
    let mut a = args("9");
    a.format = Some("JobID,NTasks".to_string());
    a.parsable = true;
    a.noheader = true;
    assert_eq!(render_text(&a, &[job]), vec![format!("9|{}|", u32::MAX)]);
}

#[test]
fn field_names_match_in_any_case() {
    let (fields, unknown) = parse_field_list("JobID, NCPUS ,Elapsed,bogus");
    assert_eq!(fields, vec![StatField::JobId, StatField::Cpus, StatField::Elapsed]);
    assert_eq!(unknown, vec!["bogus".to_string()]);
}
