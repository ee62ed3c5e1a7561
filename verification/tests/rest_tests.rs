use spur_api::rest::{
    bad_request_response, cancel_failed, job_not_found, jobs_query_states, local_ping,
    node_not_found, parse_states_query, ping_data, require_leader, submit_rest_error, HttpStatus,
    JobsQuery, SubmitError,
};
use spur_api::rest::{job_request_fields, SubmitJobFields};
use spur_api::state::JobState;

#[test]
fn parse_states_query_accepts_valid_tokens() {
    let states = parse_states_query("RUNNING,PD").unwrap();
    assert_eq!(states.len(), 2);
    assert_eq!(states, vec![JobState::Running, JobState::Pending]);
}

#[test]
fn parse_states_query_rejects_unknown() {
    assert!(parse_states_query("BOGUS").is_err());
    assert!(parse_states_query("R,BOGUS").is_err());
}

#[test]
fn parse_states_query_all_means_no_filter() {
    assert!(parse_states_query("all").unwrap().is_empty());
}

#[test]
fn parse_states_query_reports_the_offending_token() {
    assert_eq!(parse_states_query("R, bogus ,x").unwrap_err(), "Invalid job state specified: bogus");
    assert_eq!(parse_states_query(" , ").unwrap_err(), "Invalid job state specified: (empty)");
    assert!(parse_states_query(" ALL ").unwrap().is_empty());
    assert_eq!(parse_states_query("running, cd").unwrap(), vec![JobState::Running, JobState::Completed]);
}

#[test]
fn error_responses_carry_the_message_in_the_envelope() {
    let (status, envelope) = bad_request_response("bad state");
    assert_eq!(status, HttpStatus::BadRequest);
    assert_eq!(status.code(), 400);
    assert_eq!(envelope.errors[0].error, "bad state");
    assert_eq!(envelope.meta.slurm.version.micro, 42);
}

#[test]
fn handler_errors_name_what_went_wrong() {
    let (status, env) = job_not_found(12);
    assert_eq!((status.code(), env.errors[0].error.as_str()), (404, "job 12 not found"));
    let (status, env) = node_not_found("n1");
    assert_eq!((status.code(), env.errors[0].error.as_str()), (404, "node n1 not found"));
    let (status, env) = submit_rest_error(SubmitError::Internal("disk".into()));
    assert_eq!((status.code(), env.errors[0].error.as_str()), (500, "submit failed: disk"));
    let (status, env) = submit_rest_error(SubmitError::InvalidArgument("no script".into()));
    assert_eq!((status.code(), env.errors[0].error.as_str()), (400, "no script"));
    let (status, env) = cancel_failed("gone");
    assert_eq!((status.code(), env.errors[0].error.as_str()), (500, "cancel failed: gone"));
    let (status, env) = require_leader(false).unwrap_err();
    assert_eq!((status.code(), env.errors[0].error.as_str()), (503, "not the Raft leader"));
    assert!(require_leader(true).is_ok());
}

#[test]
fn a_jobs_query_without_state_has_no_filter() {
    assert!(jobs_query_states(&JobsQuery::default()).unwrap().is_empty());
    let q = JobsQuery { state: Some("BOGUS".into()), ..Default::default() };
    let (status, env) = jobs_query_states(&q).unwrap_err();
    assert_eq!(status, HttpStatus::BadRequest);
    assert_eq!(env.errors[0].error, "Invalid job state specified: BOGUS");
}

#[test]
fn ping_reports_the_mode_and_a_hostname() {
    let data = ping_data(None, true);
    assert_eq!(data.ping[0].hostname, "unknown");
    assert_eq!(data.ping[0].mode, "primary");
    assert_eq!(data.ping[0].pinged, "UP");
    let data = ping_data(Some("ctld01".into()), false);
    assert_eq!(data.ping[0].hostname, "ctld01");
    assert_eq!(data.ping[0].mode, "replica");
    let local = local_ping(false);
    assert!(!local.ping[0].hostname.is_empty());
    assert_eq!(local.ping[0].latency, 0);
}

#[test]
fn job_request_fields_fill_in_the_defaults() {
    let fields = job_request_fields(SubmitJobFields::default());
    assert_eq!(fields.name, "");
    assert_eq!(fields.user, "");
    assert_eq!(fields.num_nodes, 1);
    assert_eq!(fields.num_tasks, 1);
    assert_eq!(fields.cpus_per_task, 1);
    assert!(fields.gpus.is_none());
    assert!(fields.gpus_per_node.is_none());
    assert!(fields.gpus_per_task.is_none());
}

#[test]
fn job_request_fields_keep_what_was_given() {
    let mut job = SubmitJobFields::default();
    job.name = Some("train".to_string());
    job.user = Some("alice".to_string());
    job.nodes = Some(4);
    job.ntasks = Some(8);
    job.cpus_per_task = Some(2);
    job.time_limit = Some("1:00:00".to_string());
    job.gpus = Some("mi300x:4".to_string());
    job.gpus_per_node = Some(String::new());
    job.gpus_per_task = None;
    let fields = job_request_fields(job);
    assert_eq!(fields.name, "train");
    assert_eq!(fields.user, "alice");
    assert_eq!(fields.num_nodes, 4);
    assert_eq!(fields.num_tasks, 8);
    assert_eq!(fields.cpus_per_task, 2);
    assert_eq!(fields.time_limit.as_deref(), Some("1:00:00"));
    assert_eq!(fields.gpus.as_deref(), Some("mi300x:4"));
    assert!(fields.gpus_per_node.is_none());
    assert!(fields.gpus_per_task.is_none());
}
