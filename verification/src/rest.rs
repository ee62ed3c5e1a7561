//! The REST API's request parsing, error documents and handler decisions.
//!
//! Response bodies reuse the shared envelope and views; only the status codes,
//! the request bodies and the decisions handlers make are local.
use vstd::prelude::*;

use std::collections::HashMap;

use crate::envelope::{is_default_meta, ApiError, Envelope};
use crate::state::{
    all_job_states, first_job_state_named, job_state_named_by_own_texts, job_state_texts_are_words,
    JobState,
};
use crate::text::{chars_of, decimal, eq_ignore_ascii_case, labeled_number, labeled_text, same_text_ignore_ascii_case, trim, trim_chars};
use crate::util::{csv_items, csv_list, csv_round_trip, list_safe};
use crate::text::{ascii_lower, join, lemma_join_ends, lemma_trim_unchanged};

verus! {

/// The message for a state filter with no states in it.
pub open spec fn empty_filter_text() -> Seq<char> {
    "Invalid job state specified: (empty)"@
}

/// The message for a token that names no job state.
pub open spec fn invalid_state_text(token: Seq<char>) -> Seq<char> {
    "Invalid job state specified: "@ + token
}

/// The states the tokens name, in order; the first token that names no
/// state is reported instead.
pub open spec fn states_named(tokens: Seq<Seq<char>>) -> Result<Seq<JobState>, Seq<char>>
    decreases tokens.len(),
{
    if tokens.len() == 0 {
        Ok(Seq::empty())
    } else {
        match first_job_state_named(all_job_states(), tokens[0]) {
            None => Err(invalid_state_text(tokens[0])),
            Some(s) => match states_named(tokens.drop_first()) {
                Ok(rest) => Ok(seq![s] + rest),
                Err(e) => Err(e),
            },
        }
    }
}

/// What a `state=` query parameter asks for: `all` (ASCII case ignored)
/// means no filter; otherwise the comma-separated tokens, trimmed and
/// non-blank, must each name a state by name or code.
pub open spec fn states_query(s: Seq<char>) -> Result<Seq<JobState>, Seq<char>> {
    let t = trim(s);
    if eq_ignore_ascii_case(t, "all"@) {
        Ok(Seq::empty())
    } else if csv_items(t).len() == 0 {
        Err(empty_filter_text())
    } else {
        states_named(csv_items(t))
    }
}

/// The result of a state filter, with the error message as text.
pub open spec fn states_result_text(r: Result<Vec<JobState>, String>) -> Result<Seq<JobState>, Seq<char>> {
    match r {
        Ok(v) => Ok(v@),
        Err(e) => Err(e@),
    }
}

/// Parses a `state=` query parameter into the job states it selects.
pub fn parse_states_query(s: &str) -> (r: Result<Vec<JobState>, String>)
    ensures
        states_result_text(r) == states_query(s@),
{
    let trimmed = trim_chars(&chars_of(s));
    if same_text_ignore_ascii_case(trimmed.as_str(), "all") {
        return Ok(Vec::new());
    }
    let tokens = csv_list(trimmed.as_str());
    if tokens.len() == 0 {
        return Err(String::from_str("Invalid job state specified: (empty)"));
    }
    let ghost all_tokens = tokens.deep_view();
    assert(states_query(s@) == states_named(all_tokens));
    let mut states: Vec<JobState> = Vec::new();
    let mut i: usize = 0;
    assert(all_tokens.skip(0) == all_tokens);
    while i < tokens.len()
        invariant
            i <= tokens.len(),
            all_tokens == tokens.deep_view(),
            tokens.len() > 0,
            states_query(s@) == states_named(all_tokens),
            states_named(all_tokens) == (match states_named(all_tokens.skip(i as int)) {
                Ok(rest) => Ok(states@ + rest),
                Err(e) => Err(e),
            }),
        decreases tokens.len() - i,
    {
        let ghost rest = all_tokens.skip(i as int);
        assert(rest[0] == tokens[i as int]@);
        assert(rest.drop_first() == all_tokens.skip(i + 1));
        match JobState::from_code_or_name(tokens[i].as_str()) {
            Some(state) => {
                let ghost before = states@;
                states.push(state);
                proof {
                    if let Ok(tail) = states_named(rest.drop_first()) {
                        assert(before + (seq![state] + tail) =~= states@ + tail);
                    }
                }
            },
            None => {
                return Err(labeled_text("Invalid job state specified: ", tokens[i].as_str()));
            },
        }
        i = i + 1;
    }
    assert(all_tokens.skip(tokens.len() as int) == Seq::<Seq<char>>::empty());
    assert(states@ + Seq::<JobState>::empty() == states@);
    Ok(states)
}

/// The HTTP status of an error document.
#[derive(Debug, Clone, Copy, PartialEq, Eq, Structural)]
pub enum HttpStatus {
    BadRequest,
    NotFound,
    InternalServerError,
    ServiceUnavailable,
}

impl HttpStatus {
    pub open spec fn number(self) -> u16 {
        match self {
            HttpStatus::BadRequest => 400,
            HttpStatus::NotFound => 404,
            HttpStatus::InternalServerError => 500,
            HttpStatus::ServiceUnavailable => 503,
        }
    }

    /// The numeric status code.
    pub fn code(&self) -> (r: u16)
        ensures
            r == self.number(),
    {
        match self {
            HttpStatus::BadRequest => 400,
            HttpStatus::NotFound => 404,
            HttpStatus::InternalServerError => 500,
            HttpStatus::ServiceUnavailable => 503,
        }
    }
}

/// The empty JSON object, `{}`, that error documents carry as their payload.
#[derive(Debug, Clone, Copy, PartialEq, Eq, Default)]
pub struct EmptyObject {}

pub type ApiResponse<T> = Envelope<T>;

/// An error answer: its status and the document carrying the message.
pub type RestError = (HttpStatus, Envelope<EmptyObject>);

/// Whether `e` answers with `status` and a document whose only error is `msg`.
pub open spec fn is_error(e: RestError, status: HttpStatus, msg: Seq<char>) -> bool {
    &&& e.0 == status
    &&& is_default_meta(e.1.meta)
    &&& e.1.errors.len() == 1
    &&& e.1.errors[0].error@ == msg
    &&& e.1.errors[0].error_number is None
    &&& e.1.warnings.len() == 0
}

/// A successful answer carrying `data`.
pub fn ok<T>(data: T) -> (r: ApiResponse<T>)
    ensures
        r.data == data,
        is_default_meta(r.meta),
        r.errors.len() == 0,
        r.warnings.len() == 0,
{
    Envelope::new(data)
}

/// An error answer with `status` and message `msg`.
pub fn api_error_response(status: HttpStatus, msg: &str) -> (r: RestError)
    ensures
        is_error(r, status, msg@),
{
    let errors = vec![ApiError::new(msg)];
    (status, Envelope::new(EmptyObject {}).with_errors(errors))
}

pub fn error_response(msg: &str) -> (r: RestError)
    ensures
        is_error(r, HttpStatus::InternalServerError, msg@),
{
    api_error_response(HttpStatus::InternalServerError, msg)
}

pub fn bad_request_response(msg: &str) -> (r: RestError)
    ensures
        is_error(r, HttpStatus::BadRequest, msg@),
{
    api_error_response(HttpStatus::BadRequest, msg)
}

pub fn not_found_response(msg: &str) -> (r: RestError)
    ensures
        is_error(r, HttpStatus::NotFound, msg@),
{
    api_error_response(HttpStatus::NotFound, msg)
}

pub fn unavailable_response(msg: &str) -> (r: RestError)
    ensures
        is_error(r, HttpStatus::ServiceUnavailable, msg@),
{
    api_error_response(HttpStatus::ServiceUnavailable, msg)
}

// -- Request/response data types --

#[derive(Debug, Clone)]
pub struct PingData {
    pub ping: Vec<PingInfo>,
}

#[derive(Debug, Clone)]
pub struct PingInfo {
    pub hostname: String,
    pub pinged: String,
    pub latency: u64,
    pub mode: String,
}

#[derive(Debug, Clone, Default)]
pub struct JobsQuery {
    pub user: Option<String>,
    pub partition: Option<String>,
    pub state: Option<String>,
    pub account: Option<String>,
    pub name: Option<String>,
}

#[derive(Debug, Clone, Default)]
pub struct SubmitRequest {
    pub job: SubmitJobFields,
}

#[derive(Debug, Clone, Default)]
pub struct SubmitJobFields {
    pub name: Option<String>,
    pub user: Option<String>,
    pub partition: Option<String>,
    pub account: Option<String>,
    pub nodes: Option<u32>,
    pub ntasks: Option<u32>,
    pub cpus_per_task: Option<u32>,
    pub time_limit: Option<String>,
    pub script: Option<String>,
    pub environment: HashMap<String, String>,
    pub gres: Vec<String>,
    /// GPU requests ("4" or "mi300x:4"); at most one may be set.
    pub gpus: Option<String>,
    pub gpus_per_node: Option<String>,
    pub gpus_per_task: Option<String>,
}

/// The job a submit request describes, before its time limit and GPU
/// requests are interpreted: counts default to one, a missing name or user
/// to the empty text, and a blank GPU field to no request.
#[derive(Debug, Clone)]
pub struct JobRequestFields {
    pub name: String,
    pub user: String,
    pub partition: Option<String>,
    pub account: Option<String>,
    pub num_nodes: u32,
    pub num_tasks: u32,
    pub cpus_per_task: u32,
    pub time_limit: Option<String>,
    pub script: Option<String>,
    pub environment: HashMap<String, String>,
    pub gres: Vec<String>,
    pub gpus: Option<String>,
    pub gpus_per_node: Option<String>,
    pub gpus_per_task: Option<String>,
}

/// The given text, or the empty text.
pub open spec fn text_or_empty(s: Option<String>) -> Seq<char> {
    match s {
        Some(t) => t@,
        None => Seq::empty(),
    }
}

/// The given count, or one.
pub open spec fn count_or_one(n: Option<u32>) -> u32 {
    match n {
        Some(v) => v,
        None => 1,
    }
}

/// Whether `r` is the GPU request field `given`: absent when `given` is
/// absent or blank, else the same text.
pub open spec fn gpu_field(r: Option<String>, given: Option<String>) -> bool {
    match given {
        Some(g) => if g@.len() == 0 {
            r is None
        } else {
            r matches Some(t) && t@ == g@
        },
        None => r is None,
    }
}

fn gpu_request_text(value: Option<String>) -> (r: Option<String>)
    ensures
        gpu_field(r, value),
{
    match value {
        Some(v) => if chars_of(v.as_str()).len() == 0 {
            None
        } else {
            Some(v)
        },
        None => None,
    }
}

/// The fields of the job `job` asks for, with the defaults filled in.
pub fn job_request_fields(job: SubmitJobFields) -> (r: JobRequestFields)
    ensures
        r.name@ == text_or_empty(job.name),
        r.user@ == text_or_empty(job.user),
        r.partition == job.partition,
        r.account == job.account,
        r.num_nodes == count_or_one(job.nodes),
        r.num_tasks == count_or_one(job.ntasks),
        r.cpus_per_task == count_or_one(job.cpus_per_task),
        r.time_limit == job.time_limit,
        r.script == job.script,
        r.environment == job.environment,
        r.gres == job.gres,
        gpu_field(r.gpus, job.gpus),
        gpu_field(r.gpus_per_node, job.gpus_per_node),
        gpu_field(r.gpus_per_task, job.gpus_per_task),
{
    let name = match job.name {
        Some(n) => n,
        None => String::new(),
    };
    let user = match job.user {
        Some(u) => u,
        None => String::new(),
    };
    let num_nodes = match job.nodes {
        Some(n) => n,
        None => 1,
    };
    let num_tasks = match job.ntasks {
        Some(n) => n,
        None => 1,
    };
    let cpus_per_task = match job.cpus_per_task {
        Some(n) => n,
        None => 1,
    };
    JobRequestFields {
        name,
        user,
        partition: job.partition,
        account: job.account,
        num_nodes,
        num_tasks,
        cpus_per_task,
        time_limit: job.time_limit,
        script: job.script,
        environment: job.environment,
        gres: job.gres,
        gpus: gpu_request_text(job.gpus),
        gpus_per_node: gpu_request_text(job.gpus_per_node),
        gpus_per_task: gpu_request_text(job.gpus_per_task),
    }
}

#[derive(Debug, Clone, Copy)]
pub struct SubmitResponse {
    pub job_id: u32,
}

/// The local host's name, from `hostname::get`, when it can be read as text
/// (lossily); `None` when the call fails. Nothing is claimed of the name.
#[verifier::external_body]
fn machine_hostname() -> Option<String> {
    hostname::get().ok().map(|h| h.to_string_lossy().to_string())
}

/// The mode a controller reports: `primary` when it leads, else `replica`.
pub open spec fn mode_text(is_leader: bool) -> Seq<char> {
    if is_leader {
        "primary"@
    } else {
        "replica"@
    }
}

/// The ping answer of a controller named `hostname` (`unknown` when its name
/// could not be read): one entry, up, with no latency.
pub fn ping_data(hostname: Option<String>, is_leader: bool) -> (r: PingData)
    ensures
        r.ping.len() == 1,
        r.ping[0].hostname@ == (match hostname {
            Some(h) => h@,
            None => "unknown"@,
        }),
        r.ping[0].pinged@ == "UP"@,
        r.ping[0].latency == 0,
        r.ping[0].mode@ == mode_text(is_leader),
{
    let hostname = match hostname {
        Some(h) => h,
        None => String::from_str("unknown"),
    };
    let mode = if is_leader {
        String::from_str("primary")
    } else {
        String::from_str("replica")
    };
    PingData {
        ping: vec![PingInfo { hostname, pinged: String::from_str("UP"), latency: 0, mode }],
    }
}

/// The ping answer of this controller, named after the local host.
pub fn local_ping(is_leader: bool) -> (r: PingData)
    ensures
        r.ping.len() == 1,
        r.ping[0].pinged@ == "UP"@,
        r.ping[0].latency == 0,
        r.ping[0].mode@ == mode_text(is_leader),
{
    ping_data(machine_hostname(), is_leader)
}

/// The states a jobs query filters on: none without a `state` parameter;
/// a bad request when the parameter names something that is not a state.
pub fn jobs_query_states(query: &JobsQuery) -> (r: Result<Vec<JobState>, RestError>)
    ensures
        match query.state {
            None => r matches Ok(v) && v@.len() == 0,
            Some(s) => match (r, states_query(s@)) {
                (Ok(v), Ok(w)) => v@ == w,
                (Err(e), Err(msg)) => is_error(e, HttpStatus::BadRequest, msg),
                _ => false,
            },
        },
{
    match &query.state {
        Some(s) => match parse_states_query(s.as_str()) {
            Ok(v) => Ok(v),
            Err(e) => Err(bad_request_response(e.as_str())),
        },
        None => Ok(Vec::new()),
    }
}

/// Writes are served by the Raft leader only; others answer unavailable.
pub fn require_leader(is_leader: bool) -> (r: Result<(), RestError>)
    ensures
        r is Ok <==> is_leader,
        r matches Err(e) ==> is_error(e, HttpStatus::ServiceUnavailable, "not the Raft leader"@),
{
    if !is_leader {
        return Err(unavailable_response("not the Raft leader"));
    }
    Ok(())
}

/// The answer for a job that does not exist.
pub fn job_not_found(job_id: u32) -> (r: RestError)
    ensures
        is_error(r, HttpStatus::NotFound, "job "@ + decimal(job_id as nat) + " not found"@),
{
    let mut msg = labeled_number("job ", job_id as u64);
    msg.append(" not found");
    not_found_response(msg.as_str())
}

/// The answer for a node that does not exist.
pub fn node_not_found(name: &str) -> (r: RestError)
    ensures
        is_error(r, HttpStatus::NotFound, "node "@ + name@ + " not found"@),
{
    let mut msg = labeled_text("node ", name);
    msg.append(" not found");
    not_found_response(msg.as_str())
}

/// Why the controller refused a submission.
#[derive(Debug, Clone)]
pub enum SubmitError {
    /// The request itself is wrong.
    InvalidArgument(String),
    /// The controller failed to take the job.
    Internal(String),
}

/// The answer to a refused submission: a bad request for an invalid
/// argument, an internal error otherwise.
pub fn submit_rest_error(err: SubmitError) -> (r: RestError)
    ensures
        match err {
            SubmitError::InvalidArgument(m) => is_error(r, HttpStatus::BadRequest, m@),
            SubmitError::Internal(m) => is_error(
                r,
                HttpStatus::InternalServerError,
                "submit failed: "@ + m@,
            ),
        },
{
    match err {
        SubmitError::InvalidArgument(m) => bad_request_response(m.as_str()),
        SubmitError::Internal(m) => error_response(labeled_text("submit failed: ", m.as_str()).as_str()),
    }
}

/// The answer to a failed cancellation.
pub fn cancel_failed(reason: &str) -> (r: RestError)
    ensures
        is_error(r, HttpStatus::InternalServerError, "cancel failed: "@ + reason@),
{
    error_response(labeled_text("cancel failed: ", reason).as_str())
}


proof fn lemma_states_named_own(states: Seq<JobState>, names: Seq<Seq<char>>)
    requires
        names.len() == states.len(),
        forall|i: int| 0 <= i < states.len() ==> (#[trigger] names[i]) == states[i].name()
            || names[i] == states[i].code(),
    ensures
        states_named(names) == Ok::<Seq<JobState>, Seq<char>>(states),
    decreases states.len(),
{
    if states.len() > 0 {
        job_state_named_by_own_texts(states[0]);
        assert(names[0] == states[0].name() || names[0] == states[0].code());
        assert forall|i: int| 0 <= i < states.drop_first().len() implies (
        #[trigger] names.drop_first()[i]) == states.drop_first()[i].name()
            || names.drop_first()[i] == states.drop_first()[i].code() by {
            assert(names.drop_first()[i] == names[i + 1]);
            assert(states.drop_first()[i] == states[i + 1]);
        }
        lemma_states_named_own(states.drop_first(), names.drop_first());
        assert(seq![states[0]] + states.drop_first() == states);
    } else {
        assert(states == Seq::<JobState>::empty());
    }
}

proof fn lemma_filter_round_trip(states: Seq<JobState>, names: Seq<Seq<char>>)
    requires
        states.len() >= 1,
        names.len() == states.len(),
        forall|i: int| 0 <= i < states.len() ==> (#[trigger] names[i]) == states[i].name()
            || names[i] == states[i].code(),
    ensures
        states_query(join(names, seq![','])) == Ok::<Seq<JobState>, Seq<char>>(states),
{
    let t = join(names, seq![',']);
    assert forall|i: int| 0 <= i < names.len() implies list_safe(#[trigger] names[i]) by {
        job_state_texts_are_words(states[i]);
    }
    job_state_texts_are_words(states[0]);
    job_state_texts_are_words(states.last());
    assert(names.last() == names[names.len() - 1]);
    assert(list_safe(names[0]));
    assert(list_safe(names.last()));
    lemma_join_ends(names, seq![',']);
    lemma_trim_unchanged(t);
    csv_round_trip(names);
    reveal_strlit("all");
    assert(!eq_ignore_ascii_case(t, "all"@)) by {
        if eq_ignore_ascii_case(t, "all"@) {
            assert(ascii_lower(t[0]) == ascii_lower("all"@[0]));
        }
    }
    lemma_states_named_own(states, names);
}

/// A filter that lists job states by name, separated by commas, selects
/// exactly those states, in order; so does one that lists them by code.
pub proof fn states_filter_round_trip(states: Seq<JobState>)
    requires
        states.len() >= 1,
    ensures
        states_query(join(states.map_values(|s: JobState| s.name()), seq![','])) == Ok::<
            Seq<JobState>,
            Seq<char>,
        >(states),
        states_query(join(states.map_values(|s: JobState| s.code()), seq![','])) == Ok::<
            Seq<JobState>,
            Seq<char>,
        >(states),
{
    lemma_filter_round_trip(states, states.map_values(|s: JobState| s.name()));
    lemma_filter_round_trip(states, states.map_values(|s: JobState| s.code()));
}

/// The state `t` names, if any.
pub open spec fn state_named(t: Seq<char>) -> Option<JobState> {
    first_job_state_named(all_job_states(), t)
}

proof fn lemma_states_named(tokens: Seq<Seq<char>>)
    ensures
        (states_named(tokens) is Err) <==> exists|k: int|
            0 <= k < tokens.len() && (#[trigger] state_named(tokens[k])) is None,
        match states_named(tokens) {
            Ok(v) => v.len() == tokens.len() && forall|i: int|
                0 <= i < tokens.len() ==> #[trigger] state_named(tokens[i]) == Some(v[i]),
            Err(e) => exists|k: int|
                0 <= k < tokens.len() && (#[trigger] state_named(tokens[k])) is None && e
                    == invalid_state_text(tokens[k]) && forall|j: int|
                    0 <= j < k ==> (#[trigger] state_named(tokens[j])) is Some,
        },
    decreases tokens.len(),
{
    if tokens.len() > 0 {
        let rest = tokens.drop_first();
        lemma_states_named(rest);
        assert forall|k: int| 1 <= k < tokens.len() implies tokens[k] == rest[k - 1] by {}
        match state_named(tokens[0]) {
            None => {
                assert(state_named(tokens[0]) is None);
            },
            Some(s0) => {
                match states_named(rest) {
                    Ok(rv) => {
                        let v = seq![s0] + rv;
                        assert(states_named(tokens) == Ok::<Seq<JobState>, Seq<char>>(v));
                        assert forall|i: int| 0 <= i < tokens.len() implies #[trigger] state_named(
                            tokens[i],
                        ) == Some(v[i]) by {
                            if i > 0 {
                                assert(tokens[i] == rest[i - 1]);
                                assert(v[i] == rv[i - 1]);
                            }
                        }
                        assert(!exists|k: int|
                            0 <= k < tokens.len() && (#[trigger] state_named(tokens[k])) is None);
                    },
                    Err(e) => {
                        let k = choose|k: int|
                            0 <= k < rest.len() && (#[trigger] state_named(rest[k])) is None && e
                                == invalid_state_text(rest[k]) && forall|j: int|
                                0 <= j < k ==> (#[trigger] state_named(rest[j])) is Some;
                        assert(tokens[k + 1] == rest[k]);
                        assert forall|j: int| 0 <= j < k + 1 implies (#[trigger] state_named(
                            tokens[j],
                        )) is Some by {
                            if j > 0 {
                                assert(tokens[j] == rest[j - 1]);
                            }
                        }
                        assert(state_named(tokens[k + 1]) is None);
                    },
                }
            },
        }
    }
}

/// A `state=` filter: `all` (ASCII case ignored, after trimming) selects
/// every state; otherwise, of the trimmed non-blank comma-separated tokens,
/// none is an error, any token that names no state is an error reported by
/// the first such token, and when every token names a state the filter
/// selects those states, one per token, in order.
pub proof fn states_query_selects_named_states(s: Seq<char>)
    ensures
        eq_ignore_ascii_case(trim(s), "all"@) ==> states_query(s) == Ok::<
            Seq<JobState>,
            Seq<char>,
        >(Seq::empty()),
        !eq_ignore_ascii_case(trim(s), "all"@) ==> ((states_query(s) is Err) <==> (csv_items(
            trim(s),
        ).len() == 0 || exists|k: int|
            0 <= k < csv_items(trim(s)).len() && (#[trigger] state_named(csv_items(trim(s))[k]))
                is None)),
        !eq_ignore_ascii_case(trim(s), "all"@) && csv_items(trim(s)).len() == 0 ==> states_query(s)
            == Err::<Seq<JobState>, Seq<char>>(empty_filter_text()),
        !eq_ignore_ascii_case(trim(s), "all"@) && csv_items(trim(s)).len() > 0 ==> match states_query(
            s,
        ) {
            Ok(v) => v.len() == csv_items(trim(s)).len() && forall|i: int|
                0 <= i < v.len() ==> #[trigger] state_named(csv_items(trim(s))[i]) == Some(v[i]),
            Err(e) => exists|k: int|
                0 <= k < csv_items(trim(s)).len() && (#[trigger] state_named(csv_items(trim(s))[k]))
                    is None && e == invalid_state_text(csv_items(trim(s))[k]) && forall|j: int|
                    0 <= j < k ==> (#[trigger] state_named(csv_items(trim(s))[j])) is Some,
        },
{
    lemma_states_named(csv_items(trim(s)));
}

/// The leader reports itself as `primary`, any other controller as
/// `replica`; errors answer 400 for a bad request, 404 for a missing entity,
/// 500 for an internal failure and 503 when the controller cannot serve.
pub proof fn modes_and_statuses(is_leader: bool, status: HttpStatus)
    ensures
        is_leader ==> mode_text(is_leader) == "primary"@,
        !is_leader ==> mode_text(is_leader) == "replica"@,
        status == HttpStatus::BadRequest ==> status.number() == 400,
        status == HttpStatus::NotFound ==> status.number() == 404,
        status == HttpStatus::InternalServerError ==> status.number() == 500,
        status == HttpStatus::ServiceUnavailable ==> status.number() == 503,
{
}

} // verus!
