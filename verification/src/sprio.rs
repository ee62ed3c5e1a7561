//! `sprio`: the priority breakdown of pending jobs.
//!
//! The integer inputs of each job's priority (its age, its partition's tier,
//! its QOS) are worked out here once, so that the text and structured
//! renderers start from the same values.
use vstd::prelude::*;

use crate::ids::{job_id_list, parse_job_ids};
use crate::output::OutputArgs;
use crate::state::JobState;
use crate::text::{
    align_right, chars_of, decimal, decimal_string, join, join_strings, lemma_align_right_fits,
    lemma_decimal_len_u32, lemma_join_first, lemma_join_last, push_line, right_aligned, same_text,
};
use crate::wire::{GetJobsRequest, JobInfo, PartitionInfo};

verus! {

/// Queue time, in minutes, at which the age factor saturates: one week.
pub const AGE_FACTOR_SATURATION_MINUTES: i64 = 10080;

/// Options of `sprio`.
#[derive(Debug, Clone)]
pub struct SprioArgs {
    /// Show only these job IDs (comma-separated)
    pub jobs: Option<String>,
    /// Show only jobs for this user
    pub user: Option<String>,
    /// Long format (more detail)
    pub long: bool,
    /// Don't print header
    pub noheader: bool,
    pub output: OutputArgs,
    /// Controller address
    pub controller: String,
}

/// The inputs of one pending job's priority.
#[derive(Debug, Clone)]
pub struct PriorityFactorsView {
    pub job_id: u32,
    pub user_name: String,
    pub partition: String,
    /// The job's QOS, `normal` when it has none.
    pub qos: String,
    pub priority: u32,
    /// Whole minutes since submission, rounded toward zero.
    pub age_minutes: i64,
    /// The tier of the job's partition, 1 when the partition is unknown.
    pub partition_tier: u32,
}

/// Seconds at which `job` was submitted; a job without a submit time counts
/// as submitted `now`.
pub open spec fn submitted_at(job: JobInfo, now: i64) -> i64 {
    match job.submit_time {
        Some(t) => t.seconds,
        None => now,
    }
}

/// The tier of the first partition named `name`, if any.
pub open spec fn tier_of(partitions: Seq<PartitionInfo>, name: Seq<char>) -> Option<u32>
    decreases partitions.len(),
{
    if partitions.len() == 0 {
        None
    } else if partitions[0].name@ == name {
        Some(partitions[0].priority_tier)
    } else {
        tier_of(partitions.drop_first(), name)
    }
}

/// The QOS a job is reported under: its own, or `normal` when it has none.
pub open spec fn reported_qos(qos: Seq<char>) -> Seq<char> {
    if qos.len() == 0 {
        "normal"@
    } else {
        qos
    }
}

/// Whether `f` holds the priority inputs of `job` at time `now`.
pub open spec fn factors_of(f: PriorityFactorsView, job: JobInfo, partitions: Seq<PartitionInfo>, now: i64) -> bool {
    &&& f.job_id == job.job_id
    &&& f.user_name@ == job.user@
    &&& f.partition@ == job.partition@
    &&& f.qos@ == reported_qos(job.qos@)
    &&& f.priority == job.priority
    &&& f.age_minutes == crate::util::div_toward_zero(now - submitted_at(job, now), 60)
    &&& f.partition_tier == (match tier_of(partitions, job.partition@) {
        Some(t) => t,
        None => 1,
    })
}

/// The tier of the partition named `name`, 1 when there is none.
fn partition_tier(partitions: &[PartitionInfo], name: &str) -> (r: u32)
    ensures
        r == (match tier_of(partitions@, name@) {
            Some(t) => t,
            None => 1,
        }),
{
    let mut i: usize = 0;
    assert(partitions@.skip(0) == partitions@);
    while i < partitions.len()
        invariant
            i <= partitions.len(),
            tier_of(partitions@, name@) == tier_of(partitions@.skip(i as int), name@),
        decreases partitions.len() - i,
    {
        assert(partitions@.skip(i as int)[0] == partitions@[i as int]);
        assert(partitions@.skip(i as int).drop_first() == partitions@.skip(i + 1));
        if same_text(partitions[i].name.as_str(), name) {
            return partitions[i].priority_tier;
        }
        i = i + 1;
    }
    1
}

/// The priority inputs of each job, in order, at time `now_secs`. The time
/// since each submission must fit in an `i64`.
pub fn priority_factors(jobs: &[JobInfo], partitions: &[PartitionInfo], now_secs: i64) -> (r: Vec<
    PriorityFactorsView,
>)
    requires
        forall|i: int|
            0 <= i < jobs.len() ==> i64::MIN <= now_secs - submitted_at(#[trigger] jobs[i], now_secs)
                <= i64::MAX,
    ensures
        r.len() == jobs.len(),
        forall|i: int| 0 <= i < jobs.len() ==> factors_of(#[trigger] r[i], jobs[i], partitions@, now_secs),
{
    let mut out: Vec<PriorityFactorsView> = Vec::new();
    let mut i: usize = 0;
    while i < jobs.len()
        invariant
            i <= jobs.len(),
            out.len() == i,
            forall|j: int|
                0 <= j < jobs.len() ==> i64::MIN <= now_secs - submitted_at(#[trigger] jobs[j], now_secs)
                    <= i64::MAX,
            forall|j: int| 0 <= j < i ==> factors_of(#[trigger] out[j], jobs[j], partitions@, now_secs),
        decreases jobs.len() - i,
    {
        let job = &jobs[i];
        let submit_secs = match &job.submit_time {
            Some(t) => t.seconds,
            None => now_secs,
        };
        assert(i64::MIN <= now_secs - submitted_at(jobs[i as int], now_secs));
        let age_minutes = (now_secs - submit_secs) / 60;
        let qos = if chars_of(job.qos.as_str()).len() == 0 {
            String::from_str("normal")
        } else {
            job.qos.clone()
        };
        out.push(
            PriorityFactorsView {
                job_id: job.job_id,
                user_name: job.user.clone(),
                partition: job.partition.clone(),
                qos,
                priority: job.priority,
                age_minutes,
                partition_tier: partition_tier(partitions, job.partition.as_str()),
            },
        );
        i = i + 1;
    }
    out
}


/// The query `sprio` sends: pending jobs, of the requested user and job IDs
/// when given.
pub fn pending_jobs_request(args: &SprioArgs) -> (r: GetJobsRequest)
    ensures
        r.states@ == seq![JobState::Pending.wire()],
        r.user@ == (match args.user {
            Some(u) => u@,
            None => Seq::empty(),
        }),
        r.partition@.len() == 0,
        r.account@.len() == 0,
        r.job_ids@ == (match args.jobs {
            Some(j) => job_id_list(j@),
            None => Seq::empty(),
        }),
        r.name@.len() == 0,
{
    let job_ids = match &args.jobs {
        Some(j) => parse_job_ids(j.as_str()),
        None => Vec::new(),
    };
    let user = match &args.user {
        Some(u) => u.clone(),
        None => String::new(),
    };
    GetJobsRequest {
        states: vec![JobState::Pending.to_proto_i32()],
        user,
        partition: String::new(),
        account: String::new(),
        job_ids,
        name: String::new(),
    }
}

/// One row of the `sprio` report: a job's priority inputs with the factors
/// derived from them. The two factors are given already printed with four
/// decimals.
#[derive(Debug, Clone)]
pub struct PriorityLine {
    pub job_id: u32,
    pub user_name: String,
    pub priority: u32,
    pub age_factor: String,
    pub fair_share_factor: String,
    pub partition: String,
    pub partition_tier: u32,
    pub qos: String,
    pub effective_priority: u32,
}

/// Cells right-aligned to their widths and separated by one space.
pub open spec fn columns(cells: Seq<(Seq<char>, nat)>) -> Seq<char> {
    join(cells.map_values(|c: (Seq<char>, nat)| align_right(c.0, c.1)), " "@)
}

/// The header of the long report.
pub open spec fn long_header() -> Seq<char> {
    columns(
        seq![
            ("JOBID"@, 10),
            ("USER"@, 10),
            ("PRIORITY"@, 10),
            ("AGE"@, 10),
            ("FAIRSHARE"@, 10),
            ("PARTITION"@, 12),
            ("QOS"@, 10),
            ("EFFECTIVE"@, 10),
        ],
    )
}

/// The header of the short report.
pub open spec fn short_header() -> Seq<char> {
    columns(
        seq![
            ("JOBID"@, 10),
            ("USER"@, 10),
            ("PRIORITY"@, 10),
            ("AGE"@, 10),
            ("FAIRSHARE"@, 10),
            ("PARTITION"@, 10),
        ],
    )
}

/// A row of the long report; the partition shows its tier, as `gpu(T2)`.
pub open spec fn long_row(l: PriorityLine) -> Seq<char> {
    columns(
        seq![
            (decimal(l.job_id as nat), 10),
            (l.user_name@, 10),
            (decimal(l.priority as nat), 10),
            (l.age_factor@, 10),
            (l.fair_share_factor@, 10),
            (l.partition@ + "(T"@ + decimal(l.partition_tier as nat) + ")"@, 12),
            (l.qos@, 10),
            (decimal(l.effective_priority as nat), 10),
        ],
    )
}

/// A row of the short report; its last column is the partition tier.
pub open spec fn short_row(l: PriorityLine) -> Seq<char> {
    columns(
        seq![
            (decimal(l.job_id as nat), 10),
            (l.user_name@, 10),
            (decimal(l.priority as nat), 10),
            (l.age_factor@, 10),
            (l.fair_share_factor@, 10),
            (decimal(l.partition_tier as nat), 10),
        ],
    )
}

/// The report: the header unless suppressed, then a row per job, in the long
/// or the short form.
pub open spec fn report_text(long: bool, noheader: bool, lines: Seq<PriorityLine>) -> Seq<Seq<char>> {
    if long {
        (if noheader {
            Seq::empty()
        } else {
            seq![long_header()]
        }) + lines.map_values(|l: PriorityLine| long_row(l))
    } else {
        (if noheader {
            Seq::empty()
        } else {
            seq![short_header()]
        }) + lines.map_values(|l: PriorityLine| short_row(l))
    }
}

/// Right-aligns each cell to its width and joins them with one space.
fn render_columns(cells: &Vec<(String, usize)>) -> (r: String)
    ensures
        r@ == columns(cells@.map_values(|c: (String, usize)| (c.0@, c.1 as nat))),
{
    let ghost spec_cells = cells@.map_values(|c: (String, usize)| (c.0@, c.1 as nat));
    let mut parts: Vec<String> = Vec::new();
    let mut i: usize = 0;
    while i < cells.len()
        invariant
            i <= cells.len(),
            spec_cells == cells@.map_values(|c: (String, usize)| (c.0@, c.1 as nat)),
            parts.deep_view() == spec_cells.take(i as int).map_values(
                |c: (Seq<char>, nat)| align_right(c.0, c.1),
            ),
        decreases cells.len() - i,
    {
        push_line(&mut parts, right_aligned(cells[i].0.as_str(), cells[i].1));
        assert(spec_cells.take(i + 1) == spec_cells.take(i as int).push(spec_cells[i as int]));
        assert(spec_cells.take(i + 1).map_values(|c: (Seq<char>, nat)| align_right(c.0, c.1))
            == spec_cells.take(i as int).map_values(|c: (Seq<char>, nat)| align_right(c.0, c.1)).push(
            align_right(spec_cells[i as int].0, spec_cells[i as int].1),
        ));
        i = i + 1;
    }
    assert(spec_cells.take(cells.len() as int) == spec_cells);
    join_strings(&parts, " ")
}

/// A row of the long report.
fn long_line(l: &PriorityLine) -> (r: String)
    ensures
        r@ == long_row(*l),
{
    let mut partition = l.partition.clone();
    partition.append("(T");
    partition.append(decimal_string(l.partition_tier as u64).as_str());
    partition.append(")");
    let cells = vec![
        (decimal_string(l.job_id as u64), 10usize),
        (l.user_name.clone(), 10usize),
        (decimal_string(l.priority as u64), 10usize),
        (l.age_factor.clone(), 10usize),
        (l.fair_share_factor.clone(), 10usize),
        (partition, 12usize),
        (l.qos.clone(), 10usize),
        (decimal_string(l.effective_priority as u64), 10usize),
    ];
    let r = render_columns(&cells);
    assert(cells@.map_values(|c: (String, usize)| (c.0@, c.1 as nat)) =~= seq![
        (decimal(l.job_id as nat), 10nat),
        (l.user_name@, 10nat),
        (decimal(l.priority as nat), 10nat),
        (l.age_factor@, 10nat),
        (l.fair_share_factor@, 10nat),
        (l.partition@ + "(T"@ + decimal(l.partition_tier as nat) + ")"@, 12nat),
        (l.qos@, 10nat),
        (decimal(l.effective_priority as nat), 10nat),
    ]);
    r
}

/// A row of the short report.
fn short_line(l: &PriorityLine) -> (r: String)
    ensures
        r@ == short_row(*l),
{
    let cells = vec![
        (decimal_string(l.job_id as u64), 10usize),
        (l.user_name.clone(), 10usize),
        (decimal_string(l.priority as u64), 10usize),
        (l.age_factor.clone(), 10usize),
        (l.fair_share_factor.clone(), 10usize),
        (decimal_string(l.partition_tier as u64), 10usize),
    ];
    let r = render_columns(&cells);
    assert(cells@.map_values(|c: (String, usize)| (c.0@, c.1 as nat)) =~= seq![
        (decimal(l.job_id as nat), 10nat),
        (l.user_name@, 10nat),
        (decimal(l.priority as nat), 10nat),
        (l.age_factor@, 10nat),
        (l.fair_share_factor@, 10nat),
        (decimal(l.partition_tier as nat), 10nat),
    ]);
    r
}

/// A header line from its column names and widths.
fn header_line(names: Vec<(String, usize)>) -> (r: String)
    ensures
        r@ == columns(names@.map_values(|c: (String, usize)| (c.0@, c.1 as nat))),
{
    render_columns(&names)
}

/// The text report of `sprio`.
pub fn render_text(args: &SprioArgs, lines: &[PriorityLine]) -> (r: Vec<String>)
    ensures
        r.deep_view() == report_text(args.long, args.noheader, lines@),
{
    let mut out: Vec<String> = Vec::new();
    if !args.noheader {
        if args.long {
            let names = vec![
                (String::from_str("JOBID"), 10usize),
                (String::from_str("USER"), 10usize),
                (String::from_str("PRIORITY"), 10usize),
                (String::from_str("AGE"), 10usize),
                (String::from_str("FAIRSHARE"), 10usize),
                (String::from_str("PARTITION"), 12usize),
                (String::from_str("QOS"), 10usize),
                (String::from_str("EFFECTIVE"), 10usize),
            ];
            assert(names@.map_values(|c: (String, usize)| (c.0@, c.1 as nat)) =~= seq![
                ("JOBID"@, 10nat),
                ("USER"@, 10nat),
                ("PRIORITY"@, 10nat),
                ("AGE"@, 10nat),
                ("FAIRSHARE"@, 10nat),
                ("PARTITION"@, 12nat),
                ("QOS"@, 10nat),
                ("EFFECTIVE"@, 10nat),
            ]);
            push_line(&mut out, header_line(names));
        } else {
            let names = vec![
                (String::from_str("JOBID"), 10usize),
                (String::from_str("USER"), 10usize),
                (String::from_str("PRIORITY"), 10usize),
                (String::from_str("AGE"), 10usize),
                (String::from_str("FAIRSHARE"), 10usize),
                (String::from_str("PARTITION"), 10usize),
            ];
            assert(names@.map_values(|c: (String, usize)| (c.0@, c.1 as nat)) =~= seq![
                ("JOBID"@, 10nat),
                ("USER"@, 10nat),
                ("PRIORITY"@, 10nat),
                ("AGE"@, 10nat),
                ("FAIRSHARE"@, 10nat),
                ("PARTITION"@, 10nat),
            ]);
            push_line(&mut out, header_line(names));
        }
    }
    let ghost head = out.deep_view();
    let mut i: usize = 0;
    while i < lines.len()
        invariant
            i <= lines.len(),
            args.long ==> out.deep_view() == head + lines@.take(i as int).map_values(
                |l: PriorityLine| long_row(l),
            ),
            !args.long ==> out.deep_view() == head + lines@.take(i as int).map_values(
                |l: PriorityLine| short_row(l),
            ),
        decreases lines.len() - i,
    {
        assert(lines@.take(i + 1) == lines@.take(i as int).push(lines@[i as int]));
        if args.long {
            push_line(&mut out, long_line(&lines[i]));
            assert(lines@.take(i + 1).map_values(|l: PriorityLine| long_row(l)) == lines@.take(
                i as int,
            ).map_values(|l: PriorityLine| long_row(l)).push(long_row(lines@[i as int])));
        } else {
            push_line(&mut out, short_line(&lines[i]));
            assert(lines@.take(i + 1).map_values(|l: PriorityLine| short_row(l)) == lines@.take(
                i as int,
            ).map_values(|l: PriorityLine| short_row(l)).push(short_row(lines@[i as int])));
        }
        i = i + 1;
    }
    assert(lines@.take(lines.len() as int) == lines@);
    out
}

/// A row of columns begins with its first cell and ends with its last, each
/// right-aligned to its width.
proof fn lemma_columns_ends(cells: Seq<(Seq<char>, nat)>)
    requires
        cells.len() >= 1,
    ensures
        ({
            let c = columns(cells);
            let first = align_right(cells[0].0, cells[0].1);
            let last = align_right(cells.last().0, cells.last().1);
            &&& c.len() >= first.len()
            &&& c.len() >= last.len()
            &&& c.subrange(0, first.len() as int) == first
            &&& c.subrange(c.len() - last.len(), c.len() as int) == last
        }),
{
    let items = cells.map_values(|c: (Seq<char>, nat)| align_right(c.0, c.1));
    assert(items[0] == align_right(cells[0].0, cells[0].1));
    assert(items.last() == align_right(cells.last().0, cells.last().1));
    lemma_join_first(items, " "@);
    lemma_join_last(items, " "@);
}

/// Every row of the long report begins with the job ID and ends with the
/// job's effective priority, each in decimal and right-aligned to ten
/// characters, the columns the header heads `JOBID` and `EFFECTIVE`.
pub proof fn long_row_columns(l: PriorityLine)
    ensures
        long_row(l).len() >= 10,
        long_row(l).subrange(0, 10) == align_right(decimal(l.job_id as nat), 10),
        long_row(l).subrange(long_row(l).len() - 10, long_row(l).len() as int) == align_right(
            decimal(l.effective_priority as nat),
            10,
        ),
        long_header().len() >= 10,
        long_header().subrange(0, 10) == align_right("JOBID"@, 10),
        long_header().subrange(long_header().len() - 10, long_header().len() as int)
            == align_right("EFFECTIVE"@, 10),
{
    reveal_strlit("JOBID");
    reveal_strlit("EFFECTIVE");
    lemma_decimal_len_u32(l.job_id);
    lemma_decimal_len_u32(l.effective_priority);
    lemma_align_right_fits(decimal(l.job_id as nat), 10);
    lemma_align_right_fits(decimal(l.effective_priority as nat), 10);
    lemma_align_right_fits("JOBID"@, 10);
    lemma_align_right_fits("EFFECTIVE"@, 10);
    assert forall|cells: Seq<(Seq<char>, nat)>| cells.len() >= 1 implies ({
        let c = #[trigger] columns(cells);
        let first = align_right(cells[0].0, cells[0].1);
        let last = align_right(cells.last().0, cells.last().1);
        &&& c.len() >= first.len()
        &&& c.len() >= last.len()
        &&& c.subrange(0, first.len() as int) == first
        &&& c.subrange(c.len() - last.len(), c.len() as int) == last
    }) by {
        lemma_columns_ends(cells);
    }
}

/// Every row of the short report begins with the job ID and ends with the
/// partition's tier, each in decimal and right-aligned to ten characters,
/// the columns the header heads `JOBID` and `PARTITION`.
pub proof fn short_row_columns(l: PriorityLine)
    ensures
        short_row(l).len() >= 10,
        short_row(l).subrange(0, 10) == align_right(decimal(l.job_id as nat), 10),
        short_row(l).subrange(short_row(l).len() - 10, short_row(l).len() as int) == align_right(
            decimal(l.partition_tier as nat),
            10,
        ),
        short_header().len() >= 10,
        short_header().subrange(0, 10) == align_right("JOBID"@, 10),
        short_header().subrange(short_header().len() - 10, short_header().len() as int)
            == align_right("PARTITION"@, 10),
{
    reveal_strlit("JOBID");
    reveal_strlit("PARTITION");
    lemma_decimal_len_u32(l.job_id);
    lemma_decimal_len_u32(l.partition_tier);
    lemma_align_right_fits(decimal(l.job_id as nat), 10);
    lemma_align_right_fits(decimal(l.partition_tier as nat), 10);
    lemma_align_right_fits("JOBID"@, 10);
    lemma_align_right_fits("PARTITION"@, 10);
    assert forall|cells: Seq<(Seq<char>, nat)>| cells.len() >= 1 implies ({
        let c = #[trigger] columns(cells);
        let first = align_right(cells[0].0, cells[0].1);
        let last = align_right(cells.last().0, cells.last().1);
        &&& c.len() >= first.len()
        &&& c.len() >= last.len()
        &&& c.subrange(0, first.len() as int) == first
        &&& c.subrange(c.len() - last.len(), c.len() as int) == last
    }) by {
        lemma_columns_ends(cells);
    }
}

proof fn lemma_tier_of_first(partitions: Seq<PartitionInfo>, name: Seq<char>)
    ensures
        forall|k: int|
            0 <= k < partitions.len() && (#[trigger] partitions[k]).name@ == name && (forall|j: int|
                0 <= j < k ==> (#[trigger] partitions[j]).name@ != name) ==> tier_of(partitions, name)
                == Some(partitions[k].priority_tier),
        (forall|k: int| 0 <= k < partitions.len() ==> (#[trigger] partitions[k]).name@ != name)
            ==> tier_of(partitions, name) is None,
    decreases partitions.len(),
{
    if partitions.len() > 0 {
        let rest = partitions.drop_first();
        lemma_tier_of_first(rest, name);
        assert forall|k: int|
            0 <= k < partitions.len() && (#[trigger] partitions[k]).name@ == name && (forall|j: int|
                0 <= j < k ==> (#[trigger] partitions[j]).name@ != name) implies tier_of(
            partitions,
            name,
        ) == Some(partitions[k].priority_tier) by {
            if k > 0 {
                assert(partitions[0].name@ != name);
                assert(rest[k - 1] == partitions[k]);
                assert forall|j: int| 0 <= j < k - 1 implies (#[trigger] rest[j]).name@ != name by {
                    assert(rest[j] == partitions[j + 1]);
                }
            }
        }
        if forall|k: int| 0 <= k < partitions.len() ==> (#[trigger] partitions[k]).name@ != name {
            assert(partitions[0].name@ != name);
            assert forall|k: int| 0 <= k < rest.len() implies (#[trigger] rest[k]).name@ != name by {
                assert(rest[k] == partitions[k + 1]);
            }
        }
    }
}

/// A job's priority inputs: its ID, user, partition and base priority; its
/// QOS, or `normal` when it has none; the whole minutes since it was
/// submitted, rounded toward zero, and zero when it has no submit time; and
/// the tier of the first partition with its partition's name, or 1 when no
/// partition has that name.
pub proof fn priority_inputs_of_a_job(
    f: PriorityFactorsView,
    job: JobInfo,
    partitions: Seq<PartitionInfo>,
    now: i64,
)
    requires
        factors_of(f, job, partitions, now),
    ensures
        f.job_id == job.job_id,
        f.user_name@ == job.user@,
        f.partition@ == job.partition@,
        f.priority == job.priority,
        job.qos@.len() == 0 ==> f.qos@ == "normal"@,
        job.qos@.len() > 0 ==> f.qos@ == job.qos@,
        job.submit_time matches Some(t) ==> f.age_minutes == (if now - t.seconds >= 0 {
            (now - t.seconds) / 60
        } else {
            -((t.seconds - now) / 60)
        }),
        job.submit_time is None ==> f.age_minutes == 0,
        forall|k: int|
            0 <= k < partitions.len() && (#[trigger] partitions[k]).name@ == job.partition@ && (
            forall|j: int| 0 <= j < k ==> (#[trigger] partitions[j]).name@ != job.partition@)
                ==> f.partition_tier == partitions[k].priority_tier,
        (forall|k: int| 0 <= k < partitions.len() ==> (#[trigger] partitions[k]).name@ != job.partition@)
            ==> f.partition_tier == 1,
{
    lemma_tier_of_first(partitions, job.partition@);
}

/// The items of a join of eight, read left to right with the separator
/// between neighbours.
proof fn lemma_join_eight(items: Seq<Seq<char>>, sep: Seq<char>)
    requires
        items.len() == 8,
    ensures
        join(items, sep) == items[0] + sep + items[1] + sep + items[2] + sep + items[3] + sep
            + items[4] + sep + items[5] + sep + items[6] + sep + items[7],
{
    assert(items.take(1).len() == 1 && items.take(1)[0] == items[0]);
    assert(join(items.take(1), sep) == items[0]);
    assert(items.take(2).drop_last() == items.take(1));
    assert(items.take(2).last() == items[1]);
    assert(join(items.take(2), sep) == join(items.take(1), sep) + sep + items[1]);
    assert(items.take(3).drop_last() == items.take(2));
    assert(items.take(3).last() == items[2]);
    assert(join(items.take(3), sep) == join(items.take(2), sep) + sep + items[2]);
    assert(items.take(4).drop_last() == items.take(3));
    assert(items.take(4).last() == items[3]);
    assert(join(items.take(4), sep) == join(items.take(3), sep) + sep + items[3]);
    assert(items.take(5).drop_last() == items.take(4));
    assert(items.take(5).last() == items[4]);
    assert(join(items.take(5), sep) == join(items.take(4), sep) + sep + items[4]);
    assert(items.take(6).drop_last() == items.take(5));
    assert(items.take(6).last() == items[5]);
    assert(join(items.take(6), sep) == join(items.take(5), sep) + sep + items[5]);
    assert(items.take(7).drop_last() == items.take(6));
    assert(items.take(7).last() == items[6]);
    assert(join(items.take(7), sep) == join(items.take(6), sep) + sep + items[6]);
    assert(items.take(8).drop_last() == items.take(7));
    assert(items.take(8).last() == items[7]);
    assert(join(items.take(8), sep) == join(items.take(7), sep) + sep + items[7]);
    assert(items.take(8) == items);
}

/// The items of a join of six, read left to right with the separator between
/// neighbours.
proof fn lemma_join_six(items: Seq<Seq<char>>, sep: Seq<char>)
    requires
        items.len() == 6,
    ensures
        join(items, sep) == items[0] + sep + items[1] + sep + items[2] + sep + items[3] + sep
            + items[4] + sep + items[5],
{
    assert(items.take(1).len() == 1 && items.take(1)[0] == items[0]);
    assert(join(items.take(1), sep) == items[0]);
    assert(items.take(2).drop_last() == items.take(1));
    assert(items.take(2).last() == items[1]);
    assert(join(items.take(2), sep) == join(items.take(1), sep) + sep + items[1]);
    assert(items.take(3).drop_last() == items.take(2));
    assert(items.take(3).last() == items[2]);
    assert(join(items.take(3), sep) == join(items.take(2), sep) + sep + items[2]);
    assert(items.take(4).drop_last() == items.take(3));
    assert(items.take(4).last() == items[3]);
    assert(join(items.take(4), sep) == join(items.take(3), sep) + sep + items[3]);
    assert(items.take(5).drop_last() == items.take(4));
    assert(items.take(5).last() == items[4]);
    assert(join(items.take(5), sep) == join(items.take(4), sep) + sep + items[4]);
    assert(items.take(6).drop_last() == items.take(5));
    assert(items.take(6).last() == items[5]);
    assert(join(items.take(6), sep) == join(items.take(5), sep) + sep + items[5]);
    assert(items.take(6) == items);
}

/// A row of the long report reads, left to right and one space apart, each
/// right-aligned: the job ID and user in ten characters, the base priority,
/// the age and fair-share factors as printed, the partition with its tier as
/// `name(Tn)` in twelve, the QOS, and the effective priority.
pub proof fn long_row_reads_the_line(l: PriorityLine)
    ensures
        long_row(l) == align_right(decimal(l.job_id as nat), 10) + " "@ + align_right(l.user_name@, 10)
            + " "@ + align_right(decimal(l.priority as nat), 10) + " "@ + align_right(l.age_factor@, 10)
            + " "@ + align_right(l.fair_share_factor@, 10) + " "@ + align_right(
            l.partition@ + "(T"@ + decimal(l.partition_tier as nat) + ")"@,
            12,
        ) + " "@ + align_right(l.qos@, 10) + " "@ + align_right(decimal(l.effective_priority as nat), 10),
{
    let cells = seq![
        (decimal(l.job_id as nat), 10nat),
        (l.user_name@, 10nat),
        (decimal(l.priority as nat), 10nat),
        (l.age_factor@, 10nat),
        (l.fair_share_factor@, 10nat),
        (l.partition@ + "(T"@ + decimal(l.partition_tier as nat) + ")"@, 12nat),
        (l.qos@, 10nat),
        (decimal(l.effective_priority as nat), 10nat),
    ];
    let items = cells.map_values(|c: (Seq<char>, nat)| align_right(c.0, c.1));
    assert(long_row(l) == join(items, " "@));
    lemma_join_eight(items, " "@);
}

/// A row of the short report reads, left to right and one space apart, each
/// right-aligned to ten characters: the job ID, the user, the base priority,
/// the age and fair-share factors as printed, and the partition's tier.
pub proof fn short_row_reads_the_line(l: PriorityLine)
    ensures
        short_row(l) == align_right(decimal(l.job_id as nat), 10) + " "@ + align_right(
            l.user_name@,
            10,
        ) + " "@ + align_right(decimal(l.priority as nat), 10) + " "@ + align_right(l.age_factor@, 10)
            + " "@ + align_right(l.fair_share_factor@, 10) + " "@ + align_right(
            decimal(l.partition_tier as nat),
            10,
        ),
{
    let cells = seq![
        (decimal(l.job_id as nat), 10nat),
        (l.user_name@, 10nat),
        (decimal(l.priority as nat), 10nat),
        (l.age_factor@, 10nat),
        (l.fair_share_factor@, 10nat),
        (decimal(l.partition_tier as nat), 10nat),
    ];
    let items = cells.map_values(|c: (Seq<char>, nat)| align_right(c.0, c.1));
    assert(short_row(l) == join(items, " "@));
    lemma_join_six(items, " "@);
}

/// The long report's header reads, left to right and one space apart, each
/// right-aligned: `JOBID`, `USER`, `PRIORITY`, `AGE`, `FAIRSHARE` in ten
/// characters, `PARTITION` in twelve, then `QOS` and `EFFECTIVE` in ten, so
/// each heads the column of the same place in a row.
pub proof fn long_header_reads_the_columns()
    ensures
        long_header() == align_right("JOBID"@, 10) + " "@ + align_right("USER"@, 10) + " "@ + align_right("PRIORITY"@, 10) + " "@ + align_right("AGE"@, 10) + " "@ + align_right("FAIRSHARE"@, 10) + " "@ + align_right("PARTITION"@, 12) + " "@ + align_right("QOS"@, 10) + " "@ + align_right("EFFECTIVE"@, 10),
{
    let cells = seq![("JOBID"@, 10nat), ("USER"@, 10nat), ("PRIORITY"@, 10nat), ("AGE"@, 10nat), ("FAIRSHARE"@, 10nat), ("PARTITION"@, 12nat), ("QOS"@, 10nat), ("EFFECTIVE"@, 10nat)];
    let items = cells.map_values(|c: (Seq<char>, nat)| align_right(c.0, c.1));
    assert(long_header() == join(items, " "@));
    lemma_join_eight(items, " "@);
}

/// The short report's header reads, left to right and one space apart, each
/// right-aligned to ten characters: `JOBID`, `USER`, `PRIORITY`, `AGE`,
/// `FAIRSHARE` and `PARTITION`, so each heads the column of the same place in
/// a row.
pub proof fn short_header_reads_the_columns()
    ensures
        short_header() == align_right("JOBID"@, 10) + " "@ + align_right("USER"@, 10) + " "@ + align_right("PRIORITY"@, 10) + " "@ + align_right("AGE"@, 10) + " "@ + align_right("FAIRSHARE"@, 10) + " "@ + align_right("PARTITION"@, 10),
{
    let cells = seq![("JOBID"@, 10nat), ("USER"@, 10nat), ("PRIORITY"@, 10nat), ("AGE"@, 10nat), ("FAIRSHARE"@, 10nat), ("PARTITION"@, 10nat)];
    let items = cells.map_values(|c: (Seq<char>, nat)| align_right(c.0, c.1));
    assert(short_header() == join(items, " "@));
    lemma_join_six(items, " "@);
}

} // verus!
