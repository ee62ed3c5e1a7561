//! `sstat`: live usage of running jobs, as a structured document or a table.
use vstd::prelude::*;

use crate::ids::{job_id_list, parse_job_ids};
use crate::job::{devices_of_kind, gpu_count, job_state_text, JobStatisticsView};
use crate::output::OutputArgs;
use crate::state::JobState;
use crate::text::{
    align_right, ascii_lower, chars_of, decimal, digit_char, decimal_string, join, join_strings, labeled_number,
    push_char, push_decimal, push_line, right_aligned, same_text, split_on, trim, trim_chars,
    zero_pad,
};
use crate::util::lemma_split_on_nonempty;
use crate::wire::{DeviceGroup, JobInfo};

verus! {

/// Options of `sstat`.
#[derive(Debug, Clone)]
pub struct SstatArgs {
    /// Job ID to query
    pub job_id: String,
    /// Output format (comma-separated field names)
    pub format: Option<String>,
    /// Don't print header
    pub noheader: bool,
    /// Parsable output (delimiter-separated)
    pub parsable: bool,
    pub output: OutputArgs,
    /// Controller address
    pub controller: String,
}

/// The message `sstat` fails with when no job ID could be read.
pub open spec fn no_job_ids_text() -> Seq<char> {
    "sstat: no valid job IDs specified"@
}

/// The job IDs `sstat -j` asks for; refused when none of the pieces is a
/// number.
pub fn requested_job_ids(job_id: &str) -> (r: Result<Vec<u32>, String>)
    ensures
        match r {
            Ok(ids) => ids@ == job_id_list(job_id@) && ids.len() > 0,
            Err(msg) => job_id_list(job_id@).len() == 0 && msg@ == no_job_ids_text(),
        },
{
    let ids = parse_job_ids(job_id);
    if ids.len() == 0 {
        return Err(String::from_str("sstat: no valid job IDs specified"));
    }
    Ok(ids)
}

/// Whether `job` is running; only running jobs have live usage.
pub open spec fn is_running(job: JobInfo) -> bool {
    job.state == JobState::Running.wire()
}

/// The note `sstat` prints for a requested job that is not running.
pub open spec fn not_running_text(job_id: u32, job: JobInfo) -> Seq<char> {
    "sstat: job "@ + decimal(job_id as nat) + " is not running (state: "@ + job_state_text(job.state)
        + ")"@
}

/// `None` for a running job; for any other, the note that it is skipped.
pub fn not_running_note(job_id: u32, job: &JobInfo) -> (r: Option<String>)
    ensures
        match r {
            None => is_running(*job),
            Some(msg) => !is_running(*job) && msg@ == not_running_text(job_id, *job),
        },
{
    if job.state == JobState::Running.to_proto_i32() {
        return None;
    }
    let mut msg = labeled_number("sstat: job ", job_id as u64);
    msg.append(" is not running (state: ");
    msg.append(state_name(job.state));
    msg.append(")");
    Some(msg)
}

/// One column of the `sstat` table.
#[derive(Debug, Clone, Copy, PartialEq, Eq, Structural)]
pub enum StatField {
    JobId,
    AveCpu,
    AveRss,
    AveVmSize,
    MaxRss,
    MaxVmSize,
    NTasks,
    NodeList,
    Cpus,
    MemAlloc,
    GpuAlloc,
    State,
    Elapsed,
}

/// The columns shown when no format is given.
pub open spec fn default_field_list() -> Seq<StatField> {
    seq![
        StatField::JobId,
        StatField::NTasks,
        StatField::Cpus,
        StatField::MemAlloc,
        StatField::GpuAlloc,
        StatField::Elapsed,
        StatField::NodeList,
    ]
}

pub fn default_fields() -> (r: Vec<StatField>)
    ensures
        r@ == default_field_list(),
{
    vec![
        StatField::JobId,
        StatField::NTasks,
        StatField::Cpus,
        StatField::MemAlloc,
        StatField::GpuAlloc,
        StatField::Elapsed,
        StatField::NodeList,
    ]
}

/// Unicode lower-casing, as `str::to_lowercase` does it.
pub uninterp spec fn unicode_lowercase(s: Seq<char>) -> Seq<char>;

/// Lower-cases `s` with `str::to_lowercase`. The contract claims that the
/// result is a function of the text (`unicode_lowercase`) and, as the Unicode
/// mapping does for ASCII, that ASCII text is lower-cased letter by letter;
/// the case tables beyond ASCII are not restated.
#[verifier::external_body]
fn lowercase(s: &str) -> (r: String)
    ensures
        r@ == unicode_lowercase(s@),
        (forall|i: int| 0 <= i < s@.len() ==> (#[trigger] s@[i]) < '\u{80}') ==> r@ == s@.map_values(
            |c: char| ascii_lower(c),
        ),
{
    s.to_lowercase()
}

/// Whether every character of `s` is ASCII.
pub open spec fn is_ascii_text(s: Seq<char>) -> bool {
    forall|i: int| 0 <= i < s.len() ==> (#[trigger] s[i]) < '\u{80}'
}

/// `s` lower-cased as `str::to_lowercase` does it: letter by letter when the
/// text is ASCII, by the Unicode case tables otherwise.
pub open spec fn lowercased(s: Seq<char>) -> Seq<char> {
    if is_ascii_text(s) {
        s.map_values(|c: char| ascii_lower(c))
    } else {
        unicode_lowercase(s)
    }
}

/// The column a lower-case field name selects, with the aliases Slurm accepts.
pub open spec fn field_named(t: Seq<char>) -> Option<StatField> {
    if t == "jobid"@ {
        Some(StatField::JobId)
    } else if t == "avecpu"@ {
        Some(StatField::AveCpu)
    } else if t == "averss"@ {
        Some(StatField::AveRss)
    } else if t == "avevmsize"@ {
        Some(StatField::AveVmSize)
    } else if t == "maxrss"@ {
        Some(StatField::MaxRss)
    } else if t == "maxvmsize"@ {
        Some(StatField::MaxVmSize)
    } else if t == "ntasks"@ {
        Some(StatField::NTasks)
    } else if t == "nodelist"@ {
        Some(StatField::NodeList)
    } else if t == "cpus"@ || t == "ncpus"@ {
        Some(StatField::Cpus)
    } else if t == "memalloc"@ || t == "reqmem"@ {
        Some(StatField::MemAlloc)
    } else if t == "gpualloc"@ || t == "gres"@ {
        Some(StatField::GpuAlloc)
    } else if t == "state"@ {
        Some(StatField::State)
    } else if t == "elapsed"@ {
        Some(StatField::Elapsed)
    } else {
        None
    }
}

/// The column a lower-case field name selects.
pub fn field_from_name(t: &str) -> (r: Option<StatField>)
    ensures
        r == field_named(t@),
{
    if same_text(t, "jobid") {
        Some(StatField::JobId)
    } else if same_text(t, "avecpu") {
        Some(StatField::AveCpu)
    } else if same_text(t, "averss") {
        Some(StatField::AveRss)
    } else if same_text(t, "avevmsize") {
        Some(StatField::AveVmSize)
    } else if same_text(t, "maxrss") {
        Some(StatField::MaxRss)
    } else if same_text(t, "maxvmsize") {
        Some(StatField::MaxVmSize)
    } else if same_text(t, "ntasks") {
        Some(StatField::NTasks)
    } else if same_text(t, "nodelist") {
        Some(StatField::NodeList)
    } else if same_text(t, "cpus") || same_text(t, "ncpus") {
        Some(StatField::Cpus)
    } else if same_text(t, "memalloc") || same_text(t, "reqmem") {
        Some(StatField::MemAlloc)
    } else if same_text(t, "gpualloc") || same_text(t, "gres") {
        Some(StatField::GpuAlloc)
    } else if same_text(t, "state") {
        Some(StatField::State)
    } else if same_text(t, "elapsed") {
        Some(StatField::Elapsed)
    } else {
        None
    }
}

/// The columns the trimmed pieces `pieces` name, in order.
pub open spec fn fields_named(pieces: Seq<Seq<char>>) -> Seq<StatField>
    decreases pieces.len(),
{
    if pieces.len() == 0 {
        Seq::empty()
    } else {
        let init = fields_named(pieces.drop_last());
        match field_named(lowercased(pieces.last())) {
            Some(f) => init.push(f),
            None => init,
        }
    }
}

/// The trimmed pieces that name no column, in order.
pub open spec fn unknown_names(pieces: Seq<Seq<char>>) -> Seq<Seq<char>>
    decreases pieces.len(),
{
    if pieces.len() == 0 {
        Seq::empty()
    } else {
        let init = unknown_names(pieces.drop_last());
        match field_named(lowercased(pieces.last())) {
            Some(f) => init,
            None => init.push(pieces.last()),
        }
    }
}

/// The trimmed pieces of a comma-separated field list.
pub open spec fn field_pieces(fmt: Seq<char>) -> Seq<Seq<char>> {
    split_on(fmt, ',').map_values(|p: Seq<char>| trim(p))
}

/// Appends the column the trimmed piece names, or records it as unknown.
fn classify_piece(fields: &mut Vec<StatField>, unknown: &mut Vec<String>, piece: &Vec<char>)
    ensures
        match field_named(lowercased(trim(piece@))) {
            Some(f) => final(fields)@ == old(fields)@.push(f) && final(unknown).deep_view()
                == old(unknown).deep_view(),
            None => final(fields)@ == old(fields)@ && final(unknown).deep_view() == old(
                unknown,
            ).deep_view().push(trim(piece@)),
        },
{
    let name = trim_chars(piece);
    let lower = lowercase(name.as_str());
    match field_from_name(lower.as_str()) {
        Some(f) => fields.push(f),
        None => push_line(unknown, name),
    }
}

/// The columns a comma-separated field list names (matched lower-cased,
/// after trimming; ASCII names letter by letter), and the trimmed names that
/// match none, each in order.
pub fn parse_field_list(fmt: &str) -> (r: (Vec<StatField>, Vec<String>))
    ensures
        r.0@ == fields_named(field_pieces(fmt@)),
        r.1.deep_view() == unknown_names(field_pieces(fmt@)),
{
    let v = chars_of(fmt);
    let n = v.len();
    let mut fields: Vec<StatField> = Vec::new();
    let mut unknown: Vec<String> = Vec::new();
    let mut cur: Vec<char> = Vec::new();
    let mut i: usize = 0;
    while i < n
        invariant
            i <= n == v.len(),
            v@ == fmt@,
            cur@ == split_on(v@.take(i as int), ',').last(),
            fields@ == fields_named(
                split_on(v@.take(i as int), ',').drop_last().map_values(|p: Seq<char>| trim(p)),
            ),
            unknown.deep_view() == unknown_names(
                split_on(v@.take(i as int), ',').drop_last().map_values(|p: Seq<char>| trim(p)),
            ),
        decreases n - i,
    {
        let ghost pre = v@.take(i as int);
        let ghost pieces = split_on(pre, ',');
        proof {
            lemma_split_on_nonempty(pre, ',');
        }
        assert(v@.take(i + 1).drop_last() == pre);
        let c = v[i];
        if c == ',' {
            classify_piece(&mut fields, &mut unknown, &cur);
            proof {
                let items = pieces.drop_last().map_values(|p: Seq<char>| trim(p));
                assert(pieces.map_values(|p: Seq<char>| trim(p)) == items.push(trim(pieces.last())));
                assert(items.push(trim(pieces.last())).drop_last() == items);
                assert(pieces.push(Seq::<char>::empty()).drop_last() == pieces);
            }
            cur = Vec::new();
        } else {
            cur.push(c);
            proof {
                let next = split_on(v@.take(i + 1), ',');
                assert(next == pieces.update(pieces.len() - 1, pieces.last().push(c)));
                assert(next.drop_last() == pieces.drop_last());
            }
        }
        i = i + 1;
    }
    let ghost pieces = split_on(v@, ',');
    assert(v@.take(n as int) == v@);
    proof {
        lemma_split_on_nonempty(v@, ',');
        let items = pieces.drop_last().map_values(|p: Seq<char>| trim(p));
        assert(pieces.map_values(|p: Seq<char>| trim(p)) == items.push(trim(pieces.last())));
        assert(items.push(trim(pieces.last())).drop_last() == items);
    }
    classify_piece(&mut fields, &mut unknown, &cur);
    (fields, unknown)
}

/// The header of a column and its width.
pub open spec fn header_spec(field: StatField) -> (Seq<char>, nat) {
    match field {
        StatField::JobId => ("JobID"@, 10),
        StatField::AveCpu => ("AveCPU"@, 10),
        StatField::AveRss => ("AveRSS"@, 10),
        StatField::AveVmSize => ("AveVMSize"@, 10),
        StatField::MaxRss => ("MaxRSS"@, 10),
        StatField::MaxVmSize => ("MaxVMSize"@, 10),
        StatField::NTasks => ("NTasks"@, 8),
        StatField::NodeList => ("Nodelist"@, 20),
        StatField::Cpus => ("NCPUS"@, 8),
        StatField::MemAlloc => ("MemAlloc"@, 10),
        StatField::GpuAlloc => ("GPUAlloc"@, 10),
        StatField::State => ("State"@, 10),
        StatField::Elapsed => ("Elapsed"@, 12),
    }
}

pub fn header_info(field: &StatField) -> (r: (&'static str, usize))
    ensures
        r.0@ == header_spec(*field).0,
        r.1 == header_spec(*field).1,
{
    match field {
        StatField::JobId => ("JobID", 10),
        StatField::AveCpu => ("AveCPU", 10),
        StatField::AveRss => ("AveRSS", 10),
        StatField::AveVmSize => ("AveVMSize", 10),
        StatField::MaxRss => ("MaxRSS", 10),
        StatField::MaxVmSize => ("MaxVMSize", 10),
        StatField::NTasks => ("NTasks", 8),
        StatField::NodeList => ("Nodelist", 20),
        StatField::Cpus => ("NCPUS", 8),
        StatField::MemAlloc => ("MemAlloc", 10),
        StatField::GpuAlloc => ("GPUAlloc", 10),
        StatField::State => ("State", 10),
        StatField::Elapsed => ("Elapsed", 12),
    }
}

/// A column's header, right-aligned to its width.
pub open spec fn header_cell(field: StatField) -> Seq<char> {
    align_right(header_spec(field).0, header_spec(field).1)
}

pub fn format_header(field: &StatField) -> (r: String)
    ensures
        r@ == header_cell(*field),
{
    let (name, width) = header_info(field);
    right_aligned(name, width)
}

pub fn field_width(field: &StatField) -> (r: usize)
    ensures
        r == header_spec(*field).1,
{
    header_info(field).1
}

/// The name `sstat` prints for a job state discriminant.
pub fn state_name(state: i32) -> (r: &'static str)
    ensures
        r@ == job_state_text(state),
{
    match JobState::from_proto_i32(state) {
        Some(s) => s.display(),
        None => "UNKNOWN",
    }
}

/// `n` in at least two digits.
pub open spec fn two_digits(n: nat) -> Seq<char> {
    zero_pad(decimal(n), 2)
}

/// A span of `total` seconds as `[D-]HH:MM:SS`; days appear only when there
/// is at least one.
pub open spec fn clock_text(total: nat) -> Seq<char> {
    let days = total / 86400;
    let hms = two_digits((total % 86400) / 3600) + ":"@ + two_digits((total % 3600) / 60) + ":"@
        + two_digits(total % 60);
    if days > 0 {
        decimal(days) + "-"@ + hms
    } else {
        hms
    }
}

/// The magnitude of a signed number of seconds.
pub open spec fn abs_secs(x: i64) -> nat {
    if x < 0 {
        (-x) as nat
    } else {
        x as nat
    }
}

/// Appends `n` in at least two digits.
fn push_two_digits(out: &mut String, n: u64)
    ensures
        final(out)@ == old(out)@ + two_digits(n as nat),
{
    if n < 10 {
        push_char(out, '0');
    }
    let ghost before = out@;
    push_decimal(out, n);
    proof {
        crate::text::lemma_decimal_digits(n as nat);
        if n < 10 {
            assert(decimal(n as nat).len() == 1);
        } else {
            assert(decimal(n as nat).len() >= 2);
        }
        assert(zero_pad(decimal(n as nat), 2) == Seq::new(
            if 2 > decimal(n as nat).len() {
                (2 - decimal(n as nat).len()) as nat
            } else {
                0
            },
            |i: int| '0',
        ) + decimal(n as nat));
        if n < 10 {
            assert(Seq::new(1, |i: int| '0') == seq!['0']);
        } else {
            assert(Seq::new(0, |i: int| '0') == Seq::<char>::empty());
        }
    }
}

/// A span of seconds as `[D-]HH:MM:SS`, its sign dropped.
pub fn format_duration(total_seconds: i64) -> (r: String)
    ensures
        r@ == clock_text(abs_secs(total_seconds)),
{
    let t: u64 = if total_seconds < 0 {
        ((-(total_seconds + 1)) as u64) + 1
    } else {
        total_seconds as u64
    };
    let days = t / 86400;
    let hours = (t % 86400) / 3600;
    let minutes = (t % 3600) / 60;
    let seconds = t % 60;
    let mut r = String::new();
    if days > 0 {
        push_decimal(&mut r, days);
        r.append("-");
    }
    push_two_digits(&mut r, hours);
    r.append(":");
    push_two_digits(&mut r, minutes);
    r.append(":");
    push_two_digits(&mut r, seconds);
    r
}

/// The text of one column for `job`.
pub open spec fn value_text(job: JobInfo, field: StatField) -> Seq<char> {
    match field {
        StatField::JobId => decimal(job.job_id as nat),
        StatField::NTasks => decimal(job.num_tasks as nat),
        StatField::Cpus => decimal(crate::job::job_cpus(job) as nat),
        StatField::MemAlloc => match job.resources {
            Some(r) => decimal(r.memory_mb as nat) + "M"@,
            None => "0M"@,
        },
        StatField::GpuAlloc => decimal(gpu_count(job.resources)),
        StatField::NodeList => job.nodelist@,
        StatField::State => job_state_text(job.state),
        StatField::Elapsed => match job.run_time {
            Some(d) => clock_text(abs_secs(d.seconds)),
            None => "00:00:00"@,
        },
        _ => "N/A"@,
    }
}

/// Number of devices under the `gpu` kind of `groups`.
fn gpu_device_count(groups: &Vec<DeviceGroup>) -> (r: usize)
    ensures
        r == (match devices_of_kind(groups@, "gpu"@) {
            Some(d) => d.len(),
            None => 0,
        }),
{
    let mut i: usize = 0;
    assert(groups@.skip(0) == groups@);
    while i < groups.len()
        invariant
            i <= groups.len(),
            devices_of_kind(groups@, "gpu"@) == devices_of_kind(groups@.skip(i as int), "gpu"@),
        decreases groups.len() - i,
    {
        assert(groups@.skip(i as int)[0] == groups@[i as int]);
        assert(groups@.skip(i as int).drop_first() == groups@.skip(i + 1));
        if same_text(groups[i].kind.as_str(), "gpu") {
            return groups[i].devices.len();
        }
        i = i + 1;
    }
    0
}

/// The text of one column for `job`. For the CPU column, the job's CPU total
/// must fit in a `u32`.
pub fn resolve_field(job: &JobInfo, field: &StatField) -> (r: String)
    requires
        *field == StatField::Cpus ==> crate::job::job_cpus(*job) <= u32::MAX,
    ensures
        r@ == value_text(*job, *field),
{
    let r = match field {
        StatField::JobId => decimal_string(job.job_id as u64),
        StatField::NTasks => decimal_string(job.num_tasks as u64),
        StatField::Cpus => {
            let per_task: u32 = if job.cpus_per_task > 1 {
                job.cpus_per_task
            } else {
                1
            };
            decimal_string((job.num_tasks * per_task) as u64)
        },
        StatField::MemAlloc => match &job.resources {
            Some(res) => {
                let mut r = decimal_string(res.memory_mb);
                r.append("M");
                r
            },
            None => String::from_str("0M"),
        },
        StatField::GpuAlloc => match &job.resources {
            Some(res) => decimal_string(gpu_device_count(&res.devices) as u64),
            None => String::from_str("0"),
        },
        StatField::NodeList => job.nodelist.clone(),
        StatField::State => String::from_str(state_name(job.state)),
        StatField::Elapsed => match &job.run_time {
            Some(rt) => format_duration(rt.seconds),
            None => String::from_str("00:00:00"),
        },
        _ => String::from_str("N/A"),
    };
    proof {
        match field {
            StatField::GpuAlloc => {
                if job.resources is None {
                    reveal_strlit("0");
                    assert(decimal(0) == seq!['0']);
                }
            },
            _ => {},
        }
    }
    r
}

/// The columns a `--format` option selects, or the default columns.
pub open spec fn selected_fields(format: Option<String>) -> Seq<StatField> {
    match format {
        Some(f) => fields_named(field_pieces(f@)),
        None => default_field_list(),
    }
}

/// `n` dashes.
pub open spec fn dashes(n: nat) -> Seq<char> {
    Seq::new(n, |i: int| '-')
}

/// One row of the table: the cells separated by `|` and closed by one when
/// parsable, else right-aligned to their columns and separated by two spaces.
pub open spec fn row_text(job: JobInfo, fields: Seq<StatField>, parsable: bool) -> Seq<char> {
    if parsable {
        join(fields.map_values(|f: StatField| value_text(job, f)), "|"@) + "|"@
    } else {
        join(
            fields.map_values(|f: StatField| align_right(value_text(job, f), header_spec(f).1)),
            "  "@,
        )
    }
}

/// The table: the header (with a dashed rule unless parsable) unless
/// suppressed, then one row per job.
pub open spec fn table_text(fields: Seq<StatField>, noheader: bool, parsable: bool, jobs: Seq<JobInfo>) -> Seq<Seq<char>> {
    let headers = fields.map_values(|f: StatField| header_cell(f));
    (if noheader {
        Seq::empty()
    } else if parsable {
        seq![join(headers, "|"@) + "|"@]
    } else {
        seq![
            join(headers, "  "@),
            join(fields.map_values(|f: StatField| dashes(header_spec(f).1)), "  "@),
        ]
    }) + jobs.map_values(|job: JobInfo| row_text(job, fields, parsable))
}

/// `n` dashes, as a string.
fn dash_string(n: usize) -> (r: String)
    ensures
        r@ == dashes(n as nat),
{
    let mut r = String::new();
    let mut i: usize = 0;
    while i < n
        invariant
            i <= n,
            r@ == dashes(i as nat),
        decreases n - i,
    {
        push_char(&mut r, '-');
        assert(dashes((i + 1) as nat) == dashes(i as nat).push('-'));
        i = i + 1;
    }
    r
}

/// The header cells of `fields`.
fn header_cells(fields: &Vec<StatField>) -> (r: Vec<String>)
    ensures
        r.deep_view() == fields@.map_values(|f: StatField| header_cell(f)),
{
    let mut r: Vec<String> = Vec::new();
    let mut i: usize = 0;
    while i < fields.len()
        invariant
            i <= fields.len(),
            r.deep_view() == fields@.take(i as int).map_values(|f: StatField| header_cell(f)),
        decreases fields.len() - i,
    {
        push_line(&mut r, format_header(&fields[i]));
        assert(fields@.take(i + 1) == fields@.take(i as int).push(fields@[i as int]));
        assert(fields@.take(i + 1).map_values(|f: StatField| header_cell(f)) == fields@.take(
            i as int,
        ).map_values(|f: StatField| header_cell(f)).push(header_cell(fields@[i as int])));
        i = i + 1;
    }
    assert(fields@.take(fields.len() as int) == fields@);
    r
}

/// The dashed rule cells of `fields`.
fn rule_cells(fields: &Vec<StatField>) -> (r: Vec<String>)
    ensures
        r.deep_view() == fields@.map_values(|f: StatField| dashes(header_spec(f).1)),
{
    let mut r: Vec<String> = Vec::new();
    let mut i: usize = 0;
    while i < fields.len()
        invariant
            i <= fields.len(),
            r.deep_view() == fields@.take(i as int).map_values(
                |f: StatField| dashes(header_spec(f).1),
            ),
        decreases fields.len() - i,
    {
        push_line(&mut r, dash_string(field_width(&fields[i])));
        assert(fields@.take(i + 1) == fields@.take(i as int).push(fields@[i as int]));
        assert(fields@.take(i + 1).map_values(|f: StatField| dashes(header_spec(f).1))
            == fields@.take(i as int).map_values(|f: StatField| dashes(header_spec(f).1)).push(
            dashes(header_spec(fields@[i as int]).1),
        ));
        i = i + 1;
    }
    assert(fields@.take(fields.len() as int) == fields@);
    r
}

/// One row of the table for `job`.
fn row(job: &JobInfo, fields: &Vec<StatField>, parsable: bool) -> (r: String)
    requires
        fields@.contains(StatField::Cpus) ==> crate::job::job_cpus(*job) <= u32::MAX,
    ensures
        r@ == row_text(*job, fields@, parsable),
{
    let mut cells: Vec<String> = Vec::new();
    let mut i: usize = 0;
    while i < fields.len()
        invariant
            i <= fields.len(),
            fields@.contains(StatField::Cpus) ==> crate::job::job_cpus(*job) <= u32::MAX,
            parsable ==> cells.deep_view() == fields@.take(i as int).map_values(
                |f: StatField| value_text(*job, f),
            ),
            !parsable ==> cells.deep_view() == fields@.take(i as int).map_values(
                |f: StatField| align_right(value_text(*job, f), header_spec(f).1),
            ),
        decreases fields.len() - i,
    {
        let v = resolve_field(job, &fields[i]);
        assert(fields@.take(i + 1) == fields@.take(i as int).push(fields@[i as int]));
        if parsable {
            push_line(&mut cells, v);
            assert(fields@.take(i + 1).map_values(|f: StatField| value_text(*job, f))
                == fields@.take(i as int).map_values(|f: StatField| value_text(*job, f)).push(
                value_text(*job, fields@[i as int]),
            ));
        } else {
            push_line(&mut cells, right_aligned(v.as_str(), field_width(&fields[i])));
            assert(fields@.take(i + 1).map_values(
                |f: StatField| align_right(value_text(*job, f), header_spec(f).1),
            ) == fields@.take(i as int).map_values(
                |f: StatField| align_right(value_text(*job, f), header_spec(f).1),
            ).push(align_right(value_text(*job, fields@[i as int]), header_spec(fields@[i as int]).1)));
        }
        i = i + 1;
    }
    assert(fields@.take(fields.len() as int) == fields@);
    if parsable {
        let mut r = join_strings(&cells, "|");
        r.append("|");
        r
    } else {
        join_strings(&cells, "  ")
    }
}

/// The table for `jobs` with the given columns. When the CPU column is
/// shown, each job's CPU total must fit in a `u32`.
pub fn render_table(fields: &Vec<StatField>, noheader: bool, parsable: bool, jobs: &[JobInfo]) -> (r: Vec<String>)
    requires
        fields@.contains(StatField::Cpus) ==> forall|i: int|
            0 <= i < jobs.len() ==> crate::job::job_cpus(#[trigger] jobs[i]) <= u32::MAX,
    ensures
        r.deep_view() == table_text(fields@, noheader, parsable, jobs@),
{
    let mut lines: Vec<String> = Vec::new();
    if !noheader {
        let headers = header_cells(fields);
        if parsable {
            let mut h = join_strings(&headers, "|");
            h.append("|");
            push_line(&mut lines, h);
        } else {
            push_line(&mut lines, join_strings(&headers, "  "));
            push_line(&mut lines, join_strings(&rule_cells(fields), "  "));
        }
    }
    let ghost head = lines.deep_view();
    let mut i: usize = 0;
    while i < jobs.len()
        invariant
            i <= jobs.len(),
            fields@.contains(StatField::Cpus) ==> forall|k: int|
                0 <= k < jobs.len() ==> crate::job::job_cpus(#[trigger] jobs[k]) <= u32::MAX,
            lines.deep_view() == head + jobs@.take(i as int).map_values(
                |job: JobInfo| row_text(job, fields@, parsable),
            ),
        decreases jobs.len() - i,
    {
        push_line(&mut lines, row(&jobs[i], fields, parsable));
        assert(jobs@.take(i + 1) == jobs@.take(i as int).push(jobs@[i as int]));
        assert(jobs@.take(i + 1).map_values(|job: JobInfo| row_text(job, fields@, parsable))
            == jobs@.take(i as int).map_values(|job: JobInfo| row_text(job, fields@, parsable)).push(
            row_text(jobs@[i as int], fields@, parsable),
        ));
        i = i + 1;
    }
    assert(jobs@.take(jobs.len() as int) == jobs@);
    lines
}

/// The text report of `sstat`: the columns `--format` selects (or the
/// default ones) for each job.
pub fn render_text(args: &SstatArgs, jobs: &[JobInfo]) -> (r: Vec<String>)
    requires
        selected_fields(args.format).contains(StatField::Cpus) ==> forall|i: int|
            0 <= i < jobs.len() ==> crate::job::job_cpus(#[trigger] jobs[i]) <= u32::MAX,
    ensures
        r.deep_view() == table_text(selected_fields(args.format), args.noheader, args.parsable, jobs@),
{
    let fields = match &args.format {
        Some(fmt) => parse_field_list(fmt.as_str()).0,
        None => default_fields(),
    };
    render_table(&fields, args.noheader, args.parsable, jobs)
}

/// The usage of each running job, in order.
pub fn statistics_views(jobs: &[JobInfo]) -> (r: Vec<JobStatisticsView>)
    requires
        forall|i: int| 0 <= i < jobs.len() ==> crate::job::job_cpus(#[trigger] jobs[i]) <= u32::MAX,
    ensures
        r.len() == jobs.len(),
        forall|i: int| 0 <= i < jobs.len() ==> #[trigger] r[i].shows(jobs[i]),
{
    let mut out: Vec<JobStatisticsView> = Vec::new();
    let mut i: usize = 0;
    while i < jobs.len()
        invariant
            i <= jobs.len(),
            out.len() == i,
            forall|k: int| 0 <= k < jobs.len() ==> crate::job::job_cpus(#[trigger] jobs[k]) <= u32::MAX,
            forall|k: int| 0 <= k < i ==> #[trigger] out[k].shows(jobs[k]),
        decreases jobs.len() - i,
    {
        out.push(JobStatisticsView::from(&jobs[i]));
        i = i + 1;
    }
    out
}


/// The table has one header line when parsable, a header and a dashed rule
/// otherwise, none with `--noheader`, then exactly one row per job; parsable
/// rows end with the delimiter.
pub proof fn sstat_table_shape(fields: Seq<StatField>, noheader: bool, parsable: bool, jobs: Seq<JobInfo>)
    ensures
        table_text(fields, noheader, parsable, jobs).len() == (if noheader {
            0int
        } else if parsable {
            1int
        } else {
            2int
        }) + jobs.len(),
        parsable ==> forall|i: int|
            0 <= i < jobs.len() ==> (#[trigger] row_text(jobs[i], fields, parsable)).last() == '|',
{
    reveal_strlit("|");
    assert forall|i: int| 0 <= i < jobs.len() && parsable implies (#[trigger] row_text(
        jobs[i],
        fields,
        parsable,
    )).last() == '|' by {
        let cells = join(fields.map_values(|f: StatField| value_text(jobs[i], f)), "|"@);
        assert((cells + "|"@).last() == "|"@[0]);
    }
}

/// Every column is selected by its own header name, in any case: the
/// header, lower-cased, names the column it heads.
pub proof fn column_headers_select_their_columns(f: StatField)
    ensures
        field_named(lowercased(header_spec(f).0)) == Some(f),
{
    reveal_strlit("jobid");
    reveal_strlit("avecpu");
    reveal_strlit("averss");
    reveal_strlit("avevmsize");
    reveal_strlit("maxrss");
    reveal_strlit("maxvmsize");
    reveal_strlit("ntasks");
    reveal_strlit("nodelist");
    reveal_strlit("cpus");
    reveal_strlit("ncpus");
    reveal_strlit("memalloc");
    reveal_strlit("reqmem");
    reveal_strlit("gpualloc");
    reveal_strlit("gres");
    reveal_strlit("state");
    reveal_strlit("elapsed");
    match f {
        StatField::JobId => {
            reveal_strlit("JobID");
            reveal_strlit("jobid");
            assert(is_ascii_text("JobID"@));
            assert(lowercased("JobID"@) =~= "jobid"@);
            assert(header_spec(f).0 == "JobID"@);
            assert(field_named("jobid"@) == Some(f));
        },
        StatField::AveCpu => {
            reveal_strlit("AveCPU");
            reveal_strlit("avecpu");
            assert(is_ascii_text("AveCPU"@));
            assert(lowercased("AveCPU"@) =~= "avecpu"@);
            assert(header_spec(f).0 == "AveCPU"@);
            assert(field_named("avecpu"@) == Some(f));
        },
        StatField::AveRss => {
            reveal_strlit("AveRSS");
            reveal_strlit("averss");
            assert(is_ascii_text("AveRSS"@));
            assert(lowercased("AveRSS"@) =~= "averss"@);
            assert(header_spec(f).0 == "AveRSS"@);
            assert("averss"@[3] != "avecpu"@[3]);
            assert(field_named("averss"@) == Some(f));
        },
        StatField::AveVmSize => {
            reveal_strlit("AveVMSize");
            reveal_strlit("avevmsize");
            assert(is_ascii_text("AveVMSize"@));
            assert(lowercased("AveVMSize"@) =~= "avevmsize"@);
            assert(header_spec(f).0 == "AveVMSize"@);
            assert(field_named("avevmsize"@) == Some(f));
        },
        StatField::MaxRss => {
            reveal_strlit("MaxRSS");
            reveal_strlit("maxrss");
            assert(is_ascii_text("MaxRSS"@));
            assert(lowercased("MaxRSS"@) =~= "maxrss"@);
            assert(header_spec(f).0 == "MaxRSS"@);
            assert("maxrss"@[0] != "avecpu"@[0]);
            assert("maxrss"@[0] != "averss"@[0]);
            assert(field_named("maxrss"@) == Some(f));
        },
        StatField::MaxVmSize => {
            reveal_strlit("MaxVMSize");
            reveal_strlit("maxvmsize");
            assert(is_ascii_text("MaxVMSize"@));
            assert(lowercased("MaxVMSize"@) =~= "maxvmsize"@);
            assert(header_spec(f).0 == "MaxVMSize"@);
            assert("maxvmsize"@[0] != "avevmsize"@[0]);
            assert(field_named("maxvmsize"@) == Some(f));
        },
        StatField::NTasks => {
            reveal_strlit("NTasks");
            reveal_strlit("ntasks");
            assert(is_ascii_text("NTasks"@));
            assert(lowercased("NTasks"@) =~= "ntasks"@);
            assert(header_spec(f).0 == "NTasks"@);
            assert("ntasks"@[0] != "avecpu"@[0]);
            assert("ntasks"@[0] != "averss"@[0]);
            assert("ntasks"@[0] != "maxrss"@[0]);
            assert(field_named("ntasks"@) == Some(f));
        },
        StatField::NodeList => {
            reveal_strlit("Nodelist");
            reveal_strlit("nodelist");
            assert(is_ascii_text("Nodelist"@));
            assert(lowercased("Nodelist"@) =~= "nodelist"@);
            assert(header_spec(f).0 == "Nodelist"@);
            assert(field_named("nodelist"@) == Some(f));
        },
        StatField::Cpus => {
            reveal_strlit("NCPUS");
            reveal_strlit("ncpus");
            assert(is_ascii_text("NCPUS"@));
            assert(lowercased("NCPUS"@) =~= "ncpus"@);
            assert(header_spec(f).0 == "NCPUS"@);
            assert("ncpus"@[0] != "jobid"@[0]);
            assert(field_named("ncpus"@) == Some(f));
        },
        StatField::MemAlloc => {
            reveal_strlit("MemAlloc");
            reveal_strlit("memalloc");
            assert(is_ascii_text("MemAlloc"@));
            assert(lowercased("MemAlloc"@) =~= "memalloc"@);
            assert(header_spec(f).0 == "MemAlloc"@);
            assert("memalloc"@[0] != "nodelist"@[0]);
            assert(field_named("memalloc"@) == Some(f));
        },
        StatField::GpuAlloc => {
            reveal_strlit("GPUAlloc");
            reveal_strlit("gpualloc");
            assert(is_ascii_text("GPUAlloc"@));
            assert(lowercased("GPUAlloc"@) =~= "gpualloc"@);
            assert(header_spec(f).0 == "GPUAlloc"@);
            assert("gpualloc"@[0] != "nodelist"@[0]);
            assert("gpualloc"@[0] != "memalloc"@[0]);
            assert(field_named("gpualloc"@) == Some(f));
        },
        StatField::State => {
            reveal_strlit("State");
            reveal_strlit("state");
            assert(is_ascii_text("State"@));
            assert(lowercased("State"@) =~= "state"@);
            assert(header_spec(f).0 == "State"@);
            assert("state"@[0] != "jobid"@[0]);
            assert("state"@[0] != "ncpus"@[0]);
            assert(field_named("state"@) == Some(f));
        },
        StatField::Elapsed => {
            reveal_strlit("Elapsed");
            reveal_strlit("elapsed");
            assert(is_ascii_text("Elapsed"@));
            assert(lowercased("Elapsed"@) =~= "elapsed"@);
            assert(header_spec(f).0 == "Elapsed"@);
            assert(field_named("elapsed"@) == Some(f));
        },
    }
}

/// Each column shows its own field of the job: the job ID, the task count,
/// tasks times CPUs per task (at least one each), the allocated memory in MB
/// with an `M` (`0M` without an allocation), the GPU count, the node list,
/// the state's published name and the run time as a clock (`00:00:00` when
/// absent); the sampled counters show `N/A`.
pub proof fn columns_show_their_fields(job: JobInfo)
    ensures
        value_text(job, StatField::JobId) == decimal(job.job_id as nat),
        value_text(job, StatField::NTasks) == decimal(job.num_tasks as nat),
        value_text(job, StatField::Cpus) == decimal(
            (job.num_tasks * (if job.cpus_per_task > 1 {
                job.cpus_per_task as int
            } else {
                1
            })) as nat,
        ),
        value_text(job, StatField::MemAlloc) == (match job.resources {
            Some(r) => decimal(r.memory_mb as nat) + "M"@,
            None => "0M"@,
        }),
        value_text(job, StatField::GpuAlloc) == decimal(gpu_count(job.resources)),
        value_text(job, StatField::NodeList) == job.nodelist@,
        value_text(job, StatField::State) == (match JobState::from_wire(job.state) {
            Some(st) => st.name(),
            None => "UNKNOWN"@,
        }),
        value_text(job, StatField::Elapsed) == (match job.run_time {
            Some(d) => clock_text(abs_secs(d.seconds)),
            None => "00:00:00"@,
        }),
        value_text(job, StatField::AveCpu) == "N/A"@,
        value_text(job, StatField::AveRss) == "N/A"@,
        value_text(job, StatField::AveVmSize) == "N/A"@,
        value_text(job, StatField::MaxRss) == "N/A"@,
        value_text(job, StatField::MaxVmSize) == "N/A"@,
{
}

/// A clock reads hours, minutes and seconds, each in two digits and within
/// its range, preceded by the days and a dash when there is at least one
/// day; together they make up the whole span.
pub proof fn clock_reads_back_the_span(total: nat)
    ensures
        ({
            let d = total / 86400;
            let h = (total % 86400) / 3600;
            let m = (total % 3600) / 60;
            let s = total % 60;
            &&& d * 86400 + h * 3600 + m * 60 + s == total
            &&& h < 24 && m < 60 && s < 60
            &&& clock_text(total) == (if d > 0 {
                decimal(d) + "-"@
            } else {
                Seq::empty()
            }) + two_digits(h) + ":"@ + two_digits(m) + ":"@ + two_digits(s)
        }),
{
    let d = total / 86400;
    let h = (total % 86400) / 3600;
    let m = (total % 3600) / 60;
    let s = total % 60;
    assert(d * 86400 + h * 3600 + m * 60 + s == total && h < 24 && m < 60 && s < 60) by (nonlinear_arith)
        requires
            d == total / 86400,
            h == (total % 86400) / 3600,
            m == (total % 3600) / 60,
            s == total % 60,
    ;
    if d > 0 {
        assert(clock_text(total) =~= decimal(d) + "-"@ + two_digits(h) + ":"@ + two_digits(m) + ":"@
            + two_digits(s));
    } else {
        assert(clock_text(total) =~= Seq::<char>::empty() + two_digits(h) + ":"@ + two_digits(m)
            + ":"@ + two_digits(s));
    }
}

/// A number below a hundred is written in exactly two digits, tens first.
pub proof fn two_digits_of_small_numbers(n: nat)
    requires
        n < 100,
    ensures
        two_digits(n) == seq![digit_char(n / 10), digit_char(n % 10)],
{
    if n < 10 {
        assert(two_digits(n) =~= seq!['0', digit_char(n)]);
        assert(digit_char(0) == '0');
    } else {
        assert(decimal(n / 10) == seq![digit_char(n / 10)]);
        assert(two_digits(n) =~= seq![digit_char(n / 10), digit_char(n % 10)]);
    }
}

/// The header and width of every column: the node list takes twenty
/// characters, the elapsed clock twelve, the task and CPU counts eight, and
/// every other column ten.
pub proof fn column_headers_and_widths()
    ensures
        header_spec(StatField::JobId) == ("JobID"@, 10nat),
        header_spec(StatField::AveCpu) == ("AveCPU"@, 10nat),
        header_spec(StatField::AveRss) == ("AveRSS"@, 10nat),
        header_spec(StatField::AveVmSize) == ("AveVMSize"@, 10nat),
        header_spec(StatField::MaxRss) == ("MaxRSS"@, 10nat),
        header_spec(StatField::MaxVmSize) == ("MaxVMSize"@, 10nat),
        header_spec(StatField::NTasks) == ("NTasks"@, 8nat),
        header_spec(StatField::NodeList) == ("Nodelist"@, 20nat),
        header_spec(StatField::Cpus) == ("NCPUS"@, 8nat),
        header_spec(StatField::MemAlloc) == ("MemAlloc"@, 10nat),
        header_spec(StatField::GpuAlloc) == ("GPUAlloc"@, 10nat),
        header_spec(StatField::State) == ("State"@, 10nat),
        header_spec(StatField::Elapsed) == ("Elapsed"@, 12nat),
{
}

/// The table's lines: with a header, the column headers (right-aligned to the
/// column widths and two spaces apart, with a dashed rule of the same widths
/// under them; `|`-separated and closed by `|` when parsable, without a
/// rule), then for each job in order its column values laid out the same way.
pub proof fn sstat_table_lines(fields: Seq<StatField>, noheader: bool, parsable: bool, jobs: Seq<JobInfo>)
    ensures
        ({
            let t = table_text(fields, noheader, parsable, jobs);
            let h: int = if noheader { 0 } else if parsable { 1 } else { 2 };
            &&& t.len() == h + jobs.len()
            &&& !noheader && parsable ==> t[0] == join(
                fields.map_values(|f: StatField| align_right(header_spec(f).0, header_spec(f).1)),
                "|"@,
            ) + "|"@
            &&& !noheader && !parsable ==> t[0] == join(
                fields.map_values(|f: StatField| align_right(header_spec(f).0, header_spec(f).1)),
                "  "@,
            )
            &&& !noheader && !parsable ==> t[1] == join(
                fields.map_values(|f: StatField| Seq::new(header_spec(f).1, |i: int| '-')),
                "  "@,
            )
            &&& forall|i: int|
                0 <= i < jobs.len() ==> #[trigger] t[h + i] == (if parsable {
                    join(fields.map_values(|f: StatField| value_text(jobs[i], f)), "|"@) + "|"@
                } else {
                    join(
                        fields.map_values(
                            |f: StatField| align_right(value_text(jobs[i], f), header_spec(f).1),
                        ),
                        "  "@,
                    )
                })
        }),
{
    let t = table_text(fields, noheader, parsable, jobs);
    let h: int = if noheader { 0 } else if parsable { 1 } else { 2 };
    assert(fields.map_values(|f: StatField| header_cell(f)) =~= fields.map_values(
        |f: StatField| align_right(header_spec(f).0, header_spec(f).1),
    ));
    assert(fields.map_values(|f: StatField| dashes(header_spec(f).1)) =~= fields.map_values(
        |f: StatField| Seq::new(header_spec(f).1, |i: int| '-'),
    ));
    assert forall|i: int| 0 <= i < jobs.len() implies #[trigger] t[h + i] == row_text(
        jobs[i],
        fields,
        parsable,
    ) by {
        assert(t[h + i] == jobs.map_values(|job: JobInfo| row_text(job, fields, parsable))[i]);
    }
}

} // verus!
