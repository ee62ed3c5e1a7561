//! The response envelope shared by the REST API and the CLI's structured output.
use vstd::prelude::*;

use crate::text::copy_strings;

verus! {

/// Spur's own release, reported as `meta.Slurm.release`.
pub const SPUR_VERSION: &'static str = "0.1.0";

/// Slurm's `openapi` response wrapper: a `meta` block, error and warning
/// arrays, and the entity payload alongside them so that a jobs response
/// reads `{"meta": {...}, "jobs": [...]}`.
#[derive(Debug)]
pub struct Envelope<T> {
    pub meta: Meta,
    pub errors: Vec<ApiError>,
    pub warnings: Vec<String>,
    pub data: T,
}

/// Whether `m` is the metadata of a fresh document: this release, the
/// targeted plugin API version, and no recorded command.
pub open spec fn is_default_meta(m: Meta) -> bool {
    &&& m.slurm.version.major == 0
    &&& m.slurm.version.minor == 0
    &&& m.slurm.version.micro == 42
    &&& m.slurm.release@ == "spur "@ + SPUR_VERSION@
    &&& m.command.len() == 0
}

impl<T> Envelope<T> {
    /// A document carrying `data`, with default metadata and no errors or
    /// warnings.
    pub fn new(data: T) -> (r: Self)
        ensures
            r.data == data,
            is_default_meta(r.meta),
            r.errors.len() == 0,
            r.warnings.len() == 0,
    {
        Envelope { meta: Meta::default(), errors: Vec::new(), warnings: Vec::new(), data }
    }

    /// Record the argv that produced this document. Slurm populates
    /// `meta.command` for CLI output and leaves it absent over HTTP.
    pub fn with_command(self, argv: &Vec<String>) -> (r: Self)
        ensures
            r.meta.command.deep_view() == argv.deep_view(),
            r.meta.slurm == self.meta.slurm,
            r.errors == self.errors,
            r.warnings == self.warnings,
            r.data == self.data,
    {
        let mut r = self;
        r.meta.command = copy_strings(argv);
        r
    }

    /// The same document with `errors` as its error array.
    pub fn with_errors(self, errors: Vec<ApiError>) -> (r: Self)
        ensures
            r.errors == errors,
            r.meta == self.meta,
            r.warnings == self.warnings,
            r.data == self.data,
    {
        let mut r = self;
        r.errors = errors;
        r
    }
}

#[derive(Debug)]
pub struct Meta {
    pub slurm: SlurmMeta,
    /// The argv of the CLI invocation, empty over HTTP.
    pub command: Vec<String>,
}

impl Default for Meta {
    fn default() -> (r: Self)
        ensures
            is_default_meta(r),
    {
        Meta { slurm: SlurmMeta::default(), command: Vec::new() }
    }
}

#[derive(Debug)]
pub struct SlurmMeta {
    pub version: VersionInfo,
    pub release: String,
}

impl Default for SlurmMeta {
    fn default() -> (r: Self)
        ensures
            r.version.major == 0 && r.version.minor == 0 && r.version.micro == 42,
            r.release@ == "spur "@ + SPUR_VERSION@,
    {
        let mut release = String::from_str("spur ");
        release.append(SPUR_VERSION);
        SlurmMeta { version: VersionInfo::default(), release }
    }
}

/// The Slurm plugin API version this schema targets. It tracks the
/// `/slurm/v0.0.42` REST route prefix, not Spur's own release, which is
/// reported separately as `release`.
#[derive(Debug, Clone, Copy)]
pub struct VersionInfo {
    pub major: u32,
    pub minor: u32,
    pub micro: u32,
}

impl Default for VersionInfo {
    fn default() -> (r: Self)
        ensures
            r.major == 0 && r.minor == 0 && r.micro == 42,
    {
        VersionInfo { major: 0, minor: 0, micro: 42 }
    }
}

#[derive(Debug, Clone)]
pub struct ApiError {
    pub error: String,
    pub error_number: Option<i32>,
}

impl ApiError {
    /// An error with message `msg` and no error number.
    pub fn new(msg: &str) -> (r: Self)
        ensures
            r.error@ == msg@,
            r.error_number is None,
    {
        ApiError { error: String::from_str(msg), error_number: None }
    }
}

} // verus!
