//! Spur's machine-readable API schema and the text reports built on it.
//!
//! The REST API and the CLI's `--json`/`--yaml` modes both render through the
//! views defined here, so the two surfaces cannot describe the same entity
//! differently. Views are built from the controller's wire messages
//! ([`wire`]), and the CLI's text reports (`sdiag`, `sstat`, `sprio`) are
//! computed from the same values.
use vstd::prelude::*;

pub mod bytes;
pub mod diag;
pub mod envelope;
pub mod ids;
pub mod job;
pub mod node;
pub mod output;
pub mod payload;
pub mod rest;
pub mod sdiag;
pub mod sprio;
pub mod sstat;
pub mod state;
pub mod text;
pub mod util;
pub mod wire;

verus! {

} // verus!
