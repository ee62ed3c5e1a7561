# spur_api

Spur's machine-readable API schema and the text reports built on it, written
in Verus with its behaviour stated in contracts and proved.

## Layout

- `src/` — the verified library.
  - `wire` holds the controller's messages as plain values; `state` the job
    and node states with their wire numbers, names and codes.
  - `job`, `node`, `payload`, `diag` and `envelope` build the views and
    documents that the REST API and the CLI's `--json`/`--yaml` modes share.
    Each view has a `shows` predicate that fixes every field from its message.
  - `sdiag`, `sstat` and `sprio` render the three text reports; each
    `render_text` equals a spec function of the report, line by line.
  - `rest` holds the REST answers: state filters, error documents, leader
    checks and the fields of a submitted job.
  - `text`, `util`, `ids` and `bytes` hold the string, list, number and
    byte-size models the reports are stated over.
  - Public proof functions state the library's laws: wire round trips,
    distinct state names, the stable descending RPC order, lossless
    comma-separated lists and job-ID lists, and the meaning of a state filter.
- `tests/` — tests on concrete values, run against the compiled library.
- `app/` — the surfaces around the library: clap argument parsing, serde
  encoding of the documents, the controller round trips, axum handlers and
  the floating-point factors (success rate, age factor, effective priority).

Calls into outside crates go through a few trusted wrappers, each documented
where it stands: chrono's date rendering, `hostname::get`,
`str::to_lowercase` and `String::push`.
