//! Structured output (`--json` / `--yaml`) shared by every query command.
//!
//! Commands carry [`OutputArgs`] in their own options, then branch once on
//! [`OutputArgs::format`] before rendering.
use vstd::prelude::*;

use crate::text::same_text;

verus! {

/// The only data parser Spur publishes. Slurm names its schema versions this
/// way and accepts them as an argument to `--json`/`--yaml`; scripts written
/// against Slurm pass the version explicitly, so the form is accepted rather
/// than rejected as an unknown flag.
pub const DATA_PARSER: &'static str = "v0.0.42";

/// How a command should render its result.
#[derive(Debug, Clone, Copy, PartialEq, Eq, Structural)]
pub enum OutputFormat {
    /// Slurm-style fixed-width text.
    Text,
    Structured(Encoding),
}

#[derive(Debug, Clone, Copy, PartialEq, Eq, Structural)]
pub enum Encoding {
    Json,
    Yaml,
}

/// Why a requested output format cannot be produced.
#[derive(Debug, Clone)]
pub enum FormatError {
    /// A data parser version other than [`DATA_PARSER`] was requested.
    UnsupportedDataParser(String),
}

impl FormatError {
    /// The text of the error, naming the requested and the supported parser.
    pub open spec fn text(self) -> Seq<char> {
        match self {
            FormatError::UnsupportedDataParser(p) => "unsupported data parser '"@ + p@
                + "'; spur emits '"@ + DATA_PARSER@ + "'"@,
        }
    }

    pub fn message(&self) -> (r: String)
        ensures
            r@ == self.text(),
    {
        match self {
            FormatError::UnsupportedDataParser(p) => {
                let mut r = String::from_str("unsupported data parser '");
                r.append(p.as_str());
                r.append("'; spur emits '");
                r.append(DATA_PARSER);
                r.append("'");
                r
            },
        }
    }
}

/// The `--json` / `--yaml` flag pair: the data parser requested with each,
/// if the flag was given.
///
/// Text-formatting flags (`-o`, `-l`, `-h`) are deliberately not treated as
/// conflicting: Slurm ignores them in structured mode, and wrapper scripts
/// commonly set them unconditionally.
#[derive(Debug, Default, Clone)]
pub struct OutputArgs {
    /// Emit JSON instead of formatted text
    pub json: Option<String>,
    /// Emit YAML instead of formatted text
    pub yaml: Option<String>,
}

/// The format `--json`/`--yaml` select: JSON when `--json` was given, else
/// YAML when `--yaml` was, else text; refused when the chosen flag names a
/// parser other than [`DATA_PARSER`].
pub open spec fn selected_format(json: Option<Seq<char>>, yaml: Option<Seq<char>>) -> Result<
    OutputFormat,
    Seq<char>,
> {
    match json {
        Some(p) => if p == DATA_PARSER@ {
            Ok(OutputFormat::Structured(Encoding::Json))
        } else {
            Err(p)
        },
        None => match yaml {
            Some(p) => if p == DATA_PARSER@ {
                Ok(OutputFormat::Structured(Encoding::Yaml))
            } else {
                Err(p)
            },
            None => Ok(OutputFormat::Text),
        },
    }
}

/// The text of an optional string.
pub open spec fn opt_text(s: Option<String>) -> Option<Seq<char>> {
    match s {
        Some(s) => Some(s@),
        None => None,
    }
}

impl OutputArgs {
    pub fn format(&self) -> (r: Result<OutputFormat, FormatError>)
        ensures
            match (r, selected_format(opt_text(self.json), opt_text(self.yaml))) {
                (Ok(f), Ok(g)) => f == g,
                (Err(FormatError::UnsupportedDataParser(p)), Err(q)) => p@ == q,
                _ => false,
            },
    {
        if let Some(parser) = &self.json {
            match check_data_parser(parser.as_str()) {
                Ok(()) => return Ok(OutputFormat::Structured(Encoding::Json)),
                Err(e) => return Err(e),
            }
        }
        if let Some(parser) = &self.yaml {
            match check_data_parser(parser.as_str()) {
                Ok(()) => return Ok(OutputFormat::Structured(Encoding::Yaml)),
                Err(e) => return Err(e),
            }
        }
        Ok(OutputFormat::Text)
    }
}

/// Accepts exactly [`DATA_PARSER`].
pub fn check_data_parser(requested: &str) -> (r: Result<(), FormatError>)
    ensures
        r is Ok <==> requested@ == DATA_PARSER@,
        r matches Err(FormatError::UnsupportedDataParser(p)) ==> p@ == requested@,
{
    if same_text(requested, DATA_PARSER) {
        return Ok(());
    }
    Err(FormatError::UnsupportedDataParser(String::from_str(requested)))
}

/// `--json` selects JSON and wins over `--yaml`; `--yaml` alone selects
/// YAML; neither selects text; and the chosen flag is refused, naming the
/// parser it asked for, unless that parser is [`DATA_PARSER`].
pub proof fn format_flags_select_the_encoding(p: Seq<char>, y: Option<Seq<char>>)
    ensures
        selected_format(Some(DATA_PARSER@), y) == Ok::<OutputFormat, Seq<char>>(
            OutputFormat::Structured(Encoding::Json),
        ),
        selected_format(None, Some(DATA_PARSER@)) == Ok::<OutputFormat, Seq<char>>(
            OutputFormat::Structured(Encoding::Yaml),
        ),
        selected_format(None, None) == Ok::<OutputFormat, Seq<char>>(OutputFormat::Text),
        p != DATA_PARSER@ ==> selected_format(Some(p), y) == Err::<OutputFormat, Seq<char>>(p),
        p != DATA_PARSER@ ==> selected_format(None, Some(p)) == Err::<OutputFormat, Seq<char>>(p),
{
}

} // verus!
