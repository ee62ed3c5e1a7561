use spur_api::output::{Encoding, OutputArgs, OutputFormat, DATA_PARSER};

/// What `--json` / `--yaml` give: the flag without a value stands for the
/// default data parser.
fn flags(json: Option<&str>, yaml: Option<&str>) -> OutputArgs {
    OutputArgs {
        json: json.map(String::from),
        yaml: yaml.map(String::from),
    }
}

#[test]
fn text_is_the_default() {
    let output = flags(None, None);
    assert_eq!(output.format().unwrap(), OutputFormat::Text);
}

#[test]
fn bare_flags_select_an_encoding() {
    assert_eq!(
        flags(Some(DATA_PARSER), None).format().unwrap(),
        OutputFormat::Structured(Encoding::Json)
    );
    assert_eq!(
        flags(None, Some(DATA_PARSER)).format().unwrap(),
        OutputFormat::Structured(Encoding::Yaml)
    );
}

#[test]
fn slurms_explicit_parser_argument_is_accepted() {
    let output = flags(Some("v0.0.42"), None);
    assert_eq!(
        output.format().unwrap(),
        OutputFormat::Structured(Encoding::Json)
    );
}

#[test]
fn an_unsupported_parser_is_reported_rather_than_ignored() {
    let output = flags(Some("v0.0.40"), None);
    let err = output.format().unwrap_err();
    assert!(err.message().contains("v0.0.40"));
    assert!(err.message().contains(DATA_PARSER));
}
