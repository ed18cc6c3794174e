use deslop_recipes::report::{parse_output_format, OutputFormat};

#[test]
fn output_formats_parse_by_name() {
    assert_eq!("text".parse::<OutputFormat>().unwrap(), OutputFormat::Text);
    assert_eq!("json".parse::<OutputFormat>().unwrap(), OutputFormat::Json);
    assert_eq!(parse_output_format("sarif").unwrap(), OutputFormat::Sarif);
    assert_eq!(parse_output_format("agent").unwrap(), OutputFormat::Agent);
}

#[test]
fn unknown_output_format_is_refused_with_its_name() {
    assert_eq!(parse_output_format("yaml").unwrap_err(), "unknown output format `yaml`");
    assert_eq!(parse_output_format("Text").unwrap_err(), "unknown output format `Text`");
    assert_eq!(parse_output_format("").unwrap_err(), "unknown output format ``");
}
