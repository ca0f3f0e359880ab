use scad_editor_core::parser::{classify, parse_line, parse_openscad_stderr, read_line_number, severity_of_word};
use scad_editor_core::types::DiagnosticSeverity;

#[test]
fn test_parse_error_with_line() {
    let stderr = "ERROR: Parser error: syntax error in file, line 12";
    let diagnostics = parse_openscad_stderr(stderr);

    assert_eq!(diagnostics.len(), 1);
    assert_eq!(diagnostics[0].line, Some(12));
    assert!(matches!(diagnostics[0].severity, DiagnosticSeverity::Error));
}

#[test]
fn test_parse_warning() {
    let stderr = "WARNING: Ignoring unknown module 'foo', line 5";
    let diagnostics = parse_openscad_stderr(stderr);

    assert_eq!(diagnostics.len(), 1);
    assert_eq!(diagnostics[0].line, Some(5));
    assert!(matches!(diagnostics[0].severity, DiagnosticSeverity::Warning));
}

#[test]
fn test_parse_multiple() {
    let stderr = "WARNING: First warning, line 1\nERROR: Fatal error, line 10\n";
    let diagnostics = parse_openscad_stderr(stderr);

    assert_eq!(diagnostics.len(), 2);
}

#[test]
fn echo_lines_are_info_without_column() {
    let diagnostics = parse_openscad_stderr("ECHO: \"value\", 42");
    assert_eq!(diagnostics.len(), 1);
    assert!(matches!(diagnostics[0].severity, DiagnosticSeverity::Info));
    assert_eq!(diagnostics[0].line, None);
    assert_eq!(diagnostics[0].col, None);
    assert_eq!(diagnostics[0].message, "ECHO: \"value\", 42");
}

#[test]
fn prefix_is_matched_in_any_case() {
    let diagnostics = parse_openscad_stderr("error: a\nWarning: b\neChO: c");
    assert_eq!(diagnostics.len(), 3);
    assert!(matches!(diagnostics[0].severity, DiagnosticSeverity::Error));
    assert!(matches!(diagnostics[1].severity, DiagnosticSeverity::Warning));
    assert!(matches!(diagnostics[2].severity, DiagnosticSeverity::Info));
}

#[test]
fn lines_without_prefix_are_ignored() {
    let stderr = "Compiling design...\n\n   \nERROR at line 3\nGeometries in cache: 1\nTRACE: x";
    assert!(parse_openscad_stderr(stderr).is_empty());
    assert!(parse_openscad_stderr("").is_empty());
}

#[test]
fn message_is_the_trimmed_line() {
    let diagnostics = parse_openscad_stderr("  \t ERROR: bad thing in line   7 \r\nnoise\r\n");
    assert_eq!(diagnostics.len(), 1);
    assert_eq!(diagnostics[0].message, "ERROR: bad thing in line   7");
    assert_eq!(diagnostics[0].line, Some(7));
}

#[test]
fn first_line_token_decides_the_number() {
    let diagnostics = parse_openscad_stderr("WARNING: see line 3 and line 9");
    assert_eq!(diagnostics[0].line, Some(3));
    let none = parse_openscad_stderr("WARNING: line99 or lines 4");
    assert_eq!(none[0].line, None);
}

#[test]
fn line_number_out_of_range_is_absent() {
    let diagnostics = parse_openscad_stderr("ERROR: line 2147483647\nERROR: line 2147483648");
    assert_eq!(diagnostics.len(), 2);
    assert_eq!(diagnostics[0].line, Some(2147483647));
    assert_eq!(diagnostics[1].line, None);
}

#[test]
fn order_of_lines_is_kept() {
    let diagnostics = parse_openscad_stderr("ECHO: 1\nskip\nERROR: 2, line 2\nWARNING: 3");
    let messages: Vec<&str> = diagnostics.iter().map(|d| d.message.as_str()).collect();
    assert_eq!(messages, vec!["ECHO: 1", "ERROR: 2, line 2", "WARNING: 3"]);
}

#[test]
fn parse_line_reads_one_line() {
    let d = parse_line("ERROR: Parser error in file, line 12").unwrap();
    assert!(d.severity.is_error());
    assert_eq!(d.line, Some(12));
    assert!(parse_line("").is_none());
    assert!(parse_line("note: ERROR: late prefix").is_none());
}

#[test]
fn severity_words() {
    assert_eq!(severity_of_word("ERROR"), Some(DiagnosticSeverity::Error));
    assert_eq!(severity_of_word("Warning"), Some(DiagnosticSeverity::Warning));
    assert_eq!(severity_of_word("echo"), Some(DiagnosticSeverity::Info));
    assert_eq!(severity_of_word("TRACE"), None);
    assert_eq!(severity_of_word(""), None);
}

#[test]
fn classify_reads_groups_one_and_two() {
    let groups = Some(vec![
        Some("WARNING: x".to_string()),
        Some("WARNING".to_string()),
        Some("x".to_string()),
    ]);
    let (severity, message) = classify(&groups).unwrap();
    assert_eq!(severity, DiagnosticSeverity::Warning);
    assert_eq!(message, "x");
    let no_message = Some(vec![Some("ECHO:".to_string()), Some("ECHO".to_string()), None]);
    assert_eq!(classify(&no_message).unwrap().1, "");
    assert!(classify(&None).is_none());
    assert!(classify(&Some(vec![Some("x".to_string())])).is_none());
    assert!(classify(&Some(vec![Some("x".to_string()), None])).is_none());
    assert!(classify(&Some(vec![Some("x".to_string()), Some("note".to_string())])).is_none());
}

#[test]
fn read_line_number_reads_group_one() {
    let groups = Some(vec![Some("line 12".to_string()), Some("12".to_string())]);
    assert_eq!(read_line_number(&groups), Some(12));
    let big = Some(vec![Some("line 99999999999".to_string()), Some("99999999999".to_string())]);
    assert_eq!(read_line_number(&big), None);
    assert_eq!(read_line_number(&None), None);
    assert_eq!(read_line_number(&Some(vec![Some("x".to_string()), None])), None);
}
