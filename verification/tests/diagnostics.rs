use tremor_language_server::diagnostic::{
    Diagnostic, ErrorLevel, ParseDiagnostic, Severity, diagnostics_for, translate_all,
    translate_one,
};
use tremor_language_server::position::Location;

fn diag(
    start: (usize, usize),
    end: (usize, usize),
    callout: &str,
    hint: Option<&str>,
    level: ErrorLevel,
) -> ParseDiagnostic {
    ParseDiagnostic {
        start: Location { line: start.0, column: start.1 },
        end: Location { line: end.0, column: end.1 },
        callout: callout.to_string(),
        hint: hint.map(str::to_string),
        level,
    }
}

#[test]
fn error_with_hint_maps_range_and_message() {
    let d = diag((2, 5), (2, 9), "unknown thing", Some("did you mean X?"), ErrorLevel::Error);
    let out: Diagnostic = translate_one(&d);
    assert_eq!(out.start.line, 1);
    assert_eq!(out.start.character, 4);
    assert_eq!(out.end.line, 1);
    assert_eq!(out.end.character, 8);
    assert!(out.message.ends_with(", Note: did you mean X?"));
    assert_eq!(out.message, "unknown thing, Note: did you mean X?");
    assert_eq!(out.severity, Severity::Error);
    assert_eq!(out.source, "tremor-language-server");
}

#[test]
fn warning_class_prefixes_the_message() {
    let d = diag(
        (1, 1),
        (1, 2),
        "const's are canonically written in UPPER_CASE",
        None,
        ErrorLevel::Warning("consistency".to_string()),
    );
    let out = translate_one(&d);
    assert_eq!(out.message, "consistency: const's are canonically written in UPPER_CASE");
    assert_eq!(out.severity, Severity::Warning);
}

#[test]
fn unclassified_warning_keeps_the_message_bare() {
    let d = diag((1, 1), (1, 2), "odd", None, ErrorLevel::Warning(String::new()));
    let out = translate_one(&d);
    assert_eq!(out.message, "odd");
    assert_eq!(out.severity, Severity::Warning);
}

#[test]
fn hint_severity_maps_to_hint() {
    let d = diag((3, 2), (3, 4), "consider simplifying", None, ErrorLevel::Hint);
    let out = translate_one(&d);
    assert_eq!(out.severity, Severity::Hint);
    assert_eq!(out.message, "consider simplifying");
}

#[test]
fn degenerate_range_for_positions_outside_the_protocol() {
    // an engine location of zero has no zero-based equivalent: the default
    // degenerate range is used instead
    let d = diag((0, 0), (0, 0), "boom", None, ErrorLevel::Error);
    let out = translate_one(&d);
    assert_eq!((out.start.line, out.start.character), (0, 0));
    assert_eq!((out.end.line, out.end.character), (0, 0));
    assert_eq!(out.message, "boom");
}

#[test]
fn order_is_preserved_without_deduplication() {
    let a = diag((1, 1), (1, 2), "first", None, ErrorLevel::Error);
    let b = diag((2, 1), (2, 2), "second", None, ErrorLevel::Hint);
    let same_again = diag((1, 1), (1, 2), "first", None, ErrorLevel::Error);
    let out = translate_all(&vec![a, b, same_again]);
    assert_eq!(out.len(), 3);
    assert_eq!(out[0].message, "first");
    assert_eq!(out[1].message, "second");
    assert_eq!(out[2].message, "first");
}

#[test]
fn engine_failure_shape_yields_no_diagnostics() {
    let out = diagnostics_for(&None);
    assert!(out.is_empty());
}

#[test]
fn clean_parse_yields_an_empty_set() {
    let out = diagnostics_for(&Some(vec![]));
    assert!(out.is_empty());
}
