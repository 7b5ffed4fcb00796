use tremor_language_server::completion::completions;
use tremor_language_server::docs::{FunctionDoc, FunctionSignature};
use tremor_language_server::position::{Location, Position};
use tremor_language_server::registry::{LanguageKind, LanguageRegistry};
use tremor_language_server::strutil::decimal_string;
use tremor_language_server::token::{Token, TokenKind};

fn tok(kind: TokenKind, text: &str, line: usize, start_col: usize, end_col: usize) -> Token {
    Token {
        kind,
        text: text.to_string(),
        start: Location { line, column: start_col },
        end: Location { line, column: end_col },
    }
}

fn doc(full_name: &str, args: &[&str], result: &str, description: &str) -> FunctionDoc {
    FunctionDoc {
        signature: FunctionSignature {
            full_name: full_name.to_string(),
            args: args.iter().map(|a| a.to_string()).collect(),
            result: result.to_string(),
        },
        summary: None,
        description: description.to_string(),
        examples: None,
    }
}

/// A query-language registry knowing the aggregate module `stats`, with one
/// documented function.
fn stats_registry() -> LanguageRegistry {
    let mut lr = LanguageRegistry::new(LanguageKind::Query);
    lr.own_functions.add(
        "stats",
        vec!["sum".to_string(), "min".to_string(), "max".to_string(), "min".to_string()],
    );
    lr.own_docs.add(
        "stats::min",
        doc("stats::min", &["xs", "ys"], "number", "The smallest of the values."),
    );
    lr
}

/// Tokens for the text `stats::min` on line one.
fn stats_tokens() -> Vec<Token> {
    vec![
        tok(TokenKind::Ident, "stats", 1, 1, 6),
        tok(TokenKind::PathSep, "::", 1, 6, 8),
        tok(TokenKind::Ident, "min", 1, 8, 11),
    ]
}

#[test]
fn qualified_trigger_offers_the_sorted_function_list() {
    let lr = stats_registry();
    // cursor immediately after the typed `::` trigger: protocol column 7,
    // which the engine sees as column 8
    let r = completions(&lr, &stats_tokens(), &Position { line: 0, character: 7 });
    let labels: Vec<&str> = r.iter().map(|c| c.label.as_str()).collect();
    assert_eq!(labels, vec!["max", "min", "sum"]);
}

#[test]
fn documented_candidate_carries_signature_and_template() {
    let lr = stats_registry();
    let r = completions(&lr, &stats_tokens(), &Position { line: 0, character: 7 });
    let min = r.iter().find(|c| c.label == "min").unwrap();
    assert_eq!(min.detail.as_deref(), Some("stats::min(xs, ys) -> number"));
    assert_eq!(min.documentation.as_deref(), Some("The smallest of the values."));
    assert_eq!(min.insert_text.as_deref(), Some("min(${1:xs}, ${2:ys})"));
}

#[test]
fn undocumented_candidate_is_bare() {
    let lr = stats_registry();
    let r = completions(&lr, &stats_tokens(), &Position { line: 0, character: 7 });
    let sum = r.iter().find(|c| c.label == "sum").unwrap();
    assert!(sum.detail.is_none());
    assert!(sum.documentation.is_none());
    assert!(sum.insert_text.is_none());
}

#[test]
fn unqualified_identifier_offers_nothing() {
    let lr = stats_registry();
    let tokens = vec![tok(TokenKind::Ident, "stats", 1, 1, 6)];
    let r = completions(&lr, &tokens, &Position { line: 0, character: 3 });
    assert!(r.is_empty());
}

#[test]
fn cursor_at_column_zero_offers_nothing() {
    let lr = stats_registry();
    let r = completions(&lr, &stats_tokens(), &Position { line: 0, character: 0 });
    assert!(r.is_empty());
}

#[test]
fn unknown_module_offers_nothing() {
    let lr = stats_registry();
    let tokens = vec![
        tok(TokenKind::Ident, "nosuch", 1, 1, 7),
        tok(TokenKind::PathSep, "::", 1, 7, 9),
        tok(TokenKind::Ident, "x", 1, 9, 10),
    ];
    let r = completions(&lr, &tokens, &Position { line: 0, character: 8 });
    assert!(r.is_empty());
}

#[test]
fn superset_falls_back_to_the_base_registry() {
    let mut lr = LanguageRegistry::new(LanguageKind::Query);
    lr.base_functions.add("string", vec!["lowercase".to_string(), "format".to_string()]);
    let tokens = vec![
        tok(TokenKind::Ident, "string", 1, 1, 7),
        tok(TokenKind::PathSep, "::", 1, 7, 9),
        tok(TokenKind::Ident, "f", 1, 9, 10),
    ];
    let r = completions(&lr, &tokens, &Position { line: 0, character: 8 });
    let labels: Vec<&str> = r.iter().map(|c| c.label.as_str()).collect();
    assert_eq!(labels, vec!["format", "lowercase"]);
}

#[test]
fn own_registry_wins_over_the_base() {
    let mut lr = LanguageRegistry::new(LanguageKind::Query);
    lr.own_functions.add("m", vec!["own_fn".to_string()]);
    lr.base_functions.add("m", vec!["base_fn".to_string()]);
    let tokens = vec![
        tok(TokenKind::Ident, "m", 1, 1, 2),
        tok(TokenKind::PathSep, "::", 1, 2, 4),
        tok(TokenKind::Ident, "x", 1, 4, 5),
    ];
    let r = completions(&lr, &tokens, &Position { line: 0, character: 3 });
    let labels: Vec<&str> = r.iter().map(|c| c.label.as_str()).collect();
    assert_eq!(labels, vec!["own_fn"]);
}

#[test]
fn zero_argument_template_is_an_empty_call() {
    let mut lr = LanguageRegistry::new(LanguageKind::Script);
    lr.own_functions.add("system", vec!["ingest_ns".to_string()]);
    lr.own_docs.add(
        "system::ingest_ns",
        doc("system::ingest_ns", &[], "number", "The ingest timestamp."),
    );
    let tokens = vec![
        tok(TokenKind::Ident, "system", 1, 1, 7),
        tok(TokenKind::PathSep, "::", 1, 7, 9),
        tok(TokenKind::Ident, "i", 1, 9, 10),
    ];
    let r = completions(&lr, &tokens, &Position { line: 0, character: 8 });
    let item = r.iter().find(|c| c.label == "ingest_ns").unwrap();
    assert_eq!(item.detail.as_deref(), Some("system::ingest_ns() -> number"));
    assert_eq!(item.insert_text.as_deref(), Some("ingest_ns()"));
}

#[test]
fn later_registration_overrides_an_earlier_one() {
    let mut lr = LanguageRegistry::new(LanguageKind::Script);
    lr.own_functions.add("m", vec!["old_fn".to_string()]);
    lr.own_functions.add("m", vec!["new_fn".to_string()]);
    let tokens = vec![
        tok(TokenKind::Ident, "m", 1, 1, 2),
        tok(TokenKind::PathSep, "::", 1, 2, 4),
        tok(TokenKind::Ident, "x", 1, 4, 5),
    ];
    let r = completions(&lr, &tokens, &Position { line: 0, character: 3 });
    let labels: Vec<&str> = r.iter().map(|c| c.label.as_str()).collect();
    assert_eq!(labels, vec!["new_fn"]);
}

#[test]
fn decimal_rendering_is_exact() {
    assert_eq!(decimal_string(0), "0");
    assert_eq!(decimal_string(7), "7");
    assert_eq!(decimal_string(10), "10");
    assert_eq!(decimal_string(1234567890), "1234567890");
    assert_eq!(decimal_string(u64::MAX), "18446744073709551615");
}

#[test]
fn many_arguments_number_past_nine() {
    let mut lr = LanguageRegistry::new(LanguageKind::Script);
    let args: Vec<&str> = vec!["a", "b", "c", "d", "e", "f", "g", "h", "i", "j", "k"];
    lr.own_functions.add("m", vec!["wide".to_string()]);
    lr.own_docs.add("m::wide", doc("m::wide", &args, "any", "Many parameters."));
    let tokens = vec![
        tok(TokenKind::Ident, "m", 1, 1, 2),
        tok(TokenKind::PathSep, "::", 1, 2, 4),
        tok(TokenKind::Ident, "w", 1, 4, 5),
    ];
    let r = completions(&lr, &tokens, &Position { line: 0, character: 3 });
    let wide = r.iter().find(|c| c.label == "wide").unwrap();
    assert_eq!(
        wide.insert_text.as_deref(),
        Some(
            "wide(${1:a}, ${2:b}, ${3:c}, ${4:d}, ${5:e}, ${6:f}, ${7:g}, ${8:h}, ${9:i}, ${10:j}, ${11:k})"
        )
    );
}
