use tremor_language_server::diagnostic::{ErrorLevel, ParseDiagnostic};
use tremor_language_server::position::Location;
use tremor_language_server::registry::{LanguageKind, LanguageRegistry, lookup};
use tremor_language_server::server::{ServerCore, change_text};

fn fresh_core() -> ServerCore {
    ServerCore::new(LanguageRegistry::new(LanguageKind::Script))
}

fn one_warning() -> Option<Vec<ParseDiagnostic>> {
    Some(vec![ParseDiagnostic {
        start: Location { line: 1, column: 1 },
        end: Location { line: 1, column: 6 },
        callout: "lowercase const".to_string(),
        hint: None,
        level: ErrorLevel::Warning("consistency".to_string()),
    }])
}

#[test]
fn open_stores_the_text() {
    let mut c = fresh_core();
    let d = c.on_update("file:///a.tremor", &"const x = 1;".to_string(), &Some(vec![]));
    assert!(d.is_empty());
    assert_eq!(c.text_of("file:///a.tremor").as_deref(), Some("const x = 1;"));
    assert_eq!(c.text_of("file:///other.tremor"), None);
}

#[test]
fn change_replaces_the_text_wholesale() {
    let mut c = fresh_core();
    c.on_update("u", &"first".to_string(), &None);
    c.on_update("u", &"second".to_string(), &None);
    assert_eq!(c.text_of("u").as_deref(), Some("second"));
}

#[test]
fn repeated_identical_changes_publish_identical_diagnostics() {
    let mut c = fresh_core();
    let text = "const x = 1;".to_string();
    let d1 = c.on_update("u", &text, &one_warning());
    let stored1 = c.text_of("u");
    let d2 = c.on_update("u", &text, &one_warning());
    let stored2 = c.text_of("u");
    assert_eq!(stored1, stored2);
    assert_eq!(d1.len(), d2.len());
    for (a, b) in d1.iter().zip(d2.iter()) {
        assert_eq!(a.message, b.message);
        assert_eq!(a.severity, b.severity);
        assert_eq!((a.start, a.end), (b.start, b.end));
        assert_eq!(a.source, b.source);
    }
    assert_eq!(d1[0].message, "consistency: lowercase const");
}

#[test]
fn close_publishes_an_empty_set_and_evicts() {
    let mut c = fresh_core();
    c.on_update("u", &"stale".to_string(), &None);
    let d = c.on_close("u");
    assert!(d.is_empty());
    assert_eq!(c.text_of("u"), None);
}

#[test]
fn open_after_close_never_sees_stale_text() {
    let mut c = fresh_core();
    c.on_update("u", &"stale".to_string(), &None);
    c.on_close("u");
    c.on_update("u", &"fresh".to_string(), &None);
    assert_eq!(c.text_of("u").as_deref(), Some("fresh"));
}

#[test]
fn one_change_event_is_accepted() {
    let r = change_text(vec!["whole text".to_string()]);
    assert_eq!(r.unwrap(), "whole text");
}

#[test]
fn empty_change_payload_is_a_protocol_violation() {
    assert!(change_text(vec![]).is_err());
}

#[test]
fn incremental_change_payload_is_a_protocol_violation() {
    assert!(change_text(vec!["a".to_string(), "b".to_string()]).is_err());
}

#[test]
fn language_names_and_extensions_resolve() {
    assert_eq!(lookup("tremor-script"), Some(LanguageKind::Script));
    assert_eq!(lookup("tremor"), Some(LanguageKind::Script));
    assert_eq!(lookup("tremor-query"), Some(LanguageKind::Query));
    assert_eq!(lookup("trickle"), Some(LanguageKind::Query));
    assert_eq!(lookup("tremor-deploy"), Some(LanguageKind::Deploy));
    assert_eq!(lookup("troy"), Some(LanguageKind::Deploy));
    assert_eq!(lookup("rust"), None);
    assert_eq!(lookup(""), None);
}
