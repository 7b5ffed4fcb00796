use vstd::prelude::*;
use crate::position::{
    Location, Position, in_protocol_range, location_in_protocol_range, spec_to_protocol,
    to_protocol,
};

verus! {

/// Severity of an engine-reported issue; a warning carries a free-form class
/// label (empty when the engine reports none).
#[derive(Clone, Debug)]
pub enum ErrorLevel {
    Error,
    Warning(String),
    Hint,
}

/// Protocol-side diagnostic severity.
#[derive(Clone, Copy, PartialEq, Eq, Structural, Debug)]
pub enum Severity {
    Error,
    Warning,
    Hint,
}

/// One engine-reported issue, in engine coordinates (one-based).
#[derive(Clone, Debug)]
pub struct ParseDiagnostic {
    pub start: Location,
    pub end: Location,
    pub callout: String,
    pub hint: Option<String>,
    pub level: ErrorLevel,
}

/// One protocol diagnostic, in protocol coordinates (zero-based).
#[derive(Clone, Debug)]
pub struct Diagnostic {
    pub start: Position,
    pub end: Position,
    pub message: String,
    pub severity: Severity,
    pub source: String,
}

pub open spec fn spec_severity(l: ErrorLevel) -> Severity {
    match l {
        ErrorLevel::Error => Severity::Error,
        ErrorLevel::Warning(_) => Severity::Warning,
        ErrorLevel::Hint => Severity::Hint,
    }
}

/// `"<class>: "` for a classified warning, nothing otherwise.
pub open spec fn spec_class_prefix(l: ErrorLevel) -> Seq<char> {
    match l {
        ErrorLevel::Warning(class) => if class@.len() > 0 {
            class@ + ": "@
        } else {
            Seq::<char>::empty()
        },
        _ => Seq::<char>::empty(),
    }
}

/// The callout, with `", Note: <hint>"` appended when a hint is present.
pub open spec fn spec_base_message(d: ParseDiagnostic) -> Seq<char> {
    match d.hint {
        Some(h) => d.callout@ + ", Note: "@ + h@,
        None => d.callout@,
    }
}

/// The full diagnostic message.
pub open spec fn spec_message(d: ParseDiagnostic) -> Seq<char> {
    spec_class_prefix(d.level) + spec_base_message(d)
}

/// The mapped range: both ends converted to protocol coordinates where the
/// engine locations allow it, the degenerate default range otherwise.
pub open spec fn spec_range(d: ParseDiagnostic) -> (Position, Position) {
    if location_in_protocol_range(d.start) && location_in_protocol_range(d.end) {
        (spec_to_protocol(d.start), spec_to_protocol(d.end))
    } else {
        (Position { line: 0, character: 0 }, Position { line: 0, character: 0 })
    }
}

/// The source label attached to every published diagnostic.
pub open spec fn source_name() -> Seq<char> {
    "tremor-language-server"@
}

pub fn source_string() -> (r: String)
    ensures
        r@ == source_name(),
{
    "tremor-language-server".to_owned()
}

/// How one translated diagnostic relates to the engine issue it came from.
pub open spec fn diagnostic_matches(out: Diagnostic, d: ParseDiagnostic) -> bool {
    &&& out.start == spec_range(d).0
    &&& out.end == spec_range(d).1
    &&& out.message@ == spec_message(d)
    &&& out.severity == spec_severity(d.level)
    &&& out.source@ == source_name()
}

/// Translate one engine issue into a protocol diagnostic.
pub fn translate_one(d: &ParseDiagnostic) -> (r: Diagnostic)
    ensures
        diagnostic_matches(r, *d),
{
    let (start, end) = if in_protocol_range(&d.start) && in_protocol_range(&d.end) {
        (to_protocol(&d.start), to_protocol(&d.end))
    } else {
        (Position { line: 0, character: 0 }, Position { line: 0, character: 0 })
    };
    let mut message = match &d.level {
        ErrorLevel::Warning(class) => {
            if class.unicode_len() > 0 {
                let mut p = class.clone();
                p.append(": ");
                p
            } else {
                String::new()
            }
        },
        _ => String::new(),
    };
    proof {
        assert(message@ == spec_class_prefix(d.level));
    }
    message.append(d.callout.as_str());
    match &d.hint {
        Some(h) => {
            message.append(", Note: ");
            message.append(h.as_str());
        },
        None => {},
    }
    proof {
        assert(message@ =~= spec_message(*d));
    }
    let severity = match &d.level {
        ErrorLevel::Error => Severity::Error,
        ErrorLevel::Warning(_) => Severity::Warning,
        ErrorLevel::Hint => Severity::Hint,
    };
    Diagnostic { start, end, message, severity, source: source_string() }
}

/// Translate a list of engine issues, preserving their order; nothing is
/// dropped, merged, or deduplicated.
pub fn translate_all(ds: &Vec<ParseDiagnostic>) -> (r: Vec<Diagnostic>)
    ensures
        r@.len() == ds@.len(),
        forall|i: int| 0 <= i < ds@.len() ==> diagnostic_matches(#[trigger] r@[i], ds@[i]),
{
    let mut r: Vec<Diagnostic> = Vec::new();
    let mut i: usize = 0;
    while i < ds.len()
        invariant
            i <= ds@.len(),
            r@.len() == i,
            forall|j: int| 0 <= j < i ==> diagnostic_matches(#[trigger] r@[j], ds@[j]),
        decreases ds@.len() - i,
    {
        r.push(translate_one(&ds[i]));
        i = i + 1;
    }
    r
}

/// How a translated diagnostic list relates to an engine parse result:
/// nothing for an engine-internal failure, an in-order translation of every
/// reported issue otherwise.
pub open spec fn diagnostics_match(parse: Option<Vec<ParseDiagnostic>>, out: Seq<Diagnostic>) -> bool {
    match parse {
        None => out.len() == 0,
        Some(ds) => out.len() == ds@.len() && forall|i: int|
            0 <= i < ds@.len() ==> diagnostic_matches(#[trigger] out[i], ds@[i]),
    }
}

/// The fields of two diagnostics agree.
pub open spec fn diagnostic_like(a: Diagnostic, b: Diagnostic) -> bool {
    &&& a.start == b.start
    &&& a.end == b.end
    &&& a.message@ == b.message@
    &&& a.severity == b.severity
    &&& a.source@ == b.source@
}

/// Translate an engine parse result. `None` is the engine-internal-failure
/// shape and yields no diagnostics; `Some` issues are translated in order,
/// so a clean parse (`Some` of an empty list) publishes an empty set.
pub fn diagnostics_for(parse: &Option<Vec<ParseDiagnostic>>) -> (r: Vec<Diagnostic>)
    ensures
        diagnostics_match(*parse, r@),
{
    match parse {
        None => Vec::new(),
        Some(ds) => translate_all(ds),
    }
}

} // verus!
