use vstd::prelude::*;
use crate::diagnostic::{
    Diagnostic, ParseDiagnostic, diagnostic_like, diagnostic_matches, diagnostics_for,
    diagnostics_match,
};
use crate::position::{Position, in_engine_range, position_in_engine_range, spec_to_engine, to_engine};
use crate::registry::{LanguageRegistry, spec_function_doc};
use crate::store::{DocumentStore, empty_contents};
use crate::token::{
    Token, TokenKind, joined_seq, lemma_no_separator_no_token, locate_qualified, spec_locate,
};

verus! {

/// A malformed notification payload: full-document synchronization carries
/// exactly one change event, and anything else must fail fast rather than
/// guess at a slice of the document.
#[derive(Clone, Copy, PartialEq, Eq, Structural, Debug)]
pub struct ProtocolViolation;

/// The request-resolution core: the document store and the language's
/// registry, owned exclusively for the process lifetime. The surrounding
/// transport serializes access and performs the engine calls, handing their
/// results in as plain values.
pub struct ServerCore {
    pub store: DocumentStore,
    pub language: LanguageRegistry,
}

impl ServerCore {
    pub fn new(language: LanguageRegistry) -> (s: Self)
        ensures
            s.store.contents() == empty_contents(),
            s.language == language,
    {
        ServerCore { store: DocumentStore::new(), language }
    }

    /// The shared open/change path: store the document's new full text, then
    /// translate the engine's parse result for that same text. The
    /// diagnostics are computed from the text captured here, never re-read
    /// later, so a fast second edit cannot race them.
    pub fn on_update(&mut self, uri: &str, text: &String, parse: &Option<Vec<ParseDiagnostic>>)
        -> (r: Vec<Diagnostic>)
        ensures
            final(self).language == old(self).language,
            final(self).store.contents() == old(self).store.contents().insert(uri@, text@),
            diagnostics_match(*parse, r@),
    {
        self.store.put(uri, text.clone());
        diagnostics_for(parse)
    }

    /// Closing a document publishes an empty diagnostic set for it and
    /// evicts its entry, so the store cannot grow without bound and a later
    /// open cannot observe text from before the close.
    pub fn on_close(&mut self, uri: &str) -> (r: Vec<Diagnostic>)
        ensures
            final(self).language == old(self).language,
            final(self).store.contents() == old(self).store.contents().remove(uri@),
            r@.len() == 0,
    {
        self.store.remove(uri);
        Vec::new()
    }

    /// The current text of an open document, cloned out so that tokenizing
    /// and resolution can run without holding the store.
    pub fn text_of(&self, uri: &str) -> (r: Option<String>)
        ensures
            match r {
                Some(t) => self.store.contents().contains_key(uri@) && t@
                    == self.store.contents()[uri@],
                None => !self.store.contents().contains_key(uri@),
            },
    {
        match self.store.get(uri) {
            Some(t) => Some(t.clone()),
            None => None,
        }
    }
}

/// Extract the one full text of a change notification. A payload with more
/// than one change event, or with none, is a protocol violation under
/// full-document synchronization.
pub fn change_text(changes: Vec<String>) -> (r: Result<String, ProtocolViolation>)
    ensures
        match r {
            Ok(t) => changes@.len() == 1 && t@ == changes@[0]@,
            Err(_) => changes@.len() != 1,
        },
{
    let mut changes = changes;
    if changes.len() == 1 {
        match changes.pop() {
            Some(t) => Ok(t),
            None => Err(ProtocolViolation),
        }
    } else {
        Err(ProtocolViolation)
    }
}

/// The hover verdict at a cursor: the stored markdown description of the
/// function under the qualified token — nothing for an unqualified token,
/// for a qualified name without registered documentation, or for a
/// malformed cursor with no engine representation.
pub open spec fn spec_hover(
    lr: LanguageRegistry,
    tokens: Seq<Token>,
    pos: Position,
) -> Option<Seq<char>> {
    if !position_in_engine_range(pos) {
        None
    } else {
        spec_hover_at(lr, tokens, pos)
    }
}

pub open spec fn spec_hover_at(
    lr: LanguageRegistry,
    tokens: Seq<Token>,
    pos: Position,
) -> Option<Seq<char>> {
    match spec_locate(tokens, spec_to_engine(pos)) {
        Some(p) => match spec_function_doc(lr, joined_seq(p.0, p.1)) {
            Some(d) => Some(d.description@),
            None => None,
        },
        None => None,
    }
}

/// The hover resolver: locate the qualified token at the exact cursor
/// (unshifted, unlike completion) and return its documentation's markdown
/// description.
pub fn hover_content(lr: &LanguageRegistry, tokens: &Vec<Token>, pos: &Position) -> (r: Option<
    String,
>)
    ensures
        match r {
            Some(t) => spec_hover(*lr, tokens@, *pos) == Some(t@),
            None => spec_hover(*lr, tokens@, *pos) is None,
        },
{
    if !in_engine_range(pos) {
        return None;
    }
    let cursor = to_engine(pos);
    match locate_qualified(tokens, &cursor) {
        Some(q) => {
            let full = q.joined();
            match lr.function_doc(full.as_str()) {
                Some(d) => Some(d.description.clone()),
                None => None,
            }
        },
        None => None,
    }
}

/// In a token list without any path-separator token there is never a
/// qualified name under the cursor: hover shows nothing over unqualified
/// tokens, at any cursor position.
pub proof fn lemma_unqualified_no_hover(lr: LanguageRegistry, tokens: Seq<Token>, pos: Position)
    requires
        forall|k: int| 0 <= k < tokens.len() ==> tokens[k].kind != TokenKind::PathSep,
    ensures
        spec_hover(lr, tokens, pos) is None,
{
    lemma_no_separator_no_token(tokens, spec_to_engine(pos));
}

/// Repeated identical change notifications for the same document are
/// idempotent: the second leaves the store exactly as the first did, and
/// equal engine parse results translate to diagnostic lists that agree
/// entry by entry.
pub proof fn lemma_update_idempotent(
    m: Map<Seq<char>, Seq<char>>,
    uri: Seq<char>,
    text: Seq<char>,
    parse: Option<Vec<ParseDiagnostic>>,
    out1: Seq<Diagnostic>,
    out2: Seq<Diagnostic>,
)
    requires
        diagnostics_match(parse, out1),
        diagnostics_match(parse, out2),
    ensures
        m.insert(uri, text).insert(uri, text) == m.insert(uri, text),
        out1.len() == out2.len(),
        forall|i: int| 0 <= i < out1.len() ==> diagnostic_like(out1[i], out2[i]),
{
    assert(m.insert(uri, text).insert(uri, text) =~= m.insert(uri, text));
    match parse {
        None => {},
        Some(ds) => {
            assert forall|i: int| 0 <= i < out1.len() implies diagnostic_like(
                out1[i],
                out2[i],
            ) by {
                assert(diagnostic_matches(out1[i], ds@[i]));
                assert(diagnostic_matches(out2[i], ds@[i]));
            }
        },
    }
}

} // verus!
