use vstd::prelude::*;
use crate::position::Location;

verus! {

/// The token classes the locator distinguishes: identifiers, the `::`
/// module-path separator, and everything else.
#[derive(Clone, Copy, PartialEq, Eq, Structural, Debug)]
pub enum TokenKind {
    Ident,
    PathSep,
    Other,
}

/// A lexical token as the language engine reports it: a kind, the rendered
/// token text, and its span in engine coordinates (one-based).
#[derive(Clone, Debug)]
pub struct Token {
    pub kind: TokenKind,
    pub text: String,
    pub start: Location,
    pub end: Location,
}

/// A qualified identifier `module::name`, the unit of completion and hover
/// lookups.
#[derive(Clone, Debug)]
pub struct QualifiedToken {
    pub module: String,
    pub name: String,
}

/// The module-path separator, as a character sequence.
pub open spec fn separator() -> Seq<char> {
    seq![':', ':']
}

pub open spec fn joined_seq(module: Seq<char>, name: Seq<char>) -> Seq<char> {
    module + separator() + name
}

impl QualifiedToken {
    pub open spec fn spec_joined(&self) -> Seq<char> {
        joined_seq(self.module@, self.name@)
    }

    /// The joined `module::name` string.
    pub fn joined(&self) -> (r: String)
        ensures
            r@ == self.spec_joined(),
    {
        let mut s = self.module.clone();
        s.append("::");
        s.append(self.name.as_str());
        proof {
            reveal_strlit("::");
            assert("::"@ =~= separator());
        }
        s
    }
}

/// Whether a token's span has not yet fully passed the cursor: its end is on
/// the cursor's line with a column strictly beyond the cursor's.
pub open spec fn is_hit(t: Token, cursor: Location) -> bool {
    t.end.line == cursor.line && t.end.column > cursor.column
}

/// The first index at or after `i` whose token satisfies the scan predicate.
pub open spec fn first_hit_from(tokens: Seq<Token>, cursor: Location, i: int) -> Option<int>
    decreases tokens.len() - i,
{
    if i < 0 || i >= tokens.len() {
        None
    } else if is_hit(tokens[i], cursor) {
        Some(i)
    } else {
        first_hit_from(tokens, cursor, i + 1)
    }
}

/// Whether the three tokens starting at `i` form an `ident :: ident` triple.
pub open spec fn triple_at(tokens: Seq<Token>, i: int) -> bool {
    &&& 0 <= i
    &&& i + 2 < tokens.len()
    &&& tokens[i].kind == TokenKind::Ident
    &&& tokens[i + 1].kind == TokenKind::PathSep
    &&& tokens[i + 2].kind == TokenKind::Ident
}

/// The locator's verdict once the scan has stopped at index `i`: the module
/// and name texts of the recognized triple, if any.
pub open spec fn locate_from_hit(tokens: Seq<Token>, i: int) -> Option<(Seq<char>, Seq<char>)> {
    if tokens[i].kind == TokenKind::Ident {
        if triple_at(tokens, i - 2) {
            Some((tokens[i - 2].text@, tokens[i].text@))
        } else if triple_at(tokens, i) {
            Some((tokens[i].text@, tokens[i + 2].text@))
        } else {
            None
        }
    } else if tokens[i].kind == TokenKind::PathSep {
        if triple_at(tokens, i - 1) {
            Some((tokens[i - 1].text@, tokens[i + 1].text@))
        } else {
            None
        }
    } else {
        None
    }
}

/// What the token locator returns: the module and name texts of the qualified
/// identifier spanning or adjacent to the cursor, if there is one.
pub open spec fn spec_locate(tokens: Seq<Token>, cursor: Location) -> Option<(Seq<char>, Seq<char>)> {
    match first_hit_from(tokens, cursor, 0) {
        None => None,
        Some(i) => locate_from_hit(tokens, i),
    }
}

fn is_triple(tokens: &Vec<Token>, i: usize) -> (r: bool)
    requires
        i + 2 < tokens@.len(),
    ensures
        r == triple_at(tokens@, i as int),
{
    let n: usize = tokens.len();
    i < n - 2 && tokens[i].kind == TokenKind::Ident
        && tokens[i + 1].kind == TokenKind::PathSep && tokens[i + 2].kind == TokenKind::Ident
}

/// Find the qualified identifier under the cursor: scan for the first token
/// whose end has not passed the cursor, then look for an `ident :: ident`
/// triple through it.
pub fn locate_qualified(tokens: &Vec<Token>, cursor: &Location) -> (r: Option<QualifiedToken>)
    ensures
        match r {
            Some(q) => spec_locate(tokens@, *cursor) == Some((q.module@, q.name@)),
            None => spec_locate(tokens@, *cursor) is None,
        },
{
    let n: usize = tokens.len();
    let mut i: usize = 0;
    loop
        invariant
            i <= n,
            n == tokens@.len(),
            first_hit_from(tokens@, *cursor, 0) == first_hit_from(tokens@, *cursor, i as int),
        decreases n - i,
    {
        if i == n {
            return None;
        }
        let t = &tokens[i];
        if t.end.line == cursor.line && t.end.column > cursor.column {
            proof {
                assert(first_hit_from(tokens@, *cursor, i as int) == Some(i as int));
            }
            match t.kind {
                TokenKind::Ident => {
                    if i >= 2 && is_triple(tokens, i - 2) {
                        return Some(QualifiedToken {
                            module: tokens[i - 2].text.clone(),
                            name: tokens[i].text.clone(),
                        });
                    }
                    if n > 2 && i < n - 2 && is_triple(tokens, i) {
                        return Some(QualifiedToken {
                            module: tokens[i].text.clone(),
                            name: tokens[i + 2].text.clone(),
                        });
                    }
                    return None;
                }
                TokenKind::PathSep => {
                    if i >= 1 && n > 1 && i < n - 1 && is_triple(tokens, i - 1) {
                        return Some(QualifiedToken {
                            module: tokens[i - 1].text.clone(),
                            name: tokens[i + 1].text.clone(),
                        });
                    }
                    return None;
                }
                TokenKind::Other => {
                    return None;
                }
            }
        }
        i = i + 1;
    }
}

/// The joined qualified identifier under the cursor, if any.
pub fn get_token(tokens: &Vec<Token>, cursor: &Location) -> (r: Option<String>)
    ensures
        match r {
            Some(t) => match spec_locate(tokens@, *cursor) {
                Some(p) => t@ == joined_seq(p.0, p.1),
                None => false,
            },
            None => spec_locate(tokens@, *cursor) is None,
        },
{
    match locate_qualified(tokens, cursor) {
        Some(q) => Some(q.joined()),
        None => None,
    }
}

proof fn lemma_first_hit_in_range(tokens: Seq<Token>, cursor: Location, i: int)
    ensures
        match first_hit_from(tokens, cursor, i) {
            Some(j) => i <= j < tokens.len() && is_hit(tokens[j], cursor),
            None => true,
        },
    decreases tokens.len() - i,
{
    if 0 <= i < tokens.len() && !is_hit(tokens[i], cursor) {
        lemma_first_hit_in_range(tokens, cursor, i + 1);
    }
}

/// In a token list without any path-separator token, no cursor position
/// yields a qualified identifier.
pub proof fn lemma_no_separator_no_token(tokens: Seq<Token>, cursor: Location)
    requires
        forall|k: int| 0 <= k < tokens.len() ==> tokens[k].kind != TokenKind::PathSep,
    ensures
        spec_locate(tokens, cursor) is None,
{
    if first_hit_from(tokens, cursor, 0) is Some {
        lemma_first_hit_in_range(tokens, cursor, 0);
    }
}

/// A well-formed `ident :: ident` triple is reported as its joined module and
/// name for every cursor on its line whose column lies before the end of the
/// right identifier — the same answer whether the scan stops on the left
/// identifier, the separator, or the right identifier.
pub proof fn lemma_triple_located(a: Token, s: Token, b: Token, cursor: Location)
    requires
        a.kind == TokenKind::Ident,
        s.kind == TokenKind::PathSep,
        b.kind == TokenKind::Ident,
        a.end.line == cursor.line,
        s.end.line == cursor.line,
        b.end.line == cursor.line,
        a.end.column <= s.end.column,
        s.end.column <= b.end.column,
        cursor.column < b.end.column,
    ensures
        spec_locate(seq![a, s, b], cursor) == Some((a.text@, b.text@)),
{
    let toks = seq![a, s, b];
    assert(toks[0] == a && toks[1] == s && toks[2] == b);
    assert(triple_at(toks, 0));
    if is_hit(a, cursor) {
        assert(first_hit_from(toks, cursor, 0) == Some(0int));
    } else if is_hit(s, cursor) {
        assert(first_hit_from(toks, cursor, 1) == Some(1int));
        assert(first_hit_from(toks, cursor, 0) == Some(1int));
        assert(locate_from_hit(toks, 1) == Some((a.text@, b.text@)));
    } else {
        assert(is_hit(b, cursor));
        assert(first_hit_from(toks, cursor, 2) == Some(2int));
        assert(first_hit_from(toks, cursor, 1) == Some(2int));
        assert(first_hit_from(toks, cursor, 0) == Some(2int));
        assert(locate_from_hit(toks, 2) == Some((a.text@, b.text@)));
    }
}

} // verus!
