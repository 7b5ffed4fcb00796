use vstd::prelude::*;
use crate::docs::{FunctionDoc, render_signature, spec_render_signature};
use crate::position::{Location, Position, in_engine_range, position_in_engine_range};
use crate::registry::{LanguageRegistry, spec_function_doc, spec_function_set};
use crate::strutil::{decimal_string, name_set, spec_decimal, strictly_sorted, views};
use crate::token::{
    Token, TokenKind, joined_seq, lemma_no_separator_no_token, locate_qualified, spec_locate,
};

verus! {

/// One completion candidate: the bare function name as its label, the
/// rendered signature, the markdown documentation, and an insertion template
/// with one numbered placeholder per declared argument.
#[derive(Clone, Debug)]
pub struct CompletionCandidate {
    pub label: String,
    pub detail: Option<String>,
    pub documentation: Option<String>,
    pub insert_text: Option<String>,
}

/// `${<i>:<arg>}` — the placeholder for one argument.
pub open spec fn spec_placeholder(i: nat, arg: Seq<char>) -> Seq<char> {
    "${"@ + spec_decimal(i) + ":"@ + arg + "}"@
}

/// The argument placeholders, numbered from `i0`, joined with `", "`.
pub open spec fn spec_placeholder_list(args: Seq<Seq<char>>, i0: nat) -> Seq<char>
    decreases args.len(),
{
    if args.len() == 0 {
        Seq::empty()
    } else if args.len() == 1 {
        spec_placeholder(i0, args[0])
    } else {
        spec_placeholder(i0, args[0]) + ", "@ + spec_placeholder_list(args.drop_first(), i0 + 1)
    }
}

/// The insertion template: an argument-list skeleton the user can tab
/// through after accepting the completion.
pub open spec fn spec_insert_text(name: Seq<char>, args: Seq<Seq<char>>) -> Seq<char> {
    name + "("@ + spec_placeholder_list(args, 1) + ")"@
}

/// How one candidate relates to its function name and that function's
/// documentation: the three optional fields are present exactly when the
/// function is documented.
pub open spec fn candidate_matches(
    c: CompletionCandidate,
    name: Seq<char>,
    doc: Option<FunctionDoc>,
) -> bool {
    &&& c.label@ == name
    &&& match doc {
        Some(d) => {
            &&& c.detail matches Some(t) && t@ == spec_render_signature(d.signature)
            &&& c.documentation matches Some(t) && t@ == d.description@
            &&& c.insert_text matches Some(t) && t@ == spec_insert_text(
                name,
                views(d.signature.args@),
            )
        },
        None => c.detail is None && c.documentation is None && c.insert_text is None,
    }
}

/// The labels of a candidate list.
pub open spec fn labels(cs: Seq<CompletionCandidate>) -> Seq<Seq<char>> {
    cs.map_values(|c: CompletionCandidate| c.label@)
}

fn placeholder(i: u64, arg: &String) -> (r: String)
    ensures
        r@ == spec_placeholder(i as nat, arg@),
{
    let mut s = "${".to_owned();
    let d = decimal_string(i);
    s.append(d.as_str());
    s.append(":");
    s.append(arg.as_str());
    s.append("}");
    proof {
        assert(s@ =~= spec_placeholder(i as nat, arg@));
    }
    s
}

fn placeholder_list_from(args: &Vec<String>, i: usize) -> (r: String)
    requires
        i <= args@.len(),
    ensures
        r@ == spec_placeholder_list(views(args@).skip(i as int), i as nat + 1),
    decreases args@.len() - i,
{
    let n: usize = args.len();
    if i == n {
        proof {
            assert(views(args@).skip(i as int).len() == 0);
        }
        String::new()
    } else if i + 1 == n {
        proof {
            assert(views(args@).skip(i as int).len() == 1);
            assert(views(args@).skip(i as int)[0] == args@[i as int]@);
        }
        placeholder((i as u64) + 1, &args[i])
    } else {
        let mut s = placeholder((i as u64) + 1, &args[i]);
        s.append(", ");
        let rest = placeholder_list_from(args, i + 1);
        s.append(rest.as_str());
        proof {
            let tail = views(args@).skip(i as int);
            assert(tail[0] == args@[i as int]@);
            assert(tail.drop_first() =~= views(args@).skip(i + 1));
            assert(s@ =~= spec_placeholder(i as nat + 1, tail[0]) + ", "@ + spec_placeholder_list(
                tail.drop_first(),
                i as nat + 2,
            ));
        }
        s
    }
}

/// Build the candidate for one function name, from its documentation if it
/// has any.
pub fn build_candidate(name: &String, doc: Option<&FunctionDoc>) -> (c: CompletionCandidate)
    ensures
        candidate_matches(
            c,
            name@,
            match doc {
                Some(d) => Some(*d),
                None => None,
            },
        ),
{
    match doc {
        Some(d) => {
            let detail = render_signature(&d.signature);
            let documentation = d.description.clone();
            let mut insert = name.clone();
            insert.append("(");
            let list = placeholder_list_from(&d.signature.args, 0);
            insert.append(list.as_str());
            insert.append(")");
            proof {
                assert(views(d.signature.args@).skip(0) =~= views(d.signature.args@));
                assert(insert@ =~= spec_insert_text(name@, views(d.signature.args@)));
            }
            CompletionCandidate {
                label: name.clone(),
                detail: Some(detail),
                documentation: Some(documentation),
                insert_text: Some(insert),
            }
        },
        None => CompletionCandidate {
            label: name.clone(),
            detail: None,
            documentation: None,
            insert_text: None,
        },
    }
}

/// The cursor at which completion scans for the qualified token: one column
/// left of the typed trigger, in engine coordinates.
pub open spec fn spec_shifted_cursor(pos: Position) -> Location {
    Location { line: (pos.line + 1) as usize, column: pos.character as usize }
}

/// The module whose functions completion offers: the module prefix of the
/// qualified token at the shifted cursor. `None` when the cursor is
/// malformed (no column to its left, or no engine representation), when no
/// token is found there, or when the token has no module prefix —
/// completion never offers bare names.
pub open spec fn spec_completion_target(tokens: Seq<Token>, pos: Position) -> Option<Seq<char>> {
    if pos.character == 0 || !position_in_engine_range(pos) {
        None
    } else {
        match spec_locate(tokens, spec_shifted_cursor(pos)) {
            Some(p) => Some(p.0),
            None => None,
        }
    }
}

/// In a token list without any path-separator token there is never a module
/// prefix to complete on, at any cursor position: completion offers nothing
/// on unqualified identifiers.
pub proof fn lemma_unqualified_no_completion_target(tokens: Seq<Token>, pos: Position)
    requires
        forall|k: int| 0 <= k < tokens.len() ==> tokens[k].kind != TokenKind::PathSep,
    ensures
        spec_completion_target(tokens, pos) is None,
{
    if pos.character != 0 && position_in_engine_range(pos) {
        lemma_no_separator_no_token(tokens, spec_shifted_cursor(pos));
    }
}

fn qualified_name(module: &String, name: &String) -> (r: String)
    ensures
        r@ == joined_seq(module@, name@),
{
    let mut s = module.clone();
    s.append("::");
    s.append(name.as_str());
    proof {
        reveal_strlit("::");
        assert(s@ =~= joined_seq(module@, name@));
    }
    s
}

/// The completion pipeline: shift the cursor one column left of the trigger,
/// locate the qualified token there, and offer the target module's functions
/// — sorted, deduplicated, one candidate per name, each built from the
/// function's documentation under the registry's delegation chain.
pub fn completions(lr: &LanguageRegistry, tokens: &Vec<Token>, pos: &Position) -> (r: Vec<
    CompletionCandidate,
>)
    ensures
        match spec_completion_target(tokens@, *pos) {
            None => r@.len() == 0,
            Some(m) => {
                &&& strictly_sorted(labels(r@))
                &&& name_set(labels(r@)) == spec_function_set(*lr, m)
                &&& forall|i: int| 0 <= i < r@.len() ==> candidate_matches(
                    #[trigger] r@[i],
                    labels(r@)[i],
                    spec_function_doc(*lr, joined_seq(m, labels(r@)[i])),
                )
            },
        },
{
    if pos.character == 0 || !in_engine_range(pos) {
        return Vec::new();
    }
    let cursor = Location { line: pos.line as usize + 1, column: pos.character as usize };
    proof {
        assert(cursor == spec_shifted_cursor(*pos));
    }
    match locate_qualified(tokens, &cursor) {
        None => Vec::new(),
        Some(q) => {
            let names = lr.functions(q.module.as_str());
            let mut r: Vec<CompletionCandidate> = Vec::new();
            let mut i: usize = 0;
            while i < names.len()
                invariant
                    i <= names@.len(),
                    r@.len() == i,
                    forall|j: int| 0 <= j < i ==> (#[trigger] r@[j]).label@ == views(names@)[j],
                    forall|j: int| 0 <= j < i ==> candidate_matches(
                        #[trigger] r@[j],
                        views(names@)[j],
                        spec_function_doc(*lr, joined_seq(q.module@, views(names@)[j])),
                    ),
                decreases names@.len() - i,
            {
                let full = qualified_name(&q.module, &names[i]);
                let doc = lr.function_doc(full.as_str());
                let c = build_candidate(&names[i], doc);
                r.push(c);
                i = i + 1;
            }
            proof {
                assert(labels(r@) =~= views(names@));
            }
            r
        },
    }
}

} // verus!
