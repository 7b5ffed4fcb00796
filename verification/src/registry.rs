use vstd::prelude::*;
use crate::docs::FunctionDoc;
use crate::strutil::{name_set, sort_dedup, str_eq, strictly_sorted, views};
use crate::table::NameTable;

verus! {

/// The supported language variants: the base scripting language, the query
/// language built on it, and the deployment language built on the query
/// language.
#[derive(Clone, Copy, PartialEq, Eq, Structural, Debug)]
pub enum LanguageKind {
    Script,
    Query,
    Deploy,
}

/// Which language a name selects: each variant under its language name or
/// its file extension.
pub open spec fn spec_lookup(name: Seq<char>) -> Option<LanguageKind> {
    if name == "tremor-script"@ || name == "tremor"@ {
        Some(LanguageKind::Script)
    } else if name == "tremor-query"@ || name == "trickle"@ {
        Some(LanguageKind::Query)
    } else if name == "tremor-deploy"@ || name == "troy"@ {
        Some(LanguageKind::Deploy)
    } else {
        None
    }
}

/// Select a language variant by name or file extension.
pub fn lookup(language_name: &str) -> (r: Option<LanguageKind>)
    ensures
        r == spec_lookup(language_name@),
{
    if str_eq(language_name, "tremor-script") || str_eq(language_name, "tremor") {
        Some(LanguageKind::Script)
    } else if str_eq(language_name, "tremor-query") || str_eq(language_name, "trickle") {
        Some(LanguageKind::Query)
    } else if str_eq(language_name, "tremor-deploy") || str_eq(language_name, "troy") {
        Some(LanguageKind::Deploy)
    } else {
        None
    }
}

/// A language's function registry: per-module function listings and
/// per-function documentation, with a delegation chain — a superset language
/// falls back to the base language's registry when a module or name is not
/// found in its own. Read-only after construction.
pub struct LanguageRegistry {
    pub kind: LanguageKind,
    pub own_functions: NameTable<Vec<String>>,
    pub own_docs: NameTable<FunctionDoc>,
    pub base_functions: NameTable<Vec<String>>,
    pub base_docs: NameTable<FunctionDoc>,
}

/// The module's raw function listing under the delegation chain: the
/// language's own registry first, then the base language's.
pub open spec fn spec_raw_functions(lr: LanguageRegistry, module: Seq<char>) -> Option<Vec<String>> {
    if lr.own_functions.table().contains_key(module) {
        Some(lr.own_functions.table()[module])
    } else if lr.base_functions.table().contains_key(module) {
        Some(lr.base_functions.table()[module])
    } else {
        None
    }
}

/// The set of function names a module offers; empty for an unknown module.
pub open spec fn spec_function_set(lr: LanguageRegistry, module: Seq<char>) -> Set<Seq<char>> {
    match spec_raw_functions(lr, module) {
        Some(v) => name_set(views(v@)),
        None => Set::empty(),
    }
}

/// The function's documentation under the delegation chain.
pub open spec fn spec_function_doc(lr: LanguageRegistry, name: Seq<char>) -> Option<FunctionDoc> {
    if lr.own_docs.table().contains_key(name) {
        Some(lr.own_docs.table()[name])
    } else if lr.base_docs.table().contains_key(name) {
        Some(lr.base_docs.table()[name])
    } else {
        None
    }
}

impl LanguageRegistry {
    /// A registry with no modules and no documentation.
    pub fn new(kind: LanguageKind) -> (r: Self)
        ensures
            r.kind == kind,
            forall|m: Seq<char>| spec_function_set(r, m) =~= Set::<Seq<char>>::empty(),
            forall|n: Seq<char>| spec_function_doc(r, n) is None,
    {
        LanguageRegistry {
            kind,
            own_functions: NameTable::new(),
            own_docs: NameTable::new(),
            base_functions: NameTable::new(),
            base_docs: NameTable::new(),
        }
    }

    /// The callable names of a module: deduplicated and sorted, an empty
    /// list exactly when the module is unknown to the whole chain.
    pub fn functions(&self, module: &str) -> (r: Vec<String>)
        ensures
            strictly_sorted(views(r@)),
            name_set(views(r@)) == spec_function_set(*self, module@),
    {
        let raw = match self.own_functions.lookup(module) {
            Some(v) => Some(v),
            None => self.base_functions.lookup(module),
        };
        match raw {
            Some(v) => sort_dedup(v),
            None => {
                let r: Vec<String> = Vec::new();
                proof {
                    assert(views(r@) =~= Seq::<Seq<char>>::empty());
                    assert(name_set(views(r@)) =~= Set::<Seq<char>>::empty());
                }
                r
            },
        }
    }

    /// Exact-match lookup of a function's documentation, with fallback to
    /// the base language.
    pub fn function_doc<'a>(&'a self, name: &str) -> (r: Option<&'a FunctionDoc>)
        ensures
            match r {
                Some(d) => spec_function_doc(*self, name@) == Some(*d),
                None => spec_function_doc(*self, name@) is None,
            },
    {
        match self.own_docs.lookup(name) {
            Some(d) => Some(d),
            None => self.base_docs.lookup(name),
        }
    }
}

} // verus!
