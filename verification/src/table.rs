use vstd::prelude::*;
use crate::strutil::str_eq;

verus! {

/// The mapping that a list of name/value entries denotes: a later entry for
/// the same name overrides an earlier one.
pub open spec fn assoc_map<V>(entries: Seq<(String, V)>) -> Map<Seq<char>, V>
    decreases entries.len(),
{
    if entries.len() == 0 {
        Map::empty()
    } else {
        assoc_map(entries.drop_last()).insert(entries.last().0@, entries.last().1)
    }
}

proof fn lemma_assoc_map_absent<V>(entries: Seq<(String, V)>, name: Seq<char>)
    requires
        forall|k: int| 0 <= k < entries.len() ==> (#[trigger] entries[k]).0@ != name,
    ensures
        !assoc_map(entries).contains_key(name),
    decreases entries.len(),
{
    if entries.len() > 0 {
        assert(entries.last() == entries[entries.len() - 1]);
        lemma_assoc_map_absent(entries.drop_last(), name);
    }
}

proof fn lemma_assoc_map_found<V>(entries: Seq<(String, V)>, i: int, name: Seq<char>)
    requires
        0 <= i < entries.len(),
        entries[i].0@ == name,
        forall|k: int| i < k < entries.len() ==> (#[trigger] entries[k]).0@ != name,
    ensures
        assoc_map(entries).contains_key(name),
        assoc_map(entries)[name] == entries[i].1,
    decreases entries.len(),
{
    assert(entries.last() == entries[entries.len() - 1]);
    if i == entries.len() - 1 {
    } else {
        lemma_assoc_map_found(entries.drop_last(), i, name);
    }
}

/// A name-keyed table with exact-match lookup, the shape of the function
/// registry's per-module listings and of the documentation registry.
pub struct NameTable<V> {
    entries: Vec<(String, V)>,
}

impl<V> NameTable<V> {
    /// The mapping this table holds.
    pub closed spec fn table(&self) -> Map<Seq<char>, V> {
        assoc_map(self.entries@)
    }

    pub fn new() -> (s: Self)
        ensures
            s.table() == Map::<Seq<char>, V>::empty(),
    {
        NameTable { entries: Vec::new() }
    }

    /// Register a value under a name, overriding an earlier entry for it.
    pub fn add(&mut self, name: &str, value: V)
        ensures
            final(self).table() == old(self).table().insert(name@, value),
    {
        self.entries.push((name.to_owned(), value));
        proof {
            assert(self.entries@.drop_last() =~= old(self).entries@);
        }
    }

    /// Exact-match lookup; no fuzzy matching of any kind.
    pub fn lookup<'a>(&'a self, name: &str) -> (r: Option<&'a V>)
        ensures
            match r {
                Some(v) => self.table().contains_key(name@) && *v == self.table()[name@],
                None => !self.table().contains_key(name@),
            },
    {
        let n: usize = self.entries.len();
        let mut i: usize = n;
        loop
            invariant
                i <= n,
                n == self.entries@.len(),
                forall|k: int| i <= k < n ==> (#[trigger] self.entries@[k]).0@ != name@,
            decreases i,
        {
            if i == 0 {
                proof {
                    lemma_assoc_map_absent(self.entries@, name@);
                }
                return None;
            }
            i = i - 1;
            if str_eq(self.entries[i].0.as_str(), name) {
                proof {
                    lemma_assoc_map_found(self.entries@, i as int, name@);
                }
                return Some(&self.entries[i].1);
            }
        }
    }
}

} // verus!
