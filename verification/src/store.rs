use vstd::prelude::*;

verus! {

#[verifier::external_type_specification]
#[verifier::external_body]
#[verifier::reject_recursive_types(K)]
#[verifier::reject_recursive_types(V)]
#[verifier::reject_recursive_types(S)]
pub struct ExSizedHashMap<K, V, S, const N: usize>(halfbrown::SizedHashMap<K, V, S, N>);

#[verifier::external_type_specification]
#[verifier::external_body]
pub struct ExDefaultHashBuilder(halfbrown::DefaultHashBuilder);

/// The contents of an empty document map.
pub open spec fn empty_contents() -> Map<Seq<char>, Seq<char>> {
    Map::empty()
}

/// What a document map holds: the stored text for each stored key.
pub uninterp spec fn map_contents(m: halfbrown::HashMap<String, String>) -> Map<Seq<char>, Seq<char>>;

/// Relies on halfbrown::SizedHashMap::new: a fresh map holds no entries.
#[verifier::external_body]
fn hb_new() -> (r: halfbrown::HashMap<String, String>)
    ensures
        map_contents(r) == empty_contents(),
{
    halfbrown::HashMap::new()
}

/// Relies on halfbrown::SizedHashMap::insert: replace-or-insert of the value
/// stored at the key.
#[verifier::external_body]
fn hb_insert(m: &mut halfbrown::HashMap<String, String>, k: String, v: String)
    ensures
        map_contents(*final(m)) == map_contents(*old(m)).insert(k@, v@),
{
    m.insert(k, v);
}

/// Relies on halfbrown::SizedHashMap::get: the value stored at the key, if
/// the key is present.
#[verifier::external_body]
fn hb_get<'a>(m: &'a halfbrown::HashMap<String, String>, k: &str) -> (r: Option<&'a String>)
    ensures
        match r {
            Some(v) => map_contents(*m).contains_key(k@) && v@ == map_contents(*m)[k@],
            None => !map_contents(*m).contains_key(k@),
        },
{
    m.get(k)
}

/// Relies on halfbrown::SizedHashMap::remove: the key leaves the map.
#[verifier::external_body]
fn hb_remove(m: &mut halfbrown::HashMap<String, String>, k: &str)
    ensures
        map_contents(*final(m)) == map_contents(*old(m)).remove(k@),
{
    m.remove(k);
}

/// The per-document text store: an exclusively owned map from document
/// identity (a URI string) to that document's current full text. No other
/// component mutates document text.
pub struct DocumentStore {
    map: halfbrown::HashMap<String, String>,
}

impl DocumentStore {
    /// The stored text per document identity.
    pub closed spec fn contents(&self) -> Map<Seq<char>, Seq<char>> {
        map_contents(self.map)
    }

    pub fn new() -> (s: Self)
        ensures
            s.contents() == empty_contents(),
    {
        DocumentStore { map: hb_new() }
    }

    /// Replace-or-insert the full text stored for a document (full-document
    /// synchronization: never a partial patch).
    pub fn put(&mut self, uri: &str, text: String)
        ensures
            final(self).contents() == old(self).contents().insert(uri@, text@),
    {
        hb_insert(&mut self.map, uri.to_owned(), text);
    }

    /// The current text of a document, if it is open.
    pub fn get<'a>(&'a self, uri: &str) -> (r: Option<&'a String>)
        ensures
            match r {
                Some(t) => self.contents().contains_key(uri@) && t@ == self.contents()[uri@],
                None => !self.contents().contains_key(uri@),
            },
    {
        hb_get(&self.map, uri)
    }

    /// Evict a document, bounding the store's growth once it is closed.
    pub fn remove(&mut self, uri: &str)
        ensures
            final(self).contents() == old(self).contents().remove(uri@),
    {
        hb_remove(&mut self.map, uri);
    }
}

/// Applying the same full-text update twice leaves the store exactly as one
/// application does: a repeated identical change notification changes nothing
/// further.
pub proof fn lemma_put_idempotent(m: Map<Seq<char>, Seq<char>>, uri: Seq<char>, text: Seq<char>)
    ensures
        m.insert(uri, text).insert(uri, text) == m.insert(uri, text),
{
    assert(m.insert(uri, text).insert(uri, text) =~= m.insert(uri, text));
}

/// Closing a document evicts its entry; an open that follows stores the new
/// text, and a read then sees that text, never the text from before the
/// close.
pub proof fn lemma_close_then_open_fresh(
    m: Map<Seq<char>, Seq<char>>,
    uri: Seq<char>,
    stale: Seq<char>,
    fresh_text: Seq<char>,
)
    ensures
        m.insert(uri, stale).remove(uri).insert(uri, fresh_text).contains_key(uri),
        m.insert(uri, stale).remove(uri).insert(uri, fresh_text)[uri] == fresh_text,
{
}

} // verus!
