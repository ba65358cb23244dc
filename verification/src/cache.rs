//! The resource cache: for each resource identifier the content last read,
//! with its type, the time of its last change, and its tag.

use vstd::prelude::*;
use vstd::hash_map::StringHashMap;
use crate::etag::etag_of;
use crate::text::copy_bytes;
use crate::time::Timestamp;

verus! {

/// What the cache holds of one resource.
#[derive(Debug, Clone, PartialEq, Eq)]
pub struct CacheEntry {
    pub content: Vec<u8>,
    pub content_type: Vec<u8>,
    pub last_modified: Timestamp,
    pub etag: Vec<u8>,
}

/// A cache entry as a value.
pub struct Entry {
    pub content: Seq<u8>,
    pub content_type: Seq<u8>,
    pub last_modified: Timestamp,
    pub etag: Seq<u8>,
}

impl View for CacheEntry {
    type V = Entry;

    open spec fn view(&self) -> Entry {
        Entry {
            content: self.content@,
            content_type: self.content_type@,
            last_modified: self.last_modified,
            etag: self.etag@,
        }
    }
}

impl Entry {
    /// The entry's tag is the tag of its content.
    pub open spec fn is_consistent(self) -> bool {
        self.etag == etag_of(self.content)
    }
}

impl CacheEntry {
    /// A copy of the entry that shares nothing with it.
    pub fn duplicate(&self) -> (copy: CacheEntry)
        ensures
            copy@ == self@,
    {
        CacheEntry {
            content: copy_bytes(self.content.as_slice()),
            content_type: copy_bytes(self.content_type.as_slice()),
            last_modified: self.last_modified,
            etag: copy_bytes(self.etag.as_slice()),
        }
    }
}

/// The cache. Entries are added and replaced whole; none is ever removed.
pub struct Cache {
    content: StringHashMap<CacheEntry>,
}

impl View for Cache {
    type V = Map<Seq<char>, Entry>;

    closed spec fn view(&self) -> Map<Seq<char>, Entry> {
        self.content@.map_values(|entry: CacheEntry| entry@)
    }
}

/// Every entry's tag is the tag of its content.
pub open spec fn all_consistent(entries: Map<Seq<char>, Entry>) -> bool {
    forall|uri: Seq<char>| entries.contains_key(uri) ==> (#[trigger] entries[uri]).is_consistent()
}

impl Cache {
    /// An empty cache.
    pub fn new() -> (cache: Cache)
        ensures
            cache@ == Map::<Seq<char>, Entry>::empty(),
    {
        let cache = Cache { content: StringHashMap::new() };
        assert(cache@ =~= Map::<Seq<char>, Entry>::empty());
        cache
    }

    /// A copy of what the cache holds of `uri`, or `None` where it holds
    /// nothing of it.
    pub fn read_cache(&self, uri: &str) -> (found: Option<CacheEntry>)
        ensures
            match found {
                Some(entry) => self@.contains_key(uri@) && entry@ == self@[uri@],
                None => !self@.contains_key(uri@),
            },
    {
        match self.content.get(uri) {
            Some(entry) => Some(entry.duplicate()),
            None => None,
        }
    }

    /// Stores an entry for `uri`, in place of any that the cache held of it.
    /// Every other entry stays as it was.
    pub fn write_cache(
        &mut self,
        uri: &str,
        resource_content: &[u8],
        content_type: &[u8],
        last_modified: &Timestamp,
        etag: &[u8],
    )
        ensures
            final(self)@ == old(self)@.insert(
                uri@,
                Entry {
                    content: resource_content@,
                    content_type: content_type@,
                    last_modified: *last_modified,
                    etag: etag@,
                },
            ),
            old(self)@.dom().subset_of(final(self)@.dom()),
    {
        let entry = CacheEntry {
            content: copy_bytes(resource_content),
            content_type: copy_bytes(content_type),
            last_modified: *last_modified,
            etag: copy_bytes(etag),
        };
        self.content.insert(uri.to_owned(), entry);
        assert(self@ =~= old(self)@.insert(uri@, entry@));
    }

    /// Makes the tag of a content.
    pub fn generate_etag(resource_content: &[u8]) -> (etag: Vec<u8>)
        ensures
            etag@ == etag_of(resource_content@),
    {
        crate::etag::generate_etag(resource_content)
    }
}

/// Two writes for one resource, in either order, leave the entry of the
/// later write, whole: content, type, time and tag all come from the same
/// write.
pub proof fn lemma_later_write_stays_whole(
    before: Map<Seq<char>, Entry>,
    uri: Seq<char>,
    first: Entry,
    second: Entry,
)
    ensures
        before.insert(uri, first).insert(uri, second)[uri] == second,
        before.insert(uri, second).insert(uri, first)[uri] == first,
        before.insert(uri, first).insert(uri, second).dom() == before.insert(uri, second).insert(
            uri,
            first,
        ).dom(),
{
    assert(before.insert(uri, first).insert(uri, second).dom() =~= before.insert(uri, second).insert(
        uri,
        first,
    ).dom());
}

/// A write of an entry whose tag is the tag of its content keeps a cache of
/// such entries one.
pub proof fn lemma_write_keeps_consistency(before: Map<Seq<char>, Entry>, uri: Seq<char>, entry: Entry)
    requires
        all_consistent(before),
        entry.is_consistent(),
    ensures
        all_consistent(before.insert(uri, entry)),
{
}

} // verus!
