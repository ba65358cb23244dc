//! The representation that a request is answered from, and how it is
//! obtained: from the cache where that is allowed, else from a fresh read of
//! the resource, which the cache then learns of.

use vstd::prelude::*;
use crate::cache::{Cache, CacheEntry, Entry};
use crate::etag::{etag_of, generate_etag};
use crate::request::{can_check_cache, Headers, RequestHeaders};
use crate::text::bytes_equal;
use crate::time::Timestamp;

verus! {

/// What a request is answered from: a resource with its validators, or the
/// body that says that there is no such resource.
#[derive(Debug, Clone, PartialEq, Eq)]
pub enum WebContent {
    Found { data: Vec<u8>, content_type: Vec<u8>, last_modified: Timestamp, etag: Vec<u8> },
    NotFound { data: Vec<u8> },
}

/// A `WebContent` as a value.
pub enum Content {
    Found { data: Seq<u8>, content_type: Seq<u8>, last_modified: Timestamp, etag: Seq<u8> },
    NotFound { data: Seq<u8> },
}

impl View for WebContent {
    type V = Content;

    open spec fn view(&self) -> Content {
        match self {
            WebContent::Found { data, content_type, last_modified, etag } => Content::Found {
                data: data@,
                content_type: content_type@,
                last_modified: *last_modified,
                etag: etag@,
            },
            WebContent::NotFound { data } => Content::NotFound { data: data@ },
        }
    }
}

impl Content {
    /// The body: the resource, or the text that says there is none.
    pub open spec fn body(self) -> Seq<u8> {
        match self {
            Content::Found { data, .. } => data,
            Content::NotFound { data } => data,
        }
    }

    /// The representation that a cache entry stands for.
    pub open spec fn of_entry(entry: Entry) -> Content {
        Content::Found {
            data: entry.content,
            content_type: entry.content_type,
            last_modified: entry.last_modified,
            etag: entry.etag,
        }
    }
}

impl WebContent {
    /// The representation of a resource.
    pub fn new_content(data: Vec<u8>, content_type: Vec<u8>, last_modified: Timestamp, etag: Vec<u8>) -> (content: WebContent)
        ensures
            content@ == (Content::Found {
                data: data@,
                content_type: content_type@,
                last_modified,
                etag: etag@,
            }),
    {
        WebContent::Found { data, content_type, last_modified, etag }
    }

    /// The answer for a resource that does not exist.
    pub fn new_not_found(data: Vec<u8>) -> (content: WebContent)
        ensures
            content@ == (Content::NotFound { data: data@ }),
    {
        WebContent::NotFound { data }
    }

    pub fn get_data(&self) -> (data: &Vec<u8>)
        ensures
            data@ == self@.body(),
    {
        match self {
            WebContent::Found { data, .. } => data,
            WebContent::NotFound { data } => data,
        }
    }

    pub fn get_content_type(&self) -> (content_type: Option<&Vec<u8>>)
        ensures
            match content_type {
                Some(value) => self@ is Found && value@ == self@->content_type,
                None => self@ is NotFound,
            },
    {
        match self {
            WebContent::Found { content_type, .. } => Some(content_type),
            WebContent::NotFound { .. } => None,
        }
    }

    pub fn get_last_modified(&self) -> (last_modified: Option<&Timestamp>)
        ensures
            match last_modified {
                Some(value) => self@ is Found && *value == self@->last_modified,
                None => self@ is NotFound,
            },
    {
        match self {
            WebContent::Found { last_modified, .. } => Some(last_modified),
            WebContent::NotFound { .. } => None,
        }
    }

    pub fn get_etag(&self) -> (etag: Option<&Vec<u8>>)
        ensures
            match etag {
                Some(value) => self@ is Found && value@ == self@->etag,
                None => self@ is NotFound,
            },
    {
        match self {
            WebContent::Found { etag, .. } => Some(etag),
            WebContent::NotFound { .. } => None,
        }
    }

    pub fn is_not_found(&self) -> (yes: bool)
        ensures
            yes == self@ is NotFound,
    {
        match self {
            WebContent::Found { .. } => false,
            WebContent::NotFound { .. } => true,
        }
    }
}

/// What the cache lookup for a request comes to.
#[derive(Debug, Clone, PartialEq, Eq)]
pub enum Lookup {
    /// The cache answers the request.
    Hit(WebContent),
    /// The resource must be read. `cached_etag` is the tag that the cache
    /// holds of it, empty where it holds none.
    Miss { cached_etag: Vec<u8> },
}

/// A `Lookup` as a value.
pub enum LookupView {
    Hit(Content),
    Miss { cached_etag: Seq<u8> },
}

impl View for Lookup {
    type V = LookupView;

    open spec fn view(&self) -> LookupView {
        match self {
            Lookup::Hit(content) => LookupView::Hit(content@),
            Lookup::Miss { cached_etag } => LookupView::Miss { cached_etag: cached_etag@ },
        }
    }
}

/// What the lookup of `uri` comes to. The cache answers where it holds the
/// resource and the request carries neither `If-Match` nor
/// `If-Unmodified-Since`.
pub open spec fn lookup_of(headers: Headers, entries: Map<Seq<char>, Entry>, uri: Seq<char>) -> LookupView {
    if entries.contains_key(uri) {
        if headers.if_match is None && headers.if_unmodified_since is None {
            LookupView::Hit(Content::of_entry(entries[uri]))
        } else {
            LookupView::Miss { cached_etag: entries[uri].etag }
        }
    } else {
        LookupView::Miss { cached_etag: Seq::empty() }
    }
}

/// Whether a fresh read is stored: where the cache held no tag of the
/// resource, or another tag than the one just made.
pub open spec fn is_stored(cached_etag: Seq<u8>, etag: Seq<u8>) -> bool {
    cached_etag.len() == 0 || cached_etag != etag
}

/// The representation that a fresh read gives. `metadata` is the content
/// type and the time of the last change of a resource that exists.
pub open spec fn content_of_read(data: Seq<u8>, metadata: Option<(Seq<u8>, Timestamp)>) -> Content {
    match metadata {
        Some((content_type, last_modified)) => Content::Found {
            data,
            content_type,
            last_modified,
            etag: etag_of(data),
        },
        None => Content::NotFound { data },
    }
}

/// What the cache holds after a fresh read.
pub open spec fn entries_after_read(
    entries: Map<Seq<char>, Entry>,
    uri: Seq<char>,
    cached_etag: Seq<u8>,
    data: Seq<u8>,
    metadata: Option<(Seq<u8>, Timestamp)>,
) -> Map<Seq<char>, Entry> {
    match metadata {
        Some((content_type, last_modified)) => if is_stored(cached_etag, etag_of(data)) {
            entries.insert(
                uri,
                Entry { content: data, content_type, last_modified, etag: etag_of(data) },
            )
        } else {
            entries
        },
        None => entries,
    }
}

/// The metadata of a read as a value.
pub open spec fn metadata_view(metadata: Option<(Vec<u8>, Timestamp)>) -> Option<(Seq<u8>, Timestamp)> {
    match metadata {
        Some((content_type, last_modified)) => Some((content_type@, last_modified)),
        None => None,
    }
}

/// Looks a resource up in the cache for a request.
pub fn lookup_web_content(headers: &RequestHeaders, cache: &Cache, uri: &str) -> (lookup: Lookup)
    ensures
        lookup@ == lookup_of(headers@, cache@, uri@),
{
    match cache.read_cache(uri) {
        Some(entry) => {
            if can_check_cache(headers) {
                let CacheEntry { content, content_type, last_modified, etag } = entry;
                Lookup::Hit(WebContent::new_content(content, content_type, last_modified, etag))
            } else {
                Lookup::Miss { cached_etag: entry.etag }
            }
        },
        None => Lookup::Miss { cached_etag: Vec::new() },
    }
}

/// Takes in what a fresh read of `uri` gave, after a lookup that missed.
/// A resource that exists gets its tag and becomes the answer, and the
/// cache stores it where it held no tag of the resource or another one.
/// A resource that does not exist leaves the cache as it was.
pub fn store_web_content(
    cache: &mut Cache,
    uri: &str,
    cached_etag: &[u8],
    data: Vec<u8>,
    metadata: Option<(Vec<u8>, Timestamp)>,
) -> (content: WebContent)
    ensures
        content@ == content_of_read(data@, metadata_view(metadata)),
        final(cache)@ == entries_after_read(
            old(cache)@,
            uri@,
            cached_etag@,
            data@,
            metadata_view(metadata),
        ),
{
    match metadata {
        Some((content_type, last_modified)) => {
            let etag = generate_etag(data.as_slice());
            if cached_etag.len() == 0 || !bytes_equal(cached_etag, etag.as_slice()) {
                cache.write_cache(
                    uri,
                    data.as_slice(),
                    content_type.as_slice(),
                    &last_modified,
                    etag.as_slice(),
                );
            }
            WebContent::new_content(data, content_type, last_modified, etag)
        },
        None => WebContent::new_not_found(data),
    }
}

/// A fresh read leaves a cache whose entries carry the tags of their
/// contents one: what it stores carries the tag of what was read.
pub proof fn lemma_read_keeps_consistency(
    entries: Map<Seq<char>, Entry>,
    uri: Seq<char>,
    cached_etag: Seq<u8>,
    data: Seq<u8>,
    metadata: Option<(Seq<u8>, Timestamp)>,
)
    requires
        crate::cache::all_consistent(entries),
    ensures
        crate::cache::all_consistent(entries_after_read(entries, uri, cached_etag, data, metadata)),
{
}

/// No read removes an entry from the cache.
pub proof fn lemma_read_keeps_entries(
    entries: Map<Seq<char>, Entry>,
    uri: Seq<char>,
    cached_etag: Seq<u8>,
    data: Seq<u8>,
    metadata: Option<(Seq<u8>, Timestamp)>,
)
    ensures
        entries.dom().subset_of(
            entries_after_read(entries, uri, cached_etag, data, metadata).dom(),
        ),
{
}

} // verus!
