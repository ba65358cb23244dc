//! Entity tags: how one is made from content, and how the tags of a header
//! are compared with the tag of a resource.

use vstd::prelude::*;
use vstd::std_specs::hash::DefaultHasherAdditionalSpecFns;
use std::collections::hash_map::DefaultHasher;
use std::hash::Hasher;
use crate::text::{
    bytes_equal, header_is_text, is_header_text, lemma_radix_digits_injective, lower_hex, split,
    split_on, starts_with, to_lower_hex, views,
};

verus! {

/// `W/`, which marks a tag as weak.
pub open spec fn weak_marker() -> Seq<u8> {
    seq!['W' as u8, '/' as u8]
}

/// `, `, which parts the tags of a list.
pub open spec fn list_separator() -> Seq<u8> {
    seq![',' as u8, ' ' as u8]
}

/// `*`, which stands for any tag of an existing resource.
pub open spec fn wildcard() -> Seq<u8> {
    seq!['*' as u8]
}

pub open spec fn is_weak(tag: Seq<u8>) -> bool {
    weak_marker().is_prefix_of(tag)
}

/// The tag without a weak marker in front of it.
pub open spec fn without_weak_marker(tag: Seq<u8>) -> Seq<u8> {
    if is_weak(tag) {
        tag.skip(2)
    } else {
        tag
    }
}

/// Whether a list of tags matches the tag of a resource. A list of more than
/// one entry that holds the wildcard is malformed and gives no answer.
/// Otherwise the list matches when it is the wildcard or holds the tag.
pub open spec fn etag_list_match(list: Seq<Seq<u8>>, resource_etag: Seq<u8>) -> Option<bool> {
    if list.len() > 1 && list.contains(wildcard()) {
        None
    } else {
        Some(list.contains(wildcard()) || list.contains(resource_etag))
    }
}

/// The strong comparison of a header with the tag of a resource. There is no
/// answer where the header is not text or where either side is weak.
pub open spec fn strong_match(header: Seq<u8>, resource_etag: Seq<u8>) -> Option<bool> {
    if !is_header_text(header) || is_weak(header) || is_weak(resource_etag) {
        None
    } else {
        etag_list_match(split(header, list_separator()), resource_etag)
    }
}

/// The weak comparison of a header with the tag of a resource: both sides
/// are taken without their weak marker. There is no answer where the header
/// is not text.
pub open spec fn weak_match(header: Seq<u8>, resource_etag: Seq<u8>) -> Option<bool> {
    if !is_header_text(header) {
        None
    } else {
        etag_list_match(
            split(without_weak_marker(header), list_separator()),
            without_weak_marker(resource_etag),
        )
    }
}

/// What a hasher has been fed once a byte string was hashed into it, given
/// what it had been fed before.
pub uninterp spec fn hashed_bytes(before: Seq<Seq<u8>>, content: Seq<u8>) -> Seq<Seq<u8>>;

/// The hash of a content.
pub open spec fn content_hash(content: Seq<u8>) -> u64 {
    DefaultHasher::spec_finish(hashed_bytes(Seq::empty(), content))
}

/// The tag of a content: its hash in hexadecimal.
pub open spec fn etag_of(content: Seq<u8>) -> Seq<u8> {
    lower_hex(content_hash(content) as nat)
}

/// `std::hash::Hash::hash` of a byte slice into a `DefaultHasher`: what the
/// hasher is fed depends on the bytes and on what it was fed before, and on
/// nothing else.
#[verifier::external_body]
fn hash_bytes(content: &[u8], state: &mut DefaultHasher)
    ensures
        final(state)@ == hashed_bytes(old(state)@, content@),
{
    std::hash::Hash::hash(content, state);
}

/// Makes the tag of a content. Equal contents get equal tags.
pub fn generate_etag(content: &[u8]) -> (etag: Vec<u8>)
    ensures
        etag@ == etag_of(content@),
{
    let mut hasher = DefaultHasher::new();
    hash_bytes(content, &mut hasher);
    to_lower_hex(hasher.finish())
}

/// Equal contents have equal tags.
pub proof fn lemma_etag_deterministic(first: Seq<u8>, second: Seq<u8>)
    requires
        first == second,
    ensures
        etag_of(first) == etag_of(second),
{
}

/// Contents with different hashes have different tags.
pub proof fn lemma_etag_separates_hashes(first: Seq<u8>, second: Seq<u8>)
    requires
        content_hash(first) != content_hash(second),
    ensures
        etag_of(first) != etag_of(second),
{
    if etag_of(first) == etag_of(second) {
        lemma_radix_digits_injective(content_hash(first) as nat, content_hash(second) as nat, 16);
    }
}

/// Whether a tag begins with the weak marker.
pub fn has_weak_marker(tag: &[u8]) -> (weak: bool)
    ensures
        weak == is_weak(tag@),
{
    let marker: [u8; 2] = [87, 47];
    assert(marker@ == weak_marker());
    starts_with(tag, marker.as_slice())
}

/// The tag without a weak marker in front of it.
pub fn strip_weak_marker(tag: &[u8]) -> (rest: &[u8])
    ensures
        rest@ == without_weak_marker(tag@),
{
    if has_weak_marker(tag) {
        vstd::slice::slice_subrange(tag, 2, tag.len())
    } else {
        tag
    }
}

/// Compares the tags of a header with the tag of a resource. `None` for a
/// malformed list: one of several entries with the wildcard among them.
pub fn compare_etag_vec(header_slice: &[&[u8]], resource_etag: &[u8]) -> (matched: Option<bool>)
    ensures
        matched == etag_list_match(views(header_slice@), resource_etag@),
{
    let ghost list = views(header_slice@);
    let wild: [u8; 1] = [42];
    assert(wild@ == wildcard());
    let mut has_wildcard: bool = false;
    let mut has_match: bool = false;
    let mut i: usize = 0;
    while i < header_slice.len()
        invariant
            i <= header_slice.len(),
            list == views(header_slice@),
            wild@ == wildcard(),
            has_wildcard == list.take(i as int).contains(wildcard()),
            has_match == list.take(i as int).contains(resource_etag@),
        decreases header_slice.len() - i,
    {
        let entry: &[u8] = header_slice[i];
        let is_wild: bool = bytes_equal(entry, wild.as_slice());
        let is_same: bool = bytes_equal(entry, resource_etag);
        proof {
            let before = list.take(i as int);
            let after = list.take(i + 1);
            assert(after == before.push(list[i as int]));
            assert(list[i as int] == entry@);
            assert forall|tag: Seq<u8>| after.contains(tag) == (before.contains(tag) || tag == entry@) by {
                if before.contains(tag) {
                    let k = choose|k: int| 0 <= k < before.len() && before[k] == tag;
                    assert(after[k] == tag);
                }
                if tag == entry@ {
                    assert(after[i as int] == tag);
                }
            }
        }
        has_wildcard = has_wildcard || is_wild;
        has_match = has_match || is_same;
        i += 1;
    }
    assert(list.take(header_slice.len() as int) == list);
    if header_slice.len() > 1 && has_wildcard {
        None
    } else {
        Some(has_wildcard || has_match)
    }
}

/// Strong comparison: is one of the header's tags the tag of the resource?
/// `None` where the header is not text, where the header or the resource's
/// tag is weak, and for a malformed list.
pub fn strong_compare(etag_header: &[u8], resource_etag: &[u8]) -> (matched: Option<bool>)
    ensures
        matched == strong_match(etag_header@, resource_etag@),
{
    if !header_is_text(etag_header) {
        return None;
    }
    if has_weak_marker(etag_header) || has_weak_marker(resource_etag) {
        return None;
    }
    let separator: [u8; 2] = [44, 32];
    assert(separator@ == list_separator());
    let etags = split_on(etag_header, separator.as_slice());
    compare_etag_vec(etags.as_slice(), resource_etag)
}

/// Weak comparison: as the strong one, but a weak marker in front of the
/// header or of the resource's tag is set aside first. `None` where the
/// header is not text, and for a malformed list.
pub fn weak_compare(etag_header: &[u8], resource_etag: &[u8]) -> (matched: Option<bool>)
    ensures
        matched == weak_match(etag_header@, resource_etag@),
{
    if !header_is_text(etag_header) {
        return None;
    }
    let separator: [u8; 2] = [44, 32];
    assert(separator@ == list_separator());
    let etags = split_on(strip_weak_marker(etag_header), separator.as_slice());
    compare_etag_vec(etags.as_slice(), strip_weak_marker(resource_etag))
}

} // verus!
