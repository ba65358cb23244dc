//! What the resource resolver decides before and after it reads the disk:
//! which file a resource identifier names, and which content type a file
//! has.

use vstd::prelude::*;
use vstd::slice::slice_subrange;
use vstd::string::StringSliceAdditionalSpecFns;
use crate::text::{bytes_equal, copy_bytes, literal};

verus! {

/// The directory that holds the resources.
pub const RESOURCE_DIRECTORY: &'static str = "resources";

/// The file whose content says that a resource does not exist.
pub const NOT_FOUND_PAGE: &'static str = "404.html";

/// The file that the root of the site names.
pub open spec fn index_page() -> Seq<u8> {
    "index.html".spec_bytes()
}

/// The root of the site.
pub open spec fn root() -> Seq<u8> {
    seq!['/' as u8]
}

/// The file, relative to the resource directory, that a resource identifier
/// names: the index page for the root, else the identifier without its
/// leading slash.
pub open spec fn resource_file(uri: Seq<u8>) -> Seq<u8> {
    if uri == root() {
        index_page()
    } else if root().is_prefix_of(uri) {
        uri.skip(1)
    } else {
        uri
    }
}

/// An ASCII letter in lower case; any other byte as it is.
pub open spec fn lower(b: u8) -> u8 {
    if 65 <= b && b <= 90 {
        (b + 32) as u8
    } else {
        b
    }
}

/// A text with its ASCII letters in lower case.
pub open spec fn lowered(text: Seq<u8>) -> Seq<u8> {
    Seq::new(text.len(), |i: int| lower(text[i]))
}

/// The content type of a file by its extension, whatever the case of its
/// letters. Files of any other extension are not served.
pub open spec fn content_type_of(extension: Seq<u8>) -> Option<Seq<u8>> {
    if lowered(extension) == "html".spec_bytes() {
        Some("text/html; charset=utf-8".spec_bytes())
    } else if lowered(extension) == "ico".spec_bytes() {
        Some("image/x-icon".spec_bytes())
    } else {
        None
    }
}

/// The file, relative to the resource directory, that a resource identifier
/// names.
pub fn resource_name(uri: &[u8]) -> (name: Vec<u8>)
    ensures
        name@ == resource_file(uri@),
{
    let slash: [u8; 1] = ['/' as u8];
    assert(slash@ == root());
    if bytes_equal(uri, slash.as_slice()) {
        literal("index.html")
    } else if crate::text::starts_with(uri, slash.as_slice()) {
        copy_bytes(slice_subrange(uri, 1, uri.len()))
    } else {
        copy_bytes(uri)
    }
}

/// A text with its ASCII letters in lower case.
pub fn to_lower(text: &[u8]) -> (out: Vec<u8>)
    ensures
        out@ == lowered(text@),
{
    let mut out: Vec<u8> = Vec::new();
    let mut i: usize = 0;
    while i < text.len()
        invariant
            i <= text.len(),
            out@ == lowered(text@.take(i as int)),
        decreases text.len() - i,
    {
        let b: u8 = text[i];
        let c: u8 = if b >= 65 && b <= 90 {
            b + 32
        } else {
            b
        };
        out.push(c);
        assert(out@ =~= lowered(text@.take(i + 1)));
        i += 1;
    }
    assert(text@.take(text.len() as int) == text@);
    out
}

/// The content type of a file by its extension, or `None` for a file that
/// is not served.
pub fn content_type_for(extension: &[u8]) -> (content_type: Option<Vec<u8>>)
    ensures
        crate::request::value_of(content_type) == content_type_of(extension@),
{
    let lowered = to_lower(extension);
    if bytes_equal(lowered.as_slice(), literal("html").as_slice()) {
        Some(literal("text/html; charset=utf-8"))
    } else if bytes_equal(lowered.as_slice(), literal("ico").as_slice()) {
        Some(literal("image/x-icon"))
    } else {
        None
    }
}

} // verus!
