//! What the connection layer hands over of a request: the values of the
//! headers that the core reads.

use vstd::prelude::*;
use vstd::string::StringSliceAdditionalSpecFns;
use crate::text::{literal, starts_with};

verus! {

/// The values of the request headers that the core reads, each as the bytes
/// that were sent, or `None` where the request has no such header.
#[derive(Debug, Clone, PartialEq, Eq)]
pub struct RequestHeaders {
    pub if_match: Option<Vec<u8>>,
    pub if_unmodified_since: Option<Vec<u8>>,
    pub if_none_match: Option<Vec<u8>>,
    pub if_modified_since: Option<Vec<u8>>,
    pub if_range: Option<Vec<u8>>,
    pub range: Option<Vec<u8>>,
    pub date: Option<Vec<u8>>,
}

/// The request headers as values.
pub struct Headers {
    pub if_match: Option<Seq<u8>>,
    pub if_unmodified_since: Option<Seq<u8>>,
    pub if_none_match: Option<Seq<u8>>,
    pub if_modified_since: Option<Seq<u8>>,
    pub if_range: Option<Seq<u8>>,
    pub range: Option<Seq<u8>>,
    pub date: Option<Seq<u8>>,
}

/// The value of an optional byte string.
pub open spec fn value_of(field: Option<Vec<u8>>) -> Option<Seq<u8>> {
    match field {
        Some(bytes) => Some(bytes@),
        None => None,
    }
}

impl View for RequestHeaders {
    type V = Headers;

    open spec fn view(&self) -> Headers {
        Headers {
            if_match: value_of(self.if_match),
            if_unmodified_since: value_of(self.if_unmodified_since),
            if_none_match: value_of(self.if_none_match),
            if_modified_since: value_of(self.if_modified_since),
            if_range: value_of(self.if_range),
            range: value_of(self.range),
            date: value_of(self.date),
        }
    }
}

impl RequestHeaders {
    /// The headers of a request that sent none of them.
    pub fn new() -> (headers: RequestHeaders)
        ensures
            headers@ == (Headers {
                if_match: None,
                if_unmodified_since: None,
                if_none_match: None,
                if_modified_since: None,
                if_range: None,
                range: None,
                date: None,
            }),
    {
        RequestHeaders {
            if_match: None,
            if_unmodified_since: None,
            if_none_match: None,
            if_modified_since: None,
            if_range: None,
            range: None,
            date: None,
        }
    }
}

/// An optional byte string as a slice.
pub fn field_bytes(field: &Option<Vec<u8>>) -> (bytes: Option<&[u8]>)
    ensures
        bytes is Some == field is Some,
        bytes matches Some(b) ==> b@ == field->Some_0@,
{
    match field {
        Some(value) => Some(value.as_slice()),
        None => None,
    }
}

/// Whether a cached copy may answer the request: not when the request
/// carries `If-Match` or `If-Unmodified-Since`, which are judged against the
/// resource as it is now.
pub fn can_check_cache(headers: &RequestHeaders) -> (yes: bool)
    ensures
        yes == (headers@.if_match is None && headers@.if_unmodified_since is None),
{
    headers.if_match.is_none() && headers.if_unmodified_since.is_none()
}

/// The start of a request line that asks to read a resource.
pub open spec fn get_line_start() -> Seq<u8> {
    seq!['G' as u8, 'E' as u8, 'T' as u8, ' ' as u8]
}

/// The whole answer to a request that does not ask to read a resource.
pub open spec fn bad_request_text() -> Seq<u8> {
    "HTTP/1.1 400 Bad Request\r\nContent-Length: 11\r\n\r\nBad Request".spec_bytes()
}

/// Looks at the first bytes that a connection sent. A request line that
/// begins with `GET ` goes on to the lookup of its resource and gets no
/// answer here; anything else is answered with a complete `400` message.
pub fn get_response(buf: &[u8]) -> (answer: Option<Vec<u8>>)
    ensures
        value_of(answer) == (if get_line_start().is_prefix_of(buf@) {
            None
        } else {
            Some(bad_request_text())
        }),
{
    let start: [u8; 4] = ['G' as u8, 'E' as u8, 'T' as u8, ' ' as u8];
    assert(start@ == get_line_start());
    if starts_with(buf, start.as_slice()) {
        None
    } else {
        Some(literal("HTTP/1.1 400 Bad Request\r\nContent-Length: 11\r\n\r\nBad Request"))
    }
}

} // verus!
