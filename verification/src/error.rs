//! The errors that the request path reports.

use vstd::prelude::*;

verus! {

/// Why a `Range` header was not honoured.
#[derive(Debug, Clone, Copy, PartialEq, Eq, Structural)]
pub enum HeaderError {
    /// The header is not text, lacks the `bytes=` unit, or holds a spec that
    /// is not of the form `start-end`, `start-` or `-suffix`.
    BadFormat,
    /// A spec starts at or beyond the end of the content or after its own
    /// end, the list is too long or out of order, or too many neighbours
    /// overlap.
    InvalidRange,
    /// A spec of the form `start-end` ends at or beyond the end of the
    /// content.
    SuffixExceedsLength,
}

impl HeaderError {
    /// The text that describes the error.
    pub open spec fn spec_message(self) -> Seq<char> {
        match self {
            HeaderError::BadFormat => "Client packet has bad header format"@,
            HeaderError::InvalidRange => "Invalid Range(s) supplied"@,
            HeaderError::SuffixExceedsLength => "Suffix has exceeded length: entire resource should be sent back."@,
        }
    }

    /// The text that describes the error.
    pub fn message(&self) -> (text: String)
        ensures
            text@ == self.spec_message(),
    {
        match self {
            HeaderError::BadFormat => "Client packet has bad header format".to_owned(),
            HeaderError::InvalidRange => "Invalid Range(s) supplied".to_owned(),
            HeaderError::SuffixExceedsLength => "Suffix has exceeded length: entire resource should be sent back.".to_owned(),
        }
    }
}

/// The resource could be neither served nor reported as missing.
#[derive(Debug, Clone, Copy, PartialEq, Eq, Structural)]
pub struct RetrievalError;

impl RetrievalError {
    /// The text that describes the error.
    pub fn message(&self) -> (text: String)
        ensures
            text@ == "Error in retrieving web content"@,
    {
        "Error in retrieving web content".to_owned()
    }
}

} // verus!
