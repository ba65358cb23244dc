//! The precondition evaluator: one three-valued judgement per conditional
//! header, and the order in which the judgements decide a request.

use vstd::prelude::*;
use crate::etag::{
    is_weak, list_separator, strong_compare, strong_match, weak_compare, weak_match, wildcard,
};
use crate::text::{
    is_header_text, lemma_split_scan_not_empty, lemma_split_short, occurs_at, split, split_scan,
};
use crate::request::{field_bytes, Headers, RequestHeaders};
use crate::time::{header_to_date, http_date, Timestamp};

verus! {

/// What a conditional header says of a request.
#[derive(Debug, Clone, Copy, PartialEq, Eq, Structural)]
pub enum Outcome {
    /// The condition holds.
    Pass,
    /// The condition does not hold.
    Fail,
    /// The header cannot be judged and is set aside.
    Ignore,
}

/// What the conditional headers of a request decide together.
#[derive(Debug, Clone, Copy, PartialEq, Eq, Structural)]
pub enum Verdict {
    /// No condition failed: the resource is served.
    Proceed,
    /// `If-Match` or `If-Unmodified-Since` failed: status 412.
    PreconditionFailed,
    /// `If-None-Match` or `If-Modified-Since` failed: status 304.
    NotModified,
}

/// A condition that asks for a match: it passes on a match, fails on none,
/// and is set aside where the comparison has no answer.
pub open spec fn pass_on_match(matched: Option<bool>) -> Outcome {
    match matched {
        Some(true) => Outcome::Pass,
        Some(false) => Outcome::Fail,
        None => Outcome::Ignore,
    }
}

/// A condition that asks for no match: it fails on a match, passes on none,
/// and is set aside where the comparison has no answer.
pub open spec fn fail_on_match(matched: Option<bool>) -> Outcome {
    match matched {
        Some(true) => Outcome::Fail,
        Some(false) => Outcome::Pass,
        None => Outcome::Ignore,
    }
}

/// `If-Match`: the strong comparison must find the resource's tag.
pub open spec fn if_match_outcome(header: Seq<u8>, resource_etag: Seq<u8>) -> Outcome {
    pass_on_match(strong_match(header, resource_etag))
}

/// `If-None-Match`: the weak comparison must not find the resource's tag.
pub open spec fn if_none_match_outcome(header: Seq<u8>, resource_etag: Seq<u8>) -> Outcome {
    fail_on_match(weak_match(header, resource_etag))
}

/// `If-Unmodified-Since`, once its date is read: it fails where the date is
/// earlier than the resource's last change, both taken to the whole second,
/// and is set aside where the header holds no date.
pub open spec fn unmodified_since_outcome(date: Option<Timestamp>, modified: Timestamp) -> Outcome {
    match date {
        None => Outcome::Ignore,
        Some(date) => if date.secs < modified.secs {
            Outcome::Fail
        } else {
            Outcome::Pass
        },
    }
}

/// `If-Modified-Since`, once its date is read: it fails where the date is
/// not earlier than the resource's last change, both taken to the whole
/// second, and is set aside where the header holds no date.
pub open spec fn modified_since_outcome(date: Option<Timestamp>, modified: Timestamp) -> Outcome {
    match date {
        None => Outcome::Ignore,
        Some(date) => if date.secs >= modified.secs {
            Outcome::Fail
        } else {
            Outcome::Pass
        },
    }
}

/// A last change is a strong validator for a message sent at `sent` when it
/// lies a full second or more before that instant.
pub open spec fn is_strong_date(sent: Timestamp, modified: Timestamp) -> bool {
    sent.nanos_since_epoch() - modified.nanos_since_epoch() >= 1_000_000_000
}

/// `If-Range` with a date. `sent` is the request's `Date` header: `None`
/// where there is none, `Some(None)` where it holds no date. Without a
/// `Date` header the condition fails; a `Date` header that holds no date
/// sets the condition aside. Otherwise the condition passes where the last
/// change is a strong validator and is the very instant that `If-Range`
/// names, and fails where it is not.
pub open spec fn if_range_date_outcome(
    condition: Timestamp,
    modified: Timestamp,
    sent: Option<Option<Timestamp>>,
) -> Outcome {
    match sent {
        None => Outcome::Fail,
        Some(None) => Outcome::Ignore,
        Some(Some(sent)) => if is_strong_date(sent, modified) && condition == modified {
            Outcome::Pass
        } else {
            Outcome::Fail
        },
    }
}

/// The date of an optional header.
pub open spec fn optional_date(header: Option<Seq<u8>>) -> Option<Option<Timestamp>> {
    match header {
        Some(value) => Some(http_date(value)),
        None => None,
    }
}

/// `If-Range`: with no such header there is no condition, and it passes. A
/// header that holds a date is judged as a date; any other is taken as a
/// tag and compared strongly with the resource's tag.
pub open spec fn if_range_outcome(
    if_range: Option<Seq<u8>>,
    modified: Timestamp,
    resource_etag: Seq<u8>,
    date: Option<Seq<u8>>,
) -> Outcome {
    match if_range {
        None => Outcome::Pass,
        Some(value) => match http_date(value) {
            Some(condition) => if_range_date_outcome(condition, modified, optional_date(date)),
            None => pass_on_match(strong_match(value, resource_etag)),
        },
    }
}

/// The verdict of the four judgements in their order of precedence. A
/// header that the request does not carry has no judgement. The first
/// failure decides; where nothing fails the request proceeds.
pub open spec fn verdict_of(
    if_match: Option<Outcome>,
    if_unmodified_since: Option<Outcome>,
    if_none_match: Option<Outcome>,
    if_modified_since: Option<Outcome>,
) -> Verdict {
    if if_match == Some(Outcome::Fail) || if_unmodified_since == Some(Outcome::Fail) {
        Verdict::PreconditionFailed
    } else if if_none_match == Some(Outcome::Fail) || if_modified_since == Some(Outcome::Fail) {
        Verdict::NotModified
    } else {
        Verdict::Proceed
    }
}

/// The verdict of a request's conditional headers against the validators of
/// a resource.
pub open spec fn precondition_verdict(headers: Headers, resource_etag: Seq<u8>, modified: Timestamp) -> Verdict {
    verdict_of(
        match headers.if_match {
            Some(value) => Some(if_match_outcome(value, resource_etag)),
            None => None,
        },
        match headers.if_unmodified_since {
            Some(value) => Some(unmodified_since_outcome(http_date(value), modified)),
            None => None,
        },
        match headers.if_none_match {
            Some(value) => Some(if_none_match_outcome(value, resource_etag)),
            None => None,
        },
        match headers.if_modified_since {
            Some(value) => Some(modified_since_outcome(http_date(value), modified)),
            None => None,
        },
    )
}

/// Judges `If-Match`.
pub fn if_match(etag_header: &[u8], resource_etag: &[u8]) -> (outcome: Outcome)
    ensures
        outcome == if_match_outcome(etag_header@, resource_etag@),
{
    match strong_compare(etag_header, resource_etag) {
        Some(true) => Outcome::Pass,
        Some(false) => Outcome::Fail,
        None => Outcome::Ignore,
    }
}

/// Judges `If-None-Match`.
pub fn if_none_match(etag_header: &[u8], resource_etag: &[u8]) -> (outcome: Outcome)
    ensures
        outcome == if_none_match_outcome(etag_header@, resource_etag@),
{
    match weak_compare(etag_header, resource_etag) {
        Some(true) => Outcome::Fail,
        Some(false) => Outcome::Pass,
        None => Outcome::Ignore,
    }
}

/// Judges `If-Unmodified-Since` from the date that the header was read as.
pub fn judge_unmodified_since(date: Option<Timestamp>, resource_modified: &Timestamp) -> (outcome: Outcome)
    ensures
        outcome == unmodified_since_outcome(date, *resource_modified),
{
    match date {
        None => Outcome::Ignore,
        Some(date) => if date.secs < resource_modified.secs {
            Outcome::Fail
        } else {
            Outcome::Pass
        },
    }
}

/// Judges `If-Modified-Since` from the date that the header was read as.
pub fn judge_modified_since(date: Option<Timestamp>, resource_modified: &Timestamp) -> (outcome: Outcome)
    ensures
        outcome == modified_since_outcome(date, *resource_modified),
{
    match date {
        None => Outcome::Ignore,
        Some(date) => if date.secs >= resource_modified.secs {
            Outcome::Fail
        } else {
            Outcome::Pass
        },
    }
}

/// Judges `If-Unmodified-Since`.
pub fn if_unmodified_since(header_modified_since: &[u8], resource_modified_since: &Timestamp) -> (outcome: Outcome)
    ensures
        outcome == unmodified_since_outcome(
            http_date(header_modified_since@),
            *resource_modified_since,
        ),
{
    judge_unmodified_since(header_to_date(header_modified_since), resource_modified_since)
}

/// Judges `If-Modified-Since`.
pub fn if_modified_since(header_modified_since: &[u8], resource_modified_since: &Timestamp) -> (outcome: Outcome)
    ensures
        outcome == modified_since_outcome(
            http_date(header_modified_since@),
            *resource_modified_since,
        ),
{
    judge_modified_since(header_to_date(header_modified_since), resource_modified_since)
}

/// Whether a last change lies a full second or more before the instant at
/// which the message was sent.
pub fn strong_date(sent: &Timestamp, modified: &Timestamp) -> (strong: bool)
    ensures
        strong == is_strong_date(*sent, *modified),
{
    let seconds: i128 = sent.secs as i128 - modified.secs as i128;
    let nanos: i128 = sent.nanos as i128 - modified.nanos as i128;
    seconds * 1_000_000_000 + nanos >= 1_000_000_000
}

/// Judges an `If-Range` header that holds the date `condition`, from what
/// the request's `Date` header was read as.
pub fn judge_if_range_date(
    condition: &Timestamp,
    modified: &Timestamp,
    sent: Option<Option<Timestamp>>,
) -> (outcome: Outcome)
    ensures
        outcome == if_range_date_outcome(*condition, *modified, sent),
{
    match sent {
        None => Outcome::Fail,
        Some(None) => Outcome::Ignore,
        Some(Some(sent)) => {
            if strong_date(&sent, modified) && condition.secs == modified.secs && condition.nanos
                == modified.nanos {
                Outcome::Pass
            } else {
                Outcome::Fail
            }
        },
    }
}

/// Judges `If-Range`, which is read only where the request has a `Range`
/// header.
pub fn if_range(
    if_range_header: Option<&[u8]>,
    modified_since: &Timestamp,
    etag: &[u8],
    date_validator: Option<&[u8]>,
) -> (outcome: Outcome)
    ensures
        outcome == if_range_outcome(
            match if_range_header {
                Some(value) => Some(value@),
                None => None,
            },
            *modified_since,
            etag@,
            match date_validator {
                Some(value) => Some(value@),
                None => None,
            },
        ),
{
    let value: &[u8] = match if_range_header {
        Some(value) => value,
        None => {
            return Outcome::Pass;
        },
    };
    match header_to_date(value) {
        Some(condition) => {
            let sent: Option<Option<Timestamp>> = match date_validator {
                Some(date) => Some(header_to_date(date)),
                None => None,
            };
            judge_if_range_date(&condition, modified_since, sent)
        },
        None => match strong_compare(value, etag) {
            Some(true) => Outcome::Pass,
            Some(false) => Outcome::Fail,
            None => Outcome::Ignore,
        },
    }
}

/// The verdict of the four judgements in their order of precedence.
pub fn decide(
    if_match: Option<Outcome>,
    if_unmodified_since: Option<Outcome>,
    if_none_match: Option<Outcome>,
    if_modified_since: Option<Outcome>,
) -> (verdict: Verdict)
    ensures
        verdict == verdict_of(if_match, if_unmodified_since, if_none_match, if_modified_since),
{
    if failed(if_match) || failed(if_unmodified_since) {
        Verdict::PreconditionFailed
    } else if failed(if_none_match) || failed(if_modified_since) {
        Verdict::NotModified
    } else {
        Verdict::Proceed
    }
}

/// Whether a judgement was made and is a failure.
fn failed(outcome: Option<Outcome>) -> (yes: bool)
    ensures
        yes == (outcome == Some(Outcome::Fail)),
{
    match outcome {
        Some(Outcome::Fail) => true,
        _ => false,
    }
}

/// Judges the conditional headers of a request against the validators of a
/// resource, in their order of precedence, up to the first failure.
pub fn evaluate_preconditions(
    headers: &RequestHeaders,
    resource_etag: &[u8],
    resource_modified: &Timestamp,
) -> (verdict: Verdict)
    ensures
        verdict == precondition_verdict(headers@, resource_etag@, *resource_modified),
{
    if let Some(value) = field_bytes(&headers.if_match) {
        if failed(Some(if_match(value, resource_etag))) {
            return Verdict::PreconditionFailed;
        }
    }
    if let Some(value) = field_bytes(&headers.if_unmodified_since) {
        if failed(Some(if_unmodified_since(value, resource_modified))) {
            return Verdict::PreconditionFailed;
        }
    }
    if let Some(value) = field_bytes(&headers.if_none_match) {
        if failed(Some(if_none_match(value, resource_etag))) {
            return Verdict::NotModified;
        }
    }
    if let Some(value) = field_bytes(&headers.if_modified_since) {
        if failed(Some(if_modified_since(value, resource_modified))) {
            return Verdict::NotModified;
        }
    }
    Verdict::Proceed
}

/// `If-Match` is set aside where the header or the resource's tag is weak,
/// whatever tags they hold: a weak tag never satisfies a strong comparison.
pub proof fn lemma_weak_if_match_ignored(header: Seq<u8>, resource_etag: Seq<u8>)
    requires
        is_weak(header) || is_weak(resource_etag),
    ensures
        if_match_outcome(header, resource_etag) == Outcome::Ignore,
{
}

/// `If-None-Match: *` fails against every resource.
pub proof fn lemma_wildcard_if_none_match_fails(resource_etag: Seq<u8>)
    ensures
        if_none_match_outcome(wildcard(), resource_etag) == Outcome::Fail,
{
    lemma_split_short(wildcard(), list_separator());
    assert(seq![wildcard()][0] == wildcard());
}

/// A list that begins with the wildcard and goes on with further entries is
/// malformed: `If-None-Match` and `If-Match` with such a list are set aside.
pub proof fn lemma_mixed_wildcard_ignored(rest: Seq<u8>, resource_etag: Seq<u8>)
    requires
        is_header_text(rest),
    ensures
        if_none_match_outcome(wildcard() + list_separator() + rest, resource_etag)
            == Outcome::Ignore,
        if_match_outcome(wildcard() + list_separator() + rest, resource_etag) == Outcome::Ignore,
{
    let header = wildcard() + list_separator() + rest;
    let pat = list_separator();
    assert(is_header_text(header)) by {
        assert forall|i: int| 0 <= i < header.len() implies crate::text::is_visible_ascii(
            #[trigger] header[i],
        ) by {
            if i >= 3 {
                assert(header[i] == rest[i - 3]);
            }
        }
    }
    assert(!is_weak(header));
    assert(!occurs_at(header, pat, 0)) by {
        assert(header.subrange(0, 2)[0] == header[0]);
    }
    assert(occurs_at(header, pat, 1)) by {
        assert(header.subrange(1, 3) =~= pat);
    }
    assert(header.subrange(0, 1) =~= wildcard());
    lemma_split_scan_not_empty(header, pat, 3, 3);
    reveal_with_fuel(split_scan, 3);
    let list = split(header, pat);
    assert(list == seq![wildcard()] + split_scan(header, pat, 3, 3));
    assert(list[0] == wildcard());
    assert(list.contains(wildcard()));
}

} // verus!
