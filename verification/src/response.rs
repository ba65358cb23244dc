//! The response assembler: from a representation and the headers of a
//! request to the one response that answers it.

use vstd::prelude::*;
use vstd::string::StringSliceAdditionalSpecFns;
use crate::error::RetrievalError;
use crate::precondition::{
    evaluate_preconditions, if_range, if_range_outcome, precondition_verdict, Outcome, Verdict,
};
use crate::range::{part_views, range, selected_slices, RangePart, Slice};
use crate::request::{field_bytes, Headers, RequestHeaders};
use crate::text::{copy_bytes, decimal, literal, push_bytes, push_literal, to_decimal};
use crate::time::{http_date_text, system_time_to_http_date, Timestamp, SECONDS_PER_DAY};
use crate::web_content::{Content, WebContent};

verus! {

/// The response headers that the server sends.
#[derive(Debug, Clone, Copy, PartialEq, Eq, Structural)]
pub enum HeaderName {
    Date,
    ContentType,
    ContentLength,
    LastModified,
    Expires,
    ETag,
    CacheControl,
    AcceptRanges,
    Server,
    ContentRange,
    Allow,
    AccessControlAllowMethods,
    AccessControlAllowHeaders,
    AccessControlAllowOrigin,
    AccessControlAllowCredentials,
}

impl HeaderName {
    /// The name as it is written in a message.
    pub open spec fn text(self) -> Seq<char> {
        match self {
            HeaderName::Date => "Date"@,
            HeaderName::ContentType => "Content-Type"@,
            HeaderName::ContentLength => "Content-Length"@,
            HeaderName::LastModified => "Last-Modified"@,
            HeaderName::Expires => "Expires"@,
            HeaderName::ETag => "ETag"@,
            HeaderName::CacheControl => "Cache-Control"@,
            HeaderName::AcceptRanges => "Accept-Ranges"@,
            HeaderName::Server => "Server"@,
            HeaderName::ContentRange => "Content-Range"@,
            HeaderName::Allow => "Allow"@,
            HeaderName::AccessControlAllowMethods => "Access-Control-Allow-Methods"@,
            HeaderName::AccessControlAllowHeaders => "Access-Control-Allow-Headers"@,
            HeaderName::AccessControlAllowOrigin => "Access-Control-Allow-Origin"@,
            HeaderName::AccessControlAllowCredentials => "Access-Control-Allow-Credentials"@,
        }
    }

    /// The name as it is written in a message.
    pub fn as_str(&self) -> (name: &'static str)
        ensures
            name@ == self.text(),
    {
        match self {
            HeaderName::Date => "Date",
            HeaderName::ContentType => "Content-Type",
            HeaderName::ContentLength => "Content-Length",
            HeaderName::LastModified => "Last-Modified",
            HeaderName::Expires => "Expires",
            HeaderName::ETag => "ETag",
            HeaderName::CacheControl => "Cache-Control",
            HeaderName::AcceptRanges => "Accept-Ranges",
            HeaderName::Server => "Server",
            HeaderName::ContentRange => "Content-Range",
            HeaderName::Allow => "Allow",
            HeaderName::AccessControlAllowMethods => "Access-Control-Allow-Methods",
            HeaderName::AccessControlAllowHeaders => "Access-Control-Allow-Headers",
            HeaderName::AccessControlAllowOrigin => "Access-Control-Allow-Origin",
            HeaderName::AccessControlAllowCredentials => "Access-Control-Allow-Credentials",
        }
    }
}

/// One header of a response.
#[derive(Debug, Clone, PartialEq, Eq)]
pub struct Header {
    pub name: HeaderName,
    pub value: Vec<u8>,
}

/// A response: its status code, its headers in the order in which they are
/// sent, and its body.
#[derive(Debug, Clone, PartialEq, Eq)]
pub struct Response {
    pub status: u16,
    pub headers: Vec<Header>,
    pub body: Vec<u8>,
}

/// A response as a value.
pub struct Message {
    pub status: u16,
    pub headers: Seq<(HeaderName, Seq<u8>)>,
    pub body: Seq<u8>,
}

/// The headers of a list as values.
pub open spec fn header_views(headers: Seq<Header>) -> Seq<(HeaderName, Seq<u8>)> {
    Seq::new(headers.len(), |i: int| (headers[i].name, headers[i].value@))
}

impl View for Response {
    type V = Message;

    open spec fn view(&self) -> Message {
        Message { status: self.status, headers: header_views(self.headers@), body: self.body@ }
    }
}

/// The texts of the three dates that a response may carry.
#[derive(Debug, Clone, PartialEq, Eq)]
pub struct DateTexts {
    pub date: Vec<u8>,
    pub last_modified: Vec<u8>,
    pub expires: Vec<u8>,
}

/// The date texts as values.
pub struct Dates {
    pub date: Seq<u8>,
    pub last_modified: Seq<u8>,
    pub expires: Seq<u8>,
}

impl View for DateTexts {
    type V = Dates;

    open spec fn view(&self) -> Dates {
        Dates { date: self.date@, last_modified: self.last_modified@, expires: self.expires@ }
    }
}

/// What is sent of a resource whose representation was found.
#[derive(Debug, Clone, PartialEq, Eq)]
pub enum Plan {
    /// Status 412 with no body.
    PreconditionFailed,
    /// Status 304 with no body.
    NotModified,
    /// Status 200 with the whole content.
    Full,
    /// Status 206 with one slice of the content.
    Partial(RangePart),
    /// Status 206 with several slices in one multipart body.
    Multipart(Vec<RangePart>),
}

/// A `Plan` as a value.
pub enum PlanView {
    PreconditionFailed,
    NotModified,
    Full,
    Partial(Slice),
    Multipart(Seq<Slice>),
}

impl View for Plan {
    type V = PlanView;

    open spec fn view(&self) -> PlanView {
        match self {
            Plan::PreconditionFailed => PlanView::PreconditionFailed,
            Plan::NotModified => PlanView::NotModified,
            Plan::Full => PlanView::Full,
            Plan::Partial(part) => PlanView::Partial(part@),
            Plan::Multipart(parts) => PlanView::Multipart(part_views(parts@)),
        }
    }
}

/// How many days a response stays fresh.
pub const EXPIRY_DAYS: i64 = 4;

/// The instant at which a response made at `now` expires.
pub open spec fn expiry_of(now: Timestamp) -> Timestamp {
    Timestamp { secs: (now.secs + EXPIRY_DAYS * SECONDS_PER_DAY) as i64, nanos: now.nanos }
}

/// Whether the dates of a response made at `now` can all be written: the
/// current instant, the instant of expiry, and the last change of the
/// resource.
pub open spec fn dates_writable(content: Content, now: Timestamp) -> bool {
    &&& now.is_writable()
    &&& expiry_of(now).is_writable()
    &&& content matches Content::Found { last_modified, .. } ==> last_modified.is_writable()
}

/// The date texts of a response made at `now` for a resource last changed at
/// `last_modified`.
pub open spec fn dates_at(now: Timestamp, last_modified: Timestamp) -> Dates {
    Dates {
        date: http_date_text(now),
        last_modified: http_date_text(last_modified),
        expires: http_date_text(expiry_of(now)),
    }
}

/// The token that parts the slices of a multipart body.
pub open spec fn boundary() -> Seq<u8> {
    "BOUNDARY".spec_bytes()
}

/// The value of `Server`.
pub open spec fn server_name() -> Seq<u8> {
    "RUST-SERVER-ZACHARYOXB".spec_bytes()
}

/// The value of `Cache-Control`.
pub open spec fn cache_policy() -> Seq<u8> {
    "max-age=36000".spec_bytes()
}

/// The value of `Accept-Ranges`.
pub open spec fn accepted_unit() -> Seq<u8> {
    "bytes".spec_bytes()
}

/// The value of `Content-Type` of a multipart body.
pub open spec fn multipart_type() -> Seq<u8> {
    "multipart/byteranges; boundary=".spec_bytes() + boundary()
}

/// The value of `Content-Range` for the bytes `start` to `end` of `total`.
pub open spec fn content_range(start: u64, end: u64, total: nat) -> Seq<u8> {
    "bytes ".spec_bytes() + decimal(start as nat) + "-".spec_bytes() + decimal(end as nat)
        + "/".spec_bytes() + decimal(total)
}

/// One slice as a part of a multipart body: the boundary line, the part's
/// own `Content-Type` and `Content-Range`, an empty line, the bytes, and a
/// line break.
pub open spec fn part_text(slice: Slice, content_type: Seq<u8>, total: nat) -> Seq<u8> {
    "--".spec_bytes() + boundary() + "\r\nContent-Type: ".spec_bytes() + content_type
        + "\r\nContent-Range: ".spec_bytes() + content_range(slice.start, slice.end, total)
        + "\r\n\r\n".spec_bytes() + slice.data + "\r\n".spec_bytes()
}

/// The parts of a multipart body, one after the other.
pub open spec fn parts_text(slices: Seq<Slice>, content_type: Seq<u8>, total: nat) -> Seq<u8>
    decreases slices.len(),
{
    if slices.len() == 0 {
        Seq::empty()
    } else {
        parts_text(slices.drop_last(), content_type, total) + part_text(
            slices.last(),
            content_type,
            total,
        )
    }
}

/// The line that closes a multipart body.
pub open spec fn closing_line() -> Seq<u8> {
    "--".spec_bytes() + boundary() + "--\r\n".spec_bytes()
}

/// A multipart body: its parts, then the closing line.
pub open spec fn multipart_body(slices: Seq<Slice>, content_type: Seq<u8>, total: nat) -> Seq<u8> {
    parts_text(slices, content_type, total) + closing_line()
}

/// A response of a status alone.
pub open spec fn bare_message(status: u16) -> Message {
    Message { status, headers: Seq::empty(), body: Seq::empty() }
}

/// Status 404 with the body that says so.
pub open spec fn not_found_message(data: Seq<u8>) -> Message {
    Message { status: 404, headers: Seq::empty(), body: data }
}

/// The headers of a response that carries content of one type: `Date` and
/// `Content-Type`, `Content-Range` where there is one, then the length of
/// the body, the validators, and the fixed headers.
pub open spec fn content_headers(
    content_type: Seq<u8>,
    range: Option<Seq<u8>>,
    body_length: nat,
    etag: Seq<u8>,
    dates: Dates,
) -> Seq<(HeaderName, Seq<u8>)> {
    seq![(HeaderName::Date, dates.date), (HeaderName::ContentType, content_type)] + (match range {
        Some(value) => seq![(HeaderName::ContentRange, value)],
        None => Seq::empty(),
    }) + seq![
        (HeaderName::ContentLength, decimal(body_length)),
        (HeaderName::LastModified, dates.last_modified),
        (HeaderName::Expires, dates.expires),
        (HeaderName::ETag, etag),
        (HeaderName::CacheControl, cache_policy()),
        (HeaderName::AcceptRanges, accepted_unit()),
        (HeaderName::Server, server_name()),
    ]
}

/// Status 200 with the whole content.
pub open spec fn full_message(data: Seq<u8>, content_type: Seq<u8>, etag: Seq<u8>, dates: Dates) -> Message {
    Message {
        status: 200,
        headers: content_headers(content_type, None, data.len(), etag, dates),
        body: data,
    }
}

/// Status 206 with one slice of a content of `total` bytes.
pub open spec fn partial_message(
    slice: Slice,
    total: nat,
    content_type: Seq<u8>,
    etag: Seq<u8>,
    dates: Dates,
) -> Message {
    Message {
        status: 206,
        headers: content_headers(
            content_type,
            Some(content_range(slice.start, slice.end, total)),
            slice.data.len(),
            etag,
            dates,
        ),
        body: slice.data,
    }
}

/// Status 206 with several slices of a content of `total` bytes in one
/// multipart body.
pub open spec fn multipart_message(slices: Seq<Slice>, total: nat, content_type: Seq<u8>) -> Message {
    let body = multipart_body(slices, content_type, total);
    Message {
        status: 206,
        headers: seq![
            (HeaderName::ContentType, multipart_type()),
            (HeaderName::ContentLength, decimal(body.len())),
        ],
        body,
    }
}

/// What is sent once the conditional headers are judged. `condition` is the
/// judgement of `If-Range`, `selection` what the `Range` header selects;
/// both are read only where the request has a `Range` header.
///
/// A failed precondition ends the request. Else the ranges are served where
/// the request has a `Range` header, `If-Range` passes, and the header
/// selects slices: one slice alone, several as a multipart body. In every
/// other case the whole content is served.
pub open spec fn plan_of(
    verdict: Verdict,
    has_range: bool,
    condition: Outcome,
    selection: Result<Seq<Slice>, crate::error::HeaderError>,
) -> PlanView {
    match verdict {
        Verdict::PreconditionFailed => PlanView::PreconditionFailed,
        Verdict::NotModified => PlanView::NotModified,
        Verdict::Proceed => if has_range && condition == Outcome::Pass {
            match selection {
                Ok(slices) => if slices.len() == 1 {
                    PlanView::Partial(slices[0])
                } else {
                    PlanView::Multipart(slices)
                },
                Err(_) => PlanView::Full,
            }
        } else {
            PlanView::Full
        },
    }
}

/// What is sent of a resource for the headers of a request.
pub open spec fn planned(headers: Headers, data: Seq<u8>, last_modified: Timestamp, etag: Seq<u8>) -> PlanView {
    plan_of(
        precondition_verdict(headers, etag, last_modified),
        headers.range is Some,
        if_range_outcome(headers.if_range, last_modified, etag, headers.date),
        match headers.range {
            Some(value) => selected_slices(data, value),
            None => Ok(Seq::empty()),
        },
    )
}

/// The response that carries out a plan.
pub open spec fn rendered(
    plan: PlanView,
    data: Seq<u8>,
    content_type: Seq<u8>,
    etag: Seq<u8>,
    dates: Dates,
) -> Message {
    match plan {
        PlanView::PreconditionFailed => bare_message(412),
        PlanView::NotModified => bare_message(304),
        PlanView::Full => full_message(data, content_type, etag, dates),
        PlanView::Partial(slice) => partial_message(slice, data.len(), content_type, etag, dates),
        PlanView::Multipart(slices) => multipart_message(slices, data.len(), content_type),
    }
}

/// The response to a request for a representation, made at `now`.
pub open spec fn response_of(headers: Headers, content: Content, now: Timestamp) -> Message {
    match content {
        Content::NotFound { data } => not_found_message(data),
        Content::Found { data, content_type, last_modified, etag } => rendered(
            planned(headers, data, last_modified, etag),
            data,
            content_type,
            etag,
            dates_at(now, last_modified),
        ),
    }
}

/// A response without its body: what a `HEAD` request gets.
pub open spec fn without_body(message: Message) -> Message {
    Message { status: message.status, headers: message.headers, body: Seq::empty() }
}

/// The response to `GET`: status 500 where the resource could not be
/// retrieved at all.
pub open spec fn get_response_of(
    headers: Headers,
    content: Result<Content, RetrievalError>,
    now: Timestamp,
) -> Message {
    match content {
        Ok(content) => response_of(headers, content, now),
        Err(_) => bare_message(500),
    }
}

/// The outcome of a retrieval as a value.
pub open spec fn retrieved_view(content: Result<WebContent, RetrievalError>) -> Result<Content, RetrievalError> {
    match content {
        Ok(content) => Ok(content@),
        Err(e) => Err(e),
    }
}

/// The headers of the answer to `OPTIONS`.
pub open spec fn option_headers() -> Seq<(HeaderName, Seq<u8>)> {
    seq![
        (HeaderName::Allow, "GET, OPTIONS".spec_bytes()),
        (HeaderName::AccessControlAllowMethods, "GET, OPTIONS, HEAD".spec_bytes()),
        (HeaderName::AccessControlAllowHeaders, "Content-Type".spec_bytes()),
        (HeaderName::AccessControlAllowOrigin, "*".spec_bytes()),
        (HeaderName::AccessControlAllowCredentials, "true".spec_bytes()),
    ]
}

/// A response of a status alone.
fn bare_response(status: u16) -> (response: Response)
    ensures
        response@ == bare_message(status),
{
    let response = Response { status, headers: Vec::new(), body: Vec::new() };
    assert(response@.headers =~= Seq::empty());
    response
}

/// Status 404 with the body that says so.
pub fn send_not_found_packet(data: &[u8]) -> (response: Response)
    ensures
        response@ == not_found_message(data@),
{
    let response = Response { status: 404, headers: Vec::new(), body: copy_bytes(data) };
    assert(response@.headers =~= Seq::empty());
    response
}

/// Status 500 with no body.
pub fn send_error_packet() -> (response: Response)
    ensures
        response@ == bare_message(500),
{
    bare_response(500)
}

/// Status 501 with no body.
pub fn send_not_implemented_packet() -> (response: Response)
    ensures
        response@ == bare_message(501),
{
    bare_response(501)
}

/// Status 412 with no body.
pub fn send_precondition_failed_packet() -> (response: Response)
    ensures
        response@ == bare_message(412),
{
    bare_response(412)
}

/// Status 304 with no body.
pub fn send_not_modified_packet() -> (response: Response)
    ensures
        response@ == bare_message(304),
{
    bare_response(304)
}

/// Appends a header.
fn push_header(headers: &mut Vec<Header>, name: HeaderName, value: Vec<u8>)
    ensures
        header_views(final(headers)@) == header_views(old(headers)@).push((name, value@)),
{
    headers.push(Header { name, value });
    assert(header_views(headers@) =~= header_views(old(headers)@).push((name, value@)));
}

/// The headers of a response that carries content of one type.
fn build_content_headers(
    content_type: &[u8],
    range: Option<Vec<u8>>,
    body_length: usize,
    etag: &[u8],
    dates: &DateTexts,
) -> (headers: Vec<Header>)
    ensures
        header_views(headers@) == content_headers(
            content_type@,
            crate::request::value_of(range),
            body_length as nat,
            etag@,
            dates@,
        ),
{
    let mut headers: Vec<Header> = Vec::new();
    assert(header_views(headers@) =~= Seq::empty());
    push_header(&mut headers, HeaderName::Date, copy_bytes(dates.date.as_slice()));
    push_header(&mut headers, HeaderName::ContentType, copy_bytes(content_type));
    match range {
        Some(value) => {
            push_header(&mut headers, HeaderName::ContentRange, value);
        },
        None => {},
    }
    push_header(&mut headers, HeaderName::ContentLength, to_decimal(body_length as u64));
    push_header(
        &mut headers,
        HeaderName::LastModified,
        copy_bytes(dates.last_modified.as_slice()),
    );
    push_header(&mut headers, HeaderName::Expires, copy_bytes(dates.expires.as_slice()));
    push_header(&mut headers, HeaderName::ETag, copy_bytes(etag));
    push_header(&mut headers, HeaderName::CacheControl, literal("max-age=36000"));
    push_header(&mut headers, HeaderName::AcceptRanges, literal("bytes"));
    push_header(&mut headers, HeaderName::Server, literal("RUST-SERVER-ZACHARYOXB"));
    assert(header_views(headers@) =~= content_headers(
        content_type@,
        crate::request::value_of(range),
        body_length as nat,
        etag@,
        dates@,
    ));
    headers
}

/// Status 200 with the whole content.
pub fn send_default_ok_packet(http_content: &[u8], content_type: &[u8], etag: &[u8], dates: &DateTexts) -> (response: Response)
    ensures
        response@ == full_message(http_content@, content_type@, etag@, dates@),
{
    Response {
        status: 200,
        headers: build_content_headers(content_type, None, http_content.len(), etag, dates),
        body: copy_bytes(http_content),
    }
}

/// Writes the value of `Content-Range`.
pub fn write_content_range(slice_start: u64, slice_end: u64, total_length: usize) -> (value: Vec<u8>)
    ensures
        value@ == content_range(slice_start, slice_end, total_length as nat),
{
    let mut value: Vec<u8> = literal("bytes ");
    push_bytes(&mut value, to_decimal(slice_start).as_slice());
    push_literal(&mut value, "-");
    push_bytes(&mut value, to_decimal(slice_end).as_slice());
    push_literal(&mut value, "/");
    push_bytes(&mut value, to_decimal(total_length as u64).as_slice());
    value
}

/// Status 206 with one slice of a content of `total_length` bytes.
pub fn send_partial_content_packet(
    data_slice: &RangePart,
    total_length: usize,
    content_type: &[u8],
    etag: &[u8],
    dates: &DateTexts,
) -> (response: Response)
    ensures
        response@ == partial_message(
            data_slice@,
            total_length as nat,
            content_type@,
            etag@,
            dates@,
        ),
{
    let content_range = write_content_range(data_slice.start, data_slice.end, total_length);
    Response {
        status: 206,
        headers: build_content_headers(
            content_type,
            Some(content_range),
            data_slice.data.len(),
            etag,
            dates,
        ),
        body: copy_bytes(data_slice.data.as_slice()),
    }
}

/// Writes one slice as a part of a multipart body.
fn write_part(part: &RangePart, content_type: &[u8], total_length: usize) -> (text: Vec<u8>)
    ensures
        text@ == part_text(part@, content_type@, total_length as nat),
{
    let mut text: Vec<u8> = literal("--");
    push_literal(&mut text, "BOUNDARY");
    push_literal(&mut text, "\r\nContent-Type: ");
    push_bytes(&mut text, content_type);
    push_literal(&mut text, "\r\nContent-Range: ");
    push_bytes(
        &mut text,
        write_content_range(part.start, part.end, total_length).as_slice(),
    );
    push_literal(&mut text, "\r\n\r\n");
    push_bytes(&mut text, part.data.as_slice());
    push_literal(&mut text, "\r\n");
    text
}

/// Writes a multipart body.
pub fn write_multipart_body(ranges_vector: &Vec<RangePart>, content_type: &[u8], total_length: usize) -> (body: Vec<u8>)
    ensures
        body@ == multipart_body(part_views(ranges_vector@), content_type@, total_length as nat),
{
    let ghost slices = part_views(ranges_vector@);
    let mut body: Vec<u8> = Vec::new();
    let mut i: usize = 0;
    assert(slices.take(0) =~= Seq::<Slice>::empty());
    while i < ranges_vector.len()
        invariant
            i <= ranges_vector.len(),
            slices == part_views(ranges_vector@),
            body@ == parts_text(slices.take(i as int), content_type@, total_length as nat),
        decreases ranges_vector.len() - i,
    {
        let part = write_part(&ranges_vector[i], content_type, total_length);
        proof {
            let longer = slices.take(i + 1);
            assert(longer.drop_last() =~= slices.take(i as int));
            assert(longer.last() == ranges_vector@[i as int]@);
        }
        push_bytes(&mut body, part.as_slice());
        i += 1;
    }
    assert(slices.take(ranges_vector.len() as int) =~= slices);
    let mut closing: Vec<u8> = literal("--");
    push_literal(&mut closing, "BOUNDARY");
    push_literal(&mut closing, "--\r\n");
    push_bytes(&mut body, closing.as_slice());
    body
}

/// Status 206 with several slices of a content of `total_length` bytes
/// in one multipart body.
pub fn send_multipart_packet(ranges_vector: &Vec<RangePart>, total_length: usize, content_type: &[u8]) -> (response: Response)
    ensures
        response@ == multipart_message(
            part_views(ranges_vector@),
            total_length as nat,
            content_type@,
        ),
{
    let body = write_multipart_body(ranges_vector, content_type, total_length);
    let mut media_type: Vec<u8> = literal("multipart/byteranges; boundary=");
    push_literal(&mut media_type, "BOUNDARY");
    let mut headers: Vec<Header> = Vec::new();
    assert(header_views(headers@) =~= Seq::empty());
    push_header(&mut headers, HeaderName::ContentType, media_type);
    push_header(&mut headers, HeaderName::ContentLength, to_decimal(body.len() as u64));
    assert(header_views(headers@) =~= seq![
        (HeaderName::ContentType, multipart_type()),
        (HeaderName::ContentLength, decimal(body@.len())),
    ]);
    Response { status: 206, headers, body }
}

/// Decides what is sent of a resource, from the judgements already made.
/// `selection` is called for only where the request has a `Range` header
/// and `If-Range` passes.
pub fn plan_from(verdict: Verdict, has_range: bool, condition: Outcome, selection: Result<Vec<RangePart>, crate::error::HeaderError>) -> (plan: Plan)
    ensures
        plan@ == plan_of(verdict, has_range, condition, crate::range::selection_view(selection)),
{
    match verdict {
        Verdict::PreconditionFailed => Plan::PreconditionFailed,
        Verdict::NotModified => Plan::NotModified,
        Verdict::Proceed => {
            let passes: bool = match condition {
                Outcome::Pass => true,
                _ => false,
            };
            if has_range && passes {
                match selection {
                    Ok(mut sliced_content) => {
                        if sliced_content.len() == 1 {
                            let ghost slices = part_views(sliced_content@);
                            let part = sliced_content.remove(0);
                            assert(part@ == slices[0]);
                            Plan::Partial(part)
                        } else {
                            Plan::Multipart(sliced_content)
                        }
                    },
                    Err(_) => Plan::Full,
                }
            } else {
                Plan::Full
            }
        },
    }
}

/// Decides what is sent of a resource for the headers of a request.
pub fn plan_response(headers: &RequestHeaders, data: &[u8], last_modified: &Timestamp, etag: &[u8]) -> (plan: Plan)
    ensures
        plan@ == planned(headers@, data@, *last_modified, etag@),
{
    let verdict = evaluate_preconditions(headers, etag, last_modified);
    match verdict {
        Verdict::Proceed => {},
        _ => {
            return plan_from(verdict, false, Outcome::Ignore, Err(crate::error::HeaderError::BadFormat));
        },
    }
    match field_bytes(&headers.range) {
        Some(range_header) => {
            let condition = if_range(
                field_bytes(&headers.if_range),
                last_modified,
                etag,
                field_bytes(&headers.date),
            );
            match condition {
                Outcome::Pass => plan_from(verdict, true, condition, range(data, range_header)),
                _ => plan_from(verdict, true, condition, Err(crate::error::HeaderError::BadFormat)),
            }
        },
        None => plan_from(verdict, false, Outcome::Ignore, Err(crate::error::HeaderError::BadFormat)),
    }
}

/// Carries out a plan with the date texts given.
pub fn render(plan: &Plan, data: &[u8], content_type: &[u8], etag: &[u8], dates: &DateTexts) -> (response: Response)
    ensures
        response@ == rendered(plan@, data@, content_type@, etag@, dates@),
{
    match plan {
        Plan::PreconditionFailed => send_precondition_failed_packet(),
        Plan::NotModified => send_not_modified_packet(),
        Plan::Full => send_default_ok_packet(data, content_type, etag, dates),
        Plan::Partial(part) => send_partial_content_packet(
            part,
            data.len(),
            content_type,
            etag,
            dates,
        ),
        Plan::Multipart(parts) => send_multipart_packet(parts, data.len(), content_type),
    }
}

/// Writes the current instant as an HTTP date.
pub fn get_current_http_date(now: &Timestamp) -> (text: Vec<u8>)
    requires
        now.is_writable(),
    ensures
        text@ == http_date_text(*now),
{
    system_time_to_http_date(now)
}

/// Writes the instant of expiry of a response made at `now`.
pub fn get_http_expiry_date(now: &Timestamp) -> (text: Vec<u8>)
    requires
        now.is_writable(),
        expiry_of(*now).is_writable(),
    ensures
        text@ == http_date_text(expiry_of(*now)),
{
    let expiry = Timestamp { secs: now.secs + EXPIRY_DAYS * SECONDS_PER_DAY, nanos: now.nanos };
    system_time_to_http_date(&expiry)
}

/// Writes the dates of a response made at `now` for a resource last changed
/// at `last_modified`.
pub fn write_dates(now: &Timestamp, last_modified: &Timestamp) -> (dates: DateTexts)
    requires
        now.is_writable(),
        expiry_of(*now).is_writable(),
        last_modified.is_writable(),
    ensures
        dates@ == dates_at(*now, *last_modified),
{
    DateTexts {
        date: get_current_http_date(now),
        last_modified: system_time_to_http_date(last_modified),
        expires: get_http_expiry_date(now),
    }
}

/// Whether the dates of a response made at `now` can all be written.
pub fn can_write_dates(web_content: &WebContent, now: &Timestamp) -> (yes: bool)
    ensures
        yes == dates_writable(web_content@, *now),
{
    if !now.writable() {
        return false;
    }
    let expiry = Timestamp { secs: now.secs + EXPIRY_DAYS * SECONDS_PER_DAY, nanos: now.nanos };
    if !expiry.writable() {
        return false;
    }
    match web_content {
        WebContent::Found { last_modified, .. } => last_modified.writable(),
        WebContent::NotFound { .. } => true,
    }
}

/// Answers a request for a representation, at the instant `now`.
///
/// A resource that does not exist is answered with status 404. Else the
/// conditional headers are judged in their order; a failure ends the
/// request with 412 or 304. Else the ranges that the request asks for are
/// served with 206, where it asks for any and they are valid. In every other
/// case the whole content is served with 200.
pub fn generate_response(headers: &RequestHeaders, web_content: &WebContent, now: &Timestamp) -> (response: Response)
    requires
        dates_writable(web_content@, *now),
    ensures
        response@ == response_of(headers@, web_content@, *now),
{
    match web_content {
        WebContent::NotFound { data } => send_not_found_packet(data.as_slice()),
        WebContent::Found { data, content_type, last_modified, etag } => {
            let plan = plan_response(headers, data.as_slice(), last_modified, etag.as_slice());
            let dates = write_dates(now, last_modified);
            render(&plan, data.as_slice(), content_type.as_slice(), etag.as_slice(), &dates)
        },
    }
}

/// Answers `GET`: the response for the representation, or status 500
/// where the resource could not be retrieved at all.
pub fn handle_get(headers: &RequestHeaders, content: &Result<WebContent, RetrievalError>, now: &Timestamp) -> (response: Response)
    requires
        content matches Ok(web_content) ==> dates_writable(web_content@, *now),
    ensures
        response@ == get_response_of(headers@, retrieved_view(*content), *now),
{
    match content {
        Ok(web_content) => generate_response(headers, web_content, now),
        Err(_) => send_error_packet(),
    }
}

/// Answers `HEAD`: the response to `GET` with all its headers and an empty
/// body.
pub fn handle_head(headers: &RequestHeaders, content: &Result<WebContent, RetrievalError>, now: &Timestamp) -> (response: Response)
    requires
        content matches Ok(web_content) ==> dates_writable(web_content@, *now),
    ensures
        response@ == without_body(get_response_of(headers@, retrieved_view(*content), *now)),
{
    let mut response = handle_get(headers, content, now);
    response.body = Vec::new();
    response
}

/// Answers `OPTIONS`: status 204 with the methods and headers allowed.
pub fn handle_option() -> (response: Response)
    ensures
        response@ == (Message { status: 204, headers: option_headers(), body: Seq::empty() }),
{
    let mut headers: Vec<Header> = Vec::new();
    assert(header_views(headers@) =~= Seq::empty());
    push_header(&mut headers, HeaderName::Allow, literal("GET, OPTIONS"));
    push_header(&mut headers, HeaderName::AccessControlAllowMethods, literal("GET, OPTIONS, HEAD"));
    push_header(&mut headers, HeaderName::AccessControlAllowHeaders, literal("Content-Type"));
    push_header(&mut headers, HeaderName::AccessControlAllowOrigin, literal("*"));
    push_header(&mut headers, HeaderName::AccessControlAllowCredentials, literal("true"));
    assert(header_views(headers@) =~= option_headers());
    Response { status: 204, headers, body: Vec::new() }
}

/// Answers `POST`, which the server does not implement.
pub fn handle_post() -> (response: Response)
    ensures
        response@ == bare_message(501),
{
    send_not_implemented_packet()
}

/// Answers `DELETE`, which the server does not implement.
pub fn handle_delete() -> (response: Response)
    ensures
        response@ == bare_message(501),
{
    send_not_implemented_packet()
}

/// A failing `If-Match` decides the request: the response is 412, whatever
/// the other headers say.
pub proof fn lemma_failed_if_match_decides(
    headers: Headers,
    data: Seq<u8>,
    content_type: Seq<u8>,
    last_modified: Timestamp,
    etag: Seq<u8>,
    now: Timestamp,
)
    requires
        headers.if_match matches Some(value) && crate::precondition::if_match_outcome(value, etag)
            == Outcome::Fail,
    ensures
        response_of(headers, Content::Found { data, content_type, last_modified, etag }, now)
            == bare_message(412),
{
}

/// `If-None-Match: *` on a request without `If-Match` and
/// `If-Unmodified-Since` gets 304 for every resource that exists.
pub proof fn lemma_wildcard_if_none_match_not_modified(
    headers: Headers,
    data: Seq<u8>,
    content_type: Seq<u8>,
    last_modified: Timestamp,
    etag: Seq<u8>,
    now: Timestamp,
)
    requires
        headers.if_none_match == Some(crate::etag::wildcard()),
        headers.if_match is None,
        headers.if_unmodified_since is None,
    ensures
        response_of(headers, Content::Found { data, content_type, last_modified, etag }, now)
            == bare_message(304),
{
    crate::precondition::lemma_wildcard_if_none_match_fails(etag);
}

/// An `If-None-Match` that mixes the wildcard with further entries is set
/// aside: a request with no other condition and no `Range` gets the whole
/// content.
pub proof fn lemma_mixed_wildcard_served_whole(
    headers: Headers,
    rest: Seq<u8>,
    data: Seq<u8>,
    content_type: Seq<u8>,
    last_modified: Timestamp,
    etag: Seq<u8>,
    now: Timestamp,
)
    requires
        crate::text::is_header_text(rest),
        headers.if_none_match == Some(
            crate::etag::wildcard() + crate::etag::list_separator() + rest,
        ),
        headers.if_match is None,
        headers.if_unmodified_since is None,
        headers.if_modified_since is None,
        headers.range is None,
    ensures
        response_of(headers, Content::Found { data, content_type, last_modified, etag }, now)
            == full_message(data, content_type, etag, dates_at(now, last_modified)),
{
    crate::precondition::lemma_mixed_wildcard_ignored(rest, etag);
}

/// A `Range` header that is refused never gives status 206, and gives the
/// whole content with status 200 where no precondition fails.
pub proof fn lemma_refused_range_served_whole(
    headers: Headers,
    data: Seq<u8>,
    content_type: Seq<u8>,
    last_modified: Timestamp,
    etag: Seq<u8>,
    now: Timestamp,
)
    requires
        headers.range matches Some(value) && selected_slices(data, value) is Err,
    ensures
        response_of(headers, Content::Found { data, content_type, last_modified, etag }, now).status
            != 206,
        precondition_verdict(headers, etag, last_modified) == Verdict::Proceed ==> response_of(
            headers,
            Content::Found { data, content_type, last_modified, etag },
            now,
        ) == full_message(data, content_type, etag, dates_at(now, last_modified)),
{
}

/// A `Range` header whose ranges do not come in ascending order of their
/// starts is refused, and the request never gets status 206.
pub proof fn lemma_out_of_order_range_served_whole(
    headers: Headers,
    data: Seq<u8>,
    content_type: Seq<u8>,
    last_modified: Timestamp,
    etag: Seq<u8>,
    now: Timestamp,
    at: int,
)
    requires
        headers.range matches Some(value) && crate::text::is_header_text(value)
            && crate::range::bytes_unit().is_prefix_of(value) && (crate::range::resolve_all(
            crate::text::split(value.skip(6), crate::range::comma()),
            data.len() as u64,
        ) matches Ok(ranges) && 0 <= at < ranges.len() - 1 && ranges[at].0 > ranges[at + 1].0),
    ensures
        response_of(headers, Content::Found { data, content_type, last_modified, etag }, now).status
            != 206,
        precondition_verdict(headers, etag, last_modified) == Verdict::Proceed ==> response_of(
            headers,
            Content::Found { data, content_type, last_modified, etag },
            now,
        ) == full_message(data, content_type, etag, dates_at(now, last_modified)),
{
    crate::range::lemma_out_of_order_refused(headers.range->Some_0, data.len() as u64, at);
    lemma_refused_range_served_whole(headers, data, content_type, last_modified, etag, now);
}

} // verus!
