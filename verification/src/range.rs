//! The byte-range engine: reads a `Range` header, resolves its specs against
//! the length of the content, checks the list, and cuts the slices.

use vstd::prelude::*;
use vstd::slice::slice_subrange;
use crate::error::HeaderError;
use crate::text::{
    header_is_text, is_header_text, parse_u64, parse_unsigned, split, split_on, starts_with, views,
};

verus! {

/// The most specs that one header may list.
pub const MAX_RANGE_COUNT: usize = 100;

/// A slice of the content with the bounds it was cut at, both inclusive.
#[derive(Debug, Clone, PartialEq, Eq)]
pub struct RangePart {
    pub data: Vec<u8>,
    pub start: u64,
    pub end: u64,
}

/// A slice of the content as a value: its bytes and its inclusive bounds.
pub struct Slice {
    pub data: Seq<u8>,
    pub start: u64,
    pub end: u64,
}

impl View for RangePart {
    type V = Slice;

    open spec fn view(&self) -> Slice {
        Slice { data: self.data@, start: self.start, end: self.end }
    }
}

/// The slices that a list of parts holds.
pub open spec fn part_views(parts: Seq<RangePart>) -> Seq<Slice> {
    Seq::new(parts.len(), |i: int| parts[i]@)
}

/// `bytes=`, the unit that a `Range` header begins with.
pub open spec fn bytes_unit() -> Seq<u8> {
    seq!['b' as u8, 'y' as u8, 't' as u8, 'e' as u8, 's' as u8, '=' as u8]
}

/// `,`, which parts the specs of a header.
pub open spec fn comma() -> Seq<u8> {
    seq![',' as u8]
}

/// `-`, which parts the two numbers of a spec.
pub open spec fn dash() -> Seq<u8> {
    seq!['-' as u8]
}

/// The inclusive bounds that one spec, given as the texts around its dash,
/// resolves to against a content of `length` bytes.
///
/// - `start-end` is out of range where `start` is at or beyond the end of
///   the content or after `end`, and exceeds the length where `end` is at or
///   beyond the end of the content.
/// - `start-` runs to the last byte, and is out of range where `start` is at
///   or beyond the end of the content.
/// - `-suffix` ends at the last byte and begins `suffix` bytes before it; a
///   suffix that reaches the length or more stands for the whole content.
///   An empty content has no last byte: the spec is out of range.
/// - Anything else is badly formed: no dash or more than one, nothing on
///   either side of the dash, or a side that is not a number.
pub open spec fn resolve_spec(parts: Seq<Seq<u8>>, length: u64) -> Result<(u64, u64), HeaderError> {
    if parts.len() != 2 {
        Err(HeaderError::BadFormat)
    } else if parts[0].len() > 0 && parts[1].len() > 0 {
        match (parse_unsigned(parts[0]), parse_unsigned(parts[1])) {
            (Some(start), Some(end)) => {
                if start >= length || start > end {
                    Err(HeaderError::InvalidRange)
                } else if end >= length {
                    Err(HeaderError::SuffixExceedsLength)
                } else {
                    Ok((start, end))
                }
            },
            _ => Err(HeaderError::BadFormat),
        }
    } else if parts[0].len() > 0 {
        match parse_unsigned(parts[0]) {
            Some(start) => {
                if start < length {
                    Ok((start, (length - 1) as u64))
                } else {
                    Err(HeaderError::InvalidRange)
                }
            },
            None => Err(HeaderError::BadFormat),
        }
    } else if parts[1].len() > 0 {
        match parse_unsigned(parts[1]) {
            Some(suffix) => {
                if length == 0 {
                    Err(HeaderError::InvalidRange)
                } else if suffix < length {
                    Ok(((length - 1 - suffix) as u64, (length - 1) as u64))
                } else {
                    Ok((0, (length - 1) as u64))
                }
            },
            None => Err(HeaderError::BadFormat),
        }
    } else {
        Err(HeaderError::BadFormat)
    }
}

/// The bounds of every spec of a list, in the order of the list, or the
/// error of the first spec that has one.
pub open spec fn resolve_all(specs: Seq<Seq<u8>>, length: u64) -> Result<Seq<(u64, u64)>, HeaderError>
    decreases specs.len(),
{
    if specs.len() == 0 {
        Ok(Seq::empty())
    } else {
        match resolve_all(specs.drop_last(), length) {
            Err(e) => Err(e),
            Ok(ranges) => match resolve_spec(split(specs.last(), dash()), length) {
                Ok(range) => Ok(ranges.push(range)),
                Err(e) => Err(e),
            },
        }
    }
}

/// Whether the range at `i` starts no later than the next one.
pub open spec fn starts_in_order(ranges: Seq<(u64, u64)>, i: int) -> bool {
    ranges[i].0 <= ranges[i + 1].0
}

/// No range starts before the one in front of it.
pub open spec fn ascending(ranges: Seq<(u64, u64)>) -> bool {
    forall|i: int| 0 <= i < ranges.len() - 1 ==> #[trigger] starts_in_order(ranges, i)
}

/// Whether the range at `i` reaches the start of the next one.
pub open spec fn overlaps_next(ranges: Seq<(u64, u64)>, i: int) -> bool {
    0 <= i < ranges.len() - 1 && ranges[i].1 >= ranges[i + 1].0
}

/// How many ranges reach the start of the next one.
pub open spec fn overlap_count(ranges: Seq<(u64, u64)>) -> nat
    decreases ranges.len(),
{
    if ranges.len() < 2 {
        0
    } else {
        overlap_count(ranges.drop_last()) + if overlaps_next(ranges, ranges.len() - 2) {
            1nat
        } else {
            0nat
        }
    }
}

/// The ranges that a `Range` header asks for of a content of `length` bytes.
///
/// The header must be text and begin with `bytes=`; what follows is a list
/// of specs parted by commas. A list of more than `MAX_RANGE_COUNT` specs is
/// refused before any spec is read. Then every spec must resolve, the
/// ranges must come in ascending order of their starts, and at most one may
/// reach the start of the next.
pub open spec fn requested_ranges(header: Seq<u8>, length: u64) -> Result<Seq<(u64, u64)>, HeaderError> {
    if !is_header_text(header) || !bytes_unit().is_prefix_of(header) {
        Err(HeaderError::BadFormat)
    } else {
        let specs = split(header.skip(6), comma());
        if specs.len() > MAX_RANGE_COUNT {
            Err(HeaderError::InvalidRange)
        } else {
            match resolve_all(specs, length) {
                Err(e) => Err(e),
                Ok(ranges) => {
                    if !ascending(ranges) || overlap_count(ranges) > 1 {
                        Err(HeaderError::InvalidRange)
                    } else {
                        Ok(ranges)
                    }
                },
            }
        }
    }
}

/// The content from `start` to `end`, both included.
pub open spec fn cut(content: Seq<u8>, start: u64, end: u64) -> Slice {
    Slice { data: content.subrange(start as int, end + 1), start, end }
}

/// The slices of the content at the given ranges, in their order.
pub open spec fn cut_all(content: Seq<u8>, ranges: Seq<(u64, u64)>) -> Seq<Slice> {
    Seq::new(ranges.len(), |i: int| cut(content, ranges[i].0, ranges[i].1))
}

/// What a `Range` header selects of a content: the slices, or why there are
/// none.
pub open spec fn selected_slices(content: Seq<u8>, header: Seq<u8>) -> Result<Seq<Slice>, HeaderError> {
    match requested_ranges(header, content.len() as u64) {
        Ok(ranges) => Ok(cut_all(content, ranges)),
        Err(e) => Err(e),
    }
}

/// The outcome of the engine as a value.
pub open spec fn selection_view(selection: Result<Vec<RangePart>, HeaderError>) -> Result<Seq<Slice>, HeaderError> {
    match selection {
        Ok(parts) => Ok(part_views(parts@)),
        Err(e) => Err(e),
    }
}

/// A resolved range lies within the content and is not empty.
pub proof fn lemma_resolved_in_bounds(parts: Seq<Seq<u8>>, length: u64)
    ensures
        resolve_spec(parts, length) matches Ok(range) ==> range.0 <= range.1 < length,
{
}

/// Every range of a resolved list lies within the content, and the list is
/// as long as the list of specs.
pub proof fn lemma_resolve_all_in_bounds(specs: Seq<Seq<u8>>, length: u64)
    ensures
        resolve_all(specs, length) matches Ok(ranges) ==> ranges.len() == specs.len() && forall|
            i: int,
        |
            0 <= i < ranges.len() ==> (#[trigger] ranges[i]).0 <= ranges[i].1 < length,
    decreases specs.len(),
{
    if specs.len() > 0 {
        lemma_resolve_all_in_bounds(specs.drop_last(), length);
        lemma_resolved_in_bounds(split(specs.last(), dash()), length);
    }
}

/// An error among the first specs of a list is the error of the whole list.
pub proof fn lemma_resolve_all_error_stays(specs: Seq<Seq<u8>>, length: u64, k: int)
    requires
        0 <= k <= specs.len(),
        resolve_all(specs.take(k), length) is Err,
    ensures
        resolve_all(specs, length) == resolve_all(specs.take(k), length),
    decreases specs.len() - k,
{
    if k == specs.len() {
        assert(specs.take(k) == specs);
    } else {
        let init = specs.drop_last();
        assert(init.take(k) == specs.take(k));
        lemma_resolve_all_error_stays(init, length, k);
    }
}

/// Along a list, the count of overlaps never falls.
pub proof fn lemma_overlap_count_grows(ranges: Seq<(u64, u64)>, k: int)
    requires
        0 <= k <= ranges.len(),
    ensures
        overlap_count(ranges.take(k)) <= overlap_count(ranges),
    decreases ranges.len() - k,
{
    if k == ranges.len() {
        assert(ranges.take(k) == ranges);
    } else {
        let init = ranges.drop_last();
        assert(init.take(k) == ranges.take(k));
        lemma_overlap_count_grows(init, k);
    }
}

/// One more range adds one overlap where the range before it reaches its
/// start, and none otherwise.
pub proof fn lemma_overlap_count_step(ranges: Seq<(u64, u64)>, k: int)
    requires
        1 <= k < ranges.len(),
    ensures
        overlap_count(ranges.take(k + 1)) == overlap_count(ranges.take(k)) + if overlaps_next(
            ranges,
            k - 1,
        ) {
            1nat
        } else {
            0nat
        },
{
    let longer = ranges.take(k + 1);
    assert(longer.drop_last() == ranges.take(k));
    assert(longer[k - 1] == ranges[k - 1]);
    assert(longer[k] == ranges[k]);
}

/// What a header selects is never empty and never more than the cap; every
/// slice lies within the content and holds the bytes from its start to its
/// end, both included.
pub proof fn lemma_selected_slices_well_formed(content: Seq<u8>, header: Seq<u8>, i: int)
    requires
        content.len() <= u64::MAX,
        selected_slices(content, header) matches Ok(slices) && 0 <= i < slices.len(),
    ensures
        selected_slices(content, header) matches Ok(slices) && 1 <= slices.len() <= MAX_RANGE_COUNT
            && slices[i].start <= slices[i].end < content.len() && slices[i].data.len()
            == slices[i].end - slices[i].start + 1 && (forall|k: int|
            0 <= k < slices[i].data.len() ==> slices[i].data[k] == content[slices[i].start + k]),
{
    let specs = split(header.skip(6), comma());
    crate::text::lemma_split_scan_not_empty(header.skip(6), comma(), 0, 0);
    lemma_resolve_all_in_bounds(specs, content.len() as u64);
    let ranges = resolve_all(specs, content.len() as u64)->Ok_0;
    assert(ranges[i].0 <= ranges[i].1 < content.len());
}

/// One spec against the length of the content. `range_slice` holds the
/// texts around the spec's dash: what stands before it and what stands after
/// it, either of which may be empty.
pub fn try_get_range(range_slice: &[&[u8]], content_length: u64) -> (range: Result<(u64, u64), HeaderError>)
    ensures
        range == resolve_spec(views(range_slice@), content_length),
{
    if range_slice.len() != 2 {
        return Err(HeaderError::BadFormat);
    }
    let first: &[u8] = range_slice[0];
    let last: &[u8] = range_slice[1];
    assert(views(range_slice@)[0] == first@);
    assert(views(range_slice@)[1] == last@);
    if first.len() > 0 && last.len() > 0 {
        match (parse_u64(first), parse_u64(last)) {
            (Some(start), Some(end)) => {
                if start >= content_length || start > end {
                    Err(HeaderError::InvalidRange)
                } else if end >= content_length {
                    Err(HeaderError::SuffixExceedsLength)
                } else {
                    Ok((start, end))
                }
            },
            _ => Err(HeaderError::BadFormat),
        }
    } else if first.len() > 0 {
        match parse_u64(first) {
            Some(from_start) => {
                if from_start < content_length {
                    Ok((from_start, content_length - 1))
                } else {
                    Err(HeaderError::InvalidRange)
                }
            },
            None => Err(HeaderError::BadFormat),
        }
    } else if last.len() > 0 {
        match parse_u64(last) {
            Some(from_end) => {
                if content_length == 0 {
                    Err(HeaderError::InvalidRange)
                } else if from_end < content_length {
                    Ok(((content_length - 1) - from_end, content_length - 1))
                } else {
                    Ok((0, content_length - 1))
                }
            },
            None => Err(HeaderError::BadFormat),
        }
    } else {
        Err(HeaderError::BadFormat)
    }
}

/// The bytes of the content from `start` to `end`, both included.
fn cut_slice(start: u64, end: u64, content: &[u8]) -> (data: Vec<u8>)
    requires
        start <= end < content@.len(),
    ensures
        data@ == cut(content@, start, end).data,
{
    let length: usize = content.len();
    let from: usize = start as usize;
    let to: usize = end as usize + 1;
    assert(to <= length);
    crate::text::copy_bytes(slice_subrange(content, from, to))
}

/// The bytes of the content from `start` to `end`, both included. `None`
/// where the bounds are in the wrong order or reach beyond the content.
pub fn slice_with_range(start: u64, end: u64, content: &[u8]) -> (slice: Option<Vec<u8>>)
    ensures
        slice matches Some(data) ==> data@ == cut(content@, start, end).data,
        slice is Some <==> start <= end < content@.len(),
{
    if start > end || end >= content.len() as u64 {
        None
    } else {
        Some(cut_slice(start, end, content))
    }
}

/// Whether the ranges come in ascending order of their starts.
fn is_ascending(ranges: &Vec<(u64, u64)>) -> (yes: bool)
    ensures
        yes == ascending(ranges@),
{
    let mut i: usize = 1;
    while i < ranges.len()
        invariant
            1 <= i,
            forall|j: int|
                0 <= j < i - 1 && j < ranges@.len() - 1 ==> #[trigger] starts_in_order(ranges@, j),
        decreases ranges.len() - i,
    {
        if ranges[i - 1].0 > ranges[i].0 {
            assert(!starts_in_order(ranges@, i - 1));
            return false;
        }
        assert(starts_in_order(ranges@, i - 1));
        i += 1;
    }
    true
}

/// How many ranges reach the start of the next one.
fn count_overlaps(ranges: &Vec<(u64, u64)>) -> (count: usize)
    ensures
        count == overlap_count(ranges@),
{
    if ranges.len() == 0 {
        return 0;
    }
    let mut count: usize = 0;
    let mut i: usize = 1;
    while i < ranges.len()
        invariant
            1 <= i <= ranges@.len(),
            count == overlap_count(ranges@.take(i as int)),
            count < i,
        decreases ranges.len() - i,
    {
        proof {
            lemma_overlap_count_step(ranges@, i as int);
        }
        if ranges[i - 1].1 >= ranges[i].0 {
            count += 1;
        }
        i += 1;
    }
    assert(ranges@.take(i as int) == ranges@);
    count
}

/// The slices that a `Range` header selects of a content, or why it selects
/// none.
pub fn range(content: &[u8], range_header: &[u8]) -> (selection: Result<Vec<RangePart>, HeaderError>)
    ensures
        selection_view(selection) == selected_slices(content@, range_header@),
{
    let content_length: u64 = content.len() as u64;
    if !header_is_text(range_header) {
        return Err(HeaderError::BadFormat);
    }
    let unit: [u8; 6] = ['b' as u8, 'y' as u8, 't' as u8, 'e' as u8, 's' as u8, '=' as u8];
    assert(unit@ == bytes_unit());
    if !starts_with(range_header, unit.as_slice()) {
        return Err(HeaderError::BadFormat);
    }
    let comma_text: [u8; 1] = [',' as u8];
    assert(comma_text@ == comma());
    let dash_text: [u8; 1] = ['-' as u8];
    assert(dash_text@ == dash());
    let list: &[u8] = slice_subrange(range_header, 6, range_header.len());
    assert(list@ == range_header@.skip(6));
    let range_pairs = split_on(list, comma_text.as_slice());
    let ghost specs = views(range_pairs@);
    if range_pairs.len() > MAX_RANGE_COUNT {
        return Err(HeaderError::InvalidRange);
    }
    let mut ranges: Vec<(u64, u64)> = Vec::new();
    let mut i: usize = 0;
    assert(specs.take(0) == Seq::<Seq<u8>>::empty());
    while i < range_pairs.len()
        invariant
            i <= range_pairs.len(),
            specs == views(range_pairs@),
            dash_text@ == dash(),
            is_header_text(range_header@),
            bytes_unit().is_prefix_of(range_header@),
            specs == split(range_header@.skip(6), comma()),
            specs.len() <= MAX_RANGE_COUNT,
            content_length == content@.len(),
            resolve_all(specs.take(i as int), content_length) == Ok::<Seq<(u64, u64)>, HeaderError>(
                ranges@,
            ),
        decreases range_pairs.len() - i,
    {
        let parts = split_on(range_pairs[i], dash_text.as_slice());
        let resolved = try_get_range(parts.as_slice(), content_length);
        proof {
            let longer = specs.take(i + 1);
            assert(longer.drop_last() == specs.take(i as int));
            assert(longer.last() == range_pairs@[i as int]@);
        }
        match resolved {
            Ok(range) => {
                ranges.push(range);
            },
            Err(e) => {
                proof {
                    lemma_resolve_all_error_stays(specs, content_length, i + 1);
                }
                return Err(e);
            },
        }
        i += 1;
    }
    assert(specs.take(range_pairs.len() as int) == specs);
    if !is_ascending(&ranges) {
        return Err(HeaderError::InvalidRange);
    }
    if count_overlaps(&ranges) > 1 {
        return Err(HeaderError::InvalidRange);
    }
    proof {
        lemma_resolve_all_in_bounds(specs, content_length);
    }
    let mut sliced_content: Vec<RangePart> = Vec::new();
    let mut k: usize = 0;
    while k < ranges.len()
        invariant
            k <= ranges.len(),
            content_length == content@.len(),
            forall|j: int| 0 <= j < ranges@.len() ==> (#[trigger] ranges@[j]).0 <= ranges@[j].1 < content_length,
            part_views(sliced_content@) == cut_all(content@, ranges@.take(k as int)),
        decreases ranges.len() - k,
    {
        let start: u64 = ranges[k].0;
        let end: u64 = ranges[k].1;
        let ghost before = part_views(sliced_content@);
        let data = cut_slice(start, end, content);
        sliced_content.push(RangePart { data, start, end });
        assert(part_views(sliced_content@) == before.push(cut(content@, start, end)));
        assert(ranges@.take(k + 1) == ranges@.take(k as int).push(ranges@[k as int]));
        assert(cut_all(content@, ranges@.take(k + 1)) == cut_all(content@, ranges@.take(k as int)).push(
            cut(content@, start, end),
        ));
        k += 1;
    }
    assert(ranges@.take(ranges.len() as int) == ranges@);
    Ok(sliced_content)
}

/// A list whose ranges do not come in ascending order of their starts is
/// refused as a whole.
pub proof fn lemma_out_of_order_refused(header: Seq<u8>, length: u64, at: int)
    requires
        is_header_text(header),
        bytes_unit().is_prefix_of(header),
        resolve_all(split(header.skip(6), comma()), length) matches Ok(ranges) && 0 <= at
            < ranges.len() - 1 && ranges[at].0 > ranges[at + 1].0,
    ensures
        requested_ranges(header, length) == Err::<Seq<(u64, u64)>, HeaderError>(
            HeaderError::InvalidRange,
        ),
{
    let ranges = resolve_all(split(header.skip(6), comma()), length)->Ok_0;
    assert(!starts_in_order(ranges, at));
}

/// A list in which two ranges each reach the start of the next is refused
/// as a whole.
pub proof fn lemma_two_overlaps_refused(header: Seq<u8>, length: u64, first: int, second: int)
    requires
        is_header_text(header),
        bytes_unit().is_prefix_of(header),
        resolve_all(split(header.skip(6), comma()), length) matches Ok(ranges) && first < second
            && overlaps_next(ranges, first) && overlaps_next(ranges, second),
    ensures
        requested_ranges(header, length) == Err::<Seq<(u64, u64)>, HeaderError>(
            HeaderError::InvalidRange,
        ),
{
    let ranges = resolve_all(split(header.skip(6), comma()), length)->Ok_0;
    lemma_two_overlaps_counted(ranges, first, second);
}

/// Two ranges that each reach the start of the next make the count of
/// overlaps at least two.
pub proof fn lemma_two_overlaps_counted(ranges: Seq<(u64, u64)>, first: int, second: int)
    requires
        first < second,
        overlaps_next(ranges, first),
        overlaps_next(ranges, second),
    ensures
        overlap_count(ranges) >= 2,
{
    lemma_overlap_count_step(ranges, first + 1);
    lemma_overlap_count_grows(ranges.take(second + 1), first + 2);
    assert(ranges.take(second + 1).take(first + 2) == ranges.take(first + 2));
    lemma_overlap_count_step(ranges, second + 1);
    lemma_overlap_count_grows(ranges, second + 2);
}

} // verus!
