use http_origin::error::HeaderError;
use http_origin::range::{range, slice_with_range, try_get_range, RangePart, MAX_RANGE_COUNT};

fn digits() -> Vec<u8> {
    b"0123456789".to_vec()
}

fn part(data: &[u8], start: u64, end: u64) -> RangePart {
    RangePart { data: data.to_vec(), start, end }
}

#[test]
fn first_byte_alone_is_one_slice_of_length_one() {
    let slices = range(&digits(), b"bytes=0-0").unwrap();
    assert_eq!(slices, vec![part(b"0", 0, 0)]);
    assert_eq!(slices[0].data.len(), 1);
}

#[test]
fn open_range_runs_to_the_last_byte() {
    let slices = range(&digits(), b"bytes=5-").unwrap();
    assert_eq!(slices, vec![part(b"56789", 5, 9)]);
    assert_eq!(slices[0].data.len(), 5);
}

#[test]
fn suffix_range_ends_at_the_last_byte() {
    let slices = range(&digits(), b"bytes=-3").unwrap();
    assert_eq!(slices, vec![part(b"6789", 6, 9)]);
    let slices = range(&digits(), b"bytes=-0").unwrap();
    assert_eq!(slices, vec![part(b"9", 9, 9)]);
    let slices = range(&digits(), b"bytes=-9").unwrap();
    assert_eq!(slices, vec![part(b"0123456789", 0, 9)]);
}

#[test]
fn suffix_that_exceeds_the_length_gives_the_whole_content() {
    let slices = range(&digits(), b"bytes=-20").unwrap();
    assert_eq!(slices, vec![part(b"0123456789", 0, 9)]);
    assert_eq!(slices[0].data.len(), 10);
    let slices = range(&digits(), b"bytes=-10").unwrap();
    assert_eq!(slices, vec![part(b"0123456789", 0, 9)]);
}

#[test]
fn both_ends_are_inclusive() {
    let slices = range(&digits(), b"bytes=2-4").unwrap();
    assert_eq!(slices, vec![part(b"234", 2, 4)]);
    let slices = range(&digits(), b"bytes=9-9").unwrap();
    assert_eq!(slices, vec![part(b"9", 9, 9)]);
    let slices = range(&digits(), b"bytes=0-9").unwrap();
    assert_eq!(slices, vec![part(b"0123456789", 0, 9)]);
}

#[test]
fn several_ranges_come_in_their_order() {
    let slices = range(&digits(), b"bytes=0-1,4-5,8-").unwrap();
    assert_eq!(slices, vec![part(b"01", 0, 1), part(b"45", 4, 5), part(b"89", 8, 9)]);
}

#[test]
fn ranges_out_of_ascending_order_are_refused() {
    assert_eq!(range(&digits(), b"bytes=5-6,0-1"), Err(HeaderError::InvalidRange));
    assert_eq!(range(&digits(), b"bytes=0-1,5-6,2-3"), Err(HeaderError::InvalidRange));
}

#[test]
fn equal_starts_count_as_ascending() {
    let slices = range(&digits(), b"bytes=2-3,2-5").unwrap();
    assert_eq!(slices, vec![part(b"23", 2, 3), part(b"2345", 2, 5)]);
}

#[test]
fn one_overlap_is_accepted() {
    let slices = range(&digits(), b"bytes=0-5,3-7").unwrap();
    assert_eq!(slices, vec![part(b"012345", 0, 5), part(b"34567", 3, 7)]);
    let slices = range(&digits(), b"bytes=0-3,3-5,7-8").unwrap();
    assert_eq!(slices.len(), 3);
}

#[test]
fn two_overlaps_are_refused() {
    assert_eq!(range(&digits(), b"bytes=0-5,3-7,6-9"), Err(HeaderError::InvalidRange));
    assert_eq!(range(&digits(), b"bytes=0-3,3-5,6-7,7-8"), Err(HeaderError::InvalidRange));
}

#[test]
fn a_start_beyond_the_content_is_out_of_range() {
    assert_eq!(range(&digits(), b"bytes=10-"), Err(HeaderError::InvalidRange));
    assert_eq!(range(&digits(), b"bytes=10-12"), Err(HeaderError::InvalidRange));
    assert_eq!(range(&digits(), b"bytes=5-4"), Err(HeaderError::InvalidRange));
}

#[test]
fn an_end_beyond_the_content_exceeds_the_length() {
    assert_eq!(range(&digits(), b"bytes=5-10"), Err(HeaderError::SuffixExceedsLength));
    assert_eq!(range(&digits(), b"bytes=0-18446744073709551615"), Err(HeaderError::SuffixExceedsLength));
}

#[test]
fn headers_of_another_shape_are_badly_formed() {
    assert_eq!(range(&digits(), b"items=0-1"), Err(HeaderError::BadFormat));
    assert_eq!(range(&digits(), b" bytes=0-1"), Err(HeaderError::BadFormat));
    assert_eq!(range(&digits(), b"bytes=a-b"), Err(HeaderError::BadFormat));
    assert_eq!(range(&digits(), b"bytes=5"), Err(HeaderError::BadFormat));
    assert_eq!(range(&digits(), b"bytes=-"), Err(HeaderError::BadFormat));
    assert_eq!(range(&digits(), b"bytes="), Err(HeaderError::BadFormat));
    assert_eq!(range(&digits(), b"bytes=1-2-3"), Err(HeaderError::BadFormat));
    assert_eq!(range(&digits(), b"bytes=0-1, 4-5"), Err(HeaderError::BadFormat));
    assert_eq!(range(&digits(), b"bytes=0-1,"), Err(HeaderError::BadFormat));
    assert_eq!(range(&digits(), b"bytes=0-\x80"), Err(HeaderError::BadFormat));
    assert_eq!(range(&digits(), b"bytes=0-18446744073709551616"), Err(HeaderError::BadFormat));
}

#[test]
fn the_first_error_in_the_list_is_reported() {
    assert_eq!(range(&digits(), b"bytes=0-1,x-2,5-20"), Err(HeaderError::BadFormat));
    assert_eq!(range(&digits(), b"bytes=5-20,x-2"), Err(HeaderError::SuffixExceedsLength));
    assert_eq!(range(&digits(), b"bytes=12-,5-20"), Err(HeaderError::InvalidRange));
}

#[test]
fn more_specs_than_the_cap_are_refused() {
    let mut header = b"bytes=".to_vec();
    for i in 0..MAX_RANGE_COUNT {
        if i > 0 {
            header.push(b',');
        }
        header.extend_from_slice(b"0-0");
    }
    assert_eq!(range(&digits(), &header), Err(HeaderError::InvalidRange));
    header.extend_from_slice(b",x");
    assert_eq!(range(&digits(), &header), Err(HeaderError::InvalidRange));
}

#[test]
fn as_many_specs_as_the_cap_are_read() {
    let long: Vec<u8> = (0..200).map(|i| (i % 251) as u8).collect();
    let mut header = b"bytes=".to_vec();
    for i in 0..MAX_RANGE_COUNT {
        if i > 0 {
            header.push(b',');
        }
        header.extend_from_slice(format!("{}-{}", 2 * i, 2 * i).as_bytes());
    }
    let slices = range(&long, &header).unwrap();
    assert_eq!(slices.len(), 100);
    assert_eq!(slices[99], part(&[198], 198, 198));
}

#[test]
fn empty_content_has_no_ranges() {
    assert_eq!(range(b"", b"bytes=-5"), Err(HeaderError::InvalidRange));
    assert_eq!(range(b"", b"bytes=0-"), Err(HeaderError::InvalidRange));
    assert_eq!(range(b"", b"bytes=0-0"), Err(HeaderError::InvalidRange));
}

#[test]
fn one_spec_resolves_against_the_length() {
    let both: Vec<&[u8]> = vec![b"2", b"4"];
    assert_eq!(try_get_range(&both, 10), Ok((2, 4)));
    let open: Vec<&[u8]> = vec![b"7", b""];
    assert_eq!(try_get_range(&open, 10), Ok((7, 9)));
    let suffix: Vec<&[u8]> = vec![b"", b"4"];
    assert_eq!(try_get_range(&suffix, 10), Ok((5, 9)));
    let long_suffix: Vec<&[u8]> = vec![b"", b"10"];
    assert_eq!(try_get_range(&long_suffix, 10), Ok((0, 9)));
}

#[test]
fn one_spec_reports_its_error() {
    let neither: Vec<&[u8]> = vec![b"", b""];
    assert_eq!(try_get_range(&neither, 10), Err(HeaderError::BadFormat));
    let one: Vec<&[u8]> = vec![b"5"];
    assert_eq!(try_get_range(&one, 10), Err(HeaderError::BadFormat));
    let three: Vec<&[u8]> = vec![b"1", b"2", b"3"];
    assert_eq!(try_get_range(&three, 10), Err(HeaderError::BadFormat));
    let none: Vec<&[u8]> = vec![];
    assert_eq!(try_get_range(&none, 10), Err(HeaderError::BadFormat));
    let reversed: Vec<&[u8]> = vec![b"4", b"2"];
    assert_eq!(try_get_range(&reversed, 10), Err(HeaderError::InvalidRange));
    let late: Vec<&[u8]> = vec![b"10", b""];
    assert_eq!(try_get_range(&late, 10), Err(HeaderError::InvalidRange));
    let far: Vec<&[u8]> = vec![b"2", b"10"];
    assert_eq!(try_get_range(&far, 10), Err(HeaderError::SuffixExceedsLength));
    let suffix_of_nothing: Vec<&[u8]> = vec![b"", b"1"];
    assert_eq!(try_get_range(&suffix_of_nothing, 0), Err(HeaderError::InvalidRange));
}

#[test]
fn slices_are_cut_with_both_ends_included() {
    assert_eq!(slice_with_range(0, 0, &digits()), Some(b"0".to_vec()));
    assert_eq!(slice_with_range(3, 5, &digits()), Some(b"345".to_vec()));
    assert_eq!(slice_with_range(0, 9, &digits()), Some(digits()));
    assert_eq!(slice_with_range(0, 10, &digits()), None);
    assert_eq!(slice_with_range(5, 4, &digits()), None);
    assert_eq!(slice_with_range(0, 0, b""), None);
}

#[test]
fn header_errors_describe_themselves() {
    assert_eq!(HeaderError::BadFormat.message(), "Client packet has bad header format");
    assert_eq!(HeaderError::InvalidRange.message(), "Invalid Range(s) supplied");
    assert_eq!(
        HeaderError::SuffixExceedsLength.message(),
        "Suffix has exceeded length: entire resource should be sent back."
    );
}
