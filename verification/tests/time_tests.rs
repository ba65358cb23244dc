use http_origin::time::{
    current_time, header_to_date, modified_since_cache, system_time_to_http_date, Timestamp,
    FIRST_WRITABLE_SECOND, LAST_WRITABLE_SECOND,
};

fn at(secs: i64) -> Timestamp {
    Timestamp { secs, nanos: 0 }
}

#[test]
fn http_dates_are_read() {
    assert_eq!(header_to_date(b"Wed, 18 Feb 2015 23:16:09 GMT"), Some(at(1424301369)));
    assert_eq!(header_to_date(b"Thu, 1 Jan 1970 00:00:00 +0000"), Some(at(0)));
    assert_eq!(header_to_date(b"Thu, 01 Jan 1970 00:00:00 GMT"), Some(at(0)));
    assert_eq!(header_to_date(b"Wed, 31 Dec 1969 23:59:59 GMT"), Some(at(-1)));
}

#[test]
fn dates_in_other_zones_name_the_same_instant() {
    assert_eq!(header_to_date(b"Thu, 19 Feb 2015 01:16:09 +0200"), Some(at(1424301369)));
    assert_eq!(header_to_date(b"Wed, 18 Feb 2015 18:16:09 EST"), Some(at(1424301369)));
}

#[test]
fn leap_seconds_keep_their_nanoseconds() {
    assert_eq!(
        header_to_date(b"Tue, 30 Jun 2015 23:59:60 GMT"),
        Some(Timestamp { secs: 1435708799, nanos: 1_000_000_000 })
    );
}

#[test]
fn what_is_no_date_reads_as_none() {
    assert_eq!(header_to_date(b""), None);
    assert_eq!(header_to_date(b"yesterday"), None);
    assert_eq!(header_to_date(b"\"abc\""), None);
    assert_eq!(header_to_date(b"2015-02-18T23:16:09Z"), None);
    assert_eq!(header_to_date(b"Wed, 18 Feb 2015 23:16:09 GMT\x80"), None);
    assert_eq!(header_to_date(b"Wed, 18 Feb 2015 23:16:09 GMT\n"), None);
}

#[test]
fn instants_are_written_as_http_dates() {
    assert_eq!(system_time_to_http_date(&at(0)), b"Thu, 1 Jan 1970 00:00:00 +0000".to_vec());
    assert_eq!(
        system_time_to_http_date(&at(1424301369)),
        b"Wed, 18 Feb 2015 23:16:09 +0000".to_vec()
    );
    assert_eq!(
        system_time_to_http_date(&Timestamp { secs: 1424301369, nanos: 999_999_999 }),
        b"Wed, 18 Feb 2015 23:16:09 +0000".to_vec()
    );
    assert_eq!(
        system_time_to_http_date(&Timestamp { secs: 1435708799, nanos: 1_000_000_000 }),
        b"Tue, 30 Jun 2015 23:59:60 +0000".to_vec()
    );
}

#[test]
fn the_first_and_last_writable_seconds_are_written() {
    assert_eq!(
        system_time_to_http_date(&at(FIRST_WRITABLE_SECOND)),
        b"Sat, 1 Jan 0000 00:00:00 +0000".to_vec()
    );
    assert_eq!(
        system_time_to_http_date(&at(LAST_WRITABLE_SECOND)),
        b"Fri, 31 Dec 9999 23:59:59 +0000".to_vec()
    );
}

#[test]
fn written_dates_read_back() {
    let instants: Vec<i64> = vec![0, 1, 86_399, 951_782_400, 1424301369, 1717329600, 4_102_444_800];
    for secs in instants {
        assert_eq!(header_to_date(&system_time_to_http_date(&at(secs))), Some(at(secs)));
    }
}

#[test]
fn writable_instants_lie_in_the_years_0_to_9999() {
    assert!(at(0).writable());
    assert!(at(FIRST_WRITABLE_SECOND).writable());
    assert!(at(LAST_WRITABLE_SECOND).writable());
    assert!(!at(FIRST_WRITABLE_SECOND - 1).writable());
    assert!(!at(LAST_WRITABLE_SECOND + 1).writable());
    assert!(!at(i64::MAX).writable());
    assert!(!at(i64::MIN).writable());
}

#[test]
fn a_full_second_of_nanoseconds_is_writable_only_in_a_last_second() {
    assert!(Timestamp { secs: 59, nanos: 1_000_000_000 }.writable());
    assert!(Timestamp { secs: 59, nanos: 1_999_999_999 }.writable());
    assert!(!Timestamp { secs: 59, nanos: 2_000_000_000 }.writable());
    assert!(!Timestamp { secs: 58, nanos: 1_000_000_000 }.writable());
    assert!(!Timestamp { secs: 60, nanos: 1_000_000_000 }.writable());
    assert!(Timestamp { secs: -1, nanos: 1_000_000_000 }.writable());
    assert!(Timestamp { secs: -61, nanos: 1_500_000_000 }.writable());
    assert!(!Timestamp { secs: -2, nanos: 1_000_000_000 }.writable());
    assert!(!Timestamp { secs: -60, nanos: 1_000_000_000 }.writable());
    assert!(Timestamp { secs: 58, nanos: 999_999_999 }.writable());
}

#[test]
fn truncation_drops_the_fraction() {
    assert_eq!(Timestamp { secs: 5, nanos: 999_999_999 }.truncated(), at(5));
    assert_eq!(Timestamp { secs: -5, nanos: 1 }.truncated(), at(-5));
    assert_eq!(at(7).truncated(), at(7));
}

#[test]
fn the_clock_gives_an_instant_after_the_epoch() {
    let now = current_time();
    assert!(now.secs > 1_600_000_000);
    assert!(now.nanos < 1_000_000_000);
    assert!(now.writable());
    let later = current_time();
    assert!(!modified_since_cache(later, now));
}

#[test]
fn a_file_is_modified_when_it_is_newer_than_the_cached_copy() {
    assert!(modified_since_cache(at(5), at(6)));
    assert!(!modified_since_cache(at(6), at(5)));
    assert!(!modified_since_cache(at(5), at(5)));
    assert!(modified_since_cache(
        Timestamp { secs: 5, nanos: 1 },
        Timestamp { secs: 5, nanos: 2 }
    ));
    assert!(!modified_since_cache(
        Timestamp { secs: 5, nanos: 2 },
        Timestamp { secs: 5, nanos: 2 }
    ));
    assert!(modified_since_cache(Timestamp { secs: -1, nanos: 5 }, at(0)));
}
