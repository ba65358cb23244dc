use http_origin::cache::{Cache, CacheEntry};
use http_origin::etag::generate_etag;
use http_origin::request::{can_check_cache, get_response, RequestHeaders};
use http_origin::resolver::{
    content_type_for, resource_name, to_lower, NOT_FOUND_PAGE, RESOURCE_DIRECTORY,
};
use http_origin::time::Timestamp;
use http_origin::web_content::{lookup_web_content, store_web_content, Lookup, WebContent};

fn at(secs: i64) -> Timestamp {
    Timestamp { secs, nanos: 0 }
}

fn entry(content: &[u8], secs: i64) -> CacheEntry {
    CacheEntry {
        content: content.to_vec(),
        content_type: b"text/html; charset=utf-8".to_vec(),
        last_modified: at(secs),
        etag: generate_etag(content),
    }
}

fn write(cache: &mut Cache, uri: &str, entry: &CacheEntry) {
    cache.write_cache(uri, &entry.content, &entry.content_type, &entry.last_modified, &entry.etag);
}

#[test]
fn empty_cache_holds_nothing() {
    let cache = Cache::new();
    assert_eq!(cache.read_cache("/"), None);
    assert_eq!(cache.read_cache(""), None);
}

#[test]
fn written_entry_is_read_back_whole() {
    let mut cache = Cache::new();
    let first = entry(b"<html>one</html>", 100);
    write(&mut cache, "/index.html", &first);
    assert_eq!(cache.read_cache("/index.html"), Some(first.clone()));
    assert_eq!(cache.read_cache("/index.html"), Some(first));
    assert_eq!(cache.read_cache("/other.html"), None);
    assert_eq!(cache.read_cache("/INDEX.html"), None);
}

#[test]
fn write_replaces_the_entry_and_leaves_the_others() {
    let mut cache = Cache::new();
    let first = entry(b"one", 100);
    let second = entry(b"two", 200);
    let other = entry(b"other", 300);
    write(&mut cache, "/a", &first);
    write(&mut cache, "/b", &other);
    write(&mut cache, "/a", &second);
    assert_eq!(cache.read_cache("/a"), Some(second));
    assert_eq!(cache.read_cache("/b"), Some(other));
}

#[test]
fn two_writes_leave_one_of_the_two_whole() {
    let first = entry(b"first content", 100);
    let second = entry(b"second content", 200);
    let mut cache = Cache::new();
    write(&mut cache, "/a", &first);
    write(&mut cache, "/a", &second);
    let held = cache.read_cache("/a").unwrap();
    assert_eq!(held, second);
    assert_eq!(held.etag, generate_etag(&held.content));
    let mut cache = Cache::new();
    write(&mut cache, "/a", &second);
    write(&mut cache, "/a", &first);
    let held = cache.read_cache("/a").unwrap();
    assert_eq!(held, first);
    assert_eq!(held.etag, generate_etag(&held.content));
}

#[test]
fn duplicate_is_equal_to_its_entry() {
    let first = entry(b"one", 100);
    assert_eq!(first.duplicate(), first);
}

#[test]
fn cache_is_checked_unless_the_request_asks_for_the_current_state() {
    let mut headers = RequestHeaders::new();
    assert!(can_check_cache(&headers));
    headers.if_none_match = Some(b"*".to_vec());
    headers.if_modified_since = Some(b"x".to_vec());
    headers.range = Some(b"bytes=0-0".to_vec());
    assert!(can_check_cache(&headers));
    headers.if_match = Some(b"*".to_vec());
    assert!(!can_check_cache(&headers));
    let mut headers = RequestHeaders::new();
    headers.if_unmodified_since = Some(b"x".to_vec());
    assert!(!can_check_cache(&headers));
}

#[test]
fn lookup_hits_where_the_cache_may_answer() {
    let mut cache = Cache::new();
    let held = entry(b"one", 100);
    write(&mut cache, "/a", &held);
    let lookup = lookup_web_content(&RequestHeaders::new(), &cache, "/a");
    assert_eq!(
        lookup,
        Lookup::Hit(WebContent::Found {
            data: b"one".to_vec(),
            content_type: b"text/html; charset=utf-8".to_vec(),
            last_modified: at(100),
            etag: generate_etag(b"one"),
        })
    );
}

#[test]
fn lookup_misses_where_the_cache_holds_nothing() {
    let cache = Cache::new();
    assert_eq!(
        lookup_web_content(&RequestHeaders::new(), &cache, "/a"),
        Lookup::Miss { cached_etag: vec![] }
    );
}

#[test]
fn lookup_misses_where_the_request_carries_if_match() {
    let mut cache = Cache::new();
    write(&mut cache, "/a", &entry(b"one", 100));
    let mut headers = RequestHeaders::new();
    headers.if_match = Some(b"*".to_vec());
    assert_eq!(
        lookup_web_content(&headers, &cache, "/a"),
        Lookup::Miss { cached_etag: generate_etag(b"one") }
    );
}

#[test]
fn fresh_read_is_stored_and_becomes_the_answer() {
    let mut cache = Cache::new();
    let content = store_web_content(
        &mut cache,
        "/a",
        b"",
        b"one".to_vec(),
        Some((b"text/html; charset=utf-8".to_vec(), at(100))),
    );
    assert_eq!(
        content,
        WebContent::Found {
            data: b"one".to_vec(),
            content_type: b"text/html; charset=utf-8".to_vec(),
            last_modified: at(100),
            etag: generate_etag(b"one"),
        }
    );
    assert_eq!(cache.read_cache("/a"), Some(entry(b"one", 100)));
}

#[test]
fn fresh_read_with_the_cached_tag_leaves_the_cache() {
    let mut cache = Cache::new();
    write(&mut cache, "/a", &entry(b"one", 100));
    let content = store_web_content(
        &mut cache,
        "/a",
        &generate_etag(b"one"),
        b"one".to_vec(),
        Some((b"text/html; charset=utf-8".to_vec(), at(999))),
    );
    assert_eq!(content.get_last_modified(), Some(&at(999)));
    assert_eq!(cache.read_cache("/a"), Some(entry(b"one", 100)));
}

#[test]
fn fresh_read_with_another_tag_replaces_the_entry() {
    let mut cache = Cache::new();
    write(&mut cache, "/a", &entry(b"one", 100));
    store_web_content(
        &mut cache,
        "/a",
        &generate_etag(b"one"),
        b"two".to_vec(),
        Some((b"text/html; charset=utf-8".to_vec(), at(200))),
    );
    assert_eq!(cache.read_cache("/a"), Some(entry(b"two", 200)));
}

#[test]
fn missing_resource_is_not_stored() {
    let mut cache = Cache::new();
    let content = store_web_content(&mut cache, "/a", b"", b"not here".to_vec(), None);
    assert_eq!(content, WebContent::NotFound { data: b"not here".to_vec() });
    assert_eq!(cache.read_cache("/a"), None);
}

#[test]
fn web_content_gives_its_parts() {
    let found = WebContent::new_content(b"one".to_vec(), b"text/html".to_vec(), at(5), b"tag".to_vec());
    assert!(!found.is_not_found());
    assert_eq!(found.get_data(), &b"one".to_vec());
    assert_eq!(found.get_content_type(), Some(&b"text/html".to_vec()));
    assert_eq!(found.get_last_modified(), Some(&at(5)));
    assert_eq!(found.get_etag(), Some(&b"tag".to_vec()));
    let missing = WebContent::new_not_found(b"none".to_vec());
    assert!(missing.is_not_found());
    assert_eq!(missing.get_data(), &b"none".to_vec());
    assert_eq!(missing.get_content_type(), None);
    assert_eq!(missing.get_last_modified(), None);
    assert_eq!(missing.get_etag(), None);
}

#[test]
fn resource_identifiers_name_files() {
    assert_eq!(resource_name(b"/"), b"index.html".to_vec());
    assert_eq!(resource_name(b"/about.html"), b"about.html".to_vec());
    assert_eq!(resource_name(b"/img/favicon.ico"), b"img/favicon.ico".to_vec());
    assert_eq!(resource_name(b"//x"), b"/x".to_vec());
    assert_eq!(resource_name(b"x"), b"x".to_vec());
    assert_eq!(resource_name(b""), b"".to_vec());
    assert_eq!(RESOURCE_DIRECTORY, "resources");
    assert_eq!(NOT_FOUND_PAGE, "404.html");
}

#[test]
fn extensions_name_content_types() {
    assert_eq!(content_type_for(b"html"), Some(b"text/html; charset=utf-8".to_vec()));
    assert_eq!(content_type_for(b"HTML"), Some(b"text/html; charset=utf-8".to_vec()));
    assert_eq!(content_type_for(b"Html"), Some(b"text/html; charset=utf-8".to_vec()));
    assert_eq!(content_type_for(b"ico"), Some(b"image/x-icon".to_vec()));
    assert_eq!(content_type_for(b"ICO"), Some(b"image/x-icon".to_vec()));
    assert_eq!(content_type_for(b"htm"), None);
    assert_eq!(content_type_for(b"png"), None);
    assert_eq!(content_type_for(b""), None);
    assert_eq!(to_lower(b"AbC-019_z[@`{"), b"abc-019_z[@`{".to_vec());
}

#[test]
fn requests_that_do_not_read_are_answered_with_400() {
    assert_eq!(get_response(b"GET / HTTP/1.1\r\n\r\n"), None);
    assert_eq!(get_response(b"GET "), None);
    assert_eq!(
        get_response(b"POST / HTTP/1.1\r\n\r\n"),
        Some(b"HTTP/1.1 400 Bad Request\r\nContent-Length: 11\r\n\r\nBad Request".to_vec())
    );
    assert_eq!(
        get_response(b"GET"),
        Some(b"HTTP/1.1 400 Bad Request\r\nContent-Length: 11\r\n\r\nBad Request".to_vec())
    );
    assert_eq!(
        get_response(b"get / HTTP/1.1"),
        Some(b"HTTP/1.1 400 Bad Request\r\nContent-Length: 11\r\n\r\nBad Request".to_vec())
    );
    assert_eq!(
        get_response(b""),
        Some(b"HTTP/1.1 400 Bad Request\r\nContent-Length: 11\r\n\r\nBad Request".to_vec())
    );
}
