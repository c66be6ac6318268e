use notipoll::fetch::{
    bearer_header_value, default_base_url, notifications_url, pull_requests_url, request_headers,
    since_query,
};
use notipoll::token_file::token_for_key;

#[test]
fn base_url_and_endpoints() {
    let base = default_base_url();
    assert_eq!(base, "https://api.github.com");
    assert_eq!(notifications_url(&base), "https://api.github.com/notifications");
    assert_eq!(
        pull_requests_url(&base, "acme", "core"),
        "https://api.github.com/repos/acme/core/pulls"
    );
}

#[test]
fn bearer_value_prefixes_token() {
    assert_eq!(bearer_header_value("tok123"), "Bearer tok123");
}

#[test]
fn request_headers_carry_media_types_and_credential() {
    let headers = request_headers("tok123");
    assert_eq!(
        headers,
        vec![
            ("Accept".to_owned(), "application/vnd.github+json".to_owned()),
            ("Authorization".to_owned(), "Bearer tok123".to_owned()),
            ("User-Agent".to_owned(), "reqwest".to_owned()),
            ("Content-Type".to_owned(), "application/json".to_owned()),
        ]
    );
}

#[test]
fn since_query_absent_without_cursor() {
    assert_eq!(since_query(None), None);
}

#[test]
fn since_query_formats_cursor_as_rfc3339() {
    assert_eq!(since_query(Some(0)).as_deref(), Some("1970-01-01T00:00:00+00:00"));
    assert_eq!(since_query(Some(1_431_648_000)).as_deref(), Some("2015-05-15T00:00:00+00:00"));
}

#[test]
fn since_query_agrees_with_chrono() {
    let t: u64 = 1_700_000_000;
    let expected = chrono::DateTime::<chrono::Utc>::from_timestamp(t as i64, 0)
        .unwrap()
        .to_rfc3339();
    assert_eq!(since_query(Some(t)).unwrap(), expected);
}

#[test]
fn token_found_for_matching_key() {
    let contents = b"default = aaa\nnotification = bbb-ccc \n";
    let token = token_for_key(contents, b"notification");
    assert_eq!(token.as_deref(), Some(b"bbb-ccc".as_slice()));
}

#[test]
fn token_first_matching_line_wins() {
    let contents = b"k=first\nk=second\n";
    assert_eq!(token_for_key(contents, b"k").as_deref(), Some(b"first".as_slice()));
}

#[test]
fn token_key_and_value_are_trimmed() {
    let contents = b"  spaced key  =  spaced value  ";
    assert_eq!(
        token_for_key(contents, b"spaced key").as_deref(),
        Some(b"spaced value".as_slice())
    );
}

#[test]
fn token_missing_key_gives_none() {
    let contents = b"default=aaa\nother=bbb";
    assert_eq!(token_for_key(contents, b"notification"), None);
}

#[test]
fn token_lines_without_equals_are_skipped() {
    let contents = b"junk line\nnotification=tok\n";
    assert_eq!(token_for_key(contents, b"notification").as_deref(), Some(b"tok".as_slice()));
}

#[test]
fn token_empty_file_gives_none() {
    assert_eq!(token_for_key(b"", b"notification"), None);
}
