//! Tests of response classification and Retry-After parsing.

use collab_crawler::{classify_response, parse_u64, retry_wait_secs, FetchStep, PagedFetcher};

#[test]
fn parse_plain_numbers() {
    assert_eq!(parse_u64("0"), Some(0));
    assert_eq!(parse_u64("2"), Some(2));
    assert_eq!(parse_u64("137"), Some(137));
    assert_eq!(parse_u64("007"), Some(7));
}

#[test]
fn parse_accepts_a_leading_plus() {
    assert_eq!(parse_u64("+5"), Some(5));
    assert_eq!(parse_u64("+"), None);
}

#[test]
fn parse_rejects_non_numbers() {
    assert_eq!(parse_u64(""), None);
    assert_eq!(parse_u64("abc"), None);
    assert_eq!(parse_u64("1x"), None);
    assert_eq!(parse_u64("-1"), None);
    assert_eq!(parse_u64(" 1"), None);
    assert_eq!(parse_u64("1 "), None);
}

#[test]
fn parse_honours_the_u64_range() {
    assert_eq!(parse_u64("18446744073709551615"), Some(u64::MAX));
    assert_eq!(parse_u64("18446744073709551616"), None);
    assert_eq!(parse_u64("99999999999999999999999"), None);
}

#[test]
fn retry_wait_defaults_to_one_second() {
    assert_eq!(retry_wait_secs(None), 1);
    assert_eq!(retry_wait_secs(Some("abc")), 1);
    assert_eq!(retry_wait_secs(Some("")), 1);
    assert_eq!(retry_wait_secs(Some("2")), 2);
    assert_eq!(retry_wait_secs(Some("120")), 120);
}

#[test]
fn rate_limit_is_retried_with_the_header_wait() {
    assert_eq!(
        classify_response(429, Some("2")),
        FetchStep::Retry { wait_secs: 2 }
    );
    assert_eq!(
        classify_response(429, None),
        FetchStep::Retry { wait_secs: 1 }
    );
}

#[test]
fn success_is_accepted_and_other_statuses_fail() {
    assert_eq!(classify_response(200, None), FetchStep::Accept);
    assert_eq!(classify_response(500, None), FetchStep::Fail { status: 500 });
    assert_eq!(classify_response(404, Some("3")), FetchStep::Fail { status: 404 });
    assert_eq!(classify_response(204, None), FetchStep::Fail { status: 204 });
}

#[test]
fn retried_request_reuses_the_same_offset() {
    // A 429 with Retry-After: 2 never reaches accept_page, so the retry
    // reads the same offset; the eventual 200 is then recorded.
    let mut fetcher: PagedFetcher<u32> = PagedFetcher::new(None);
    let offset_before = fetcher.offset();
    let step = classify_response(429, Some("2"));
    match step {
        FetchStep::Retry { wait_secs } => assert!(wait_secs >= 2),
        _ => panic!("a 429 must be retried"),
    }
    assert_eq!(fetcher.offset(), offset_before);
    assert_eq!(fetcher.requests(), 0);

    assert_eq!(classify_response(200, None), FetchStep::Accept);
    fetcher.accept_page(vec![7, 8, 9]);
    assert!(fetcher.is_done());
    assert_eq!(fetcher.into_items(), vec![7, 8, 9]);
}
