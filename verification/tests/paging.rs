//! Tests of the pagination state machine.

use collab_crawler::PagedFetcher;

fn page_of(start: u32, count: u32) -> Vec<u32> {
    let mut v = Vec::new();
    for k in 0..count {
        v.push(start + k);
    }
    v
}

#[test]
fn three_pages_yield_all_items_in_three_requests() {
    // Pages of sizes [50, 50, 37] with limit 50: exactly 137 items after
    // exactly 3 requests.
    let mut fetcher: PagedFetcher<u32> = PagedFetcher::new(None);
    assert_eq!(fetcher.limit(), 50);

    assert_eq!(fetcher.offset(), 0);
    fetcher.accept_page(page_of(0, 50));
    assert!(!fetcher.is_done());

    assert_eq!(fetcher.offset(), 50);
    fetcher.accept_page(page_of(50, 50));
    assert!(!fetcher.is_done());

    assert_eq!(fetcher.offset(), 100);
    fetcher.accept_page(page_of(100, 37));
    assert!(fetcher.is_done());

    assert_eq!(fetcher.requests(), 3);
    assert_eq!(fetcher.len(), 137);
    let items = fetcher.into_items();
    assert_eq!(items.len(), 137);
    for (k, item) in items.iter().enumerate() {
        assert_eq!(*item, k as u32);
    }
}

#[test]
fn short_first_page_finishes_at_once() {
    let mut fetcher: PagedFetcher<u32> = PagedFetcher::new(None);
    fetcher.accept_page(page_of(0, 3));
    assert!(fetcher.is_done());
    assert_eq!(fetcher.requests(), 1);
    assert_eq!(fetcher.into_items(), vec![0, 1, 2]);
}

#[test]
fn empty_page_finishes_with_nothing() {
    let mut fetcher: PagedFetcher<u32> = PagedFetcher::new(None);
    fetcher.accept_page(Vec::new());
    assert!(fetcher.is_done());
    assert_eq!(fetcher.len(), 0);
}

#[test]
fn page_cap_stops_a_run_of_full_pages() {
    let mut fetcher: PagedFetcher<u32> = PagedFetcher::new(Some(2));
    fetcher.accept_page(page_of(0, 50));
    assert!(!fetcher.is_done());
    fetcher.accept_page(page_of(50, 50));
    assert!(fetcher.is_done());
    assert_eq!(fetcher.requests(), 2);
    assert_eq!(fetcher.len(), 100);
}

#[test]
fn custom_limit_drives_offsets() {
    let mut fetcher: PagedFetcher<u32> = PagedFetcher::with_limit(2, None);
    assert_eq!(fetcher.offset(), 0);
    fetcher.accept_page(page_of(0, 2));
    assert_eq!(fetcher.offset(), 2);
    fetcher.accept_page(page_of(2, 2));
    assert_eq!(fetcher.offset(), 4);
    fetcher.accept_page(page_of(4, 1));
    assert!(fetcher.is_done());
    assert_eq!(fetcher.into_items(), vec![0, 1, 2, 3, 4]);
}
