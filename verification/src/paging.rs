//! The pagination state machine of the fetch layer.
//!
//! A paginated endpoint is read page by page with a fixed `limit` and an
//! `offset` that advances by the number of items the previous page
//! returned.  The fetch stops when a page comes back shorter than
//! `limit` (the length-based termination test: the total count is never
//! known in advance), or when an optional page cap is reached.  The
//! caller performs the requests; this state machine owns the offsets,
//! the accumulated items, and the decision to stop.  A rate-limited
//! request never reaches [`PagedFetcher::accept_page`], so its retry
//! reuses the same offset.

use vstd::prelude::*;

verus! {

/// The page size the catalog endpoints are read with.
pub const DEFAULT_PAGE_LIMIT: usize = 50;

/// Whether a fetch goes on after a page: the page was full, and the
/// number of requests made so far is still under the cap, if one is set.
pub open spec fn page_continues(
    page_len: int,
    limit: int,
    cap: Option<usize>,
    pages_after: int,
) -> bool {
    page_len >= limit && (match cap {
        None => true,
        Some(c) => pages_after < c,
    })
}

/// The state of one paginated fetch: the accumulated items (its view),
/// the request count, and whether the last page was final.
pub struct PagedFetcher<T> {
    limit: usize,
    cap: Option<usize>,
    pages: usize,
    done: bool,
    items: Vec<T>,
}

impl<T> View for PagedFetcher<T> {
    type V = Seq<T>;

    closed spec fn view(&self) -> Seq<T> {
        self.items@
    }
}

impl<T> PagedFetcher<T> {
    /// The fixed page size.
    pub closed spec fn spec_limit(&self) -> int {
        self.limit as int
    }

    /// The page cap the fetch was made with, if any.
    pub closed spec fn spec_cap(&self) -> Option<usize> {
        self.cap
    }

    /// How many requests have completed.
    pub closed spec fn spec_pages(&self) -> int {
        self.pages as int
    }

    /// Whether the fetch is over.
    pub closed spec fn spec_done(&self) -> bool {
        self.done
    }

    /// The page size is positive, so a full fetch always ends.
    pub open spec fn wf(&self) -> bool {
        self.spec_limit() >= 1
    }

    /// A fetch with the default page size and an optional page cap.
    pub fn new(cap: Option<usize>) -> (r: PagedFetcher<T>)
        ensures
            r.wf(),
            r@ == Seq::<T>::empty(),
            r.spec_limit() == DEFAULT_PAGE_LIMIT,
            r.spec_cap() == cap,
            r.spec_pages() == 0,
            !r.spec_done(),
    {
        PagedFetcher { limit: DEFAULT_PAGE_LIMIT, cap, pages: 0, done: false, items: Vec::new() }
    }

    /// A fetch with a chosen page size.
    pub fn with_limit(limit: usize, cap: Option<usize>) -> (r: PagedFetcher<T>)
        requires
            limit >= 1,
        ensures
            r.wf(),
            r@ == Seq::<T>::empty(),
            r.spec_limit() == limit,
            r.spec_cap() == cap,
            r.spec_pages() == 0,
            !r.spec_done(),
    {
        PagedFetcher { limit, cap, pages: 0, done: false, items: Vec::new() }
    }

    /// The page size, for building the next request.
    pub fn limit(&self) -> (r: usize)
        ensures
            r == self.spec_limit(),
    {
        self.limit
    }

    /// The offset of the next request: how many items the previous
    /// pages returned.  A retried request reads the same state, so it
    /// reuses the same offset.
    pub fn offset(&self) -> (r: usize)
        ensures
            r == self@.len(),
    {
        self.items.len()
    }

    /// Whether the fetch is over.
    pub fn is_done(&self) -> (r: bool)
        ensures
            r == self.spec_done(),
    {
        self.done
    }

    /// How many requests have completed.
    pub fn requests(&self) -> (r: usize)
        ensures
            r == self.spec_pages(),
    {
        self.pages
    }

    /// How many items have accumulated.
    pub fn len(&self) -> (r: usize)
        ensures
            r == self@.len(),
    {
        self.items.len()
    }

    /// Record one successfully fetched page: append its items, count the
    /// request, and stop if the page was short or the cap is reached.
    pub fn accept_page(&mut self, page: Vec<T>)
        requires
            old(self).wf(),
            !old(self).spec_done(),
            old(self).spec_pages() < usize::MAX,
        ensures
            final(self).wf(),
            final(self)@ == old(self)@ + page@,
            final(self).spec_pages() == old(self).spec_pages() + 1,
            final(self).spec_limit() == old(self).spec_limit(),
            final(self).spec_cap() == old(self).spec_cap(),
            final(self).spec_done() == !page_continues(
                page@.len() as int,
                old(self).spec_limit(),
                old(self).spec_cap(),
                old(self).spec_pages() + 1,
            ),
    {
        let mut page = page;
        let short = page.len() < self.limit;
        self.items.append(&mut page);
        self.pages = self.pages + 1;
        let capped = match self.cap {
            None => false,
            Some(c) => self.pages >= c,
        };
        self.done = short || capped;
    }

    /// Hand the accumulated items out, consuming the fetch.
    pub fn into_items(self) -> (r: Vec<T>)
        ensures
            r@ == self@,
    {
        self.items
    }
}

} // verus!
