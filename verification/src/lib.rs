//! A verified core for an artist-collaboration crawler.
//!
//! The library models the pure logic of a tool that walks a music catalog:
//! a paginated fetch layer that survives rate limiting, a resolver that
//! derives an artist's collaborators from song credits, and a depth-bounded
//! graph crawl over the collaborator relation that never visits a name
//! twice.  All network I/O lives outside the library; callers drive the
//! state machines here and hand back plain values.

pub mod catalog;
pub mod crawler;
pub mod entities;
pub mod error;
pub mod fetch;
pub mod paging;
pub mod resolver;

pub use catalog::{entity_url, first_artist, Entity};
pub use crawler::{crawl, crawl_branch, Catalog, VisitedSet};
pub use entities::{Album, Artist, Artists, CollabMap, Song};
pub use error::Error;
pub use fetch::{classify_response, parse_u64, retry_wait_secs, FetchStep};
pub use paging::PagedFetcher;
pub use resolver::{collect_collaborators, flatten_songs};
