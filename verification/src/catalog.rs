//! The pure parts of the catalog client: which entity walks exist, how
//! their endpoint URLs are spelled, and how a search result is turned
//! into an artist.
//!
//! The client exposes three walks — artist search, artist to albums,
//! album to songs — all read through the paginated fetcher.  Search takes
//! the first result the service returns, with no ranking or
//! disambiguation, and fails with [`Error::NotFound`] on an empty result
//! set.

use vstd::prelude::*;

use crate::entities::{Artist, Artists};
use crate::error::Error;

verus! {

/// The base of every entity-walk endpoint.
pub const API_BASE: &'static str = "https://api.spotify.com/v1/";

/// The kinds of entity a walk can start from or arrive at.
#[derive(Debug, PartialEq, Eq, Structural)]
pub enum Entity {
    Artists,
    Albums,
    Songs,
}

impl Entity {
    /// The path segment naming this entity kind; the catalog calls songs
    /// "tracks".
    pub fn segment(&self) -> (r: &'static str)
        ensures
            *self == Entity::Artists ==> r@ == "artists"@,
            *self == Entity::Albums ==> r@ == "albums"@,
            *self == Entity::Songs ==> r@ == "tracks"@,
    {
        match self {
            Entity::Artists => "artists",
            Entity::Albums => "albums",
            Entity::Songs => "tracks",
        }
    }

    /// The segment of this kind, as a sequence of characters.
    pub open spec fn spec_segment(&self) -> Seq<char> {
        match self {
            Entity::Artists => "artists"@,
            Entity::Albums => "albums"@,
            Entity::Songs => "tracks"@,
        }
    }
}

/// The URL path of the walk from `lhs` entity `id` to its `rhs` entities:
/// base, `lhs` segment, `/`, the id, `/`, `rhs` segment.
pub open spec fn spec_entity_url(lhs: Entity, id: Seq<char>, rhs: Entity) -> Seq<char> {
    API_BASE@ + lhs.spec_segment() + "/"@ + id + "/"@ + rhs.spec_segment()
}

/// Build the URL of the walk from `lhs` entity `id` to its `rhs`
/// entities.
pub fn entity_url(lhs: &Entity, id: &str, rhs: &Entity) -> (r: String)
    ensures
        r@ == spec_entity_url(*lhs, id@, *rhs),
{
    let mut url = String::from_str(API_BASE);
    url.append(lhs.segment());
    url.append("/");
    url.append(id);
    url.append("/");
    url.append(rhs.segment());
    url
}

/// Take the first search result, the whole selection policy of the
/// client: no ranking, no disambiguation.  An empty result set is
/// `NotFound`.
pub fn first_artist(results: Artists) -> (r: Result<Artist, Error>)
    ensures
        results@.len() == 0 ==> r == Result::<Artist, Error>::Err(Error::NotFound),
        results@.len() > 0 ==> (r matches Ok(a) && a@ == results@[0]),
{
    let mut items = results.items;
    if items.len() == 0 {
        return Err(Error::NotFound);
    }
    let ghost all = items@;
    let first = items.remove(0);
    proof {
        assert(first == all[0]);
    }
    Ok(first)
}

} // verus!
