//! The data model of the crawl: artists, albums, songs, and the
//! collaborator map attached to a resolved artist.
//!
//! A collaborator map is kept as an ordered list of `(name, id)` pairs with
//! pairwise-distinct names.  Insertion is last-write-wins: inserting a name
//! that is already present replaces its id in place, so iteration order is
//! deterministic and later credits silently overwrite earlier ones that
//! share a display name.

use vstd::prelude::*;

verus! {

/// The names in `s` are pairwise distinct.
pub open spec fn unique_names(s: Seq<(Seq<char>, Seq<char>)>) -> bool {
    forall|i: int, j: int| 0 <= i < j < s.len() ==> s[i].0 != s[j].0
}

/// Some pair in `s` carries `name`.
pub open spec fn contains_name(s: Seq<(Seq<char>, Seq<char>)>, name: Seq<char>) -> bool {
    exists|i: int| 0 <= i < s.len() && s[i].0 == name
}

/// Last-write-wins insertion, scanning for `name` from position `i`:
/// replace the id in place at the first occurrence, or push a fresh pair.
pub open spec fn spec_insert_from(
    s: Seq<(Seq<char>, Seq<char>)>,
    name: Seq<char>,
    id: Seq<char>,
    i: int,
) -> Seq<(Seq<char>, Seq<char>)>
    decreases s.len() - i,
{
    if i < 0 || i >= s.len() {
        s.push((name, id))
    } else if s[i].0 == name {
        s.update(i, (name, id))
    } else {
        spec_insert_from(s, name, id, i + 1)
    }
}

/// Last-write-wins insertion of `(name, id)` into `s`.
pub open spec fn spec_insert(
    s: Seq<(Seq<char>, Seq<char>)>,
    name: Seq<char>,
    id: Seq<char>,
) -> Seq<(Seq<char>, Seq<char>)> {
    spec_insert_from(s, name, id, 0)
}

/// The id stored for `name`, looking at positions `i` and onwards.
pub open spec fn spec_id_from(
    s: Seq<(Seq<char>, Seq<char>)>,
    name: Seq<char>,
    i: int,
) -> Option<Seq<char>>
    decreases s.len() - i,
{
    if i < 0 || i >= s.len() {
        None
    } else if s[i].0 == name {
        Some(s[i].1)
    } else {
        spec_id_from(s, name, i + 1)
    }
}

/// The id stored for `name` in `s`, if any.
pub open spec fn spec_id_of(s: Seq<(Seq<char>, Seq<char>)>, name: Seq<char>) -> Option<Seq<char>> {
    spec_id_from(s, name, 0)
}

/// A collaborator map: display name -> catalog id, unique names, kept in
/// insertion order so that crawls iterate it deterministically.
pub struct CollabMap {
    pairs: Vec<(String, String)>,
}

impl View for CollabMap {
    type V = Seq<(Seq<char>, Seq<char>)>;

    closed spec fn view(&self) -> Seq<(Seq<char>, Seq<char>)> {
        self.pairs@.map_values(|p: (String, String)| (p.0@, p.1@))
    }
}

impl CollabMap {
    /// No two pairs share a name.
    pub open spec fn wf(&self) -> bool {
        unique_names(self@)
    }

    /// An empty map.
    pub fn new() -> (r: CollabMap)
        ensures
            r@ == Seq::<(Seq<char>, Seq<char>)>::empty(),
            r.wf(),
    {
        let r = CollabMap { pairs: Vec::new() };
        proof {
            assert(r@ =~= Seq::<(Seq<char>, Seq<char>)>::empty());
        }
        r
    }

    /// How many collaborators are recorded.
    pub fn len(&self) -> (n: usize)
        ensures
            n == self@.len(),
    {
        self.pairs.len()
    }

    /// Insert `(name, id)`; if `name` is present its id is replaced in
    /// place, otherwise the pair is appended.
    pub fn insert(&mut self, name: String, id: String)
        requires
            old(self).wf(),
        ensures
            final(self)@ == spec_insert(old(self)@, name@, id@),
            final(self).wf(),
            final(self)@.len() <= old(self)@.len() + 1,
    {
        let ghost orig = self@;
        let n = self.pairs.len();
        let mut i: usize = 0;
        while i < n
            invariant
                n == self.pairs@.len(),
                self@ == orig,
                orig == old(self)@,
                unique_names(orig),
                0 <= i <= n,
                spec_insert_from(orig, name@, id@, i as int) == spec_insert(orig, name@, id@),
                forall|k: int| 0 <= k < i ==> orig[k].0 != name@,
            decreases n - i,
        {
            if self.pairs[i].0.eq(&name) {
                proof {
                    assert(orig[i as int].0 == name@);
                }
                self.pairs[i] = (name, id);
                proof {
                    assert(self@ =~= orig.update(i as int, (name@, id@)));
                    assert forall|p: int, q: int| 0 <= p < q < self@.len() implies self@[p].0
                        != self@[q].0 by {
                        assert(self@[p].0 == orig[p].0);
                        assert(self@[q].0 == orig[q].0);
                    }
                }
                return ;
            }
            i += 1;
        }
        self.pairs.push((name, id));
        proof {
            assert(self@ =~= orig.push((name@, id@)));
            assert forall|p: int, q: int| 0 <= p < q < self@.len() implies self@[p].0
                != self@[q].0 by {
                if q < orig.len() {
                    assert(self@[p].0 == orig[p].0);
                    assert(self@[q].0 == orig[q].0);
                } else {
                    assert(self@[p].0 == orig[p].0);
                    assert(self@[q].0 == name@);
                }
            }
        }
    }

    /// Whether `name` is recorded as a collaborator.
    pub fn contains(&self, name: &String) -> (r: bool)
        ensures
            r == contains_name(self@, name@),
    {
        let n = self.pairs.len();
        let mut i: usize = 0;
        while i < n
            invariant
                n == self.pairs@.len(),
                0 <= i <= n,
                forall|k: int| 0 <= k < i ==> self@[k].0 != name@,
            decreases n - i,
        {
            if self.pairs[i].0.eq(name) {
                proof {
                    assert(self@[i as int].0 == name@);
                }
                return true;
            }
            i += 1;
        }
        false
    }

    /// The id recorded for `name`, if any.
    pub fn id_of(&self, name: &String) -> (r: Option<&String>)
        ensures
            r matches Some(id) ==> spec_id_of(self@, name@) == Some(id@),
            r is None ==> spec_id_of(self@, name@) is None,
    {
        let n = self.pairs.len();
        let mut i: usize = 0;
        while i < n
            invariant
                n == self.pairs@.len(),
                0 <= i <= n,
                spec_id_from(self@, name@, i as int) == spec_id_of(self@, name@),
            decreases n - i,
        {
            if self.pairs[i].0.eq(name) {
                proof {
                    assert(self@[i as int].0 == name@);
                    assert(self@[i as int].1 == self.pairs@[i as int].1@);
                }
                return Some(&self.pairs[i].1);
            }
            proof {
                assert(self@[i as int].0 != name@);
            }
            i += 1;
        }
        None
    }

    /// The name of the `i`-th pair, in insertion order.
    pub fn name_at(&self, i: usize) -> (r: &String)
        requires
            i < self@.len(),
        ensures
            r@ == self@[i as int].0,
    {
        &self.pairs[i].0
    }

    /// The id of the `i`-th pair, in insertion order.
    pub fn id_at(&self, i: usize) -> (r: &String)
        requires
            i < self@.len(),
        ensures
            r@ == self@[i as int].1,
    {
        &self.pairs[i].1
    }
}

impl Clone for CollabMap {
    /// Cloning keeps the pairs and their order.
    fn clone(&self) -> (r: Self)
        ensures
            r@ == self@,
    {
        let n = self.pairs.len();
        let mut pairs: Vec<(String, String)> = Vec::new();
        let mut i: usize = 0;
        while i < n
            invariant
                n == self.pairs@.len(),
                0 <= i <= n,
                pairs@.len() == i,
                forall|k: int|
                    0 <= k < i ==> (#[trigger] pairs@[k]).0@ == self.pairs@[k].0@ && pairs@[k].1@
                        == self.pairs@[k].1@,
            decreases n - i,
        {
            let name = self.pairs[i].0.clone();
            let id = self.pairs[i].1.clone();
            pairs.push((name, id));
            i += 1;
        }
        let r = CollabMap { pairs };
        proof {
            assert(r@ =~= self@);
        }
        r
    }
}

/// The mathematical value of an [`Artist`].
pub struct ArtistView {
    pub id: Seq<char>,
    pub name: Seq<char>,
    pub collaborators: Option<Seq<(Seq<char>, Seq<char>)>>,
}

/// An artist: catalog id, display name, and, once resolved, the map of
/// direct collaborators.  The name is the de-duplication key of the crawl.
pub struct Artist {
    pub id: String,
    pub name: String,
    pub collaborators: Option<CollabMap>,
}

impl View for Artist {
    type V = ArtistView;

    open spec fn view(&self) -> ArtistView {
        ArtistView {
            id: self.id@,
            name: self.name@,
            collaborators: match self.collaborators {
                Some(m) => Some(m@),
                None => None,
            },
        }
    }
}

impl Artist {
    /// An unresolved artist, as returned by a search.
    pub fn new(id: String, name: String) -> (r: Artist)
        ensures
            r.id@ == id@,
            r.name@ == name@,
            r@.collaborators is None,
    {
        Artist { id, name, collaborators: None }
    }

    /// Attach the resolved collaborator map.  An artist is resolved at
    /// most once, right after it is found.
    pub fn attach_collaborators(self, collabs: CollabMap) -> (r: Artist)
        requires
            self.collaborators is None,
        ensures
            r.id@ == self.id@,
            r.name@ == self.name@,
            r@.collaborators == Some(collabs@),
    {
        Artist { id: self.id, name: self.name, collaborators: Some(collabs) }
    }
}

impl Clone for Artist {
    /// Cloning keeps id, name, and the collaborator map.
    fn clone(&self) -> (r: Self)
        ensures
            r@ == self@,
    {
        Artist {
            id: self.id.clone(),
            name: self.name.clone(),
            collaborators: match &self.collaborators {
                Some(m) => Some(m.clone()),
                None => None,
            },
        }
    }
}

/// One page of artist search results, in the order the catalog returned
/// them.
pub struct Artists {
    pub items: Vec<Artist>,
}

impl View for Artists {
    type V = Seq<ArtistView>;

    open spec fn view(&self) -> Seq<ArtistView> {
        self.items@.map_values(|a: Artist| a@)
    }
}

/// The mathematical value of a [`Song`].
pub struct SongView {
    pub id: Seq<char>,
    pub name: Seq<char>,
    pub artists: Seq<ArtistView>,
}

/// A song with its credited artists; the credits are where collaborator
/// identity comes from.  Ephemeral: lives only during one resolution pass.
pub struct Song {
    pub id: String,
    pub name: String,
    pub artists: Vec<Artist>,
}

impl View for Song {
    type V = SongView;

    open spec fn view(&self) -> SongView {
        SongView {
            id: self.id@,
            name: self.name@,
            artists: self.artists@.map_values(|a: Artist| a@),
        }
    }
}

/// The mathematical value of an [`Album`].
pub struct AlbumView {
    pub id: Seq<char>,
    pub name: Seq<char>,
    pub songs: Option<Seq<SongView>>,
}

/// An album, optionally carrying its song list.  Ephemeral, like
/// [`Song`].
pub struct Album {
    pub id: String,
    pub name: String,
    pub songs: Option<Vec<Song>>,
}

impl View for Album {
    type V = AlbumView;

    open spec fn view(&self) -> AlbumView {
        AlbumView {
            id: self.id@,
            name: self.name@,
            songs: match self.songs {
                Some(s) => Some(s@.map_values(|x: Song| x@)),
                None => None,
            },
        }
    }
}

} // verus!
