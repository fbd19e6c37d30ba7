//! Deriving an artist's direct collaborators from song credits.
//!
//! The resolver flattens every album's song list in album-submission
//! order, then folds all credit lists into one name-to-id map, later
//! credits silently overwriting earlier ones that share a display name.
//! The artist's own name is filtered out, so upstream self-credits never
//! make an artist its own collaborator.

use vstd::prelude::*;

use crate::entities::{contains_name, spec_insert, CollabMap, Song, SongView};

verus! {

/// The mathematical value of a list of songs.
pub open spec fn songs_view(songs: Seq<Song>) -> Seq<SongView> {
    songs.map_values(|s: Song| s@)
}

/// The mathematical value of a list of per-album song lists.
pub open spec fn song_lists_view(lists: Seq<Vec<Song>>) -> Seq<Seq<Song>> {
    lists.map_values(|v: Vec<Song>| v@)
}

/// Fold the credits of one song into `acc`, from position `i` on:
/// self-credits are skipped, every other credit is inserted
/// last-write-wins.
pub open spec fn spec_add_credits(
    acc: Seq<(Seq<char>, Seq<char>)>,
    own: Seq<char>,
    credits: Seq<crate::entities::ArtistView>,
    i: int,
) -> Seq<(Seq<char>, Seq<char>)>
    decreases credits.len() - i,
{
    if i < 0 || i >= credits.len() {
        acc
    } else {
        let next = if credits[i].name == own {
            acc
        } else {
            spec_insert(acc, credits[i].name, credits[i].id)
        };
        spec_add_credits(next, own, credits, i + 1)
    }
}

/// Fold the credits of every song from position `i` on into `acc`.
pub open spec fn spec_collect_from(
    acc: Seq<(Seq<char>, Seq<char>)>,
    own: Seq<char>,
    songs: Seq<SongView>,
    i: int,
) -> Seq<(Seq<char>, Seq<char>)>
    decreases songs.len() - i,
{
    if i < 0 || i >= songs.len() {
        acc
    } else {
        spec_collect_from(spec_add_credits(acc, own, songs[i].artists, 0), own, songs, i + 1)
    }
}

/// The collaborator map of an artist named `own`, derived from `songs`.
pub open spec fn spec_collaborators(own: Seq<char>, songs: Seq<SongView>) -> Seq<
    (Seq<char>, Seq<char>),
> {
    spec_collect_from(Seq::empty(), own, songs, 0)
}

proof fn lemma_insert_keeps_absent(
    s: Seq<(Seq<char>, Seq<char>)>,
    name: Seq<char>,
    id: Seq<char>,
    x: Seq<char>,
    i: int,
)
    requires
        !contains_name(s, x),
        name != x,
    ensures
        !contains_name(crate::entities::spec_insert_from(s, name, id, i), x),
    decreases s.len() - i,
{
    if i < 0 || i >= s.len() {
        let r = s.push((name, id));
        assert forall|k: int| 0 <= k < r.len() implies r[k].0 != x by {
            if k < s.len() {
                assert(s[k].0 != x);
            }
        }
    } else if s[i].0 == name {
        let r = s.update(i, (name, id));
        assert forall|k: int| 0 <= k < r.len() implies r[k].0 != x by {
            if k != i {
                assert(r[k].0 == s[k].0);
                assert(s[k].0 != x);
            }
        }
    } else {
        lemma_insert_keeps_absent(s, name, id, x, i + 1);
    }
}

proof fn lemma_add_credits_keeps_absent(
    acc: Seq<(Seq<char>, Seq<char>)>,
    own: Seq<char>,
    credits: Seq<crate::entities::ArtistView>,
    i: int,
)
    requires
        !contains_name(acc, own),
    ensures
        !contains_name(spec_add_credits(acc, own, credits, i), own),
    decreases credits.len() - i,
{
    if 0 <= i < credits.len() {
        if credits[i].name == own {
            lemma_add_credits_keeps_absent(acc, own, credits, i + 1);
        } else {
            lemma_insert_keeps_absent(acc, credits[i].name, credits[i].id, own, 0);
            lemma_add_credits_keeps_absent(
                spec_insert(acc, credits[i].name, credits[i].id),
                own,
                credits,
                i + 1,
            );
        }
    }
}

/// An artist never appears in its own collaborator map: the fold skips
/// self-credits, and insertion introduces no other name.
pub proof fn lemma_no_self_collaborator(
    acc: Seq<(Seq<char>, Seq<char>)>,
    own: Seq<char>,
    songs: Seq<SongView>,
    i: int,
)
    requires
        !contains_name(acc, own),
    ensures
        !contains_name(spec_collect_from(acc, own, songs, i), own),
    decreases songs.len() - i,
{
    if 0 <= i < songs.len() {
        lemma_add_credits_keeps_absent(acc, own, songs[i].artists, 0);
        lemma_no_self_collaborator(spec_add_credits(acc, own, songs[i].artists, 0), own, songs, i + 1);
    }
}

/// Build the collaborator map of the artist named `own` from the credit
/// lists of `songs`: every credited `(name, id)` in song order,
/// last-write-wins, with the artist's own name excluded.
pub fn collect_collaborators(own: &String, songs: &Vec<Song>) -> (r: CollabMap)
    ensures
        r@ == spec_collaborators(own@, songs_view(songs@)),
        r.wf(),
        !contains_name(r@, own@),
{
    let ghost sv = songs_view(songs@);
    let ghost target = spec_collaborators(own@, sv);
    let mut m = CollabMap::new();
    let n = songs.len();
    let mut i: usize = 0;
    while i < n
        invariant
            n == songs@.len(),
            sv == songs_view(songs@),
            sv.len() == n,
            0 <= i <= n,
            m.wf(),
            spec_collect_from(m@, own@, sv, i as int) == target,
        decreases n - i,
    {
        let credits = &songs[i].artists;
        let ghost cv = songs@[i as int]@.artists;
        proof {
            assert(sv[i as int] == songs@[i as int]@);
        }
        let c = credits.len();
        let mut j: usize = 0;
        while j < c
            invariant
                n == songs@.len(),
                sv == songs_view(songs@),
                sv.len() == n,
                0 <= i < n,
                c == credits@.len(),
                credits == &songs@[i as int].artists,
                cv == songs@[i as int]@.artists,
                cv.len() == c,
                0 <= j <= c,
                m.wf(),
                spec_collect_from(
                    spec_add_credits(m@, own@, cv, j as int),
                    own@,
                    sv,
                    i + 1 as int,
                ) == target,
            decreases c - j,
        {
            proof {
                assert(cv[j as int] == credits@[j as int]@);
            }
            if credits[j].name.eq(own) {
                proof {
                    assert(cv[j as int].name == own@);
                    assert(spec_add_credits(m@, own@, cv, j as int) == spec_add_credits(
                        m@,
                        own@,
                        cv,
                        j + 1 as int,
                    ));
                }
            } else {
                let name = credits[j].name.clone();
                let id = credits[j].id.clone();
                let ghost before = m@;
                m.insert(name, id);
                proof {
                    assert(cv[j as int].name != own@);
                    assert(m@ == spec_insert(before, cv[j as int].name, cv[j as int].id));
                    assert(spec_add_credits(before, own@, cv, j as int) == spec_add_credits(
                        m@,
                        own@,
                        cv,
                        j + 1 as int,
                    ));
                }
            }
            j += 1;
        }
        proof {
            assert(spec_add_credits(m@, own@, cv, c as int) == m@);
        }
        i += 1;
    }
    proof {
        assert(spec_collect_from(m@, own@, sv, n as int) == m@);
        lemma_no_self_collaborator(Seq::empty(), own@, sv, 0);
    }
    m
}

/// Concatenate per-album song lists in album-submission order, however
/// the fetches completed.
pub fn flatten_songs(lists: Vec<Vec<Song>>) -> (r: Vec<Song>)
    ensures
        r@ == song_lists_view(lists@).flatten(),
{
    let ghost target = song_lists_view(lists@).flatten();
    let mut lists = lists;
    let mut out: Vec<Song> = Vec::new();
    while lists.len() > 0
        invariant
            out@ + song_lists_view(lists@).flatten() == target,
        decreases lists@.len(),
    {
        let ghost before = song_lists_view(lists@);
        let mut first = lists.remove(0);
        proof {
            assert(before.len() > 0);
            assert(before.first() == first@);
            assert(before.drop_first() =~= song_lists_view(lists@));
            assert(before.flatten() == first@ + song_lists_view(lists@).flatten());
        }
        out.append(&mut first);
        proof {
            assert(out@ + song_lists_view(lists@).flatten() =~= target);
        }
    }
    proof {
        assert(song_lists_view(lists@).len() == 0);
        assert(out@ + song_lists_view(lists@).flatten() =~= out@);
    }
    out
}

} // verus!
