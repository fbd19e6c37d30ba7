//! The depth-bounded crawl over the collaborator relation.
//!
//! A crawl starts from one artist name and a recursion budget.  Before
//! any lookup, the name is claimed in the visited set in one atomic
//! check-and-claim step, so no name is ever expanded twice, even when it
//! is reachable along several paths or sits on a cycle.  A name whose
//! lookup fails contributes nothing and poisons nothing: its siblings are
//! crawled exactly as if the branch had never existed.  Branch results
//! are concatenated in collaborator-iteration order, so the output is
//! deterministic for a fixed catalog.
//!
//! The crawl here walks a [`Catalog`]: a point-in-time snapshot mapping a
//! query string to the artist the service would return first for it,
//! collaborators already resolved.  Callers that read the catalog over
//! the network drive the same visited set and resolver against their own
//! fetch loop.

use vstd::prelude::*;

use crate::entities::{Artist, ArtistView};

verus! {

/// The set of artist names already claimed within one crawl.
pub struct VisitedSet {
    names: Vec<String>,
}

impl View for VisitedSet {
    type V = Set<Seq<char>>;

    closed spec fn view(&self) -> Set<Seq<char>> {
        self.names@.map_values(|s: String| s@).to_set()
    }
}

impl VisitedSet {
    /// The recorded names are pairwise distinct.
    pub closed spec fn wf(&self) -> bool {
        forall|i: int, j: int|
            0 <= i < j < self.names@.len() ==> self.names@[i]@ != self.names@[j]@
    }

    /// An empty visited set.
    pub fn new() -> (r: VisitedSet)
        ensures
            r.wf(),
            r@ == Set::<Seq<char>>::empty(),
    {
        let r = VisitedSet { names: Vec::new() };
        proof {
            assert(r@ =~= Set::<Seq<char>>::empty());
        }
        r
    }

    /// Whether `name` was already claimed.
    pub fn contains(&self, name: &String) -> (r: bool)
        ensures
            r == self@.contains(name@),
    {
        let n = self.names.len();
        let mut i: usize = 0;
        while i < n
            invariant
                n == self.names@.len(),
                0 <= i <= n,
                forall|k: int| 0 <= k < i ==> self.names@[k]@ != name@,
            decreases n - i,
        {
            if self.names[i].eq(name) {
                proof {
                    let m = self.names@.map_values(|s: String| s@);
                    assert(m[i as int] == name@);
                    assert(m.contains(name@));
                }
                return true;
            }
            i += 1;
        }
        proof {
            let m = self.names@.map_values(|s: String| s@);
            assert forall|k: int| 0 <= k < m.len() implies m[k] != name@ by {
                assert(self.names@[k]@ != name@);
            }
            assert(!m.contains(name@));
        }
        false
    }

    /// Claim `name` if it is free: the atomic check-and-insert of the
    /// crawl.  Returns whether the caller now owns the name.
    pub fn check_and_claim(&mut self, name: &String) -> (r: bool)
        requires
            old(self).wf(),
        ensures
            final(self).wf(),
            r == !old(self)@.contains(name@),
            r ==> final(self)@ == old(self)@.insert(name@),
            !r ==> final(self)@ == old(self)@,
    {
        if self.contains(name) {
            false
        } else {
            let ghost before = self.names@.map_values(|s: String| s@);
            self.names.push(name.clone());
            proof {
                let after = self.names@.map_values(|s: String| s@);
                assert(after =~= before.push(name@));
                assert forall|a: Seq<char>| #[trigger] after.to_set().contains(a) implies
                    before.to_set().insert(name@).contains(a) by {
                    let k = choose|k: int| 0 <= k < after.len() && after[k] == a;
                    if k < before.len() {
                        assert(before[k] == a);
                        assert(before.contains(a));
                    }
                }
                assert forall|a: Seq<char>| before.to_set().insert(name@).contains(a) implies
                    #[trigger] after.to_set().contains(a) by {
                    if a == name@ {
                        assert(after[before.len() as int] == a);
                    } else {
                        let k = choose|k: int| 0 <= k < before.len() && before[k] == a;
                        assert(after[k] == a);
                    }
                }
                assert(self@ =~= old(self)@.insert(name@));
                assert forall|i: int, j: int|
                    0 <= i < j < self.names@.len() implies self.names@[i]@ != self.names@[j]@ by {
                    if j < old(self).names@.len() {
                        assert(old(self).names@[i]@ != old(self).names@[j]@);
                    } else {
                        assert(self.names@[j]@ == name@);
                        assert(before[i] == self.names@[i]@);
                        assert(!before.to_set().contains(name@));
                    }
                }
            }
            true
        }
    }

    /// How many names have been claimed.
    pub fn count(&self) -> (r: usize)
        requires
            self.wf(),
        ensures
            r == self@.len(),
    {
        proof {
            let m = self.names@.map_values(|s: String| s@);
            assert(m.no_duplicates());
            m.unique_seq_to_set();
        }
        self.names.len()
    }
}

/// A point-in-time snapshot of the catalog's search behaviour: each entry
/// maps a query string to the artist its search returns first,
/// collaborators already resolved.  Lookups take the first matching
/// entry.
pub struct Catalog {
    entries: Vec<(String, Artist)>,
}

impl View for Catalog {
    type V = Seq<(Seq<char>, ArtistView)>;

    closed spec fn view(&self) -> Seq<(Seq<char>, ArtistView)> {
        self.entries@.map_values(|p: (String, Artist)| (p.0@, p.1@))
    }
}

/// The first entry for query `q` at position `i` or later, if any.
pub open spec fn spec_lookup_from(
    cat: Seq<(Seq<char>, ArtistView)>,
    q: Seq<char>,
    i: int,
) -> Option<ArtistView>
    decreases cat.len() - i,
{
    if i < 0 || i >= cat.len() {
        None
    } else if cat[i].0 == q {
        Some(cat[i].1)
    } else {
        spec_lookup_from(cat, q, i + 1)
    }
}

/// What searching the snapshot for `q` returns: the first matching
/// entry, if any.
pub open spec fn spec_lookup(cat: Seq<(Seq<char>, ArtistView)>, q: Seq<char>) -> Option<ArtistView> {
    spec_lookup_from(cat, q, 0)
}

impl Catalog {
    /// An empty snapshot.
    pub fn new() -> (r: Catalog)
        ensures
            r@ == Seq::<(Seq<char>, ArtistView)>::empty(),
    {
        let r = Catalog { entries: Vec::new() };
        proof {
            assert(r@ =~= Seq::<(Seq<char>, ArtistView)>::empty());
        }
        r
    }

    /// Record that searching for `query` returns `artist` first (unless
    /// an earlier entry already covers `query`).
    pub fn add(&mut self, query: String, artist: Artist)
        ensures
            final(self)@ == old(self)@.push((query@, artist@)),
    {
        self.entries.push((query, artist));
        proof {
            assert(self@ =~= old(self)@.push((query@, artist@)));
        }
    }

    /// The artist a search for `q` finds, if any.
    pub fn lookup(&self, q: &String) -> (r: Option<&Artist>)
        ensures
            r matches Some(a) ==> spec_lookup(self@, q@) == Some(a@),
            r is None ==> spec_lookup(self@, q@) is None,
    {
        let n = self.entries.len();
        let mut i: usize = 0;
        while i < n
            invariant
                n == self.entries@.len(),
                0 <= i <= n,
                spec_lookup_from(self@, q@, i as int) == spec_lookup(self@, q@),
            decreases n - i,
        {
            if self.entries[i].0.eq(q) {
                proof {
                    assert(self@[i as int].0 == q@);
                    assert(self@[i as int].1 == self.entries@[i as int].1@);
                }
                return Some(&self.entries[i].1);
            }
            proof {
                assert(self@[i as int].0 != q@);
            }
            i += 1;
        }
        None
    }
}

/// The collaborator names an artist offers for recursion, in map order.
pub open spec fn spec_collab_names(a: ArtistView) -> Seq<Seq<char>> {
    match a.collaborators {
        None => Seq::empty(),
        Some(pairs) => pairs.map_values(|p: (Seq<char>, Seq<char>)| p.0),
    }
}

/// The mathematical value of a crawl output.
pub open spec fn artist_views(s: Seq<Artist>) -> Seq<ArtistView> {
    s.map_values(|a: Artist| a@)
}

/// One crawl node: claim the name (or stop if it is taken), look it up
/// (a miss is absorbed), emit the artist, and, while budget remains,
/// crawl its collaborators in map order.  Yields the emitted artists,
/// the names claimed (in claim order), and the visited set afterwards.
pub open spec fn spec_crawl_node(
    cat: Seq<(Seq<char>, ArtistView)>,
    name: Seq<char>,
    depth: nat,
    visited: Set<Seq<char>>,
) -> (Seq<ArtistView>, Seq<Seq<char>>, Set<Seq<char>>)
    decreases depth, 0int,
{
    if visited.contains(name) {
        (Seq::empty(), Seq::empty(), visited)
    } else {
        let claimed = visited.insert(name);
        match spec_lookup(cat, name) {
            None => (Seq::empty(), seq![name], claimed),
            Some(a) => {
                if depth == 0 {
                    (seq![a], seq![name], claimed)
                } else {
                    let rest = spec_crawl_list(
                        cat,
                        spec_collab_names(a),
                        0,
                        (depth - 1) as nat,
                        claimed,
                    );
                    (seq![a] + rest.0, seq![name] + rest.1, rest.2)
                }
            },
        }
    }
}

/// Crawl the names from position `i` on, threading the visited set left
/// to right and concatenating the branch outputs in submission order.
pub open spec fn spec_crawl_list(
    cat: Seq<(Seq<char>, ArtistView)>,
    names: Seq<Seq<char>>,
    i: int,
    depth: nat,
    visited: Set<Seq<char>>,
) -> (Seq<ArtistView>, Seq<Seq<char>>, Set<Seq<char>>)
    decreases depth, names.len() - i + 1,
{
    if i < 0 || i >= names.len() {
        (Seq::empty(), Seq::empty(), visited)
    } else {
        let head = spec_crawl_node(cat, names[i], depth, visited);
        let rest = spec_crawl_list(cat, names, i + 1, depth, head.2);
        (head.0 + rest.0, head.1 + rest.1, rest.2)
    }
}

/// What a whole crawl returns: the node walk from `name` with a fresh
/// visited set.
pub open spec fn spec_crawl(
    cat: Seq<(Seq<char>, ArtistView)>,
    name: Seq<char>,
    depth: nat,
) -> Seq<ArtistView> {
    spec_crawl_node(cat, name, depth, Set::empty()).0
}

proof fn lemma_concat_to_set(x: Seq<Seq<char>>, y: Seq<Seq<char>>)
    ensures
        (x + y).to_set() == x.to_set().union(y.to_set()),
{
    assert forall|a: Seq<char>| #[trigger] (x + y).to_set().contains(a) implies x.to_set().union(
        y.to_set(),
    ).contains(a) by {
        let k = choose|k: int| 0 <= k < (x + y).len() && (x + y)[k] == a;
        if k < x.len() {
            assert(x[k] == a);
        } else {
            assert(y[k - x.len()] == a);
        }
    }
    assert forall|a: Seq<char>| x.to_set().union(y.to_set()).contains(a) implies #[trigger] (x
        + y).to_set().contains(a) by {
        if x.to_set().contains(a) {
            let k = choose|k: int| 0 <= k < x.len() && x[k] == a;
            assert((x + y)[k] == a);
        } else {
            let k = choose|k: int| 0 <= k < y.len() && y[k] == a;
            assert((x + y)[x.len() + k] == a);
        }
    }
    assert((x + y).to_set() =~= x.to_set().union(y.to_set()));
}

proof fn lemma_singleton_to_set(v: Seq<char>)
    ensures
        seq![v].to_set() == Set::<Seq<char>>::empty().insert(v),
{
    assert forall|a: Seq<char>| #[trigger] seq![v].to_set().contains(a) implies a == v by {
        let k = choose|k: int| 0 <= k < seq![v].len() && seq![v][k] == a;
    }
    assert(seq![v][0] == v);
    assert(seq![v].to_set() =~= Set::<Seq<char>>::empty().insert(v));
}

/// No crawl ever visits a name twice: the names a branch claims are
/// pairwise distinct, none of them was visited before the branch began,
/// the visited set afterwards is exactly the old one plus the claims,
/// and the branch emits at most one artist per claimed name.
pub proof fn lemma_crawl_never_revisits(
    cat: Seq<(Seq<char>, ArtistView)>,
    name: Seq<char>,
    depth: nat,
    visited: Set<Seq<char>>,
)
    ensures
        ({
            let t = spec_crawl_node(cat, name, depth, visited);
            &&& t.1.no_duplicates()
            &&& forall|x: Seq<char>| t.1.contains(x) ==> !visited.contains(x)
            &&& t.2 == visited.union(t.1.to_set())
            &&& t.0.len() <= t.1.len()
        }),
    decreases depth, 0int,
{
    let t = spec_crawl_node(cat, name, depth, visited);
    if visited.contains(name) {
        assert(t.2 =~= visited.union(t.1.to_set()));
    } else {
        let claimed = visited.insert(name);
        lemma_singleton_to_set(name);
        match spec_lookup(cat, name) {
            None => {
                assert(t.1 =~= seq![name]);
                assert(t.2 =~= visited.union(t.1.to_set()));
            },
            Some(a) => {
                if depth == 0 {
                    assert(t.1 =~= seq![name]);
                    assert(t.2 =~= visited.union(t.1.to_set()));
                } else {
                    let names = spec_collab_names(a);
                    let rest = spec_crawl_list(cat, names, 0, (depth - 1) as nat, claimed);
                    lemma_crawl_list_never_revisits(cat, names, 0, (depth - 1) as nat, claimed);
                    lemma_concat_to_set(seq![name], rest.1);
                    assert(rest.1.contains(name) ==> !claimed.contains(name));
                    assert(claimed.contains(name));
                    assert forall|i: int, j: int| 0 <= i < j < t.1.len() implies t.1[i]
                        != t.1[j] by {
                        if i == 0 {
                            assert(t.1[j] == rest.1[j - 1]);
                            assert(rest.1.contains(rest.1[j - 1]));
                        } else {
                            assert(t.1[i] == rest.1[i - 1]);
                            assert(t.1[j] == rest.1[j - 1]);
                        }
                    }
                    assert(t.1 == seq![name] + rest.1);
                    assert forall|x: Seq<char>| t.1.contains(x) implies !visited.contains(x) by {
                        let k = choose|k: int| 0 <= k < t.1.len() && t.1[k] == x;
                        if k == 0 {
                            assert(t.1[0] == name);
                            assert(x == name);
                        } else {
                            assert(rest.1[k - 1] == x);
                            assert(rest.1.contains(x));
                            assert(!claimed.contains(x));
                        }
                    }
                    assert(t.2 =~= visited.union(t.1.to_set()));
                }
            },
        }
    }
}

proof fn lemma_crawl_list_never_revisits(
    cat: Seq<(Seq<char>, ArtistView)>,
    names: Seq<Seq<char>>,
    i: int,
    depth: nat,
    visited: Set<Seq<char>>,
)
    ensures
        ({
            let t = spec_crawl_list(cat, names, i, depth, visited);
            &&& t.1.no_duplicates()
            &&& forall|x: Seq<char>| t.1.contains(x) ==> !visited.contains(x)
            &&& t.2 == visited.union(t.1.to_set())
            &&& t.0.len() <= t.1.len()
        }),
    decreases depth, names.len() - i + 1,
{
    let t = spec_crawl_list(cat, names, i, depth, visited);
    if i < 0 || i >= names.len() {
        assert(t.2 =~= visited.union(t.1.to_set()));
    } else {
        let head = spec_crawl_node(cat, names[i], depth, visited);
        let rest = spec_crawl_list(cat, names, i + 1, depth, head.2);
        lemma_crawl_never_revisits(cat, names[i], depth, visited);
        lemma_crawl_list_never_revisits(cat, names, i + 1, depth, head.2);
        lemma_concat_to_set(head.1, rest.1);
        assert forall|p: int, q: int| 0 <= p < q < t.1.len() implies t.1[p] != t.1[q] by {
            if q < head.1.len() {
                assert(t.1[p] == head.1[p]);
                assert(t.1[q] == head.1[q]);
            } else if p >= head.1.len() {
                assert(t.1[p] == rest.1[p - head.1.len()]);
                assert(t.1[q] == rest.1[q - head.1.len()]);
            } else {
                assert(t.1[p] == head.1[p]);
                assert(t.1[q] == rest.1[q - head.1.len()]);
                assert(head.1.contains(head.1[p]));
                assert(rest.1.contains(rest.1[q - head.1.len()]));
                assert(head.2.contains(head.1[p]));
                assert(!head.2.contains(rest.1[q - head.1.len()]));
            }
        }
        assert forall|x: Seq<char>| t.1.contains(x) implies !visited.contains(x) by {
            let k = choose|k: int| 0 <= k < t.1.len() && t.1[k] == x;
            if k < head.1.len() {
                assert(head.1[k] == x);
                assert(head.1.contains(x));
            } else {
                assert(rest.1[k - head.1.len()] == x);
                assert(rest.1.contains(x));
                assert(!head.2.contains(x));
            }
        }
        assert(t.2 =~= visited.union(t.1.to_set()));
    }
}

/// The names reachable from `name` within `depth` collaborator hops.
pub open spec fn spec_reachable(
    cat: Seq<(Seq<char>, ArtistView)>,
    name: Seq<char>,
    depth: nat,
) -> Set<Seq<char>>
    decreases depth, 0int,
{
    let base = Set::<Seq<char>>::empty().insert(name);
    if depth == 0 {
        base
    } else {
        match spec_lookup(cat, name) {
            None => base,
            Some(a) => base.union(
                spec_reachable_list(cat, spec_collab_names(a), 0, (depth - 1) as nat),
            ),
        }
    }
}

/// The names reachable from any of `names[i..]` within `depth` hops.
pub open spec fn spec_reachable_list(
    cat: Seq<(Seq<char>, ArtistView)>,
    names: Seq<Seq<char>>,
    i: int,
    depth: nat,
) -> Set<Seq<char>>
    decreases depth, names.len() - i + 1,
{
    if i < 0 || i >= names.len() {
        Set::empty()
    } else {
        spec_reachable(cat, names[i], depth).union(spec_reachable_list(cat, names, i + 1, depth))
    }
}

/// A crawl claims only names reachable within its budget, so the visited
/// set after a crawl holds at most the names within `depth` hops of the
/// start, beyond what was already claimed.
pub proof fn lemma_crawl_stays_within_reach(
    cat: Seq<(Seq<char>, ArtistView)>,
    name: Seq<char>,
    depth: nat,
    visited: Set<Seq<char>>,
)
    ensures
        ({
            let t = spec_crawl_node(cat, name, depth, visited);
            &&& t.1.to_set().subset_of(spec_reachable(cat, name, depth))
            &&& t.2.subset_of(visited.union(spec_reachable(cat, name, depth)))
        }),
    decreases depth, 0int,
{
    let t = spec_crawl_node(cat, name, depth, visited);
    lemma_crawl_never_revisits(cat, name, depth, visited);
    if !visited.contains(name) {
        let claimed = visited.insert(name);
        lemma_singleton_to_set(name);
        match spec_lookup(cat, name) {
            None => {
                assert(t.1 =~= seq![name]);
            },
            Some(a) => {
                if depth != 0 {
                    let names = spec_collab_names(a);
                    let rest = spec_crawl_list(cat, names, 0, (depth - 1) as nat, claimed);
                    lemma_crawl_list_stays_within_reach(cat, names, 0, (depth - 1) as nat, claimed);
                    lemma_concat_to_set(seq![name], rest.1);
                    lemma_crawl_list_never_revisits(cat, names, 0, (depth - 1) as nat, claimed);
                }
            },
        }
    }
}

proof fn lemma_crawl_list_stays_within_reach(
    cat: Seq<(Seq<char>, ArtistView)>,
    names: Seq<Seq<char>>,
    i: int,
    depth: nat,
    visited: Set<Seq<char>>,
)
    ensures
        ({
            let t = spec_crawl_list(cat, names, i, depth, visited);
            &&& t.1.to_set().subset_of(spec_reachable_list(cat, names, i, depth))
            &&& t.2.subset_of(visited.union(spec_reachable_list(cat, names, i, depth)))
        }),
    decreases depth, names.len() - i + 1,
{
    let t = spec_crawl_list(cat, names, i, depth, visited);
    if 0 <= i < names.len() {
        let head = spec_crawl_node(cat, names[i], depth, visited);
        lemma_crawl_stays_within_reach(cat, names[i], depth, visited);
        lemma_crawl_list_stays_within_reach(cat, names, i + 1, depth, head.2);
        let rest = spec_crawl_list(cat, names, i + 1, depth, head.2);
        lemma_concat_to_set(head.1, rest.1);
        lemma_crawl_never_revisits(cat, names[i], depth, visited);
        lemma_crawl_list_never_revisits(cat, names, i + 1, depth, head.2);
    }
}

/// A crawl with budget 0 resolves the seed artist alone: one artist if
/// the lookup finds one, nothing if it does not, with no expansion
/// beyond the seed's own name.
pub proof fn lemma_crawl_depth_zero(cat: Seq<(Seq<char>, ArtistView)>, name: Seq<char>)
    ensures
        spec_lookup(cat, name) is None ==> spec_crawl(cat, name, 0) == Seq::<ArtistView>::empty(),
        spec_lookup(cat, name) matches Some(a) ==> spec_crawl(cat, name, 0) == seq![a],
        spec_crawl_node(cat, name, 0, Set::empty()).1 == seq![name],
        spec_crawl_node(cat, name, 0, Set::empty()).2 == Set::<Seq<char>>::empty().insert(name),
{
    assert(!Set::<Seq<char>>::empty().contains(name));
}

/// A branch whose lookup fails is fully absorbed: it emits nothing and
/// only marks its own name visited, so sibling branches crawl exactly
/// as if it had never been reached.
pub proof fn lemma_missing_branch_is_isolated(
    cat: Seq<(Seq<char>, ArtistView)>,
    name: Seq<char>,
    depth: nat,
    visited: Set<Seq<char>>,
)
    requires
        !visited.contains(name),
        spec_lookup(cat, name) is None,
    ensures
        spec_crawl_node(cat, name, depth, visited) == (
            Seq::<ArtistView>::empty(),
            seq![name],
            visited.insert(name),
        ),
{
}

/// Crawl one branch: claim `name`, look it up, and with remaining budget
/// recurse into its collaborators, sharing `visited` across the whole
/// crawl.  Depth exhaustion and visited-set saturation together bound
/// the walk, so it terminates on cyclic collaborator graphs.
pub fn crawl_branch(catalog: &Catalog, name: &String, depth: usize, visited: &mut VisitedSet) -> (r:
    Vec<Artist>)
    requires
        old(visited).wf(),
    ensures
        final(visited).wf(),
        artist_views(r@) == spec_crawl_node(catalog@, name@, depth as nat, old(visited)@).0,
        final(visited)@ == spec_crawl_node(catalog@, name@, depth as nat, old(visited)@).2,
    decreases depth,
{
    let ghost t = spec_crawl_node(catalog@, name@, depth as nat, old(visited)@);
    if !visited.check_and_claim(name) {
        let r: Vec<Artist> = Vec::new();
        proof {
            assert(artist_views(r@) =~= t.0);
        }
        return r;
    }
    let mut out: Vec<Artist> = Vec::new();
    match catalog.lookup(name) {
        None => {
            proof {
                assert(artist_views(out@) =~= t.0);
            }
            out
        },
        Some(a) => {
            out.push(a.clone());
            proof {
                assert(artist_views(out@) =~= seq![a@]);
            }
            if depth == 0 {
                proof {
                    assert(artist_views(out@) =~= t.0);
                }
                return out;
            }
            let ghost names = spec_collab_names(a@);
            match &a.collaborators {
                None => {
                    proof {
                        assert(names.len() == 0);
                        assert(artist_views(out@) =~= t.0);
                    }
                    out
                },
                Some(m) => {
                    let n = m.len();
                    proof {
                        assert(names =~= m@.map_values(|p: (Seq<char>, Seq<char>)| p.0));
                        assert(names.len() == n);
                    }
                    let mut i: usize = 0;
                    while i < n
                        invariant
                            visited.wf(),
                            0 <= i <= n,
                            n == m@.len(),
                            names == spec_collab_names(a@),
                            names == m@.map_values(|p: (Seq<char>, Seq<char>)| p.0),
                            names.len() == n,
                            depth >= 1,
                            t == spec_crawl_node(catalog@, name@, depth as nat, old(visited)@),
                            t.0 == artist_views(out@) + spec_crawl_list(
                                catalog@,
                                names,
                                i as int,
                                (depth - 1) as nat,
                                visited@,
                            ).0,
                            t.2 == spec_crawl_list(
                                catalog@,
                                names,
                                i as int,
                                (depth - 1) as nat,
                                visited@,
                            ).2,
                        decreases n - i,
                    {
                        let ghost pre = visited@;
                        let ghost head = spec_crawl_node(
                            catalog@,
                            names[i as int],
                            (depth - 1) as nat,
                            pre,
                        );
                        let collab_name = m.name_at(i);
                        proof {
                            assert(collab_name@ == names[i as int]);
                        }
                        let mut sub = crawl_branch(catalog, collab_name, depth - 1, visited);
                        let ghost out_before = out@;
                        let ghost sub_view = sub@;
                        out.append(&mut sub);
                        proof {
                            assert(artist_views(out@) =~= artist_views(out_before) + artist_views(
                                sub_view,
                            ));
                            assert(artist_views(out_before) + (head.0 + spec_crawl_list(
                                catalog@,
                                names,
                                i + 1 as int,
                                (depth - 1) as nat,
                                visited@,
                            ).0) =~= (artist_views(out_before) + head.0) + spec_crawl_list(
                                catalog@,
                                names,
                                i + 1 as int,
                                (depth - 1) as nat,
                                visited@,
                            ).0);
                        }
                        i += 1;
                    }
                    proof {
                        assert(spec_crawl_list(
                            catalog@,
                            names,
                            n as int,
                            (depth - 1) as nat,
                            visited@,
                        ).0 =~= Seq::<ArtistView>::empty());
                        assert(artist_views(out@) + Seq::<ArtistView>::empty() =~= artist_views(
                            out@,
                        ));
                    }
                    out
                },
            }
        },
    }
}

/// Crawl the collaboration graph from `start` with recursion budget
/// `max_depth`, expanding each queried name at most once and returning
/// the artists found in depth-first, collaborator-iteration order.
/// Depth 0 resolves the seed artist only; a failed very first lookup
/// yields an empty sequence.
pub fn crawl(catalog: &Catalog, start: &String, max_depth: usize) -> (r: Vec<Artist>)
    ensures
        artist_views(r@) == spec_crawl(catalog@, start@, max_depth as nat),
{
    let mut visited = VisitedSet::new();
    crawl_branch(catalog, start, max_depth, &mut visited)
}

} // verus!
