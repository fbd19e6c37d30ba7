//! Tests of the depth-bounded crawl over a catalog snapshot.

use collab_crawler::{collect_collaborators, crawl, Artist, Catalog, Song, VisitedSet};

fn credit(name: &str, id: &str) -> Artist {
    Artist::new(id.to_string(), name.to_string())
}

/// An artist whose collaborator map holds the given (name, id) pairs, in
/// order, built through the resolver.
fn resolved(name: &str, id: &str, collabs: &[(&str, &str)]) -> Artist {
    let credits: Vec<Artist> = collabs.iter().map(|(n, i)| credit(n, i)).collect();
    let songs = vec![Song {
        id: format!("{id}-song"),
        name: format!("{name}'s song"),
        artists: credits,
    }];
    let map = collect_collaborators(&name.to_string(), &songs);
    credit(name, id).attach_collaborators(map)
}

fn names_of(artists: &[Artist]) -> Vec<&str> {
    artists.iter().map(|a| a.name.as_str()).collect()
}

#[test]
fn depth_zero_returns_only_the_seed() {
    let mut catalog = Catalog::new();
    catalog.add("A".to_string(), resolved("A", "id-a", &[("B", "id-b")]));
    catalog.add("B".to_string(), resolved("B", "id-b", &[]));

    let out = crawl(&catalog, &"A".to_string(), 0);
    assert_eq!(names_of(&out), vec!["A"]);
    let map = out[0].collaborators.as_ref().unwrap();
    assert_eq!(map.id_of(&"B".to_string()), Some(&"id-b".to_string()));
}

#[test]
fn depth_zero_on_a_missing_artist_returns_nothing() {
    let catalog = Catalog::new();
    let out = crawl(&catalog, &"Nobody".to_string(), 0);
    assert!(out.is_empty());
}

#[test]
fn a_two_cycle_terminates_and_yields_each_artist_once() {
    // A's collaborators contain B, B's contain A: the crawl must
    // terminate and return exactly {A, B}.
    let mut catalog = Catalog::new();
    catalog.add("A".to_string(), resolved("A", "id-a", &[("B", "id-b")]));
    catalog.add("B".to_string(), resolved("B", "id-b", &[("A", "id-a")]));

    let out = crawl(&catalog, &"A".to_string(), 5);
    assert_eq!(names_of(&out), vec!["A", "B"]);
}

#[test]
fn a_failing_branch_leaves_its_siblings_whole() {
    // X is not in the catalog: its branch yields nothing, but the crawl
    // still returns full results for X's siblings.
    let mut catalog = Catalog::new();
    catalog.add(
        "A".to_string(),
        resolved("A", "id-a", &[("X", "id-x"), ("B", "id-b"), ("C", "id-c")]),
    );
    catalog.add("B".to_string(), resolved("B", "id-b", &[("D", "id-d")]));
    catalog.add("C".to_string(), resolved("C", "id-c", &[]));
    catalog.add("D".to_string(), resolved("D", "id-d", &[]));

    let out = crawl(&catalog, &"A".to_string(), 3);
    assert_eq!(names_of(&out), vec!["A", "B", "D", "C"]);
}

#[test]
fn a_name_reachable_along_two_paths_appears_once() {
    let mut catalog = Catalog::new();
    catalog.add(
        "A".to_string(),
        resolved("A", "id-a", &[("B", "id-b"), ("C", "id-c")]),
    );
    catalog.add("B".to_string(), resolved("B", "id-b", &[("D", "id-d")]));
    catalog.add("C".to_string(), resolved("C", "id-c", &[("D", "id-d")]));
    catalog.add("D".to_string(), resolved("D", "id-d", &[]));

    let out = crawl(&catalog, &"A".to_string(), 4);
    assert_eq!(names_of(&out), vec!["A", "B", "D", "C"]);
}

#[test]
fn depth_bounds_the_walk() {
    let mut catalog = Catalog::new();
    catalog.add("A".to_string(), resolved("A", "id-a", &[("B", "id-b")]));
    catalog.add("B".to_string(), resolved("B", "id-b", &[("C", "id-c")]));
    catalog.add("C".to_string(), resolved("C", "id-c", &[("D", "id-d")]));
    catalog.add("D".to_string(), resolved("D", "id-d", &[]));

    let out = crawl(&catalog, &"A".to_string(), 1);
    assert_eq!(names_of(&out), vec!["A", "B"]);
}

#[test]
fn an_unresolved_artist_is_a_leaf() {
    // A catalog entry without a collaborator map offers no recursion.
    let mut catalog = Catalog::new();
    catalog.add("A".to_string(), credit("A", "id-a"));
    let out = crawl(&catalog, &"A".to_string(), 7);
    assert_eq!(names_of(&out), vec!["A"]);
}

#[test]
fn lookups_take_the_first_matching_entry() {
    let mut catalog = Catalog::new();
    catalog.add("A".to_string(), resolved("A", "id-first", &[]));
    catalog.add("A".to_string(), resolved("A", "id-second", &[]));
    let out = crawl(&catalog, &"A".to_string(), 2);
    assert_eq!(out.len(), 1);
    assert_eq!(out[0].id.as_str(), "id-first");
}

#[test]
fn search_can_return_a_differently_named_artist() {
    // The visited set is keyed by the queried name; the artist returned
    // for it keeps its own display name.
    let mut catalog = Catalog::new();
    catalog.add("beetles".to_string(), resolved("The Beatles", "id-b", &[]));
    let out = crawl(&catalog, &"beetles".to_string(), 2);
    assert_eq!(names_of(&out), vec!["The Beatles"]);
}

#[test]
fn identity_is_keyed_by_queried_name_not_display_name() {
    // Two distinct queries may return artists sharing a display name:
    // the visited set keys on the queries, so both artists are emitted.
    let mut catalog = Catalog::new();
    catalog.add(
        "A".to_string(),
        resolved("A", "id-a", &[("B", "id-b"), ("C", "id-c")]),
    );
    catalog.add("B".to_string(), resolved("Twin", "id-b", &[]));
    catalog.add("C".to_string(), resolved("Twin", "id-c", &[]));
    let out = crawl(&catalog, &"A".to_string(), 1);
    assert_eq!(names_of(&out), vec!["A", "Twin", "Twin"]);
    assert_eq!(out[1].id.as_str(), "id-b");
    assert_eq!(out[2].id.as_str(), "id-c");
}

#[test]
fn a_branch_whose_name_is_already_claimed_is_empty() {
    let mut catalog = Catalog::new();
    catalog.add("A".to_string(), resolved("A", "id-a", &[("B", "id-b")]));
    catalog.add("B".to_string(), resolved("B", "id-b", &[]));

    let mut visited = VisitedSet::new();
    assert!(visited.check_and_claim(&"A".to_string()));
    let out = collab_crawler::crawl_branch(&catalog, &"A".to_string(), 3, &mut visited);
    assert!(out.is_empty());

    // The sibling name B is still free and crawls in full.
    let out = collab_crawler::crawl_branch(&catalog, &"B".to_string(), 3, &mut visited);
    assert_eq!(names_of(&out), vec!["B"]);
}

#[test]
fn check_and_claim_is_first_come_first_served() {
    let mut visited = VisitedSet::new();
    let a = "A".to_string();
    assert!(!visited.contains(&a));
    assert!(visited.check_and_claim(&a));
    assert!(visited.contains(&a));
    assert!(!visited.check_and_claim(&a));
    assert_eq!(visited.count(), 1);
    assert!(visited.check_and_claim(&"B".to_string()));
    assert_eq!(visited.count(), 2);
}
