//! Tests of the data model: the collaborator map, artists, and the
//! catalog client's pure parts.

use collab_crawler::{entity_url, first_artist, Album, Artist, Artists, CollabMap, Entity, Error, Song};

#[test]
fn collab_map_inserts_and_looks_up() {
    let mut map = CollabMap::new();
    assert_eq!(map.len(), 0);
    map.insert("Ana".to_string(), "a1".to_string());
    map.insert("Ben".to_string(), "b1".to_string());
    assert_eq!(map.len(), 2);
    assert!(map.contains(&"Ana".to_string()));
    assert!(!map.contains(&"Cal".to_string()));
    assert_eq!(map.id_of(&"Ben".to_string()), Some(&"b1".to_string()));
    assert_eq!(map.id_of(&"Cal".to_string()), None);
}

#[test]
fn collab_map_insert_is_last_write_wins_in_place() {
    let mut map = CollabMap::new();
    map.insert("Ana".to_string(), "a1".to_string());
    map.insert("Ben".to_string(), "b1".to_string());
    map.insert("Ana".to_string(), "a2".to_string());
    assert_eq!(map.len(), 2);
    assert_eq!(map.name_at(0).as_str(), "Ana");
    assert_eq!(map.id_at(0).as_str(), "a2");
    assert_eq!(map.name_at(1).as_str(), "Ben");
}

#[test]
fn collab_map_clone_keeps_pairs_and_order() {
    let mut map = CollabMap::new();
    map.insert("Ana".to_string(), "a1".to_string());
    map.insert("Ben".to_string(), "b1".to_string());
    let copy = map.clone();
    assert_eq!(copy.len(), 2);
    assert_eq!(copy.name_at(0).as_str(), "Ana");
    assert_eq!(copy.id_at(1).as_str(), "b1");
}

#[test]
fn an_artist_is_resolved_at_most_once() {
    let artist = Artist::new("id-a".to_string(), "Ana".to_string());
    assert!(artist.collaborators.is_none());
    let mut map = CollabMap::new();
    map.insert("Ben".to_string(), "b1".to_string());
    let artist = artist.attach_collaborators(map);
    let attached = artist.collaborators.as_ref().unwrap();
    assert_eq!(attached.id_of(&"Ben".to_string()), Some(&"b1".to_string()));
    let copy = artist.clone();
    assert_eq!(copy.name.as_str(), "Ana");
    assert!(copy.collaborators.is_some());
}

#[test]
fn an_album_may_carry_its_song_list() {
    let album = Album { id: "al-1".to_string(), name: "Album One".to_string(), songs: None };
    assert!(album.songs.is_none());
    let song = Song {
        id: "s-1".to_string(),
        name: "Song One".to_string(),
        artists: vec![Artist::new("id-a".to_string(), "Ana".to_string())],
    };
    let album = Album { songs: Some(vec![song]), ..album };
    let songs = album.songs.as_ref().unwrap();
    assert_eq!(songs.len(), 1);
    assert_eq!(songs[0].artists[0].name.as_str(), "Ana");
}

#[test]
fn search_selects_the_first_result() {
    let results = Artists {
        items: vec![
            Artist::new("id-1".to_string(), "First".to_string()),
            Artist::new("id-2".to_string(), "Second".to_string()),
        ],
    };
    let found = first_artist(results).unwrap();
    assert_eq!(found.id.as_str(), "id-1");
    assert_eq!(found.name.as_str(), "First");
}

#[test]
fn an_empty_result_set_is_not_found() {
    let results = Artists { items: Vec::new() };
    match first_artist(results) {
        Err(Error::NotFound) => {}
        _ => panic!("an empty result set must be NotFound"),
    }
}

#[test]
fn error_variants_carry_their_labels() {
    assert_eq!(Error::NetworkFailure.label(), "network failure");
    assert_eq!(Error::UpstreamStatus(503).label(), "upstream status");
    assert_eq!(Error::NotFound.label(), "not found");
    assert!(matches!(Error::UpstreamStatus(503), Error::UpstreamStatus(s) if s == 503));
}

#[test]
fn entity_urls_join_the_walk_segments() {
    assert_eq!(
        entity_url(&Entity::Artists, "id-a", &Entity::Albums),
        "https://api.spotify.com/v1/artists/id-a/albums"
    );
    assert_eq!(
        entity_url(&Entity::Albums, "id-b", &Entity::Songs),
        "https://api.spotify.com/v1/albums/id-b/tracks"
    );
    assert_eq!(Entity::Songs.segment(), "tracks");
    assert_eq!(Entity::Artists.segment(), "artists");
}
