use ronix::library::Library;
use ronix::scan::{build_library, TagEntry};
use ronix::search::{search, SearchMode, QUERY_LIMIT};

fn entry(title: &str, artist: &str, album: &str) -> TagEntry {
    TagEntry {
        path: format!("/music/{}.mp3", title),
        title: Some(title.to_string()),
        artist: Some(artist.to_string()),
        album: Some(album.to_string()),
        duration: 180,
        cover_art: None,
    }
}

fn demo_library() -> Library {
    build_library(&vec![
        entry("One More Time", "Daft Punk", "Discovery"),
        entry("Aerodynamic", "Daft Punk", "Discovery"),
        entry("Da Funk", "Daft Punk", "Homework"),
        entry("Windowlicker", "Aphex Twin", "Windowlicker"),
    ])
}

fn song_id(lib: &Library, title: &str) -> u64 {
    lib.songs.iter().find(|s| s.title == title).unwrap().id
}

#[test]
fn empty_query_matches_nothing() {
    let lib = demo_library();
    let r = search(&lib, &"".to_string(), SearchMode::Library);
    assert!(r.artists.is_none());
    assert!(r.albums.is_none());
    assert!(r.songs.is_empty());
    let r2 = search(&lib, &"".to_string(), SearchMode::Songs);
    assert!(r2.songs.is_empty());
}

#[test]
fn library_mode_ranks_the_three_kinds_independently() {
    let lib = demo_library();
    let r = search(&lib, &"disco".to_string(), SearchMode::Library);
    let discovery = lib.albums.iter().find(|a| a.name == "Discovery").unwrap().id;
    assert_eq!(r.artists.unwrap(), Vec::<u64>::new());
    assert_eq!(r.albums.unwrap(), vec![discovery]);
    assert_eq!(r.songs, Vec::<u64>::new());
}

#[test]
fn matching_is_case_insensitive() {
    let lib = demo_library();
    let r = search(&lib, &"AERO".to_string(), SearchMode::Songs);
    assert_eq!(r.songs, vec![song_id(&lib, "Aerodynamic")]);
}

#[test]
fn songs_mode_unions_album_and_artist_hits() {
    let lib = demo_library();
    // "daft" matches no title but the artist: all three Daft Punk songs,
    // each once, and nothing of Aphex Twin.
    let r = search(&lib, &"daft".to_string(), SearchMode::Songs);
    assert_eq!(
        r.songs,
        vec![
            song_id(&lib, "One More Time"),
            song_id(&lib, "Aerodynamic"),
            song_id(&lib, "Da Funk"),
        ]
    );
    assert!(r.artists.is_none());
    assert!(r.albums.is_none());
    // An album hit folds in only that album's songs.
    let r2 = search(&lib, &"homework".to_string(), SearchMode::Songs);
    assert_eq!(r2.songs, vec![song_id(&lib, "Da Funk")]);
}

#[test]
fn songs_mode_keeps_title_hits() {
    let lib = demo_library();
    let r = search(&lib, &"window".to_string(), SearchMode::Songs);
    assert_eq!(r.songs, vec![song_id(&lib, "Windowlicker")]);
}

#[test]
fn query_is_cut_to_its_limit() {
    let long_title = "a".repeat(QUERY_LIMIT);
    let lib = build_library(&vec![entry(&long_title, "Band", "Record")]);
    // One character beyond the limit is ignored, so the cut query still
    // fits the title.
    let over_long = "a".repeat(QUERY_LIMIT + 1);
    let r = search(&lib, &over_long, SearchMode::Songs);
    assert_eq!(r.songs, vec![song_id(&lib, &long_title)]);
}

#[test]
fn no_hit_means_empty_lists() {
    let lib = demo_library();
    let r = search(&lib, &"zzz".to_string(), SearchMode::Songs);
    assert!(r.songs.is_empty());
}
