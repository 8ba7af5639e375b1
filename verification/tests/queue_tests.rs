use ronix::library::{Library, LibraryError};
use ronix::queue::get_automatic_next_songs;
use ronix::scan::{build_library, TagEntry};
use ronix::PlayerScope;

fn entry(title: &str, artist: &str, album: &str) -> TagEntry {
    TagEntry {
        path: format!("/music/{}.mp3", title),
        title: Some(title.to_string()),
        artist: Some(artist.to_string()),
        album: Some(album.to_string()),
        duration: 180,
        cover_art: None,
    }
}

fn song_id(lib: &Library, title: &str) -> u64 {
    lib.songs.iter().find(|s| s.title == title).unwrap().id
}

#[test]
fn next_songs_rotate_descending_from_current() {
    // Descending order of the titles is [Zeta, Mid, Alpha]. Starting from
    // Mid and rotating, what remains is [Alpha, Zeta]; callers pop from
    // the end, so Zeta plays next, then Alpha.
    let lib = build_library(&vec![
        entry("Alpha", "Band", "Record"),
        entry("Mid", "Band", "Record"),
        entry("Zeta", "Band", "Record"),
    ]);
    let mid = song_id(&lib, "Mid");
    let queue = get_automatic_next_songs(&lib, mid, false, PlayerScope::Library).unwrap();
    assert_eq!(queue, vec![song_id(&lib, "Alpha"), song_id(&lib, "Zeta")]);
}

#[test]
fn next_songs_wrap_around_from_the_ends() {
    let lib = build_library(&vec![
        entry("Alpha", "Band", "Record"),
        entry("Mid", "Band", "Record"),
        entry("Zeta", "Band", "Record"),
    ]);
    let alpha = song_id(&lib, "Alpha");
    let mid = song_id(&lib, "Mid");
    let zeta = song_id(&lib, "Zeta");
    // Alpha is last in descending order: the queue wraps to the front.
    assert_eq!(
        get_automatic_next_songs(&lib, alpha, false, PlayerScope::Library).unwrap(),
        vec![zeta, mid]
    );
    // Zeta is first: everything after it follows in descending order.
    assert_eq!(
        get_automatic_next_songs(&lib, zeta, false, PlayerScope::Library).unwrap(),
        vec![mid, alpha]
    );
}

#[test]
fn next_songs_cover_scope_exactly_once() {
    let lib = build_library(&vec![
        entry("A", "Band", "Record"),
        entry("B", "Band", "Record"),
        entry("C", "Band", "Record"),
        entry("D", "Band", "Record"),
        entry("E", "Band", "Record"),
    ]);
    let c = song_id(&lib, "C");
    let queue = get_automatic_next_songs(&lib, c, false, PlayerScope::Library).unwrap();
    assert_eq!(queue.len(), 4);
    for title in ["A", "B", "D", "E"] {
        let id = song_id(&lib, title);
        assert_eq!(queue.iter().filter(|q| **q == id).count(), 1);
    }
    assert!(!queue.contains(&c));
}

#[test]
fn next_songs_album_scope_filters() {
    let lib = build_library(&vec![
        entry("One More Time", "Daft Punk", "Discovery"),
        entry("Aerodynamic", "Daft Punk", "Discovery"),
        entry("Da Funk", "Daft Punk", "Homework"),
    ]);
    let one = song_id(&lib, "One More Time");
    let discovery = lib.albums.iter().find(|a| a.name == "Discovery").unwrap().id;
    let queue =
        get_automatic_next_songs(&lib, one, false, PlayerScope::Album(discovery)).unwrap();
    assert_eq!(queue, vec![song_id(&lib, "Aerodynamic")]);
}

#[test]
fn next_songs_artist_scope_filters() {
    let lib = build_library(&vec![
        entry("One More Time", "Daft Punk", "Discovery"),
        entry("Da Funk", "Daft Punk", "Homework"),
        entry("Windowlicker", "Aphex Twin", "Windowlicker"),
    ]);
    let one = song_id(&lib, "One More Time");
    let daft = lib.artists.iter().find(|a| a.name == "Daft Punk").unwrap().id;
    let queue = get_automatic_next_songs(&lib, one, false, PlayerScope::Artist(daft)).unwrap();
    assert_eq!(queue, vec![song_id(&lib, "Da Funk")]);
}

#[test]
fn next_songs_current_outside_scope_is_an_error() {
    let lib = build_library(&vec![
        entry("One More Time", "Daft Punk", "Discovery"),
        entry("Windowlicker", "Aphex Twin", "Windowlicker"),
    ]);
    let one = song_id(&lib, "One More Time");
    let aphex = lib.artists.iter().find(|a| a.name == "Aphex Twin").unwrap().id;
    assert_eq!(
        get_automatic_next_songs(&lib, one, false, PlayerScope::Artist(aphex)),
        Err(LibraryError::SongNotInScope)
    );
    // A made-up id is outside every scope.
    assert_eq!(
        get_automatic_next_songs(&lib, 424_242, false, PlayerScope::Library),
        Err(LibraryError::SongNotInScope)
    );
}

#[test]
fn next_songs_single_song_scope_is_empty() {
    let lib = build_library(&vec![entry("Alone", "Band", "Record")]);
    let id = song_id(&lib, "Alone");
    let queue = get_automatic_next_songs(&lib, id, false, PlayerScope::Library).unwrap();
    assert!(queue.is_empty());
}

#[test]
fn shuffled_next_songs_hold_the_same_ids() {
    let lib = build_library(&vec![
        entry("A", "Band", "Record"),
        entry("B", "Band", "Record"),
        entry("C", "Band", "Record"),
        entry("D", "Band", "Record"),
        entry("E", "Band", "Record"),
        entry("F", "Band", "Record"),
    ]);
    let c = song_id(&lib, "C");
    let mut queue = get_automatic_next_songs(&lib, c, true, PlayerScope::Library).unwrap();
    let mut expected: Vec<u64> = ["A", "B", "D", "E", "F"]
        .iter()
        .map(|t| song_id(&lib, t))
        .collect();
    queue.sort();
    expected.sort();
    assert_eq!(queue, expected);
}
