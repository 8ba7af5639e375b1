use ronix::library::LibraryError;
use ronix::scan::{build_library, cover_extension, ImageMime, TagEntry};

fn entry(title: &str, artist: &str, album: &str) -> TagEntry {
    TagEntry {
        path: format!("/music/{}.mp3", title),
        title: Some(title.to_string()),
        artist: Some(artist.to_string()),
        album: Some(album.to_string()),
        duration: 180,
        cover_art: None,
    }
}

#[test]
fn scan_deduplicates_artists_and_albums() {
    let entries = vec![
        entry("One More Time", "Daft Punk", "Discovery"),
        entry("Aerodynamic", "Daft Punk", "Discovery"),
        entry("Da Funk", "Daft Punk", "Homework"),
        entry("Windowlicker", "Aphex Twin", "Windowlicker"),
    ];
    let lib = build_library(&entries);
    assert_eq!(lib.artists.len(), 2);
    assert_eq!(lib.albums.len(), 3);
    assert_eq!(lib.songs.len(), 4);
    // Both Discovery songs hang off the same album, both albums off the
    // same artist.
    let one = lib.songs.iter().find(|s| s.title == "One More Time").unwrap();
    let aero = lib.songs.iter().find(|s| s.title == "Aerodynamic").unwrap();
    assert_eq!(one.album, aero.album);
    let discovery = lib.albums.iter().find(|a| a.id == one.album).unwrap();
    let homework = lib.albums.iter().find(|a| a.name == "Homework").unwrap();
    assert_eq!(discovery.artist, homework.artist);
    let daft = lib.artists.iter().find(|a| a.id == discovery.artist).unwrap();
    assert_eq!(daft.name, "Daft Punk");
}

#[test]
fn scan_same_album_name_different_artist_is_two_albums() {
    let entries = vec![
        entry("Intro A", "Artist A", "Greatest Hits"),
        entry("Intro B", "Artist B", "Greatest Hits"),
    ];
    let lib = build_library(&entries);
    assert_eq!(lib.artists.len(), 2);
    assert_eq!(lib.albums.len(), 2);
}

#[test]
fn scan_missing_tags_take_sentinels() {
    let entries = vec![TagEntry {
        path: "/music/untagged.mp3".to_string(),
        title: None,
        artist: None,
        album: None,
        duration: 30,
        cover_art: None,
    }];
    let lib = build_library(&entries);
    assert_eq!(lib.songs.len(), 1);
    assert_eq!(lib.songs[0].title, "Unknown");
    let album = lib.albums.iter().find(|a| a.id == lib.songs[0].album).unwrap();
    assert_eq!(album.name, "Unknown Album");
    let artist = lib.artists.iter().find(|a| a.id == album.artist).unwrap();
    assert_eq!(artist.name, "Unknown Artist");
}

#[test]
fn scan_album_takes_cover_of_first_file() {
    let mut first = entry("Track 1", "Band", "Record");
    first.cover_art = Some("/covers/first.png".to_string());
    let mut second = entry("Track 2", "Band", "Record");
    second.cover_art = Some("/covers/second.png".to_string());
    let lib = build_library(&vec![first, second]);
    assert_eq!(lib.albums.len(), 1);
    assert_eq!(lib.albums[0].cover_art.as_deref(), Some("/covers/first.png"));
}

#[test]
fn scan_song_fields_carry_over() {
    let mut e = entry("Da Funk", "Daft Punk", "Homework");
    e.duration = 331;
    let lib = build_library(&vec![e]);
    assert_eq!(lib.songs[0].title, "Da Funk");
    assert_eq!(lib.songs[0].path, "/music/Da Funk.mp3");
    assert_eq!(lib.songs[0].duration, 331);
}

#[test]
fn scan_of_nothing_is_empty() {
    let lib = build_library(&Vec::new());
    assert!(lib.artists.is_empty());
    assert!(lib.albums.is_empty());
    assert!(lib.songs.is_empty());
}

#[test]
fn delete_song_removes_exactly_one_entry() {
    let entries = vec![
        entry("One More Time", "Daft Punk", "Discovery"),
        entry("Aerodynamic", "Daft Punk", "Discovery"),
    ];
    let mut lib = build_library(&entries);
    let doomed = lib.songs.iter().find(|s| s.title == "One More Time").unwrap().id;
    let artists_before = lib.artists.len();
    let albums_before = lib.albums.len();
    assert_eq!(lib.delete_song(doomed), Ok(()));
    assert_eq!(lib.songs.len(), 1);
    assert_eq!(lib.songs[0].title, "Aerodynamic");
    assert_eq!(lib.artists.len(), artists_before);
    assert_eq!(lib.albums.len(), albums_before);
}

#[test]
fn delete_song_unknown_id_is_not_found_and_no_mutation() {
    let entries = vec![entry("One More Time", "Daft Punk", "Discovery")];
    let mut lib = build_library(&entries);
    assert_eq!(lib.delete_song(999_999), Err(LibraryError::SongNotFound));
    assert_eq!(lib.songs.len(), 1);
    assert_eq!(lib.artists.len(), 1);
    assert_eq!(lib.albums.len(), 1);
}

#[test]
fn snapshot_clone_is_a_full_copy() {
    let entries = vec![entry("Da Funk", "Daft Punk", "Homework")];
    let mut lib = build_library(&entries);
    let held = lib.clone();
    let id = lib.songs[0].id;
    assert_eq!(lib.delete_song(id), Ok(()));
    // The reader's snapshot is untouched by the later mutation.
    assert_eq!(held.songs.len(), 1);
    assert_eq!(held.songs[0].title, "Da Funk");
}

#[test]
fn cover_extension_known_and_unknown_types() {
    assert_eq!(cover_extension(&ImageMime::Bmp), "bmp");
    assert_eq!(cover_extension(&ImageMime::Jpeg), "jpg");
    assert_eq!(cover_extension(&ImageMime::Png), "png");
    assert_eq!(cover_extension(&ImageMime::Tiff), "tiff");
    assert_eq!(cover_extension(&ImageMime::OtherKnown), "jpg");
    assert_eq!(cover_extension(&ImageMime::Unknown("image/webp".to_string())), "webp");
    assert_eq!(cover_extension(&ImageMime::Unknown("webp".to_string())), "webp");
    assert_eq!(cover_extension(&ImageMime::Unknown("image/".to_string())), "");
}
