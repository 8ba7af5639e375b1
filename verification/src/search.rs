use vstd::prelude::*;
use vstd::string::StrSliceExecFns;
use crate::library::{ArtistModel, AlbumModel, SongModel, Library, LibraryModel};
use crate::queue::ids_of;

verus! {

/// What a search answers: mode `Library` ranks artists, albums and songs
/// independently; mode `Songs` folds album and artist hits into one song
/// list.
#[derive(Clone, Copy, PartialEq, Eq, Structural, Debug)]
pub enum SearchMode {
    Library,
    Songs,
}

/// Matched ids, in snapshot order. `artists` and `albums` are filled for
/// mode `Library` only.
pub struct SearchResults {
    pub artists: Option<Vec<u64>>,
    pub albums: Option<Vec<u64>>,
    pub songs: Vec<u64>,
}

/// Queries longer than this are cut off before matching.
pub const QUERY_LIMIT: usize = 32;

/// ASCII letters fold to lower case; every other character stands.
pub open spec fn lower_char(c: char) -> char {
    if 65 <= (c as u32) && (c as u32) <= 90 {
        (((c as u8) + 32) as char)
    } else {
        c
    }
}

pub open spec fn lower(s: Seq<char>) -> Seq<char> {
    s.map_values(|c: char| lower_char(c))
}

/// The needle sits in the haystack starting at position `i`.
pub open spec fn is_substring_at(hay: Seq<char>, needle: Seq<char>, i: int) -> bool {
    0 <= i && i + needle.len() <= hay.len() && hay.subrange(i, i + needle.len()) == needle
}

pub open spec fn contains_sub(hay: Seq<char>, needle: Seq<char>) -> bool {
    exists|i: int| is_substring_at(hay, needle, i)
}

/// What a query is matched by: folded to lower case and cut to
/// `QUERY_LIMIT` characters.
pub open spec fn query_key(q: Seq<char>) -> Seq<char> {
    if q.len() > QUERY_LIMIT {
        lower(q.subrange(0, QUERY_LIMIT as int))
    } else {
        lower(q)
    }
}

/// The match relation: the folded, cut query occurs somewhere in the
/// folded name.
pub open spec fn name_matches(name: Seq<char>, q: Seq<char>) -> bool {
    contains_sub(lower(name), query_key(q))
}

pub open spec fn matching_artists_upto(l: LibraryModel, q: Seq<char>, n: int) -> Seq<ArtistModel> {
    l.artists.subrange(0, n).filter(|a: ArtistModel| name_matches(a.name, q))
}

/// The artists whose names match the query, in snapshot order.
pub open spec fn matching_artist_ids(l: LibraryModel, q: Seq<char>) -> Seq<u64> {
    matching_artists_upto(l, q, l.artists.len() as int).map_values(|a: ArtistModel| a.id)
}

pub open spec fn matching_albums_upto(l: LibraryModel, q: Seq<char>, n: int) -> Seq<AlbumModel> {
    l.albums.subrange(0, n).filter(|a: AlbumModel| name_matches(a.name, q))
}

/// The albums whose names match the query, in snapshot order.
pub open spec fn matching_album_ids(l: LibraryModel, q: Seq<char>) -> Seq<u64> {
    matching_albums_upto(l, q, l.albums.len() as int).map_values(|a: AlbumModel| a.id)
}

pub open spec fn matching_songs_upto(l: LibraryModel, q: Seq<char>, n: int) -> Seq<SongModel> {
    l.songs.subrange(0, n).filter(|s: SongModel| name_matches(s.title, q))
}

/// The songs whose titles match the query, in snapshot order.
pub open spec fn matching_song_ids(l: LibraryModel, q: Seq<char>) -> Seq<u64> {
    ids_of(matching_songs_upto(l, q, l.songs.len() as int))
}

/// A song counts as hit when its title, its album's name or its album's
/// artist's name matches.
pub open spec fn song_hit(l: LibraryModel, s: SongModel, q: Seq<char>) -> bool {
    ||| name_matches(s.title, q)
    ||| name_matches(l.album_of(s.album).name, q)
    ||| name_matches(l.artist_of(l.album_of(s.album).artist).name, q)
}

pub open spec fn song_hits_upto(l: LibraryModel, q: Seq<char>, n: int) -> Seq<SongModel> {
    l.songs.subrange(0, n).filter(|s: SongModel| song_hit(l, s, q))
}

/// The union for mode `Songs`: fuzzy song matches, songs of matched
/// albums, and songs of matched artists — walking the songs once keeps
/// the union free of duplicates.
pub open spec fn song_hit_ids(l: LibraryModel, q: Seq<char>) -> Seq<u64> {
    ids_of(song_hits_upto(l, q, l.songs.len() as int))
}

/// Folds one character to lower case.
fn lower_char_exec(c: char) -> (r: char)
    ensures
        r == lower_char(c),
{
    let u = c as u32;
    if 65 <= u && u <= 90 {
        ((c as u8) + 32) as char
    } else {
        c
    }
}

/// Folds a string to a lower-cased character vector.
fn lower_chars(s: &str) -> (v: Vec<char>)
    ensures
        v@ == lower(s@),
{
    let n = s.unicode_len();
    let mut v: Vec<char> = Vec::new();
    for i in 0..n
        invariant
            n == s@.len(),
            v@.len() == i,
            forall|j: int| 0 <= j < i ==> #[trigger] v@[j] == lower_char(s@[j]),
    {
        v.push(lower_char_exec(s.get_char(i)));
    }
    proof {
        assert(v@ =~= lower(s@));
    }
    v
}

/// Naive substring search over folded characters.
fn contains_chars(hay: &Vec<char>, needle: &Vec<char>) -> (r: bool)
    ensures
        r == contains_sub(hay@, needle@),
{
    let nlen = needle.len();
    let hlen = hay.len();
    if nlen > hlen {
        proof {
            assert forall|i: int| !is_substring_at(hay@, needle@, i) by {}
        }
        return false;
    }
    let mut i: usize = 0;
    while i <= hlen - nlen
        invariant
            nlen == needle@.len(),
            hlen == hay@.len(),
            nlen <= hlen,
            i <= hlen - nlen + 1,
            forall|p: int| 0 <= p < i ==> !is_substring_at(hay@, needle@, p),
        decreases hlen - nlen - i + 1,
    {
        let mut j: usize = 0;
        while j < nlen && hay[i + j] == needle[j]
            invariant
                nlen == needle@.len(),
                hlen == hay@.len(),
                i + nlen <= hlen,
                j <= nlen,
                forall|p: int| 0 <= p < j ==> #[trigger] hay@[i + p] == needle@[p],
            decreases nlen - j,
        {
            j = j + 1;
        }
        if j == nlen {
            proof {
                assert forall|p: int|
                    0 <= p < nlen implies hay@.subrange(i as int, i as int + nlen)[p]
                    == needle@[p] by {
                    assert(hay@[i + p] == needle@[p]);
                }
                assert(hay@.subrange(i as int, i as int + nlen) =~= needle@);
                assert(is_substring_at(hay@, needle@, i as int));
            }
            return true;
        }
        proof {
            assert(!is_substring_at(hay@, needle@, i as int)) by {
                if is_substring_at(hay@, needle@, i as int) {
                    assert(hay@.subrange(i as int, i as int + nlen)[j as int] == needle@[j as int]);
                }
            }
        }
        i = i + 1;
    }
    proof {
        assert forall|p: int| !is_substring_at(hay@, needle@, p) by {
            if 0 <= p < i {
            } else if p > hlen - nlen {
            }
        }
    }
    false
}

/// Whether a stored name matches the prepared query key.
fn matches_key(name: &String, key: &Vec<char>, ghost_query: Ghost<Seq<char>>) -> (r: bool)
    requires
        key@ == query_key(ghost_query@),
    ensures
        r == name_matches(name@, ghost_query@),
{
    let folded = lower_chars(name.as_str());
    contains_chars(&folded, key)
}

/// Prepares the query key: folded to lower case and cut to `QUERY_LIMIT`
/// characters.
fn prepare_key(query: &String) -> (key: Vec<char>)
    ensures
        key@ == query_key(query@),
{
    let mut key = lower_chars(query.as_str());
    if key.len() > QUERY_LIMIT {
        key.truncate(QUERY_LIMIT);
        proof {
            assert(lower(query@).subrange(0, QUERY_LIMIT as int) =~= lower(
                query@.subrange(0, QUERY_LIMIT as int),
            ));
        }
    }
    key
}

/// Runs the approximate match over one snapshot: case-insensitively, on
/// at most the first `QUERY_LIMIT` characters of the query. Mode
/// `Library` answers three independent id lists, in snapshot order (no
/// ranking beyond that is attempted). Mode `Songs` answers one
/// duplicate-free list: songs matched by title, by their album's name, or
/// by their album's artist's name. An empty query deterministically
/// matches nothing at all.
pub fn search(library: &Library, query: &String, mode: SearchMode) -> (r: SearchResults)
    requires
        library.wf(),
    ensures
        query@.len() == 0 ==> r.artists is None && r.albums is None && r.songs@
            == Seq::<u64>::empty(),
        query@.len() > 0 && mode is Library ==> (r.artists matches Some(a) && a@
            == matching_artist_ids(library@, query@)) && (r.albums matches Some(al) && al@
            == matching_album_ids(library@, query@)) && r.songs@ == matching_song_ids(
            library@,
            query@,
        ),
        query@.len() > 0 && mode is Songs ==> r.artists is None && r.albums is None && r.songs@
            == song_hit_ids(library@, query@),
{
    if query.as_str().is_empty() {
        return SearchResults { artists: None, albums: None, songs: Vec::new() };
    }
    let key = prepare_key(query);
    let ghost q = query@;
    let ghost lm = library@;
    match mode {
        SearchMode::Library => {
            let mut artist_ids: Vec<u64> = Vec::new();
            let an = library.artists.len();
            proof {
                reveal(Seq::filter);
                assert(lm.artists.subrange(0, 0) =~= Seq::<ArtistModel>::empty());
                assert(artist_ids@ =~= matching_artists_upto(lm, q, 0).map_values(
                    |a: ArtistModel| a.id,
                ));
            }
            for i in 0..an
                invariant
                    an == library.artists@.len(),
                    key@ == query_key(q),
                    lm == library@,
                    artist_ids@ == matching_artists_upto(lm, q, i as int).map_values(
                        |a: ArtistModel| a.id,
                    ),
            {
                let hit = matches_key(&library.artists[i].name, &key, Ghost(q));
                if hit {
                    artist_ids.push(library.artists[i].id);
                }
                proof {
                    reveal(Seq::filter);
                    assert(lm.artists.subrange(0, i as int + 1).drop_last() =~= lm.artists.subrange(
                        0,
                        i as int,
                    ));
                    assert(lm.artists.subrange(0, i as int + 1).last() == lm.artists[i as int]);
                    assert(artist_ids@ =~= matching_artists_upto(lm, q, i as int + 1).map_values(
                        |a: ArtistModel| a.id,
                    ));
                }
            }
            let mut album_ids: Vec<u64> = Vec::new();
            let aln = library.albums.len();
            proof {
                reveal(Seq::filter);
                assert(lm.albums.subrange(0, 0) =~= Seq::<AlbumModel>::empty());
                assert(album_ids@ =~= matching_albums_upto(lm, q, 0).map_values(
                    |a: AlbumModel| a.id,
                ));
            }
            for i in 0..aln
                invariant
                    aln == library.albums@.len(),
                    key@ == query_key(q),
                    lm == library@,
                    album_ids@ == matching_albums_upto(lm, q, i as int).map_values(
                        |a: AlbumModel| a.id,
                    ),
            {
                let hit = matches_key(&library.albums[i].name, &key, Ghost(q));
                if hit {
                    album_ids.push(library.albums[i].id);
                }
                proof {
                    reveal(Seq::filter);
                    assert(lm.albums.subrange(0, i as int + 1).drop_last() =~= lm.albums.subrange(
                        0,
                        i as int,
                    ));
                    assert(lm.albums.subrange(0, i as int + 1).last() == lm.albums[i as int]);
                    assert(album_ids@ =~= matching_albums_upto(lm, q, i as int + 1).map_values(
                        |a: AlbumModel| a.id,
                    ));
                }
            }
            let mut song_ids: Vec<u64> = Vec::new();
            let sn = library.songs.len();
            proof {
                reveal(Seq::filter);
                assert(lm.songs.subrange(0, 0) =~= Seq::<SongModel>::empty());
                assert(song_ids@ =~= ids_of(matching_songs_upto(lm, q, 0)));
            }
            for i in 0..sn
                invariant
                    sn == library.songs@.len(),
                    key@ == query_key(q),
                    lm == library@,
                    song_ids@ == ids_of(matching_songs_upto(lm, q, i as int)),
            {
                let hit = matches_key(&library.songs[i].title, &key, Ghost(q));
                if hit {
                    song_ids.push(library.songs[i].id);
                }
                proof {
                    reveal(Seq::filter);
                    assert(lm.songs.subrange(0, i as int + 1).drop_last() =~= lm.songs.subrange(
                        0,
                        i as int,
                    ));
                    assert(lm.songs.subrange(0, i as int + 1).last() == lm.songs[i as int]);
                    assert(song_ids@ =~= ids_of(matching_songs_upto(lm, q, i as int + 1)));
                }
            }
            SearchResults { artists: Some(artist_ids), albums: Some(album_ids), songs: song_ids }
        },
        SearchMode::Songs => {
            let mut song_ids: Vec<u64> = Vec::new();
            let sn = library.songs.len();
            proof {
                reveal(Seq::filter);
                assert(lm.songs.subrange(0, 0) =~= Seq::<SongModel>::empty());
                assert(song_ids@ =~= ids_of(song_hits_upto(lm, q, 0)));
            }
            for i in 0..sn
                invariant
                    sn == library.songs@.len(),
                    key@ == query_key(q),
                    lm == library@,
                    library.wf(),
                    song_ids@ == ids_of(song_hits_upto(lm, q, i as int)),
            {
                let song = &library.songs[i];
                let mut hit = matches_key(&song.title, &key, Ghost(q));
                if !hit {
                    proof {
                        assert(lm.has_album(lm.songs[i as int].album));
                    }
                    match library.get_album(song.album) {
                        Some(album) => {
                            hit = matches_key(&album.name, &key, Ghost(q));
                            if !hit {
                                proof {
                                    lm.lemma_album_index_is(lm.album_index(album.id));
                                    assert(lm.has_artist(lm.album_of(album.id).artist));
                                }
                                match library.get_artist(album.artist) {
                                    Some(artist) => {
                                        hit = matches_key(&artist.name, &key, Ghost(q));
                                    },
                                    None => {
                                        proof {
                                            assert(false);
                                        }
                                    },
                                }
                            }
                        },
                        None => {
                            proof {
                                assert(false);
                            }
                        },
                    }
                }
                proof {
                    assert(hit == song_hit(lm, lm.songs[i as int], q));
                }
                if hit {
                    song_ids.push(song.id);
                }
                proof {
                    reveal(Seq::filter);
                    assert(lm.songs.subrange(0, i as int + 1).drop_last() =~= lm.songs.subrange(
                        0,
                        i as int,
                    ));
                    assert(lm.songs.subrange(0, i as int + 1).last() == lm.songs[i as int]);
                    assert(song_ids@ =~= ids_of(song_hits_upto(lm, q, i as int + 1)));
                }
            }
            SearchResults { artists: None, albums: None, songs: song_ids }
        },
    }
}

} // verus!
