use vstd::prelude::*;
use vstd::string::StringExecFns;
use crate::library::{Artist, ArtistModel, Album, AlbumModel, Song, SongModel, Library, LibraryModel};

verus! {

/// What tag extraction reads out of one audio file: the raw tag fields
/// (absent ones stay `None` here; the indexer fills in the sentinel
/// strings), the duration in whole seconds, and the path of artwork the
/// extractor wrote for the file's first embedded picture, if any.
pub struct TagEntry {
    pub path: String,
    pub title: Option<String>,
    pub artist: Option<String>,
    pub album: Option<String>,
    pub duration: u32,
    pub cover_art: Option<String>,
}

/// The mathematical value of a `TagEntry`.
pub struct TagEntryModel {
    pub path: Seq<char>,
    pub title: Option<Seq<char>>,
    pub artist: Option<Seq<char>>,
    pub album: Option<Seq<char>>,
    pub duration: u32,
    pub cover_art: Option<Seq<char>>,
}

impl View for TagEntry {
    type V = TagEntryModel;

    open spec fn view(&self) -> TagEntryModel {
        TagEntryModel {
            path: self.path@,
            title: crate::library::opt_chars(self.title),
            artist: crate::library::opt_chars(self.artist),
            album: crate::library::opt_chars(self.album),
            duration: self.duration,
            cover_art: crate::library::opt_chars(self.cover_art),
        }
    }
}

pub open spec fn entry_models(es: Seq<TagEntry>) -> Seq<TagEntryModel> {
    es.map_values(|e: TagEntry| e@)
}

/// A file with no title is indexed under this sentinel.
pub open spec fn entry_title(e: TagEntryModel) -> Seq<char> {
    match e.title {
        Some(t) => t,
        None => "Unknown"@,
    }
}

pub open spec fn entry_artist(e: TagEntryModel) -> Seq<char> {
    match e.artist {
        Some(t) => t,
        None => "Unknown Artist"@,
    }
}

pub open spec fn entry_album(e: TagEntryModel) -> Seq<char> {
    match e.album {
        Some(t) => t,
        None => "Unknown Album"@,
    }
}

/// The first already-seen artist with exactly this name, in scan order.
pub open spec fn find_artist(artists: Seq<ArtistModel>, name: Seq<char>) -> Option<ArtistModel>
    decreases artists.len(),
{
    if artists.len() == 0 {
        None
    } else if artists[0].name == name {
        Some(artists[0])
    } else {
        find_artist(artists.drop_first(), name)
    }
}

/// The first already-seen album with exactly this artist and name.
pub open spec fn find_album(albums: Seq<AlbumModel>, artist: u64, name: Seq<char>) -> Option<
    AlbumModel,
>
    decreases albums.len(),
{
    if albums.len() == 0 {
        None
    } else if albums[0].artist == artist && albums[0].name == name {
        Some(albums[0])
    } else {
        find_album(albums.drop_first(), artist, name)
    }
}

/// The id the next mint hands out: ids count up from 1, one per item.
pub open spec fn next_id(m: LibraryModel) -> int {
    1 + m.artists.len() + m.albums.len() + m.songs.len() as int
}

/// Resolves an artist name against the already-seen artists, minting a
/// fresh one on a miss. Yields the resolved id and the updated snapshot.
pub open spec fn resolve_artist(m: LibraryModel, name: Seq<char>) -> (u64, LibraryModel) {
    match find_artist(m.artists, name) {
        Some(a) => (a.id, m),
        None => (
            next_id(m) as u64,
            LibraryModel {
                artists: m.artists.push(ArtistModel { id: next_id(m) as u64, name: name }),
                ..m
            },
        ),
    }
}

/// Resolves an (artist id, album name) pair, minting a fresh album on a
/// miss; only a fresh album takes the entry's artwork.
pub open spec fn resolve_album(
    m: LibraryModel,
    artist: u64,
    name: Seq<char>,
    cover: Option<Seq<char>>,
) -> (u64, LibraryModel) {
    match find_album(m.albums, artist, name) {
        Some(al) => (al.id, m),
        None => (
            next_id(m) as u64,
            LibraryModel {
                albums: m.albums.push(
                    AlbumModel {
                        id: next_id(m) as u64,
                        name: name,
                        cover_art: cover,
                        artist: artist,
                    },
                ),
                ..m
            },
        ),
    }
}

/// One step of the scan: resolve (or mint) the entry's artist, then its
/// album, then insert one song linked to the resolved album.
pub open spec fn scan_step(m: LibraryModel, e: TagEntryModel) -> LibraryModel {
    let (artist_id, m1) = resolve_artist(m, entry_artist(e));
    let (album_id, m2) = resolve_album(m1, artist_id, entry_album(e), e.cover_art);
    LibraryModel {
        songs: m2.songs.push(
            SongModel {
                id: next_id(m2) as u64,
                title: entry_title(e),
                path: e.path,
                duration: e.duration,
                album: album_id,
            },
        ),
        ..m2
    }
}

/// The snapshot a scan of these entries builds, in order.
pub open spec fn scan_model(entries: Seq<TagEntryModel>) -> LibraryModel
    decreases entries.len(),
{
    if entries.len() == 0 {
        LibraryModel {
            artists: Seq::empty(),
            albums: Seq::empty(),
            songs: Seq::empty(),
        }
    } else {
        scan_step(scan_model(entries.drop_last()), entries.last())
    }
}

/// Scans larger than this are not indexed; it keeps the id mint far from
/// the top of `u64`.
pub const SCAN_LIMIT: usize = 0x1000_0000;

/// What `find_artist` answers: `None` means no artist carries the name; a
/// hit is a member carrying it.
pub proof fn lemma_find_artist_ensures(artists: Seq<ArtistModel>, name: Seq<char>)
    ensures
        match find_artist(artists, name) {
            Some(a) => a.name == name && exists|i: int|
                0 <= i < artists.len() && artists[i] == a,
            None => forall|i: int| 0 <= i < artists.len() ==> #[trigger] artists[i].name != name,
        },
    decreases artists.len(),
{
    if artists.len() == 0 {
    } else if artists[0].name == name {
        assert(artists[0] == artists[0]);
    } else {
        lemma_find_artist_ensures(artists.drop_first(), name);
        match find_artist(artists.drop_first(), name) {
            Some(a) => {
                let i = choose|i: int|
                    0 <= i < artists.drop_first().len() && artists.drop_first()[i] == a;
                assert(artists[i + 1] == a);
            },
            None => {
                assert forall|i: int|
                    0 <= i < artists.len() implies #[trigger] artists[i].name != name by {
                    if i > 0 {
                        assert(artists.drop_first()[i - 1].name != name);
                    }
                }
            },
        }
    }
}

/// A first match at index `i` is what `find_artist` returns.
pub proof fn lemma_find_artist_at(artists: Seq<ArtistModel>, name: Seq<char>, i: int)
    requires
        0 <= i < artists.len(),
        artists[i].name == name,
        forall|j: int| 0 <= j < i ==> #[trigger] artists[j].name != name,
    ensures
        find_artist(artists, name) == Some(artists[i]),
    decreases i,
{
    if i == 0 {
    } else {
        assert forall|j: int|
            0 <= j < i - 1 implies #[trigger] artists.drop_first()[j].name != name by {
            assert(artists[j + 1].name != name);
        }
        assert(artists.drop_first()[i - 1] == artists[i]);
        lemma_find_artist_at(artists.drop_first(), name, i - 1);
    }
}

/// What `find_album` answers, in the same shape.
pub proof fn lemma_find_album_ensures(albums: Seq<AlbumModel>, artist: u64, name: Seq<char>)
    ensures
        match find_album(albums, artist, name) {
            Some(al) => al.name == name && al.artist == artist && exists|i: int|
                0 <= i < albums.len() && albums[i] == al,
            None => forall|i: int|
                0 <= i < albums.len() ==> !((#[trigger] albums[i]).artist == artist && albums[i].name
                    == name),
        },
    decreases albums.len(),
{
    if albums.len() == 0 {
    } else if albums[0].artist == artist && albums[0].name == name {
        assert(albums[0] == albums[0]);
    } else {
        lemma_find_album_ensures(albums.drop_first(), artist, name);
        match find_album(albums.drop_first(), artist, name) {
            Some(al) => {
                let i = choose|i: int|
                    0 <= i < albums.drop_first().len() && albums.drop_first()[i] == al;
                assert(albums[i + 1] == al);
            },
            None => {
                assert forall|i: int|
                    0 <= i < albums.len() implies !((#[trigger] albums[i]).artist == artist
                    && albums[i].name == name) by {
                    if i > 0 {
                        assert(!(albums.drop_first()[i - 1].artist == artist
                            && albums.drop_first()[i - 1].name == name));
                    }
                }
            },
        }
    }
}

/// A first match at index `i` is what `find_album` returns.
pub proof fn lemma_find_album_at(albums: Seq<AlbumModel>, artist: u64, name: Seq<char>, i: int)
    requires
        0 <= i < albums.len(),
        albums[i].artist == artist,
        albums[i].name == name,
        forall|j: int|
            0 <= j < i ==> !((#[trigger] albums[j]).artist == artist && albums[j].name == name),
    ensures
        find_album(albums, artist, name) == Some(albums[i]),
    decreases i,
{
    if i == 0 {
    } else {
        assert forall|j: int|
            0 <= j < i - 1 implies !((#[trigger] albums.drop_first()[j]).artist == artist
            && albums.drop_first()[j].name == name) by {
            assert(!(albums[j + 1].artist == artist && albums[j + 1].name == name));
        }
        assert(albums.drop_first()[i - 1] == albums[i]);
        lemma_find_album_at(albums.drop_first(), artist, name, i - 1);
    }
}

/// Every id already minted lies below `b`.
pub open spec fn ids_below(m: LibraryModel, b: int) -> bool {
    &&& forall|i: int| 0 <= i < m.artists.len() ==> (#[trigger] m.artists[i].id) < b
    &&& forall|i: int| 0 <= i < m.albums.len() ==> (#[trigger] m.albums[i].id) < b
    &&& forall|i: int| 0 <= i < m.songs.len() ==> (#[trigger] m.songs[i].id) < b
}

/// Everything a scan in progress maintains: the snapshot is well formed,
/// minted ids stay below the mint counter, no two artists share a name,
/// and no two albums share an (artist, name) pair.
pub open spec fn scan_inv(m: LibraryModel) -> bool {
    &&& m.wf()
    &&& ids_below(m, next_id(m))
    &&& forall|i: int, j: int|
        0 <= i < j < m.artists.len() ==> #[trigger] m.artists[i].name
            != #[trigger] m.artists[j].name
    &&& forall|i: int, j: int|
        #![trigger m.albums[i], m.albums[j]]
        0 <= i < j < m.albums.len() ==> !(m.albums[i].artist == m.albums[j].artist
            && m.albums[i].name == m.albums[j].name)
}

/// One scan step keeps the invariant, appends exactly one song carrying
/// the entry's fields, and links it to an album and artist carrying the
/// entry's (defaulted) names. At most one artist and one album are minted.
pub proof fn lemma_scan_step(m: LibraryModel, e: TagEntryModel)
    requires
        scan_inv(m),
        next_id(m) + 3 <= u64::MAX,
    ensures
        scan_inv(scan_step(m, e)),
        scan_step(m, e).songs == m.songs.push(scan_step(m, e).songs.last()),
        m.artists.len() <= scan_step(m, e).artists.len() <= m.artists.len() + 1,
        m.albums.len() <= scan_step(m, e).albums.len() <= m.albums.len() + 1,
        scan_step(m, e).artists.subrange(0, m.artists.len() as int) == m.artists,
        scan_step(m, e).albums.subrange(0, m.albums.len() as int) == m.albums,
        ({
            let r = scan_step(m, e);
            let s = r.songs.last();
            &&& s.title == entry_title(e)
            &&& s.path == e.path
            &&& s.duration == e.duration
            &&& r.has_album(s.album)
            &&& r.album_of(s.album).name == entry_album(e)
            &&& r.has_artist(r.album_of(s.album).artist)
            &&& r.artist_of(r.album_of(s.album).artist).name == entry_artist(e)
        }),
{
    let an = entry_artist(e);
    let aln = entry_album(e);
    lemma_find_artist_ensures(m.artists, an);
    let (artist_id, m1) = resolve_artist(m, an);
    // The resolved artist sits in m1 and carries the entry's artist name.
    let artist_ix = match find_artist(m.artists, an) {
        Some(a) => choose|i: int| 0 <= i < m.artists.len() && m.artists[i] == a,
        None => m.artists.len() as int,
    };
    assert(0 <= artist_ix < m1.artists.len());
    assert(m1.artists[artist_ix].id == artist_id);
    assert(m1.artists[artist_ix].name == an);
    assert(scan_inv(m1) && ids_below(m1, next_id(m1)) && next_id(m) <= next_id(m1)) by {
        if find_artist(m.artists, an) is None {
            assert forall|i: int, j: int|
                0 <= i < j < m1.artists.len() implies #[trigger] m1.artists[i].id
                != #[trigger] m1.artists[j].id by {
                if j < m.artists.len() {
                } else {
                    assert(m1.artists[i].id < next_id(m));
                }
            }
            assert forall|i: int, j: int|
                0 <= i < j < m1.artists.len() implies #[trigger] m1.artists[i].name
                != #[trigger] m1.artists[j].name by {
                if j < m.artists.len() {
                } else {
                    assert(m.artists[i].name != an);
                }
            }
            assert forall|i: int|
                0 <= i < m1.albums.len() implies m1.has_artist(
                #[trigger] m1.albums[i].artist,
            ) by {
                assert(m.has_artist(m.albums[i].artist));
                let w = choose|w: int|
                    0 <= w < m.artists.len() && m.artists[w].id == m.albums[i].artist;
                assert(m1.artists[w].id == m.albums[i].artist);
            }
        }
    }
    lemma_find_album_ensures(m1.albums, artist_id, aln);
    let (album_id, m2) = resolve_album(m1, artist_id, aln, e.cover_art);
    let album_ix = match find_album(m1.albums, artist_id, aln) {
        Some(al) => choose|i: int| 0 <= i < m1.albums.len() && m1.albums[i] == al,
        None => m1.albums.len() as int,
    };
    assert(0 <= album_ix < m2.albums.len());
    assert(m2.albums[album_ix].id == album_id);
    assert(m2.albums[album_ix].name == aln);
    assert(m2.albums[album_ix].artist == artist_id);
    assert(scan_inv(m2) && ids_below(m2, next_id(m2)) && next_id(m1) <= next_id(m2)) by {
        if find_album(m1.albums, artist_id, aln) is None {
            assert forall|i: int, j: int|
                0 <= i < j < m2.albums.len() implies #[trigger] m2.albums[i].id
                != #[trigger] m2.albums[j].id by {
                if j < m1.albums.len() {
                } else {
                    assert(m2.albums[i].id < next_id(m1));
                }
            }
            assert forall|i: int, j: int|
                #![trigger m2.albums[i], m2.albums[j]]
                0 <= i < j < m2.albums.len() implies !(m2.albums[i].artist == m2.albums[j].artist
                && m2.albums[i].name == m2.albums[j].name) by {
                if j < m1.albums.len() {
                } else {
                    assert(!(m1.albums[i].artist == artist_id && m1.albums[i].name == aln));
                }
            }
            assert forall|i: int|
                0 <= i < m2.albums.len() implies m2.has_artist(
                #[trigger] m2.albums[i].artist,
            ) by {
                if i < m1.albums.len() {
                    assert(m1.has_artist(m1.albums[i].artist));
                    let w = choose|w: int|
                        0 <= w < m1.artists.len() && m1.artists[w].id == m1.albums[i].artist;
                    assert(m2.artists[w].id == m2.albums[i].artist);
                } else {
                    assert(m2.artists[artist_ix].id == artist_id);
                }
            }
            assert forall|i: int|
                0 <= i < m2.songs.len() implies m2.has_album(#[trigger] m2.songs[i].album) by {
                assert(m1.has_album(m1.songs[i].album));
                let w = choose|w: int|
                    0 <= w < m1.albums.len() && m1.albums[w].id == m1.songs[i].album;
                assert(m2.albums[w].id == m2.songs[i].album);
            }
        }
    }
    let r = scan_step(m, e);
    let s = SongModel {
        id: next_id(m2) as u64,
        title: entry_title(e),
        path: e.path,
        duration: e.duration,
        album: album_id,
    };
    assert(r.songs == m2.songs.push(s));
    assert(r.songs.last() == s);
    assert(scan_inv(r)) by {
        assert forall|i: int, j: int|
            0 <= i < j < r.songs.len() implies #[trigger] r.songs[i].id
            != #[trigger] r.songs[j].id by {
            if j < m2.songs.len() {
                assert(m2.songs[i].id != m2.songs[j].id);
            } else {
                assert(r.songs[i].id < next_id(m2));
            }
        }
        assert forall|i: int|
            0 <= i < r.songs.len() implies r.has_album(#[trigger] r.songs[i].album) by {
            if i < m2.songs.len() {
                assert(m2.has_album(m2.songs[i].album));
                let w = choose|w: int|
                    0 <= w < m2.albums.len() && m2.albums[w].id == m2.songs[i].album;
                assert(r.albums[w].id == r.songs[i].album);
            } else {
                assert(r.albums[album_ix].id == album_id);
            }
        }
        assert forall|i: int|
            0 <= i < r.albums.len() implies r.has_artist(#[trigger] r.albums[i].artist) by {
            assert(m2.has_artist(m2.albums[i].artist));
            let w = choose|w: int|
                0 <= w < m2.artists.len() && m2.artists[w].id == m2.albums[i].artist;
            assert(r.artists[w].id == r.albums[i].artist);
        }
    }
    assert(r.albums[album_ix].id == s.album);
    r.lemma_album_index_is(album_ix);
    assert(r.album_of(s.album) == r.albums[album_ix]);
    assert(r.artists[artist_ix].id == artist_id);
    r.lemma_artist_index_is(artist_ix);
    assert(r.artist_of(artist_id) == r.artists[artist_ix]);
    assert(r.artists.subrange(0, m.artists.len() as int) =~= m.artists);
    assert(r.albums.subrange(0, m.albums.len() as int) =~= m.albums);
}

/// The declared type of an embedded picture, as tag extraction reads it:
/// the four formats the indexer knows, any other declared MIME string, or
/// a known format outside those four.
pub enum ImageMime {
    Bmp,
    Jpeg,
    Png,
    Tiff,
    Unknown(String),
    OtherKnown,
}

/// The position of the last slash of a MIME string, if any.
pub open spec fn last_slash(t: Seq<char>) -> Option<int>
    decreases t.len(),
{
    if t.len() == 0 {
        None
    } else if t.last() == '/' {
        Some(t.len() - 1)
    } else {
        last_slash(t.drop_last())
    }
}

/// The subtype of a MIME string: whatever follows its last slash, or the
/// whole string when it has none.
pub open spec fn subtype_of(t: Seq<char>) -> Seq<char> {
    match last_slash(t) {
        Some(i) => t.subrange(i + 1, t.len() as int),
        None => t,
    }
}

/// The file extension artwork is written under: an explicit mapping for
/// the four known formats, the MIME subtype for an unknown declared type,
/// and `jpg` for anything else.
pub open spec fn spec_extension(m: &ImageMime) -> Seq<char> {
    match m {
        ImageMime::Bmp => "bmp"@,
        ImageMime::Jpeg => "jpg"@,
        ImageMime::Png => "png"@,
        ImageMime::Tiff => "tiff"@,
        ImageMime::Unknown(t) => subtype_of(t@),
        ImageMime::OtherKnown => "jpg"@,
    }
}

/// Picks the file extension an album's extracted artwork is written
/// under, from the declared picture type.
pub fn cover_extension(m: &ImageMime) -> (r: String)
    ensures
        r@ == spec_extension(m),
{
    match m {
        ImageMime::Bmp => String::from_str("bmp"),
        ImageMime::Jpeg => String::from_str("jpg"),
        ImageMime::Png => String::from_str("png"),
        ImageMime::Tiff => String::from_str("tiff"),
        ImageMime::OtherKnown => String::from_str("jpg"),
        ImageMime::Unknown(t) => {
            let s = t.as_str();
            let n = s.unicode_len();
            let mut cut: usize = 0;
            let mut found = false;
            proof {
                assert(t@.subrange(0, 0) =~= Seq::<char>::empty());
            }
            for i in 0..n
                invariant
                    n == t@.len(),
                    s@ == t@,
                    cut <= i,
                    found <==> last_slash(t@.subrange(0, i as int)) is Some,
                    found ==> last_slash(t@.subrange(0, i as int)) == Some(cut as int - 1) && cut
                        >= 1,
            {
                proof {
                    assert(t@.subrange(0, i as int + 1).drop_last() =~= t@.subrange(0, i as int));
                    assert(t@.subrange(0, i as int + 1).last() == t@[i as int]);
                }
                if s.get_char(i) == '/' {
                    cut = i + 1;
                    found = true;
                }
            }
            proof {
                assert(t@.subrange(0, n as int) =~= t@);
            }
            if found {
                let ext = s.substring_char(cut, n);
                ext.to_owned()
            } else {
                let whole = s.substring_char(0, n);
                proof {
                    assert(t@.subrange(0, n as int) =~= t@);
                }
                whole.to_owned()
            }
        },
    }
}

/// The mathematical value of a snapshot under construction.
pub open spec fn vecs_model(artists: Seq<Artist>, albums: Seq<Album>, songs: Seq<Song>) -> LibraryModel {
    LibraryModel {
        artists: artists.map_values(|a: Artist| a@),
        albums: albums.map_values(|a: Album| a@),
        songs: songs.map_values(|s: Song| s@),
    }
}

/// Clones the tag field, or falls back to the given sentinel.
fn or_default(o: &Option<String>, d: &str) -> (r: String)
    ensures
        r@ == match *o {
            Some(s) => s@,
            None => d@,
        },
{
    match o {
        Some(s) => s.clone(),
        None => String::from_str(d),
    }
}

/// The id of the first already-seen artist with this name, if any.
fn find_artist_id(artists: &Vec<Artist>, name: &String) -> (r: Option<u64>)
    ensures
        r == match find_artist(artists@.map_values(|a: Artist| a@), name@) {
            Some(a) => Some(a.id),
            None => None::<u64>,
        },
{
    let ghost ms = artists@.map_values(|a: Artist| a@);
    let n = artists.len();
    for i in 0..n
        invariant
            n == artists@.len(),
            ms == artists@.map_values(|a: Artist| a@),
            forall|j: int| 0 <= j < i ==> #[trigger] ms[j].name != name@,
    {
        if artists[i].name == *name {
            proof {
                lemma_find_artist_at(ms, name@, i as int);
            }
            return Some(artists[i].id);
        }
    }
    proof {
        lemma_find_artist_ensures(ms, name@);
    }
    None
}

/// The id of the first already-seen album with this artist and name.
fn find_album_id(albums: &Vec<Album>, artist: u64, name: &String) -> (r: Option<u64>)
    ensures
        r == match find_album(albums@.map_values(|a: Album| a@), artist, name@) {
            Some(al) => Some(al.id),
            None => None::<u64>,
        },
{
    let ghost ms = albums@.map_values(|a: Album| a@);
    let n = albums.len();
    for i in 0..n
        invariant
            n == albums@.len(),
            ms == albums@.map_values(|a: Album| a@),
            forall|j: int|
                0 <= j < i ==> !((#[trigger] ms[j]).artist == artist && ms[j].name == name@),
    {
        if albums[i].artist == artist && albums[i].name == *name {
            proof {
                lemma_find_album_at(ms, artist, name@, i as int);
            }
            return Some(albums[i].id);
        }
    }
    proof {
        lemma_find_album_ensures(ms, artist, name@);
    }
    None
}

/// Builds a deduplicated snapshot from the tag entries of one scan, in
/// scan order: artists deduplicated by name, albums by (artist, name),
/// one song per entry. The result is exactly the snapshot `scan_model`
/// describes. Unreadable or untagged files never get this far, so a scan
/// is best-effort by construction and cannot fail.
pub fn build_library(entries: &Vec<TagEntry>) -> (r: Library)
    requires
        entries@.len() <= SCAN_LIMIT,
    ensures
        r@ == scan_model(entry_models(entries@)),
        r.wf(),
{
    let ghost ems = entry_models(entries@);
    let mut artists: Vec<Artist> = Vec::new();
    let mut albums: Vec<Album> = Vec::new();
    let mut songs: Vec<Song> = Vec::new();
    let mut counter: u64 = 1;
    let n = entries.len();
    proof {
        assert(vecs_model(artists@, albums@, songs@) =~= scan_model(ems.subrange(0, 0)));
    }
    for k in 0..n
        invariant
            n == entries@.len(),
            n <= SCAN_LIMIT,
            ems == entry_models(entries@),
            vecs_model(artists@, albums@, songs@) == scan_model(ems.subrange(0, k as int)),
            counter == next_id(scan_model(ems.subrange(0, k as int))),
    {
        let ghost pre = ems.subrange(0, k as int);
        let ghost m0 = scan_model(pre);
        proof {
            lemma_scan_inv(pre);
            assert(m0.songs.len() == k);
            assert(next_id(m0) <= 1 + 3 * k);
        }
        let e = &entries[k];
        proof {
            assert(e@ == ems[k as int]);
        }
        let artist_name = or_default(&e.artist, "Unknown Artist");
        let album_name = or_default(&e.album, "Unknown Album");
        let title = or_default(&e.title, "Unknown");
        proof {
            assert(artist_name@ == entry_artist(ems[k as int]));
            assert(album_name@ == entry_album(ems[k as int]));
            assert(title@ == entry_title(ems[k as int]));
        }
        let artist_id = match find_artist_id(&artists, &artist_name) {
            Some(id) => id,
            None => {
                let id = counter;
                counter = counter + 1;
                artists.push(Artist { id, name: artist_name });
                id
            },
        };
        let ghost step1 = resolve_artist(m0, entry_artist(ems[k as int]));
        proof {
            assert(artists@.map_values(|a: Artist| a@) =~= step1.1.artists);
            assert(artist_id == step1.0);
            assert(counter == next_id(step1.1));
        }
        let ghost m1 = step1.1;
        let album_id = match find_album_id(&albums, artist_id, &album_name) {
            Some(id) => id,
            None => {
                let id = counter;
                counter = counter + 1;
                albums.push(
                    Album {
                        id,
                        name: album_name,
                        cover_art: e.cover_art.clone(),
                        artist: artist_id,
                    },
                );
                id
            },
        };
        let ghost step2 = resolve_album(m1, artist_id, entry_album(ems[k as int]), ems[k as int].cover_art);
        proof {
            assert(albums@.map_values(|a: Album| a@) =~= step2.1.albums);
            assert(album_id == step2.0);
            assert(counter == next_id(step2.1));
        }
        let ghost m2 = step2.1;
        let song_id = counter;
        counter = counter + 1;
        songs.push(
            Song { id: song_id, title, path: e.path.clone(), duration: e.duration, album: album_id },
        );
        proof {
            let cur = ems.subrange(0, k as int + 1);
            assert(cur.drop_last() =~= pre);
            assert(cur.last() == ems[k as int]);
            let mstep = scan_step(m0, ems[k as int]);
            assert(songs@.map_values(|s: Song| s@) =~= mstep.songs);
            assert(vecs_model(artists@, albums@, songs@) == scan_model(cur));
            assert(counter == next_id(scan_model(cur)));
        }
    }
    let r = Library { artists, albums, songs };
    proof {
        assert(ems.subrange(0, n as int) =~= ems);
        lemma_scan_inv(ems);
        assert(r@ == scan_model(ems));
    }
    r
}

/// A whole scan keeps the invariant; it indexes one song per entry and
/// never more artists or albums than entries.
pub proof fn lemma_scan_inv(entries: Seq<TagEntryModel>)
    requires
        entries.len() <= SCAN_LIMIT,
    ensures
        scan_inv(scan_model(entries)),
        scan_model(entries).songs.len() == entries.len(),
        scan_model(entries).artists.len() <= entries.len(),
        scan_model(entries).albums.len() <= entries.len(),
    decreases entries.len(),
{
    if entries.len() == 0 {
    } else {
        lemma_scan_inv(entries.drop_last());
        lemma_scan_step(scan_model(entries.drop_last()), entries.last());
    }
}

/// Each entry of a scan yields the song at its own position, carrying the
/// entry's (defaulted) title, its path and duration, and linked through an
/// existing album and artist that carry the entry's (defaulted) names.
pub proof fn lemma_scan_songs(entries: Seq<TagEntryModel>, i: int)
    requires
        entries.len() <= SCAN_LIMIT,
        0 <= i < entries.len(),
    ensures
        ({
            let r = scan_model(entries);
            let s = r.songs[i];
            &&& s.title == entry_title(entries[i])
            &&& s.path == entries[i].path
            &&& s.duration == entries[i].duration
            &&& r.has_album(s.album)
            &&& r.album_of(s.album).name == entry_album(entries[i])
            &&& r.has_artist(r.album_of(s.album).artist)
            &&& r.artist_of(r.album_of(s.album).artist).name == entry_artist(entries[i])
        }),
    decreases entries.len(),
{
    lemma_scan_inv(entries.drop_last());
    let prev = scan_model(entries.drop_last());
    lemma_scan_step(prev, entries.last());
    let r = scan_model(entries);
    if i == entries.len() - 1 {
        assert(r.songs[i] == r.songs.last());
    } else {
        lemma_scan_songs(entries.drop_last(), i);
        let s = prev.songs[i];
        assert(r.songs[i] == s);
        // The old album keeps its place and its artist keeps its place.
        let w = prev.album_index(s.album);
        prev.lemma_album_index_is(w);
        assert(r.albums[w] == prev.albums[w]);
        r.lemma_album_index_is(w);
        assert(r.album_of(s.album) == prev.album_of(s.album));
        let a = prev.album_of(s.album);
        let v = prev.artist_index(a.artist);
        prev.lemma_artist_index_is(v);
        assert(r.artists[v] == prev.artists[v]);
        r.lemma_artist_index_is(v);
        assert(r.artist_of(a.artist) == prev.artist_of(a.artist));
    }
}

} // verus!
