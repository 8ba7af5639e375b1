use vstd::prelude::*;

verus! {

/// One artist of the collection. Identity within a scan is the exact name.
pub struct Artist {
    pub id: u64,
    pub name: String,
}

/// One album. Identity within a scan is the pair (artist id, name).
/// `cover_art` is a reference (a path) to extracted artwork, never raw bytes.
pub struct Album {
    pub id: u64,
    pub name: String,
    pub cover_art: Option<String>,
    pub artist: u64,
}

/// One tagged audio file. Songs are never deduplicated; `duration` is in
/// whole seconds.
pub struct Song {
    pub id: u64,
    pub title: String,
    pub path: String,
    pub duration: u32,
    pub album: u64,
}

/// An immutable snapshot of the indexed collection. Ids are opaque unique
/// identifiers minted at insertion time; a rescan produces a whole new
/// snapshot with fresh ids.
pub struct Library {
    pub artists: Vec<Artist>,
    pub albums: Vec<Album>,
    pub songs: Vec<Song>,
}

/// Errors reported by library lookups and the transport operations.
#[derive(Clone, Copy, PartialEq, Eq, Structural, Debug)]
pub enum LibraryError {
    /// The requested song id is not in the snapshot.
    SongNotFound,
    /// The seed song is not a member of the scope it should be drawn from.
    SongNotInScope,
}

/// The mathematical value of an `Artist`.
pub struct ArtistModel {
    pub id: u64,
    pub name: Seq<char>,
}

/// The mathematical value of an `Album`.
pub struct AlbumModel {
    pub id: u64,
    pub name: Seq<char>,
    pub cover_art: Option<Seq<char>>,
    pub artist: u64,
}

/// The mathematical value of a `Song`.
pub struct SongModel {
    pub id: u64,
    pub title: Seq<char>,
    pub path: Seq<char>,
    pub duration: u32,
    pub album: u64,
}

/// The mathematical value of a `Library`.
#[verifier::ext_equal]
pub struct LibraryModel {
    pub artists: Seq<ArtistModel>,
    pub albums: Seq<AlbumModel>,
    pub songs: Seq<SongModel>,
}

pub open spec fn opt_chars(o: Option<String>) -> Option<Seq<char>> {
    match o {
        Some(s) => Some(s@),
        None => None,
    }
}

impl View for Artist {
    type V = ArtistModel;

    open spec fn view(&self) -> ArtistModel {
        ArtistModel { id: self.id, name: self.name@ }
    }
}

impl View for Album {
    type V = AlbumModel;

    open spec fn view(&self) -> AlbumModel {
        AlbumModel {
            id: self.id,
            name: self.name@,
            cover_art: opt_chars(self.cover_art),
            artist: self.artist,
        }
    }
}

impl View for Song {
    type V = SongModel;

    open spec fn view(&self) -> SongModel {
        SongModel {
            id: self.id,
            title: self.title@,
            path: self.path@,
            duration: self.duration,
            album: self.album,
        }
    }
}

impl View for Library {
    type V = LibraryModel;

    open spec fn view(&self) -> LibraryModel {
        LibraryModel {
            artists: self.artists@.map_values(|a: Artist| a@),
            albums: self.albums@.map_values(|a: Album| a@),
            songs: self.songs@.map_values(|s: Song| s@),
        }
    }
}

impl LibraryModel {
    pub open spec fn has_artist(self, id: u64) -> bool {
        exists|i: int| 0 <= i < self.artists.len() && self.artists[i].id == id
    }

    pub open spec fn artist_index(self, id: u64) -> int {
        choose|i: int| 0 <= i < self.artists.len() && self.artists[i].id == id
    }

    /// The artist a given id names (meaningful when `has_artist` holds and
    /// ids are unique).
    pub open spec fn artist_of(self, id: u64) -> ArtistModel {
        self.artists[self.artist_index(id)]
    }

    pub open spec fn has_album(self, id: u64) -> bool {
        exists|i: int| 0 <= i < self.albums.len() && self.albums[i].id == id
    }

    pub open spec fn album_index(self, id: u64) -> int {
        choose|i: int| 0 <= i < self.albums.len() && self.albums[i].id == id
    }

    pub open spec fn album_of(self, id: u64) -> AlbumModel {
        self.albums[self.album_index(id)]
    }

    pub open spec fn has_song(self, id: u64) -> bool {
        exists|i: int| 0 <= i < self.songs.len() && self.songs[i].id == id
    }

    pub open spec fn song_index(self, id: u64) -> int {
        choose|i: int| 0 <= i < self.songs.len() && self.songs[i].id == id
    }

    pub open spec fn song_of(self, id: u64) -> SongModel {
        self.songs[self.song_index(id)]
    }

    /// Snapshot well-formedness: all ids are unique, every song's album
    /// exists, and every album's artist exists.
    pub open spec fn wf(self) -> bool {
        &&& forall|i: int, j: int|
            0 <= i < j < self.artists.len() ==> #[trigger] self.artists[i].id
                != #[trigger] self.artists[j].id
        &&& forall|i: int, j: int|
            0 <= i < j < self.albums.len() ==> #[trigger] self.albums[i].id
                != #[trigger] self.albums[j].id
        &&& forall|i: int, j: int|
            0 <= i < j < self.songs.len() ==> #[trigger] self.songs[i].id
                != #[trigger] self.songs[j].id
        &&& forall|i: int|
            0 <= i < self.songs.len() ==> self.has_album(#[trigger] self.songs[i].album)
        &&& forall|i: int|
            0 <= i < self.albums.len() ==> self.has_artist(#[trigger] self.albums[i].artist)
    }

    /// In a well-formed snapshot, an index holding a given song id is the
    /// index `song_of` speaks of.
    pub proof fn lemma_song_index_is(self, i: int)
        requires
            self.wf(),
            0 <= i < self.songs.len(),
        ensures
            self.has_song(self.songs[i].id),
            self.song_index(self.songs[i].id) == i,
            self.song_of(self.songs[i].id) == self.songs[i],
    {
        let id = self.songs[i].id;
        assert(self.has_song(id));
        let j = self.song_index(id);
        if i < j {
            assert(self.songs[i].id != self.songs[j].id);
        } else if j < i {
            assert(self.songs[j].id != self.songs[i].id);
        }
    }

    /// Same, for albums.
    pub proof fn lemma_album_index_is(self, i: int)
        requires
            self.wf(),
            0 <= i < self.albums.len(),
        ensures
            self.has_album(self.albums[i].id),
            self.album_index(self.albums[i].id) == i,
            self.album_of(self.albums[i].id) == self.albums[i],
    {
        let id = self.albums[i].id;
        assert(self.has_album(id));
        let j = self.album_index(id);
        if i < j {
            assert(self.albums[i].id != self.albums[j].id);
        } else if j < i {
            assert(self.albums[j].id != self.albums[i].id);
        }
    }

    /// Same, for artists.
    pub proof fn lemma_artist_index_is(self, i: int)
        requires
            self.wf(),
            0 <= i < self.artists.len(),
        ensures
            self.has_artist(self.artists[i].id),
            self.artist_index(self.artists[i].id) == i,
            self.artist_of(self.artists[i].id) == self.artists[i],
    {
        let id = self.artists[i].id;
        assert(self.has_artist(id));
        let j = self.artist_index(id);
        if i < j {
            assert(self.artists[i].id != self.artists[j].id);
        } else if j < i {
            assert(self.artists[j].id != self.artists[i].id);
        }
    }
}

impl LibraryModel {
    /// A song's album, and that album's artist, are in the snapshot.
    pub proof fn lemma_song_links(self, id: u64)
        requires
            self.wf(),
            self.has_song(id),
        ensures
            self.has_album(self.song_of(id).album),
            self.has_artist(self.album_of(self.song_of(id).album).artist),
    {
        let i = self.song_index(id);
        assert(0 <= i < self.songs.len() && self.songs[i].id == id);
        assert(self.has_album(self.songs[i].album));
        let j = self.album_index(self.song_of(id).album);
        assert(0 <= j < self.albums.len());
        assert(self.has_artist(self.albums[j].artist));
    }
}

impl Library {
    /// Snapshot well-formedness, stated of the mathematical value.
    pub open spec fn wf(&self) -> bool {
        self@.wf()
    }

    /// The stored `Song` a given id names.
    pub open spec fn spec_song(&self, id: u64) -> Song {
        self.songs@[self@.song_index(id)]
    }

    /// The stored `Album` a given id names.
    pub open spec fn spec_album(&self, id: u64) -> Album {
        self.albums@[self@.album_index(id)]
    }

    /// The stored `Artist` a given id names.
    pub open spec fn spec_artist(&self, id: u64) -> Artist {
        self.artists@[self@.artist_index(id)]
    }

    /// The position of a song id in the snapshot, if it is there.
    fn song_position(&self, id: u64) -> (r: Option<usize>)
        requires
            self.wf(),
        ensures
            r is Some <==> self@.has_song(id),
            r matches Some(i) ==> i < self@.songs.len() && self@.songs[i as int].id == id
                && self@.song_index(id) == i,
    {
        let n = self.songs.len();
        for i in 0..n
            invariant
                n == self.songs@.len(),
                self.wf(),
                forall|j: int| 0 <= j < i ==> #[trigger] self@.songs[j].id != id,
        {
            if self.songs[i].id == id {
                proof {
                    self@.lemma_song_index_is(i as int);
                }
                return Some(i);
            }
        }
        None
    }

    /// Looks a song up by id.
    pub fn get_song(&self, id: u64) -> (r: Option<&Song>)
        requires
            self.wf(),
        ensures
            r is Some <==> self@.has_song(id),
            r matches Some(s) ==> s@ == self@.song_of(id) && *s == self.spec_song(id) && s.id == id,
    {
        match self.song_position(id) {
            Some(i) => Some(&self.songs[i]),
            None => None,
        }
    }

    /// Looks an album up by id.
    pub fn get_album(&self, id: u64) -> (r: Option<&Album>)
        requires
            self.wf(),
        ensures
            r is Some <==> self@.has_album(id),
            r matches Some(a) ==> a@ == self@.album_of(id) && *a == self.spec_album(id) && a.id == id,
    {
        let n = self.albums.len();
        for i in 0..n
            invariant
                n == self.albums@.len(),
                self.wf(),
                forall|j: int| 0 <= j < i ==> #[trigger] self@.albums[j].id != id,
        {
            if self.albums[i].id == id {
                proof {
                    self@.lemma_album_index_is(i as int);
                }
                return Some(&self.albums[i]);
            }
        }
        None
    }

    /// Looks an artist up by id.
    pub fn get_artist(&self, id: u64) -> (r: Option<&Artist>)
        requires
            self.wf(),
        ensures
            r is Some <==> self@.has_artist(id),
            r matches Some(a) ==> a@ == self@.artist_of(id) && *a == self.spec_artist(id) && a.id == id,
    {
        let n = self.artists.len();
        for i in 0..n
            invariant
                n == self.artists@.len(),
                self.wf(),
                forall|j: int| 0 <= j < i ==> #[trigger] self@.artists[j].id != id,
        {
            if self.artists[i].id == id {
                proof {
                    self@.lemma_artist_index_is(i as int);
                }
                return Some(&self.artists[i]);
            }
        }
        None
    }

    /// Removes one song from the in-memory snapshot. Exactly the entry with
    /// the given id goes; artists, albums and all other songs are untouched.
    /// A missing id is reported with no mutation at all. Removing the file
    /// on disk is the caller's business and must happen before this call.
    pub fn delete_song(&mut self, id: u64) -> (r: Result<(), LibraryError>)
        requires
            old(self).wf(),
        ensures
            final(self).wf(),
            r is Ok <==> old(self)@.has_song(id),
            r is Ok ==> final(self)@.songs == old(self)@.songs.remove(old(self)@.song_index(id)),
            r matches Err(e) ==> e == LibraryError::SongNotFound && *final(self) == *old(self),
            final(self)@.artists == old(self)@.artists,
            final(self)@.albums == old(self)@.albums,
    {
        match self.song_position(id) {
            Some(i) => {
                let ghost pre = self@;
                self.songs.remove(i);
                proof {
                    assert(self@.songs =~= pre.songs.remove(i as int));
                    assert(self@.artists =~= pre.artists);
                    assert(self@.albums =~= pre.albums);
                    pre.songs.remove_ensures(i as int);
                    assert forall|p: int, q: int|
                        0 <= p < q < self@.songs.len() implies #[trigger] self@.songs[p].id
                        != #[trigger] self@.songs[q].id by {
                        if q < i {
                        } else if p < i {
                            assert(pre.songs[p].id != pre.songs[q + 1].id);
                        } else {
                            assert(pre.songs[p + 1].id != pre.songs[q + 1].id);
                        }
                    }
                    assert forall|p: int|
                        0 <= p < self@.songs.len() implies self@.has_album(
                        #[trigger] self@.songs[p].album,
                    ) by {
                        if p < i {
                            assert(self@.songs[p] == pre.songs[p]);
                        } else {
                            assert(self@.songs[p] == pre.songs[p + 1]);
                        }
                        assert(pre.has_album(self@.songs[p].album));
                        let w = choose|w: int|
                            0 <= w < pre.albums.len() && pre.albums[w].id == self@.songs[p].album;
                        assert(self@.albums[w].id == self@.songs[p].album);
                    }
                }
                Ok(())
            },
            None => Err(LibraryError::SongNotFound),
        }
    }
}

impl Clone for Artist {
    fn clone(&self) -> (res: Artist)
        ensures
            res == *self,
    {
        Artist { id: self.id, name: self.name.clone() }
    }
}

impl Clone for Album {
    fn clone(&self) -> (res: Album)
        ensures
            res == *self,
    {
        Album {
            id: self.id,
            name: self.name.clone(),
            cover_art: self.cover_art.clone(),
            artist: self.artist,
        }
    }
}

impl Clone for Song {
    fn clone(&self) -> (res: Song)
        ensures
            res == *self,
    {
        Song {
            id: self.id,
            title: self.title.clone(),
            path: self.path.clone(),
            duration: self.duration,
            album: self.album,
        }
    }
}

impl Clone for Library {
    /// A full copy of the snapshot; readers given one can never observe a
    /// later in-place change, so a rescan can swap the shared snapshot
    /// wholesale without tearing what a holder of the old one sees.
    fn clone(&self) -> (res: Library)
        ensures
            res@ == self@,
    {
        let res = Library {
            artists: self.artists.clone(),
            albums: self.albums.clone(),
            songs: self.songs.clone(),
        };
        proof {
            assert(res.artists@ =~= self.artists@);
            assert(res.albums@ =~= self.albums@);
            assert(res.songs@ =~= self.songs@);
            assert(res@.artists =~= self@.artists);
            assert(res@.albums =~= self@.albums);
            assert(res@.songs =~= self@.songs);
        }
        res
    }
}

} // verus!
