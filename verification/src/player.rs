use vstd::prelude::*;
use crate::{PlayerScope, PlayerState, RepeatMode, StateModel, HISTORY_LIMIT};
use crate::library::{Library, LibraryError};
use crate::queue::{get_automatic_next_songs, scope_song_ids, valid_refill};

verus! {

/// One command for the audio engine or the OS transport surface. The
/// transport operations compute these; an unverified shell performs them.
/// `SetUri` carries the song's file path; `duration` is in whole seconds.
#[derive(Debug, PartialEq)]
pub enum Action {
    SetUri { path: String },
    Play,
    Pause,
    Stop,
    SeekTo { seconds: u32 },
    SetMetadata {
        title: String,
        album: String,
        artist: String,
        cover_art: Option<String>,
        duration: u32,
    },
    SetPlaybackPlaying,
    SetPlaybackPaused,
}

/// The lightweight projection of the transport state a subscriber is
/// notified with whenever it changes.
#[derive(Clone, Copy, PartialEq, Eq, Structural, Debug)]
pub struct CurrentSongData {
    pub current_song: Option<u64>,
    pub song_started_at: u32,
    pub paused_at: Option<u32>,
}

/// Appending to the bounded history: beyond `HISTORY_LIMIT` entries the
/// oldest one is dropped.
pub open spec fn push_history(h: Seq<u64>, id: u64) -> Seq<u64> {
    if h.len() + 1 > HISTORY_LIMIT {
        h.push(id).drop_first()
    } else {
        h.push(id)
    }
}

/// The bounded history stays bounded.
pub proof fn lemma_push_history_bounded(h: Seq<u64>, id: u64)
    requires
        h.len() <= HISTORY_LIMIT,
    ensures
        push_history(h, id).len() <= HISTORY_LIMIT,
{
}

/// Appends to a bounded history vector, dropping the oldest entry beyond
/// the limit.
fn push_bounded(v: &mut Vec<u64>, id: u64)
    ensures
        final(v)@ == push_history(old(v)@, id),
{
    v.push(id);
    if v.len() > HISTORY_LIMIT {
        v.remove(0);
        proof {
            assert(old(v)@.push(id).remove(0) =~= old(v)@.push(id).drop_first());
        }
    }
}

/// The engine and surface commands that load and announce one song: set
/// its uri and play it, then publish its metadata and the playing state.
pub open spec fn load_actions(library: &Library, id: u64) -> Seq<Action> {
    let song = library.spec_song(id);
    let album = library.spec_album(song.album);
    let artist = library.spec_artist(album.artist);
    seq![
        (Action::SetUri { path: song.path }),
        Action::Play,
        (Action::SetMetadata {
            title: song.title,
            album: album.name,
            artist: artist.name,
            cover_art: album.cover_art,
            duration: song.duration,
        }),
        Action::SetPlaybackPlaying,
    ]
}

/// Builds the `load_actions` of a song that is in the snapshot.
fn make_load_actions(library: &Library, id: u64) -> (a: Vec<Action>)
    requires
        library.wf(),
        library@.has_song(id),
    ensures
        a@ == load_actions(library, id),
{
    proof {
        library@.lemma_song_links(id);
    }
    let song = match library.get_song(id) {
        Some(s) => s,
        None => {
            proof {
                assert(false);
            }
            return Vec::new();
        },
    };
    let album = match library.get_album(song.album) {
        Some(a) => a,
        None => {
            proof {
                assert(false);
            }
            return Vec::new();
        },
    };
    let artist = match library.get_artist(album.artist) {
        Some(a) => a,
        None => {
            proof {
                assert(false);
            }
            return Vec::new();
        },
    };
    let mut a: Vec<Action> = Vec::new();
    a.push(Action::SetUri { path: song.path.clone() });
    a.push(Action::Play);
    a.push(
        Action::SetMetadata {
            title: song.title.clone(),
            album: album.name.clone(),
            artist: artist.name.clone(),
            cover_art: album.cover_art.clone(),
            duration: song.duration,
        },
    );
    a.push(Action::SetPlaybackPlaying);
    proof {
        assert(a@ =~= load_actions(library, id));
    }
    a
}

/// Seeking only moves the reference point: elapsed time is always derived
/// as `now - song_started_at`, never counted.
pub open spec fn spec_seek(s: StateModel, now: u32, to: u32) -> StateModel {
    StateModel { song_started_at: (now - to) as u32, ..s }
}

/// Pausing stamps the pause; resuming shifts the reference point forward
/// by the paused duration, so elapsed playing time never counts a pause.
pub open spec fn spec_toggle_pause(s: StateModel, now: u32) -> StateModel {
    match s.paused_at {
        Some(p) => StateModel {
            song_started_at: (s.song_started_at + (now - p)) as u32,
            paused_at: None,
            ..s
        },
        None => StateModel { paused_at: Some(now), ..s },
    }
}

/// The commands a pause toggle sends: resume and announce playing, or
/// pause and announce paused.
pub open spec fn toggle_actions(s: StateModel) -> Seq<Action> {
    match s.paused_at {
        Some(_) => seq![Action::Play, Action::SetPlaybackPlaying],
        None => seq![Action::Pause, Action::SetPlaybackPaused],
    }
}

/// Instructs the engine to seek and moves the reference point so that
/// `now - song_started_at` equals the new offset.
pub fn seek(state: &mut PlayerState, now: u32, seek_to: u32) -> (actions: Vec<Action>)
    requires
        seek_to <= now,
    ensures
        final(state)@ == spec_seek(old(state)@, now, seek_to),
        actions@ == seq![(Action::SeekTo { seconds: seek_to })],
{
    state.song_started_at = now - seek_to;
    let mut actions: Vec<Action> = Vec::new();
    actions.push(Action::SeekTo { seconds: seek_to });
    proof {
        assert(actions@ =~= seq![(Action::SeekTo { seconds: seek_to })]);
        assert(final(state)@ =~= spec_seek(old(state)@, now, seek_to));
    }
    actions
}

/// Toggles between Playing and Paused, keeping the elapsed-time
/// bookkeeping continuous across the pause.
pub fn toggle_pause(state: &mut PlayerState, now: u32) -> (actions: Vec<Action>)
    requires
        old(state)@.paused_at matches Some(p) ==> p <= now && old(state)@.song_started_at + (now
            - p) <= u32::MAX,
    ensures
        final(state)@ == spec_toggle_pause(old(state)@, now),
        actions@ == toggle_actions(old(state)@),
{
    let mut actions: Vec<Action> = Vec::new();
    match state.paused_at {
        Some(paused_at) => {
            state.song_started_at = state.song_started_at + (now - paused_at);
            state.paused_at = None;
            actions.push(Action::Play);
            actions.push(Action::SetPlaybackPlaying);
            proof {
                assert(actions@ =~= toggle_actions(old(state)@));
                assert(final(state)@ =~= spec_toggle_pause(old(state)@, now));
            }
        },
        None => {
            state.paused_at = Some(now);
            actions.push(Action::Pause);
            actions.push(Action::SetPlaybackPaused);
            proof {
                assert(actions@ =~= toggle_actions(old(state)@));
                assert(final(state)@ =~= spec_toggle_pause(old(state)@, now));
            }
        },
    }
    actions
}

/// Updates the recorded volume; nothing else moves.
pub fn volume_changed(state: &mut PlayerState, volume: u32)
    ensures
        final(state)@ == (StateModel { volume: volume, ..old(state)@ }),
{
    state.volume = volume;
    proof {
        assert(final(state)@ =~= (StateModel { volume: volume, ..old(state)@ }));
    }
}

/// Starts playing one chosen song in a fresh scope: the automatic queue
/// is recomputed seeded from the song, the song that was current joins
/// the bounded history, and the engine and surface are told to load and
/// announce the new one. A song id that is not in the snapshot, or not in
/// the chosen scope, is rejected with the state untouched.
pub fn play_song(
    state: &mut PlayerState,
    library: &Library,
    song_id: u64,
    scope: PlayerScope,
    now: u32,
) -> (r: Result<Vec<Action>, LibraryError>)
    requires
        library.wf(),
        old(state).inv(),
    ensures
        final(state).inv(),
        r is Ok <==> library@.has_song(song_id) && scope_song_ids(library@, scope).contains(
            song_id,
        ),
        r matches Ok(actions) ==> ({
            &&& final(state)@ == (StateModel {
                current_song: Some(song_id),
                previous_songs: match old(state)@.current_song {
                    Some(c) => push_history(old(state)@.previous_songs, c),
                    None => old(state)@.previous_songs,
                },
                automatic_next_songs: final(state)@.automatic_next_songs,
                scope: scope,
                song_started_at: now,
                paused_at: None,
                ..old(state)@
            })
            &&& valid_refill(
                library@,
                scope,
                song_id,
                old(state)@.is_shuffled,
                final(state)@.automatic_next_songs,
            )
            &&& actions@ == load_actions(library, song_id)
        }),
        r matches Err(e) ==> *final(state) == *old(state) && ((e == LibraryError::SongNotFound
            && !library@.has_song(song_id)) || (e == LibraryError::SongNotInScope
            && library@.has_song(song_id))),
{
    if library.get_song(song_id).is_none() {
        return Err(LibraryError::SongNotFound);
    }
    let queue = match get_automatic_next_songs(library, song_id, state.is_shuffled, scope) {
        Ok(q) => q,
        Err(e) => {
            return Err(e);
        },
    };
    match state.current_song {
        Some(c) => push_bounded(&mut state.previous_songs, c),
        None => (),
    }
    state.automatic_next_songs = queue;
    state.scope = scope;
    state.current_song = Some(song_id);
    state.song_started_at = now;
    state.paused_at = None;
    let actions = make_load_actions(library, song_id);
    proof {
        assert(final(state)@ =~= (StateModel {
            current_song: Some(song_id),
            previous_songs: match old(state)@.current_song {
                Some(c) => push_history(old(state)@.previous_songs, c),
                None => old(state)@.previous_songs,
            },
            automatic_next_songs: final(state)@.automatic_next_songs,
            scope: scope,
            song_started_at: now,
            paused_at: None,
            ..old(state)@
        }));
        lemma_push_history_bounded(old(state)@.previous_songs, 0);
        match old(state)@.current_song {
            Some(c) => lemma_push_history_bounded(old(state)@.previous_songs, c),
            None => (),
        }
    }
    Ok(actions)
}

/// What loading a chosen next id leaves behind, given the state the queues
/// were already advanced to: on a hit the song plays from `now`; a stale
/// id — one a rescan has invalidated — ends in Idle with the miss
/// reported.
pub open spec fn load_outcome(
    library: &Library,
    s_mid: StateModel,
    f: StateModel,
    r: Result<Vec<Action>, LibraryError>,
    id: u64,
    now: u32,
) -> bool {
    if library@.has_song(id) {
        &&& f == (StateModel { current_song: Some(id), song_started_at: now, paused_at: None, ..s_mid })
        &&& r matches Ok(a) && a@ == load_actions(library, id)
    } else {
        &&& f == (StateModel { current_song: None, ..s_mid })
        &&& r == Err::<Vec<Action>, LibraryError>(LibraryError::SongNotFound)
    }
}

/// Everything `next_song` does, as a relation between the state before
/// (`s0`) and after (`f`). The sources for the next id, first match wins:
/// the user queue, the automatic queue, a recomputed automatic queue when
/// repeat is All, the current song itself when repeat is One; otherwise
/// Idle. Whatever the source, the song that was current joins the bounded
/// history. A current song that fell out of its scope — a race with a
/// rescan — falls back to Idle with the inconsistency reported.
pub open spec fn next_song_post(
    library: &Library,
    s0: StateModel,
    f: StateModel,
    r: Result<Vec<Action>, LibraryError>,
    now: u32,
) -> bool {
    match s0.current_song {
        None => f == s0 && (r matches Ok(a) && a@ == Seq::<Action>::empty()),
        Some(c) => {
            let hist = push_history(s0.previous_songs, c);
            if s0.next_songs.len() > 0 {
                let s_mid = StateModel {
                    previous_songs: hist,
                    next_songs: s0.next_songs.drop_last(),
                    ..s0
                };
                load_outcome(library, s_mid, f, r, s0.next_songs.last(), now)
            } else if s0.automatic_next_songs.len() > 0 {
                let s_mid = StateModel {
                    previous_songs: hist,
                    automatic_next_songs: s0.automatic_next_songs.drop_last(),
                    ..s0
                };
                load_outcome(library, s_mid, f, r, s0.automatic_next_songs.last(), now)
            } else if s0.repeat_mode is All {
                if scope_song_ids(library@, s0.scope).contains(c) {
                    exists|q: Seq<u64>|
                        {
                            &&& #[trigger] valid_refill(library@, s0.scope, c, s0.is_shuffled, q)
                            &&& if q.len() > 0 {
                                let s_mid = StateModel {
                                    previous_songs: hist,
                                    automatic_next_songs: q.drop_last(),
                                    ..s0
                                };
                                load_outcome(library, s_mid, f, r, q.last(), now)
                            } else {
                                let s_mid = StateModel {
                                    previous_songs: hist,
                                    automatic_next_songs: q,
                                    ..s0
                                };
                                f == (StateModel { current_song: None, ..s_mid }) && (r matches Ok(
                                    a,
                                ) && a@ == seq![Action::Stop])
                            }
                        }
                } else {
                    &&& f == (StateModel { previous_songs: hist, current_song: None, ..s0 })
                    &&& r == Err::<Vec<Action>, LibraryError>(LibraryError::SongNotInScope)
                }
            } else if s0.repeat_mode is One {
                let s_mid = StateModel { previous_songs: hist, ..s0 };
                load_outcome(library, s_mid, f, r, c, now)
            } else {
                &&& f == (StateModel { previous_songs: hist, current_song: None, ..s0 })
                &&& r matches Ok(a) && a@ == seq![Action::Stop]
            }
        },
    }
}

/// Loads the chosen next id into the state, or falls to Idle on a stale
/// id. The queues must already be advanced.
fn load_chosen(state: &mut PlayerState, library: &Library, id: u64, now: u32) -> (r: Result<
    Vec<Action>,
    LibraryError,
>)
    requires
        library.wf(),
    ensures
        load_outcome(library, old(state)@, final(state)@, r, id, now),
{
    match library.get_song(id) {
        Some(_) => {
            state.current_song = Some(id);
            state.song_started_at = now;
            state.paused_at = None;
            let actions = make_load_actions(library, id);
            proof {
                assert(final(state)@ =~= (StateModel {
                    current_song: Some(id),
                    song_started_at: now,
                    paused_at: None,
                    ..old(state)@
                }));
            }
            Ok(actions)
        },
        None => {
            state.current_song = None;
            proof {
                assert(final(state)@ =~= (StateModel { current_song: None, ..old(state)@ }));
            }
            Err(LibraryError::SongNotFound)
        },
    }
}

/// Advances to the next song. The id comes from the first nonempty
/// source: the user queue, the automatic queue, a recomputed automatic
/// queue when repeat is All, or the current song again when repeat is
/// One; with no source the transport goes Idle and the engine is stopped.
/// Whatever happens, the song that was current joins the bounded history.
pub fn next_song(state: &mut PlayerState, library: &Library, now: u32) -> (r: Result<
    Vec<Action>,
    LibraryError,
>)
    requires
        library.wf(),
        old(state).inv(),
    ensures
        final(state).inv(),
        next_song_post(library, old(state)@, final(state)@, r, now),
{
    let current = match state.current_song {
        Some(c) => c,
        None => {
            let ghost s0 = state@;
            proof {
                assert(final(state)@ =~= s0);
            }
            return Ok(Vec::new());
        },
    };
    proof {
        lemma_push_history_bounded(old(state)@.previous_songs, current);
    }
    if let Some(id) = state.next_songs.pop() {
        push_bounded(&mut state.previous_songs, current);
        return load_chosen(state, library, id, now);
    }
    if let Some(id) = state.automatic_next_songs.pop() {
        push_bounded(&mut state.previous_songs, current);
        return load_chosen(state, library, id, now);
    }
    match state.repeat_mode {
        RepeatMode::All => {
            match get_automatic_next_songs(library, current, state.is_shuffled, state.scope) {
                Ok(q) => {
                    let ghost q0 = q@;
                    let mut q = q;
                    let chosen = q.pop();
                    state.automatic_next_songs = q;
                    push_bounded(&mut state.previous_songs, current);
                    match chosen {
                        Some(id) => {
                            let r = load_chosen(state, library, id, now);
                            proof {
                                assert(valid_refill(
                                    library@,
                                    old(state)@.scope,
                                    current,
                                    old(state)@.is_shuffled,
                                    q0,
                                ));
                            }
                            r
                        },
                        None => {
                            state.current_song = None;
                            let mut actions: Vec<Action> = Vec::new();
                            actions.push(Action::Stop);
                            proof {
                                assert(valid_refill(
                                    library@,
                                    old(state)@.scope,
                                    current,
                                    old(state)@.is_shuffled,
                                    q0,
                                ));
                                assert(actions@ =~= seq![Action::Stop]);
                            }
                            Ok(actions)
                        },
                    }
                },
                Err(e) => {
                    push_bounded(&mut state.previous_songs, current);
                    state.current_song = None;
                    proof {
                        assert(final(state)@ =~= (StateModel {
                            previous_songs: push_history(old(state)@.previous_songs, current),
                            current_song: None,
                            ..old(state)@
                        }));
                    }
                    Err(e)
                },
            }
        },
        RepeatMode::One => {
            push_bounded(&mut state.previous_songs, current);
            load_chosen(state, library, current, now)
        },
        RepeatMode::Off => {
            push_bounded(&mut state.previous_songs, current);
            state.current_song = None;
            let mut actions: Vec<Action> = Vec::new();
            actions.push(Action::Stop);
            proof {
                assert(actions@ =~= seq![Action::Stop]);
            }
            Ok(actions)
        },
    }
}

/// Everything `previous_song` does, as a relation between the state
/// before (`s0`) and after (`f`). More than five seconds into the song it
/// only restarts it — exactly a seek to zero, no queue moves. Earlier, it
/// pops the bounded history; the song that was current joins the
/// automatic queue so a later advance can reach it again. With no history
/// the transport goes Idle. A stale history id is dropped and reported,
/// and nothing else moves.
pub open spec fn previous_song_post(
    library: &Library,
    s0: StateModel,
    f: StateModel,
    r: Result<Vec<Action>, LibraryError>,
    now: u32,
) -> bool {
    if now - s0.song_started_at > 5 {
        f == spec_seek(s0, now, 0) && (r matches Ok(a) && a@ == seq![
            (Action::SeekTo { seconds: 0 }),
        ])
    } else if s0.previous_songs.len() == 0 {
        f == (StateModel { current_song: None, ..s0 }) && (r matches Ok(a) && a@ == seq![
            Action::Stop,
        ])
    } else {
        let p = s0.previous_songs.last();
        if library@.has_song(p) {
            let auto2 = match s0.current_song {
                Some(c) => s0.automatic_next_songs.push(c),
                None => s0.automatic_next_songs,
            };
            let s_mid = StateModel {
                previous_songs: s0.previous_songs.drop_last(),
                automatic_next_songs: auto2,
                ..s0
            };
            f == (StateModel {
                current_song: Some(p),
                song_started_at: now,
                paused_at: None,
                ..s_mid
            }) && (r matches Ok(a) && a@ == load_actions(library, p))
        } else {
            f == (StateModel { previous_songs: s0.previous_songs.drop_last(), ..s0 }) && r
                == Err::<Vec<Action>, LibraryError>(LibraryError::SongNotFound)
        }
    }
}

/// Steps back: restarts the current song when it has played for more
/// than five seconds, and otherwise returns to the most recent history
/// entry, as `previous_song_post` lays out.
pub fn previous_song(state: &mut PlayerState, library: &Library, now: u32) -> (r: Result<
    Vec<Action>,
    LibraryError,
>)
    requires
        library.wf(),
        old(state).inv(),
        old(state)@.song_started_at <= now,
    ensures
        final(state).inv(),
        previous_song_post(library, old(state)@, final(state)@, r, now),
{
    if now - state.song_started_at > 5 {
        return Ok(seek(state, now, 0));
    }
    match state.previous_songs.pop() {
        None => {
            state.current_song = None;
            let mut actions: Vec<Action> = Vec::new();
            actions.push(Action::Stop);
            proof {
                assert(final(state)@ =~= (StateModel { current_song: None, ..old(state)@ }));
                assert(actions@ =~= seq![Action::Stop]);
            }
            Ok(actions)
        },
        Some(p) => {
            if library.get_song(p).is_none() {
                proof {
                    assert(final(state)@ =~= (StateModel {
                        previous_songs: old(state)@.previous_songs.drop_last(),
                        ..old(state)@
                    }));
                }
                return Err(LibraryError::SongNotFound);
            }
            match state.current_song {
                Some(c) => state.automatic_next_songs.push(c),
                None => (),
            }
            load_chosen(state, library, p, now)
        },
    }
}

/// The end-of-track signal from the engine: with repeat One the same song
/// replays from the start and no queue moves; otherwise it is an
/// automatic advance, exactly as a `next_song` call.
pub fn end_of_stream(state: &mut PlayerState, library: &Library, now: u32) -> (r: Result<
    Vec<Action>,
    LibraryError,
>)
    requires
        library.wf(),
        old(state).inv(),
    ensures
        final(state).inv(),
        old(state)@.repeat_mode is One ==> final(state)@ == spec_seek(old(state)@, now, 0) && (
        r matches Ok(a) && a@ == seq![(Action::SeekTo { seconds: 0 })]),
        !(old(state)@.repeat_mode is One) ==> next_song_post(
            library,
            old(state)@,
            final(state)@,
            r,
            now,
        ),
{
    if state.repeat_mode == RepeatMode::One {
        Ok(seek(state, now, 0))
    } else {
        next_song(state, library, now)
    }
}

/// Projects the fields a subscriber is notified about.
pub fn current_song_data(state: &PlayerState) -> (r: CurrentSongData)
    ensures
        r.current_song == state@.current_song,
        r.song_started_at == state@.song_started_at,
        r.paused_at == state@.paused_at,
{
    CurrentSongData {
        current_song: state.current_song,
        song_started_at: state.song_started_at,
        paused_at: state.paused_at,
    }
}

/// The notifier's comparison: whether the projection moved since the last
/// value a subscriber was sent.
pub fn song_data_changed(a: &CurrentSongData, b: &CurrentSongData) -> (r: bool)
    ensures
        r == (*a != *b),
{
    let songs_equal = match (a.current_song, b.current_song) {
        (Some(x), Some(y)) => x == y,
        (None, None) => true,
        _ => false,
    };
    let paused_equal = match (a.paused_at, b.paused_at) {
        (Some(x), Some(y)) => x == y,
        (None, None) => true,
        _ => false,
    };
    !(songs_equal && a.song_started_at == b.song_started_at && paused_equal)
}

/// Law: a seek moves only the reference timestamp. The queues, the
/// history, the current song, the pause stamp, the mode flags and the
/// volume all stay put — so a repeat-One end of track, which is exactly a
/// seek to zero, replays the same song without touching any queue.
pub proof fn lemma_seek_touches_no_queue(s: StateModel, now: u32, to: u32)
    ensures
        spec_seek(s, now, to).current_song == s.current_song,
        spec_seek(s, now, to).previous_songs == s.previous_songs,
        spec_seek(s, now, to).next_songs == s.next_songs,
        spec_seek(s, now, to).automatic_next_songs == s.automatic_next_songs,
        spec_seek(s, now, to).paused_at == s.paused_at,
        spec_seek(s, now, to).repeat_mode == s.repeat_mode,
        spec_seek(s, now, to).is_shuffled == s.is_shuffled,
        spec_seek(s, now, to).scope == s.scope,
        spec_seek(s, now, to).volume == s.volume,
{
}

/// Law: pausing and then resuming, with nothing in between, shifts the
/// reference point forward by exactly the paused duration, so the elapsed
/// playing time `now - song_started_at` is continuous across the pause;
/// nothing else about the state moves.
pub proof fn lemma_toggle_pause_round_trip(s: StateModel, t1: u32, t2: u32)
    requires
        s.paused_at is None,
        s.song_started_at <= t1 <= t2,
    ensures
        ({
            let paused = spec_toggle_pause(s, t1);
            let resumed = spec_toggle_pause(paused, t2);
            &&& paused.paused_at == Some(t1)
            &&& resumed.paused_at is None
            &&& resumed.song_started_at == s.song_started_at + (t2 - t1)
            &&& t2 - resumed.song_started_at == t1 - s.song_started_at
            &&& resumed == (StateModel { song_started_at: resumed.song_started_at, ..s })
        }),
{
}

/// Law: a step back taken more than five seconds into the song is exactly
/// a restart — the same state a seek to zero leaves, with no queue or
/// history mutation at all.
pub proof fn lemma_previous_song_restart(
    library: &Library,
    s0: StateModel,
    f: StateModel,
    r: Result<Vec<Action>, LibraryError>,
    now: u32,
)
    requires
        previous_song_post(library, s0, f, r, now),
        now - s0.song_started_at > 5,
    ensures
        f == spec_seek(s0, now, 0),
        f.previous_songs == s0.previous_songs,
        f.next_songs == s0.next_songs,
        f.automatic_next_songs == s0.automatic_next_songs,
        f.current_song == s0.current_song,
{
}

/// Law: a step back taken within five seconds, with history available and
/// the entry still in the snapshot, pops exactly one entry off the
/// history and plays it, and the song that was current becomes reachable
/// again through the automatic queue.
pub proof fn lemma_previous_song_pops(
    library: &Library,
    s0: StateModel,
    f: StateModel,
    r: Result<Vec<Action>, LibraryError>,
    now: u32,
)
    requires
        previous_song_post(library, s0, f, r, now),
        now - s0.song_started_at <= 5,
        s0.previous_songs.len() > 0,
        library@.has_song(s0.previous_songs.last()),
    ensures
        f.previous_songs == s0.previous_songs.drop_last(),
        f.current_song == Some(s0.previous_songs.last()),
        s0.current_song matches Some(c) ==> f.automatic_next_songs
            == s0.automatic_next_songs.push(c),
{
}

/// Law: an automatic advance with repeat off and both queues empty ends
/// Idle — no song is current and the engine is stopped.
pub proof fn lemma_end_of_track_idle(
    library: &Library,
    s0: StateModel,
    f: StateModel,
    r: Result<Vec<Action>, LibraryError>,
    now: u32,
)
    requires
        next_song_post(library, s0, f, r, now),
        s0.current_song is Some,
        s0.next_songs.len() == 0,
        s0.automatic_next_songs.len() == 0,
        s0.repeat_mode is Off,
    ensures
        f.current_song is None,
        r matches Ok(a) && a@ == seq![Action::Stop],
{
}

} // verus!
