use vstd::prelude::*;

pub mod config;
pub mod library;
pub mod order;
pub mod player;
pub mod queue;
pub mod scan;
pub mod search;

verus! {

/// How playback continues when the current song ends.
#[derive(Clone, Copy, PartialEq, Eq, Structural, Debug)]
pub enum RepeatMode {
    Off,
    One,
    All,
}

/// The subset of the library an automatic queue draws from: the whole
/// library, one album, or one artist.
#[derive(Clone, Copy, PartialEq, Eq, Structural, Debug)]
pub enum PlayerScope {
    Library,
    Album(u64),
    Artist(u64),
}

/// Most entries `previous_songs` may hold; the oldest is dropped beyond this.
pub const HISTORY_LIMIT: usize = 20;

/// In-memory transport state: the current song, bounded history, queues,
/// mode flags and the pause/seek time bookkeeping. Timestamps are seconds
/// since the Unix epoch; `volume` is in hundredths of full scale.
pub struct PlayerState {
    pub current_song: Option<u64>,
    pub previous_songs: Vec<u64>,
    pub next_songs: Vec<u64>,
    pub automatic_next_songs: Vec<u64>,
    pub repeat_mode: RepeatMode,
    pub is_shuffled: bool,
    pub scope: PlayerScope,
    pub song_started_at: u32,
    pub paused_at: Option<u32>,
    pub volume: u32,
}

/// The mathematical value of the transport state.
#[verifier::ext_equal]
pub struct StateModel {
    pub current_song: Option<u64>,
    pub previous_songs: Seq<u64>,
    pub next_songs: Seq<u64>,
    pub automatic_next_songs: Seq<u64>,
    pub repeat_mode: RepeatMode,
    pub is_shuffled: bool,
    pub scope: PlayerScope,
    pub song_started_at: u32,
    pub paused_at: Option<u32>,
    pub volume: u32,
}

impl View for PlayerState {
    type V = StateModel;

    open spec fn view(&self) -> StateModel {
        StateModel {
            current_song: self.current_song,
            previous_songs: self.previous_songs@,
            next_songs: self.next_songs@,
            automatic_next_songs: self.automatic_next_songs@,
            repeat_mode: self.repeat_mode,
            is_shuffled: self.is_shuffled,
            scope: self.scope,
            song_started_at: self.song_started_at,
            paused_at: self.paused_at,
            volume: self.volume,
        }
    }
}

impl StateModel {
    /// The state invariant: play history never exceeds `HISTORY_LIMIT`.
    pub open spec fn inv(&self) -> bool {
        self.previous_songs.len() <= HISTORY_LIMIT
    }
}

impl PlayerState {
    /// The state invariant, stated of the mathematical value.
    pub open spec fn inv(&self) -> bool {
        self@.inv()
    }
}

impl Default for PlayerState {
    fn default() -> (r: PlayerState)
        ensures
            r.current_song is None,
            r.previous_songs@ == Seq::<u64>::empty(),
            r.next_songs@ == Seq::<u64>::empty(),
            r.automatic_next_songs@ == Seq::<u64>::empty(),
            r.repeat_mode is Off,
            !r.is_shuffled,
            r.scope is Library,
            r.paused_at is Some,
            r.volume == 50,
            r.inv(),
    {
        let now = get_current_time();
        PlayerState {
            current_song: None,
            previous_songs: Vec::new(),
            next_songs: Vec::new(),
            automatic_next_songs: Vec::new(),
            repeat_mode: RepeatMode::Off,
            is_shuffled: false,
            scope: PlayerScope::Library,
            song_started_at: now,
            paused_at: Some(now),
            volume: 50,
        }
    }
}

/// Relies on std's SystemTime for the wall clock: whole seconds elapsed
/// since the Unix epoch, or zero should the clock sit before it. The
/// result depends on the clock, so nothing is promised of it.
#[verifier::external_body]
fn unix_seconds() -> u64 {
    std::time::SystemTime::now()
        .duration_since(std::time::UNIX_EPOCH)
        .map(|d| d.as_secs())
        .unwrap_or(0)
}

/// The wall clock as the transport bookkeeping uses it: whole seconds
/// since the Unix epoch, in 32 bits.
pub fn get_current_time() -> u32 {
    let t = unix_seconds();
    #[verifier::truncate] (t as u32)
}

} // verus!
