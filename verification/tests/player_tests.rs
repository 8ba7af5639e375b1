use ronix::library::{Library, LibraryError};
use ronix::player::{
    current_song_data, end_of_stream, next_song, play_song, previous_song, seek, song_data_changed,
    toggle_pause, volume_changed, Action,
};
use ronix::scan::{build_library, TagEntry};
use ronix::{PlayerScope, PlayerState, RepeatMode, HISTORY_LIMIT};

fn entry(title: &str, artist: &str, album: &str) -> TagEntry {
    TagEntry {
        path: format!("/music/{}.mp3", title),
        title: Some(title.to_string()),
        artist: Some(artist.to_string()),
        album: Some(album.to_string()),
        duration: 180,
        cover_art: None,
    }
}

fn song_id(lib: &Library, title: &str) -> u64 {
    lib.songs.iter().find(|s| s.title == title).unwrap().id
}

fn three_song_library() -> Library {
    build_library(&vec![
        entry("Alpha", "Band", "Record"),
        entry("Mid", "Band", "Record"),
        entry("Zeta", "Band", "Record"),
    ])
}

#[test]
fn play_song_loads_and_announces() {
    let lib = three_song_library();
    let mid = song_id(&lib, "Mid");
    let mut state = PlayerState::default();
    let actions = play_song(&mut state, &lib, mid, PlayerScope::Library, 1000).unwrap();
    assert_eq!(state.current_song, Some(mid));
    assert_eq!(state.song_started_at, 1000);
    assert_eq!(state.paused_at, None);
    assert!(state.previous_songs.is_empty());
    // The queue is seeded from Mid: pop order Zeta then Alpha.
    assert_eq!(
        state.automatic_next_songs,
        vec![song_id(&lib, "Alpha"), song_id(&lib, "Zeta")]
    );
    assert_eq!(actions.len(), 4);
    assert_eq!(actions[0], Action::SetUri { path: "/music/Mid.mp3".to_string() });
    assert_eq!(actions[1], Action::Play);
    assert_eq!(
        actions[2],
        Action::SetMetadata {
            title: "Mid".to_string(),
            album: "Record".to_string(),
            artist: "Band".to_string(),
            cover_art: None,
            duration: 180,
        }
    );
    assert_eq!(actions[3], Action::SetPlaybackPlaying);
}

#[test]
fn play_song_rejects_unknown_and_out_of_scope_ids() {
    let lib = build_library(&vec![
        entry("One More Time", "Daft Punk", "Discovery"),
        entry("Windowlicker", "Aphex Twin", "Windowlicker"),
    ]);
    let one = song_id(&lib, "One More Time");
    let aphex = lib.artists.iter().find(|a| a.name == "Aphex Twin").unwrap().id;
    let mut state = PlayerState::default();
    assert_eq!(
        play_song(&mut state, &lib, 987_654, PlayerScope::Library, 50),
        Err(LibraryError::SongNotFound)
    );
    assert_eq!(
        play_song(&mut state, &lib, one, PlayerScope::Artist(aphex), 50),
        Err(LibraryError::SongNotInScope)
    );
    assert_eq!(state.current_song, None);
}

#[test]
fn next_song_prefers_the_user_queue() {
    let lib = three_song_library();
    let alpha = song_id(&lib, "Alpha");
    let mid = song_id(&lib, "Mid");
    let zeta = song_id(&lib, "Zeta");
    let mut state = PlayerState::default();
    play_song(&mut state, &lib, mid, PlayerScope::Library, 1000).unwrap();
    state.next_songs.push(alpha);
    next_song(&mut state, &lib, 1200).unwrap();
    // The user queue wins over the automatic queue (whose next was Zeta).
    assert_eq!(state.current_song, Some(alpha));
    assert!(state.next_songs.is_empty());
    assert_eq!(state.previous_songs, vec![mid]);
    assert_eq!(state.automatic_next_songs, vec![alpha, zeta]);
}

#[test]
fn next_song_pops_the_automatic_queue() {
    let lib = three_song_library();
    let mid = song_id(&lib, "Mid");
    let zeta = song_id(&lib, "Zeta");
    let alpha = song_id(&lib, "Alpha");
    let mut state = PlayerState::default();
    play_song(&mut state, &lib, mid, PlayerScope::Library, 1000).unwrap();
    next_song(&mut state, &lib, 1200).unwrap();
    assert_eq!(state.current_song, Some(zeta));
    assert_eq!(state.song_started_at, 1200);
    assert_eq!(state.automatic_next_songs, vec![alpha]);
    assert_eq!(state.previous_songs, vec![mid]);
}

#[test]
fn next_song_with_nothing_left_goes_idle() {
    let lib = three_song_library();
    let mid = song_id(&lib, "Mid");
    let mut state = PlayerState::default();
    play_song(&mut state, &lib, mid, PlayerScope::Library, 1000).unwrap();
    state.automatic_next_songs.clear();
    let actions = next_song(&mut state, &lib, 1200).unwrap();
    assert_eq!(state.current_song, None);
    assert_eq!(state.previous_songs, vec![mid]);
    assert_eq!(actions, vec![Action::Stop]);
}

#[test]
fn next_song_repeat_one_replays_the_current_id() {
    let lib = three_song_library();
    let mid = song_id(&lib, "Mid");
    let mut state = PlayerState::default();
    play_song(&mut state, &lib, mid, PlayerScope::Library, 1000).unwrap();
    state.automatic_next_songs.clear();
    state.repeat_mode = RepeatMode::One;
    next_song(&mut state, &lib, 1200).unwrap();
    assert_eq!(state.current_song, Some(mid));
    assert_eq!(state.previous_songs, vec![mid]);
}

#[test]
fn next_song_repeat_all_refills_the_queue() {
    let lib = three_song_library();
    let mid = song_id(&lib, "Mid");
    let alpha = song_id(&lib, "Alpha");
    let zeta = song_id(&lib, "Zeta");
    let mut state = PlayerState::default();
    play_song(&mut state, &lib, mid, PlayerScope::Library, 1000).unwrap();
    state.automatic_next_songs.clear();
    state.repeat_mode = RepeatMode::All;
    next_song(&mut state, &lib, 1200).unwrap();
    // The refill from Mid is [Alpha, Zeta]; its end pops first.
    assert_eq!(state.current_song, Some(zeta));
    assert_eq!(state.automatic_next_songs, vec![alpha]);
}

#[test]
fn next_song_when_idle_does_nothing() {
    let lib = three_song_library();
    let mut state = PlayerState::default();
    let actions = next_song(&mut state, &lib, 1200).unwrap();
    assert!(actions.is_empty());
    assert_eq!(state.current_song, None);
}

#[test]
fn history_never_exceeds_its_bound() {
    let lib = three_song_library();
    let mid = song_id(&lib, "Mid");
    let mut state = PlayerState::default();
    state.repeat_mode = RepeatMode::All;
    play_song(&mut state, &lib, mid, PlayerScope::Library, 1000).unwrap();
    for round in 0..60 {
        next_song(&mut state, &lib, 1010 + round).unwrap();
        assert!(state.previous_songs.len() <= HISTORY_LIMIT);
    }
    assert_eq!(state.previous_songs.len(), HISTORY_LIMIT);
}

#[test]
fn toggle_pause_round_trip_keeps_elapsed_time_continuous() {
    let lib = three_song_library();
    let mid = song_id(&lib, "Mid");
    let mut state = PlayerState::default();
    play_song(&mut state, &lib, mid, PlayerScope::Library, 1000).unwrap();
    // 7 seconds in, pause for 13 seconds, then resume.
    let a1 = toggle_pause(&mut state, 1007);
    assert_eq!(state.paused_at, Some(1007));
    assert_eq!(a1, vec![Action::Pause, Action::SetPlaybackPaused]);
    let a2 = toggle_pause(&mut state, 1020);
    assert_eq!(state.paused_at, None);
    assert_eq!(a2, vec![Action::Play, Action::SetPlaybackPlaying]);
    // The reference point moved by exactly the paused duration ...
    assert_eq!(state.song_started_at, 1013);
    // ... so elapsed playing time is continuous across the pause.
    assert_eq!(1020 - state.song_started_at, 1007 - 1000);
}

#[test]
fn seek_moves_the_reference_point() {
    let lib = three_song_library();
    let mid = song_id(&lib, "Mid");
    let mut state = PlayerState::default();
    play_song(&mut state, &lib, mid, PlayerScope::Library, 1000).unwrap();
    let actions = seek(&mut state, 1050, 30);
    assert_eq!(actions, vec![Action::SeekTo { seconds: 30 }]);
    assert_eq!(state.song_started_at, 1020);
    assert_eq!(state.current_song, Some(mid));
}

#[test]
fn previous_song_late_restarts_instead_of_popping() {
    let lib = three_song_library();
    let mid = song_id(&lib, "Mid");
    let zeta = song_id(&lib, "Zeta");
    let mut state = PlayerState::default();
    play_song(&mut state, &lib, mid, PlayerScope::Library, 1000).unwrap();
    next_song(&mut state, &lib, 1100).unwrap();
    assert_eq!(state.current_song, Some(zeta));
    // 40 seconds in: stepping back only restarts the song.
    let actions = previous_song(&mut state, &lib, 1140).unwrap();
    assert_eq!(actions, vec![Action::SeekTo { seconds: 0 }]);
    assert_eq!(state.current_song, Some(zeta));
    assert_eq!(state.song_started_at, 1140);
    assert_eq!(state.previous_songs, vec![mid]);
}

#[test]
fn previous_song_early_pops_history() {
    let lib = three_song_library();
    let mid = song_id(&lib, "Mid");
    let zeta = song_id(&lib, "Zeta");
    let alpha = song_id(&lib, "Alpha");
    let mut state = PlayerState::default();
    play_song(&mut state, &lib, mid, PlayerScope::Library, 1000).unwrap();
    next_song(&mut state, &lib, 1100).unwrap();
    // Only 3 seconds into Zeta: step back to Mid.
    previous_song(&mut state, &lib, 1103).unwrap();
    assert_eq!(state.current_song, Some(mid));
    assert!(state.previous_songs.is_empty());
    // Zeta stays reachable through the automatic queue.
    assert_eq!(state.automatic_next_songs, vec![alpha, zeta]);
}

#[test]
fn previous_song_with_no_history_goes_idle() {
    let lib = three_song_library();
    let mid = song_id(&lib, "Mid");
    let mut state = PlayerState::default();
    play_song(&mut state, &lib, mid, PlayerScope::Library, 1000).unwrap();
    let actions = previous_song(&mut state, &lib, 1002).unwrap();
    assert_eq!(actions, vec![Action::Stop]);
    assert_eq!(state.current_song, None);
}

#[test]
fn end_of_stream_repeat_one_replays_without_queue_mutation() {
    let lib = three_song_library();
    let mid = song_id(&lib, "Mid");
    let mut state = PlayerState::default();
    play_song(&mut state, &lib, mid, PlayerScope::Library, 1000).unwrap();
    state.repeat_mode = RepeatMode::One;
    let queue_before = state.automatic_next_songs.clone();
    let history_before = state.previous_songs.clone();
    let actions = end_of_stream(&mut state, &lib, 1180).unwrap();
    assert_eq!(actions, vec![Action::SeekTo { seconds: 0 }]);
    assert_eq!(state.current_song, Some(mid));
    assert_eq!(state.automatic_next_songs, queue_before);
    assert_eq!(state.previous_songs, history_before);
    assert!(state.next_songs.is_empty());
}

#[test]
fn end_of_stream_repeat_off_with_empty_queues_goes_idle() {
    let lib = three_song_library();
    let mid = song_id(&lib, "Mid");
    let mut state = PlayerState::default();
    play_song(&mut state, &lib, mid, PlayerScope::Library, 1000).unwrap();
    state.automatic_next_songs.clear();
    let actions = end_of_stream(&mut state, &lib, 1180).unwrap();
    assert_eq!(actions, vec![Action::Stop]);
    assert_eq!(state.current_song, None);
}

#[test]
fn volume_changed_touches_only_the_volume() {
    let mut state = PlayerState::default();
    let started = state.song_started_at;
    volume_changed(&mut state, 80);
    assert_eq!(state.volume, 80);
    assert_eq!(state.current_song, None);
    assert_eq!(state.song_started_at, started);
}

#[test]
fn song_data_projection_and_comparison() {
    let lib = three_song_library();
    let mid = song_id(&lib, "Mid");
    let mut state = PlayerState::default();
    let before = current_song_data(&state);
    assert!(!song_data_changed(&before, &before));
    play_song(&mut state, &lib, mid, PlayerScope::Library, 1000).unwrap();
    let after = current_song_data(&state);
    assert!(song_data_changed(&before, &after));
    assert_eq!(after.current_song, Some(mid));
    assert_eq!(after.song_started_at, 1000);
    assert_eq!(after.paused_at, None);
}

#[test]
fn default_state_is_idle_and_paused() {
    let state = PlayerState::default();
    assert_eq!(state.current_song, None);
    assert!(state.previous_songs.is_empty());
    assert!(state.next_songs.is_empty());
    assert!(state.automatic_next_songs.is_empty());
    assert_eq!(state.repeat_mode, RepeatMode::Off);
    assert!(!state.is_shuffled);
    assert!(matches!(state.scope, PlayerScope::Library));
    assert!(state.paused_at.is_some());
    assert_eq!(state.volume, 50);
}

#[test]
fn clock_reads_unix_seconds() {
    let now = ronix::get_current_time();
    assert!(now > 1_600_000_000);
}
