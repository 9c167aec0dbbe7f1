use subniri::media_popup::{artists_line, length_text, popup_controls, saved_button, SavedButton};
use subniri::player::{LoopStatus, PlayerSnapshot};
use subniri::spotify::SavedState;

fn snapshot() -> PlayerSnapshot {
    PlayerSnapshot {
        title: "Song".to_owned(),
        artists: vec![],
        art_url: None,
        url: None,
        desktop_entry: String::new(),
        length_secs: 0,
        length_subsec_nanos: 0,
        is_playing: true,
        shuffle: None,
        loop_status: Some(LoopStatus::Off),
        can_control: true,
        can_skip: true,
        can_previous: false,
        can_seek: true,
        can_play: true,
        can_pause: false,
    }
}

#[test]
fn controls_follow_what_the_player_allows() {
    let s = snapshot();
    let c = popup_controls(&s).unwrap();
    assert!(c.repeat_enabled && !c.shuffle_enabled);
    assert!(!c.previous_enabled && c.next_enabled);
    // Playing but unable to pause: the button shows pause and cannot be pressed.
    assert!(c.shows_pause && !c.play_pause_enabled);
    let mut s = s;
    s.can_control = false;
    assert!(popup_controls(&s).is_none());
}

#[test]
fn the_heart_shows_for_spotify_tracks() {
    let mut state = SavedState { track_id: None, saved: None, pending: false, generation: 0 };
    assert!(saved_button(&state).is_none());
    state.track_id = Some("abc".to_owned());
    assert_eq!(saved_button(&state), Some(SavedButton { filled: false, enabled: false }));
    state.saved = Some(true);
    assert_eq!(saved_button(&state), Some(SavedButton { filled: true, enabled: true }));
    state.pending = true;
    assert_eq!(saved_button(&state), Some(SavedButton { filled: true, enabled: false }));
}

#[test]
fn artists_and_lengths_are_written_out() {
    assert_eq!(artists_line(&vec![]), "");
    assert_eq!(artists_line(&vec!["A".to_owned()]), "A");
    assert_eq!(artists_line(&vec!["A".to_owned(), "B".to_owned(), "C".to_owned()]), "A, B, C");
    // Three and a half minutes: 210 500 ms, times a thousand, modulo sixty is 20.
    assert_eq!(length_text(210, 500_000_000), "03:20");
    assert_eq!(length_text(5, 0), "00:20");
    assert_eq!(length_text(6000, 1_000_000), "100:40");
}
