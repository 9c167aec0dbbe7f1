use subniri::player::{
    focus_target, snapshot_from_reads, ButtonState, LoopStatus, MediaSession, PlaybackStatus,
    PlayerReads, PlayerSnapshot, WindowCandidate,
};

fn reads() -> PlayerReads {
    PlayerReads {
        title: Ok(Some("Song".to_string())),
        artists: Ok(Some(vec!["A".to_string()])),
        art_url: Ok(Some("https://art".to_string())),
        url: Ok(Some("spotify:track:4iV5W9uYEdYUVa79Axb7Rh".to_string())),
        length: Ok(Some((180, 5))),
        playback_status: Ok(PlaybackStatus::Playing),
        desktop_entry: Ok("spotify".to_string()),
        can_control: Ok(true),
        can_next: Ok(true),
        can_previous: Err("no".to_string()),
        can_seek: Ok(false),
        can_play: Ok(true),
        can_pause: Ok(true),
        shuffle: Err("unsupported".to_string()),
        loop_status: Ok(LoopStatus::Playlist),
    }
}

#[test]
fn snapshots_fall_back_per_field() {
    let s = snapshot_from_reads(Some(reads()));
    assert_eq!(s.title, "Song");
    assert!(s.is_playing);
    assert!(!s.can_previous);
    assert!(s.can_skip);
    assert_eq!(s.shuffle, None);
    assert_eq!(s.loop_status, Some(LoopStatus::Playlist));
    assert_eq!((s.length_secs, s.length_subsec_nanos), (180, 5));
    let mut r = reads();
    r.title = Err("x".to_string());
    r.playback_status = Ok(PlaybackStatus::Paused);
    r.artists = Ok(None);
    let s2 = snapshot_from_reads(Some(r));
    assert_eq!(s2.title, "<failed>");
    assert!(!s2.is_playing);
    assert!(s2.artists.is_empty());
    let mut r3 = reads();
    r3.title = Ok(None);
    assert_eq!(snapshot_from_reads(Some(r3)).title, "<unknown>");
    let empty = snapshot_from_reads(None);
    assert_eq!(empty.title, "");
    assert!(!empty.can_play);
}

#[test]
fn the_session_follows_the_active_player() {
    let mut m = MediaSession::new();
    let snap = snapshot_from_reads(Some(reads()));
    let u = m.player_changed("org.mpris.MediaPlayer2.spotify".to_string(), snap.clone());
    let key = u.thumbnail.unwrap();
    assert_eq!(key.art_url.as_deref(), Some("https://art"));
    let req = u.spotify.unwrap();
    assert_eq!(req.track_id, "4iV5W9uYEdYUVa79Axb7Rh");
    assert!(m.is_active("org.mpris.MediaPlayer2.spotify"));
    // An update that keeps both URLs needs no new thumbnail and no new question.
    let mut same = snap.clone();
    same.title = "Other".to_string();
    let u2 = m.player_updated("org.mpris.MediaPlayer2.spotify", same).unwrap();
    assert!(u2.thumbnail.is_none());
    assert!(u2.spotify.is_none());
    assert!(m.player_updated("org.mpris.MediaPlayer2.vlc", snap.clone()).is_none());
    let mut moved = snap.clone();
    moved.url = Some("https://youtube.com/watch?v=x".to_string());
    let u3 = m.player_updated("org.mpris.MediaPlayer2.spotify", moved).unwrap();
    assert!(u3.thumbnail.is_some());
    assert!(u3.spotify.is_none());
    assert!(m.spotify.track_id.is_none());
    assert!(!m.player_detached("org.mpris.MediaPlayer2.vlc"));
    assert!(m.player_detached("org.mpris.MediaPlayer2.spotify"));
    assert!(m.active.is_none());
    let _ = PlayerSnapshot::default();
}

#[test]
fn the_window_of_a_player_is_found_by_app_id_and_title() {
    let w = |id: u64, app: Option<&str>, title: Option<&str>| WindowCandidate {
        id,
        app_id: app.map(str::to_string),
        title: title.map(str::to_string),
    };
    let windows = vec![
        w(1, Some("firefox"), Some("Mail")),
        w(2, Some("org.mozilla.Firefox"), Some("YouTube - Music")),
        w(3, None, Some("youtube")),
        w(4, Some("kitty"), Some("shell")),
    ];
    assert_eq!(focus_target("Firefox", "youtube", &windows), Some(2));
    assert_eq!(focus_target("firefox", "", &windows), Some(1));
    assert_eq!(focus_target("firefox", "nothing", &windows), Some(1));
    assert_eq!(focus_target("KITTY", "whatever", &windows), Some(4));
    assert_eq!(focus_target("spotify", "x", &windows), None);
}

#[test]
fn button_states_have_names() {
    assert_eq!(ButtonState::default(), ButtonState::PlayerIcon);
    assert_eq!(ButtonState::SwitcherIcon.name(), "switcher-icon");
    assert_eq!(ButtonState::from_name("switcher-icon"), ButtonState::SwitcherIcon);
    assert_eq!(ButtonState::from_name("other"), ButtonState::PlayerIcon);
}
