use subniri::spotify::{
    valid_client_id, AuthorizationError, ConnectionStatus, SavedState, SpotifyState,
};

#[test]
fn client_ids_are_32_hex_digits() {
    assert!(valid_client_id("0123456789abcdef0123456789ABCDEF"));
    assert!(!valid_client_id("0123456789abcdef0123456789abcde"));
    assert!(!valid_client_id("0123456789abcdef0123456789abcdeg"));
    assert!(!valid_client_id(""));
    assert!(!valid_client_id("0123456789abcdef0123456789abcdé"));
}

#[test]
fn a_track_change_asks_whether_the_track_is_saved() {
    let mut s = SavedState::new();
    let r = s.set_spotify_track(Some("track1".to_string())).unwrap();
    assert_eq!(r.track_id, "track1");
    assert_eq!(r.generation, 1);
    assert_eq!(r.saved, None);
    assert!(s.pending);
    assert!(s.set_spotify_track(Some("track1".to_string())).is_none());
    assert_eq!(s.generation, 1);
    s.spotify_saved_changed("track1", 1, Ok(true));
    assert_eq!(s.saved, Some(true));
    assert!(!s.pending);
}

#[test]
fn stale_answers_are_ignored() {
    let mut s = SavedState::new();
    let first = s.set_spotify_track(Some("a".to_string())).unwrap();
    s.set_spotify_track(Some("b".to_string()));
    s.spotify_saved_changed(&first.track_id, first.generation, Ok(true));
    assert_eq!(s.saved, None);
    assert!(s.pending);
    s.spotify_saved_changed("b", 2, Err("offline".to_string()));
    assert_eq!(s.saved, None);
    assert!(!s.pending);
}

#[test]
fn the_toggle_asks_for_the_opposite_once() {
    let mut s = SavedState::new();
    assert!(s.toggle_spotify_saved().is_none());
    s.set_spotify_track(Some("t".to_string()));
    assert!(s.toggle_spotify_saved().is_none());
    s.spotify_saved_changed("t", 1, Ok(false));
    let r = s.toggle_spotify_saved().unwrap();
    assert_eq!(r.saved, Some(true));
    assert_eq!(r.generation, 1);
    assert!(s.toggle_spotify_saved().is_none());
    assert!(s.set_spotify_track(None).is_none());
    assert_eq!(s.generation, 2);
    assert!(!s.pending);
}

#[test]
fn generations_wrap_around() {
    let mut s = SavedState::new();
    s.generation = u64::MAX;
    let r = s.set_spotify_track(Some("t".to_string())).unwrap();
    assert_eq!(r.generation, 0);
}

#[test]
fn reconfiguration_decides_the_status() {
    let mut st: SpotifyState<u32> = SpotifyState::new();
    assert_eq!(st.status.text(), "Unconfigured");
    assert_eq!(st.reconfigure(false, "0123456789abcdef0123456789abcdef"), None);
    assert_eq!(st.status.text(), "Disabled");
    assert_eq!(st.generation, 1);
    assert_eq!(st.reconfigure(true, "bad"), None);
    assert_eq!(st.status.text(), "Unconfigured");
    assert_eq!(st.reconfigure(true, "0123456789abcdef0123456789abcdef"), Some(3));
    assert_eq!(st.status.text(), "Connecting");
}

#[test]
fn client_setup_for_an_old_configuration_is_ignored() {
    let mut st: SpotifyState<u32> = SpotifyState::new();
    let g = st.reconfigure(true, "0123456789abcdef0123456789abcdef").unwrap();
    st.reconfigure(true, "0123456789abcdef0123456789abcdef");
    st.client_initialized(g, Ok((7, "https://auth".to_string(), true)));
    assert!(st.client.is_none());
    assert_eq!(st.status.text(), "Connecting");
    st.client_initialized(g + 1, Ok((7, "https://auth".to_string(), false)));
    assert_eq!(st.client, Some(7));
    assert_eq!(st.status.text(), "Authentication required");
    assert!(!st.authenticated);
    st.client_initialized(g + 1, Err("boom".to_string()));
    assert_eq!(st.status.text(), "Error: boom");
    assert!(st.client.is_none());
}

#[test]
fn authorization_needs_a_client_and_a_url() {
    let mut st: SpotifyState<u32> = SpotifyState::new();
    assert_eq!(st.begin_authorization().unwrap_err(), AuthorizationError::NotConfigured);
    assert_eq!(st.client().unwrap_err(), AuthorizationError::NotConfigured);
    let g = st.generation;
    st.set_connection_state(g, Some(3), None, ConnectionStatus::AuthenticationRequired, false);
    assert_eq!(st.begin_authorization().unwrap_err(), AuthorizationError::Unavailable);
    assert_eq!(AuthorizationError::Unavailable.message(), "Spotify authorization is unavailable");
    st.set_connection_state(g, Some(3), Some("https://auth".to_string()), ConnectionStatus::AuthenticationRequired, false);
    let (c, url, gen) = st.begin_authorization().unwrap();
    assert_eq!((c, url.as_str(), gen), (3, "https://auth", g));
    assert_eq!(st.status.text(), "Authorizing");
    st.finish_authorization(g, Ok(()));
    assert_eq!(st.status.text(), "Ready");
    assert!(st.authenticated);
    st.finish_authorization(g, Err("denied".to_string()));
    assert_eq!(st.status.text(), "Error: denied");
    assert!(!st.authenticated);
    st.finish_authorization(g + 5, Ok(()));
    assert!(!st.authenticated);
}
