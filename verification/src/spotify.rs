use vstd::prelude::*;

use crate::text::{push_str, str_eq};
use vstd::string::StringSliceAdditionalSpecFns;

verus! {

/// The generation that follows `g`: one more, wrapping to zero after `u64::MAX`.
pub open spec fn next_generation(g: u64) -> u64 {
    if g == u64::MAX { 0 } else { (g + 1) as u64 }
}

fn bump(g: u64) -> (r: u64)
    ensures
        r == next_generation(g),
{
    g.wrapping_add(1)
}

/// The characters of an optional string.
pub open spec fn opt_chars(s: Option<String>) -> Option<Seq<char>> {
    match s {
        Some(s) => Some(s@),
        None => None,
    }
}

fn opt_string_eq(a: &Option<String>, b: &Option<String>) -> (r: bool)
    ensures
        r == (opt_chars(*a) == opt_chars(*b)),
{
    match (a, b) {
        (Some(x), Some(y)) => str_eq(x.as_str(), y.as_str()),
        (None, None) => true,
        _ => false,
    }
}

/// Whether a byte is an ASCII hexadecimal digit.
pub open spec fn is_hex_byte(b: u8) -> bool {
    (48 <= b <= 57) || (65 <= b <= 70) || (97 <= b <= 102)
}

/// A Spotify client id: exactly 32 bytes, each an ASCII hexadecimal digit.
pub open spec fn valid_client_id_spec(bytes: Seq<u8>) -> bool {
    bytes.len() == 32 && forall|i: int| 0 <= i < bytes.len() ==> is_hex_byte(#[trigger] bytes[i])
}

/// Whether `client_id` has the shape of a Spotify client id.
pub fn valid_client_id(client_id: &str) -> (r: bool)
    ensures
        r == valid_client_id_spec(client_id.spec_bytes()),
{
    let bytes = client_id.as_bytes();
    if bytes.len() != 32 {
        return false;
    }
    let mut i: usize = 0;
    while i < bytes.len()
        invariant
            i <= bytes@.len(),
            bytes@ == client_id.spec_bytes(),
            forall|j: int| 0 <= j < i ==> is_hex_byte(#[trigger] bytes@[j]),
        decreases bytes@.len() - i,
    {
        let b = bytes[i];
        if !((48 <= b && b <= 57) || (65 <= b && b <= 70) || (97 <= b && b <= 102)) {
            return false;
        }
        i = i + 1;
    }
    true
}

// ---------------------------------------------------------------------------
// The saved-track toggle of the media controls.
// ---------------------------------------------------------------------------

/// A question to the Spotify service about a track: whether it is saved
/// (`saved` is `None`), or a request to save or unsave it (`Some(wanted)`).
/// `generation` ties the answer to the track that was current when it was asked.
#[derive(Debug)]
pub struct SavedRequest {
    pub track_id: String,
    pub generation: u64,
    pub saved: Option<bool>,
}

/// What the media controls know of the current track's saved state.
#[derive(Debug)]
pub struct SavedState {
    pub track_id: Option<String>,
    pub saved: Option<bool>,
    pub pending: bool,
    pub generation: u64,
}

/// The state after the current track is set to `track_id`, and the request
/// that the change asks for.
pub open spec fn set_track_spec(
    s: SavedState,
    track_id: Option<String>,
) -> (SavedState, Option<SavedRequest>) {
    if opt_chars(s.track_id) == opt_chars(track_id) {
        (s, None)
    } else {
        let g = next_generation(s.generation);
        (
            SavedState { track_id, saved: None, pending: track_id is Some, generation: g },
            match track_id {
                Some(t) => Some(SavedRequest { track_id: t, generation: g, saved: None }),
                None => None,
            },
        )
    }
}

/// The state after the saved toggle is pressed, and the request it sends.
pub open spec fn toggle_spec(s: SavedState) -> (SavedState, Option<SavedRequest>) {
    match (s.track_id, s.saved) {
        (Some(t), Some(saved)) if !s.pending => (
            SavedState { pending: true, ..s },
            Some(SavedRequest { track_id: t, generation: s.generation, saved: Some(!saved) }),
        ),
        _ => (s, None),
    }
}

/// Whether an answer about `track_id` at `generation` belongs to the current track.
pub open spec fn answer_is_current(s: SavedState, track_id: Seq<char>, generation: u64) -> bool {
    generation == s.generation && opt_chars(s.track_id) == Some(track_id)
}

/// The state after an answer from the Spotify service arrives.
pub open spec fn saved_changed_spec(
    s: SavedState,
    track_id: Seq<char>,
    generation: u64,
    result: Result<bool, String>,
) -> SavedState {
    if !answer_is_current(s, track_id, generation) {
        s
    } else {
        SavedState {
            pending: false,
            saved: match result {
                Ok(b) => Some(b),
                Err(_) => None,
            },
            ..s
        }
    }
}

impl SavedState {
    /// No track, nothing known, generation zero.
    pub fn new() -> (s: Self)
        ensures
            s.track_id is None,
            s.saved is None,
            !s.pending,
            s.generation == 0,
    {
        SavedState { track_id: None, saved: None, pending: false, generation: 0 }
    }

    /// Makes `track_id` the current track. A change forgets the saved state, starts a new
    /// generation and, for a track, asks whether it is saved.
    pub fn set_spotify_track(&mut self, track_id: Option<String>) -> (r: Option<SavedRequest>)
        ensures
            (*final(self), r) == set_track_spec(*old(self), track_id),
    {
        if opt_string_eq(&self.track_id, &track_id) {
            return None;
        }
        self.generation = bump(self.generation);
        self.saved = None;
        self.pending = track_id.is_some();
        match track_id {
            Some(t) => {
                self.track_id = Some(t.clone());
                Some(SavedRequest { track_id: t, generation: self.generation, saved: None })
            },
            None => {
                self.track_id = None;
                None
            },
        }
    }

    /// The saved toggle: when the saved state of the current track is known and no
    /// request is pending, asks for the opposite state.
    pub fn toggle_spotify_saved(&mut self) -> (r: Option<SavedRequest>)
        ensures
            (*final(self), r) == toggle_spec(*old(self)),
    {
        if self.pending {
            return None;
        }
        match (&self.track_id, self.saved) {
            (Some(t), Some(saved)) => {
                let t = t.clone();
                self.pending = true;
                Some(SavedRequest { track_id: t, generation: self.generation, saved: Some(!saved) })
            },
            _ => None,
        }
    }

    /// An answer from the Spotify service. Answers for another track or an older
    /// generation are ignored; otherwise the pending request ends and the answer
    /// (or, on an error, nothing) becomes the saved state.
    pub fn spotify_saved_changed(&mut self, track_id: &str, generation: u64, result: Result<bool, String>)
        ensures
            *final(self) == saved_changed_spec(*old(self), track_id@, generation, result),
    {
        let current = match &self.track_id {
            Some(t) => generation == self.generation && str_eq(t.as_str(), track_id),
            None => false,
        };
        if !current {
            return;
        }
        self.pending = false;
        self.saved = match result {
            Ok(b) => Some(b),
            Err(_) => None,
        };
    }
}

/// Once the current track has changed, an answer to a request made for the track
/// before (at its generation) leaves the state as it is.
pub proof fn lemma_stale_answer_is_ignored(
    s: SavedState,
    track_id: Option<String>,
    earlier: SavedRequest,
    result: Result<bool, String>,
)
    requires
        earlier.generation == s.generation,
        opt_chars(s.track_id) != opt_chars(track_id),
    ensures
        saved_changed_spec(set_track_spec(s, track_id).0, earlier.track_id@, earlier.generation, result)
            == set_track_spec(s, track_id).0,
{
}

/// The answer to the request that a track change sends is the saved state that
/// follows it, and ends the pending request.
pub proof fn lemma_answer_to_current_request_applies(s: SavedState, track_id: String, saved: bool)
    requires
        opt_chars(s.track_id) != Some(track_id@),
    ensures
        ({
            let (s2, r) = set_track_spec(s, Some(track_id));
            let s3 = saved_changed_spec(s2, r.unwrap().track_id@, r.unwrap().generation, Ok(saved));
            &&& r is Some
            &&& s3.saved == Some(saved)
            &&& !s3.pending
            &&& opt_chars(s3.track_id) == Some(track_id@)
        }),
{
}

/// The toggle asks for the opposite of the known saved state, and a second toggle
/// before the answer asks for nothing.
pub proof fn lemma_toggle_asks_for_opposite(s: SavedState)
    requires
        s.track_id is Some,
        s.saved is Some,
        !s.pending,
    ensures
        toggle_spec(s).1 == Some(SavedRequest {
            track_id: s.track_id.unwrap(),
            generation: s.generation,
            saved: Some(!s.saved.unwrap()),
        }),
        toggle_spec(toggle_spec(s).0).1 is None,
{
}

// ---------------------------------------------------------------------------
// The connection state of the Spotify service of the daemon.
// ---------------------------------------------------------------------------

/// The status that the Spotify service reports.
#[derive(Debug)]
pub enum ConnectionStatus {
    Unconfigured,
    Disabled,
    Connecting,
    Ready,
    AuthenticationRequired,
    Authorizing,
    Error(String),
}

/// The text of a status, as the service's `Status` property shows it.
pub open spec fn status_text_spec(s: ConnectionStatus) -> Seq<char> {
    match s {
        ConnectionStatus::Unconfigured => "Unconfigured"@,
        ConnectionStatus::Disabled => "Disabled"@,
        ConnectionStatus::Connecting => "Connecting"@,
        ConnectionStatus::Ready => "Ready"@,
        ConnectionStatus::AuthenticationRequired => "Authentication required"@,
        ConnectionStatus::Authorizing => "Authorizing"@,
        ConnectionStatus::Error(e) => "Error: "@ + e@,
    }
}

impl ConnectionStatus {
    /// The text of the status.
    pub fn text(&self) -> (r: String)
        ensures
            r@ == status_text_spec(*self),
    {
        match self {
            ConnectionStatus::Unconfigured => "Unconfigured".to_owned(),
            ConnectionStatus::Disabled => "Disabled".to_owned(),
            ConnectionStatus::Connecting => "Connecting".to_owned(),
            ConnectionStatus::Ready => "Ready".to_owned(),
            ConnectionStatus::AuthenticationRequired => "Authentication required".to_owned(),
            ConnectionStatus::Authorizing => "Authorizing".to_owned(),
            ConnectionStatus::Error(e) => {
                let mut r = "Error: ".to_owned();
                push_str(&mut r, e.as_str());
                r
            },
        }
    }
}

/// Why an authorization cannot start.
#[derive(Debug, PartialEq, Eq, Structural)]
pub enum AuthorizationError {
    /// No client is configured.
    NotConfigured,
    /// The client has no authorization URL.
    Unavailable,
}

/// The message of an authorization error.
pub open spec fn authorization_error_text(e: AuthorizationError) -> Seq<char> {
    match e {
        AuthorizationError::NotConfigured => "Spotify is not configured"@,
        AuthorizationError::Unavailable => "Spotify authorization is unavailable"@,
    }
}

impl AuthorizationError {
    /// The message of the error.
    pub fn message(&self) -> (r: String)
        ensures
            r@ == authorization_error_text(*self),
    {
        match self {
            AuthorizationError::NotConfigured => "Spotify is not configured".to_owned(),
            AuthorizationError::Unavailable => "Spotify authorization is unavailable".to_owned(),
        }
    }
}

/// The state of the Spotify service: the client (`C`, a handle that the service
/// shares), the URL that starts an authorization, the status, and the generation that
/// each reconfiguration starts, so that work begun for an earlier configuration
/// cannot overwrite the state of a later one.
pub struct SpotifyState<C> {
    pub client: Option<C>,
    pub authorization_url: Option<String>,
    pub status: ConnectionStatus,
    pub authenticated: bool,
    pub generation: u64,
}

/// The state after `set_connection_state`.
pub open spec fn connection_state_spec<C>(
    s: SpotifyState<C>,
    generation: u64,
    client: Option<C>,
    authorization_url: Option<String>,
    status: ConnectionStatus,
    authenticated: bool,
) -> SpotifyState<C> {
    if generation != s.generation {
        s
    } else {
        SpotifyState { client, authorization_url, status, authenticated, generation: s.generation }
    }
}

/// The state after the client of a configuration was set up (`Ok` with the client, its
/// authorization URL, and whether a stored token was accepted) or failed to be.
pub open spec fn client_initialized_spec<C>(
    s: SpotifyState<C>,
    generation: u64,
    outcome: Result<(C, String, bool), String>,
) -> SpotifyState<C> {
    match outcome {
        Ok((client, url, authenticated)) => connection_state_spec(
            s,
            generation,
            Some(client),
            Some(url),
            if authenticated { ConnectionStatus::Ready } else { ConnectionStatus::AuthenticationRequired },
            authenticated,
        ),
        Err(e) => connection_state_spec(s, generation, None, None, ConnectionStatus::Error(e), false),
    }
}

/// The state after an authorization started at `generation` ended with `result`.
pub open spec fn authorization_finished_spec<C>(
    s: SpotifyState<C>,
    generation: u64,
    result: Result<(), String>,
) -> SpotifyState<C> {
    if generation != s.generation {
        s
    } else {
        match result {
            Ok(()) => SpotifyState { status: ConnectionStatus::Ready, authenticated: true, ..s },
            Err(e) => SpotifyState { status: ConnectionStatus::Error(e), authenticated: false, ..s },
        }
    }
}

impl<C> SpotifyState<C> {
    /// No client, `Unconfigured`, generation zero.
    pub fn new() -> (s: Self)
        ensures
            s.client is None,
            s.authorization_url is None,
            s.status == ConnectionStatus::Unconfigured,
            !s.authenticated,
            s.generation == 0,
    {
        SpotifyState {
            client: None,
            authorization_url: None,
            status: ConnectionStatus::Unconfigured,
            authenticated: false,
            generation: 0,
        }
    }

    /// A new configuration: starts a new generation and drops the client. A disabled
    /// service is `Disabled`; an enabled one with a malformed client id is `Unconfigured`;
    /// otherwise it is `Connecting`, and the generation is returned for the client that is
    /// to be set up.
    pub fn reconfigure(&mut self, enabled: bool, client_id: &str) -> (r: Option<u64>)
        ensures
            final(self).generation == next_generation(old(self).generation),
            final(self).client is None,
            final(self).authorization_url is None,
            !final(self).authenticated,
            final(self).status == (if !enabled {
                ConnectionStatus::Disabled
            } else if !valid_client_id_spec(client_id.spec_bytes()) {
                ConnectionStatus::Unconfigured
            } else {
                ConnectionStatus::Connecting
            }),
            r == (if enabled && valid_client_id_spec(client_id.spec_bytes()) {
                Some(final(self).generation)
            } else {
                None
            }),
    {
        self.generation = bump(self.generation);
        self.client = None;
        self.authorization_url = None;
        self.authenticated = false;
        if !enabled {
            self.status = ConnectionStatus::Disabled;
            return None;
        }
        self.status = ConnectionStatus::Connecting;
        if !valid_client_id(client_id) {
            let generation = self.generation;
            self.set_connection_state(generation, None, None, ConnectionStatus::Unconfigured, false);
            return None;
        }
        Some(self.generation)
    }

    /// Sets the connection state, unless `generation` is no longer the current one.
    pub fn set_connection_state(
        &mut self,
        generation: u64,
        client: Option<C>,
        authorization_url: Option<String>,
        status: ConnectionStatus,
        authenticated: bool,
    )
        ensures
            *final(self) == connection_state_spec(
                *old(self),
                generation,
                client,
                authorization_url,
                status,
                authenticated,
            ),
    {
        if self.generation != generation {
            return;
        }
        self.client = client;
        self.authorization_url = authorization_url;
        self.status = status;
        self.authenticated = authenticated;
    }

    /// The outcome of setting up the client of the configuration of `generation`: `Ready`
    /// with a stored token that was accepted, `Authentication required` without one, or
    /// the error.
    pub fn client_initialized(&mut self, generation: u64, outcome: Result<(C, String, bool), String>)
        ensures
            *final(self) == client_initialized_spec(*old(self), generation, outcome),
    {
        match outcome {
            Ok((client, url, authenticated)) => {
                let status = if authenticated {
                    ConnectionStatus::Ready
                } else {
                    ConnectionStatus::AuthenticationRequired
                };
                self.set_connection_state(generation, Some(client), Some(url), status, authenticated);
            },
            Err(e) => {
                self.set_connection_state(generation, None, None, ConnectionStatus::Error(e), false);
            },
        }
    }

    /// The end of an authorization started at `generation`: `Ready` and authenticated,
    /// or the error. Ignored once the service was reconfigured.
    pub fn finish_authorization(&mut self, generation: u64, result: Result<(), String>)
        ensures
            *final(self) == authorization_finished_spec(*old(self), generation, result),
    {
        if self.generation != generation {
            return;
        }
        match result {
            Ok(()) => {
                self.status = ConnectionStatus::Ready;
                self.authenticated = true;
            },
            Err(e) => {
                self.status = ConnectionStatus::Error(e);
                self.authenticated = false;
            },
        }
    }
}

impl<C: Clone> SpotifyState<C> {
    /// The configured client.
    pub fn client(&self) -> (r: Result<C, AuthorizationError>)
        ensures
            self.client is None ==> r == Err::<C, AuthorizationError>(AuthorizationError::NotConfigured),
            self.client matches Some(c) ==> (r matches Ok(d) && cloned(c, d)),
    {
        match &self.client {
            Some(c) => Ok(c.clone()),
            None => Err(AuthorizationError::NotConfigured),
        }
    }

    /// Starts an authorization: needs a client and its authorization URL; then the
    /// status is `Authorizing` and the client, the URL and the current generation are
    /// handed out for the authorization to run with.
    pub fn begin_authorization(&mut self) -> (r: Result<(C, String, u64), AuthorizationError>)
        ensures
            old(self).client is None ==> r == Err::<(C, String, u64), AuthorizationError>(AuthorizationError::NotConfigured)
                && *final(self) == *old(self),
            old(self).client is Some && old(self).authorization_url is None
                ==> r == Err::<(C, String, u64), AuthorizationError>(AuthorizationError::Unavailable)
                && *final(self) == *old(self),
            old(self).client is Some && old(self).authorization_url is Some ==> {
                &&& r matches Ok((c, url, g)) && cloned(old(self).client.unwrap(), c)
                    && url@ == old(self).authorization_url.unwrap()@ && g == old(self).generation
                &&& *final(self) == SpotifyState {
                    status: ConnectionStatus::Authorizing,
                    authenticated: false,
                    ..*old(self)
                }
            },
    {
        let client = match &self.client {
            Some(c) => c.clone(),
            None => return Err(AuthorizationError::NotConfigured),
        };
        let url = match &self.authorization_url {
            Some(u) => u.clone(),
            None => return Err(AuthorizationError::Unavailable),
        };
        self.status = ConnectionStatus::Authorizing;
        self.authenticated = false;
        Ok((client, url, self.generation))
    }
}

/// A client set up, or an authorization finished, for an earlier configuration never
/// changes the state of a later one.
pub proof fn lemma_stale_connection_work_is_ignored<C>(
    s: SpotifyState<C>,
    generation: u64,
    outcome: Result<(C, String, bool), String>,
    result: Result<(), String>,
)
    requires
        generation != s.generation,
    ensures
        client_initialized_spec(s, generation, outcome) == s,
        authorization_finished_spec(s, generation, result) == s,
{
}

/// After a reconfiguration, work begun under the generation before it is ignored:
/// a new generation always differs from the one it follows.
pub proof fn lemma_reconfiguration_starts_new_generation(g: u64)
    ensures
        next_generation(g) != g,
{
}

} // verus!
