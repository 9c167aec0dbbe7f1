use vstd::prelude::*;

use crate::media::spotify_track_id;
use crate::spotify::{SavedRequest, SavedState, opt_chars, set_track_spec};
use crate::text::{chars_of, contains_chars, contains_seq, str_eq};

verus! {

/// What the media player button shows.
#[derive(Debug, Clone, Copy, PartialEq, Eq, Structural)]
pub enum ButtonState {
    PlayerIcon,
    SwitcherIcon,
}

/// The name of a button state, as the widget property stores it.
pub open spec fn button_state_name(b: ButtonState) -> Seq<char> {
    match b {
        ButtonState::PlayerIcon => "player-icon"@,
        ButtonState::SwitcherIcon => "switcher-icon"@,
    }
}

impl Default for ButtonState {
    fn default() -> (b: Self)
        ensures
            b == ButtonState::PlayerIcon,
    {
        ButtonState::PlayerIcon
    }
}

impl ButtonState {
    /// The name of the state.
    pub fn name(self) -> (r: &'static str)
        ensures
            r@ == button_state_name(self),
    {
        match self {
            ButtonState::PlayerIcon => "player-icon",
            ButtonState::SwitcherIcon => "switcher-icon",
        }
    }

    /// The state a name stands for; an unknown name reads as the player icon.
    pub fn from_name(name: &str) -> (b: Self)
        ensures
            b == if name@ == "switcher-icon"@ { ButtonState::SwitcherIcon } else { ButtonState::PlayerIcon },
    {
        if str_eq(name, "switcher-icon") { ButtonState::SwitcherIcon } else { ButtonState::PlayerIcon }
    }
}

/// A request to the media player of the bar, as its bus interface receives it.
#[derive(Debug, Clone)]
pub enum PlayerCommand {
    Cycle,
    TogglePlayPause,
    Next,
    Previous,
    SetActiveByBusName(Option<String>),
}

/// Whether a player repeats.
#[derive(Debug, Clone, Copy, PartialEq, Eq, Structural)]
pub enum LoopStatus {
    /// No repetition.
    Off,
    Track,
    Playlist,
}

/// The playback status of a player.
#[derive(Debug, Clone, Copy, PartialEq, Eq, Structural)]
pub enum PlaybackStatus {
    Playing,
    Paused,
    Stopped,
}

/// The key under which a thumbnail is cached: the art URL and the URL of the track.
#[derive(Debug, Clone, PartialEq, Eq, Hash)]
pub struct ThumbnailCacheKey {
    pub art_url: Option<String>,
    pub url: Option<String>,
}

impl ThumbnailCacheKey {
    /// The key of an art URL and a track URL.
    pub fn new(art_url: Option<String>, url: Option<String>) -> (k: Self)
        ensures
            k.art_url == art_url,
            k.url == url,
    {
        ThumbnailCacheKey { art_url, url }
    }
}

/// What the bar shows of a player.
#[derive(Debug, Clone)]
pub struct PlayerSnapshot {
    pub title: String,
    pub artists: Vec<String>,
    pub art_url: Option<String>,
    pub url: Option<String>,
    pub desktop_entry: String,
    pub length_secs: u64,
    pub length_subsec_nanos: u32,
    pub is_playing: bool,
    pub shuffle: Option<bool>,
    pub loop_status: Option<LoopStatus>,
    pub can_control: bool,
    pub can_skip: bool,
    pub can_previous: bool,
    pub can_seek: bool,
    pub can_play: bool,
    pub can_pause: bool,
}

/// The snapshot of a player that could not be read.
pub open spec fn empty_snapshot(s: PlayerSnapshot) -> bool {
    &&& s.title@.len() == 0
    &&& s.artists@.len() == 0
    &&& s.art_url is None
    &&& s.url is None
    &&& s.desktop_entry@.len() == 0
    &&& s.length_secs == 0 && s.length_subsec_nanos == 0
    &&& !s.is_playing
    &&& s.shuffle is None
    &&& s.loop_status is None
    &&& !s.can_control && !s.can_skip && !s.can_previous && !s.can_seek && !s.can_play && !s.can_pause
}

impl Default for PlayerSnapshot {
    fn default() -> (s: Self)
        ensures
            empty_snapshot(s),
    {
        PlayerSnapshot {
            title: String::new(),
            artists: Vec::new(),
            art_url: None,
            url: None,
            desktop_entry: String::new(),
            length_secs: 0,
            length_subsec_nanos: 0,
            is_playing: false,
            shuffle: None,
            loop_status: None,
            can_control: false,
            can_skip: false,
            can_previous: false,
            can_seek: false,
            can_play: false,
            can_pause: false,
        }
    }
}

/// The answers of a player to the reads of a snapshot: each read failed with a message,
/// or gave a value (for metadata entries, possibly none).
#[derive(Debug)]
pub struct PlayerReads {
    pub title: Result<Option<String>, String>,
    pub artists: Result<Option<Vec<String>>, String>,
    pub art_url: Result<Option<String>, String>,
    pub url: Result<Option<String>, String>,
    pub length: Result<Option<(u64, u32)>, String>,
    pub playback_status: Result<PlaybackStatus, String>,
    pub desktop_entry: Result<String, String>,
    pub can_control: Result<bool, String>,
    pub can_next: Result<bool, String>,
    pub can_previous: Result<bool, String>,
    pub can_seek: Result<bool, String>,
    pub can_play: Result<bool, String>,
    pub can_pause: Result<bool, String>,
    pub shuffle: Result<bool, String>,
    pub loop_status: Result<LoopStatus, String>,
}

/// A flag that was read, or `false` when the read failed.
pub open spec fn flag_or_false(r: Result<bool, String>) -> bool {
    match r {
        Ok(b) => b,
        Err(_) => false,
    }
}

/// The title shown for a title read: `<failed>` when the read failed, `<unknown>` when
/// the player has none.
pub open spec fn title_text(r: Result<Option<String>, String>) -> Seq<char> {
    match r {
        Err(_) => "<failed>"@,
        Ok(None) => "<unknown>"@,
        Ok(Some(t)) => t@,
    }
}

fn flag(r: Result<bool, String>) -> (b: bool)
    ensures
        b == flag_or_false(r),
{
    match r {
        Ok(b) => b,
        Err(_) => false,
    }
}

/// The snapshot made of a player's answers; the empty snapshot when its metadata could
/// not be read at all. A failed or missing entry falls back to its default: no artists,
/// no art or track URL, zero length, not playing, an empty desktop entry, every
/// capability off, and no shuffle or loop control.
pub fn snapshot_from_reads(reads: Option<PlayerReads>) -> (s: PlayerSnapshot)
    ensures
        reads is None ==> empty_snapshot(s),
        reads matches Some(r) ==> {
            &&& s.title@ == title_text(r.title)
            &&& (r.artists matches Ok(Some(a)) ==> s.artists@ == a@)
            &&& (!(r.artists is Ok && r.artists->Ok_0 is Some) ==> s.artists@.len() == 0)
            &&& opt_chars(s.art_url) == match r.art_url { Ok(u) => opt_chars(u), Err(_) => None }
            &&& opt_chars(s.url) == match r.url { Ok(u) => opt_chars(u), Err(_) => None }
            &&& (s.length_secs, s.length_subsec_nanos) == match r.length {
                Ok(Some(l)) => l,
                _ => (0u64, 0u32),
            }
            &&& s.is_playing == (r.playback_status == Ok::<PlaybackStatus, String>(PlaybackStatus::Playing))
            &&& s.desktop_entry@ == match r.desktop_entry { Ok(d) => d@, Err(_) => Seq::empty() }
            &&& s.can_control == flag_or_false(r.can_control)
            &&& s.can_skip == flag_or_false(r.can_next)
            &&& s.can_previous == flag_or_false(r.can_previous)
            &&& s.can_seek == flag_or_false(r.can_seek)
            &&& s.can_play == flag_or_false(r.can_play)
            &&& s.can_pause == flag_or_false(r.can_pause)
            &&& s.shuffle == match r.shuffle { Ok(b) => Some(b), Err(_) => None }
            &&& s.loop_status == match r.loop_status { Ok(l) => Some(l), Err(_) => None }
        },
{
    let r = match reads {
        Some(r) => r,
        None => return PlayerSnapshot::default(),
    };
    let title = match r.title {
        Err(_) => "<failed>".to_owned(),
        Ok(None) => "<unknown>".to_owned(),
        Ok(Some(t)) => t,
    };
    let artists = match r.artists {
        Ok(Some(a)) => a,
        _ => Vec::new(),
    };
    let art_url = match r.art_url {
        Ok(u) => u,
        Err(_) => None,
    };
    let url = match r.url {
        Ok(u) => u,
        Err(_) => None,
    };
    let (length_secs, length_subsec_nanos) = match r.length {
        Ok(Some(l)) => l,
        _ => (0u64, 0u32),
    };
    let is_playing = match r.playback_status {
        Ok(PlaybackStatus::Playing) => true,
        _ => false,
    };
    let desktop_entry = match r.desktop_entry {
        Ok(d) => d,
        Err(_) => String::new(),
    };
    PlayerSnapshot {
        title,
        artists,
        art_url,
        url,
        desktop_entry,
        length_secs,
        length_subsec_nanos,
        is_playing,
        shuffle: match r.shuffle {
            Ok(b) => Some(b),
            Err(_) => None,
        },
        loop_status: match r.loop_status {
            Ok(l) => Some(l),
            Err(_) => None,
        },
        can_control: flag(r.can_control),
        can_skip: flag(r.can_next),
        can_previous: flag(r.can_previous),
        can_seek: flag(r.can_seek),
        can_play: flag(r.can_play),
        can_pause: flag(r.can_pause),
    }
}

// ---------------------------------------------------------------------------
// The active player of the media controls.
// ---------------------------------------------------------------------------

fn copy_opt(s: &Option<String>) -> (r: Option<String>)
    ensures
        opt_chars(r) == opt_chars(*s),
{
    match s {
        Some(x) => Some(x.clone()),
        None => None,
    }
}

fn opt_eq(a: &Option<String>, b: &Option<String>) -> (r: bool)
    ensures
        r == (opt_chars(*a) == opt_chars(*b)),
{
    match (a, b) {
        (Some(x), Some(y)) => str_eq(x.as_str(), y.as_str()),
        (None, None) => true,
        _ => false,
    }
}

/// The Spotify track of a player: the id in its track URL, if that is a Spotify track.
pub open spec fn snapshot_track(s: PlayerSnapshot) -> Option<Seq<char>> {
    crate::media::spotify_track_id_spec(opt_chars(s.url))
}

/// What a change of the active player asks for: a thumbnail to look up (fetch it unless
/// it is cached) and a question to the Spotify service.
#[derive(Debug)]
pub struct SessionUpdate {
    pub thumbnail: Option<ThumbnailCacheKey>,
    pub spotify: Option<SavedRequest>,
}

/// The active player of the media controls (by its bus name) and the saved state of its
/// Spotify track.
#[derive(Debug)]
pub struct MediaSession {
    pub active: Option<(String, PlayerSnapshot)>,
    pub spotify: SavedState,
}

impl MediaSession {
    /// No player, nothing known of Spotify.
    pub fn new() -> (m: Self)
        ensures
            m.active is None,
            m.spotify.track_id is None,
            m.spotify.saved is None,
            !m.spotify.pending,
            m.spotify.generation == 0,
    {
        MediaSession { active: None, spotify: SavedState::new() }
    }

    /// Whether the active player has this bus name.
    pub fn is_active(&self, identity: &str) -> (r: bool)
        ensures
            r == (self.active matches Some((id, _)) && id@ == identity@),
    {
        match &self.active {
            Some((id, _)) => str_eq(id.as_str(), identity),
            None => false,
        }
    }

    /// Another player became the active one: its thumbnail is looked up, and its Spotify
    /// track (if it plays one) becomes the current track.
    pub fn player_changed(&mut self, identity: String, snapshot: PlayerSnapshot) -> (u: SessionUpdate)
        ensures
            final(self).active matches Some((id, s)) && id@ == identity@ && s == snapshot,
            u.thumbnail matches Some(k) && opt_chars(k.art_url) == opt_chars(snapshot.art_url)
                && opt_chars(k.url) == opt_chars(snapshot.url),
            opt_chars(final(self).spotify.track_id) == snapshot_track(snapshot),
            ({
                let (s2, req) = set_track_spec(old(self).spotify, final(self).spotify.track_id);
                final(self).spotify == s2 && u.spotify == req
            }),
    {
        let track = spotify_track_id(match &snapshot.url {
            Some(u) => Some(u.as_str()),
            None => None,
        });
        let key = ThumbnailCacheKey::new(copy_opt(&snapshot.art_url), copy_opt(&snapshot.url));
        self.active = Some((identity, snapshot));
        let req = self.spotify.set_spotify_track(track);
        SessionUpdate { thumbnail: Some(key), spotify: req }
    }

    /// The player with this bus name went away: if it was the active one, there is no
    /// active player and no current track any more; `false` otherwise, nothing changes.
    pub fn player_detached(&mut self, identity: &str) -> (r: bool)
        ensures
            r == (old(self).active matches Some((id, _)) && id@ == identity@),
            r ==> final(self).active is None && final(self).spotify == set_track_spec(old(self).spotify, None).0,
            !r ==> final(self).active == old(self).active && final(self).spotify == old(self).spotify,
    {
        if !self.is_active(identity) {
            return false;
        }
        self.clear();
        true
    }

    /// The connection to the players was lost: no active player, no current track.
    pub fn clear(&mut self)
        ensures
            final(self).active is None,
            final(self).spotify == set_track_spec(old(self).spotify, None).0,
    {
        self.active = None;
        let _ = self.spotify.set_spotify_track(None);
    }

    /// The active player changed its state. The thumbnail is looked up again only when its
    /// art or track URL changed. Updates of other players are ignored (`None`).
    pub fn player_updated(&mut self, identity: &str, snapshot: PlayerSnapshot) -> (u: Option<SessionUpdate>)
        ensures
            !(old(self).active matches Some((id, _)) && id@ == identity@) ==> u is None
                && final(self).active == old(self).active && final(self).spotify == old(self).spotify,
            (old(self).active matches Some((id, prev)) && id@ == identity@) ==> {
                let prev = old(self).active.unwrap().1;
                let changed = opt_chars(prev.art_url) != opt_chars(snapshot.art_url)
                    || opt_chars(prev.url) != opt_chars(snapshot.url);
                &&& u matches Some(up)
                &&& final(self).active matches Some((id2, s2)) && id2 == old(self).active.unwrap().0 && s2 == snapshot
                &&& changed ==> (u.unwrap().thumbnail matches Some(k)
                    && opt_chars(k.art_url) == opt_chars(snapshot.art_url) && opt_chars(k.url) == opt_chars(snapshot.url))
                &&& !changed ==> u.unwrap().thumbnail is None
                &&& opt_chars(final(self).spotify.track_id) == snapshot_track(snapshot)
                &&& ({
                    let (s3, req) = set_track_spec(old(self).spotify, final(self).spotify.track_id);
                    final(self).spotify == s3 && u.unwrap().spotify == req
                })
            },
    {
        let (id, prev) = match &self.active {
            Some((id, prev)) => {
                if !str_eq(id.as_str(), identity) {
                    return None;
                }
                (id.clone(), prev)
            },
            None => return None,
        };
        let changed = !opt_eq(&prev.art_url, &snapshot.art_url) || !opt_eq(&prev.url, &snapshot.url);
        let thumbnail = if changed {
            Some(ThumbnailCacheKey::new(copy_opt(&snapshot.art_url), copy_opt(&snapshot.url)))
        } else {
            None
        };
        let track = spotify_track_id(match &snapshot.url {
            Some(u) => Some(u.as_str()),
            None => None,
        });
        self.active = Some((id, snapshot));
        let req = self.spotify.set_spotify_track(track);
        Some(SessionUpdate { thumbnail, spotify: req })
    }
}

// ---------------------------------------------------------------------------
// Finding the window of a player.
// ---------------------------------------------------------------------------

/// std's `str::to_lowercase`: the Unicode lower-case mapping of a text. The mapping comes
/// from the Unicode tables of std and is only named here.
pub uninterp spec fn unicode_lowercase(s: Seq<char>) -> Seq<char>;

/// std's `str::to_lowercase`; the result is named, not described.
#[verifier::external_body]
fn lowercase(s: &str) -> (r: String)
    ensures
        r@ == unicode_lowercase(s@),
{
    s.to_lowercase()
}

/// A window that could show a player.
#[derive(Debug, Clone)]
pub struct WindowCandidate {
    pub id: u64,
    pub app_id: Option<String>,
    pub title: Option<String>,
}

/// Two texts are related when they are equal or one contains the other.
pub open spec fn related(a: Seq<char>, b: Seq<char>) -> bool {
    a == b || contains_seq(a, b) || contains_seq(b, a)
}

/// A window belongs to a (lower-cased) application id when its lower-cased app id is
/// related to it.
pub open spec fn app_matches(w: WindowCandidate, app: Seq<char>) -> bool {
    w.app_id is Some && related(unicode_lowercase(w.app_id.unwrap()@), app)
}

/// The windows of a (lower-cased) application id.
pub open spec fn of_app(app: Seq<char>) -> spec_fn(WindowCandidate) -> bool {
    |w: WindowCandidate| app_matches(w, app)
}

/// A window shows a (lower-cased) title when its lower-cased title is related to it.
pub open spec fn title_matches(w: WindowCandidate, title: Seq<char>) -> bool {
    w.title is Some && related(unicode_lowercase(w.title.unwrap()@), title)
}

/// The first window of a list that shows the title.
pub open spec fn first_title_match(ws: Seq<WindowCandidate>, title: Seq<char>) -> Option<u64>
    decreases ws.len(),
{
    if ws.len() == 0 {
        None
    } else if title_matches(ws[0], title) {
        Some(ws[0].id)
    } else {
        first_title_match(ws.skip(1), title)
    }
}

/// The window to focus for a player: among the windows of its application, the only one;
/// else the first showing its title (when it has one); else the first.
pub open spec fn focus_target_spec(app_id: Seq<char>, title: Seq<char>, windows: Seq<WindowCandidate>) -> Option<u64> {
    let app = unicode_lowercase(app_id);
    let t = unicode_lowercase(title);
    let ms = windows.filter(of_app(app));
    if ms.len() == 0 {
        None
    } else if ms.len() == 1 {
        Some(ms[0].id)
    } else if t.len() > 0 && first_title_match(ms, t) is Some {
        first_title_match(ms, t)
    } else {
        Some(ms[0].id)
    }
}

fn related_chars(a: &[char], b: &[char]) -> (r: bool)
    ensures
        r == related(a@, b@),
{
    crate::text::chars_eq(a, b) || contains_chars(a, b) || contains_chars(b, a)
}

fn opt_related(s: &Option<String>, to: &[char]) -> (r: bool)
    ensures
        r == (s is Some && related(unicode_lowercase(s.unwrap()@), to@)),
{
    match s {
        Some(x) => {
            let l = lowercase(x.as_str());
            let lc = chars_of(l.as_str());
            related_chars(lc.as_slice(), to)
        },
        None => false,
    }
}

fn copy_candidate(w: &WindowCandidate) -> (r: WindowCandidate)
    ensures
        r == *w,
{
    WindowCandidate {
        id: w.id,
        app_id: match &w.app_id {
            Some(a) => Some(a.clone()),
            None => None,
        },
        title: match &w.title {
            Some(t) => Some(t.clone()),
            None => None,
        },
    }
}

/// The window to focus for a player with this application id and title, if any.
pub fn focus_target(app_id: &str, title: &str, windows: &Vec<WindowCandidate>) -> (r: Option<u64>)
    ensures
        r == focus_target_spec(app_id@, title@, windows@),
{
    let app_l = lowercase(app_id);
    let app = chars_of(app_l.as_str());
    let title_l = lowercase(title);
    let t = chars_of(title_l.as_str());
    let ghost f = of_app(app@);
    let mut ms: Vec<WindowCandidate> = Vec::new();
    let mut i: usize = 0;
    while i < windows.len()
        invariant
            i <= windows@.len(),
            f == of_app(app@),
            ms@ == windows@.take(i as int).filter(f),
        decreases windows@.len() - i,
    {
        proof {
            assert(windows@.take(i + 1) == windows@.take(i as int).push(windows@[i as int]));
            windows@.take(i as int).lemma_filter_push(windows@[i as int], f);
        }
        if opt_related(&windows[i].app_id, app.as_slice()) {
            ms.push(copy_candidate(&windows[i]));
        }
        i = i + 1;
    }
    assert(windows@.take(windows@.len() as int) == windows@);
    if ms.len() == 0 {
        return None;
    }
    if ms.len() == 1 {
        return Some(ms[0].id);
    }
    if t.len() > 0 {
        let mut k: usize = 0;
        assert(ms@.skip(0) =~= ms@);
        while k < ms.len()
            invariant
                k <= ms@.len(),
                first_title_match(ms@, t@) == first_title_match(ms@.skip(k as int), t@),
                t@.len() > 0,
                ms@.len() > 1,
                ms@ == windows@.filter(of_app(unicode_lowercase(app_id@))),
                t@ == unicode_lowercase(title@),
            decreases ms@.len() - k,
        {
            assert(ms@.skip(k as int)[0] == ms@[k as int]);
            assert(ms@.skip(k as int).skip(1) =~= ms@.skip(k + 1));
            if opt_related(&ms[k].title, t.as_slice()) {
                assert(first_title_match(ms@.skip(k as int), t@) == Some(ms@[k as int].id));
                return Some(ms[k].id);
            }
            k = k + 1;
        }
        assert(ms@.skip(k as int).len() == 0);
    }
    Some(ms[0].id)
}

} // verus!
