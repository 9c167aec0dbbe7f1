use vstd::prelude::*;

use crate::player::PlayerSnapshot;
use crate::spotify::SavedState;
use crate::text::{decimal, decimal_string_u128, push_str};

verus! {

/// Which of the media popup's controls can be pressed, and whether the play button shows
/// the pause sign.
#[derive(Debug, Clone, Copy, PartialEq, Eq, Structural)]
pub struct PopupControls {
    pub repeat_enabled: bool,
    pub previous_enabled: bool,
    pub play_pause_enabled: bool,
    pub shows_pause: bool,
    pub next_enabled: bool,
    pub shuffle_enabled: bool,
}

/// The controls for a player: none when it cannot be controlled; else repeat and shuffle
/// when the player reports them, skipping as it allows, and play/pause when it can do
/// what the button would (pause a playing player, play a paused one).
pub fn popup_controls(s: &PlayerSnapshot) -> (c: Option<PopupControls>)
    ensures
        !s.can_control ==> c is None,
        s.can_control ==> c == Some(PopupControls {
            repeat_enabled: s.loop_status is Some,
            previous_enabled: s.can_previous,
            play_pause_enabled: (s.is_playing && s.can_pause) || (!s.is_playing && s.can_play),
            shows_pause: s.is_playing,
            next_enabled: s.can_skip,
            shuffle_enabled: s.shuffle is Some,
        }),
{
    if !s.can_control {
        return None;
    }
    Some(PopupControls {
        repeat_enabled: s.loop_status.is_some(),
        previous_enabled: s.can_previous,
        play_pause_enabled: (s.is_playing && s.can_pause) || (!s.is_playing && s.can_play),
        shows_pause: s.is_playing,
        next_enabled: s.can_skip,
        shuffle_enabled: s.shuffle.is_some(),
    })
}

/// The heart button of a Spotify track.
#[derive(Debug, Clone, Copy, PartialEq, Eq, Structural)]
pub struct SavedButton {
    /// The heart is filled: the track is saved.
    pub filled: bool,
    /// The button can be pressed: whether the track is saved is known and no change is
    /// under way.
    pub enabled: bool,
}

/// The heart button, shown only for a Spotify track.
pub fn saved_button(state: &SavedState) -> (b: Option<SavedButton>)
    ensures
        state.track_id is None ==> b is None,
        state.track_id is Some ==> b == Some(SavedButton {
            filled: state.saved == Some(true),
            enabled: state.saved is Some && !state.pending,
        }),
{
    match &state.track_id {
        None => None,
        Some(_) => Some(SavedButton {
            filled: match state.saved {
                Some(b) => b,
                None => false,
            },
            enabled: state.saved.is_some() && !state.pending,
        }),
    }
}

/// The texts joined with a separator between them.
pub open spec fn joined(parts: Seq<Seq<char>>, sep: Seq<char>) -> Seq<char>
    decreases parts.len(),
{
    if parts.len() == 0 {
        Seq::empty()
    } else if parts.len() == 1 {
        parts[0]
    } else {
        joined(parts.drop_last(), sep) + sep + parts.last()
    }
}

/// The line of artists: their names separated by `, `.
pub fn artists_line(artists: &Vec<String>) -> (r: String)
    ensures
        r@ == joined(artists@.map_values(|a: String| a@), ", "@),
{
    let ghost parts = artists@.map_values(|a: String| a@);
    let mut out = String::new();
    let mut i: usize = 0;
    while i < artists.len()
        invariant
            i <= artists@.len(),
            parts == artists@.map_values(|a: String| a@),
            out@ == joined(parts.take(i as int), ", "@),
        decreases artists@.len() - i,
    {
        proof {
            assert(parts.take(i + 1).drop_last() =~= parts.take(i as int));
            assert(parts.take(i + 1).last() == artists@[i as int]@);
        }
        if i > 0 {
            push_str(&mut out, ", ");
        } else {
            proof {
                assert(parts.take(1)[0] == artists@[0]@);
            }
        }
        push_str(&mut out, artists[i].as_str());
        i = i + 1;
    }
    proof {
        assert(parts.take(artists@.len() as int) =~= parts);
    }
    out
}

/// A number written with at least two digits, padded with a zero.
pub open spec fn two_wide(n: nat) -> Seq<char> {
    if n < 10 { seq!['0'] + decimal(n) } else { decimal(n) }
}

fn two_wide_string(n: u128) -> (s: String)
    ensures
        s@ == two_wide(n as nat),
{
    let mut s = String::new();
    if n < 10 {
        push_str(&mut s, "0");
        proof { reveal_strlit("0"); }
    }
    let d = decimal_string_u128(n);
    push_str(&mut s, d.as_str());
    s
}

/// The length of a track as the popup shows it: its whole minutes, a colon, and the
/// remainder modulo sixty of its length in milliseconds times a thousand, each at least
/// two digits wide. The part after the colon is therefore not the track's seconds within
/// its last minute (3 min 30.5 s shows as `03:20`); the popup has always shown it this way.
pub open spec fn length_text_spec(secs: u64, nanos: u32) -> Seq<char> {
    let millis = secs * 1000 + nanos / 1_000_000;
    two_wide((secs / 60) as nat) + seq![':'] + two_wide(((millis * 1000) % 60) as nat)
}

/// The length of a track as the popup shows it.
pub fn length_text(secs: u64, nanos: u32) -> (s: String)
    requires
        nanos < 1_000_000_000,
    ensures
        s@ == length_text_spec(secs, nanos),
{
    let millis: u128 = secs as u128 * 1000 + (nanos / 1_000_000) as u128;
    let mut s = two_wide_string((secs / 60) as u128);
    push_str(&mut s, ":");
    proof { reveal_strlit(":"); }
    let rest = two_wide_string((millis * 1000) % 60);
    push_str(&mut s, rest.as_str());
    s
}

} // verus!
