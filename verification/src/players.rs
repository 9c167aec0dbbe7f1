use vstd::prelude::*;

use crate::player::PlayerCommand;
use crate::text::{chars_of, str_eq};

verus! {

/// What the player switcher knows of an MPRIS player.
#[derive(Debug, Clone)]
pub struct PlayerInfo {
    pub bus_name: String,
    pub title: String,
    pub can_control: bool,
    pub playing: bool,
    pub can_play: bool,
    pub can_pause: bool,
    pub can_go_next: bool,
    pub can_go_previous: bool,
}

/// The bus-name pattern of Firefox's players: `org.mpris.MediaPlayer2.firefox.instance_`
/// followed by anything, where each `.` of the pattern stands for any character but a
/// line break.
pub open spec fn firefox_pattern() -> Seq<char> {
    "org.mpris.MediaPlayer2.firefox.instance_"@
}

/// Whether a bus name starts like the pattern, a `.` of the pattern matching any
/// character but `\n`, and has no line break after it.
pub open spec fn is_firefox_instance(name: Seq<char>) -> bool {
    let p = firefox_pattern();
    &&& p.len() <= name.len()
    &&& forall|i: int| 0 <= i < p.len() ==> (if p[i] == '.' { #[trigger] name[i] != '\n' } else { name[i] == p[i] })
    &&& forall|i: int| p.len() <= i < name.len() ==> #[trigger] name[i] != '\n'
}

/// Whether a text ends with `spotify`.
pub open spec fn ends_with_spotify(name: Seq<char>) -> bool {
    let s = "spotify"@;
    s.len() <= name.len() && name.skip(name.len() - s.len()) == s
}

/// The rank of a player: lower comes first. A player without a title or that cannot be
/// controlled is not listed (`usize::MAX`); Spotify comes first, then Firefox, then the
/// rest; playing players come ten places earlier.
pub open spec fn player_key_spec(p: PlayerInfo) -> int {
    if p.title@.len() == 0 || !p.can_control {
        usize::MAX as int
    } else {
        let base: int = if ends_with_spotify(p.bus_name@) {
            100
        } else if is_firefox_instance(p.bus_name@) {
            200
        } else {
            usize::MAX - 1000
        };
        if p.playing { base - 10 } else { base }
    }
}

fn matches_firefox(name: &[char]) -> (r: bool)
    ensures
        r == is_firefox_instance(name@),
{
    let p = chars_of("org.mpris.MediaPlayer2.firefox.instance_");
    if p.len() > name.len() {
        return false;
    }
    let mut i: usize = 0;
    while i < p.len()
        invariant
            i <= p@.len(),
            p@ == firefox_pattern(),
            p@.len() <= name@.len(),
            forall|j: int| 0 <= j < i ==> (if p@[j] == '.' { #[trigger] name@[j] != '\n' } else { name@[j] == p@[j] }),
        decreases p@.len() - i,
    {
        let ok = if p[i] == '.' { name[i] != '\n' } else { name[i] == p[i] };
        if !ok {
            return false;
        }
        i = i + 1;
    }
    let mut k: usize = p.len();
    while k < name.len()
        invariant
            p@.len() <= k <= name@.len(),
            p@ == firefox_pattern(),
            forall|j: int| p@.len() <= j < k ==> #[trigger] name@[j] != '\n',
        decreases name@.len() - k,
    {
        if name[k] == '\n' {
            return false;
        }
        k = k + 1;
    }
    true
}

fn ends_spotify(name: &[char]) -> (r: bool)
    ensures
        r == ends_with_spotify(name@),
{
    let s = chars_of("spotify");
    if s.len() > name.len() {
        return false;
    }
    let n = name.len();
    let start = n - s.len();
    let mut k: usize = 0;
    while k < s.len()
        invariant
            k <= s@.len(),
            n == name@.len(),
            s@ == "spotify"@,
            start + s@.len() == name@.len(),
            forall|j: int| 0 <= j < k ==> name@[start + j] == s@[j],
        decreases s@.len() - k,
    {
        if name[start + k] != s[k] {
            assert(name@.skip(start as int)[k as int] != s@[k as int]);
            return false;
        }
        k = k + 1;
    }
    assert(name@.skip(start as int) =~= s@);
    true
}

/// The rank of a player.
pub fn player_key(p: &PlayerInfo) -> (k: usize)
    ensures
        k == player_key_spec(*p),
{
    let title = chars_of(p.title.as_str());
    if title.len() == 0 || !p.can_control {
        return usize::MAX;
    }
    let name = chars_of(p.bus_name.as_str());
    let base: usize = if ends_spotify(name.as_slice()) {
        100
    } else if matches_firefox(name.as_slice()) {
        200
    } else {
        usize::MAX - 1000
    };
    if p.playing { base - 10 } else { base }
}

/// The players of a rank, in the order given.
pub open spec fn of_rank(ps: Seq<PlayerInfo>, k: int) -> Seq<PlayerInfo> {
    ps.filter(|p: PlayerInfo| player_key_spec(p) == k)
}

/// The listed players, ordered by rank; players of the same rank keep their order.
pub open spec fn ranked_spec(ps: Seq<PlayerInfo>) -> Seq<PlayerInfo> {
    of_rank(ps, 90) + of_rank(ps, 100) + of_rank(ps, 190) + of_rank(ps, 200)
        + of_rank(ps, usize::MAX - 1010) + of_rank(ps, usize::MAX - 1000)
}

fn copy_player(p: &PlayerInfo) -> (r: PlayerInfo)
    ensures
        r == *p,
{
    PlayerInfo {
        bus_name: p.bus_name.clone(),
        title: p.title.clone(),
        can_control: p.can_control,
        playing: p.playing,
        can_play: p.can_play,
        can_pause: p.can_pause,
        can_go_next: p.can_go_next,
        can_go_previous: p.can_go_previous,
    }
}

fn append_rank(out: &mut Vec<PlayerInfo>, ps: &Vec<PlayerInfo>, k: usize)
    ensures
        final(out)@ == old(out)@ + of_rank(ps@, k as int),
{
    let ghost f = |p: PlayerInfo| player_key_spec(p) == k as int;
    let ghost start = out@;
    let mut i: usize = 0;
    while i < ps.len()
        invariant
            i <= ps@.len(),
            f == (|p: PlayerInfo| player_key_spec(p) == k as int),
            out@ == start + ps@.take(i as int).filter(f),
        decreases ps@.len() - i,
    {
        proof {
            assert(ps@.take(i + 1) == ps@.take(i as int).push(ps@[i as int]));
            ps@.take(i as int).lemma_filter_push(ps@[i as int], f);
        }
        if player_key(&ps[i]) == k {
            out.push(copy_player(&ps[i]));
        }
        i = i + 1;
    }
    assert(ps@.take(ps@.len() as int) == ps@);
}

/// The players to list, best first: unlisted players left out, the rest ordered by rank.
pub fn ranked_players(ps: &Vec<PlayerInfo>) -> (r: Vec<PlayerInfo>)
    ensures
        r@ == ranked_spec(ps@),
{
    let mut out: Vec<PlayerInfo> = Vec::new();
    append_rank(&mut out, ps, 90);
    append_rank(&mut out, ps, 100);
    append_rank(&mut out, ps, 190);
    append_rank(&mut out, ps, 200);
    append_rank(&mut out, ps, usize::MAX - 1010);
    append_rank(&mut out, ps, usize::MAX - 1000);
    assert(out@ =~= ranked_spec(ps@));
    out
}

/// The first player that satisfies a condition, by index.
pub open spec fn first_index(ps: Seq<PlayerInfo>, f: spec_fn(PlayerInfo) -> bool) -> Option<int>
    decreases ps.len(),
{
    if ps.len() == 0 {
        None
    } else if f(ps[0]) {
        Some(0)
    } else {
        match first_index(ps.skip(1), f) {
            Some(i) => Some(i + 1),
            None => None,
        }
    }
}

proof fn lemma_first_index_bounds(ps: Seq<PlayerInfo>, f: spec_fn(PlayerInfo) -> bool)
    ensures
        first_index(ps, f) matches Some(i) ==> 0 <= i < ps.len() && f(ps[i]),
    decreases ps.len(),
{
    if ps.len() > 0 && !f(ps[0]) {
        lemma_first_index_bounds(ps.skip(1), f);
        if first_index(ps.skip(1), f) is Some {
            let i = first_index(ps.skip(1), f).unwrap();
            assert(ps.skip(1)[i] == ps[i + 1]);
        }
    }
}

proof fn lemma_first_index_step(ps: Seq<PlayerInfo>, f: spec_fn(PlayerInfo) -> bool, k: int)
    requires
        0 <= k < ps.len(),
    ensures
        first_index(ps.skip(k), f) == if f(ps[k]) {
            Some(0int)
        } else {
            match first_index(ps.skip(k + 1), f) {
                Some(i) => Some(i + 1),
                None => None,
            }
        },
{
    assert(ps.skip(k).skip(1) =~= ps.skip(k + 1));
    assert(ps.skip(k)[0] == ps[k]);
}

/// The player with a bus name.
pub open spec fn named(name: Seq<char>) -> spec_fn(PlayerInfo) -> bool {
    |p: PlayerInfo| p.bus_name@ == name
}

/// A playing player that can be controlled.
pub open spec fn playing_controllable() -> spec_fn(PlayerInfo) -> bool {
    |p: PlayerInfo| p.playing && p.can_control
}

/// A player that can be controlled.
pub open spec fn controllable() -> spec_fn(PlayerInfo) -> bool {
    |p: PlayerInfo| p.can_control
}

/// The player that becomes active when the active one is gone: a playing controllable
/// one, else a controllable one, else the first.
pub open spec fn fallback_spec(ps: Seq<PlayerInfo>) -> Seq<char> {
    match first_index(ps, playing_controllable()) {
        Some(i) => ps[i].bus_name@,
        None => match first_index(ps, controllable()) {
            Some(i) => ps[i].bus_name@,
            None => if ps.len() > 0 { ps[0].bus_name@ } else { Seq::empty() },
        },
    }
}

/// What to do with the active player.
#[derive(Debug, Clone, Copy, PartialEq, Eq, Structural)]
pub enum PlayerAction {
    Nothing,
    Play,
    Pause,
    Next,
    Previous,
}

/// The players of the switcher, in rank order, and the bus name of the active one (empty
/// when none is active).
#[derive(Debug)]
pub struct PlayerModel {
    pub players: Vec<PlayerInfo>,
    pub active_bus_name: String,
}

impl PlayerModel {
    /// No players.
    pub fn new() -> (m: Self)
        ensures
            m.players@.len() == 0,
            m.active_bus_name@.len() == 0,
    {
        PlayerModel { players: Vec::new(), active_bus_name: String::new() }
    }

    fn find(ps: &Vec<PlayerInfo>, name: &str) -> (r: Option<usize>)
        ensures
            r matches Some(i) ==> first_index(ps@, named(name@)) == Some(i as int),
            r is None ==> first_index(ps@, named(name@)) is None,
            r matches Some(i) ==> i < ps@.len(),
            first_index(ps@, named(name@)) matches Some(k) ==> 0 <= k < ps@.len(),
    {
        proof { lemma_first_index_bounds(ps@, named(name@)); }
        let mut i: usize = 0;
        assert(ps@.skip(0) =~= ps@);
        while i < ps.len()
            invariant
                i <= ps@.len(),
                forall|j: int| 0 <= j < i ==> !named(name@)(#[trigger] ps@[j]),
                first_index(ps@, named(name@)) == match first_index(ps@.skip(i as int), named(name@)) {
                    Some(k) => Some(k + i),
                    None => None,
                },
            decreases ps@.len() - i,
        {
            proof { lemma_first_index_step(ps@, named(name@), i as int); }
            if str_eq(ps[i].bus_name.as_str(), name) {
                return Some(i);
            }
            i = i + 1;
        }
        assert(ps@.skip(i as int).len() == 0);
        None
    }

    fn find_first(ps: &Vec<PlayerInfo>, need_playing: bool) -> (r: Option<usize>)
        ensures
            need_playing ==> (r matches Some(i) ==> first_index(ps@, playing_controllable()) == Some(i as int)),
            need_playing ==> (r is None ==> first_index(ps@, playing_controllable()) is None),
            !need_playing ==> (r matches Some(i) ==> first_index(ps@, controllable()) == Some(i as int)),
            !need_playing ==> (r is None ==> first_index(ps@, controllable()) is None),
            r matches Some(i) ==> i < ps@.len(),
            first_index(ps@, playing_controllable()) matches Some(k) ==> 0 <= k < ps@.len(),
            first_index(ps@, controllable()) matches Some(k) ==> 0 <= k < ps@.len(),
    {
        proof {
            lemma_first_index_bounds(ps@, playing_controllable());
            lemma_first_index_bounds(ps@, controllable());
        }
        let ghost f = if need_playing { playing_controllable() } else { controllable() };
        let mut i: usize = 0;
        assert(ps@.skip(0) =~= ps@);
        while i < ps.len()
            invariant
                i <= ps@.len(),
                f == if need_playing { playing_controllable() } else { controllable() },
                first_index(ps@, playing_controllable()) matches Some(k) ==> 0 <= k < ps@.len(),
                first_index(ps@, controllable()) matches Some(k) ==> 0 <= k < ps@.len(),
                first_index(ps@, f) == match first_index(ps@.skip(i as int), f) {
                    Some(k) => Some(k + i),
                    None => None,
                },
            decreases ps@.len() - i,
        {
            proof { lemma_first_index_step(ps@, f, i as int); }
            let p = &ps[i];
            if p.can_control && (!need_playing || p.playing) {
                return Some(i);
            }
            i = i + 1;
        }
        assert(ps@.skip(i as int).len() == 0);
        None
    }

    /// The active player, by position.
    pub fn active_player(&self) -> (r: Option<usize>)
        ensures
            self.active_bus_name@.len() == 0 ==> r is None,
            r matches Some(i) ==> i < self.players@.len(),
            first_index(self.players@, named(self.active_bus_name@)) matches Some(k) ==> 0 <= k < self.players@.len(),
            self.active_bus_name@.len() > 0 ==> (r matches Some(i) ==> first_index(self.players@, named(self.active_bus_name@)) == Some(i as int)),
            self.active_bus_name@.len() > 0 ==> (r is None ==> first_index(self.players@, named(self.active_bus_name@)) is None),
    {
        proof { lemma_first_index_bounds(self.players@, named(self.active_bus_name@)); }
        if self.active_bus_name.as_str().is_empty() {
            return None;
        }
        Self::find(&self.players, self.active_bus_name.as_str())
    }

    /// A new list of players from MPRIS: it is ranked; the active player stays if it is
    /// still listed, else the fallback becomes active (none when the list is empty).
    pub fn refresh(&mut self, players: &Vec<PlayerInfo>)
        ensures
            final(self).players@ == ranked_spec(players@),
            ({
                let ps = ranked_spec(players@);
                let a = old(self).active_bus_name@;
                if ps.len() == 0 {
                    final(self).active_bus_name@.len() == 0
                } else if a.len() > 0 && first_index(ps, named(a)) is Some {
                    final(self).active_bus_name@ == a
                } else {
                    final(self).active_bus_name@ == fallback_spec(ps)
                }
            }),
    {
        let ps = ranked_players(players);
        self.players = ps;
        if self.players.len() == 0 {
            self.active_bus_name = String::new();
            return;
        }
        if !self.active_bus_name.as_str().is_empty() && Self::find(&self.players, self.active_bus_name.as_str()).is_some() {
            return;
        }
        let next = match Self::find_first(&self.players, true) {
            Some(i) => self.players[i].bus_name.clone(),
            None => match Self::find_first(&self.players, false) {
                Some(i) => self.players[i].bus_name.clone(),
                None => self.players[0].bus_name.clone(),
            },
        };
        self.active_bus_name = next;
    }

    /// Makes the next player active, after the last the first; the first when the active
    /// one is not listed; none when there are no players.
    pub fn cycle_active_player(&mut self)
        ensures
            final(self).players == old(self).players,
            old(self).players@.len() == 0 ==> final(self).active_bus_name@.len() == 0,
            old(self).players@.len() > 0 ==> final(self).active_bus_name@ == match first_index(old(self).players@, named(old(self).active_bus_name@)) {
                Some(i) => old(self).players@[(i + 1) % (old(self).players@.len() as int)].bus_name@,
                None => old(self).players@[0].bus_name@,
            },
    {
        let n = self.players.len();
        if n == 0 {
            self.active_bus_name = String::new();
            return;
        }
        let next = match Self::find(&self.players, self.active_bus_name.as_str()) {
            Some(i) => (i + 1) % n,
            None => 0,
        };
        self.active_bus_name = self.players[next].bus_name.clone();
    }

    /// A command for the player switcher: switching, play/pause, skipping, or choosing the
    /// active player by bus name. Gives what to do with the active player.
    pub fn command(&mut self, command: PlayerCommand) -> (a: PlayerAction)
        ensures
            final(self).players == old(self).players,
            ({
                let act = if old(self).active_bus_name@.len() == 0 {
                    None
                } else {
                    first_index(old(self).players@, named(old(self).active_bus_name@))
                };
                match command {
                    PlayerCommand::TogglePlayPause => a == match act {
                        Some(i) => {
                            let p = old(self).players@[i];
                            if p.can_pause && p.playing {
                                PlayerAction::Pause
                            } else if p.can_play {
                                PlayerAction::Play
                            } else {
                                PlayerAction::Nothing
                            }
                        },
                        None => PlayerAction::Nothing,
                    } && final(self).active_bus_name == old(self).active_bus_name,
                    PlayerCommand::Next => a == match act {
                        Some(i) => if old(self).players@[i].can_go_next { PlayerAction::Next } else { PlayerAction::Nothing },
                        None => PlayerAction::Nothing,
                    } && final(self).active_bus_name == old(self).active_bus_name,
                    PlayerCommand::Previous => a == match act {
                        Some(i) => if old(self).players@[i].can_go_previous { PlayerAction::Previous } else { PlayerAction::Nothing },
                        None => PlayerAction::Nothing,
                    } && final(self).active_bus_name == old(self).active_bus_name,
                    PlayerCommand::SetActiveByBusName(name) => a == PlayerAction::Nothing
                        && final(self).active_bus_name@ == match name { Some(n) => n@, None => Seq::empty() },
                    PlayerCommand::Cycle => a == PlayerAction::Nothing,
                }
            }),
    {
        match command {
            PlayerCommand::Cycle => {
                self.cycle_active_player();
                PlayerAction::Nothing
            },
            PlayerCommand::TogglePlayPause => match self.active_player() {
                Some(i) => {
                    let p = &self.players[i];
                    if p.can_pause && p.playing {
                        PlayerAction::Pause
                    } else if p.can_play {
                        PlayerAction::Play
                    } else {
                        PlayerAction::Nothing
                    }
                },
                None => PlayerAction::Nothing,
            },
            PlayerCommand::Next => match self.active_player() {
                Some(i) => if self.players[i].can_go_next { PlayerAction::Next } else { PlayerAction::Nothing },
                None => PlayerAction::Nothing,
            },
            PlayerCommand::Previous => match self.active_player() {
                Some(i) => if self.players[i].can_go_previous { PlayerAction::Previous } else { PlayerAction::Nothing },
                None => PlayerAction::Nothing,
            },
            PlayerCommand::SetActiveByBusName(name) => {
                self.active_bus_name = match name {
                    Some(n) => n,
                    None => String::new(),
                };
                PlayerAction::Nothing
            },
        }
    }
}

/// Only controllable players with a title are listed, and the list is ordered by rank.
pub proof fn lemma_ranked_players_are_listed(ps: Seq<PlayerInfo>, i: int)
    requires
        0 <= i < ranked_spec(ps).len(),
    ensures
        ranked_spec(ps)[i].can_control,
        ranked_spec(ps)[i].title@.len() > 0,
{
    let p = ranked_spec(ps)[i];
    let a = of_rank(ps, 90);
    let b = of_rank(ps, 100);
    let c = of_rank(ps, 190);
    let d = of_rank(ps, 200);
    let e = of_rank(ps, usize::MAX - 1010);
    let f = of_rank(ps, usize::MAX - 1000);
    assert(ranked_spec(ps) == a + b + c + d + e + f);
    let k = player_key_spec(p);
    assert(k != usize::MAX as int) by {
        let all = a + b + c + d + e + f;
        if i < a.len() {
            ps.lemma_filter_pred(|q: PlayerInfo| player_key_spec(q) == 90, i);
        } else if i < a.len() + b.len() {
            ps.lemma_filter_pred(|q: PlayerInfo| player_key_spec(q) == 100, i - a.len());
        } else if i < a.len() + b.len() + c.len() {
            ps.lemma_filter_pred(|q: PlayerInfo| player_key_spec(q) == 190, i - a.len() - b.len());
        } else if i < a.len() + b.len() + c.len() + d.len() {
            ps.lemma_filter_pred(|q: PlayerInfo| player_key_spec(q) == 200, i - a.len() - b.len() - c.len());
        } else if i < a.len() + b.len() + c.len() + d.len() + e.len() {
            ps.lemma_filter_pred(|q: PlayerInfo| player_key_spec(q) == usize::MAX - 1010, i - a.len() - b.len() - c.len() - d.len());
        } else {
            ps.lemma_filter_pred(|q: PlayerInfo| player_key_spec(q) == usize::MAX - 1000, i - a.len() - b.len() - c.len() - d.len() - e.len());
        }
    }
}

/// The icon of a player in the bar.
#[derive(Debug, Clone, Copy, PartialEq, Eq, Structural)]
pub enum PlayerIcon {
    Spotify,
    Firefox,
    /// The generic `audio-x-generic` icon.
    Generic,
}

/// The icon of a player by its bus name: Spotify's for a name ending in `spotify`,
/// Firefox's for a Firefox instance, else the generic one.
pub fn player_icon_name(bus_name: &str) -> (i: PlayerIcon)
    ensures
        i == if ends_with_spotify(bus_name@) {
            PlayerIcon::Spotify
        } else if is_firefox_instance(bus_name@) {
            PlayerIcon::Firefox
        } else {
            PlayerIcon::Generic
        },
{
    let name = chars_of(bus_name);
    if ends_spotify(name.as_slice()) {
        PlayerIcon::Spotify
    } else if matches_firefox(name.as_slice()) {
        PlayerIcon::Firefox
    } else {
        PlayerIcon::Generic
    }
}

} // verus!
