use vstd::prelude::*;

use crate::players::PlayerAction;
use crate::text::str_eq;

verus! {

/// What hovering asks of the media player's popup.
#[derive(Debug, Clone, Copy, PartialEq, Eq, Structural)]
pub struct HoverAction {
    /// Cancel the pending popdown timer.
    pub cancel_timer: bool,
    /// Forget the pending popdown timer without cancelling it: it still fires.
    pub forget_timer: bool,
    /// Show the popup.
    pub show: bool,
    /// Start a timer that hides the popup after 120 ms.
    pub start_timer: bool,
}

/// How many of the player widget and its popup the pointer is over. The popup shows when
/// the pointer comes onto the first of them, and hides a moment after it left the last.
#[derive(Debug, Clone, Copy, PartialEq, Eq, Structural)]
pub struct HoverPopup {
    pub hovered: u32,
}

impl HoverPopup {
    /// Nothing hovered.
    pub fn new() -> (h: Self)
        ensures
            h.hovered == 0,
    {
        HoverPopup { hovered: 0 }
    }

    fn entered(&mut self, cancel: bool) -> (a: HoverAction)
        requires
            old(self).hovered < u32::MAX,
        ensures
            final(self).hovered == old(self).hovered + 1,
            a == (HoverAction { cancel_timer: cancel, forget_timer: !cancel, show: old(self).hovered == 0, start_timer: false }),
    {
        self.hovered = self.hovered + 1;
        HoverAction { cancel_timer: cancel, forget_timer: !cancel, show: self.hovered == 1, start_timer: false }
    }

    /// The pointer came onto the player widget: the popup shows when nothing was hovered;
    /// a pending popdown timer is forgotten but not cancelled.
    pub fn enter_widget(&mut self) -> (a: HoverAction)
        requires
            old(self).hovered < u32::MAX,
        ensures
            final(self).hovered == old(self).hovered + 1,
            a == (HoverAction { cancel_timer: false, forget_timer: true, show: old(self).hovered == 0, start_timer: false }),
    {
        self.entered(false)
    }

    /// The pointer came onto the popup: the popup shows when nothing was hovered; a pending
    /// popdown timer is cancelled.
    pub fn enter_popup(&mut self) -> (a: HoverAction)
        requires
            old(self).hovered < u32::MAX,
        ensures
            final(self).hovered == old(self).hovered + 1,
            a == (HoverAction { cancel_timer: true, forget_timer: false, show: old(self).hovered == 0, start_timer: false }),
    {
        self.entered(true)
    }

    /// The pointer left the widget or the popup: when nothing is hovered any more, a
    /// pending popdown timer is cancelled and a new one started.
    pub fn leave(&mut self) -> (a: HoverAction)
        ensures
            final(self).hovered == hovered_after_leave(old(self).hovered as int),
            a == (HoverAction {
                cancel_timer: final(self).hovered == 0,
                forget_timer: false,
                show: false,
                start_timer: final(self).hovered == 0,
            }),
    {
        self.hovered = if self.hovered > 0 { self.hovered - 1 } else { 0 };
        let idle = self.hovered == 0;
        HoverAction { cancel_timer: idle, forget_timer: false, show: false, start_timer: idle }
    }
}

/// How many elements are hovered after the pointer left one (never below zero).
pub open spec fn hovered_after_leave(h: int) -> int {
    if h > 0 { h - 1 } else { 0 }
}

/// Entering an element and leaving it again leaves the count as it was; the popup shows
/// on an entry exactly when nothing was hovered, and the popdown timer starts on a
/// leave exactly when nothing is hovered any more.
pub proof fn lemma_enter_leave_balances(h: int)
    requires
        h >= 0,
    ensures
        hovered_after_leave(h + 1) == h,
        hovered_after_leave(h) == 0 <==> h <= 1,
{
}

/// What pressing the title of a player does: pause a playing player that can pause, play
/// a player that is not playing and can play, else nothing.
pub fn title_button_action(can_pause: bool, can_play: bool, playing: bool) -> (a: PlayerAction)
    ensures
        a == if can_pause && playing {
            PlayerAction::Pause
        } else if can_play && !playing {
            PlayerAction::Play
        } else {
            PlayerAction::Nothing
        },
{
    if can_pause && playing {
        PlayerAction::Pause
    } else if can_play && !playing {
        PlayerAction::Play
    } else {
        PlayerAction::Nothing
    }
}

/// The selection to make in the list of players so that it shows the active one.
#[derive(Debug, Clone, Copy, PartialEq, Eq, Structural)]
pub enum SelectionChange {
    /// The selection stays as it is.
    Keep,
    /// Nothing is to be selected.
    Clear,
    /// The player at this position is to be selected.
    Select(u32),
}

/// The first position whose name is the given one.
pub open spec fn first_named(names: Seq<Seq<char>>, name: Seq<char>) -> Option<int>
    decreases names.len(),
{
    if names.len() == 0 {
        None
    } else {
        match first_named(names.drop_last(), name) {
            Some(i) => Some(i),
            None => if names.last() == name { Some(names.len() - 1) } else { None },
        }
    }
}

/// How the list's selection follows the active player: with no active player the
/// selection is cleared (unless it already is); else the first player of that bus name
/// is selected (unless it already is); a player not listed changes nothing.
pub open spec fn selection_change_spec(active: Seq<char>, names: Seq<Seq<char>>, selected: Option<u32>) -> SelectionChange {
    if active.len() == 0 {
        if selected is None { SelectionChange::Keep } else { SelectionChange::Clear }
    } else {
        match first_named(names, active) {
            Some(i) => if selected == Some(i as u32) { SelectionChange::Keep } else { SelectionChange::Select(i as u32) },
            None => SelectionChange::Keep,
        }
    }
}

/// How the list's selection follows the active player.
pub fn selection_change(active: &str, names: &Vec<String>, selected: Option<u32>) -> (c: SelectionChange)
    requires
        names@.len() <= u32::MAX,
    ensures
        c == selection_change_spec(active@, names@.map_values(|s: String| s@), selected),
{
    let ghost views = names@.map_values(|s: String| s@);
    if active.is_empty() {
        return if selected.is_none() { SelectionChange::Keep } else { SelectionChange::Clear };
    }
    let mut i: usize = 0;
    while i < names.len()
        invariant
            i <= names@.len(),
            names@.len() <= u32::MAX,
            views == names@.map_values(|s: String| s@),
            first_named(views.take(i as int), active@) is None,
            active@.len() > 0,
        decreases names@.len() - i,
    {
        proof {
            assert(views.take(i + 1).drop_last() =~= views.take(i as int));
            assert(views.take(i + 1).last() == names@[i as int]@);
        }
        if str_eq(names[i].as_str(), active) {
            proof {
                assert(first_named(views.take(i + 1), active@) == Some(i as int));
                lemma_first_named_prefix(views, i + 1, active@);
            }
            let pos = i as u32;
            return match selected {
                Some(s) => if s == pos { SelectionChange::Keep } else { SelectionChange::Select(pos) },
                None => SelectionChange::Select(pos),
            };
        }
        i = i + 1;
    }
    proof {
        assert(views.take(names@.len() as int) =~= views);
    }
    SelectionChange::Keep
}

proof fn lemma_first_named_prefix(s: Seq<Seq<char>>, n: int, name: Seq<char>)
    requires
        0 <= n <= s.len(),
        first_named(s.take(n), name) is Some,
    ensures
        first_named(s, name) == first_named(s.take(n), name),
    decreases s.len() - n,
{
    if n < s.len() {
        assert(s.take(n + 1).drop_last() =~= s.take(n));
        lemma_first_named_prefix(s, n + 1, name);
    } else {
        assert(s.take(n) =~= s);
    }
}

} // verus!
