use subniri::media_widget::{selection_change, title_button_action, HoverPopup, SelectionChange};
use subniri::players::PlayerAction;

#[test]
fn the_popup_shows_on_the_first_hover_and_hides_after_the_last() {
    let mut h = HoverPopup::new();
    let a = h.enter_widget();
    assert!(a.show && a.forget_timer && !a.cancel_timer);
    let a = h.enter_popup();
    assert!(!a.show && a.cancel_timer);
    let a = h.leave();
    assert!(!a.start_timer);
    let a = h.leave();
    assert!(a.start_timer && a.cancel_timer);
    let a = h.leave();
    assert_eq!(h.hovered, 0);
    assert!(a.start_timer);
}

#[test]
fn the_title_button_plays_or_pauses() {
    assert_eq!(title_button_action(true, true, true), PlayerAction::Pause);
    assert_eq!(title_button_action(false, true, true), PlayerAction::Nothing);
    assert_eq!(title_button_action(true, true, false), PlayerAction::Play);
    assert_eq!(title_button_action(true, false, false), PlayerAction::Nothing);
}

#[test]
fn the_selection_follows_the_active_player() {
    let names = vec!["a".to_owned(), "b".to_owned(), "b".to_owned()];
    assert_eq!(selection_change("", &names, Some(1)), SelectionChange::Clear);
    assert_eq!(selection_change("", &names, None), SelectionChange::Keep);
    assert_eq!(selection_change("b", &names, Some(0)), SelectionChange::Select(1));
    assert_eq!(selection_change("b", &names, Some(1)), SelectionChange::Keep);
    assert_eq!(selection_change("c", &names, Some(0)), SelectionChange::Keep);
}
