use subniri::popups::{PopupStack, Section, WindowRole};

#[test]
fn a_module_popup_toggles() {
    let mut s = PopupStack::new();
    let o = s.open_module_popup(Section::Right, 2, 10);
    assert_eq!(o.opened, Some(10));
    assert!(o.closing.popup.is_none());
    let again = s.open_module_popup(Section::Right, 2, 11);
    assert_eq!(again.opened, None);
    assert_eq!(again.closing.popup, Some(10));
    assert_eq!(again.closing.notify, Some((Section::Right, 2)));
    assert!(s.open_popup.is_none());
}

#[test]
fn another_module_replaces_the_open_popup() {
    let mut s = PopupStack::new();
    s.open_module_popup(Section::Left, 0, 10);
    s.open_context_menu(10, Section::Left, 0, 20).unwrap();
    let o = s.open_module_popup(Section::Center, 0, 11);
    assert_eq!(o.closing.contexts, vec![20]);
    assert_eq!(o.closing.popup, Some(10));
    assert_eq!(o.opened, Some(11));
    assert!(s.context_popups.is_empty());
}

#[test]
fn context_menus_nest_and_close_deepest_first() {
    let mut s = PopupStack::new();
    s.open_module_popup(Section::Left, 0, 10);
    let first = s.open_context_menu(10, Section::Left, 0, 20).unwrap();
    assert_eq!(first.retained, 0);
    let second = s.open_context_menu(20, Section::Left, 0, 21).unwrap();
    assert_eq!(second.retained, 1);
    s.open_context_menu(21, Section::Left, 0, 22).unwrap();
    assert_eq!(s.role_of(21), WindowRole::Context { depth: 1, section: Section::Left, index: 0 });
    assert_eq!(s.role_of(10), WindowRole::Popup { section: Section::Left, index: 0 });
    assert_eq!(s.role_of(99), WindowRole::Bar);
    assert_eq!(s.context_children(), vec![(10, 20), (20, 21), (21, 22)]);
    // A new menu from the first one replaces the deeper ones.
    let again = s.open_context_menu(20, Section::Left, 0, 23).unwrap();
    assert_eq!(again.retained, 1);
    assert_eq!(again.closed, vec![22, 21]);
    // A request from a window that is not part of the chain is ignored.
    assert!(s.open_context_menu(99, Section::Left, 0, 24).is_none());
    assert!(s.open_context_menu(20, Section::Right, 0, 24).is_none());
    let all = s.close_open_popup();
    assert_eq!(all.contexts, vec![23, 20]);
    assert_eq!(all.popup, Some(10));
}

#[test]
fn closing_and_unfocusing_windows() {
    let mut s = PopupStack::new();
    s.open_module_popup(Section::Right, 1, 10);
    s.open_context_menu(10, Section::Right, 1, 20).unwrap();
    s.open_context_menu(20, Section::Right, 1, 21).unwrap();
    assert!(s.is_popup_window(21));
    assert!(!s.is_popup_window(5));
    // The parent popup losing focus to its menu keeps everything.
    assert!(s.popup_unfocused(10).popup.is_none());
    assert_eq!(s.context_popups.len(), 2);
    // A menu with a child stays; the deepest one closes.
    assert!(s.popup_unfocused(20).contexts.is_empty());
    assert_eq!(s.popup_unfocused(21).contexts, vec![21]);
    assert_eq!(s.context_popups.len(), 1);
    // A click in the popup closes the menus opened from it.
    assert!(s.close_context_descendants(10, 99).is_empty());
    assert_eq!(s.close_context_descendants(10, 20), vec![20]);
    s.open_context_menu(10, Section::Right, 1, 30).unwrap();
    let c = s.window_closed(10);
    assert_eq!(c.contexts, vec![30]);
    assert_eq!(c.notify, Some((Section::Right, 1)));
    assert!(s.open_popup.is_none());
    // Unfocusing a popup without menus closes it.
    s.open_module_popup(Section::Left, 0, 40);
    let u = s.popup_unfocused(40);
    assert_eq!(u.popup, Some(40));
    assert_eq!(u.notify, Some((Section::Left, 0)));
}

#[test]
fn closing_a_context_menu_takes_its_children() {
    let mut s = PopupStack::new();
    s.open_module_popup(Section::Center, 0, 1);
    s.open_context_menu(1, Section::Center, 0, 2).unwrap();
    s.open_context_menu(2, Section::Center, 0, 3).unwrap();
    s.open_context_menu(3, Section::Center, 0, 4).unwrap();
    let c = s.window_closed(2);
    assert_eq!(c.contexts, vec![4, 3]);
    assert!(c.notify.is_none());
    assert!(s.context_popups.is_empty());
    assert!(s.open_popup.is_some());
    assert_eq!(s.close_context_from(0), Vec::<u64>::new());
}
