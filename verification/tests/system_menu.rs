use subniri::config::SystemMenuWidgets as W;
use subniri::system_menu::{all_widgets, editing_widgets, uptime_units, SystemMenuEditor, UptimeUnit};

#[test]
fn editing_lists_shown_widgets_first_then_the_rest() {
    let shown = vec![W::Nightlight, W::Wifi, W::Nightlight];
    assert_eq!(
        editing_widgets(&shown),
        vec![
            (W::Nightlight, false),
            (W::Wifi, false),
            (W::Bluetooth, true),
            (W::Speaker, true),
            (W::Microphone, true),
            (W::Vpn, true),
        ]
    );
    assert_eq!(editing_widgets(&vec![]).len(), all_widgets().len());
}

#[test]
fn widgets_are_added_and_removed() {
    let mut e = SystemMenuEditor::new(vec![W::Wifi, W::Vpn, W::Wifi]);
    e.set_editing(true);
    e.add_widget(W::Speaker);
    assert_eq!(e.widgets, vec![W::Wifi, W::Vpn, W::Wifi, W::Speaker]);
    e.remove_widget(W::Wifi);
    assert_eq!(e.widgets, vec![W::Vpn, W::Speaker]);
    e.sync_widgets(&vec![W::Bluetooth]);
    assert_eq!(e.widgets, vec![W::Bluetooth]);
    assert!(e.editing);
}

#[test]
fn uptime_is_shown_in_three_units_from_the_largest_nonzero() {
    assert_eq!(uptime_units(1, 0, 0, 5), (UptimeUnit::Year, UptimeUnit::Day));
    assert_eq!(uptime_units(0, 2, 3, 0), (UptimeUnit::Month, UptimeUnit::Hour));
    assert_eq!(uptime_units(0, 0, 4, 1), (UptimeUnit::Day, UptimeUnit::Minute));
    assert_eq!(uptime_units(0, 0, 0, 7), (UptimeUnit::Hour, UptimeUnit::Minute));
    assert_eq!(uptime_units(0, 0, 0, 0), (UptimeUnit::Minute, UptimeUnit::Minute));
}
