use subniri::dbusmenu::{Layout, LayoutItemType, LayoutProperties, LayoutWire, PropValue};
use subniri::tray::{
    activation_from_introspection, item_menu_path, item_window_id, choose_activation, decode_mnemonics, format_shortcut, normalize_service, refreshes_tray_item,
    status_of, toggle_indicator, Activation, ItemAddress, ToggleIndicator, TrayError,
    TrayItemStatus,
};
use subniri::dbusmenu::{ToggleState, ToggleType};
use subniri::tray_menu::TrayCommand;
use subniri::watcher::{HostAction, HostEvent, WatcherState};

fn layout(id: i32, label: &str, children: Vec<Layout>) -> Layout {
    let mut properties = LayoutProperties::default();
    properties.label = label.to_string();
    Layout { id, properties, children }
}

#[test]
fn standard_item_change_signals_refresh_the_snapshot() {
    for member in [
        "NewTitle",
        "NewIcon",
        "NewAttentionIcon",
        "NewOverlayIcon",
        "NewToolTip",
        "NewStatus",
        "NewMenu",
        "NewIconThemePath",
    ] {
        assert!(refreshes_tray_item(member), "ignored {member}");
    }
    assert!(!refreshes_tray_item("Activate"));
}

#[test]
fn layout_wire_conversion_is_recursive_and_uses_protocol_defaults() {
    let grandchild = LayoutWire {
        id: 2,
        properties: vec![("label".to_string(), PropValue::Str("_Open".to_string()))],
        children: Vec::new(),
    };
    let child = LayoutWire {
        id: 1,
        properties: vec![("type".to_string(), PropValue::Str("separator".to_string()))],
        children: vec![grandchild],
    };
    let root = Layout::from_wire(LayoutWire { id: 0, properties: Vec::new(), children: vec![child] });

    assert_eq!(root.id, 0);
    assert!(root.properties.enabled);
    assert!(root.properties.visible);
    assert_eq!(root.children[0].properties.ty, LayoutItemType::Separator);
    assert_eq!(root.children[0].children[0].properties.label, "_Open");
}

#[test]
fn lookup_and_subtree_replacement_use_ids_not_mnemonics() {
    let mut root = layout(0, "_Root", vec![layout(1, "_File", vec![layout(2, "_Open", Vec::new())])]);

    assert_eq!(root.find(2).map(|item| item.properties.label.as_str()), Some("_Open"));
    assert!(root.find(99).is_none());

    let old = root.replace_subtree(layout(1, "Fi_le", vec![layout(3, "_Save", Vec::new())]));
    assert_eq!(old.map(|item| item.properties.label), Some("_File".to_string()));
    assert!(root.find(2).is_none());
    assert_eq!(root.find(3).map(|item| item.properties.label.as_str()), Some("_Save"));
}

#[test]
fn property_updates_parse_typed_arrays_and_removals() {
    let updates = vec![
        ("enabled".to_string(), PropValue::Bool(false)),
        ("icon-data".to_string(), PropValue::Bytes(vec![1_u8, 2, 3])),
        (
            "shortcut".to_string(),
            PropValue::StrLists(vec![
                vec!["Control".to_string(), "Q".to_string()],
                vec!["Alt".to_string(), "F4".to_string()],
            ]),
        ),
        ("vendor-property".to_string(), PropValue::Int32(7)),
    ];

    let mut properties = LayoutProperties::default();
    properties.apply_updates(&updates);

    assert!(!properties.enabled);
    assert_eq!(properties.icon_data, vec![1, 2, 3]);
    assert_eq!(properties.shortcut, vec![vec!["Control", "Q"], vec!["Alt", "F4"]]);
    assert!(properties.has_unknown("vendor-property"));

    properties.remove(&vec![
        "enabled".to_string(),
        "icon-data".to_string(),
        "shortcut".to_string(),
        "vendor-property".to_string(),
    ]);
    assert!(properties.enabled);
    assert!(properties.icon_data.is_empty());
    assert!(properties.shortcut.is_empty());
    assert!(!properties.has_unknown("vendor-property"));
}

#[test]
fn replaced_entry_is_found_by_its_id() {
    let mut root = layout(0, "root", vec![layout(4, "a", Vec::new()), layout(5, "b", Vec::new())]);
    let old = root.replace_subtree(layout(5, "c", vec![layout(6, "d", Vec::new())]));
    assert_eq!(old.map(|l| l.properties.label), Some("b".to_string()));
    assert_eq!(root.find(5).map(|l| l.properties.label.as_str()), Some("c"));
    assert_eq!(root.find(6).map(|l| l.properties.label.as_str()), Some("d"));
    assert!(root.replace_subtree(layout(42, "x", Vec::new())).is_none());
    assert!(root.find(42).is_none());
}

#[test]
fn replacing_an_entry_leaves_the_others_as_they_were() {
    let mut root = layout(
        0,
        "root",
        vec![layout(1, "a", vec![layout(2, "a1", Vec::new())]), layout(3, "b", Vec::new()), layout(4, "c", Vec::new())],
    );
    root.replace_subtree(layout(1, "z", Vec::new()));
    assert_eq!(root.properties.label, "root");
    assert!(root.find(2).is_none());
    assert_eq!(root.find(1).map(|l| l.properties.label.as_str()), Some("z"));
    assert_eq!(root.find(3).map(|l| l.properties.label.as_str()), Some("b"));
    assert_eq!(root.find(4).map(|l| l.properties.label.as_str()), Some("c"));
    assert_eq!(root.children.len(), 3);
}

#[test]
fn services_are_normalized_against_the_sender() {
    assert_eq!(
        normalize_service("/org/ayatana/NotificationItem/x".to_string(), Some(":1.42")).unwrap(),
        ":1.42/org/ayatana/NotificationItem/x"
    );
    assert_eq!(normalize_service(String::new(), Some(":1.7")).unwrap(), ":1.7");
    assert_eq!(normalize_service("org.kde.app".to_string(), None).unwrap(), "org.kde.app");
    assert_eq!(normalize_service("/path".to_string(), None).unwrap_err(), TrayError::MissingSender);
    assert_eq!(normalize_service(String::new(), None).unwrap_err(), TrayError::MissingSender);
}

#[test]
fn item_addresses_split_at_the_first_slash() {
    let a = ItemAddress::parse(":1.42/org/ayatana/NotificationItem/x").unwrap();
    assert_eq!(a.bus_name, ":1.42");
    assert_eq!(a.object_path, "/org/ayatana/NotificationItem/x");
    let b = ItemAddress::parse("org.kde.StatusNotifierItem-1-1").unwrap();
    assert_eq!(b.bus_name, "org.kde.StatusNotifierItem-1-1");
    assert_eq!(b.object_path, "/StatusNotifierItem");
    assert_eq!(ItemAddress::parse("not a name/x").unwrap_err(), TrayError::InvalidBusName);
    assert_eq!(ItemAddress::parse(":1.5/bad//path").unwrap_err(), TrayError::InvalidObjectPath);
}

#[test]
fn object_paths_follow_the_dbus_rules() {
    assert_eq!(ItemAddress::parse(":1.5/").unwrap().object_path, "/");
    assert_eq!(ItemAddress::parse(":1.5/a_1/B2").unwrap().object_path, "/a_1/B2");
    assert_eq!(ItemAddress::parse(":1.5/trailing/").unwrap_err(), TrayError::InvalidObjectPath);
    assert_eq!(ItemAddress::parse(":1.5/with-dash").unwrap_err(), TrayError::InvalidObjectPath);
    assert_eq!(ItemAddress::parse(":1.5/caf\u{e9}").unwrap_err(), TrayError::InvalidObjectPath);
}

#[test]
fn item_status_and_activation() {
    assert_eq!(status_of(Some("NeedsAttention")), TrayItemStatus::NeedsAttention);
    assert_eq!(status_of(Some("Passive")), TrayItemStatus::Passive);
    assert_eq!(status_of(Some("Weird")), TrayItemStatus::Unknown);
    assert_eq!(status_of(None), TrayItemStatus::Unknown);
    assert_eq!(choose_activation(Some(true), true, true, true), Activation::DbusMenu);
    assert_eq!(choose_activation(Some(true), false, true, true), Activation::ContextMenu);
    assert_eq!(choose_activation(Some(true), false, true, false), Activation::Unsupported);
    assert_eq!(choose_activation(None, true, true, false), Activation::Activate);
    assert_eq!(choose_activation(Some(false), true, false, false), Activation::DbusMenu);
}

#[test]
fn mnemonics_and_shortcuts() {
    let spans = decode_mnemonics("_File a__b_");
    let view: Vec<(String, bool)> = spans.into_iter().map(|s| (s.text, s.underline)).collect();
    assert_eq!(
        view,
        vec![("F".to_string(), true), ("ile a_b_".to_string(), false)]
    );
    let s = format_shortcut(&vec![
        vec!["Control".to_string(), "Q".to_string()],
        vec!["Alt".to_string(), "F4".to_string()],
    ]);
    assert_eq!(s, "Ctrl+Q");
    assert_eq!(toggle_indicator(ToggleType::Radio, ToggleState::Off), Some(ToggleIndicator::Circle));
    assert_eq!(toggle_indicator(ToggleType::Checkmark, ToggleState::On), Some(ToggleIndicator::Check));
    assert_eq!(toggle_indicator(ToggleType::Empty, ToggleState::Indeterminate), None);
}

#[test]
fn watcher_host_forgets_items_of_a_vanished_owner() {
    let mut w = WatcherState::new();
    let a = w.host_event(HostEvent::ItemRegistered(":1.5/item".to_string()));
    assert_eq!(a, vec![HostAction::Watch(":1.5/item".to_string())]);
    w.host_event(HostEvent::ItemRegistered(":1.5".to_string()));
    w.host_event(HostEvent::ItemRegistered(":1.50/item".to_string()));
    w.host_event(HostEvent::ItemRegistered("org.app".to_string()));
    assert_eq!(
        w.host_event(HostEvent::ItemRead("org.app".to_string())),
        vec![HostAction::Forward("org.app".to_string())]
    );
    let removed = w.host_event(HostEvent::NameOwnerChanged {
        name: ":1.5".to_string(),
        old_owner: ":1.5".to_string(),
        new_owner: String::new(),
    });
    assert_eq!(
        removed,
        vec![HostAction::Remove(":1.5/item".to_string()), HostAction::Remove(":1.5".to_string())]
    );
    assert!(!w.contains_item(":1.5/item"));
    assert!(w.contains_item(":1.50/item"));
    let none = w.host_event(HostEvent::NameOwnerChanged {
        name: "org.app".to_string(),
        old_owner: String::new(),
        new_owner: ":1.9".to_string(),
    });
    assert!(none.is_empty());
    w.host_event(HostEvent::ItemUnregistered("org.app".to_string()));
    assert!(w.host_event(HostEvent::ItemRead("org.app".to_string())).is_empty());
}

#[test]
fn watcher_registrations_are_counted_once() {
    let mut w = WatcherState::new();
    assert!(!w.is_status_notifier_host_registered());
    assert!(w.register_status_notifier_host("host".to_string()));
    assert!(!w.register_status_notifier_host("host".to_string()));
    assert!(w.is_status_notifier_host_registered());
    assert_eq!(w.register_status_notifier_item("/item".to_string(), Some(":1.3")), Ok(true));
    assert_eq!(w.register_status_notifier_item("/item".to_string(), Some(":1.3")), Ok(false));
    assert_eq!(w.register_status_notifier_item("/item".to_string(), None), Err(TrayError::MissingSender));
    assert_eq!(w.registered_status_notifier_items(), vec![":1.3/item".to_string()]);
    assert!(w.remove_item(":1.3/item"));
    assert!(!w.remove_item(":1.3/item"));
}

#[test]
fn tray_commands_know_their_service_and_menu() {
    let open = TrayCommand::ActivateWithDbusMenu {
        service: "s".to_string(),
        bus_name: ":1.2".to_string(),
        path: "/Menu".to_string(),
    };
    assert_eq!(open.service(), "s");
    assert!(open.closes_menu_on_failure());
    assert_eq!(open.watched_menu(), Some((":1.2".to_string(), "/Menu".to_string())));
    let click = TrayCommand::Activate { service: "t".to_string(), x: 1, y: 2 };
    assert!(!click.closes_menu_on_failure());
    assert_eq!(click.watched_menu(), None);
}

#[test]
fn removing_the_updated_properties_restores_the_defaults() {
    let updates = vec![
        ("label".to_string(), PropValue::Str("_Open".to_string())),
        ("type".to_string(), PropValue::Str("separator".to_string())),
        ("enabled".to_string(), PropValue::Bool(false)),
        ("vendor-thing".to_string(), PropValue::Int32(4)),
        ("toggle-state".to_string(), PropValue::Int32(1)),
    ];
    let mut p = LayoutProperties::default();
    p.apply_updates(&updates);
    assert_eq!(p.unknown.len(), 1);
    let names: Vec<String> = updates.iter().map(|(k, _)| k.clone()).collect();
    p.remove(&names);
    let d = LayoutProperties::default();
    assert_eq!(p.label, d.label);
    assert_eq!(p.ty, d.ty);
    assert_eq!(p.enabled, d.enabled);
    assert_eq!(p.toggle_state, d.toggle_state);
    assert!(p.unknown.is_empty());
}

#[test]
fn activation_is_read_from_the_introspection_xml() {
    let both = r#"<node><interface name="org.freedesktop.DBus.Properties"><method name="Get"/></interface><interface name="org.kde.StatusNotifierItem"><method name="Activate"><arg type="i" direction="in"/><arg type="i" direction="in"/></method><method name="ContextMenu"/></interface></node>"#;
    let menu_only = r#"<node><interface name="org.kde.StatusNotifierItem"><method name="ContextMenu"/></interface></node>"#;
    let none = r#"<node><interface name="org.kde.StatusNotifierItem"></interface></node>"#;
    let other = r#"<node><interface name="org.example.Other"><method name="ContextMenu"/></interface></node>"#;
    assert_eq!(activation_from_introspection(Some(both), None, true), Activation::Activate);
    assert_eq!(activation_from_introspection(Some(both), Some(true), true), Activation::DbusMenu);
    assert_eq!(activation_from_introspection(Some(menu_only), None, true), Activation::ContextMenu);
    assert_eq!(activation_from_introspection(Some(none), None, true), Activation::DbusMenu);
    assert_eq!(activation_from_introspection(Some(none), Some(true), false), Activation::Unsupported);
    assert_eq!(activation_from_introspection(Some(other), None, false), Activation::Activate);
    assert_eq!(activation_from_introspection(Some("not xml <"), None, false), Activation::Activate);
    assert_eq!(activation_from_introspection(None, Some(true), false), Activation::Activate);
    assert_eq!(item_menu_path(Some("/".to_string())), None);
    assert_eq!(item_menu_path(Some("/MenuBar".to_string())), Some("/MenuBar".to_string()));
    assert_eq!(item_window_id(Some(0)), None);
    assert_eq!(item_window_id(Some(7)), Some(7));
}

#[test]
fn bus_names_follow_the_dbus_rules() {
    for ok in [":1.42", ":a-b.c_d", "org.freedesktop.DBus", "org.kde.StatusNotifierItem-1-1", "_a.-b", "org.ex-ample_1"] {
        assert_eq!(ItemAddress::parse(ok).unwrap().bus_name, ok);
    }
    let long = format!("org.{}", "a".repeat(251));
    assert!(ItemAddress::parse(&long).is_ok());
    let too_long = format!("org.{}", "a".repeat(252));
    for bad in [":1", "org", "org.1kde", "a..b", ".a.b", "a.b.", ":1.42.", "caf\u{e9}.x", "", too_long.as_str()] {
        assert_eq!(ItemAddress::parse(bad).unwrap_err(), TrayError::InvalidBusName, "{bad:?}");
    }
}
