use subniri::config::{CivilTime, ConfigFile, LauncherProvider, SystemMenuWidgets};
use subniri::config_parse::config_from_nodes;
use subniri::config_value::{KdlNode, KdlValue};

fn child<'a>(n: &'a KdlNode, name: &str) -> &'a KdlNode {
    n.children.as_ref().unwrap().iter().find(|c| c.name == name).unwrap()
}

fn value(n: &KdlNode) -> &KdlValue {
    assert_eq!(n.entries.len(), 1);
    assert!(n.children.is_none());
    &n.entries[0].value
}

#[test]
fn the_defaults_are_written_one_node_per_section() {
    let nodes = ConfigFile::default().to_nodes();
    let names: Vec<&str> = nodes.iter().map(|n| n.name.as_str()).collect();
    assert_eq!(names, vec!["nightlight", "homeassistant", "spotify", "system_menu", "launcher", "indexing"]);
    let night = &nodes[0];
    assert!(night.entries.is_empty());
    assert!(matches!(value(child(night, "enabled")), KdlValue::Bool(false)));
    assert!(matches!(value(child(night, "dawn")), KdlValue::String(s) if s == "07:00"));
    assert!(matches!(value(child(night, "dusk")), KdlValue::String(s) if s == "20:00"));
    assert!(matches!(value(child(child(night, "day"), "temperature")), KdlValue::Integer(6500)));
    assert!(matches!(value(child(child(night, "night"), "brightness")), KdlValue::Float(s) if s == "0.7"));
    assert!(matches!(value(child(night, "debounce_ms")), KdlValue::Integer(500)));
    let ha = &nodes[1];
    assert!(matches!(value(child(ha, "url")), KdlValue::Null));
    assert_eq!(child(ha, "tracked_devices").children.as_ref().map(|c| c.len()), Some(0));
    // Three providers fit inline.
    let providers = child(&nodes[4], "providers");
    assert!(providers.children.is_none());
    let texts: Vec<String> = providers
        .entries
        .iter()
        .map(|e| match &e.value {
            KdlValue::String(s) => s.clone(),
            _ => String::new(),
        })
        .collect();
    assert_eq!(texts, vec!["calculator", "applications", "files"]);
    assert!(matches!(value(child(child(&nodes[4], "fuzzy_search"), "medium_query_chars")), KdlValue::Integer(7)));
    assert!(matches!(value(child(&nodes[5], "enabled")), KdlValue::Bool(true)));
}

#[test]
fn more_than_three_items_are_written_as_dash_children() {
    let mut c = ConfigFile::default();
    c.system_menu.widgets = vec![
        SystemMenuWidgets::Wifi,
        SystemMenuWidgets::Bluetooth,
        SystemMenuWidgets::Speaker,
        SystemMenuWidgets::Vpn,
    ];
    let nodes = c.to_nodes();
    let widgets = child(&nodes[3], "widgets");
    assert!(widgets.entries.is_empty());
    let dashes = widgets.children.as_ref().unwrap();
    assert_eq!(dashes.len(), 4);
    assert!(dashes.iter().all(|d| d.name == "-"));
    assert!(matches!(value(&dashes[3]), KdlValue::String(s) if s == "vpn"));
}

#[test]
fn a_time_with_seconds_and_no_time_are_written_as_such() {
    let mut c = ConfigFile::default();
    c.nightlight.dawn = Some(CivilTime { hour: 6, minute: 5, second: 9, subsec_nanosecond: 0 });
    c.nightlight.dusk = None;
    let nodes = c.to_nodes();
    assert!(matches!(value(child(&nodes[0], "dawn")), KdlValue::String(s) if s == "06:05:09"));
    assert!(matches!(value(child(&nodes[0], "dusk")), KdlValue::Null));
}

#[test]
fn a_written_configuration_reads_back() {
    let mut c = ConfigFile::default();
    c.nightlight.enabled = true;
    c.nightlight.day.temperature = 5000;
    c.spotify.client_id = "id".to_string();
    c.homeassistant.tracked_devices = vec!["lamp".to_string()];
    c.indexing.enabled = false;
    c.launcher.providers = vec![LauncherProvider::Nix];
    let back = config_from_nodes(&c.to_nodes()).unwrap();
    assert!(back.nightlight.enabled);
    assert_eq!(back.nightlight.day.temperature, 5000);
    assert_eq!(back.nightlight.night.brightness, "0.7");
    assert_eq!(back.nightlight.dawn.map(|t| (t.hour, t.minute)), Some((7, 0)));
    assert_eq!(back.spotify.client_id, "id");
    assert_eq!(back.homeassistant.tracked_devices, vec!["lamp".to_string()]);
    assert!(!back.indexing.enabled);
    assert_eq!(back.launcher.providers, vec![LauncherProvider::Nix]);
    assert!(back.same_settings(&c));
}
