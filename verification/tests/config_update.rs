use subniri::config::ConfigFile;
use subniri::config_value::{KdlEntry, KdlNode, KdlValue, SourceSpan};

fn span(offset: usize) -> SourceSpan {
    SourceSpan { offset, len: 1 }
}

fn leaf(name: &str, value: KdlValue, at: usize) -> KdlNode {
    KdlNode {
        name: name.to_string(),
        entries: vec![KdlEntry { name: None, value, span: span(at) }],
        children: None,
        span: span(at),
    }
}

fn parent(name: &str, children: Vec<KdlNode>, at: usize) -> KdlNode {
    KdlNode { name: name.to_string(), entries: Vec::new(), children: Some(children), span: span(at) }
}

fn child<'a>(n: &'a KdlNode, name: &str) -> &'a KdlNode {
    n.children.as_ref().unwrap().iter().find(|c| c.name == name).unwrap()
}

fn value(n: &KdlNode) -> &KdlValue {
    assert_eq!(n.entries.len(), 1);
    &n.entries[0].value
}

#[test]
fn writing_into_an_empty_document_gives_every_section() {
    let c = ConfigFile::default();
    let mut nodes = Vec::new();
    c.apply_to_nodes(&mut nodes);
    let fresh = c.to_nodes();
    let names: Vec<&str> = nodes.iter().map(|n| n.name.as_str()).collect();
    let fresh_names: Vec<&str> = fresh.iter().map(|n| n.name.as_str()).collect();
    assert_eq!(names, fresh_names);
    assert!(matches!(value(child(&nodes[0], "dawn")), KdlValue::String(s) if s == "07:00"));
    assert!(matches!(value(child(child(&nodes[4], "fuzzy_search"), "long_max_distance")), KdlValue::Integer(3)));
}

#[test]
fn writing_keeps_what_the_document_already_holds() {
    let mut c = ConfigFile::default();
    c.nightlight.enabled = false;
    c.homeassistant.tracked_devices = vec!["z".to_string()];
    let mut nodes = vec![
        parent(
            "nightlight",
            vec![
                leaf("enabled", KdlValue::Bool(true), 2),
                leaf("note", KdlValue::String("keep".to_string()), 3),
                parent("day", vec![leaf("temperature", KdlValue::Integer(3000), 5), leaf("extra", KdlValue::Integer(1), 6)], 4),
            ],
            1,
        ),
        parent(
            "homeassistant",
            vec![parent(
                "tracked_devices",
                vec![
                    leaf("-", KdlValue::String("a".to_string()), 9),
                    leaf("x", KdlValue::Integer(1), 10),
                    leaf("-", KdlValue::String("b".to_string()), 11),
                    leaf("-", KdlValue::String("c".to_string()), 12),
                ],
                8,
            )],
            7,
        ),
        leaf("other", KdlValue::Integer(5), 13),
    ];
    c.apply_to_nodes(&mut nodes);
    let names: Vec<&str> = nodes.iter().map(|n| n.name.as_str()).collect();
    assert_eq!(names, vec!["nightlight", "homeassistant", "other", "spotify", "system_menu", "launcher", "indexing"]);
    let night = &nodes[0];
    assert_eq!(night.span, span(1));
    let enabled = child(night, "enabled");
    assert!(matches!(value(enabled), KdlValue::Bool(false)));
    assert_eq!(enabled.span, span(2));
    assert!(matches!(value(child(night, "note")), KdlValue::String(s) if s == "keep"));
    let day = child(night, "day");
    assert!(matches!(value(child(day, "temperature")), KdlValue::Integer(6500)));
    assert!(matches!(value(child(day, "extra")), KdlValue::Integer(1)));
    let kids: Vec<&str> = night.children.as_ref().unwrap().iter().map(|n| n.name.as_str()).collect();
    assert_eq!(kids, vec!["enabled", "note", "day", "use_location", "dawn", "dusk", "night", "debounce_ms"]);
    // The devices: the first `-` child now holds the one device, the later ones stay,
    // and the other child is gone.
    let devices = child(&nodes[1], "tracked_devices").children.as_ref().unwrap();
    let items: Vec<(String, String)> = devices
        .iter()
        .map(|d| (d.name.clone(), match value(d) { KdlValue::String(s) => s.clone(), _ => String::new() }))
        .collect();
    assert_eq!(
        items,
        vec![("-".to_string(), "z".to_string()), ("-".to_string(), "b".to_string()), ("-".to_string(), "c".to_string())]
    );
    assert_eq!(devices[0].span, span(9));
    assert!(matches!(value(&nodes[2]), KdlValue::Integer(5)));
}

#[test]
fn a_configuration_written_over_another_reads_back() {
    let mut d = ConfigFile::default();
    d.homeassistant.tracked_devices = vec!["lamp".to_string()];
    let mut nodes = d.to_nodes();
    let mut c = d.clone();
    c.spotify.enabled = true;
    c.nightlight.night.temperature = 2000;
    c.homeassistant.tracked_devices = vec!["fan".to_string(), "tv".to_string()];
    c.system_menu.widgets = vec![
        subniri::config::SystemMenuWidgets::Wifi,
        subniri::config::SystemMenuWidgets::Vpn,
        subniri::config::SystemMenuWidgets::Speaker,
        subniri::config::SystemMenuWidgets::Nightlight,
    ];
    c.apply_to_nodes(&mut nodes);
    let back = subniri::config_parse::config_from_nodes(&nodes).unwrap();
    assert!(back.same_settings(&c));
}

#[test]
fn devices_beyond_a_shorter_list_stay_in_the_document() {
    let mut d = ConfigFile::default();
    d.homeassistant.tracked_devices = vec!["a".to_string(), "b".to_string()];
    let mut nodes = d.to_nodes();
    let mut c = d.clone();
    c.homeassistant.tracked_devices = vec!["z".to_string()];
    c.apply_to_nodes(&mut nodes);
    let back = subniri::config_parse::config_from_nodes(&nodes).unwrap();
    assert_eq!(back.homeassistant.tracked_devices, vec!["z".to_string(), "b".to_string()]);
}
