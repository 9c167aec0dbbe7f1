use subniri::connection::ConnectionAction;
use subniri::pipewire::{classify_global, metadata_action, parse_u32, AudioDevices, MetadataAction};

#[test]
fn device_ids_parse_as_std_parses_them() {
    for text in ["0", "42", "+7", "4294967295", "4294967296", "", "+", "-1", "1a", " 1", "007"] {
        assert_eq!(parse_u32(text), text.parse::<u32>().ok(), "for {text:?}");
    }
}

#[test]
fn only_audio_nodes_are_kept_and_unnamed_ones_are_labelled_by_id() {
    assert!(classify_global(5, Some("Video/Source"), None, None, None).is_none());
    assert!(classify_global(5, None, None, None, None).is_none());
    let n = classify_global(5, Some("Audio/Sink"), None, Some("alsa_output"), Some("12")).unwrap();
    assert_eq!((n.id, n.device_id, n.name.as_deref(), n.label.as_str(), n.is_sink, n.is_source), (5, Some(12), Some("alsa_output"), "Node 5", true, false));
    let d = classify_global(6, Some("Audio/Duplex"), Some("Headset".to_string()), None, Some("x")).unwrap();
    assert_eq!((d.label.as_str(), d.device_id, d.is_sink, d.is_source), ("Headset", None, false, false));
}

#[test]
fn default_metadata_names_the_sink_or_source() {
    let v = Some(r#"{"name":"alsa_output.pci"}"#);
    assert_eq!(metadata_action(Some("default.audio.sink"), v), MetadataAction::DefaultSink("alsa_output.pci".to_string()));
    assert_eq!(metadata_action(Some("default.audio.source"), v), MetadataAction::DefaultSource("alsa_output.pci".to_string()));
    assert_eq!(metadata_action(Some("default.video.sink"), v), MetadataAction::Ignore);
    assert_eq!(metadata_action(Some("default.audio.sink"), Some("{}")), MetadataAction::Ignore);
    assert_eq!(metadata_action(Some("default.audio.sink"), None), MetadataAction::Ignore);
}

#[test]
fn losing_the_connection_forgets_every_device() {
    let mut d = AudioDevices::new();
    d.nodes.push(classify_global(5, Some("Audio/Sink"), None, Some("out"), None).unwrap());
    d.routed_devices.push(12);
    d.default_changed(true, "out");
    assert_eq!(d.default_sink, Some(5));
    d.default_changed(false, "missing");
    assert_eq!(d.default_source, None);
    let a = d.connection_lost();
    assert!(d.nodes.is_empty() && d.routed_devices.is_empty());
    assert_eq!((d.default_sink, d.default_source), (None, None));
    assert!(!d.connection.connected && d.connection.reconnect_in_flight);
    assert_eq!(a, ConnectionAction::ReconnectAfter(250));
    assert_eq!(d.connection_lost(), ConnectionAction::Wait);
}

#[test]
fn nodes_are_announced_again_and_removed_by_id() {
    let mut d = AudioDevices::new();
    d.node_upserted(classify_global(5, Some("Audio/Sink"), None, Some("out"), None).unwrap());
    d.node_upserted(classify_global(7, Some("Audio/Source"), None, Some("mic"), None).unwrap());
    d.node_upserted(classify_global(5, Some("Audio/Sink"), Some("Speakers".to_string()), Some("out"), None).unwrap());
    let ids: Vec<u32> = d.nodes.iter().map(|n| n.id).collect();
    assert_eq!(ids, vec![5, 7]);
    assert_eq!(d.nodes[0].label, "Speakers");
    d.route_upserted(12);
    d.route_upserted(12);
    d.route_upserted(7);
    assert_eq!(d.routed_devices, vec![12, 7]);
    d.default_changed(true, "out");
    d.node_removed(7);
    let ids: Vec<u32> = d.nodes.iter().map(|n| n.id).collect();
    assert_eq!(ids, vec![5]);
    assert_eq!(d.routed_devices, vec![12]);
    assert_eq!(d.default_sink, Some(5));
    d.node_removed(99);
    assert_eq!(d.nodes.len(), 1);
}
