use subniri::connection::default_node_name;
use subniri::connection::{
    is_connection_error, next_backoff, node_name, reconnect_delay_ms, runs_as_service,
    ConnectionAction, ConnectionState, IoErrorKind,
};

#[test]
fn reconnect_delays_grow_and_cap() {
    let delays: Vec<u64> = (0..6).map(reconnect_delay_ms).collect();
    assert_eq!(delays, vec![250, 500, 1000, 2000, 5000, 5000]);
    assert!(is_connection_error(IoErrorKind::BrokenPipe));
    assert!(!is_connection_error(IoErrorKind::Other));
    assert_eq!(next_backoff(1), 2);
    assert_eq!(next_backoff(16), 30);
    assert_eq!(next_backoff(30), 30);
}

#[test]
fn the_connection_state_machine() {
    let mut s = ConnectionState::connected();
    assert_eq!(s.health_tick(false), ConnectionAction::CheckHealth);
    assert_eq!(s.health_check_sent(Ok(7)), ConnectionAction::Wait);
    assert_eq!(s.health_tick(false), ConnectionAction::Wait);
    s.health_check_answered(7);
    assert_eq!(s.pending_health_check, None);
    s.health_check_sent(Ok(8));
    assert_eq!(s.health_tick(true), ConnectionAction::ReconnectAfter(250));
    assert!(!s.connected);
    assert_eq!(s.health_tick(false), ConnectionAction::Wait);
    assert_eq!(s.reconnect_finished(false), ConnectionAction::ReconnectAfter(500));
    assert_eq!(s.schedule_reconnect(), ConnectionAction::Wait);
    assert_eq!(s.reconnect_finished(true), ConnectionAction::Wait);
    assert_eq!(s, ConnectionState::connected());
    assert_eq!(s.health_check_sent(Err("gone".to_string())), ConnectionAction::ReconnectAfter(250));
}

#[test]
fn node_names_and_services() {
    assert_eq!(node_name(&vec![None, Some("Speakers".to_string()), Some("x".to_string())]), Some("Speakers".to_string()));
    assert_eq!(node_name(&vec![None, None]), None);
    assert!(runs_as_service("0::/user.slice/user-1000.slice/user@1000.service/app.slice/bar.service\n"));
    assert!(!runs_as_service("0::/user.slice/user-1000.slice/session-2.scope\n"));
    assert!(runs_as_service("1:name=systemd:/system.slice/x.service"));
    assert!(!runs_as_service(""));
    assert!(runs_as_service("0::/a/b.service\r\n"));
}

#[test]
fn the_default_node_is_named_by_its_json_name() {
    assert_eq!(default_node_name(Some(r#"{ "name": "alsa_output.pci" }"#)), Some("alsa_output.pci".to_owned()));
    assert_eq!(default_node_name(Some(r#"{ "name": 3 }"#)), None);
    assert_eq!(default_node_name(Some("not json")), None);
    assert_eq!(default_node_name(None), None);
}
