use subniri::network::{
    arrange_access_points, network_name, primary_connection, wifi_icon_for_signal_strength, AccessPoint,
    ActiveConnection, ConnectionState, ConnectivityState, NetworkIcon, NetworkSnapshot, Transport, WifiDevice,
};

fn wifi(ssid: &str, state: ConnectionState, strength: Option<u8>) -> ActiveConnection {
    ActiveConnection::Wifi {
        ssid: ssid.to_owned(),
        state,
        strength,
        ip4_address: Some("192.168.1.5/24".to_owned()),
        ip6_address: None,
    }
}

fn wired(id: &str, state: ConnectionState) -> ActiveConnection {
    ActiveConnection::Wired {
        id: id.to_owned(),
        state,
        ip4_address: None,
        ip6_address: Some("fe80::1/64".to_owned()),
        speed_mbps: Some(1000),
    }
}

fn snapshot(conns: Vec<ActiveConnection>) -> NetworkSnapshot {
    NetworkSnapshot {
        connectivity: ConnectivityState::Full,
        wifi: WifiDevice { present: true, hardware_enabled: true, enabled: true },
        active_connections: conns,
        access_points: vec![],
    }
}

fn ap(ssid: &str, strength: u8, is_active: bool) -> AccessPoint {
    AccessPoint { ssid: ssid.to_owned(), strength, is_active }
}

#[test]
fn wired_connections_come_first() {
    let conns = vec![
        wifi("home", ConnectionState::Activated, Some(80)),
        wired("eth0", ConnectionState::Activating),
        wired("eth1", ConnectionState::Activated),
    ];
    assert_eq!(primary_connection(&conns, ConnectionState::Activated), Some(2));
    assert_eq!(primary_connection(&conns, ConnectionState::Activating), Some(1));
    assert_eq!(primary_connection(&conns, ConnectionState::Deactivated), None);
}

#[test]
fn the_strongest_wifi_wins_and_the_last_of_equals() {
    let conns = vec![
        wifi("a", ConnectionState::Activated, Some(50)),
        wifi("b", ConnectionState::Activated, Some(70)),
        wifi("c", ConnectionState::Activated, Some(70)),
        wifi("d", ConnectionState::Activated, None),
    ];
    assert_eq!(primary_connection(&conns, ConnectionState::Activated), Some(2));
}

#[test]
fn names_and_subtexts_of_the_shown_connection() {
    let snap = snapshot(vec![wifi("home", ConnectionState::Activated, Some(40))]);
    assert_eq!(snap.active_name(), "home");
    assert_eq!(snap.active_text(), "home");
    // The trailing digits of the address go with the prefix length.
    assert_eq!(snap.active_subtext(), "192.168.1. - Wifi Mbps");
    let snap = snapshot(vec![wired("Wired connection 1", ConnectionState::Activated)]);
    assert_eq!(snap.active_text(), "Ethernet");
    assert_eq!(snap.active_name(), "Wired connection 1");
    assert_eq!(snap.active_subtext(), "fe80:: - 1000 Mbps");
    let snap = snapshot(vec![wired("eth0", ConnectionState::Activating)]);
    assert_eq!(snap.active_name(), "eth0");
    assert_eq!(snap.active_subtext(), "None - 0 Mbps");
    let snap = snapshot(vec![]);
    assert_eq!(snap.active_name(), "No connection");
    assert_eq!(network_name(&ActiveConnection::Unrecognized), "Unknown");
}

#[test]
fn connectivity_picks_the_icon() {
    let mut snap = snapshot(vec![wifi("home", ConnectionState::Activated, Some(75))]);
    assert_eq!(snap.connectivity_icon(), (NetworkIcon::WifiHigh, false));
    snap.connectivity = ConnectivityState::Portal;
    assert_eq!(snap.connectivity_icon(), (NetworkIcon::GlobeX, false));
    snap.connectivity = ConnectivityState::Limited;
    assert_eq!(snap.connectivity_icon(), (NetworkIcon::WifiX, false));
    snap.connectivity = ConnectivityState::Unknown;
    assert_eq!(snap.connectivity_icon(), (NetworkIcon::WifiHigh, true));
    let snap = snapshot(vec![wired("eth0", ConnectionState::Activating)]);
    assert_eq!(snap.connectivity_icon(), (NetworkIcon::Network, true));
    let mut snap = snapshot(vec![]);
    assert_eq!(snap.connectivity_icon(), (NetworkIcon::WifiX, true));
    snap.wifi.enabled = false;
    assert_eq!(snap.connectivity_icon(), (NetworkIcon::WifiSlash, true));
    assert!(!snap.wifi_enabled());
    snap.wifi.present = false;
    assert_eq!(snap.connectivity_icon(), (NetworkIcon::NetworkX, true));
}

#[test]
fn signal_icons_by_strength() {
    assert_eq!(wifi_icon_for_signal_strength(39), NetworkIcon::WifiLow);
    assert_eq!(wifi_icon_for_signal_strength(40), NetworkIcon::WifiMedium);
    assert_eq!(wifi_icon_for_signal_strength(69), NetworkIcon::WifiMedium);
    assert_eq!(wifi_icon_for_signal_strength(70), NetworkIcon::WifiHigh);
    assert_eq!(Transport::Wifi(None).icon(), NetworkIcon::WifiMedium);
    assert_eq!(Transport::Wired.x_icon(), NetworkIcon::NetworkX);
}

#[test]
fn access_points_are_sorted_and_deduplicated() {
    let aps = vec![
        ap("cafe", 30, false),
        ap("home", 90, true),
        ap("office", 60, false),
        ap("cafe", 80, false),
        ap("office", 60, false),
    ];
    let names: Vec<(String, u8)> = arrange_access_points(&aps).into_iter().map(|a| (a.ssid, a.strength)).collect();
    assert_eq!(
        names,
        vec![("cafe".to_owned(), 80), ("office".to_owned(), 60), ("home".to_owned(), 90)]
    );
}
