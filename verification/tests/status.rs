use subniri::status::{device_click, device_icon, DeviceClick, DeviceIcon};
use subniri::nightlight::NightlightPreset;
use subniri::status::{suspend_choices, wifi_state, BluetoothState, NetworkInfo, NightlightToggle, WifiState};

#[test]
fn bluetooth_subtitles() {
    let s = BluetoothState { enabled: true, active_devices: 2 };
    assert_eq!(s.subtitle(), "2 devices");
    assert_eq!(BluetoothState::default().subtitle(), "Disabled");
    assert_eq!(s.toggled(), BluetoothState { enabled: false, active_devices: 2 });
}

fn net(ssid: &str, strength: Option<u8>, is_active: bool) -> NetworkInfo {
    NetworkInfo { ssid: ssid.to_string(), strength, is_active }
}

#[test]
fn wifi_shows_the_strongest_active_network() {
    let nets = vec![
        net("a", Some(40), true),
        net("b", Some(90), false),
        net("c", Some(70), true),
        net("d", Some(70), true),
        net("e", None, true),
    ];
    let s = wifi_state(true, &nets, false);
    let c = s.active_connection.clone().unwrap();
    assert_eq!(c.ssid, "c");
    assert_eq!(s.extra_active_connections, 3);
    assert_eq!(s.subtitle(), "c · 70% · +3");
    let one = wifi_state(true, &vec![net("home", None, true)], false);
    assert_eq!(one.subtitle(), "home · -- %");
    assert_eq!(wifi_state(true, &Vec::new(), true).subtitle(), "Wired connected");
    assert_eq!(wifi_state(true, &Vec::new(), false).subtitle(), "Not connected");
    assert_eq!(WifiState::default().subtitle(), "Disabled");
    assert!(WifiState::assumed_after_toggle(true).enabled);
}

#[test]
fn nightlight_toggle_flips_at_once() {
    let mut t = NightlightToggle { enabled: false, preset: NightlightPreset::Day, temperature: 6500, brightness_bits: 1.0f64.to_bits() };
    assert!(!t.toggle());
    assert!(t.enabled);
    assert_eq!(t.preset_subtitle(), Some("day"));
    t.preset = NightlightPreset::Custom;
    assert_eq!(t.preset_subtitle(), None);
    let choices = suspend_choices();
    assert_eq!(choices, vec![("15 minutes", 900), ("30 minutes", 1800), ("1 hour", 3600), ("2 hours", 7200)]);
}

#[test]
fn bluetooth_devices_toggle_and_pick_icons() {
    assert_eq!(device_click(true, false), DeviceClick::Disconnect);
    assert_eq!(device_click(false, true), DeviceClick::Disconnect);
    assert_eq!(device_click(false, false), DeviceClick::Connect);
    assert_eq!(device_icon(Some("audio-headset")), DeviceIcon::Headset);
    assert_eq!(device_icon(Some("audio-headphones")), DeviceIcon::Headphones);
    assert_eq!(device_icon(Some("phone")), DeviceIcon::Bluetooth);
    assert_eq!(device_icon(None), DeviceIcon::Bluetooth);
}
