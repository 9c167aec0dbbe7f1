use vstd::prelude::*;

use crate::nightlight::NightlightPreset;
use crate::text::{decimal, decimal_string, push_str, str_eq};

verus! {

// ---------------------------------------------------------------------------
// Bluetooth.
// ---------------------------------------------------------------------------

/// Whether Bluetooth is powered, and how many devices are connected.
#[derive(Debug, Clone, Copy, PartialEq, Eq, Structural)]
pub struct BluetoothState {
    pub enabled: bool,
    pub active_devices: usize,
}

impl Default for BluetoothState {
    fn default() -> (s: Self)
        ensures
            !s.enabled,
            s.active_devices == 0,
    {
        BluetoothState { enabled: false, active_devices: 0 }
    }
}

/// The subtitle of the Bluetooth toggle: the number of connected devices, or `Disabled`.
pub open spec fn bluetooth_subtitle_spec(enabled: bool, active_devices: usize) -> Seq<char> {
    if enabled { decimal(active_devices as nat) + " devices"@ } else { "Disabled"@ }
}

impl BluetoothState {
    /// The subtitle of the Bluetooth toggle.
    pub fn subtitle(&self) -> (s: String)
        ensures
            s@ == bluetooth_subtitle_spec(self.enabled, self.active_devices),
    {
        if self.enabled {
            let mut s = decimal_string(self.active_devices as u64);
            push_str(&mut s, " devices");
            s
        } else {
            "Disabled".to_owned()
        }
    }

    /// The state assumed after a toggle when it cannot be read back: power switched, the
    /// devices as before.
    pub fn toggled(&self) -> (s: Self)
        ensures
            s == (BluetoothState { enabled: !self.enabled, active_devices: self.active_devices }),
    {
        BluetoothState { enabled: !self.enabled, active_devices: self.active_devices }
    }
}

// ---------------------------------------------------------------------------
// Wi-Fi.
// ---------------------------------------------------------------------------

/// A Wi-Fi network as NetworkManager lists it.
#[derive(Debug, Clone)]
pub struct NetworkInfo {
    pub ssid: String,
    pub strength: Option<u8>,
    pub is_active: bool,
}

/// The Wi-Fi connection shown.
#[derive(Debug, Clone)]
pub struct WifiConnection {
    pub ssid: String,
    pub strength: Option<u8>,
}

/// What the Wi-Fi toggle shows.
#[derive(Debug, Clone)]
pub struct WifiState {
    pub enabled: bool,
    pub active_connection: Option<WifiConnection>,
    pub extra_active_connections: usize,
    pub wired_connected: bool,
}

impl Default for WifiState {
    fn default() -> (s: Self)
        ensures
            !s.enabled,
            s.active_connection is None,
            s.extra_active_connections == 0,
            !s.wired_connected,
    {
        WifiState { enabled: false, active_connection: None, extra_active_connections: 0, wired_connected: false }
    }
}

/// The strength by which networks are ranked: unknown counts as zero.
pub open spec fn rank(n: NetworkInfo) -> int {
    match n.strength {
        Some(s) => s as int,
        None => 0,
    }
}

/// The active networks, in the order listed.
pub open spec fn active_networks(ns: Seq<NetworkInfo>) -> Seq<NetworkInfo> {
    ns.filter(|n: NetworkInfo| n.is_active)
}

/// The network shown: the strongest active one, the first listed among equally strong.
pub open spec fn strongest(ns: Seq<NetworkInfo>) -> Option<NetworkInfo>
    decreases ns.len(),
{
    if ns.len() == 0 {
        None
    } else {
        match strongest(ns.drop_last()) {
            Some(b) => if rank(ns.last()) > rank(b) { Some(ns.last()) } else { Some(b) },
            None => Some(ns.last()),
        }
    }
}

/// The Wi-Fi state from the radio switch, the listed networks and whether a wired device
/// is connected: the strongest active network is shown, with the number of other active
/// networks.
pub open spec fn wifi_state_matches(s: WifiState, enabled: bool, ns: Seq<NetworkInfo>, wired: bool) -> bool {
    let act = active_networks(ns);
    &&& s.enabled == enabled
    &&& s.wired_connected == wired
    &&& s.extra_active_connections == if act.len() == 0 { 0 } else { act.len() - 1 }
    &&& match strongest(act) {
        None => s.active_connection is None,
        Some(b) => s.active_connection matches Some(c) && c.ssid@ == b.ssid@ && c.strength == b.strength,
    }
}

fn rank_of(n: &NetworkInfo) -> (r: u8)
    ensures
        r == rank(*n),
{
    match n.strength {
        Some(s) => s,
        None => 0,
    }
}

/// The Wi-Fi state read from NetworkManager's answers.
pub fn wifi_state(enabled: bool, networks: &Vec<NetworkInfo>, wired_connected: bool) -> (s: WifiState)
    ensures
        wifi_state_matches(s, enabled, networks@, wired_connected),
{
    let ghost f = |n: NetworkInfo| n.is_active;
    let mut best: Option<usize> = None;
    let mut count: usize = 0;
    let mut i: usize = 0;
    while i < networks.len()
        invariant
            i <= networks@.len(),
            f == (|n: NetworkInfo| n.is_active),
            count == networks@.take(i as int).filter(f).len(),
            count <= i,
            match best {
                None => strongest(networks@.take(i as int).filter(f)) is None,
                Some(b) => b < i && strongest(networks@.take(i as int).filter(f)) == Some(networks@[b as int]),
            },
        decreases networks@.len() - i,
    {
        proof {
            assert(networks@.take(i + 1) == networks@.take(i as int).push(networks@[i as int]));
            networks@.take(i as int).lemma_filter_push(networks@[i as int], f);
        }
        if networks[i].is_active {
            let ghost act = networks@.take(i + 1).filter(f);
            assert(act.drop_last() == networks@.take(i as int).filter(f));
            assert(act.last() == networks@[i as int]);
            best = match best {
                Some(b) => if rank_of(&networks[i]) > rank_of(&networks[b]) { Some(i) } else { Some(b) },
                None => Some(i),
            };
            count = count + 1;
        }
        i = i + 1;
    }
    assert(networks@.take(networks@.len() as int) == networks@);
    let active_connection = match best {
        Some(b) => Some(WifiConnection { ssid: networks[b].ssid.clone(), strength: networks[b].strength }),
        None => None,
    };
    WifiState {
        enabled,
        active_connection,
        extra_active_connections: if count == 0 { 0 } else { count - 1 },
        wired_connected,
    }
}

/// The strength of a connection as shown: `NN%`, or `-- %` when unknown.
pub open spec fn strength_text(s: Option<u8>) -> Seq<char> {
    match s {
        Some(v) => decimal(v as nat) + "%"@,
        None => "-- %"@,
    }
}

/// The subtitle of the Wi-Fi toggle: the network, its strength and the number of other
/// active networks; else whether a wired connection is up, or that Wi-Fi is off.
pub open spec fn wifi_subtitle_spec(s: WifiState) -> Seq<char> {
    match s.active_connection {
        Some(c) => if s.extra_active_connections > 0 {
            c.ssid@ + " · "@ + strength_text(c.strength) + " · +"@ + decimal(s.extra_active_connections as nat)
        } else {
            c.ssid@ + " · "@ + strength_text(c.strength)
        },
        None => if s.enabled && s.wired_connected {
            "Wired connected"@
        } else if s.enabled {
            "Not connected"@
        } else {
            "Disabled"@
        },
    }
}

impl WifiState {
    /// The subtitle of the Wi-Fi toggle.
    pub fn subtitle(&self) -> (r: String)
        ensures
            r@ == wifi_subtitle_spec(*self),
    {
        match &self.active_connection {
            Some(c) => {
                let mut r = c.ssid.clone();
                push_str(&mut r, " · ");
                match c.strength {
                    Some(v) => {
                        let d = decimal_string(v as u64);
                        push_str(&mut r, d.as_str());
                        push_str(&mut r, "%");
                    },
                    None => push_str(&mut r, "-- %"),
                }
                if self.extra_active_connections > 0 {
                    push_str(&mut r, " · +");
                    let d = decimal_string(self.extra_active_connections as u64);
                    push_str(&mut r, d.as_str());
                }
                r
            },
            None => if self.enabled && self.wired_connected {
                "Wired connected".to_owned()
            } else if self.enabled {
                "Not connected".to_owned()
            } else {
                "Disabled".to_owned()
            },
        }
    }

    /// The state assumed after a toggle when it cannot be read back: the radio as asked,
    /// nothing connected.
    pub fn assumed_after_toggle(enabled: bool) -> (s: Self)
        ensures
            s.enabled == enabled,
            s.active_connection is None,
            s.extra_active_connections == 0,
            !s.wired_connected,
    {
        WifiState { enabled, active_connection: None, extra_active_connections: 0, wired_connected: false }
    }
}

// ---------------------------------------------------------------------------
// The nightlight toggle of the system menu.
// ---------------------------------------------------------------------------

/// The context menus of the nightlight toggle.
#[derive(Debug, Clone, Copy, PartialEq, Eq, Structural)]
pub enum ContextMenu {
    Root,
    Suspend,
    Preset,
}

/// The suspend choices: label and duration in seconds.
pub open spec fn suspend_choices_spec() -> Seq<(Seq<char>, u64)> {
    seq![("15 minutes"@, 900u64), ("30 minutes"@, 1800u64), ("1 hour"@, 3600u64), ("2 hours"@, 7200u64)]
}

/// The suspend choices of the context menu.
pub fn suspend_choices() -> (v: Vec<(&'static str, u64)>)
    ensures
        v@.map_values(|p: (&'static str, u64)| (p.0@, p.1)) == suspend_choices_spec(),
{
    let v = vec![("15 minutes", 15 * 60), ("30 minutes", 30 * 60), ("1 hour", 60 * 60), ("2 hours", 2 * 60 * 60)];
    assert(v@.map_values(|p: (&'static str, u64)| (p.0@, p.1)) =~= suspend_choices_spec());
    v
}

/// What the nightlight toggle knows; the brightness is the bit pattern of an `f64`.
#[derive(Debug, Clone, Copy, PartialEq, Eq, Structural)]
pub struct NightlightToggle {
    pub enabled: bool,
    pub preset: NightlightPreset,
    pub temperature: u32,
    pub brightness_bits: u64,
}

impl NightlightToggle {
    /// Pressed: the toggle flips at once; the state before is handed back, to return to
    /// if the daemon refuses.
    pub fn toggle(&mut self) -> (previous: bool)
        ensures
            previous == old(self).enabled,
            *final(self) == (NightlightToggle { enabled: !old(self).enabled, ..*old(self) }),
    {
        let previous = self.enabled;
        self.enabled = !previous;
        previous
    }

    /// The subtitle for the day and night presets (their name); a custom setting shows its
    /// brightness and temperature instead.
    pub fn preset_subtitle(&self) -> (r: Option<&'static str>)
        ensures
            self.preset == NightlightPreset::Custom ==> r is None,
            self.preset != NightlightPreset::Custom ==> (r matches Some(s)
                && s@ == crate::nightlight::preset_name(self.preset)),
    {
        match self.preset {
            NightlightPreset::Custom => None,
            p => Some(p.as_str()),
        }
    }
}

/// What pressing a Bluetooth device in the popup does.
#[derive(Debug, Clone, Copy, PartialEq, Eq, Structural)]
pub enum DeviceClick {
    /// Connect to it.
    Connect,
    /// Disconnect it; its connected style is removed at once.
    Disconnect,
}

/// A device that is connected or connecting is disconnected; any other is connected.
pub fn device_click(connected: bool, connecting: bool) -> (c: DeviceClick)
    ensures
        c == if connected || connecting { DeviceClick::Disconnect } else { DeviceClick::Connect },
{
    if connected || connecting { DeviceClick::Disconnect } else { DeviceClick::Connect }
}

/// The icons of Bluetooth devices.
#[derive(Debug, Clone, Copy, PartialEq, Eq, Structural)]
pub enum DeviceIcon {
    Headphones,
    Headset,
    Bluetooth,
}

/// The icon of a device by the icon name BlueZ gives: headphones, a headset, or the
/// Bluetooth sign for anything else.
pub fn device_icon(icon_name: Option<&str>) -> (i: DeviceIcon)
    ensures
        i == match icon_name {
            Some(n) => if n@ == "audio-headphones"@ {
                DeviceIcon::Headphones
            } else if n@ == "audio-headset"@ {
                DeviceIcon::Headset
            } else {
                DeviceIcon::Bluetooth
            },
            None => DeviceIcon::Bluetooth,
        },
{
    match icon_name {
        Some(n) => if str_eq(n, "audio-headphones") {
            DeviceIcon::Headphones
        } else if str_eq(n, "audio-headset") {
            DeviceIcon::Headset
        } else {
            DeviceIcon::Bluetooth
        },
        None => DeviceIcon::Bluetooth,
    }
}

} // verus!
