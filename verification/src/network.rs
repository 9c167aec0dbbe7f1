use vstd::prelude::*;

use crate::text::{chars_of, decimal, decimal_string, push_str, str_eq, string_of};

verus! {

/// The state of an active connection.
#[derive(Debug, Clone, Copy, PartialEq, Eq, Structural)]
pub enum ConnectionState {
    Unknown,
    Activating,
    Activated,
    Deactivating,
    Deactivated,
}

/// An active connection as NetworkManager reports it, as far as the bar reads it.
#[derive(Debug, Clone)]
pub enum ActiveConnection {
    Wired {
        id: String,
        state: ConnectionState,
        ip4_address: Option<String>,
        ip6_address: Option<String>,
        speed_mbps: Option<u32>,
    },
    Wifi {
        ssid: String,
        state: ConnectionState,
        strength: Option<u8>,
        ip4_address: Option<String>,
        ip6_address: Option<String>,
    },
    Vpn { id: String, state: ConnectionState, ip4_address: Option<String>, ip6_address: Option<String> },
    Other {
        id: String,
        state: ConnectionState,
        ip4_address: Option<String>,
        ip6_address: Option<String>,
        connection_type: Option<String>,
    },
    /// A kind of connection that the bar does not tell apart.
    Unrecognized,
}

/// Whether the host reaches the internet, as NetworkManager checks it.
#[derive(Debug, Clone, Copy, PartialEq, Eq, Structural)]
pub enum ConnectivityState {
    Unknown,
    /// No network connectivity at all.
    Offline,
    Portal,
    Limited,
    Full,
}

/// The Wi-Fi device: whether there is one and whether its radio is on.
#[derive(Debug, Clone, Copy, PartialEq, Eq, Structural)]
pub struct WifiDevice {
    pub present: bool,
    pub hardware_enabled: bool,
    pub enabled: bool,
}

/// A Wi-Fi network in range.
#[derive(Debug, Clone)]
pub struct AccessPoint {
    pub ssid: String,
    pub strength: u8,
    pub is_active: bool,
}

/// What the network module shows.
#[derive(Debug, Clone)]
pub struct NetworkSnapshot {
    pub connectivity: ConnectivityState,
    pub wifi: WifiDevice,
    pub active_connections: Vec<ActiveConnection>,
    pub access_points: Vec<AccessPoint>,
}

/// The icons of the network module.
#[derive(Debug, Clone, Copy, PartialEq, Eq, Structural)]
pub enum NetworkIcon {
    Network,
    NetworkX,
    WifiLow,
    WifiMedium,
    WifiHigh,
    WifiX,
    WifiSlash,
    GlobeX,
}

// ---------------------------------------------------------------------------
// The primary connection.
// ---------------------------------------------------------------------------

/// A wired connection in the given state.
pub open spec fn is_wired_in(c: ActiveConnection, st: ConnectionState) -> bool {
    c matches ActiveConnection::Wired { state, .. } && state == st
}

/// A Wi-Fi connection in the given state.
pub open spec fn is_wifi_in(c: ActiveConnection, st: ConnectionState) -> bool {
    c matches ActiveConnection::Wifi { state, .. } && state == st
}

/// The strength by which Wi-Fi connections are compared: unknown counts as zero.
pub open spec fn wifi_rank(c: ActiveConnection) -> int {
    match c {
        ActiveConnection::Wifi { strength: Some(s), .. } => s as int,
        _ => 0,
    }
}

/// The first wired connection in the state.
pub open spec fn first_wired(s: Seq<ActiveConnection>, st: ConnectionState) -> Option<int>
    decreases s.len(),
{
    if s.len() == 0 {
        None
    } else {
        match first_wired(s.drop_last(), st) {
            Some(i) => Some(i),
            None => if is_wired_in(s.last(), st) { Some(s.len() - 1) } else { None },
        }
    }
}

/// The strongest Wi-Fi connection in the state; of equally strong ones the last.
pub open spec fn best_wifi(s: Seq<ActiveConnection>, st: ConnectionState) -> Option<int>
    decreases s.len(),
{
    if s.len() == 0 {
        None
    } else {
        let b = best_wifi(s.drop_last(), st);
        if is_wifi_in(s.last(), st) {
            match b {
                Some(j) => if wifi_rank(s[j]) <= wifi_rank(s.last()) { Some(s.len() - 1) } else { Some(j) },
                None => Some(s.len() - 1),
            }
        } else {
            b
        }
    }
}

/// The connection that stands for a state: the first wired one, else the strongest Wi-Fi.
pub open spec fn primary_spec(s: Seq<ActiveConnection>, st: ConnectionState) -> Option<int> {
    match first_wired(s, st) {
        Some(i) => Some(i),
        None => best_wifi(s, st),
    }
}

proof fn lemma_first_wired(s: Seq<ActiveConnection>, st: ConnectionState)
    ensures
        first_wired(s, st) matches Some(i) ==> 0 <= i < s.len() && is_wired_in(s[i], st)
            && forall|j: int| 0 <= j < i ==> !is_wired_in(#[trigger] s[j], st),
        first_wired(s, st) is None ==> forall|j: int| 0 <= j < s.len() ==> !is_wired_in(#[trigger] s[j], st),
    decreases s.len(),
{
    if s.len() > 0 {
        lemma_first_wired(s.drop_last(), st);
        assert forall|j: int| 0 <= j < s.len() - 1 implies s.drop_last()[j] == s[j] by {}
    }
}

proof fn lemma_best_wifi(s: Seq<ActiveConnection>, st: ConnectionState)
    ensures
        best_wifi(s, st) matches Some(i) ==> {
            &&& 0 <= i < s.len()
            &&& is_wifi_in(s[i], st)
            &&& forall|j: int| 0 <= j < s.len() && is_wifi_in(#[trigger] s[j], st) ==> wifi_rank(s[j]) <= wifi_rank(s[i])
            &&& forall|j: int| i < j < s.len() && is_wifi_in(#[trigger] s[j], st) ==> wifi_rank(s[j]) < wifi_rank(s[i])
        },
        best_wifi(s, st) is None ==> forall|j: int| 0 <= j < s.len() ==> !is_wifi_in(#[trigger] s[j], st),
    decreases s.len(),
{
    if s.len() > 0 {
        lemma_best_wifi(s.drop_last(), st);
        assert forall|j: int| 0 <= j < s.len() - 1 implies s.drop_last()[j] == s[j] by {}
    }
}

/// The connection that stands for a state, by position: the first wired connection in
/// that state, else the strongest Wi-Fi connection in it (unknown strength counting as
/// zero, the last of equally strong ones), else none.
pub fn primary_connection(conns: &Vec<ActiveConnection>, st: ConnectionState) -> (r: Option<usize>)
    ensures
        r matches Some(i) ==> primary_spec(conns@, st) == Some(i as int) && i < conns@.len(),
        r is None ==> primary_spec(conns@, st) is None,
        first_wired(conns@, st) matches Some(i) ==> r == Some(i as usize) && is_wired_in(conns@[i], st)
            && forall|j: int| 0 <= j < i ==> !is_wired_in(#[trigger] conns@[j], st),
        first_wired(conns@, st) is None ==> {
            &&& forall|j: int| 0 <= j < conns@.len() ==> !is_wired_in(#[trigger] conns@[j], st)
            &&& r matches Some(i) ==> {
                &&& is_wifi_in(conns@[i as int], st)
                &&& forall|j: int| 0 <= j < conns@.len() && is_wifi_in(#[trigger] conns@[j], st) ==> wifi_rank(conns@[j]) <= wifi_rank(conns@[i as int])
                &&& forall|j: int| i < j < conns@.len() && is_wifi_in(#[trigger] conns@[j], st) ==> wifi_rank(conns@[j]) < wifi_rank(conns@[i as int])
            }
            &&& r is None ==> forall|j: int| 0 <= j < conns@.len() ==> !is_wifi_in(#[trigger] conns@[j], st)
        },
{
    proof {
        lemma_first_wired(conns@, st);
        lemma_best_wifi(conns@, st);
    }
    let mut i: usize = 0;
    while i < conns.len()
        invariant
            i <= conns@.len(),
            forall|j: int| 0 <= j < i ==> !is_wired_in(#[trigger] conns@[j], st),
        decreases conns@.len() - i,
    {
        let hit = match &conns[i] {
            ActiveConnection::Wired { state, .. } => *state == st,
            _ => false,
        };
        if hit {
            proof {
                lemma_first_wired(conns@, st);
                assert(is_wired_in(conns@[i as int], st));
                match first_wired(conns@, st) {
                    Some(k) => {
                        if k < i {
                            assert(!is_wired_in(conns@[k], st));
                        } else if k > i {
                            assert(!is_wired_in(conns@[i as int], st));
                        }
                    },
                    None => {
                        assert(!is_wired_in(conns@[i as int], st));
                    },
                }
            }
            return Some(i);
        }
        i = i + 1;
    }
    let mut best: Option<usize> = None;
    let mut best_rank: u8 = 0;
    let mut k: usize = 0;
    while k < conns.len()
        invariant
            k <= conns@.len(),
            best matches Some(j) ==> j < k && best_rank as int == wifi_rank(conns@[j as int]),
            best_wifi(conns@.take(k as int), st) == match best { Some(j) => Some(j as int), None => None },
        decreases conns@.len() - k,
    {
        proof {
            let t = conns@.take(k + 1);
            assert(t.drop_last() =~= conns@.take(k as int));
            assert(t.last() == conns@[k as int]);
            if let Some(j) = best {
                assert(t[j as int] == conns@[j as int]);
            }
        }
        match &conns[k] {
            ActiveConnection::Wifi { state, strength, .. } => {
                if *state == st {
                    let rank: u8 = match strength {
                        Some(s) => *s,
                        None => 0,
                    };
                    match best {
                        Some(_) => {
                            if best_rank <= rank {
                                best = Some(k);
                                best_rank = rank;
                            }
                        },
                        None => {
                            best = Some(k);
                            best_rank = rank;
                        },
                    }
                }
            },
            _ => {},
        }
        k = k + 1;
    }
    assert(conns@.take(conns@.len() as int) =~= conns@);
    proof {
        lemma_first_wired(conns@, st);
        lemma_best_wifi(conns@, st);
    }
    best
}

/// The connection shown: the primary activated connection, else the primary activating one.
pub open spec fn active_connection_spec(snap: NetworkSnapshot) -> Option<int> {
    match primary_spec(snap.active_connections@, ConnectionState::Activated) {
        Some(i) => Some(i),
        None => primary_spec(snap.active_connections@, ConnectionState::Activating),
    }
}

impl NetworkSnapshot {
    /// The connection shown, by position: the primary activated connection, else the
    /// primary activating one.
    pub fn active_connection(&self) -> (r: Option<usize>)
        ensures
            r matches Some(i) ==> active_connection_spec(*self) == Some(i as int) && i < self.active_connections@.len(),
            r is None ==> active_connection_spec(*self) is None,
    {
        match primary_connection(&self.active_connections, ConnectionState::Activated) {
            Some(i) => Some(i),
            None => primary_connection(&self.active_connections, ConnectionState::Activating),
        }
    }

    /// Whether Wi-Fi can be used: the device is there and both switches are on.
    pub fn wifi_enabled(&self) -> (r: bool)
        ensures
            r == (self.wifi.present && self.wifi.hardware_enabled && self.wifi.enabled),
    {
        self.wifi.present && self.wifi.hardware_enabled && self.wifi.enabled
    }

    /// The name shown on the module: the shown connection's name, or `No connection`.
    pub fn active_name(&self) -> (r: String)
        ensures
            r@ == match active_connection_spec(*self) {
                Some(i) => network_name_spec(self.active_connections@[i]),
                None => "No connection"@,
            },
    {
        match self.active_connection() {
            Some(i) => network_name(&self.active_connections[i]).to_owned(),
            None => "No connection".to_owned(),
        }
    }

    /// The title of the connection card: `Ethernet` when the primary activated connection
    /// is wired, else the name shown on the module.
    pub fn active_text(&self) -> (r: String)
        ensures
            r@ == match primary_spec(self.active_connections@, ConnectionState::Activated) {
                Some(i) if self.active_connections@[i] is Wired => "Ethernet"@,
                _ => match active_connection_spec(*self) {
                    Some(i) => network_name_spec(self.active_connections@[i]),
                    None => "No connection"@,
                },
            },
    {
        match primary_connection(&self.active_connections, ConnectionState::Activated) {
            Some(i) => match &self.active_connections[i] {
                ActiveConnection::Wired { .. } => "Ethernet".to_owned(),
                _ => self.active_name(),
            },
            None => self.active_name(),
        }
    }

    /// The line under the connection card's title: the primary activated connection's
    /// address (without its trailing `/` and digits) and link speed, as
    /// `ADDRESS - SPEED Mbps`; `None - 0 Mbps` without such a connection.
    pub fn active_subtext(&self) -> (r: String)
        ensures
            r@ == match primary_spec(self.active_connections@, ConnectionState::Activated) {
                Some(i) => subtext_spec(self.active_connections@[i]),
                None => "None - 0 Mbps"@,
            },
    {
        match primary_connection(&self.active_connections, ConnectionState::Activated) {
            Some(i) => connection_subtext(&self.active_connections[i]),
            None => "None - 0 Mbps".to_owned(),
        }
    }

    /// The icon of the module and whether it is shown muted: for an activated connection,
    /// its transport's icon while the internet is reached fully, a crossed globe behind a
    /// portal, its crossed icon with limited or no connectivity, its icon muted when
    /// unknown; a connecting transport's icon muted; else, muted, crossed Wi-Fi when the
    /// radio is on, Wi-Fi slashed when it is off, or a crossed network without Wi-Fi.
    pub fn connectivity_icon(&self) -> (r: (NetworkIcon, bool))
        ensures
            r == connectivity_icon_spec(*self),
    {
        let active = primary_connection(&self.active_connections, ConnectionState::Activated);
        let connecting = primary_connection(&self.active_connections, ConnectionState::Activating);
        match active {
            Some(i) => {
                let t = Transport::from_connection(&self.active_connections[i]);
                match self.connectivity {
                    ConnectivityState::Full => (t.icon(), false),
                    ConnectivityState::Portal => (NetworkIcon::GlobeX, false),
                    ConnectivityState::Limited | ConnectivityState::Offline => (t.x_icon(), false),
                    ConnectivityState::Unknown => (t.icon(), true),
                }
            },
            None => match connecting {
                Some(i) => (Transport::from_connection(&self.active_connections[i]).icon(), true),
                None => if self.wifi.present {
                    if self.wifi.hardware_enabled && self.wifi.enabled {
                        (NetworkIcon::WifiX, true)
                    } else {
                        (NetworkIcon::WifiSlash, true)
                    }
                } else {
                    (NetworkIcon::NetworkX, true)
                },
            },
        }
    }
}

/// The module's icon and whether it is muted.
pub open spec fn connectivity_icon_spec(snap: NetworkSnapshot) -> (NetworkIcon, bool) {
    let cs = snap.active_connections@;
    match primary_spec(cs, ConnectionState::Activated) {
        Some(i) => {
            let t = Transport::of(cs[i]);
            match snap.connectivity {
                ConnectivityState::Full => (t.icon_spec(), false),
                ConnectivityState::Portal => (NetworkIcon::GlobeX, false),
                ConnectivityState::Limited | ConnectivityState::Offline => (t.x_icon_spec(), false),
                ConnectivityState::Unknown => (t.icon_spec(), true),
            }
        },
        None => match primary_spec(cs, ConnectionState::Activating) {
            Some(i) => (Transport::of(cs[i]).icon_spec(), true),
            None => if snap.wifi.present {
                if snap.wifi.hardware_enabled && snap.wifi.enabled {
                    (NetworkIcon::WifiX, true)
                } else {
                    (NetworkIcon::WifiSlash, true)
                }
            } else {
                (NetworkIcon::NetworkX, true)
            },
        },
    }
}

/// An icon that shows the network as not, or not fully, reached.
pub open spec fn is_crossed(i: NetworkIcon) -> bool {
    i is NetworkX || i is WifiX || i is GlobeX || i is WifiSlash
}

/// An icon of the Wi-Fi family.
pub open spec fn is_wifi_icon(i: NetworkIcon) -> bool {
    i is WifiLow || i is WifiMedium || i is WifiHigh || i is WifiX || i is WifiSlash
}

/// With an activated connection, the icon is crossed exactly when the internet is not
/// reached (no connectivity, limited connectivity or a captive portal) and muted exactly
/// when the connectivity is unknown; with no or limited connectivity it is the crossed
/// icon of the connection's kind (crossed Wi-Fi for Wi-Fi, a crossed network otherwise),
/// behind a portal a crossed globe, and with full or unknown connectivity an uncrossed
/// icon of the connection's kind.
pub proof fn lemma_activated_icon_follows_connectivity(snap: NetworkSnapshot)
    requires
        primary_spec(snap.active_connections@, ConnectionState::Activated) is Some,
    ensures
        is_crossed(connectivity_icon_spec(snap).0) <==> (snap.connectivity is Offline
            || snap.connectivity is Limited || snap.connectivity is Portal),
        connectivity_icon_spec(snap).1 <==> snap.connectivity is Unknown,
        (snap.connectivity is Offline || snap.connectivity is Limited) ==> connectivity_icon_spec(snap).0 == (
            if snap.active_connections@[primary_spec(snap.active_connections@, ConnectionState::Activated)->0] is Wifi {
                NetworkIcon::WifiX
            } else {
                NetworkIcon::NetworkX
            }),
        snap.connectivity is Portal ==> connectivity_icon_spec(snap).0 == NetworkIcon::GlobeX,
        (snap.connectivity is Full || snap.connectivity is Unknown) ==> (is_wifi_icon(connectivity_icon_spec(snap).0)
            <==> snap.active_connections@[primary_spec(snap.active_connections@, ConnectionState::Activated)->0] is Wifi),
{
}

/// The icon is muted exactly when no connection is activated or the connectivity is
/// unknown. With no connection activated: a connecting connection shows the uncrossed
/// icon of its kind; with none connecting the icon is crossed, a crossed network when
/// there is no Wi-Fi device, else crossed Wi-Fi when its radio is on and slashed Wi-Fi
/// when it is off.
pub proof fn lemma_icon_without_activated_connection(snap: NetworkSnapshot)
    ensures
        connectivity_icon_spec(snap).1 <==> (primary_spec(snap.active_connections@, ConnectionState::Activated) is None
            || snap.connectivity is Unknown),
        primary_spec(snap.active_connections@, ConnectionState::Activated) is None
            && primary_spec(snap.active_connections@, ConnectionState::Activating) is Some ==> {
            &&& !is_crossed(connectivity_icon_spec(snap).0)
            &&& is_wifi_icon(connectivity_icon_spec(snap).0) <==> snap.active_connections@[primary_spec(
                snap.active_connections@, ConnectionState::Activating)->0] is Wifi
        },
        primary_spec(snap.active_connections@, ConnectionState::Activated) is None
            && primary_spec(snap.active_connections@, ConnectionState::Activating) is None ==> {
            &&& is_crossed(connectivity_icon_spec(snap).0)
            &&& !snap.wifi.present ==> connectivity_icon_spec(snap).0 == NetworkIcon::NetworkX
            &&& snap.wifi.present && snap.wifi.hardware_enabled && snap.wifi.enabled ==> connectivity_icon_spec(snap).0 == NetworkIcon::WifiX
            &&& snap.wifi.present && !(snap.wifi.hardware_enabled && snap.wifi.enabled) ==> connectivity_icon_spec(snap).0 == NetworkIcon::WifiSlash
        },
{
}

// ---------------------------------------------------------------------------
// Names, transports and icons.
// ---------------------------------------------------------------------------

/// The name of a connection: its id, or the network's SSID for Wi-Fi.
pub open spec fn network_name_spec(c: ActiveConnection) -> Seq<char> {
    match c {
        ActiveConnection::Wired { id, .. } => id@,
        ActiveConnection::Wifi { ssid, .. } => ssid@,
        ActiveConnection::Vpn { id, .. } => id@,
        ActiveConnection::Other { id, .. } => id@,
        ActiveConnection::Unrecognized => "Unknown"@,
    }
}

/// The name of a connection.
pub fn network_name(c: &ActiveConnection) -> (r: &str)
    ensures
        r@ == network_name_spec(*c),
{
    match c {
        ActiveConnection::Wired { id, .. } => id.as_str(),
        ActiveConnection::Wifi { ssid, .. } => ssid.as_str(),
        ActiveConnection::Vpn { id, .. } => id.as_str(),
        ActiveConnection::Other { id, .. } => id.as_str(),
        ActiveConnection::Unrecognized => "Unknown",
    }
}

/// How a connection reaches the network, for its icon.
#[derive(Debug, Clone, Copy, PartialEq, Eq, Structural)]
pub enum Transport {
    Wired,
    Wifi(Option<u8>),
}

/// The icon for a Wi-Fi signal strength: low below 40, medium below 70, else high.
pub open spec fn signal_icon(strength: u8) -> NetworkIcon {
    if strength <= 39 {
        NetworkIcon::WifiLow
    } else if strength <= 69 {
        NetworkIcon::WifiMedium
    } else {
        NetworkIcon::WifiHigh
    }
}

impl Transport {
    /// The transport of a connection: Wi-Fi with its strength, wired for all others.
    pub open spec fn of(c: ActiveConnection) -> Transport {
        match c {
            ActiveConnection::Wifi { strength, .. } => Transport::Wifi(strength),
            _ => Transport::Wired,
        }
    }

    /// The transport of a connection.
    pub fn from_connection(c: &ActiveConnection) -> (t: Transport)
        ensures
            t == Transport::of(*c),
    {
        match c {
            ActiveConnection::Wifi { strength, .. } => Transport::Wifi(*strength),
            _ => Transport::Wired,
        }
    }

    /// The transport's icon: a network; for Wi-Fi its signal, medium when unknown.
    pub open spec fn icon_spec(self) -> NetworkIcon {
        match self {
            Transport::Wired => NetworkIcon::Network,
            Transport::Wifi(None) => NetworkIcon::WifiMedium,
            Transport::Wifi(Some(s)) => signal_icon(s),
        }
    }

    /// The transport's icon.
    pub fn icon(self) -> (i: NetworkIcon)
        ensures
            i == self.icon_spec(),
    {
        match self {
            Transport::Wired => NetworkIcon::Network,
            Transport::Wifi(None) => NetworkIcon::WifiMedium,
            Transport::Wifi(Some(s)) => wifi_icon_for_signal_strength(s),
        }
    }

    /// The transport's crossed icon.
    pub open spec fn x_icon_spec(self) -> NetworkIcon {
        match self {
            Transport::Wired => NetworkIcon::NetworkX,
            Transport::Wifi(_) => NetworkIcon::WifiX,
        }
    }

    /// The transport's crossed icon.
    pub fn x_icon(self) -> (i: NetworkIcon)
        ensures
            i == self.x_icon_spec(),
    {
        match self {
            Transport::Wired => NetworkIcon::NetworkX,
            Transport::Wifi(_) => NetworkIcon::WifiX,
        }
    }
}

/// The icon for a Wi-Fi signal strength.
pub fn wifi_icon_for_signal_strength(strength: u8) -> (i: NetworkIcon)
    ensures
        i == signal_icon(strength),
{
    if strength <= 39 {
        NetworkIcon::WifiLow
    } else if strength <= 69 {
        NetworkIcon::WifiMedium
    } else {
        NetworkIcon::WifiHigh
    }
}

// ---------------------------------------------------------------------------
// The connection card's subtext.
// ---------------------------------------------------------------------------

/// What std's `char::is_numeric` gives for a character.
pub uninterp spec fn unicode_numeric(c: char) -> bool;

/// std's `char::is_numeric`: whether the character's Unicode general category is a
/// number (Nd, Nl or No). The tables are std's and only named here; the ASCII digits are
/// numeric.
#[verifier::external_body]
fn is_numeric(c: char) -> (r: bool)
    ensures
        r == unicode_numeric(c),
        '0' <= c <= '9' ==> r,
{
    c.is_numeric()
}

/// Whether an address ends with a character that is trimmed off: `/` or a number.
pub open spec fn trimmed_char(c: char) -> bool {
    c == '/' || unicode_numeric(c)
}

/// An address without the `/` and numeric characters at its end.
pub open spec fn trim_address(s: Seq<char>) -> Seq<char>
    decreases s.len(),
{
    if s.len() > 0 && trimmed_char(s.last()) {
        trim_address(s.drop_last())
    } else {
        s
    }
}

fn trim_address_exec(s: &str) -> (r: String)
    ensures
        r@ == trim_address(s@),
{
    let v = chars_of(s);
    let mut n: usize = v.len();
    let mut done = false;
    assert(v@.take(v@.len() as int) =~= v@);
    while n > 0 && !done
        invariant
            n <= v@.len(),
            trim_address(v@.take(n as int)) == trim_address(v@),
            done ==> n > 0 && !trimmed_char(v@[n - 1]),
        decreases n as int + if done { 0int } else { 1int },
    {
        let c = v[n - 1];
        let cut = c == '/' || is_numeric(c);
        proof {
            let t = v@.take(n as int);
            assert(t.drop_last() =~= v@.take(n - 1));
            assert(t.last() == c);
        }
        if cut {
            n = n - 1;
        } else {
            done = true;
        }
    }
    proof {
        let t = v@.take(n as int);
        if n > 0 {
            assert(t.last() == v@[n - 1]);
        }
        assert(trim_address(t) == t);
    }
    let mut w: Vec<char> = Vec::new();
    let mut k: usize = 0;
    while k < n
        invariant
            k <= n <= v@.len(),
            w@ == v@.take(k as int),
        decreases n - k,
    {
        w.push(v[k]);
        assert(v@.take(k + 1) =~= v@.take(k as int).push(v@[k as int]));
        k = k + 1;
    }
    string_of(w.as_slice())
}

/// The address of a connection: its IPv4 address, else its IPv6 address.
pub open spec fn address_of(c: ActiveConnection) -> Option<Seq<char>> {
    let pick = |a: Option<String>, b: Option<String>| match a {
        Some(x) => Some(x@),
        None => match b {
            Some(y) => Some(y@),
            None => None,
        },
    };
    match c {
        ActiveConnection::Wired { ip4_address, ip6_address, .. } => pick(ip4_address, ip6_address),
        ActiveConnection::Wifi { ip4_address, ip6_address, .. } => pick(ip4_address, ip6_address),
        ActiveConnection::Vpn { ip4_address, ip6_address, .. } => pick(ip4_address, ip6_address),
        ActiveConnection::Other { ip4_address, ip6_address, .. } => pick(ip4_address, ip6_address),
        ActiveConnection::Unrecognized => None,
    }
}

/// The link speed shown for a connection: a wired link's speed (`Unknown` when not
/// known), else the kind of connection.
pub open spec fn link_speed_spec(c: ActiveConnection) -> Seq<char> {
    match c {
        ActiveConnection::Wired { speed_mbps, .. } => match speed_mbps {
            Some(s) => decimal(s as nat),
            None => "Unknown"@,
        },
        ActiveConnection::Wifi { .. } => "Wifi"@,
        ActiveConnection::Vpn { .. } => "Vpn"@,
        ActiveConnection::Other { connection_type, .. } => match connection_type {
            Some(t) => t@,
            None => "Other"@,
        },
        ActiveConnection::Unrecognized => "Unknown"@,
    }
}

/// The subtext for a connection: `ADDRESS - SPEED Mbps`.
pub open spec fn subtext_spec(c: ActiveConnection) -> Seq<char> {
    let addr = match address_of(c) {
        Some(a) => trim_address(a),
        None => "Unknown IP"@,
    };
    addr + " - "@ + link_speed_spec(c) + " Mbps"@
}

fn address_text(ip4: &Option<String>, ip6: &Option<String>) -> (r: String)
    ensures
        r@ == match ip4 {
            Some(a) => trim_address(a@),
            None => match ip6 {
                Some(b) => trim_address(b@),
                None => "Unknown IP"@,
            },
        },
{
    match ip4 {
        Some(a) => trim_address_exec(a.as_str()),
        None => match ip6 {
            Some(b) => trim_address_exec(b.as_str()),
            None => "Unknown IP".to_owned(),
        },
    }
}

fn connection_subtext(c: &ActiveConnection) -> (r: String)
    ensures
        r@ == subtext_spec(*c),
{
    let (mut out, speed): (String, String) = match c {
        ActiveConnection::Wired { ip4_address, ip6_address, speed_mbps, .. } => (
            address_text(ip4_address, ip6_address),
            match speed_mbps {
                Some(s) => decimal_string(*s as u64),
                None => "Unknown".to_owned(),
            },
        ),
        ActiveConnection::Wifi { ip4_address, ip6_address, .. } => (address_text(ip4_address, ip6_address), "Wifi".to_owned()),
        ActiveConnection::Vpn { ip4_address, ip6_address, .. } => (address_text(ip4_address, ip6_address), "Vpn".to_owned()),
        ActiveConnection::Other { ip4_address, ip6_address, connection_type, .. } => (
            address_text(ip4_address, ip6_address),
            match connection_type {
                Some(t) => t.clone(),
                None => "Other".to_owned(),
            },
        ),
        ActiveConnection::Unrecognized => ("Unknown IP".to_owned(), "Unknown".to_owned()),
    };
    push_str(&mut out, " - ");
    push_str(&mut out, speed.as_str());
    push_str(&mut out, " Mbps");
    out
}

// ---------------------------------------------------------------------------
// The list of access points.
// ---------------------------------------------------------------------------

/// The sort key of an access point: inactive ones first, then the strongest first.
pub open spec fn ap_key(a: AccessPoint) -> int {
    (if a.is_active { 256int } else { 0int }) + (255 - a.strength)
}

/// The access points whose key is below `n`, ordered by key; those of equal key keep
/// their order (a stable sort by key).
pub open spec fn sorted_upto(s: Seq<AccessPoint>, n: nat) -> Seq<AccessPoint>
    decreases n,
{
    if n == 0 {
        Seq::empty()
    } else {
        sorted_upto(s, (n - 1) as nat) + s.filter(|a: AccessPoint| ap_key(a) == n - 1)
    }
}

/// The access points stably sorted by key.
pub open spec fn sorted_aps(s: Seq<AccessPoint>) -> Seq<AccessPoint> {
    sorted_upto(s, 512)
}

/// Whether a list holds an access point with the SSID.
pub open spec fn has_ssid(s: Seq<AccessPoint>, ssid: Seq<char>) -> bool {
    exists|k: int| 0 <= k < s.len() && (#[trigger] s[k]).ssid@ == ssid
}

/// The access points with each SSID's first one kept and the later ones dropped.
pub open spec fn dedup_ssid(s: Seq<AccessPoint>) -> Seq<AccessPoint>
    decreases s.len(),
{
    if s.len() == 0 {
        Seq::empty()
    } else {
        let r = dedup_ssid(s.drop_last());
        if has_ssid(r, s.last().ssid@) { r } else { r.push(s.last()) }
    }
}

/// The access points as listed: stably sorted by key, then each SSID once.
pub open spec fn arranged_aps(s: Seq<AccessPoint>) -> Seq<AccessPoint> {
    dedup_ssid(sorted_aps(s))
}

fn copy_ap(a: &AccessPoint) -> (r: AccessPoint)
    ensures
        r == *a,
{
    AccessPoint { ssid: a.ssid.clone(), strength: a.strength, is_active: a.is_active }
}

fn ap_key_exec(a: &AccessPoint) -> (k: u16)
    ensures
        k as int == ap_key(*a),
{
    (if a.is_active { 256u16 } else { 0u16 }) + (255 - a.strength as u16)
}

fn append_key(out: &mut Vec<AccessPoint>, aps: &Vec<AccessPoint>, key: u16)
    ensures
        final(out)@ == old(out)@ + aps@.filter(|a: AccessPoint| ap_key(a) == key as int),
{
    let ghost f = |a: AccessPoint| ap_key(a) == key as int;
    let ghost start = out@;
    let mut i: usize = 0;
    while i < aps.len()
        invariant
            i <= aps@.len(),
            f == (|a: AccessPoint| ap_key(a) == key as int),
            out@ == start + aps@.take(i as int).filter(f),
        decreases aps@.len() - i,
    {
        proof {
            assert(aps@.take(i + 1) == aps@.take(i as int).push(aps@[i as int]));
            aps@.take(i as int).lemma_filter_push(aps@[i as int], f);
        }
        if ap_key_exec(&aps[i]) == key {
            out.push(copy_ap(&aps[i]));
        }
        i = i + 1;
    }
    assert(aps@.take(aps@.len() as int) == aps@);
}

fn holds_ssid(v: &Vec<AccessPoint>, ssid: &str) -> (r: bool)
    ensures
        r == has_ssid(v@, ssid@),
{
    let mut i: usize = 0;
    while i < v.len()
        invariant
            i <= v@.len(),
            forall|k: int| 0 <= k < i ==> (#[trigger] v@[k]).ssid@ != ssid@,
        decreases v@.len() - i,
    {
        if str_eq(v[i].ssid.as_str(), ssid) {
            assert(v@[i as int].ssid@ == ssid@);
            return true;
        }
        i = i + 1;
    }
    false
}

proof fn lemma_dedup_distinct(s: Seq<AccessPoint>)
    ensures
        forall|a: int, b: int| 0 <= a < b < dedup_ssid(s).len() ==> (#[trigger] dedup_ssid(s)[a]).ssid@ != (#[trigger] dedup_ssid(s)[b]).ssid@,
    decreases s.len(),
{
    if s.len() > 0 {
        lemma_dedup_distinct(s.drop_last());
        let r = dedup_ssid(s.drop_last());
        if !has_ssid(r, s.last().ssid@) {
            let t = r.push(s.last());
            assert forall|a: int, b: int| 0 <= a < b < t.len() implies (#[trigger] t[a]).ssid@ != (#[trigger] t[b]).ssid@ by {
                if b == t.len() - 1 {
                    assert(t[a] == r[a]);
                    if t[a].ssid@ == t[b].ssid@ {
                        assert(has_ssid(r, s.last().ssid@));
                    }
                } else {
                    assert(t[a] == r[a] && t[b] == r[b]);
                }
            }
        }
    }
}

/// The access points as the popup lists them: sorted with the inactive ones first and,
/// within each, the strongest first (a stable sort, so equal ones keep their order), then
/// each SSID only at its first place. No SSID occurs twice in the result.
pub fn arrange_access_points(aps: &Vec<AccessPoint>) -> (r: Vec<AccessPoint>)
    ensures
        r@ == arranged_aps(aps@),
        forall|a: int, b: int| 0 <= a < b < r@.len() ==> (#[trigger] r@[a]).ssid@ != (#[trigger] r@[b]).ssid@,
{
    let mut sorted: Vec<AccessPoint> = Vec::new();
    let mut key: u16 = 0;
    while key < 512
        invariant
            key <= 512,
            sorted@ == sorted_upto(aps@, key as nat),
        decreases 512 - key,
    {
        append_key(&mut sorted, aps, key);
        key = key + 1;
    }
    let mut out: Vec<AccessPoint> = Vec::new();
    let mut i: usize = 0;
    while i < sorted.len()
        invariant
            i <= sorted@.len(),
            out@ == dedup_ssid(sorted@.take(i as int)),
        decreases sorted@.len() - i,
    {
        let seen = holds_ssid(&out, sorted[i].ssid.as_str());
        proof {
            let t = sorted@.take(i + 1);
            assert(t.drop_last() =~= sorted@.take(i as int));
            assert(t.last() == sorted@[i as int]);
        }
        if !seen {
            out.push(copy_ap(&sorted[i]));
        }
        i = i + 1;
    }
    assert(sorted@.take(sorted@.len() as int) =~= sorted@);
    proof {
        lemma_dedup_distinct(sorted@);
    }
    out
}

} // verus!
