use vstd::prelude::*;

use crate::text::{digit_char, push_str, str_eq};

verus! {

/// A wall-clock time of day, as the configuration file stores dawn and dusk.
#[derive(Clone, Copy, Debug, PartialEq, Eq, Structural)]
pub struct CivilTime {
    pub hour: i8,
    pub minute: i8,
    pub second: i8,
    pub subsec_nanosecond: i32,
}

impl CivilTime {
    /// Every component lies in its range.
    pub open spec fn wf(self) -> bool {
        &&& 0 <= self.hour <= 23
        &&& 0 <= self.minute <= 59
        &&& 0 <= self.second <= 59
        &&& 0 <= self.subsec_nanosecond <= 999_999_999
    }

    /// A time of day from its components; `None` when a component is out of range.
    pub fn new(hour: i8, minute: i8, second: i8, subsec_nanosecond: i32) -> (t: Option<CivilTime>)
        ensures
            t is Some <==> (0 <= hour <= 23 && 0 <= minute <= 59 && 0 <= second <= 59
                && 0 <= subsec_nanosecond <= 999_999_999),
            t matches Some(t) ==> t.wf() && t.hour == hour && t.minute == minute
                && t.second == second && t.subsec_nanosecond == subsec_nanosecond,
    {
        if 0 <= hour && hour <= 23 && 0 <= minute && minute <= 59 && 0 <= second && second <= 59
            && 0 <= subsec_nanosecond && subsec_nanosecond <= 999_999_999 {
            Some(CivilTime { hour, minute, second, subsec_nanosecond })
        } else {
            None
        }
    }

    /// Seconds elapsed since midnight, ignoring the fraction of a second.
    pub open spec fn seconds_since_midnight_spec(self) -> int {
        self.hour * 3600 + self.minute * 60 + self.second
    }
}

/// Two-digit, zero-padded notation of a value below one hundred.
pub open spec fn two_digits(n: int) -> Seq<char> {
    seq![digit_char((n / 10) as nat), digit_char((n % 10) as nat)]
}

/// The `HH:MM` notation of a time of day.
pub open spec fn hour_minute_text(t: CivilTime) -> Seq<char> {
    two_digits(t.hour as int) + seq![':'] + two_digits(t.minute as int)
}

/// jiff's `civil::Time::strftime` with the format `%H:%M`. jiff documents `%H` as the
/// zero-padded hour of a 24-hour clock and `%M` as the zero-padded minute, so the result
/// is the two digits of the hour, a colon and the two digits of the minute.
#[verifier::external_body]
pub(crate) fn format_hour_minute(t: &CivilTime) -> (s: String)
    requires
        t.wf(),
    ensures
        s@ == hour_minute_text(*t),
{
    match jiff::civil::Time::new(t.hour, t.minute, t.second, t.subsec_nanosecond) {
        Ok(time) => time.strftime("%H:%M").to_string(),
        Err(_) => String::new(),
    }
}

/// Two optional times are the same when both are absent or all their components agree.
pub open spec fn same_time(a: Option<CivilTime>, b: Option<CivilTime>) -> bool {
    match (a, b) {
        (None, None) => true,
        (Some(x), Some(y)) => x.hour == y.hour && x.minute == y.minute && x.second == y.second
            && x.subsec_nanosecond == y.subsec_nanosecond,
        _ => false,
    }
}

pub(crate) fn time_eq(a: &Option<CivilTime>, b: &Option<CivilTime>) -> (r: bool)
    ensures
        r == same_time(*a, *b),
{
    match (a, b) {
        (None, None) => true,
        (Some(x), Some(y)) => x.hour == y.hour && x.minute == y.minute && x.second == y.second
            && x.subsec_nanosecond == y.subsec_nanosecond,
        _ => false,
    }
}

/// Color temperature and brightness of one nightlight preset.
#[derive(Clone, Debug)]
pub struct NightlightSetting {
    /// Temperature of the light in Kelvin.
    pub temperature: u32,
    /// Brightness of the light, written out as a decimal number the way Rust prints it.
    pub brightness: String,
}

/// Nightlight behavior: whether it runs, when day and night begin and their settings.
#[derive(Clone, Debug)]
pub struct Nightlight {
    pub enabled: bool,
    pub use_location: bool,
    pub dawn: Option<CivilTime>,
    pub dusk: Option<CivilTime>,
    pub day: NightlightSetting,
    pub night: NightlightSetting,
    pub debounce_ms: u64,
}

/// Homeassistant integration settings; the url is kept in its serialized form.
#[derive(Clone, Debug)]
pub struct Homeassistant {
    pub enabled: bool,
    pub url: Option<String>,
    pub tracked_devices: Vec<String>,
}

/// Spotify integration settings.
#[derive(Clone, Debug)]
pub struct Spotify {
    pub enabled: bool,
    pub client_id: String,
}

/// Widgets that the system menu can show.
#[derive(Debug, PartialEq, Eq, Clone, Copy, Structural)]
pub enum SystemMenuWidgets {
    Wifi,
    Bluetooth,
    Speaker,
    Microphone,
    Vpn,
    Nightlight,
}

/// The system menu's widgets, in display order.
#[derive(Clone, Debug)]
pub struct SystemMenu {
    pub widgets: Vec<SystemMenuWidgets>,
}

/// Sources of launcher results.
#[derive(Debug, Clone, Copy, PartialEq, Eq, Structural)]
pub enum LauncherProvider {
    Calculator,
    Applications,
    Files,
    Nix,
}

impl LauncherProvider {
    /// The providers that the launcher enables by default.
    pub fn all() -> (v: Vec<LauncherProvider>)
        ensures
            v@ == seq![LauncherProvider::Calculator, LauncherProvider::Applications,
                LauncherProvider::Files],
    {
        let mut v = Vec::new();
        v.push(LauncherProvider::Calculator);
        v.push(LauncherProvider::Applications);
        v.push(LauncherProvider::Files);
        v
    }
}

/// Launcher settings.
#[derive(Clone, Debug)]
pub struct Launcher {
    pub providers: Vec<LauncherProvider>,
    pub fuzzy_search: LauncherTypoSearch,
}

/// Limits of the typo-tolerant launcher search.
#[derive(Clone, Debug)]
pub struct LauncherTypoSearch {
    pub min_chars: u32,
    pub short_query_chars: u32,
    pub short_max_distance: u32,
    pub medium_query_chars: u32,
    pub medium_max_distance: u32,
    pub long_max_distance: u32,
}

/// File indexing settings.
#[derive(Clone, Debug)]
pub struct Indexing {
    pub enabled: bool,
}

/// The whole configuration file.
#[derive(Clone, Debug)]
pub struct ConfigFile {
    pub nightlight: Nightlight,
    pub homeassistant: Homeassistant,
    pub spotify: Spotify,
    pub system_menu: SystemMenu,
    pub launcher: Launcher,
    pub indexing: Indexing,
}


/// Whether a number's text is zero: Rust prints zero as `0`, and negative zero as `-0`.
pub open spec fn zero_text(s: Seq<char>) -> bool {
    s == "0"@ || s == "-0"@
}

/// Whether two texts, each the way Rust prints a floating-point number, stand for the same
/// number. Rust prints each number in one way (its shortest exact digits), except that
/// zero and negative zero are the same number printed two ways; NaN (printed `NaN`)
/// equals no number, itself included.
pub open spec fn float_text_eq(a: Seq<char>, b: Seq<char>) -> bool {
    (a == b && a != "NaN"@) || (zero_text(a) && zero_text(b))
}

/// Whether two texts printed by Rust for floating-point numbers stand for the same number.
pub fn same_float_text(a: &str, b: &str) -> (r: bool)
    ensures
        r == float_text_eq(a@, b@),
{
    proof {
        reveal_strlit("0");
        reveal_strlit("-0");
        reveal_strlit("NaN");
    }
    let a_zero = str_eq(a, "0") || str_eq(a, "-0");
    let b_zero = str_eq(b, "0") || str_eq(b, "-0");
    (str_eq(a, b) && !str_eq(a, "NaN")) || (a_zero && b_zero)
}

/// Two nightlight presets agree: the same temperature and brightnesses that are the same
/// number.
pub open spec fn presets_agree(a: NightlightSetting, b: NightlightSetting) -> bool {
    a.temperature == b.temperature && float_text_eq(a.brightness@, b.brightness@)
}

impl NightlightSetting {
    /// Whether two presets agree: the same temperature, and brightnesses that are the
    /// same number.
    pub fn same_preset(&self, other: &NightlightSetting) -> (r: bool)
        ensures
            r == presets_agree(*self, *other),
    {
        self.temperature == other.temperature && same_float_text(self.brightness.as_str(), other.brightness.as_str())
    }

    /// The daytime preset: 6500 K at full brightness.
    pub fn day() -> (s: NightlightSetting)
        ensures
            s.temperature == 6500,
            s.brightness@ == "1"@,
    {
        NightlightSetting { temperature: 6500, brightness: "1".to_owned() }
    }

    /// The night preset: 2500 K at 70% brightness.
    pub fn night() -> (s: NightlightSetting)
        ensures
            s.temperature == 2500,
            s.brightness@ == "0.7"@,
    {
        NightlightSetting { temperature: 2500, brightness: "0.7".to_owned() }
    }
}

impl Default for NightlightSetting {
    fn default() -> (s: NightlightSetting)
        ensures
            s.temperature == 6500,
            s.brightness@ == "1"@,
    {
        NightlightSetting::day()
    }
}

impl Default for Nightlight {
    fn default() -> (n: Nightlight)
        ensures
            !n.enabled,
            !n.use_location,
            n.dawn == Some(CivilTime { hour: 7, minute: 0, second: 0, subsec_nanosecond: 0 }),
            n.dusk == Some(CivilTime { hour: 20, minute: 0, second: 0, subsec_nanosecond: 0 }),
            n.day.temperature == 6500,
            n.day.brightness@ == "1"@,
            n.night.temperature == 2500,
            n.night.brightness@ == "0.7"@,
            n.debounce_ms == 500,
    {
        Nightlight {
            enabled: false,
            use_location: false,
            dawn: Some(CivilTime { hour: 7, minute: 0, second: 0, subsec_nanosecond: 0 }),
            dusk: Some(CivilTime { hour: 20, minute: 0, second: 0, subsec_nanosecond: 0 }),
            night: NightlightSetting::night(),
            day: NightlightSetting::day(),
            debounce_ms: 500,
        }
    }
}

impl Default for Homeassistant {
    fn default() -> (h: Homeassistant)
        ensures
            !h.enabled,
            h.url is None,
            h.tracked_devices@.len() == 0,
    {
        Homeassistant { enabled: false, url: None, tracked_devices: Vec::new() }
    }
}

impl Default for Spotify {
    fn default() -> (s: Spotify)
        ensures
            !s.enabled,
            s.client_id@ == Seq::<char>::empty(),
    {
        Spotify { enabled: false, client_id: String::new() }
    }
}

impl Default for SystemMenu {
    fn default() -> (m: SystemMenu)
        ensures
            m.widgets@.len() == 0,
    {
        SystemMenu { widgets: Vec::new() }
    }
}

impl Default for LauncherTypoSearch {
    fn default() -> (t: LauncherTypoSearch)
        ensures
            t.min_chars == 3,
            t.short_query_chars == 4,
            t.short_max_distance == 1,
            t.medium_query_chars == 7,
            t.medium_max_distance == 2,
            t.long_max_distance == 3,
    {
        LauncherTypoSearch {
            min_chars: 3,
            short_query_chars: 4,
            short_max_distance: 1,
            medium_query_chars: 7,
            medium_max_distance: 2,
            long_max_distance: 3,
        }
    }
}

impl Default for Launcher {
    fn default() -> (l: Launcher)
        ensures
            l.providers@ == seq![LauncherProvider::Calculator, LauncherProvider::Applications,
                LauncherProvider::Files],
            l.fuzzy_search.min_chars == 3,
            l.fuzzy_search.short_query_chars == 4,
            l.fuzzy_search.short_max_distance == 1,
            l.fuzzy_search.medium_query_chars == 7,
            l.fuzzy_search.medium_max_distance == 2,
            l.fuzzy_search.long_max_distance == 3,
    {
        Launcher { providers: LauncherProvider::all(), fuzzy_search: LauncherTypoSearch::default() }
    }
}

impl Default for Indexing {
    fn default() -> (i: Indexing)
        ensures
            i.enabled,
    {
        Indexing { enabled: true }
    }
}

impl Default for ConfigFile {
    fn default() -> (c: ConfigFile)
        ensures
            c.nightlight.dawn matches Some(t) && t.wf(),
            c.nightlight.dusk matches Some(t) && t.wf(),
            !c.nightlight.enabled,
            c.nightlight.debounce_ms == 500,
            !c.spotify.enabled,
            c.spotify.client_id@ == Seq::<char>::empty(),
            !c.homeassistant.enabled,
            c.homeassistant.url is None,
            c.system_menu.widgets@.len() == 0,
            c.indexing.enabled,
    {
        ConfigFile {
            nightlight: Nightlight::default(),
            homeassistant: Homeassistant::default(),
            spotify: Spotify::default(),
            system_menu: SystemMenu::default(),
            launcher: Launcher::default(),
            indexing: Indexing::default(),
        }
    }
}

/// A custom check of the nightlight section: `use_location` excludes explicit dawn and dusk
/// times. Gives the message of the first conflict found.
pub fn verify_use_location_dusk_dawn(
    use_location: bool,
    dusk: &Option<CivilTime>,
    dawn: &Option<CivilTime>,
) -> (r: Result<(), &'static str>)
    ensures
        r is Ok <==> !(use_location && (dusk is Some || dawn is Some)),
        r matches Err(m) ==> (dusk is Some ==> m@ == "`use_location` and `dusk` are mutually exclusive"@)
            && (dusk is None ==> m@ == "`use_location` and `dawn` are mutually exclusive"@),
{
    if use_location && dusk.is_some() {
        Err("`use_location` and `dusk` are mutually exclusive")
    } else if use_location && dawn.is_some() {
        Err("`use_location` and `dawn` are mutually exclusive")
    } else {
        Ok(())
    }
}

/// A custom check of one of the dawn and dusk times: it may not be set together with
/// `use_location`. The error names the offending field.
pub fn verify_dusk_dawn_use_location(
    name: &str,
    use_location: bool,
    value: &Option<CivilTime>,
) -> (r: Result<(), String>)
    ensures
        r is Ok <==> !(use_location && value is Some),
        r matches Err(m) ==> m@ == "`use_location` and `"@ + name@ + "` are mutually exclusive"@,
{
    if use_location && value.is_some() {
        let mut m = String::new();
        push_str(&mut m, "`use_location` and `");
        push_str(&mut m, name);
        push_str(&mut m, "` are mutually exclusive");
        Err(m)
    } else {
        Ok(())
    }
}

} // verus!
