use vstd::prelude::*;

use crate::config::{
    CivilTime, ConfigFile, LauncherProvider, SystemMenuWidgets, float_text_eq, hour_minute_text, same_float_text,
    same_time, time_eq,
};
use crate::text::{chars_of, decimal, decimal_string, push_str};

verus! {

/// How one character is written inside a Nix string literal; `next` is the character
/// that follows it, if any (a `$` before `{` is escaped so that it does not interpolate).
pub open spec fn nix_escape_char(c: char, next: Option<char>) -> Seq<char> {
    if c == '\\' {
        seq!['\\', '\\']
    } else if c == '"' {
        seq!['\\', '"']
    } else if c == '$' && next == Some('{') {
        seq!['\\', '$']
    } else if c == '\n' {
        seq!['\\', 'n']
    } else if c == '\r' {
        seq!['\\', 'r']
    } else if c == '\t' {
        seq!['\\', 't']
    } else {
        seq![c]
    }
}

/// The escaped body of a Nix string literal.
pub open spec fn nix_escape(s: Seq<char>) -> Seq<char>
    decreases s.len(),
{
    if s.len() == 0 {
        seq![]
    } else {
        let next = if s.len() > 1 { Some(s[1]) } else { None };
        nix_escape_char(s[0], next) + nix_escape(s.drop_first())
    }
}

/// A Nix string literal whose value is `s`.
pub open spec fn nix_string_spec(s: Seq<char>) -> Seq<char> {
    seq!['"'] + nix_escape(s) + seq!['"']
}

fn push_escaped(out: &mut String, c: char, next: Option<char>)
    ensures
        final(out)@ == old(out)@ + nix_escape_char(c, next),
{
    if c == '\\' {
        push_str(out, "\\\\");
        proof { reveal_strlit("\\\\"); }
    } else if c == '"' {
        push_str(out, "\\\"");
        proof { reveal_strlit("\\\""); }
    } else if c == '$' && next == Some('{') {
        push_str(out, "\\$");
        proof { reveal_strlit("\\$"); }
    } else if c == '\n' {
        push_str(out, "\\n");
        proof { reveal_strlit("\\n"); }
    } else if c == '\r' {
        push_str(out, "\\r");
        proof { reveal_strlit("\\r"); }
    } else if c == '\t' {
        push_str(out, "\\t");
        proof { reveal_strlit("\\t"); }
    } else {
        let s = crate::text::string_of(&[c]);
        push_str(out, s.as_str());
        assert(s@ == seq![c]);
    }
}

/// Writes `value` as a Nix string literal: backslashes, quotes, interpolation starts and
/// the control characters newline, carriage return and tab are escaped.
pub fn nix_string(value: &str) -> (s: String)
    ensures
        s@ == nix_string_spec(value@),
{
    let v = chars_of(value);
    let mut out = String::new();
    push_str(&mut out, "\"");
    proof { reveal_strlit("\""); }
    assert(out@ == seq!['"']);
    assert(v@.skip(0) == v@);
    let mut i: usize = 0;
    while i < v.len()
        invariant
            i <= v@.len(),
            v@ == value@,
            seq!['"'] + nix_escape(v@) == out@ + nix_escape(v@.skip(i as int)),
        decreases v@.len() - i,
    {
        let next = if i + 1 < v.len() { Some(v[i + 1]) } else { None };
        let ghost rest = v@.skip(i as int);
        assert(rest.drop_first() == v@.skip(i + 1));
        push_escaped(&mut out, v[i], next);
        assert(out@ + nix_escape(v@.skip(i + 1)) == seq!['"'] + nix_escape(v@));
        i = i + 1;
    }
    assert(v@.skip(i as int).len() == 0);
    push_str(&mut out, "\"");
    out
}


/// Items joined by single spaces.
pub open spec fn join_spaced(items: Seq<Seq<char>>) -> Seq<char>
    decreases items.len(),
{
    if items.len() == 0 {
        seq![]
    } else if items.len() == 1 {
        items[0]
    } else {
        join_spaced(items.drop_last()) + seq![' '] + items.last()
    }
}

/// The character sequences of a list of strings.
pub open spec fn string_views(v: Seq<String>) -> Seq<Seq<char>> {
    v.map_values(|s: String| s@)
}

/// A Nix list of string literals.
pub open spec fn nix_list_spec(items: Seq<Seq<char>>) -> Seq<char> {
    seq!['['] + join_spaced(items.map_values(|s: Seq<char>| nix_string_spec(s))) + seq![']']
}

/// Writes the values as a Nix list of string literals, separated by spaces.
pub fn nix_list(values: &Vec<String>) -> (s: String)
    ensures
        s@ == nix_list_spec(string_views(values@)),
{
    let ghost items = string_views(values@).map_values(|s: Seq<char>| nix_string_spec(s));
    let mut body = String::new();
    let mut i: usize = 0;
    while i < values.len()
        invariant
            i <= values@.len(),
            items == string_views(values@).map_values(|s: Seq<char>| nix_string_spec(s)),
            body@ == join_spaced(items.take(i as int)),
        decreases values@.len() - i,
    {
        let item = nix_string(values[i].as_str());
        if i > 0 {
            push_str(&mut body, " ");
            proof { reveal_strlit(" "); }
        }
        push_str(&mut body, item.as_str());
        assert(items.take(i + 1).drop_last() == items.take(i as int));
        assert(items[i as int] == item@);
        i = i + 1;
    }
    assert(items.take(values@.len() as int) == items);
    let mut out = String::new();
    push_str(&mut out, "[");
    push_str(&mut out, body.as_str());
    push_str(&mut out, "]");
    proof {
        reveal_strlit("[");
        reveal_strlit("]");
    }
    out
}

/// The Nix option name of a system menu widget.
pub open spec fn system_menu_widget_name_spec(widget: SystemMenuWidgets) -> Seq<char> {
    match widget {
        SystemMenuWidgets::Wifi => "wifi"@,
        SystemMenuWidgets::Bluetooth => "bluetooth"@,
        SystemMenuWidgets::Speaker => "speaker"@,
        SystemMenuWidgets::Microphone => "microphone"@,
        SystemMenuWidgets::Vpn => "vpn"@,
        SystemMenuWidgets::Nightlight => "nightlight"@,
    }
}

/// The Nix option name of a system menu widget.
pub fn system_menu_widget_name(widget: SystemMenuWidgets) -> (s: &'static str)
    ensures
        s@ == system_menu_widget_name_spec(widget),
{
    match widget {
        SystemMenuWidgets::Wifi => "wifi",
        SystemMenuWidgets::Bluetooth => "bluetooth",
        SystemMenuWidgets::Speaker => "speaker",
        SystemMenuWidgets::Microphone => "microphone",
        SystemMenuWidgets::Vpn => "vpn",
        SystemMenuWidgets::Nightlight => "nightlight",
    }
}

/// The Nix option name of a launcher provider.
pub open spec fn launcher_provider_name_spec(provider: LauncherProvider) -> Seq<char> {
    match provider {
        LauncherProvider::Calculator => "calculator"@,
        LauncherProvider::Applications => "applications"@,
        LauncherProvider::Files => "files"@,
        LauncherProvider::Nix => "nix"@,
    }
}

/// The Nix option name of a launcher provider.
pub fn launcher_provider_name(provider: LauncherProvider) -> (s: &'static str)
    ensures
        s@ == launcher_provider_name_spec(provider),
{
    match provider {
        LauncherProvider::Calculator => "calculator",
        LauncherProvider::Applications => "applications",
        LauncherProvider::Files => "files",
        LauncherProvider::Nix => "nix",
    }
}

fn widget_names(widgets: &Vec<SystemMenuWidgets>) -> (v: Vec<String>)
    ensures
        string_views(v@) == widgets@.map_values(|w: SystemMenuWidgets| system_menu_widget_name_spec(w)),
{
    let mut v: Vec<String> = Vec::new();
    let mut i: usize = 0;
    while i < widgets.len()
        invariant
            i <= widgets@.len(),
            v@.len() == i,
            forall|j: int| 0 <= j < i ==> #[trigger] v@[j]@ == system_menu_widget_name_spec(widgets@[j]),
        decreases widgets@.len() - i,
    {
        let name = system_menu_widget_name(widgets[i]);
        v.push(name.to_owned());
        i = i + 1;
    }
    assert(string_views(v@) =~= widgets@.map_values(|w: SystemMenuWidgets| system_menu_widget_name_spec(w)));
    v
}

fn provider_names(providers: &Vec<LauncherProvider>) -> (v: Vec<String>)
    ensures
        string_views(v@) == providers@.map_values(|p: LauncherProvider| launcher_provider_name_spec(p)),
{
    let mut v: Vec<String> = Vec::new();
    let mut i: usize = 0;
    while i < providers.len()
        invariant
            i <= providers@.len(),
            v@.len() == i,
            forall|j: int| 0 <= j < i ==> #[trigger] v@[j]@ == launcher_provider_name_spec(providers@[j]),
        decreases providers@.len() - i,
    {
        let name = launcher_provider_name(providers[i]);
        v.push(name.to_owned());
        i = i + 1;
    }
    assert(string_views(v@) =~= providers@.map_values(|p: LauncherProvider| launcher_provider_name_spec(p)));
    v
}

/// `true` or `false`, as Nix and Rust write booleans.
pub open spec fn bool_text(b: bool) -> Seq<char> {
    if b { "true"@ } else { "false"@ }
}

fn bool_text_of(b: bool) -> (s: &'static str)
    ensures
        s@ == bool_text(b),
{
    if b { "true" } else { "false" }
}

/// A time of day as a Nix value: `null`, or the `HH:MM` string.
pub open spec fn nix_time_spec(t: Option<CivilTime>) -> Seq<char> {
    match t {
        None => "null"@,
        Some(t) => nix_string_spec(hour_minute_text(t)),
    }
}

/// Writes an optional time of day as a Nix value.
pub fn nix_time(value: &Option<CivilTime>) -> (s: String)
    requires
        value matches Some(t) ==> t.wf(),
    ensures
        s@ == nix_time_spec(*value),
{
    match value {
        None => "null".to_owned(),
        Some(t) => {
            let text = crate::config::format_hour_minute(t);
            nix_string(text.as_str())
        }
    }
}

/// An optional url as a Nix value: `null`, or its serialization as a string.
pub open spec fn nix_url_spec(url: Option<String>) -> Seq<char> {
    match url {
        None => "null"@,
        Some(u) => nix_string_spec(u@),
    }
}

fn nix_url(url: &Option<String>) -> (s: String)
    ensures
        s@ == nix_url_spec(*url),
{
    match url {
        None => "null".to_owned(),
        Some(u) => nix_string(u.as_str()),
    }
}

/// Two optional urls are the same when both are absent or their serializations agree.
pub open spec fn same_url(a: Option<String>, b: Option<String>) -> bool {
    match (a, b) {
        (None, None) => true,
        (Some(x), Some(y)) => x@ == y@,
        _ => false,
    }
}

fn url_eq(a: &Option<String>, b: &Option<String>) -> (r: bool)
    ensures
        r == same_url(*a, *b),
{
    match (a, b) {
        (None, None) => true,
        (Some(x), Some(y)) => *x == *y,
        _ => false,
    }
}

fn strings_eq(a: &Vec<String>, b: &Vec<String>) -> (r: bool)
    ensures
        r == (string_views(a@) == string_views(b@)),
{
    if a.len() != b.len() {
        assert(string_views(a@).len() != string_views(b@).len());
        return false;
    }
    let mut i: usize = 0;
    while i < a.len()
        invariant
            i <= a@.len(),
            a@.len() == b@.len(),
            forall|j: int| 0 <= j < i ==> #[trigger] a@[j]@ == b@[j]@,
        decreases a@.len() - i,
    {
        if a[i] != b[i] {
            assert(string_views(a@)[i as int] != string_views(b@)[i as int]);
            return false;
        }
        i = i + 1;
    }
    assert(string_views(a@) =~= string_views(b@));
    true
}

fn widgets_eq(a: &Vec<SystemMenuWidgets>, b: &Vec<SystemMenuWidgets>) -> (r: bool)
    ensures
        r == (a@ == b@),
{
    if a.len() != b.len() {
        return false;
    }
    let mut i: usize = 0;
    while i < a.len()
        invariant
            i <= a@.len(),
            a@.len() == b@.len(),
            forall|j: int| 0 <= j < i ==> a@[j] == b@[j],
        decreases a@.len() - i,
    {
        if a[i] != b[i] {
            return false;
        }
        i = i + 1;
    }
    assert(a@ =~= b@);
    true
}

fn providers_eq(a: &Vec<LauncherProvider>, b: &Vec<LauncherProvider>) -> (r: bool)
    ensures
        r == (a@ == b@),
{
    if a.len() != b.len() {
        return false;
    }
    let mut i: usize = 0;
    while i < a.len()
        invariant
            i <= a@.len(),
            a@.len() == b@.len(),
            forall|j: int| 0 <= j < i ==> a@[j] == b@[j],
        decreases a@.len() - i,
    {
        if a[i] != b[i] {
            return false;
        }
        i = i + 1;
    }
    assert(a@ =~= b@);
    true
}

/// Two configurations hold the same settings: every field agrees (texts and lists by
/// their contents).
pub open spec fn same_config(a: ConfigFile, b: ConfigFile) -> bool {
    &&& a.nightlight.enabled == b.nightlight.enabled
    &&& a.nightlight.use_location == b.nightlight.use_location
    &&& same_time(a.nightlight.dawn, b.nightlight.dawn)
    &&& same_time(a.nightlight.dusk, b.nightlight.dusk)
    &&& a.nightlight.day.temperature == b.nightlight.day.temperature
    &&& float_text_eq(a.nightlight.day.brightness@, b.nightlight.day.brightness@)
    &&& a.nightlight.night.temperature == b.nightlight.night.temperature
    &&& float_text_eq(a.nightlight.night.brightness@, b.nightlight.night.brightness@)
    &&& a.nightlight.debounce_ms == b.nightlight.debounce_ms
    &&& a.homeassistant.enabled == b.homeassistant.enabled
    &&& same_url(a.homeassistant.url, b.homeassistant.url)
    &&& string_views(a.homeassistant.tracked_devices@) == string_views(b.homeassistant.tracked_devices@)
    &&& a.spotify.enabled == b.spotify.enabled
    &&& a.spotify.client_id@ == b.spotify.client_id@
    &&& a.system_menu.widgets@ == b.system_menu.widgets@
    &&& a.launcher.providers@ == b.launcher.providers@
    &&& a.launcher.fuzzy_search.min_chars == b.launcher.fuzzy_search.min_chars
    &&& a.launcher.fuzzy_search.short_query_chars == b.launcher.fuzzy_search.short_query_chars
    &&& a.launcher.fuzzy_search.short_max_distance == b.launcher.fuzzy_search.short_max_distance
    &&& a.launcher.fuzzy_search.medium_query_chars == b.launcher.fuzzy_search.medium_query_chars
    &&& a.launcher.fuzzy_search.medium_max_distance == b.launcher.fuzzy_search.medium_max_distance
    &&& a.launcher.fuzzy_search.long_max_distance == b.launcher.fuzzy_search.long_max_distance
    &&& a.indexing.enabled == b.indexing.enabled
}

impl ConfigFile {
    /// Whether two configurations hold the same settings.
    pub fn same_settings(&self, other: &ConfigFile) -> (r: bool)
        ensures
            r == same_config(*self, *other),
    {
        let n = &self.nightlight;
        let m = &other.nightlight;
        let f = &self.launcher.fuzzy_search;
        let g = &other.launcher.fuzzy_search;
        n.enabled == m.enabled && n.use_location == m.use_location && time_eq(&n.dawn, &m.dawn)
            && time_eq(&n.dusk, &m.dusk) && n.day.temperature == m.day.temperature
            && same_float_text(n.day.brightness.as_str(), m.day.brightness.as_str())
            && n.night.temperature == m.night.temperature
            && same_float_text(n.night.brightness.as_str(), m.night.brightness.as_str()) && n.debounce_ms == m.debounce_ms
            && self.homeassistant.enabled == other.homeassistant.enabled
            && url_eq(&self.homeassistant.url, &other.homeassistant.url)
            && strings_eq(&self.homeassistant.tracked_devices, &other.homeassistant.tracked_devices)
            && self.spotify.enabled == other.spotify.enabled && self.spotify.client_id == other.spotify.client_id
            && widgets_eq(&self.system_menu.widgets, &other.system_menu.widgets)
            && providers_eq(&self.launcher.providers, &other.launcher.providers)
            && f.min_chars == g.min_chars && f.short_query_chars == g.short_query_chars
            && f.short_max_distance == g.short_max_distance && f.medium_query_chars == g.medium_query_chars
            && f.medium_max_distance == g.medium_max_distance && f.long_max_distance == g.long_max_distance
            && self.indexing.enabled == other.indexing.enabled
    }
}

/// One line of a Nix diff: `name = value;` when the setting changed, nothing otherwise.
pub open spec fn entry(name: Seq<char>, changed: bool, rendered: Seq<char>) -> Seq<char> {
    if changed {
        name + " = "@ + rendered + ";\n"@
    } else {
        seq![]
    }
}

/// Appends `name = rendered;` and a line break when the setting changed.
pub fn nix_assignment(out: &mut String, name: &str, changed: bool, rendered: &str)
    ensures
        final(out)@ == old(out)@ + entry(name@, changed, rendered@),
{
    if changed {
        push_str(out, name);
        push_str(out, " = ");
        push_str(out, rendered);
        push_str(out, ";\n");
    } else {
        assert(old(out)@ + entry(name@, changed, rendered@) =~= old(out)@);
    }
}

fn fuzzy_search_name(suffix: &str) -> (s: String)
    ensures
        s@ == "services.subniri.settings.launcher.fuzzy_search."@ + suffix@,
{
    let mut s = String::new();
    push_str(&mut s, "services.subniri.settings.launcher.fuzzy_search.");
    push_str(&mut s, suffix);
    assert(s@ =~= "services.subniri.settings.launcher.fuzzy_search."@ + suffix@);
    s
}

/// Every time of day in the configuration is a valid one.
pub open spec fn config_times_wf(c: ConfigFile) -> bool {
    &&& c.nightlight.dawn matches Some(t) ==> t.wf()
    &&& c.nightlight.dusk matches Some(t) ==> t.wf()
}

/// `prefix` followed by the diff lines of the nightlight settings.
pub open spec fn nightlight_lines(prefix: Seq<char>, c: ConfigFile, d: ConfigFile) -> Seq<char> {
    prefix
        + entry("services.subniri.settings.nightlight.enable"@, c.nightlight.enabled != d.nightlight.enabled, bool_text(c.nightlight.enabled))
        + entry("services.subniri.settings.nightlight.useLocation"@, c.nightlight.use_location != d.nightlight.use_location, bool_text(c.nightlight.use_location))
        + entry("services.subniri.settings.nightlight.dawn"@, !same_time(c.nightlight.dawn, d.nightlight.dawn), nix_time_spec(c.nightlight.dawn))
        + entry("services.subniri.settings.nightlight.dusk"@, !same_time(c.nightlight.dusk, d.nightlight.dusk), nix_time_spec(c.nightlight.dusk))
        + entry("services.subniri.settings.nightlight.day.temperature"@, c.nightlight.day.temperature != d.nightlight.day.temperature, decimal(c.nightlight.day.temperature as nat))
        + entry("services.subniri.settings.nightlight.day.brightness"@, !float_text_eq(c.nightlight.day.brightness@, d.nightlight.day.brightness@), c.nightlight.day.brightness@)
        + entry("services.subniri.settings.nightlight.night.temperature"@, c.nightlight.night.temperature != d.nightlight.night.temperature, decimal(c.nightlight.night.temperature as nat))
        + entry("services.subniri.settings.nightlight.night.brightness"@, !float_text_eq(c.nightlight.night.brightness@, d.nightlight.night.brightness@), c.nightlight.night.brightness@)
        + entry("services.subniri.settings.nightlight.debounceMs"@, c.nightlight.debounce_ms != d.nightlight.debounce_ms, decimal(c.nightlight.debounce_ms as nat))
}

/// `prefix` followed by the diff lines of the homeassistant, spotify, system menu and launcher provider settings.
pub open spec fn integration_lines(prefix: Seq<char>, c: ConfigFile, d: ConfigFile) -> Seq<char> {
    prefix
        + entry("services.subniri.settings.homeassistant.enable"@, c.homeassistant.enabled != d.homeassistant.enabled, bool_text(c.homeassistant.enabled))
        + entry("services.subniri.settings.homeassistant.url"@, !same_url(c.homeassistant.url, d.homeassistant.url), nix_url_spec(c.homeassistant.url))
        + entry("services.subniri.settings.homeassistant.trackedDevices"@, string_views(c.homeassistant.tracked_devices@) != string_views(d.homeassistant.tracked_devices@), nix_list_spec(string_views(c.homeassistant.tracked_devices@)))
        + entry("services.subniri.settings.spotify.enable"@, c.spotify.enabled != d.spotify.enabled, bool_text(c.spotify.enabled))
        + entry("services.subniri.settings.spotify.clientId"@, c.spotify.client_id@ != d.spotify.client_id@, nix_string_spec(c.spotify.client_id@))
        + entry("services.subniri.settings.systemMenu.widgets"@, c.system_menu.widgets@ != d.system_menu.widgets@, nix_list_spec(c.system_menu.widgets@.map_values(|w: SystemMenuWidgets| system_menu_widget_name_spec(w))))
        + entry("services.subniri.settings.launcher.providers"@, c.launcher.providers@ != d.launcher.providers@, nix_list_spec(c.launcher.providers@.map_values(|p: LauncherProvider| launcher_provider_name_spec(p))))
}

/// `prefix` followed by the diff lines of the launcher's fuzzy search limits.
pub open spec fn fuzzy_search_lines(prefix: Seq<char>, c: ConfigFile, d: ConfigFile) -> Seq<char> {
    prefix
        + entry("services.subniri.settings.launcher.fuzzy_search."@ + "min_chars"@, c.launcher.fuzzy_search.min_chars != d.launcher.fuzzy_search.min_chars, decimal(c.launcher.fuzzy_search.min_chars as nat))
        + entry("services.subniri.settings.launcher.fuzzy_search."@ + "short.chars"@, c.launcher.fuzzy_search.short_query_chars != d.launcher.fuzzy_search.short_query_chars, decimal(c.launcher.fuzzy_search.short_query_chars as nat))
        + entry("services.subniri.settings.launcher.fuzzy_search."@ + "short.distance"@, c.launcher.fuzzy_search.short_max_distance != d.launcher.fuzzy_search.short_max_distance, decimal(c.launcher.fuzzy_search.short_max_distance as nat))
        + entry("services.subniri.settings.launcher.fuzzy_search."@ + "medium.chars"@, c.launcher.fuzzy_search.medium_query_chars != d.launcher.fuzzy_search.medium_query_chars, decimal(c.launcher.fuzzy_search.medium_query_chars as nat))
        + entry("services.subniri.settings.launcher.fuzzy_search."@ + "medium.distance"@, c.launcher.fuzzy_search.medium_max_distance != d.launcher.fuzzy_search.medium_max_distance, decimal(c.launcher.fuzzy_search.medium_max_distance as nat))
        + entry("services.subniri.settings.launcher.fuzzy_search."@ + "long.distance"@, c.launcher.fuzzy_search.long_max_distance != d.launcher.fuzzy_search.long_max_distance, decimal(c.launcher.fuzzy_search.long_max_distance as nat))
}

/// `prefix` followed by the diff lines of the indexing switch.
pub open spec fn indexing_lines(prefix: Seq<char>, c: ConfigFile, d: ConfigFile) -> Seq<char> {
    prefix
        + entry("services.subniri.icepickd.enable"@, c.indexing.enabled != d.indexing.enabled, bool_text(c.indexing.enabled))
}

/// The Nix assignments that turn the declarative configuration `d` into `c`: one line per
/// setting whose value differs, in a fixed order.
pub open spec fn nix_diff_spec(c: ConfigFile, d: ConfigFile) -> Seq<char> {
    indexing_lines(fuzzy_search_lines(integration_lines(nightlight_lines(Seq::empty(), c, d), c, d), c, d), c, d)
}

fn push_nightlight_lines(out: &mut String, cfg: &ConfigFile, declarative: &ConfigFile)
    requires
        config_times_wf(*cfg),
    ensures
        final(out)@ == nightlight_lines(old(out)@, *cfg, *declarative),
{
    {
        let changed = cfg.nightlight.enabled != declarative.nightlight.enabled;
        let rendered = bool_text_of(cfg.nightlight.enabled).to_owned();
        nix_assignment(out, "services.subniri.settings.nightlight.enable", changed, rendered.as_str());
    }
    {
        let changed = cfg.nightlight.use_location != declarative.nightlight.use_location;
        let rendered = bool_text_of(cfg.nightlight.use_location).to_owned();
        nix_assignment(out, "services.subniri.settings.nightlight.useLocation", changed, rendered.as_str());
    }
    {
        let changed = !time_eq(&cfg.nightlight.dawn, &declarative.nightlight.dawn);
        let rendered = nix_time(&cfg.nightlight.dawn);
        nix_assignment(out, "services.subniri.settings.nightlight.dawn", changed, rendered.as_str());
    }
    {
        let changed = !time_eq(&cfg.nightlight.dusk, &declarative.nightlight.dusk);
        let rendered = nix_time(&cfg.nightlight.dusk);
        nix_assignment(out, "services.subniri.settings.nightlight.dusk", changed, rendered.as_str());
    }
    {
        let changed = cfg.nightlight.day.temperature != declarative.nightlight.day.temperature;
        let rendered = decimal_string(cfg.nightlight.day.temperature as u64);
        nix_assignment(out, "services.subniri.settings.nightlight.day.temperature", changed, rendered.as_str());
    }
    {
        let changed = !same_float_text(cfg.nightlight.day.brightness.as_str(), declarative.nightlight.day.brightness.as_str());
        let rendered = cfg.nightlight.day.brightness.clone();
        nix_assignment(out, "services.subniri.settings.nightlight.day.brightness", changed, rendered.as_str());
    }
    {
        let changed = cfg.nightlight.night.temperature != declarative.nightlight.night.temperature;
        let rendered = decimal_string(cfg.nightlight.night.temperature as u64);
        nix_assignment(out, "services.subniri.settings.nightlight.night.temperature", changed, rendered.as_str());
    }
    {
        let changed = !same_float_text(cfg.nightlight.night.brightness.as_str(), declarative.nightlight.night.brightness.as_str());
        let rendered = cfg.nightlight.night.brightness.clone();
        nix_assignment(out, "services.subniri.settings.nightlight.night.brightness", changed, rendered.as_str());
    }
    {
        let changed = cfg.nightlight.debounce_ms != declarative.nightlight.debounce_ms;
        let rendered = decimal_string(cfg.nightlight.debounce_ms);
        nix_assignment(out, "services.subniri.settings.nightlight.debounceMs", changed, rendered.as_str());
    }
}

fn push_integration_lines(out: &mut String, cfg: &ConfigFile, declarative: &ConfigFile)
    requires
        config_times_wf(*cfg),
    ensures
        final(out)@ == integration_lines(old(out)@, *cfg, *declarative),
{
    {
        let changed = cfg.homeassistant.enabled != declarative.homeassistant.enabled;
        let rendered = bool_text_of(cfg.homeassistant.enabled).to_owned();
        nix_assignment(out, "services.subniri.settings.homeassistant.enable", changed, rendered.as_str());
    }
    {
        let changed = !url_eq(&cfg.homeassistant.url, &declarative.homeassistant.url);
        let rendered = nix_url(&cfg.homeassistant.url);
        nix_assignment(out, "services.subniri.settings.homeassistant.url", changed, rendered.as_str());
    }
    {
        let changed = !strings_eq(&cfg.homeassistant.tracked_devices, &declarative.homeassistant.tracked_devices);
        let rendered = nix_list(&cfg.homeassistant.tracked_devices);
        nix_assignment(out, "services.subniri.settings.homeassistant.trackedDevices", changed, rendered.as_str());
    }
    {
        let changed = cfg.spotify.enabled != declarative.spotify.enabled;
        let rendered = bool_text_of(cfg.spotify.enabled).to_owned();
        nix_assignment(out, "services.subniri.settings.spotify.enable", changed, rendered.as_str());
    }
    {
        let changed = cfg.spotify.client_id != declarative.spotify.client_id;
        let rendered = nix_string(cfg.spotify.client_id.as_str());
        nix_assignment(out, "services.subniri.settings.spotify.clientId", changed, rendered.as_str());
    }
    {
        let changed = !widgets_eq(&cfg.system_menu.widgets, &declarative.system_menu.widgets);
        let rendered = nix_list(&widget_names(&cfg.system_menu.widgets));
        nix_assignment(out, "services.subniri.settings.systemMenu.widgets", changed, rendered.as_str());
    }
    {
        let changed = !providers_eq(&cfg.launcher.providers, &declarative.launcher.providers);
        let rendered = nix_list(&provider_names(&cfg.launcher.providers));
        nix_assignment(out, "services.subniri.settings.launcher.providers", changed, rendered.as_str());
    }
}

fn push_fuzzy_search_lines(out: &mut String, cfg: &ConfigFile, declarative: &ConfigFile)
    requires
        config_times_wf(*cfg),
    ensures
        final(out)@ == fuzzy_search_lines(old(out)@, *cfg, *declarative),
{
    {
        let changed = cfg.launcher.fuzzy_search.min_chars != declarative.launcher.fuzzy_search.min_chars;
        let rendered = decimal_string(cfg.launcher.fuzzy_search.min_chars as u64);
        let name = fuzzy_search_name("min_chars");
        nix_assignment(out, name.as_str(), changed, rendered.as_str());
    }
    {
        let changed = cfg.launcher.fuzzy_search.short_query_chars != declarative.launcher.fuzzy_search.short_query_chars;
        let rendered = decimal_string(cfg.launcher.fuzzy_search.short_query_chars as u64);
        let name = fuzzy_search_name("short.chars");
        nix_assignment(out, name.as_str(), changed, rendered.as_str());
    }
    {
        let changed = cfg.launcher.fuzzy_search.short_max_distance != declarative.launcher.fuzzy_search.short_max_distance;
        let rendered = decimal_string(cfg.launcher.fuzzy_search.short_max_distance as u64);
        let name = fuzzy_search_name("short.distance");
        nix_assignment(out, name.as_str(), changed, rendered.as_str());
    }
    {
        let changed = cfg.launcher.fuzzy_search.medium_query_chars != declarative.launcher.fuzzy_search.medium_query_chars;
        let rendered = decimal_string(cfg.launcher.fuzzy_search.medium_query_chars as u64);
        let name = fuzzy_search_name("medium.chars");
        nix_assignment(out, name.as_str(), changed, rendered.as_str());
    }
    {
        let changed = cfg.launcher.fuzzy_search.medium_max_distance != declarative.launcher.fuzzy_search.medium_max_distance;
        let rendered = decimal_string(cfg.launcher.fuzzy_search.medium_max_distance as u64);
        let name = fuzzy_search_name("medium.distance");
        nix_assignment(out, name.as_str(), changed, rendered.as_str());
    }
    {
        let changed = cfg.launcher.fuzzy_search.long_max_distance != declarative.launcher.fuzzy_search.long_max_distance;
        let rendered = decimal_string(cfg.launcher.fuzzy_search.long_max_distance as u64);
        let name = fuzzy_search_name("long.distance");
        nix_assignment(out, name.as_str(), changed, rendered.as_str());
    }
}

fn push_indexing_lines(out: &mut String, cfg: &ConfigFile, declarative: &ConfigFile)
    requires
        config_times_wf(*cfg),
    ensures
        final(out)@ == indexing_lines(old(out)@, *cfg, *declarative),
{
    {
        let changed = cfg.indexing.enabled != declarative.indexing.enabled;
        let rendered = bool_text_of(cfg.indexing.enabled).to_owned();
        nix_assignment(out, "services.subniri.icepickd.enable", changed, rendered.as_str());
    }
}

/// The assignment `name = value;` on a line of its own.
pub open spec fn assignment(name: Seq<char>, value: Seq<char>) -> Seq<char> {
    name + " = "@ + value + ";\n"@
}

/// Whether a text holds another one as a contiguous part.
pub open spec fn has_line(s: Seq<char>, x: Seq<char>) -> bool {
    exists|i: int| 0 <= i && i + x.len() <= s.len() && #[trigger] s.subrange(i, i + x.len()) == x
}

proof fn lemma_has_line_left(s: Seq<char>, t: Seq<char>, x: Seq<char>)
    requires
        has_line(s, x),
    ensures
        has_line(s + t, x),
{
    let i = choose|i: int| 0 <= i && i + x.len() <= s.len() && #[trigger] s.subrange(i, i + x.len()) == x;
    assert((s + t).subrange(i, i + x.len()) =~= s.subrange(i, i + x.len()));
}

proof fn lemma_has_line_right(s: Seq<char>, t: Seq<char>, x: Seq<char>)
    requires
        has_line(t, x),
    ensures
        has_line(s + t, x),
{
    let i = choose|i: int| 0 <= i && i + x.len() <= t.len() && #[trigger] t.subrange(i, i + x.len()) == x;
    assert((s + t).subrange(s.len() + i, s.len() + i + x.len()) =~= t.subrange(i, i + x.len()));
}

proof fn lemma_has_line_itself(x: Seq<char>)
    ensures
        has_line(x, x),
{
    assert(x.subrange(0int, 0int + x.len()) =~= x);
}

/// Texts joined one after another.
pub open spec fn joined(es: Seq<Seq<char>>) -> Seq<char>
    decreases es.len(),
{
    if es.len() == 0 {
        Seq::empty()
    } else {
        joined(es.drop_last()) + es.last()
    }
}

proof fn lemma_joined_push(es: Seq<Seq<char>>, x: Seq<char>)
    ensures
        joined(es.push(x)) == joined(es) + x,
{
    assert(es.push(x).drop_last() =~= es);
}

proof fn lemma_joined_has(es: Seq<Seq<char>>, k: int)
    requires
        0 <= k < es.len(),
    ensures
        has_line(joined(es), es[k]),
    decreases es.len(),
{
    if k == es.len() - 1 {
        lemma_has_line_itself(es[k]);
        lemma_has_line_right(joined(es.drop_last()), es.last(), es[k]);
    } else {
        lemma_joined_has(es.drop_last(), k);
        lemma_has_line_left(joined(es.drop_last()), es.last(), es[k]);
    }
}

proof fn lemma_joined_single(p: Seq<char>)
    ensures
        joined(seq![p]) == p,
{
    let l: Seq<Seq<char>> = seq![p];
    assert(l.drop_last() =~= Seq::<Seq<char>>::empty());
    assert(joined(l.drop_last()) == Seq::<char>::empty());
    assert(joined(l) =~= p);
}

proof fn lemma_joined_keeps(es: Seq<Seq<char>>, k: int, x: Seq<char>)
    requires
        0 <= k < es.len(),
        has_line(es[k], x),
    ensures
        has_line(joined(es), x),
    decreases es.len(),
{
    if k == es.len() - 1 {
        lemma_has_line_right(joined(es.drop_last()), es.last(), x);
    } else {
        lemma_joined_keeps(es.drop_last(), k, x);
        lemma_has_line_left(joined(es.drop_last()), es.last(), x);
    }
}

/// The nightlight lines after `p` give each of those settings that differs as
/// `name = value;`, with the value taken from `c`.
proof fn lemma_nightlight_lines_values(p: Seq<char>, c: ConfigFile, d: ConfigFile)
    ensures
        forall|x: Seq<char>| has_line(p, x) ==> #[trigger] has_line(nightlight_lines(p, c, d), x),
        c.nightlight.enabled != d.nightlight.enabled ==> has_line(nightlight_lines(p, c, d), assignment("services.subniri.settings.nightlight.enable"@, bool_text(c.nightlight.enabled))),
        c.nightlight.use_location != d.nightlight.use_location ==> has_line(nightlight_lines(p, c, d), assignment("services.subniri.settings.nightlight.useLocation"@, bool_text(c.nightlight.use_location))),
        !same_time(c.nightlight.dawn, d.nightlight.dawn) ==> has_line(nightlight_lines(p, c, d), assignment("services.subniri.settings.nightlight.dawn"@, nix_time_spec(c.nightlight.dawn))),
        !same_time(c.nightlight.dusk, d.nightlight.dusk) ==> has_line(nightlight_lines(p, c, d), assignment("services.subniri.settings.nightlight.dusk"@, nix_time_spec(c.nightlight.dusk))),
        c.nightlight.day.temperature != d.nightlight.day.temperature ==> has_line(nightlight_lines(p, c, d), assignment("services.subniri.settings.nightlight.day.temperature"@, decimal(c.nightlight.day.temperature as nat))),
        !float_text_eq(c.nightlight.day.brightness@, d.nightlight.day.brightness@) ==> has_line(nightlight_lines(p, c, d), assignment("services.subniri.settings.nightlight.day.brightness"@, c.nightlight.day.brightness@)),
        c.nightlight.night.temperature != d.nightlight.night.temperature ==> has_line(nightlight_lines(p, c, d), assignment("services.subniri.settings.nightlight.night.temperature"@, decimal(c.nightlight.night.temperature as nat))),
        !float_text_eq(c.nightlight.night.brightness@, d.nightlight.night.brightness@) ==> has_line(nightlight_lines(p, c, d), assignment("services.subniri.settings.nightlight.night.brightness"@, c.nightlight.night.brightness@)),
        c.nightlight.debounce_ms != d.nightlight.debounce_ms ==> has_line(nightlight_lines(p, c, d), assignment("services.subniri.settings.nightlight.debounceMs"@, decimal(c.nightlight.debounce_ms as nat))),
{
    let (x, y) = (c.nightlight, d.nightlight);
    let e1 = entry("services.subniri.settings.nightlight.enable"@, x.enabled != y.enabled, bool_text(x.enabled));
    let e2 = entry("services.subniri.settings.nightlight.useLocation"@, x.use_location != y.use_location, bool_text(x.use_location));
    let e3 = entry("services.subniri.settings.nightlight.dawn"@, !same_time(x.dawn, y.dawn), nix_time_spec(x.dawn));
    let e4 = entry("services.subniri.settings.nightlight.dusk"@, !same_time(x.dusk, y.dusk), nix_time_spec(x.dusk));
    let e5 = entry("services.subniri.settings.nightlight.day.temperature"@, x.day.temperature != y.day.temperature, decimal(x.day.temperature as nat));
    let e6 = entry("services.subniri.settings.nightlight.day.brightness"@, !float_text_eq(x.day.brightness@, y.day.brightness@), x.day.brightness@);
    let e7 = entry("services.subniri.settings.nightlight.night.temperature"@, x.night.temperature != y.night.temperature, decimal(x.night.temperature as nat));
    let e8 = entry("services.subniri.settings.nightlight.night.brightness"@, !float_text_eq(x.night.brightness@, y.night.brightness@), x.night.brightness@);
    let e9 = entry("services.subniri.settings.nightlight.debounceMs"@, x.debounce_ms != y.debounce_ms, decimal(x.debounce_ms as nat));
    let l0: Seq<Seq<char>> = seq![p];
    lemma_joined_single(p);
    let l1 = l0.push(e1);
    lemma_joined_push(l0, e1);
    let l2 = l1.push(e2);
    lemma_joined_push(l1, e2);
    let l3 = l2.push(e3);
    lemma_joined_push(l2, e3);
    let l4 = l3.push(e4);
    lemma_joined_push(l3, e4);
    let l5 = l4.push(e5);
    lemma_joined_push(l4, e5);
    let l6 = l5.push(e6);
    lemma_joined_push(l5, e6);
    let l7 = l6.push(e7);
    lemma_joined_push(l6, e7);
    let l8 = l7.push(e8);
    lemma_joined_push(l7, e8);
    let l9 = l8.push(e9);
    lemma_joined_push(l8, e9);
    assert(joined(l9) == nightlight_lines(p, c, d));
    assert forall|k: int| 1 <= k < l9.len() implies has_line(nightlight_lines(p, c, d), #[trigger] l9[k]) by {
        lemma_joined_has(l9, k);
    }
    assert(has_line(nightlight_lines(p, c, d), l9[1]));
    assert(has_line(nightlight_lines(p, c, d), l9[2]));
    assert(has_line(nightlight_lines(p, c, d), l9[3]));
    assert(has_line(nightlight_lines(p, c, d), l9[4]));
    assert(has_line(nightlight_lines(p, c, d), l9[5]));
    assert(has_line(nightlight_lines(p, c, d), l9[6]));
    assert(has_line(nightlight_lines(p, c, d), l9[7]));
    assert(has_line(nightlight_lines(p, c, d), l9[8]));
    assert(has_line(nightlight_lines(p, c, d), l9[9]));
    assert forall|x: Seq<char>| has_line(p, x) implies #[trigger] has_line(nightlight_lines(p, c, d), x) by {
        lemma_joined_keeps(l9, 0, x);
    }
}

/// The homeassistant, spotify, system menu and launcher provider lines after `p` give each of those settings that differs as
/// `name = value;`, with the value taken from `c`.
proof fn lemma_integration_lines_values(p: Seq<char>, c: ConfigFile, d: ConfigFile)
    ensures
        forall|x: Seq<char>| has_line(p, x) ==> #[trigger] has_line(integration_lines(p, c, d), x),
        c.homeassistant.enabled != d.homeassistant.enabled ==> has_line(integration_lines(p, c, d), assignment("services.subniri.settings.homeassistant.enable"@, bool_text(c.homeassistant.enabled))),
        !same_url(c.homeassistant.url, d.homeassistant.url) ==> has_line(integration_lines(p, c, d), assignment("services.subniri.settings.homeassistant.url"@, nix_url_spec(c.homeassistant.url))),
        string_views(c.homeassistant.tracked_devices@) != string_views(d.homeassistant.tracked_devices@) ==> has_line(integration_lines(p, c, d), assignment("services.subniri.settings.homeassistant.trackedDevices"@, nix_list_spec(string_views(c.homeassistant.tracked_devices@)))),
        c.spotify.enabled != d.spotify.enabled ==> has_line(integration_lines(p, c, d), assignment("services.subniri.settings.spotify.enable"@, bool_text(c.spotify.enabled))),
        c.spotify.client_id@ != d.spotify.client_id@ ==> has_line(integration_lines(p, c, d), assignment("services.subniri.settings.spotify.clientId"@, nix_string_spec(c.spotify.client_id@))),
        c.system_menu.widgets@ != d.system_menu.widgets@ ==> has_line(integration_lines(p, c, d), assignment("services.subniri.settings.systemMenu.widgets"@, nix_list_spec(c.system_menu.widgets@.map_values(|w: SystemMenuWidgets| system_menu_widget_name_spec(w))))),
        c.launcher.providers@ != d.launcher.providers@ ==> has_line(integration_lines(p, c, d), assignment("services.subniri.settings.launcher.providers"@, nix_list_spec(c.launcher.providers@.map_values(|p: LauncherProvider| launcher_provider_name_spec(p))))),
{
    let e1 = entry("services.subniri.settings.homeassistant.enable"@, c.homeassistant.enabled != d.homeassistant.enabled, bool_text(c.homeassistant.enabled));
    let e2 = entry("services.subniri.settings.homeassistant.url"@, !same_url(c.homeassistant.url, d.homeassistant.url), nix_url_spec(c.homeassistant.url));
    let e3 = entry("services.subniri.settings.homeassistant.trackedDevices"@, string_views(c.homeassistant.tracked_devices@) != string_views(d.homeassistant.tracked_devices@), nix_list_spec(string_views(c.homeassistant.tracked_devices@)));
    let e4 = entry("services.subniri.settings.spotify.enable"@, c.spotify.enabled != d.spotify.enabled, bool_text(c.spotify.enabled));
    let e5 = entry("services.subniri.settings.spotify.clientId"@, c.spotify.client_id@ != d.spotify.client_id@, nix_string_spec(c.spotify.client_id@));
    let e6 = entry("services.subniri.settings.systemMenu.widgets"@, c.system_menu.widgets@ != d.system_menu.widgets@, nix_list_spec(c.system_menu.widgets@.map_values(|w: SystemMenuWidgets| system_menu_widget_name_spec(w))));
    let e7 = entry("services.subniri.settings.launcher.providers"@, c.launcher.providers@ != d.launcher.providers@, nix_list_spec(c.launcher.providers@.map_values(|p: LauncherProvider| launcher_provider_name_spec(p))));
    let l0: Seq<Seq<char>> = seq![p];
    lemma_joined_single(p);
    let l1 = l0.push(e1);
    lemma_joined_push(l0, e1);
    let l2 = l1.push(e2);
    lemma_joined_push(l1, e2);
    let l3 = l2.push(e3);
    lemma_joined_push(l2, e3);
    let l4 = l3.push(e4);
    lemma_joined_push(l3, e4);
    let l5 = l4.push(e5);
    lemma_joined_push(l4, e5);
    let l6 = l5.push(e6);
    lemma_joined_push(l5, e6);
    let l7 = l6.push(e7);
    lemma_joined_push(l6, e7);
    assert(joined(l7) == integration_lines(p, c, d));
    assert forall|k: int| 1 <= k < l7.len() implies has_line(integration_lines(p, c, d), #[trigger] l7[k]) by {
        lemma_joined_has(l7, k);
    }
    assert(has_line(integration_lines(p, c, d), l7[1]));
    assert(has_line(integration_lines(p, c, d), l7[2]));
    assert(has_line(integration_lines(p, c, d), l7[3]));
    assert(has_line(integration_lines(p, c, d), l7[4]));
    assert(has_line(integration_lines(p, c, d), l7[5]));
    assert(has_line(integration_lines(p, c, d), l7[6]));
    assert(has_line(integration_lines(p, c, d), l7[7]));
    assert forall|x: Seq<char>| has_line(p, x) implies #[trigger] has_line(integration_lines(p, c, d), x) by {
        lemma_joined_keeps(l7, 0, x);
    }
}

/// The fuzzy search lines after `p` give each of those settings that differs as
/// `name = value;`, with the value taken from `c`.
proof fn lemma_fuzzy_search_lines_values(p: Seq<char>, c: ConfigFile, d: ConfigFile)
    ensures
        forall|x: Seq<char>| has_line(p, x) ==> #[trigger] has_line(fuzzy_search_lines(p, c, d), x),
        c.launcher.fuzzy_search.min_chars != d.launcher.fuzzy_search.min_chars ==> has_line(fuzzy_search_lines(p, c, d), assignment("services.subniri.settings.launcher.fuzzy_search."@ + "min_chars"@, decimal(c.launcher.fuzzy_search.min_chars as nat))),
        c.launcher.fuzzy_search.short_query_chars != d.launcher.fuzzy_search.short_query_chars ==> has_line(fuzzy_search_lines(p, c, d), assignment("services.subniri.settings.launcher.fuzzy_search."@ + "short.chars"@, decimal(c.launcher.fuzzy_search.short_query_chars as nat))),
        c.launcher.fuzzy_search.short_max_distance != d.launcher.fuzzy_search.short_max_distance ==> has_line(fuzzy_search_lines(p, c, d), assignment("services.subniri.settings.launcher.fuzzy_search."@ + "short.distance"@, decimal(c.launcher.fuzzy_search.short_max_distance as nat))),
        c.launcher.fuzzy_search.medium_query_chars != d.launcher.fuzzy_search.medium_query_chars ==> has_line(fuzzy_search_lines(p, c, d), assignment("services.subniri.settings.launcher.fuzzy_search."@ + "medium.chars"@, decimal(c.launcher.fuzzy_search.medium_query_chars as nat))),
        c.launcher.fuzzy_search.medium_max_distance != d.launcher.fuzzy_search.medium_max_distance ==> has_line(fuzzy_search_lines(p, c, d), assignment("services.subniri.settings.launcher.fuzzy_search."@ + "medium.distance"@, decimal(c.launcher.fuzzy_search.medium_max_distance as nat))),
        c.launcher.fuzzy_search.long_max_distance != d.launcher.fuzzy_search.long_max_distance ==> has_line(fuzzy_search_lines(p, c, d), assignment("services.subniri.settings.launcher.fuzzy_search."@ + "long.distance"@, decimal(c.launcher.fuzzy_search.long_max_distance as nat))),
{
    let (x, y) = (c.launcher.fuzzy_search, d.launcher.fuzzy_search);
    let e1 = entry("services.subniri.settings.launcher.fuzzy_search."@ + "min_chars"@, x.min_chars != y.min_chars, decimal(x.min_chars as nat));
    let e2 = entry("services.subniri.settings.launcher.fuzzy_search."@ + "short.chars"@, x.short_query_chars != y.short_query_chars, decimal(x.short_query_chars as nat));
    let e3 = entry("services.subniri.settings.launcher.fuzzy_search."@ + "short.distance"@, x.short_max_distance != y.short_max_distance, decimal(x.short_max_distance as nat));
    let e4 = entry("services.subniri.settings.launcher.fuzzy_search."@ + "medium.chars"@, x.medium_query_chars != y.medium_query_chars, decimal(x.medium_query_chars as nat));
    let e5 = entry("services.subniri.settings.launcher.fuzzy_search."@ + "medium.distance"@, x.medium_max_distance != y.medium_max_distance, decimal(x.medium_max_distance as nat));
    let e6 = entry("services.subniri.settings.launcher.fuzzy_search."@ + "long.distance"@, x.long_max_distance != y.long_max_distance, decimal(x.long_max_distance as nat));
    let l0: Seq<Seq<char>> = seq![p];
    lemma_joined_single(p);
    let l1 = l0.push(e1);
    lemma_joined_push(l0, e1);
    let l2 = l1.push(e2);
    lemma_joined_push(l1, e2);
    let l3 = l2.push(e3);
    lemma_joined_push(l2, e3);
    let l4 = l3.push(e4);
    lemma_joined_push(l3, e4);
    let l5 = l4.push(e5);
    lemma_joined_push(l4, e5);
    let l6 = l5.push(e6);
    lemma_joined_push(l5, e6);
    assert(joined(l6) == fuzzy_search_lines(p, c, d));
    assert forall|k: int| 1 <= k < l6.len() implies has_line(fuzzy_search_lines(p, c, d), #[trigger] l6[k]) by {
        lemma_joined_has(l6, k);
    }
    assert(has_line(fuzzy_search_lines(p, c, d), l6[1]));
    assert(has_line(fuzzy_search_lines(p, c, d), l6[2]));
    assert(has_line(fuzzy_search_lines(p, c, d), l6[3]));
    assert(has_line(fuzzy_search_lines(p, c, d), l6[4]));
    assert(has_line(fuzzy_search_lines(p, c, d), l6[5]));
    assert(has_line(fuzzy_search_lines(p, c, d), l6[6]));
    assert forall|x: Seq<char>| has_line(p, x) implies #[trigger] has_line(fuzzy_search_lines(p, c, d), x) by {
        lemma_joined_keeps(l6, 0, x);
    }
}

/// The indexing lines after `p` give each of those settings that differs as
/// `name = value;`, with the value taken from `c`.
proof fn lemma_indexing_lines_values(p: Seq<char>, c: ConfigFile, d: ConfigFile)
    ensures
        forall|x: Seq<char>| has_line(p, x) ==> #[trigger] has_line(indexing_lines(p, c, d), x),
        c.indexing.enabled != d.indexing.enabled ==> has_line(indexing_lines(p, c, d), assignment("services.subniri.icepickd.enable"@, bool_text(c.indexing.enabled))),
{
    let e1 = entry("services.subniri.icepickd.enable"@, c.indexing.enabled != d.indexing.enabled, bool_text(c.indexing.enabled));
    let l0: Seq<Seq<char>> = seq![p];
    lemma_joined_single(p);
    let l1 = l0.push(e1);
    lemma_joined_push(l0, e1);
    assert(joined(l1) == indexing_lines(p, c, d));
    assert forall|k: int| 1 <= k < l1.len() implies has_line(indexing_lines(p, c, d), #[trigger] l1[k]) by {
        lemma_joined_has(l1, k);
    }
    assert(has_line(indexing_lines(p, c, d), l1[1]));
    assert forall|x: Seq<char>| has_line(p, x) implies #[trigger] has_line(indexing_lines(p, c, d), x) by {
        lemma_joined_keeps(l1, 0, x);
    }
}

/// Every setting that differs gets its own line in the Nix diff, `name = value;`, naming
/// the setting's Nix option and giving the effective configuration's value of that
/// setting, written as Nix writes it.
pub proof fn lemma_nix_diff_lines_give_the_effective_values(c: ConfigFile, d: ConfigFile)
    ensures
        c.nightlight.enabled != d.nightlight.enabled ==> has_line(nix_diff_spec(c, d), assignment("services.subniri.settings.nightlight.enable"@, bool_text(c.nightlight.enabled))),
        c.nightlight.use_location != d.nightlight.use_location ==> has_line(nix_diff_spec(c, d), assignment("services.subniri.settings.nightlight.useLocation"@, bool_text(c.nightlight.use_location))),
        !same_time(c.nightlight.dawn, d.nightlight.dawn) ==> has_line(nix_diff_spec(c, d), assignment("services.subniri.settings.nightlight.dawn"@, nix_time_spec(c.nightlight.dawn))),
        !same_time(c.nightlight.dusk, d.nightlight.dusk) ==> has_line(nix_diff_spec(c, d), assignment("services.subniri.settings.nightlight.dusk"@, nix_time_spec(c.nightlight.dusk))),
        c.nightlight.day.temperature != d.nightlight.day.temperature ==> has_line(nix_diff_spec(c, d), assignment("services.subniri.settings.nightlight.day.temperature"@, decimal(c.nightlight.day.temperature as nat))),
        !float_text_eq(c.nightlight.day.brightness@, d.nightlight.day.brightness@) ==> has_line(nix_diff_spec(c, d), assignment("services.subniri.settings.nightlight.day.brightness"@, c.nightlight.day.brightness@)),
        c.nightlight.night.temperature != d.nightlight.night.temperature ==> has_line(nix_diff_spec(c, d), assignment("services.subniri.settings.nightlight.night.temperature"@, decimal(c.nightlight.night.temperature as nat))),
        !float_text_eq(c.nightlight.night.brightness@, d.nightlight.night.brightness@) ==> has_line(nix_diff_spec(c, d), assignment("services.subniri.settings.nightlight.night.brightness"@, c.nightlight.night.brightness@)),
        c.nightlight.debounce_ms != d.nightlight.debounce_ms ==> has_line(nix_diff_spec(c, d), assignment("services.subniri.settings.nightlight.debounceMs"@, decimal(c.nightlight.debounce_ms as nat))),
        c.homeassistant.enabled != d.homeassistant.enabled ==> has_line(nix_diff_spec(c, d), assignment("services.subniri.settings.homeassistant.enable"@, bool_text(c.homeassistant.enabled))),
        !same_url(c.homeassistant.url, d.homeassistant.url) ==> has_line(nix_diff_spec(c, d), assignment("services.subniri.settings.homeassistant.url"@, nix_url_spec(c.homeassistant.url))),
        string_views(c.homeassistant.tracked_devices@) != string_views(d.homeassistant.tracked_devices@) ==> has_line(nix_diff_spec(c, d), assignment("services.subniri.settings.homeassistant.trackedDevices"@, nix_list_spec(string_views(c.homeassistant.tracked_devices@)))),
        c.spotify.enabled != d.spotify.enabled ==> has_line(nix_diff_spec(c, d), assignment("services.subniri.settings.spotify.enable"@, bool_text(c.spotify.enabled))),
        c.spotify.client_id@ != d.spotify.client_id@ ==> has_line(nix_diff_spec(c, d), assignment("services.subniri.settings.spotify.clientId"@, nix_string_spec(c.spotify.client_id@))),
        c.system_menu.widgets@ != d.system_menu.widgets@ ==> has_line(nix_diff_spec(c, d), assignment("services.subniri.settings.systemMenu.widgets"@, nix_list_spec(c.system_menu.widgets@.map_values(|w: SystemMenuWidgets| system_menu_widget_name_spec(w))))),
        c.launcher.providers@ != d.launcher.providers@ ==> has_line(nix_diff_spec(c, d), assignment("services.subniri.settings.launcher.providers"@, nix_list_spec(c.launcher.providers@.map_values(|p: LauncherProvider| launcher_provider_name_spec(p))))),
        c.launcher.fuzzy_search.min_chars != d.launcher.fuzzy_search.min_chars ==> has_line(nix_diff_spec(c, d), assignment("services.subniri.settings.launcher.fuzzy_search."@ + "min_chars"@, decimal(c.launcher.fuzzy_search.min_chars as nat))),
        c.launcher.fuzzy_search.short_query_chars != d.launcher.fuzzy_search.short_query_chars ==> has_line(nix_diff_spec(c, d), assignment("services.subniri.settings.launcher.fuzzy_search."@ + "short.chars"@, decimal(c.launcher.fuzzy_search.short_query_chars as nat))),
        c.launcher.fuzzy_search.short_max_distance != d.launcher.fuzzy_search.short_max_distance ==> has_line(nix_diff_spec(c, d), assignment("services.subniri.settings.launcher.fuzzy_search."@ + "short.distance"@, decimal(c.launcher.fuzzy_search.short_max_distance as nat))),
        c.launcher.fuzzy_search.medium_query_chars != d.launcher.fuzzy_search.medium_query_chars ==> has_line(nix_diff_spec(c, d), assignment("services.subniri.settings.launcher.fuzzy_search."@ + "medium.chars"@, decimal(c.launcher.fuzzy_search.medium_query_chars as nat))),
        c.launcher.fuzzy_search.medium_max_distance != d.launcher.fuzzy_search.medium_max_distance ==> has_line(nix_diff_spec(c, d), assignment("services.subniri.settings.launcher.fuzzy_search."@ + "medium.distance"@, decimal(c.launcher.fuzzy_search.medium_max_distance as nat))),
        c.launcher.fuzzy_search.long_max_distance != d.launcher.fuzzy_search.long_max_distance ==> has_line(nix_diff_spec(c, d), assignment("services.subniri.settings.launcher.fuzzy_search."@ + "long.distance"@, decimal(c.launcher.fuzzy_search.long_max_distance as nat))),
        c.indexing.enabled != d.indexing.enabled ==> has_line(nix_diff_spec(c, d), assignment("services.subniri.icepickd.enable"@, bool_text(c.indexing.enabled))),
{
    let e = Seq::<char>::empty();
    let n = nightlight_lines(e, c, d);
    let i = integration_lines(n, c, d);
    let f = fuzzy_search_lines(i, c, d);
    lemma_nightlight_lines_values(e, c, d);
    lemma_integration_lines_values(n, c, d);
    lemma_fuzzy_search_lines_values(i, c, d);
    lemma_indexing_lines_values(f, c, d);
}

/// A configuration has no Nix diff against itself, as long as no brightness is NaN (which
/// equals no number, itself included).
pub proof fn lemma_nix_diff_of_itself_is_empty(c: ConfigFile)
    requires
        c.nightlight.day.brightness@ != "NaN"@,
        c.nightlight.night.brightness@ != "NaN"@,
    ensures
        nix_diff_spec(c, c) == Seq::<char>::empty(),
{
    let e = Seq::<char>::empty();
    assert(nightlight_lines(e, c, c) =~= e);
    assert(integration_lines(e, c, c) =~= e);
    assert(fuzzy_search_lines(e, c, c) =~= e);
    assert(indexing_lines(e, c, c) =~= e);
}

/// Two configurations have no Nix diff exactly when they hold the same settings: each
/// setting that differs gives a line of its own, and a setting that agrees gives none.
pub proof fn lemma_nix_diff_empty_iff_same_settings(c: ConfigFile, d: ConfigFile)
    ensures
        nix_diff_spec(c, d).len() == 0 <==> same_config(c, d),
{
    reveal_strlit(";\n");
    assert(";\n"@.len() == 2);
    let e = Seq::<char>::empty();
    if same_config(c, d) {
        assert(nightlight_lines(e, c, d) =~= e);
        assert(integration_lines(e, c, d) =~= e);
        assert(fuzzy_search_lines(e, c, d) =~= e);
        assert(indexing_lines(e, c, d) =~= e);
    }
}

impl ConfigFile {
    /// The Nix module settings that differ between this configuration and `declarative`,
    /// one `name = value;` line each.
    pub fn nix_diff(&self, declarative: &ConfigFile) -> (s: String)
        requires
            config_times_wf(*self),
        ensures
            s@ == nix_diff_spec(*self, *declarative),
    {
        let mut out = String::new();
        push_nightlight_lines(&mut out, self, declarative);
        push_integration_lines(&mut out, self, declarative);
        push_fuzzy_search_lines(&mut out, self, declarative);
        push_indexing_lines(&mut out, self, declarative);
        out
    }
}

} // verus!
