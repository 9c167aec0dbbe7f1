use subniri::config::{CivilTime, ConfigFile, LauncherProvider};
use subniri::nix::{nix_list, nix_string, nix_time};

#[test]
fn nix_diff_contains_only_changed_assignments() {
    let base = ConfigFile::default();
    let mut effective = base.clone();
    effective.spotify.enabled = true;
    effective.spotify.client_id = "client\"${id}".to_string();

    assert_eq!(
        effective.nix_diff(&base),
        "services.subniri.settings.spotify.enable = true;\n\
         services.subniri.settings.spotify.clientId = \"client\\\"\\${id}\";\n"
    );
}

#[test]
fn an_unchanged_configuration_has_an_empty_diff() {
    let base = ConfigFile::default();
    assert_eq!(base.nix_diff(&base.clone()), "");
}

#[test]
fn nightlight_times_are_written_as_hours_and_minutes() {
    let base = ConfigFile::default();
    let mut effective = base.clone();
    effective.nightlight.dusk = CivilTime::new(21, 5, 0, 0);
    assert_eq!(
        effective.nix_diff(&base),
        "services.subniri.settings.nightlight.dusk = \"21:05\";\n"
    );
    assert_eq!(nix_time(&None), "null");
    assert_eq!(nix_time(&CivilTime::new(7, 0, 0, 0)), "\"07:00\"");
}

#[test]
fn nix_strings_escape_quotes_interpolation_and_control_characters() {
    assert_eq!(nix_string("a\"b\\c${d}\n\r\t"), "\"a\\\"b\\\\c\\${d}\\n\\r\\t\"");
    assert_eq!(nix_string("$x {y}"), "\"$x {y}\"");
    assert_eq!(nix_list(&vec!["a".to_string(), "b c".to_string()]), "[\"a\" \"b c\"]");
    assert_eq!(nix_list(&Vec::new()), "[]");
}

#[test]
fn defaults_and_providers() {
    let c = ConfigFile::default();
    assert_eq!(c.nightlight.debounce_ms, 500);
    assert_eq!(c.nightlight.day.temperature, 6500);
    assert_eq!(c.nightlight.night.temperature, 2500);
    assert_eq!(c.nightlight.night.brightness, "0.7");
    assert!(!c.spotify.enabled);
    assert_eq!(
        LauncherProvider::all(),
        vec![
            LauncherProvider::Calculator,
            LauncherProvider::Applications,
            LauncherProvider::Files
        ]
    );
    assert!(CivilTime::new(24, 0, 0, 0).is_none());
    assert!(CivilTime::new(23, 59, 59, 999_999_999).is_some());
}

#[test]
fn the_diff_is_empty_exactly_when_the_settings_agree() {
    let base = ConfigFile::default();
    let mut other = base.clone();
    other.launcher.fuzzy_search.long_max_distance = 4;
    assert!(!other.same_settings(&base));
    assert_eq!(
        other.nix_diff(&base),
        "services.subniri.settings.launcher.fuzzy_search.long.distance = 4;\n"
    );
    other.launcher.fuzzy_search.long_max_distance = base.launcher.fuzzy_search.long_max_distance;
    assert!(other.same_settings(&base));
    assert_eq!(other.nix_diff(&base), "");
}

#[test]
fn brightness_is_compared_as_a_number() {
    let base = ConfigFile::default();
    let mut a = base.clone();
    let mut b = base.clone();
    a.nightlight.day.brightness = "-0".to_string();
    b.nightlight.day.brightness = "0".to_string();
    assert!(a.same_settings(&b));
    assert_eq!(a.nix_diff(&b), "");
    b.nightlight.day.brightness = "0.5".to_string();
    assert_eq!(a.nix_diff(&b), "services.subniri.settings.nightlight.day.brightness = -0;\n");
    a.nightlight.night.brightness = "NaN".to_string();
    assert_eq!(a.nix_diff(&a.clone()), "services.subniri.settings.nightlight.night.brightness = NaN;\n");
}
