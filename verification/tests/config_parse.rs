use subniri::config::{LauncherProvider, SystemMenuWidgets};
use subniri::config_parse::parse_config;
use subniri::config_value::ConfigError;

#[test]
fn an_empty_file_gives_the_defaults() {
    let (nodes, c) = parse_config("").unwrap();
    assert!(nodes.is_empty());
    assert!(!c.nightlight.enabled);
    assert_eq!(c.nightlight.dawn.map(|t| (t.hour, t.minute)), Some((7, 0)));
    assert_eq!(c.nightlight.dusk.map(|t| (t.hour, t.minute)), Some((20, 0)));
    assert_eq!(c.nightlight.day.temperature, 6500);
    assert_eq!(c.nightlight.night.brightness, "0.7");
    assert_eq!(c.nightlight.debounce_ms, 500);
    assert_eq!(c.launcher.providers, vec![LauncherProvider::Calculator, LauncherProvider::Applications, LauncherProvider::Files]);
    assert_eq!(c.launcher.fuzzy_search.medium_query_chars, 7);
    assert!(c.indexing.enabled);
    assert!(c.system_menu.widgets.is_empty());
}

#[test]
fn every_section_is_read() {
    let text = r#"
nightlight {
    enabled
    dawn "06:30"
    dusk #null
    day { temperature 6000; brightness 1; }
    night { temperature 3000; brightness 0.5; }
}
spotify { enabled #true; client_id "abc"; }
system_menu { widgets "wifi" "vpn"; }
launcher { providers "nix"; fuzzy_search { min_chars 2; }; }
homeassistant { url "https://ha.local"; tracked_devices { - "a"; - "b"; }; }
indexing { enabled #false; }
"#;
    let (nodes, c) = parse_config(text).unwrap();
    assert_eq!(nodes.len(), 6);
    assert!(c.nightlight.enabled);
    assert_eq!(c.nightlight.dawn.map(|t| (t.hour, t.minute)), Some((6, 30)));
    assert!(c.nightlight.dusk.is_none());
    assert_eq!((c.nightlight.day.temperature, c.nightlight.day.brightness.as_str()), (6000, "1"));
    assert_eq!((c.nightlight.night.temperature, c.nightlight.night.brightness.as_str()), (3000, "0.5"));
    assert!(c.spotify.enabled);
    assert_eq!(c.spotify.client_id, "abc");
    assert_eq!(c.system_menu.widgets, vec![SystemMenuWidgets::Wifi, SystemMenuWidgets::Vpn]);
    // Providers given in the file take the place of the default ones.
    assert_eq!(c.launcher.providers, vec![LauncherProvider::Nix]);
    assert_eq!(c.launcher.fuzzy_search.min_chars, 2);
    assert_eq!(c.launcher.fuzzy_search.short_query_chars, 4);
    assert_eq!(c.homeassistant.url.as_deref(), Some("https://ha.local/"));
    assert_eq!(c.homeassistant.tracked_devices, vec!["a".to_string(), "b".to_string()]);
    assert!(!c.indexing.enabled);
}

#[test]
fn errors_name_the_field_and_carry_the_text() {
    let text = "nightlight { bogus 1; }";
    match parse_config(text) {
        Err(ConfigError::UnknownField { name, span, src }) => {
            assert_eq!(name, "bogus");
            assert!(span.is_some());
            assert_eq!(src.as_deref(), Some(text));
        },
        other => panic!("unexpected {other:?}"),
    }
    match parse_config("spotify {}\nspotify {}") {
        Err(ConfigError::DuplicateField { name, .. }) => assert_eq!(name, "spotify"),
        other => panic!("unexpected {other:?}"),
    }
    match parse_config("nightlight { day { brightness 0.5; }; }") {
        Err(ConfigError::MissingField { name, span, .. }) => {
            assert_eq!(name, "temperature");
            assert!(span.is_some());
        },
        other => panic!("unexpected {other:?}"),
    }
    match parse_config("system_menu { widgets \"foo\"; }") {
        Err(ConfigError::WrongTypeExpected { expected, .. }) => {
            assert_eq!(expected, "wifi, bluetooth, speaker, microphone, vpn, nightlight")
        },
        other => panic!("unexpected {other:?}"),
    }
    match parse_config("nightlight {") {
        Err(ConfigError::ParseError(m)) => assert_eq!(m, "Failed to parse KDL document"),
        other => panic!("unexpected {other:?}"),
    }
}

#[test]
fn an_integer_brightness_reads_as_its_digits() {
    let (_, c) = parse_config("nightlight { day { temperature 4000; brightness 1; }; night { temperature 2000; brightness -3; }; }").unwrap();
    assert_eq!(c.nightlight.day.brightness, (1i128 as f64).to_string());
    assert_eq!(c.nightlight.night.brightness, (-3i128 as f64).to_string());
}

#[test]
fn later_provider_lists_add_to_the_first() {
    let (_, c) = parse_config("launcher { providers \"nix\"; providers \"files\" \"calculator\"; }").unwrap();
    assert_eq!(c.launcher.providers, vec![LauncherProvider::Nix, LauncherProvider::Files, LauncherProvider::Calculator]);
}
