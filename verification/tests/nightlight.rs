use subniri::config::{CivilTime, Nightlight};
use subniri::nightlight::{
    current_preset, preset_at, requested_preset, seconds_since_midnight, time_cron, DesiredState,
    GammaController, GammaSetting, NightlightError, NightlightPreset, PresetReconciler,
    FULL_BRIGHTNESS_BITS, NEUTRAL_TEMPERATURE,
};

#[test]
fn presets_have_names_and_parse_back() {
    assert_eq!(NightlightPreset::Day.as_str(), "day");
    assert_eq!(NightlightPreset::Night.as_str(), "night");
    assert_eq!(NightlightPreset::Custom.as_str(), "custom");
    for p in [NightlightPreset::Day, NightlightPreset::Night, NightlightPreset::Custom] {
        assert_eq!(NightlightPreset::parse(p.as_str()).unwrap(), p);
    }
    assert_eq!(NightlightPreset::parse("Night").unwrap(), NightlightPreset::Night);
    match NightlightPreset::parse("dusk") {
        Err(e) => assert_eq!(e.message(), "invalid nightlight preset: dusk"),
        Ok(p) => panic!("parsed {p:?}"),
    }
}

#[test]
fn the_schedule_picks_day_between_dawn_and_dusk() {
    let dawn = 7 * 3600;
    let dusk = 20 * 3600;
    assert_eq!(preset_at(dawn, dawn, dusk), NightlightPreset::Day);
    assert_eq!(preset_at(dusk - 1, dawn, dusk), NightlightPreset::Day);
    assert_eq!(preset_at(dusk, dawn, dusk), NightlightPreset::Night);
    assert_eq!(preset_at(3 * 3600, dawn, dusk), NightlightPreset::Night);
    assert_eq!(preset_at(23 * 3600, 22 * 3600, 6 * 3600), NightlightPreset::Day);
    assert_eq!(preset_at(5 * 3600, 22 * 3600, 6 * 3600), NightlightPreset::Day);
    assert_eq!(preset_at(12 * 3600, 22 * 3600, 6 * 3600), NightlightPreset::Night);
}

#[test]
fn schedule_times_and_cron_expressions() {
    let t = CivilTime::new(20, 30, 5, 0).unwrap();
    assert_eq!(seconds_since_midnight(t), 73805);
    assert_eq!(time_cron(t), "5 30 20 * * *");
    assert_eq!(time_cron(CivilTime::new(7, 0, 0, 0).unwrap()), "0 0 7 * * *");
    let config = Nightlight::default();
    assert_eq!(current_preset(&config, 12 * 3600), NightlightPreset::Day);
    assert_eq!(current_preset(&config, 21 * 3600), NightlightPreset::Night);
}

#[test]
fn presets_requested_by_name() {
    let config = Nightlight::default();
    let (p, s) = requested_preset(&config, "night").unwrap();
    assert_eq!(p, NightlightPreset::Night);
    assert_eq!(s.temperature, 2500);
    assert_eq!(s.brightness, "0.7");
    assert!(matches!(requested_preset(&config, "custom"), Err(NightlightError::CustomNotSettable)));
    assert!(matches!(requested_preset(&config, "x"), Err(NightlightError::InvalidPreset(_))));
    assert_eq!(NightlightError::CustomNotSettable.message(), "custom is not a settable preset");
}

#[test]
fn the_reconciler_applies_only_changes() {
    let mut r = PresetReconciler::new(NightlightPreset::Day);
    assert_eq!(r.tick(NightlightPreset::Day), None);
    assert_eq!(r.tick(NightlightPreset::Night), Some(NightlightPreset::Night));
    assert_eq!(r.tick(NightlightPreset::Night), Some(NightlightPreset::Night));
    r.applied(NightlightPreset::Night);
    assert_eq!(r.tick(NightlightPreset::Night), None);
}

#[test]
fn desired_state_transitions() {
    let d = DesiredState::default();
    assert!(!d.active);
    assert_eq!(d.brightness_bits, 1.0f32.to_bits());
    assert_eq!(d.effective_setting(), GammaSetting { brightness_bits: FULL_BRIGHTNESS_BITS, temperature: NEUTRAL_TEMPERATURE });
    let b = d.with_brightness(0.5f32.to_bits());
    assert!(b.active);
    assert_eq!(b.preset, NightlightPreset::Custom);
    assert_eq!(b.effective_setting().brightness_bits, 0.5f32.to_bits());
    let t = b.with_temperature(3000);
    assert_eq!(t.temperature, 3000);
    assert_eq!(t.toggled().toggled(), t);
    assert_eq!(t.toggled().effective_setting().temperature, 6500);
    let p = DesiredState::for_preset(NightlightPreset::Night, 0.7f32.to_bits(), 2500);
    assert!(p.active);
    assert_eq!(p.with_active(false).preset, NightlightPreset::Night);
}

#[test]
fn the_controller_writes_only_ramps_of_known_size() {
    let mut c = GammaController::new();
    c.push_output(10, 100);
    c.push_output(11, 101);
    assert!(c.has_output(10));
    assert!(!c.has_output(12));
    c.gamma_size(101, 256);
    assert!(c.pending_apply);
    let state = DesiredState::for_preset(NightlightPreset::Night, 0.7f32.to_bits(), 2500);
    assert_eq!(c.set_state(state), state);
    let plan = c.apply_due();
    assert!(!c.pending_apply);
    assert_eq!(plan.targets, vec![(101, 256)]);
    assert_eq!(plan.setting.temperature, 2500);
    let i = c.failed_control(101).unwrap();
    c.replace_control(i, 102);
    assert_eq!(c.apply_due().targets, Vec::<(u32, u32)>::new());
    let removed = c.remove_output(10).unwrap();
    assert_eq!(removed.control, 100);
    assert!(c.remove_output(10).is_none());
    assert_eq!(c.outputs.len(), 1);
}
