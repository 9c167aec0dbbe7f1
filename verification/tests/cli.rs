use subniri::cli::{launcher_step, nightlight_call, CliPreset, LauncherCommand, LauncherStep, NightlightCall, NightlightSubcommand};
use subniri::logs::DurationError;

#[test]
fn nightlight_commands_become_daemon_calls() {
    assert!(matches!(
        nightlight_call(&NightlightSubcommand::Preset { preset: CliPreset::Night }),
        Ok(NightlightCall::SetPreset("night"))
    ));
    assert!(matches!(
        nightlight_call(&NightlightSubcommand::Suspend { duration: "1m 30.5s".to_owned() }),
        Ok(NightlightCall::Suspend(91))
    ));
    assert!(matches!(
        nightlight_call(&NightlightSubcommand::Suspend { duration: "-5m".to_owned() }),
        Err(DurationError::Negative)
    ));
    assert!(matches!(
        nightlight_call(&NightlightSubcommand::Suspend { duration: "later".to_owned() }),
        Err(DurationError::Invalid(_))
    ));
    assert!(matches!(nightlight_call(&NightlightSubcommand::Disable), Ok(NightlightCall::SetEnabled(false))));
    let bits = 0.5f64.to_bits();
    assert!(matches!(
        nightlight_call(&NightlightSubcommand::SetBrightness { brightness_bits: bits }),
        Ok(NightlightCall::SetBrightness(b)) if b == bits
    ));
}

#[test]
fn exiting_the_launcher_asks_unless_told_yes() {
    assert_eq!(launcher_step(LauncherCommand::Exit, false), LauncherStep::ConfirmExit);
    assert_eq!(launcher_step(LauncherCommand::Exit, true), LauncherStep::Exit);
    assert_eq!(launcher_step(LauncherCommand::Open, false), LauncherStep::Open);
}
