use vstd::prelude::*;

use crate::logs::{jiff_signed_duration_parse, parse_duration_secs, whole_seconds_spec, DurationError};

verus! {

/// The presets that the command line offers.
#[derive(Debug, Clone, Copy, PartialEq, Eq, Structural)]
pub enum CliPreset {
    Day,
    Night,
}

/// A nightlight command of the command line. The brightness is the bit pattern of the
/// `f64` given.
#[derive(Debug, Clone)]
pub enum NightlightSubcommand {
    SetBrightness { brightness_bits: u64 },
    SetTemperature { temperature: u32 },
    Preset { preset: CliPreset },
    Suspend { duration: String },
    Unsuspend,
    Enable,
    Disable,
    Toggle,
}

/// The call made on the daemon's nightlight interface.
#[derive(Debug, Clone, Copy)]
pub enum NightlightCall {
    SetBrightness(u64),
    SetTemperature(u32),
    SetPreset(&'static str),
    Suspend(u64),
    Unsuspend,
    SetEnabled(bool),
    Toggle,
}

/// The daemon call for a nightlight command: presets by their bus names, a suspension by
/// its duration in whole seconds (rounded up); a duration that does not parse or is
/// negative is refused.
pub fn nightlight_call(cmd: &NightlightSubcommand) -> (r: Result<NightlightCall, DurationError>)
    ensures
        match *cmd {
            NightlightSubcommand::SetBrightness { brightness_bits } => r == Ok::<NightlightCall, DurationError>(NightlightCall::SetBrightness(brightness_bits)),
            NightlightSubcommand::SetTemperature { temperature } => r == Ok::<NightlightCall, DurationError>(NightlightCall::SetTemperature(temperature)),
            NightlightSubcommand::Preset { preset } => r matches Ok(NightlightCall::SetPreset(name))
                && name@ == if preset == CliPreset::Day { "day"@ } else { "night"@ },
            NightlightSubcommand::Suspend { duration } => match jiff_signed_duration_parse(duration@) {
                Err(m) => r matches Err(DurationError::Invalid(e)) && e@ == m,
                Ok((s, n)) => match whole_seconds_spec(s, n) {
                    Some(k) => r == Ok::<NightlightCall, DurationError>(NightlightCall::Suspend(k)),
                    None => r matches Err(DurationError::Negative),
                },
            },
            NightlightSubcommand::Unsuspend => r == Ok::<NightlightCall, DurationError>(NightlightCall::Unsuspend),
            NightlightSubcommand::Enable => r == Ok::<NightlightCall, DurationError>(NightlightCall::SetEnabled(true)),
            NightlightSubcommand::Disable => r == Ok::<NightlightCall, DurationError>(NightlightCall::SetEnabled(false)),
            NightlightSubcommand::Toggle => r == Ok::<NightlightCall, DurationError>(NightlightCall::Toggle),
        },
{
    match cmd {
        NightlightSubcommand::SetBrightness { brightness_bits } => Ok(NightlightCall::SetBrightness(*brightness_bits)),
        NightlightSubcommand::SetTemperature { temperature } => Ok(NightlightCall::SetTemperature(*temperature)),
        NightlightSubcommand::Preset { preset } => {
            proof {
                reveal_strlit("day");
                reveal_strlit("night");
            }
            match preset {
                CliPreset::Day => Ok(NightlightCall::SetPreset("day")),
                CliPreset::Night => Ok(NightlightCall::SetPreset("night")),
            }
        },
        NightlightSubcommand::Suspend { duration } => match parse_duration_secs(duration.as_str()) {
            Ok(secs) => Ok(NightlightCall::Suspend(secs)),
            Err(e) => Err(e),
        },
        NightlightSubcommand::Unsuspend => Ok(NightlightCall::Unsuspend),
        NightlightSubcommand::Enable => Ok(NightlightCall::SetEnabled(true)),
        NightlightSubcommand::Disable => Ok(NightlightCall::SetEnabled(false)),
        NightlightSubcommand::Toggle => Ok(NightlightCall::Toggle),
    }
}

/// A launcher command of the command line.
#[derive(Debug, Clone, Copy, PartialEq, Eq, Structural)]
pub enum LauncherCommand {
    Open,
    Close,
    Exit,
}

/// What the command line does for a launcher command.
#[derive(Debug, Clone, Copy, PartialEq, Eq, Structural)]
pub enum LauncherStep {
    Open,
    Close,
    /// Exit the launcher daemon without asking.
    Exit,
    /// Ask first, and exit the daemon only when the answer is yes.
    ConfirmExit,
}

/// What to do for a launcher command: opening and closing go straight through; exiting
/// the daemon is confirmed first unless `--yes` was given.
pub fn launcher_step(cmd: LauncherCommand, yes: bool) -> (s: LauncherStep)
    ensures
        s == match cmd {
            LauncherCommand::Open => LauncherStep::Open,
            LauncherCommand::Close => LauncherStep::Close,
            LauncherCommand::Exit => if yes { LauncherStep::Exit } else { LauncherStep::ConfirmExit },
        },
{
    match cmd {
        LauncherCommand::Open => LauncherStep::Open,
        LauncherCommand::Close => LauncherStep::Close,
        LauncherCommand::Exit => if yes { LauncherStep::Exit } else { LauncherStep::ConfirmExit },
    }
}

} // verus!
