use vstd::prelude::*;

use crate::config::{CivilTime, Nightlight, NightlightSetting};
use crate::text::{decimal, decimal_string, push_str, str_eq};

verus! {

// ---------------------------------------------------------------------------
// Presets.
// ---------------------------------------------------------------------------

/// A nightlight preset: the configured day or night setting, or a custom one.
#[derive(Debug, Clone, Copy, PartialEq, Eq, Structural)]
pub enum NightlightPreset {
    Day,
    Night,
    Custom,
}

/// The name of a preset on the bus.
pub open spec fn preset_name(p: NightlightPreset) -> Seq<char> {
    match p {
        NightlightPreset::Day => "day"@,
        NightlightPreset::Night => "night"@,
        NightlightPreset::Custom => "custom"@,
    }
}

/// The preset that a name stands for: its bus name, or that name capitalised.
pub open spec fn parse_preset_spec(value: Seq<char>) -> Option<NightlightPreset> {
    if value == "day"@ || value == "Day"@ {
        Some(NightlightPreset::Day)
    } else if value == "night"@ || value == "Night"@ {
        Some(NightlightPreset::Night)
    } else if value == "custom"@ || value == "Custom"@ {
        Some(NightlightPreset::Custom)
    } else {
        None
    }
}

/// Why a nightlight request was refused.
#[derive(Debug)]
pub enum NightlightError {
    /// The value names no preset.
    InvalidPreset(String),
    /// The custom preset has no configured setting to switch to.
    CustomNotSettable,
    /// The nightlight is disabled in the configuration.
    Unavailable,
}

/// The message of a nightlight error.
pub open spec fn nightlight_error_text(e: NightlightError) -> Seq<char> {
    match e {
        NightlightError::InvalidPreset(v) => "invalid nightlight preset: "@ + v@,
        NightlightError::CustomNotSettable => "custom is not a settable preset"@,
        NightlightError::Unavailable => "Nightlight is not enabled. Enable it in the config."@,
    }
}

impl NightlightError {
    /// The message of the error.
    pub fn message(&self) -> (r: String)
        ensures
            r@ == nightlight_error_text(*self),
    {
        match self {
            NightlightError::InvalidPreset(v) => {
                let mut r = "invalid nightlight preset: ".to_owned();
                push_str(&mut r, v.as_str());
                r
            },
            NightlightError::CustomNotSettable => "custom is not a settable preset".to_owned(),
            NightlightError::Unavailable => "Nightlight is not enabled. Enable it in the config.".to_owned(),
        }
    }
}

impl NightlightPreset {
    /// The name of the preset on the bus.
    pub fn as_str(self) -> (r: &'static str)
        ensures
            r@ == preset_name(self),
    {
        match self {
            NightlightPreset::Day => "day",
            NightlightPreset::Night => "night",
            NightlightPreset::Custom => "custom",
        }
    }

    /// The preset that `value` names; an `InvalidPreset` error holding the value otherwise.
    pub fn parse(value: &str) -> (r: Result<NightlightPreset, NightlightError>)
        ensures
            parse_preset_spec(value@) matches Some(p) ==> r == Ok::<NightlightPreset, NightlightError>(p),
            parse_preset_spec(value@) is None ==> (r matches Err(NightlightError::InvalidPreset(v)) && v@ == value@),
    {
        if str_eq(value, "day") || str_eq(value, "Day") {
            Ok(NightlightPreset::Day)
        } else if str_eq(value, "night") || str_eq(value, "Night") {
            Ok(NightlightPreset::Night)
        } else if str_eq(value, "custom") || str_eq(value, "Custom") {
            Ok(NightlightPreset::Custom)
        } else {
            Err(NightlightError::InvalidPreset(value.to_owned()))
        }
    }
}

/// Parsing the name of a preset gives the preset back.
pub proof fn lemma_parse_preset_name(p: NightlightPreset)
    ensures
        parse_preset_spec(preset_name(p)) == Some(p),
{
    reveal_strlit("day");
    reveal_strlit("Day");
    reveal_strlit("night");
    reveal_strlit("Night");
    reveal_strlit("custom");
    reveal_strlit("Custom");
    assert("night"@.len() != "day"@.len() && "night"@.len() != "Day"@.len());
    assert("custom"@.len() != "day"@.len() && "custom"@.len() != "Day"@.len());
    assert("custom"@.len() != "night"@.len() && "custom"@.len() != "Night"@.len());
}

// ---------------------------------------------------------------------------
// The schedule.
// ---------------------------------------------------------------------------

/// Whether the second of the day `now` lies in the day that runs from `dawn` to `dusk`
/// (across midnight when dusk comes before dawn).
pub open spec fn is_day(now: int, dawn: int, dusk: int) -> bool {
    if dawn <= dusk {
        dawn <= now < dusk
    } else {
        now >= dawn || now < dusk
    }
}

/// The preset that the schedule asks for at second `now` of the day.
pub open spec fn preset_at_spec(now: int, dawn: int, dusk: int) -> NightlightPreset {
    if is_day(now, dawn, dusk) { NightlightPreset::Day } else { NightlightPreset::Night }
}

/// The preset that the schedule asks for at second `now` of the day.
pub fn preset_at(now: u32, dawn: u32, dusk: u32) -> (p: NightlightPreset)
    ensures
        p == preset_at_spec(now as int, dawn as int, dusk as int),
{
    let day = if dawn <= dusk {
        now >= dawn && now < dusk
    } else {
        now >= dawn || now < dusk
    };
    if day { NightlightPreset::Day } else { NightlightPreset::Night }
}

/// Seconds elapsed since midnight at a time of day.
pub fn seconds_since_midnight(time: CivilTime) -> (s: u32)
    requires
        time.wf(),
    ensures
        s == time.seconds_since_midnight_spec(),
{
    (time.hour as u32) * 3600 + (time.minute as u32) * 60 + (time.second as u32)
}

/// The schedule of a configuration has both its ends.
pub open spec fn schedule_set(config: Nightlight) -> bool {
    &&& config.dawn matches Some(d) && d.wf()
    &&& config.dusk matches Some(d) && d.wf()
}

/// The preset that the configured schedule asks for at second `now` of the day.
pub fn current_preset(config: &Nightlight, now: u32) -> (p: NightlightPreset)
    requires
        schedule_set(*config),
    ensures
        p == preset_at_spec(
            now as int,
            config.dawn.unwrap().seconds_since_midnight_spec(),
            config.dusk.unwrap().seconds_since_midnight_spec(),
        ),
{
    let dawn = match config.dawn {
        Some(t) => seconds_since_midnight(t),
        None => 0,
    };
    let dusk = match config.dusk {
        Some(t) => seconds_since_midnight(t),
        None => 0,
    };
    preset_at(now, dawn, dusk)
}

/// The cron expression that fires daily at a time of day: seconds, minutes, hours,
/// then three stars.
pub open spec fn time_cron_spec(t: CivilTime) -> Seq<char> {
    decimal(t.second as nat) + " "@ + decimal(t.minute as nat) + " "@ + decimal(t.hour as nat)
        + " * * *"@
}

/// The cron expression that fires daily at `time`.
pub fn time_cron(time: CivilTime) -> (s: String)
    requires
        time.wf(),
    ensures
        s@ == time_cron_spec(time),
{
    let mut s = decimal_string(time.second as u64);
    push_str(&mut s, " ");
    let m = decimal_string(time.minute as u64);
    push_str(&mut s, m.as_str());
    push_str(&mut s, " ");
    let h = decimal_string(time.hour as u64);
    push_str(&mut s, h.as_str());
    push_str(&mut s, " * * *");
    s
}

/// The configured setting of a preset that has one.
pub fn preset_setting(config: &Nightlight, preset: NightlightPreset) -> (s: NightlightSetting)
    requires
        preset != NightlightPreset::Custom,
    ensures
        preset == NightlightPreset::Day ==> s.temperature == config.day.temperature
            && s.brightness@ == config.day.brightness@,
        preset == NightlightPreset::Night ==> s.temperature == config.night.temperature
            && s.brightness@ == config.night.brightness@,
{
    match preset {
        NightlightPreset::Night => NightlightSetting {
            temperature: config.night.temperature,
            brightness: config.night.brightness.clone(),
        },
        _ => NightlightSetting {
            temperature: config.day.temperature,
            brightness: config.day.brightness.clone(),
        },
    }
}

/// What a request to switch to a preset by name asks for: the preset and its configured
/// setting; an error for an unknown name or for the custom preset.
pub fn requested_preset(config: &Nightlight, value: &str) -> (r: Result<(NightlightPreset, NightlightSetting), NightlightError>)
    ensures
        parse_preset_spec(value@) is None ==> (r matches Err(NightlightError::InvalidPreset(v)) && v@ == value@),
        parse_preset_spec(value@) == Some(NightlightPreset::Custom) ==> (r matches Err(NightlightError::CustomNotSettable)),
        parse_preset_spec(value@) == Some(NightlightPreset::Day) ==> (r matches Ok((p, s))
            && p == NightlightPreset::Day && s.temperature == config.day.temperature
            && s.brightness@ == config.day.brightness@),
        parse_preset_spec(value@) == Some(NightlightPreset::Night) ==> (r matches Ok((p, s))
            && p == NightlightPreset::Night && s.temperature == config.night.temperature
            && s.brightness@ == config.night.brightness@),
{
    let preset = match NightlightPreset::parse(value) {
        Ok(p) => p,
        Err(e) => return Err(e),
    };
    if preset == NightlightPreset::Custom {
        return Err(NightlightError::CustomNotSettable);
    }
    let setting = preset_setting(config, preset);
    Ok((preset, setting))
}

/// Follows the schedule: remembers the preset last applied, and asks for the current
/// one when it differs.
#[derive(Debug)]
pub struct PresetReconciler {
    pub last: NightlightPreset,
}

impl PresetReconciler {
    /// Starts from the preset applied at startup.
    pub fn new(current: NightlightPreset) -> (r: Self)
        ensures
            r.last == current,
    {
        PresetReconciler { last: current }
    }

    /// The preset to apply at a tick: the current one, when it is not the last applied.
    pub fn tick(&self, current: NightlightPreset) -> (r: Option<NightlightPreset>)
        ensures
            r == (if current == self.last { None } else { Some(current) }),
    {
        if current == self.last { None } else { Some(current) }
    }

    /// Records that a preset was applied; a preset that failed to apply is asked for
    /// again at the next tick.
    pub fn applied(&mut self, preset: NightlightPreset)
        ensures
            final(self).last == preset,
    {
        self.last = preset;
    }
}

// ---------------------------------------------------------------------------
// The desired state and the gamma controller.
// ---------------------------------------------------------------------------

/// The bit pattern of the `f32` value `1.0`.
pub const FULL_BRIGHTNESS_BITS: u32 = 0x3F80_0000u32;

/// The temperature of unfiltered light, in Kelvin.
pub const NEUTRAL_TEMPERATURE: u32 = 6500u32;

/// What the nightlight is asked to show. The brightness is the bit pattern of an `f32`
/// factor; nothing here computes with it.
#[derive(Debug, Clone, Copy, PartialEq, Eq, Structural)]
pub struct DesiredState {
    pub active: bool,
    pub brightness_bits: u32,
    pub temperature: u32,
    pub preset: NightlightPreset,
}

/// Brightness and temperature of the gamma ramps.
#[derive(Debug, Clone, Copy, PartialEq, Eq, Structural)]
pub struct GammaSetting {
    pub brightness_bits: u32,
    pub temperature: u32,
}

impl Default for DesiredState {
    fn default() -> (s: Self)
        ensures
            !s.active,
            s.brightness_bits == FULL_BRIGHTNESS_BITS,
            s.temperature == NEUTRAL_TEMPERATURE,
            s.preset == NightlightPreset::Day,
    {
        DesiredState {
            active: false,
            brightness_bits: FULL_BRIGHTNESS_BITS,
            temperature: NEUTRAL_TEMPERATURE,
            preset: NightlightPreset::Day,
        }
    }
}

impl DesiredState {
    /// The active state of a preset's setting.
    pub fn for_preset(preset: NightlightPreset, brightness_bits: u32, temperature: u32) -> (s: Self)
        ensures
            s == (DesiredState { active: true, brightness_bits, temperature, preset }),
    {
        DesiredState { active: true, brightness_bits, temperature, preset }
    }

    /// The state switched on or off, its setting kept.
    pub fn with_active(self, active: bool) -> (s: Self)
        ensures
            s == (DesiredState { active, ..self }),
    {
        DesiredState { active, ..self }
    }

    /// The state switched over.
    pub fn toggled(self) -> (s: Self)
        ensures
            s == (DesiredState { active: !self.active, ..self }),
    {
        DesiredState { active: !self.active, ..self }
    }

    /// A brightness chosen by hand: the nightlight is on, with a custom preset.
    pub fn with_brightness(self, brightness_bits: u32) -> (s: Self)
        ensures
            s == (DesiredState { active: true, brightness_bits, preset: NightlightPreset::Custom, ..self }),
    {
        DesiredState { active: true, brightness_bits, preset: NightlightPreset::Custom, ..self }
    }

    /// A temperature chosen by hand: the nightlight is on, with a custom preset.
    pub fn with_temperature(self, temperature: u32) -> (s: Self)
        ensures
            s == (DesiredState { active: true, temperature, preset: NightlightPreset::Custom, ..self }),
    {
        DesiredState { active: true, temperature, preset: NightlightPreset::Custom, ..self }
    }

    /// The setting that the gamma ramps get: the state's own while active, unfiltered
    /// light (full brightness, 6500 K) otherwise.
    pub fn effective_setting(self) -> (g: GammaSetting)
        ensures
            self.active ==> g == (GammaSetting { brightness_bits: self.brightness_bits, temperature: self.temperature }),
            !self.active ==> g == (GammaSetting { brightness_bits: FULL_BRIGHTNESS_BITS, temperature: NEUTRAL_TEMPERATURE }),
    {
        if self.active {
            GammaSetting { brightness_bits: self.brightness_bits, temperature: self.temperature }
        } else {
            GammaSetting { brightness_bits: FULL_BRIGHTNESS_BITS, temperature: NEUTRAL_TEMPERATURE }
        }
    }
}

/// Toggling twice gives the state back.
pub proof fn lemma_toggle_twice(s: DesiredState)
    ensures
        (DesiredState { active: !(DesiredState { active: !s.active, ..s }).active, ..s }) == s,
{
}

/// One output with its gamma control: the output's global name, the control's id and,
/// once the compositor told it, the size of its gamma ramps.
#[derive(Debug, Clone, Copy, PartialEq, Eq, Structural)]
pub struct OutputGamma {
    pub global_name: u32,
    pub control: u32,
    pub size: Option<u32>,
}

/// The gamma ramps to write: the control and its ramp size, and the setting.
#[derive(Debug)]
pub struct GammaPlan {
    pub setting: GammaSetting,
    pub targets: Vec<(u32, u32)>,
}

/// The outputs whose ramp size is known, as (control, size), in order.
pub open spec fn ready_targets(outputs: Seq<OutputGamma>) -> Seq<(u32, u32)>
    decreases outputs.len(),
{
    if outputs.len() == 0 {
        Seq::empty()
    } else {
        let rest = ready_targets(outputs.drop_last());
        match outputs.last().size {
            Some(size) => rest.push((outputs.last().control, size)),
            None => rest,
        }
    }
}

/// The index of the first output with the given global name.
pub open spec fn output_index(outputs: Seq<OutputGamma>, global_name: u32) -> Option<int> {
    if exists|i: int| 0 <= i < outputs.len() && outputs[i].global_name == global_name {
        Some(choose|i: int| 0 <= i < outputs.len() && outputs[i].global_name == global_name
            && forall|j: int| 0 <= j < i ==> outputs[j].global_name != global_name)
    } else {
        None
    }
}

/// The index of the first output with the given control.
pub open spec fn control_index(outputs: Seq<OutputGamma>, control: u32) -> Option<int> {
    if exists|i: int| 0 <= i < outputs.len() && outputs[i].control == control {
        Some(choose|i: int| 0 <= i < outputs.len() && outputs[i].control == control
            && forall|j: int| 0 <= j < i ==> outputs[j].control != control)
    } else {
        None
    }
}

/// The gamma controller: its outputs, the state it shows, and whether an application
/// of that state is due once the debounce delay ends.
#[derive(Debug)]
pub struct GammaController {
    pub outputs: Vec<OutputGamma>,
    pub state: DesiredState,
    pub pending_apply: bool,
}

impl GammaController {
    /// No outputs, the default state, nothing due.
    pub fn new() -> (c: Self)
        ensures
            c.outputs@.len() == 0,
            !c.state.active,
            c.state.brightness_bits == FULL_BRIGHTNESS_BITS,
            c.state.temperature == NEUTRAL_TEMPERATURE,
            c.state.preset == NightlightPreset::Day,
            !c.pending_apply,
    {
        GammaController { outputs: Vec::new(), state: DesiredState::default(), pending_apply: false }
    }

    /// Whether an output with this global name is known.
    pub fn has_output(&self, global_name: u32) -> (r: bool)
        ensures
            r == (output_index(self.outputs@, global_name) is Some),
    {
        let mut i: usize = 0;
        while i < self.outputs.len()
            invariant
                i <= self.outputs@.len(),
                forall|j: int| 0 <= j < i ==> self.outputs@[j].global_name != global_name,
            decreases self.outputs@.len() - i,
        {
            if self.outputs[i].global_name == global_name {
                return true;
            }
            i = i + 1;
        }
        false
    }

    /// Adds a new output with its control; its ramp size is not known yet.
    pub fn push_output(&mut self, global_name: u32, control: u32)
        ensures
            final(self).outputs@ == old(self).outputs@.push(OutputGamma { global_name, control, size: None }),
            final(self).state == old(self).state,
            final(self).pending_apply == old(self).pending_apply,
    {
        self.outputs.push(OutputGamma { global_name, control, size: None });
    }

    fn find_global(&self, global_name: u32) -> (r: Option<usize>)
        ensures
            r matches Some(i) ==> i < self.outputs@.len() && output_index(self.outputs@, global_name) == Some(i as int),
            r is None ==> output_index(self.outputs@, global_name) is None,
    {
        let mut i: usize = 0;
        while i < self.outputs.len()
            invariant
                i <= self.outputs@.len(),
                forall|j: int| 0 <= j < i ==> self.outputs@[j].global_name != global_name,
            decreases self.outputs@.len() - i,
        {
            if self.outputs[i].global_name == global_name {
                let ghost k = i as int;
                assert(0 <= k < self.outputs@.len() && self.outputs@[k].global_name == global_name);
                proof {
                    let c = choose|c: int| 0 <= c < self.outputs@.len() && self.outputs@[c].global_name == global_name
                        && forall|j: int| 0 <= j < c ==> self.outputs@[j].global_name != global_name;
                    assert(c == k) by {
                        if c < k {
                        } else if c > k {
                            assert(self.outputs@[k].global_name != global_name);
                        }
                    }
                }
                return Some(i);
            }
            i = i + 1;
        }
        None
    }

    fn find_control(&self, control: u32) -> (r: Option<usize>)
        ensures
            r matches Some(i) ==> i < self.outputs@.len() && control_index(self.outputs@, control) == Some(i as int),
            r is None ==> control_index(self.outputs@, control) is None,
    {
        let mut i: usize = 0;
        while i < self.outputs.len()
            invariant
                i <= self.outputs@.len(),
                forall|j: int| 0 <= j < i ==> self.outputs@[j].control != control,
            decreases self.outputs@.len() - i,
        {
            if self.outputs[i].control == control {
                let ghost k = i as int;
                assert(0 <= k < self.outputs@.len() && self.outputs@[k].control == control);
                proof {
                    let c = choose|c: int| 0 <= c < self.outputs@.len() && self.outputs@[c].control == control
                        && forall|j: int| 0 <= j < c ==> self.outputs@[j].control != control;
                    assert(c == k) by {
                        if c < k {
                        } else if c > k {
                            assert(self.outputs@[k].control != control);
                        }
                    }
                }
                return Some(i);
            }
            i = i + 1;
        }
        None
    }

    /// Removes the output with this global name and hands it back, so that its control
    /// and output can be released.
    pub fn remove_output(&mut self, global_name: u32) -> (r: Option<OutputGamma>)
        ensures
            output_index(old(self).outputs@, global_name) matches Some(i) ==> {
                &&& r == Some(old(self).outputs@[i])
                &&& final(self).outputs@ == old(self).outputs@.remove(i)
            },
            output_index(old(self).outputs@, global_name) is None ==> r is None
                && final(self).outputs@ == old(self).outputs@,
            final(self).state == old(self).state,
            final(self).pending_apply == old(self).pending_apply,
    {
        match self.find_global(global_name) {
            Some(i) => Some(self.outputs.remove(i)),
            None => None,
        }
    }

    /// The compositor told the ramp size of a control: it is recorded on the output that
    /// has the control, and an application is due.
    pub fn gamma_size(&mut self, control: u32, size: u32)
        ensures
            control_index(old(self).outputs@, control) matches Some(i) ==>
                final(self).outputs@ == old(self).outputs@.update(i, OutputGamma { size: Some(size), ..old(self).outputs@[i] }),
            control_index(old(self).outputs@, control) is None ==> final(self).outputs@ == old(self).outputs@,
            final(self).state == old(self).state,
            final(self).pending_apply,
    {
        if let Some(i) = self.find_control(control) {
            let o = self.outputs[i];
            self.outputs.set(i, OutputGamma { size: Some(size), ..o });
        }
        self.pending_apply = true;
    }

    /// The position of the output whose control failed; the control is to be replaced.
    pub fn failed_control(&self, control: u32) -> (r: Option<usize>)
        ensures
            r matches Some(i) ==> i < self.outputs@.len() && control_index(self.outputs@, control) == Some(i as int),
            r is None ==> control_index(self.outputs@, control) is None,
    {
        self.find_control(control)
    }

    /// Gives the output at `index` a new control, whose ramp size is not known yet.
    pub fn replace_control(&mut self, index: usize, control: u32)
        requires
            index < old(self).outputs@.len(),
        ensures
            final(self).outputs@ == old(self).outputs@.update(
                index as int,
                OutputGamma { control, size: None, ..old(self).outputs@[index as int] },
            ),
            final(self).state == old(self).state,
            final(self).pending_apply == old(self).pending_apply,
    {
        let o = self.outputs[index];
        self.outputs.set(index, OutputGamma { control, size: None, ..o });
    }

    /// A new desired state: it is kept, an application becomes due, and the state is
    /// answered back.
    pub fn set_state(&mut self, state: DesiredState) -> (r: DesiredState)
        ensures
            r == state,
            final(self).state == state,
            final(self).pending_apply,
            final(self).outputs@ == old(self).outputs@,
    {
        self.state = state;
        self.pending_apply = true;
        state
    }

    /// The debounce delay ended: what to write to which ramps. Only outputs whose ramp
    /// size is known get one.
    pub fn apply_due(&mut self) -> (plan: GammaPlan)
        ensures
            plan.setting == old(self).state.effective_setting_spec(),
            plan.targets@ == ready_targets(old(self).outputs@),
            !final(self).pending_apply,
            final(self).outputs@ == old(self).outputs@,
            final(self).state == old(self).state,
    {
        self.pending_apply = false;
        let setting = self.state.effective_setting();
        let mut targets: Vec<(u32, u32)> = Vec::new();
        let mut i: usize = 0;
        while i < self.outputs.len()
            invariant
                i <= self.outputs@.len(),
                targets@ == ready_targets(self.outputs@.take(i as int)),
            decreases self.outputs@.len() - i,
        {
            assert(self.outputs@.take(i + 1).drop_last() == self.outputs@.take(i as int));
            let o = self.outputs[i];
            if let Some(size) = o.size {
                targets.push((o.control, size));
            }
            i = i + 1;
        }
        assert(self.outputs@.take(self.outputs@.len() as int) == self.outputs@);
        GammaPlan { setting, targets }
    }
}

impl DesiredState {
    /// The setting that the gamma ramps get.
    pub open spec fn effective_setting_spec(self) -> GammaSetting {
        if self.active {
            GammaSetting { brightness_bits: self.brightness_bits, temperature: self.temperature }
        } else {
            GammaSetting { brightness_bits: FULL_BRIGHTNESS_BITS, temperature: NEUTRAL_TEMPERATURE }
        }
    }
}

} // verus!
