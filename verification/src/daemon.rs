use vstd::prelude::*;

use crate::config::{ConfigFile, Nightlight, Spotify, presets_agree};
use crate::config_parse::{config_view, SpotifyView};
use crate::text::str_eq;

verus! {

/// A service that the daemon supervises.
#[derive(Debug, Clone, Copy, PartialEq, Eq, Structural)]
pub enum Service {
    Nightlight,
    Calendar,
    Spotify,
}

/// What happened around the daemon.
#[derive(Debug)]
pub enum DaemonEvent {
    /// The configuration files could not be watched.
    WatchFailed,
    /// The watch of the configuration files ended.
    WatchEnded,
    /// A configuration file changed.
    ConfigChanged,
    /// The watch reported an error.
    WatchError,
    /// The configuration was read again.
    ConfigLoaded(ConfigFile),
    /// The configuration could not be read again.
    ConfigLoadFailed,
    /// A supervisor stopped.
    SupervisorStopped(Service),
    /// The daemon was asked to stop.
    ShutdownSignal,
}

/// What the daemon does next.
#[derive(Debug, Clone, Copy, PartialEq, Eq, Structural)]
pub enum DaemonAction {
    /// Try to watch the configuration files again after this many milliseconds.
    RetryWatchAfterMs(u64),
    /// Watch the configuration files.
    StartWatch,
    /// Read the configuration again.
    LoadConfig,
    /// Hand the nightlight service its new settings.
    NotifyNightlight,
    /// Hand the Spotify service its new settings.
    NotifySpotify,
    /// Start a supervisor again.
    RestartSupervisor(Service),
    /// Tell every service to stop, wait for the supervisors and close the database.
    Shutdown,
}

/// The daemon's main loop: the configuration in effect, and whether it still runs.
#[derive(Debug)]
pub struct Daemon {
    pub config: ConfigFile,
    pub running: bool,
}

/// Two nightlight configurations agree: every field the same, the brightnesses as numbers.
pub open spec fn same_nightlight(a: Nightlight, b: Nightlight) -> bool {
    &&& a.enabled == b.enabled
    &&& a.use_location == b.use_location
    &&& a.dawn == b.dawn
    &&& a.dusk == b.dusk
    &&& presets_agree(a.day, b.day)
    &&& presets_agree(a.night, b.night)
    &&& a.debounce_ms == b.debounce_ms
}

/// The actions for an event, and whether the configuration is replaced: a watch that
/// failed is tried again after two seconds, one that ended is started again; a change is
/// read again; a configuration read notifies the nightlight and Spotify services when
/// their settings differ and then is in effect; a supervisor that stopped is started
/// again; a stop signal stops everything. Once stopped, nothing more happens.
pub open spec fn daemon_actions(running: bool, old_config: ConfigFile, e: DaemonEvent) -> Seq<DaemonAction> {
    if !running {
        Seq::empty()
    } else {
        match e {
            DaemonEvent::WatchFailed => seq![DaemonAction::RetryWatchAfterMs(2000)],
            DaemonEvent::WatchEnded => seq![DaemonAction::StartWatch],
            DaemonEvent::ConfigChanged => seq![DaemonAction::LoadConfig],
            DaemonEvent::WatchError => Seq::empty(),
            DaemonEvent::ConfigLoaded(c) =>
                (if !same_nightlight(c.nightlight, old_config.nightlight) {
                    seq![DaemonAction::NotifyNightlight]
                } else {
                    Seq::empty()
                }) + (if config_view(c).spotify != config_view(old_config).spotify {
                    seq![DaemonAction::NotifySpotify]
                } else {
                    Seq::empty()
                }),
            DaemonEvent::ConfigLoadFailed => Seq::empty(),
            DaemonEvent::SupervisorStopped(s) => seq![DaemonAction::RestartSupervisor(s)],
            DaemonEvent::ShutdownSignal => seq![DaemonAction::Shutdown],
        }
    }
}

fn nightlights_agree(a: &Nightlight, b: &Nightlight) -> (r: bool)
    ensures
        r == same_nightlight(*a, *b),
{
    a.enabled == b.enabled && a.use_location == b.use_location && a.dawn == b.dawn && a.dusk == b.dusk
        && a.day.same_preset(&b.day) && a.night.same_preset(&b.night) && a.debounce_ms == b.debounce_ms
}

fn same_spotify(a: &Spotify, b: &Spotify) -> (r: bool)
    ensures
        r == ((SpotifyView { enabled: a.enabled, client_id: a.client_id@ }) == (SpotifyView { enabled: b.enabled, client_id: b.client_id@ })),
{
    a.enabled == b.enabled && str_eq(a.client_id.as_str(), b.client_id.as_str())
}

impl Daemon {
    /// The daemon as it starts, with the configuration read at start.
    pub fn new(config: ConfigFile) -> (d: Self)
        ensures
            d.running,
            config_view(d.config) == config_view(config),
    {
        Daemon { config, running: true }
    }

    /// One turn of the main loop: what to do about the event.
    pub fn step(&mut self, e: DaemonEvent) -> (actions: Vec<DaemonAction>)
        ensures
            actions@ == daemon_actions(old(self).running, old(self).config, e),
            final(self).running == (old(self).running && !(e is ShutdownSignal)),
            if old(self).running && e is ConfigLoaded {
                config_view(final(self).config) == config_view(e->ConfigLoaded_0)
            } else {
                config_view(final(self).config) == config_view(old(self).config)
            },
    {
        let mut actions: Vec<DaemonAction> = Vec::new();
        if !self.running {
            return actions;
        }
        match e {
            DaemonEvent::WatchFailed => actions.push(DaemonAction::RetryWatchAfterMs(2000)),
            DaemonEvent::WatchEnded => actions.push(DaemonAction::StartWatch),
            DaemonEvent::ConfigChanged => actions.push(DaemonAction::LoadConfig),
            DaemonEvent::WatchError => {},
            DaemonEvent::ConfigLoaded(c) => {
                if !nightlights_agree(&c.nightlight, &self.config.nightlight) {
                    actions.push(DaemonAction::NotifyNightlight);
                }
                let ghost first = actions@;
                if !same_spotify(&c.spotify, &self.config.spotify) {
                    actions.push(DaemonAction::NotifySpotify);
                }
                proof {
                    assert(config_view(c).spotify == (SpotifyView { enabled: c.spotify.enabled, client_id: c.spotify.client_id@ }));
                }
                assert(actions@ =~= daemon_actions(true, old(self).config, DaemonEvent::ConfigLoaded(c)));
                self.config = c;
            },
            DaemonEvent::ConfigLoadFailed => {},
            DaemonEvent::SupervisorStopped(s) => actions.push(DaemonAction::RestartSupervisor(s)),
            DaemonEvent::ShutdownSignal => {
                actions.push(DaemonAction::Shutdown);
                self.running = false;
            },
        }
        assert(actions@ =~= daemon_actions(true, old(self).config, e));
        actions
    }
}

} // verus!
