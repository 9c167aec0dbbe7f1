use subniri::config_parse::parse_config;
use subniri::daemon::{Daemon, DaemonAction, DaemonEvent, Service};

#[test]
fn a_reload_notifies_only_the_changed_services() {
    let (_, c) = parse_config("").unwrap();
    let mut d = Daemon::new(c);
    assert_eq!(d.step(DaemonEvent::ConfigChanged), vec![DaemonAction::LoadConfig]);
    let (_, same) = parse_config("").unwrap();
    assert!(d.step(DaemonEvent::ConfigLoaded(same)).is_empty());
    let (_, night) = parse_config("nightlight { enabled; }").unwrap();
    assert_eq!(d.step(DaemonEvent::ConfigLoaded(night)), vec![DaemonAction::NotifyNightlight]);
    assert!(d.config.nightlight.enabled);
    let (_, both) = parse_config("spotify { client_id \"x\"; }").unwrap();
    assert_eq!(d.step(DaemonEvent::ConfigLoaded(both)), vec![DaemonAction::NotifyNightlight, DaemonAction::NotifySpotify]);
    let (_, other) = parse_config("indexing { enabled #false; }").unwrap();
    let before = d.config.spotify.client_id.clone();
    assert_eq!(d.step(DaemonEvent::ConfigLoaded(other)), vec![DaemonAction::NotifySpotify]);
    assert_ne!(d.config.spotify.client_id, before);
}

#[test]
fn watches_and_supervisors_are_restarted_until_shutdown() {
    let (_, c) = parse_config("").unwrap();
    let mut d = Daemon::new(c);
    assert_eq!(d.step(DaemonEvent::WatchFailed), vec![DaemonAction::RetryWatchAfterMs(2000)]);
    assert_eq!(d.step(DaemonEvent::WatchEnded), vec![DaemonAction::StartWatch]);
    assert!(d.step(DaemonEvent::WatchError).is_empty());
    assert!(d.step(DaemonEvent::ConfigLoadFailed).is_empty());
    assert_eq!(d.step(DaemonEvent::SupervisorStopped(Service::Calendar)), vec![DaemonAction::RestartSupervisor(Service::Calendar)]);
    assert_eq!(d.step(DaemonEvent::ShutdownSignal), vec![DaemonAction::Shutdown]);
    assert!(!d.running);
    assert!(d.step(DaemonEvent::SupervisorStopped(Service::Spotify)).is_empty());
}
