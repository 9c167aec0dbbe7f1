use subniri::supervisor::{log_service_cleanup, log_service_result, LogLevel, Supervisor, SupervisorAction};

#[test]
fn service_results_are_logged() {
    let r = log_service_result("nightlight", Ok(()));
    assert_eq!(r.level, LogLevel::Warn);
    assert_eq!(r.message, "nightlight service stopped unexpectedly");
    let r = log_service_result("calendar", Err("db gone".to_owned()));
    assert_eq!(r.level, LogLevel::Error);
    assert_eq!(r.message, "calendar service failed: db gone");
    assert!(log_service_cleanup("Spotify", Ok(())).is_none());
    let r = log_service_cleanup("Spotify", Err("timeout".to_owned())).unwrap();
    assert_eq!(r.message, "Spotify service failed while stopping: timeout");
}

#[test]
fn failures_back_off_up_to_half_a_minute() {
    let mut s = Supervisor::new();
    let mut waits = Vec::new();
    for _ in 0..7 {
        match s.service_stopped(true, false) {
            SupervisorAction::RestartAfter(secs) => waits.push(secs),
            other => panic!("unexpected {other:?}"),
        }
        s.wait_over();
    }
    assert_eq!(waits, vec![1, 2, 4, 8, 16, 30, 30]);
    assert_eq!(s.service_stopped(false, false), SupervisorAction::RestartNow);
    assert_eq!(s.backoff_secs, 1);
    assert_eq!(s.service_stopped(true, true), SupervisorAction::Stop);
}
