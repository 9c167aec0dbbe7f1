use vstd::prelude::*;

use crate::connection::{next_backoff, next_backoff_spec};
use crate::text::push_str;

verus! {

/// How loud a log record is.
#[derive(Debug, Clone, Copy, PartialEq, Eq, Structural)]
pub enum LogLevel {
    Warn,
    Error,
}

/// A line for the log.
#[derive(Debug)]
pub struct LogRecord {
    pub level: LogLevel,
    pub message: String,
}

/// What is logged when a daemon service returns on its own: a warning that it stopped,
/// or an error with its message.
pub fn log_service_result(name: &str, result: Result<(), String>) -> (r: LogRecord)
    ensures
        result is Ok ==> r.level == LogLevel::Warn && r.message@ == name@ + " service stopped unexpectedly"@,
        result matches Err(e) ==> r.level == LogLevel::Error && r.message@ == name@ + " service failed: "@ + e@,
{
    let mut message = name.to_owned();
    match result {
        Ok(()) => {
            push_str(&mut message, " service stopped unexpectedly");
            LogRecord { level: LogLevel::Warn, message }
        },
        Err(e) => {
            push_str(&mut message, " service failed: ");
            push_str(&mut message, e.as_str());
            LogRecord { level: LogLevel::Error, message }
        },
    }
}

/// What is logged when a daemon service was asked to stop: nothing when it stopped
/// cleanly, else an error with its message.
pub fn log_service_cleanup(name: &str, result: Result<(), String>) -> (r: Option<LogRecord>)
    ensures
        result is Ok ==> r is None,
        result matches Err(e) ==> r matches Some(rec) && rec.level == LogLevel::Error
            && rec.message@ == name@ + " service failed while stopping: "@ + e@,
{
    match result {
        Ok(()) => None,
        Err(e) => {
            let mut message = name.to_owned();
            push_str(&mut message, " service failed while stopping: ");
            push_str(&mut message, e.as_str());
            Some(LogRecord { level: LogLevel::Error, message })
        },
    }
}

/// What a supervisor does next.
#[derive(Debug, Clone, Copy, PartialEq, Eq, Structural)]
pub enum SupervisorAction {
    /// The daemon shuts down: stop supervising.
    Stop,
    /// Start the service again at once.
    RestartNow,
    /// Wait this many seconds (or until the configuration changes), then start it again.
    RestartAfter(u64),
}

/// Restarts a daemon service that stopped, waiting longer after each failure: one second
/// at first, doubling up to half a minute.
#[derive(Debug, Clone, Copy, PartialEq, Eq, Structural)]
pub struct Supervisor {
    pub backoff_secs: u64,
}

impl Supervisor {
    /// The wait lies between one second and half a minute.
    pub open spec fn wf(self) -> bool {
        1 <= self.backoff_secs <= 30
    }

    /// A supervisor that has seen no failure.
    pub fn new() -> (s: Self)
        ensures
            s.wf(),
            s.backoff_secs == 1,
    {
        Supervisor { backoff_secs: 1 }
    }

    /// The service stopped. During shutdown supervision stops; a service stopped for a
    /// configuration change starts again at once and the wait goes back to one second; a
    /// failed one starts again after the current wait.
    pub fn service_stopped(&mut self, failed: bool, shutting_down: bool) -> (a: SupervisorAction)
        requires
            old(self).wf(),
        ensures
            final(self).wf(),
            shutting_down ==> a == SupervisorAction::Stop && *final(self) == *old(self),
            !shutting_down && !failed ==> a == SupervisorAction::RestartNow && final(self).backoff_secs == 1,
            !shutting_down && failed ==> a == SupervisorAction::RestartAfter(old(self).backoff_secs)
                && *final(self) == *old(self),
    {
        if shutting_down {
            SupervisorAction::Stop
        } else if !failed {
            self.backoff_secs = 1;
            SupervisorAction::RestartNow
        } else {
            SupervisorAction::RestartAfter(self.backoff_secs)
        }
    }

    /// The wait after a failure is over (or was cut short): the next wait doubles, up to
    /// half a minute.
    pub fn wait_over(&mut self)
        requires
            old(self).wf(),
        ensures
            final(self).wf(),
            final(self).backoff_secs == next_backoff_spec(old(self).backoff_secs),
    {
        self.backoff_secs = next_backoff(self.backoff_secs);
    }
}

/// The waits after a run of failures: one second, then doubling, at most half a minute.
pub open spec fn wait_after_failures(n: nat) -> u64
    decreases n,
{
    if n == 0 { 1 } else { next_backoff_spec(wait_after_failures((n - 1) as nat)) }
}

/// After `n` failures in a row the wait is `2^n` seconds, capped at half a minute.
pub proof fn lemma_waits_double_up_to_thirty(n: nat)
    ensures
        n <= 4 ==> wait_after_failures(n) == vstd::arithmetic::power2::pow2(n),
        n >= 5 ==> wait_after_failures(n) == 30,
    decreases n,
{
    vstd::arithmetic::power2::lemma2_to64();
    if n > 0 {
        lemma_waits_double_up_to_thirty((n - 1) as nat);
    }
}

} // verus!
