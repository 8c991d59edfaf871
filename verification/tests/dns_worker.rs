//! The worker that owns the controller, driven round by round.

use vapour_protection::dns_generation::{
    DnsGenerationController, DnsGenerationStatus, GenerationAction, SessionReport,
};
use vapour_protection::dns_process::TransparentDnsConfig;
use vapour_protection::dns_session::DnsSessionState;
use vapour_protection::dns_worker::{DnsGenerationWorker, WorkerStep};

struct Probe {
    worker: DnsGenerationWorker,
    controller: DnsGenerationController,
    now: u64,
    starts: usize,
    stop_called: bool,
    allow_cleanup: bool,
    dropped: bool,
    started_in_flight: Option<u64>,
    hold_start: bool,
    panic_start: bool,
    ended: bool,
}

impl Probe {
    fn new() -> Self {
        Probe {
            worker: DnsGenerationWorker::new(),
            controller: DnsGenerationController::new(),
            now: 1_000,
            starts: 0,
            stop_called: false,
            allow_cleanup: false,
            dropped: false,
            started_in_flight: None,
            hold_start: false,
            panic_start: false,
            ended: false,
        }
    }

    fn report(&self) -> SessionReport {
        SessionReport {
            state: if self.stop_called {
                DnsSessionState::Stopping
            } else {
                DnsSessionState::Running
            },
            rollover_requested: false,
            cleanup_complete: self.stop_called && self.allow_cleanup,
            last_error: None,
        }
    }

    fn owned_report(&self) -> Option<SessionReport> {
        if self.controller.owns_session() {
            Some(self.report())
        } else {
            None
        }
    }

    fn publish(&mut self) {
        let actual = self.controller.status(self.owned_report(), false);
        if self.worker.publish(actual) == WorkerStep::End {
            self.worker.ended(false);
            self.ended = true;
        }
    }

    /// One round of the worker, up to a start that is held back.
    fn round(&mut self) {
        if self.ended {
            return;
        }
        if let Some(at) = self.started_in_flight {
            if self.hold_start {
                return;
            }
            self.started_in_flight = None;
            let report = self.report();
            self.controller.started(at, Ok(report));
            self.publish();
            return;
        }
        self.now += 250;
        if let Some(desired) = self.worker.take_pending() {
            self.controller.set_desired(desired);
        }
        let report = self.owned_report();
        let mut action = self.controller.reconcile(self.now, report, false);
        loop {
            match action {
                GenerationAction::Rest => break,
                GenerationAction::Reload(_) => {
                    let report = self.report();
                    self.controller.reloaded(self.now, Ok(()), report);
                    break;
                }
                GenerationAction::Start(_) => {
                    self.starts += 1;
                    if self.panic_start {
                        self.worker.ended(true);
                        self.ended = true;
                        return;
                    }
                    self.started_in_flight = Some(self.now);
                    if !self.hold_start {
                        self.round();
                    }
                    return;
                }
                GenerationAction::Stop => {
                    self.stop_called = true;
                    let complete = self.allow_cleanup;
                    let result = if complete {
                        Ok(())
                    } else {
                        Err("pending".to_owned())
                    };
                    action = self.controller.stopped(self.now, result, complete, false);
                    if !self.controller.owns_session() {
                        self.dropped = true;
                    }
                }
            }
        }
        self.publish();
    }

    fn until(&mut self, condition: impl Fn(&Probe) -> bool) {
        for _ in 0..100 {
            if condition(self) {
                return;
            }
            self.round();
        }
        panic!("worker transition timed out");
    }

    fn stop(&mut self, timeout: u64) -> Result<(), String> {
        self.worker.request_stop();
        let mut elapsed = 0;
        loop {
            if let Some(outcome) = self.worker.stop_outcome(elapsed, timeout) {
                return outcome;
            }
            self.round();
            elapsed += 250;
        }
    }
}

fn config() -> Option<TransparentDnsConfig> {
    Some(TransparentDnsConfig {
        listen_addresses: vec!["127.0.0.1".into()],
        listen_port: 0,
        rules: "||example.test^".into(),
    })
}

#[test]
fn idle_worker_stops_without_starting_and_cannot_be_reenabled() {
    let mut p = Probe::new();
    p.stop(1000).unwrap();
    assert_eq!(p.starts, 0);
    assert!(p.worker.set_desired(config()).is_err());
}

#[test]
fn stop_timeout_retains_session_until_cleanup_then_completes() {
    let mut p = Probe::new();
    p.worker.set_desired(config()).unwrap();
    p.until(|p| p.worker.status().running);
    assert!(p.stop(20).is_err());
    assert!(!p.dropped);
    assert!(p.worker.status().cleanup_pending);
    p.allow_cleanup = true;
    p.stop(2000).unwrap();
    assert!(p.dropped);
    assert!(!p.worker.status().cleanup_pending);
}

#[test]
fn disable_coalesces_changes_while_start_is_in_flight() {
    let mut p = Probe::new();
    p.hold_start = true;
    p.allow_cleanup = true;
    p.worker.set_desired(config()).unwrap();
    p.until(|p| p.starts == 1);
    p.worker.set_desired(config()).unwrap();
    p.worker.set_desired(None).unwrap();
    assert!(!p.worker.status().requested);
    assert!(!p.worker.status().running);
    p.hold_start = false;
    p.until(|p| p.dropped);
    p.stop(2000).unwrap();
    assert_eq!(p.starts, 1);
}

#[test]
fn dropping_handle_keeps_background_owner_until_cleanup() {
    let mut p = Probe::new();
    p.worker.set_desired(config()).unwrap();
    p.until(|p| p.worker.status().running);
    p.worker.request_stop();
    p.until(|p| p.stop_called);
    assert!(!p.dropped);
    p.allow_cleanup = true;
    p.until(|p| p.dropped);
}

#[test]
fn panic_is_reported_as_failed_cleanup_not_successful_stop() {
    let mut p = Probe::new();
    p.panic_start = true;
    p.worker.set_desired(config()).unwrap();
    p.until(|p| p.worker.status().error.is_some());
    assert!(p.stop(1000).unwrap_err().contains("panicked"));
    assert!(!p.worker.status().running);
    assert!(p.worker.status().cleanup_pending);
}

#[test]
fn a_worker_polls_while_something_is_asked_for_and_sleeps_otherwise() {
    let status = |requested: bool, cleanup_pending: bool| DnsGenerationStatus {
        requested,
        running: requested,
        cleanup_pending,
        error: None,
    };
    let mut worker = DnsGenerationWorker::new();
    assert_eq!(worker.publish(status(false, false)), WorkerStep::Sleep);
    assert_eq!(worker.publish(status(true, false)), WorkerStep::Poll);
    assert_eq!(worker.publish(status(false, true)), WorkerStep::Poll);
    worker.set_desired(config()).unwrap();
    assert_eq!(worker.publish(status(false, false)), WorkerStep::Again);
    assert!(worker.status().requested);
    assert!(!worker.status().running);
    assert_eq!(worker.take_pending(), Some(config()));
    assert_eq!(worker.take_pending(), None);
    worker.request_stop();
    assert_eq!(worker.take_pending(), Some(None));
    assert_eq!(worker.publish(status(false, true)), WorkerStep::Poll);
    assert_eq!(worker.publish(status(false, false)), WorkerStep::End);
}
