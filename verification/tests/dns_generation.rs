//! The controller of generations, driven against a scripted session.

use vapour_protection::dns_generation::{
    DnsGenerationController, DnsGenerationStatus, GenerationAction, SessionReport, Waiting,
    RELOAD_TIMEOUT_MS,
};
use vapour_protection::dns_process::TransparentDnsConfig;
use vapour_protection::dns_session::DnsSessionState;

struct Scenario {
    state: DnsSessionState,
    cleanup: bool,
    rollover: bool,
    reject_reload: bool,
    fail_start: bool,
    factory_cleanup_pending: bool,
    events: Vec<&'static str>,
}

impl Scenario {
    fn report(&self) -> SessionReport {
        SessionReport {
            state: self.state,
            rollover_requested: self.rollover,
            cleanup_complete: self.cleanup,
            last_error: None,
        }
    }

    fn start(&mut self) -> Result<SessionReport, String> {
        self.events.push("start");
        if self.fail_start {
            return Err("start failed".into());
        }
        self.state = DnsSessionState::Running;
        self.cleanup = false;
        self.rollover = false;
        Ok(self.report())
    }

    fn reload(&mut self) -> Result<(), String> {
        assert!(RELOAD_TIMEOUT_MS > 10_000);
        self.events.push("reload");
        if self.reject_reload {
            Err("rules rejected".into())
        } else {
            Ok(())
        }
    }

    fn stop(&mut self) -> Result<(), String> {
        self.events.push("stop");
        if self.cleanup {
            self.state = DnsSessionState::Stopped;
            Ok(())
        } else {
            self.state = DnsSessionState::Stopping;
            Err("cleanup pending".into())
        }
    }
}

struct Driver {
    controller: DnsGenerationController,
    scenario: Scenario,
}

impl Driver {
    fn report(&self) -> Option<SessionReport> {
        if self.controller.owns_session() {
            Some(self.scenario.report())
        } else {
            None
        }
    }

    fn set_desired(&mut self, desired: Option<TransparentDnsConfig>) {
        self.controller.set_desired(desired);
    }

    fn status(&self) -> DnsGenerationStatus {
        self.controller
            .status(self.report(), self.scenario.factory_cleanup_pending)
    }

    fn reconcile(&mut self, now: u64) {
        let report = self.report();
        let pending = self.scenario.factory_cleanup_pending;
        let mut action = self.controller.reconcile(now, report, pending);
        loop {
            match action {
                GenerationAction::Rest => {
                    assert_eq!(self.controller.waiting(), Waiting::Nothing);
                    return;
                }
                GenerationAction::Start(_) => {
                    let outcome = self.scenario.start();
                    self.controller.started(now, outcome);
                    return;
                }
                GenerationAction::Reload(_) => {
                    let result = self.scenario.reload();
                    let report = self.scenario.report();
                    self.controller.reloaded(now, result, report);
                    return;
                }
                GenerationAction::Stop => {
                    let result = self.scenario.stop();
                    let cleanup = self.scenario.cleanup;
                    action = self.controller.stopped(now, result, cleanup, pending);
                    if !self.controller.owns_session() {
                        self.scenario.events.push("drop");
                    }
                }
            }
        }
    }

    fn starts(&self) -> usize {
        self.scenario
            .events
            .iter()
            .filter(|event| **event == "start")
            .count()
    }
}

fn setup() -> (Driver, u64) {
    let driver = Driver {
        controller: DnsGenerationController::new(),
        scenario: Scenario {
            state: DnsSessionState::Running,
            cleanup: false,
            rollover: false,
            reject_reload: false,
            fail_start: false,
            factory_cleanup_pending: false,
            events: vec![],
        },
    };
    (driver, 1_000_000)
}

fn config(addresses: &[&str], rules: &str) -> Option<TransparentDnsConfig> {
    Some(TransparentDnsConfig {
        listen_addresses: addresses.iter().map(|s| s.to_string()).collect(),
        listen_port: 0,
        rules: rules.into(),
    })
}

fn secs(seconds: u64) -> u64 {
    seconds * 1000
}

#[test]
fn reordered_topology_is_unchanged_and_rules_only_reload() {
    let (mut c, now) = setup();
    c.set_desired(config(&["127.0.0.1", "::1"], "old"));
    c.reconcile(now);
    c.set_desired(config(&["::1", "127.0.0.1", "::1"], "old"));
    c.reconcile(now);
    assert_eq!(c.scenario.events, ["start"]);
    c.set_desired(config(&["::1", "127.0.0.1"], "new"));
    assert!(!c.status().running);
    c.reconcile(now);
    assert_eq!(c.scenario.events, ["start", "reload"]);
    assert!(c.status().running);
}

#[test]
fn rejected_rules_keep_owner_and_retry_with_backoff() {
    let (mut c, now) = setup();
    c.set_desired(config(&["127.0.0.1"], "old"));
    c.reconcile(now);
    c.scenario.reject_reload = true;
    c.set_desired(config(&["127.0.0.1"], "bad"));
    c.reconcile(now);
    c.reconcile(now + secs(4));
    assert_eq!(c.scenario.events, ["start", "reload"]);
    assert!(!c.status().running);
    assert!(!c.status().cleanup_pending);
    c.scenario.reject_reload = false;
    c.reconcile(now + secs(5));
    assert_eq!(c.scenario.events, ["start", "reload", "reload"]);
    assert!(c.status().running);
}

#[test]
fn topology_replacement_waits_for_cleanup_then_drops_before_start() {
    let (mut c, now) = setup();
    c.set_desired(config(&["127.0.0.1"], "rules"));
    c.reconcile(now);
    c.set_desired(config(&["127.0.0.2"], "rules"));
    c.reconcile(now + secs(6));
    assert!(c.status().cleanup_pending);
    assert_eq!(c.starts(), 1);
    c.reconcile(now + secs(7));
    assert_eq!(c.starts(), 1);
    c.scenario.cleanup = true;
    c.reconcile(now + secs(8));
    assert_eq!(
        c.scenario.events,
        ["start", "stop", "stop", "stop", "drop", "start"]
    );
    assert!(c.status().running);
}

#[test]
fn disable_cancels_replacement_while_cleanup_is_pending() {
    let (mut c, now) = setup();
    c.set_desired(config(&["127.0.0.1"], "rules"));
    c.reconcile(now);
    c.set_desired(config(&["127.0.0.2"], "rules"));
    c.reconcile(now);
    c.set_desired(None);
    c.scenario.cleanup = true;
    c.reconcile(now + secs(10));
    c.reconcile(now + secs(100));
    assert_eq!(c.starts(), 1);
    assert!(!c.status().requested);
    assert!(!c.status().running);
    assert!(!c.status().cleanup_pending);
}

#[test]
fn failed_starts_back_off_but_new_configuration_can_retry_after_minimum_interval() {
    let (mut c, now) = setup();
    c.scenario.fail_start = true;
    c.set_desired(config(&["127.0.0.1"], "old"));
    c.reconcile(now);
    c.reconcile(now + secs(4));
    assert_eq!(c.starts(), 1);
    c.reconcile(now + secs(5));
    assert_eq!(c.starts(), 2);
    c.reconcile(now + secs(14));
    assert_eq!(c.starts(), 2);
    c.set_desired(config(&["127.0.0.1"], "corrected"));
    c.scenario.fail_start = false;
    c.reconcile(now + secs(14));
    assert_eq!(c.starts(), 3);
    assert!(c.status().running);
}

#[test]
fn exhaustion_and_worker_failure_both_require_cleanup_before_restart() {
    for rollover in [true, false] {
        let (mut c, now) = setup();
        c.set_desired(config(&["127.0.0.1"], "rules"));
        c.reconcile(now);
        c.scenario.rollover = rollover;
        c.scenario.state = DnsSessionState::Failed;
        c.reconcile(now + secs(6));
        assert_eq!(c.starts(), 1);
        c.scenario.cleanup = true;
        c.reconcile(now + secs(7));
        assert_eq!(c.starts(), 2);
        assert!(c.status().running);
    }
}

#[test]
fn failed_start_background_cleanup_prevents_retry_and_remains_visible_when_disabled() {
    let (mut c, now) = setup();
    c.scenario.fail_start = true;
    c.set_desired(config(&["127.0.0.1"], "rules"));
    c.reconcile(now);
    c.scenario.factory_cleanup_pending = true;
    c.reconcile(now + secs(60));
    assert_eq!(c.starts(), 1);
    assert!(c.status().cleanup_pending);
    c.set_desired(None);
    c.reconcile(now + secs(120));
    assert!(!c.status().requested);
    assert!(c.status().cleanup_pending);
    assert_eq!(c.starts(), 1);
    c.scenario.factory_cleanup_pending = false;
    assert!(!c.status().cleanup_pending);
}

#[test]
fn an_idle_controller_rests() {
    let (mut c, now) = setup();
    c.reconcile(now);
    assert!(c.scenario.events.is_empty());
    assert_eq!(
        c.status(),
        DnsGenerationStatus {
            requested: false,
            running: false,
            cleanup_pending: false,
            error: None
        }
    );
}

#[test]
fn the_wait_after_failed_starts_doubles_up_to_five_minutes() {
    let (mut c, now) = setup();
    c.scenario.fail_start = true;
    c.set_desired(config(&["127.0.0.1"], "rules"));
    c.reconcile(now);
    let mut at = now;
    let mut count = 1;
    for delay in [5, 10, 20, 40, 80, 160, 300, 300] {
        c.reconcile(at + secs(delay) - 1);
        assert_eq!(c.starts(), count);
        at += secs(delay);
        c.reconcile(at);
        count += 1;
        assert_eq!(c.starts(), count);
    }
    assert_eq!(c.status().error, Some("start failed".to_owned()));
}

#[test]
fn a_started_session_gets_sorted_addresses_once_each() {
    let mut controller = DnsGenerationController::new();
    controller.set_desired(config(&["b", "a", "b"], "rules"));
    match controller.reconcile(0, None, false) {
        GenerationAction::Start(config) => {
            assert_eq!(config.listen_addresses, ["a", "b"]);
            assert_eq!(config.rules, "rules");
        }
        other => panic!("expected a start: {other:?}"),
    }
}

#[test]
fn an_unhealthy_session_explains_itself() {
    let (mut c, now) = setup();
    c.set_desired(config(&["127.0.0.1"], "rules"));
    c.reconcile(now);
    assert!(!c.scenario.report().is_unhealthy());
    c.scenario.state = DnsSessionState::Failed;
    assert!(c.scenario.report().is_unhealthy());
    c.scenario.cleanup = true;
    c.reconcile(now + 1);
    assert_eq!(
        c.status().error,
        Some("DNS generation stopped unexpectedly".to_owned())
    );
    assert!(!c.status().running);
}

#[test]
fn a_new_request_is_not_running_until_it_is_applied() {
    let mut same_rules = config(&["127.0.0.1"], "old").unwrap();
    same_rules.listen_port = 53;
    for request in [
        config(&["127.0.0.1"], "new"),
        config(&["127.0.0.1", "::1"], "old"),
        Some(same_rules),
        None,
    ] {
        let (mut c, now) = setup();
        c.set_desired(config(&["127.0.0.1"], "old"));
        c.reconcile(now);
        assert!(c.status().running);
        c.set_desired(config(&["127.0.0.1", "127.0.0.1"], "old"));
        assert!(c.status().running);
        c.set_desired(request);
        assert!(!c.status().running);
    }
}
