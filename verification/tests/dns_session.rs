//! Generations of interception: who owns them, how they start and stop.

use vapour_protection::dns_flow::{FlowError, Interface};
use vapour_protection::dns_manager::TransparentReloadError;
use vapour_protection::dns_router::{RouteError, RoutedPacket};
use vapour_protection::dns_session::{
    cleanup_drained, cleanup_handles, join_errors, receive_ended, remember_error, route_mode,
    shutdown_handles, worker_action, DnsSessionState, EndStep, GenerationGate, GenerationLease,
    RouteMode, SessionState, WorkerAction,
};
use vapour_protection::dns_startup::{
    admit_reload, admit_stop, reload_reply, retry_open_cleanup, retry_rollback, stop_reply,
    CleanupEvent, Reply, RetryAction, RetryEvent, Rollback, RollbackAction, RollbackEvent,
    StartAction, StartEvent, Startup,
};
use vapour_protection::dns_supervisor::{
    Supervisor, SupervisorAction, SupervisorEvent, SupervisorPhase, SupervisorStep,
};

#[test]
fn generation_replacement_waits_for_confirmed_cleanup_and_last_owner() {
    let mut gate = GenerationGate::new();
    let mut generation = GenerationLease::acquire_from(&mut gate).unwrap();
    generation.retain();
    generation.release(&mut gate);
    assert!(GenerationLease::acquire_from(&mut gate).is_err());
    generation.confirm_cleanup();
    generation.release(&mut gate);
    let mut replacement = GenerationLease::acquire_from(&mut gate).unwrap();
    replacement.confirm_cleanup();
    replacement.release(&mut gate);
    assert!(!gate.generation_owned());
}

#[test]
fn unconfirmed_cleanup_never_reopens_generation_admission() {
    let mut gate = GenerationGate::new();
    GenerationLease::acquire_from(&mut gate)
        .unwrap()
        .release(&mut gate);
    assert!(GenerationLease::acquire_from(&mut gate).is_err());
}

#[test]
fn states_are_numbered() {
    for state in [
        DnsSessionState::Starting,
        DnsSessionState::Running,
        DnsSessionState::Failed,
        DnsSessionState::Stopping,
        DnsSessionState::StopPending,
        DnsSessionState::Stopped,
    ] {
        assert_eq!(DnsSessionState::from_raw(state.raw()), state);
    }
    assert!(DnsSessionState::Stopping.is_draining());
    assert!(!DnsSessionState::Running.is_draining());
    assert_eq!(DnsSessionState::Running.name(), "Running");
}

#[test]
fn the_first_error_is_kept() {
    let mut first = None;
    remember_error(&mut first, "one".to_owned());
    remember_error(&mut first, "two".to_owned());
    assert_eq!(first, Some("one".to_owned()));
    assert_eq!(join_errors("one".to_owned(), None), "one");
    let joined = join_errors("one".to_owned(), Some("two".to_owned()));
    assert!(joined.starts_with("one") && joined.ends_with("two"), "{joined}");

    let mut session = SessionState::new();
    assert_eq!(session.load(), DnsSessionState::Starting);
    session.store(DnsSessionState::Running);
    session.fail("broken".to_owned());
    session.fail("again".to_owned());
    assert_eq!(session.error(), Some("broken".to_owned()));
    assert_eq!(session.load(), DnsSessionState::Failed);
    assert!(!session.cleanup_complete());
    session.confirm_cleanup();
    assert!(session.cleanup_complete());
    assert!(!session.rollover_requested());
    session.request_rollover();
    assert!(session.rollover_requested());
}

#[test]
fn packets_are_routed_while_the_session_runs() {
    assert_eq!(route_mode(DnsSessionState::Running, false), RouteMode::Route);
    assert_eq!(route_mode(DnsSessionState::Stopping, true), RouteMode::Drain);
    assert_eq!(
        route_mode(DnsSessionState::Stopping, false),
        RouteMode::Discard
    );
    assert!(matches!(
        receive_ended(DnsSessionState::Running, false, false),
        EndStep::Failed(_)
    ));
    assert_eq!(
        receive_ended(DnsSessionState::Stopping, true, false),
        EndStep::Finished
    );
    assert_eq!(
        receive_ended(DnsSessionState::Stopping, false, false),
        EndStep::Wait
    );
    assert_eq!(
        receive_ended(DnsSessionState::Stopping, false, true),
        EndStep::Finished
    );
}

#[test]
fn a_worker_does_what_the_router_says() {
    assert_eq!(
        worker_action(Ok(RoutedPacket::Unchanged)),
        WorkerAction::Reinject
    );
    assert_eq!(
        worker_action(Ok(RoutedPacket::Discard)),
        WorkerAction::Discard
    );
    assert_eq!(
        worker_action(Ok(RoutedPacket::Inbound {
            packet: vec![1],
            interface: Interface::new(7, 0)
        })),
        WorkerAction::Inject {
            packet: vec![1],
            interface: Interface::new(7, 0)
        }
    );
    assert!(matches!(
        worker_action(Err(RouteError::RolloverRequired)),
        WorkerAction::Fail { rollover: true, .. }
    ));
    assert!(matches!(
        worker_action(Err(RouteError::Companion("lost".to_owned()))),
        WorkerAction::Fail {
            rollover: false,
            ..
        }
    ));
    assert_eq!(
        worker_action(Err(RouteError::Reflection(FlowError::UnknownFlow))),
        WorkerAction::Fail {
            message: "DNS packet routing failed: Reflection(UnknownFlow)".to_owned(),
            rollover: false,
        }
    );
}

#[test]
fn handles_are_shut_down_once_each() {
    let mut complete = vec![false, true, false];
    assert!(shutdown_handles(
        &mut complete,
        &vec![Some(Ok(())), None, Some(Err("busy".to_owned()))]
    )
    .is_err());
    assert_eq!(complete, [true, true, false]);
    assert_eq!(
        shutdown_handles(&mut complete, &vec![None, None, Some(Ok(()))]),
        Ok(())
    );
    assert_eq!(complete, [true, true, true]);
    assert!(shutdown_handles(&mut complete, &vec![None]).is_err());

    let mut fresh = vec![false];
    assert!(cleanup_handles(&mut fresh, &vec![Some(Err("busy".to_owned()))]).is_err());
    assert_eq!(cleanup_handles(&mut fresh, &vec![Some(Ok(()))]), Ok(()));
    assert_eq!(cleanup_drained(&vec![Ok(()), Ok(())]), Ok(()));
    assert!(cleanup_drained(&vec![Ok(()), Err("left".to_owned())]).is_err());
}

fn go(supervisor: &mut Supervisor, event: SupervisorEvent, now: u64) -> SupervisorAction {
    let SupervisorStep { action, .. } = supervisor.step(event, now);
    action
}

#[test]
fn a_supervisor_stops_in_order() {
    let mut supervisor = Supervisor::new();
    assert_eq!(supervisor.phase(), SupervisorPhase::Workers);
    assert_eq!(supervisor.session().load(), DnsSessionState::Running);
    assert_eq!(
        go(&mut supervisor, SupervisorEvent::NoMoreExits, 0),
        SupervisorAction::CheckHealth
    );
    assert_eq!(
        go(&mut supervisor, SupervisorEvent::Health(Ok(true)), 0),
        SupervisorAction::AwaitCommand
    );
    assert_eq!(
        go(&mut supervisor, SupervisorEvent::Stop, 0),
        SupervisorAction::PollWorkers
    );
    assert_eq!(
        go(&mut supervisor, SupervisorEvent::NoMoreExits, 0),
        SupervisorAction::FreezeAdmission
    );
    assert_eq!(supervisor.session().load(), DnsSessionState::Stopping);
    assert_eq!(
        go(&mut supervisor, SupervisorEvent::Frozen, 0),
        SupervisorAction::Quiesce
    );
    assert_eq!(
        go(&mut supervisor, SupervisorEvent::Quiesced(Ok(())), 0),
        SupervisorAction::ShutdownHandles
    );
    assert!(!supervisor.drain_enabled());
    assert_eq!(
        go(&mut supervisor, SupervisorEvent::HandlesShutdown(Ok(())), 0),
        SupervisorAction::InspectWorkers
    );
    assert!(supervisor.drain_enabled());
    assert!(!supervisor.finish_without_drain());
    assert_eq!(
        go(
            &mut supervisor,
            SupervisorEvent::Inspected { finished: true },
            0
        ),
        SupervisorAction::JoinWorkers
    );
    assert_eq!(
        go(
            &mut supervisor,
            SupervisorEvent::Joined {
                panicked: None,
                late: None
            },
            0
        ),
        SupervisorAction::ReleaseHandles
    );
    assert_eq!(
        go(&mut supervisor, SupervisorEvent::HandlesReleased, 0),
        SupervisorAction::StopCompanion
    );
    let last = supervisor.step(SupervisorEvent::CompanionStopped(Ok(())), 0);
    assert_eq!(last.action, SupervisorAction::Finish);
    assert_eq!(last.stop_answer, Some(Ok(())));
    assert!(supervisor.session().cleanup_complete());
    assert_eq!(supervisor.session().load(), DnsSessionState::Stopped);
}

#[test]
fn a_stop_that_takes_too_long_is_answered_and_goes_on() {
    let mut supervisor = Supervisor::new();
    go(&mut supervisor, SupervisorEvent::NoMoreExits, 0);
    go(&mut supervisor, SupervisorEvent::Health(Ok(true)), 0);
    go(&mut supervisor, SupervisorEvent::Stop, 0);
    go(&mut supervisor, SupervisorEvent::NoMoreExits, 0);
    go(&mut supervisor, SupervisorEvent::Frozen, 0);
    go(&mut supervisor, SupervisorEvent::Quiesced(Ok(())), 0);
    go(&mut supervisor, SupervisorEvent::HandlesShutdown(Ok(())), 0);
    let late = supervisor.step(SupervisorEvent::Inspected { finished: false }, 15_000);
    assert_eq!(late.action, SupervisorAction::AwaitCommand);
    assert_eq!(
        late.stop_answer,
        Some(Err(
            "DNS interception workers did not stop before the bounded deadline".to_owned()
        ))
    );
    assert_eq!(supervisor.session().load(), DnsSessionState::StopPending);
    assert!(!supervisor.session().cleanup_complete());
}

#[test]
fn rejected_rules_leave_the_session_running() {
    let mut supervisor = Supervisor::new();
    go(&mut supervisor, SupervisorEvent::NoMoreExits, 0);
    go(&mut supervisor, SupervisorEvent::Health(Ok(true)), 0);
    assert_eq!(
        go(&mut supervisor, SupervisorEvent::Reload, 0),
        SupervisorAction::ReloadRules
    );
    let answered = supervisor.step(
        SupervisorEvent::Reloaded(Err(TransparentReloadError::Rejected("bad".to_owned()))),
        0,
    );
    assert!(matches!(answered.reload_answer, Some(Err(_))));
    assert_eq!(supervisor.session().load(), DnsSessionState::Running);

    go(&mut supervisor, SupervisorEvent::NoMoreExits, 0);
    go(&mut supervisor, SupervisorEvent::Health(Ok(true)), 0);
    go(&mut supervisor, SupervisorEvent::Reload, 0);
    let lost = supervisor.step(
        SupervisorEvent::Reloaded(Err(TransparentReloadError::Uncertain("lost".to_owned()))),
        0,
    );
    assert!(matches!(lost.reload_answer, Some(Err(_))));
    assert_eq!(supervisor.session().load(), DnsSessionState::Failed);
}

#[test]
fn a_worker_that_ends_by_itself_fails_the_session() {
    let mut supervisor = Supervisor::new();
    go(
        &mut supervisor,
        SupervisorEvent::WorkerExited {
            index: 1,
            result: Ok(()),
        },
        0,
    );
    assert_eq!(
        supervisor.session().error(),
        Some("DNS interception worker 1 exited unexpectedly".to_owned())
    );
    assert_eq!(
        go(&mut supervisor, SupervisorEvent::NoMoreExits, 0),
        SupervisorAction::FreezeAdmission
    );
}

#[test]
fn a_session_starts_in_order() {
    let mut startup = Startup::new();
    assert_eq!(
        startup.step(StartEvent::Companion(Ok(()))),
        StartAction::MakeRouter
    );
    assert_eq!(
        startup.step(StartEvent::Router(Ok(2))),
        StartAction::OpenHandle(0)
    );
    assert_eq!(
        startup.step(StartEvent::Opened(Ok(()))),
        StartAction::OpenHandle(1)
    );
    assert_eq!(
        startup.step(StartEvent::Opened(Ok(()))),
        StartAction::SpawnWorker(0)
    );
    assert_eq!(
        startup.step(StartEvent::Spawned(Ok(()))),
        StartAction::SpawnWorker(1)
    );
    assert_eq!(
        startup.step(StartEvent::Spawned(Ok(()))),
        StartAction::PublishRunning
    );
    assert_eq!(
        startup.step(StartEvent::Published),
        StartAction::SpawnSupervisor
    );
    assert_eq!(
        startup.step(StartEvent::Supervised(Ok(()))),
        StartAction::Finish
    );
    assert!(!startup.cleanup_confirmed());
    assert_eq!(startup.outcome(), Ok(()));
}

#[test]
fn a_start_that_fails_is_undone() {
    let mut startup = Startup::new();
    startup.step(StartEvent::Companion(Ok(())));
    startup.step(StartEvent::Router(Ok(1)));
    assert_eq!(
        startup.step(StartEvent::Opened(Err("denied".to_owned()))),
        StartAction::Quiesce
    );
    assert_eq!(
        startup.step(StartEvent::Quiesced(Ok(()))),
        StartAction::CleanupHandles { drain: true }
    );
    assert_eq!(
        startup.step(StartEvent::Cleaned(Ok(()))),
        StartAction::ReleaseHandles
    );
    assert_eq!(
        startup.step(StartEvent::HandlesReleased),
        StartAction::StopCompanion
    );
    assert_eq!(
        startup.step(StartEvent::CompanionStopped(Ok(()))),
        StartAction::Finish
    );
    assert!(startup.cleanup_confirmed());
    assert!(startup.outcome().unwrap_err().contains("denied"));
}

#[test]
fn a_session_whose_worker_does_not_start_is_failed_and_undone() {
    let mut startup = Startup::new();
    startup.step(StartEvent::Companion(Ok(())));
    startup.step(StartEvent::Router(Ok(1)));
    startup.step(StartEvent::Opened(Ok(())));
    assert_eq!(
        startup.step(StartEvent::Spawned(Err("no thread".to_owned()))),
        StartAction::FailSession
    );
    assert_eq!(
        startup.failure().as_deref(),
        Some("start DNS interception worker 0: no thread")
    );
    assert_eq!(startup.step(StartEvent::Failed), StartAction::Rollback);
    assert_eq!(
        startup.step(StartEvent::RolledBack(Ok(()))),
        StartAction::Finish
    );
    assert_eq!(
        startup.outcome(),
        Err("start DNS interception worker 0: no thread".to_owned())
    );
}

#[test]
fn workers_are_rolled_back_in_order() {
    let (mut rollback, action) = Rollback::new(2, 1);
    assert_eq!(action, RollbackAction::FreezeAdmission);
    assert_eq!(
        rollback.step(RollbackEvent::Frozen, 0),
        RollbackAction::Quiesce
    );
    assert_eq!(
        rollback.step(RollbackEvent::Quiesced(Ok(())), 100),
        RollbackAction::ShutdownHandles
    );
    assert!(rollback.quiesced());
    assert_eq!(
        rollback.step(RollbackEvent::HandlesShutdown(Err("busy".to_owned())), 110),
        RollbackAction::Pause
    );
    assert_eq!(
        rollback.step(RollbackEvent::Paused, 115),
        RollbackAction::ShutdownHandles
    );
    assert_eq!(
        rollback.step(RollbackEvent::HandlesShutdown(Ok(())), 116),
        RollbackAction::ReleaseWorkers { drain: true }
    );
    assert_eq!(
        rollback.step(RollbackEvent::Released, 117),
        RollbackAction::DrainUnstarted(1)
    );
    assert_eq!(
        rollback.step(RollbackEvent::Drained(Err("closed".to_owned())), 200),
        RollbackAction::LookAtWorkers
    );
    assert_eq!(
        rollback.step(RollbackEvent::Workers { finished: false }, 15_199),
        RollbackAction::Pause
    );
    assert_eq!(
        rollback.step(RollbackEvent::Paused, 15_204),
        RollbackAction::LookAtWorkers
    );
    assert_eq!(
        rollback.step(RollbackEvent::Workers { finished: true }, 15_204),
        RollbackAction::JoinWorkers
    );
    assert_eq!(
        rollback.step(
            RollbackEvent::Joined {
                index: 0,
                panicked: false
            },
            15_205
        ),
        RollbackAction::JoinWorkers
    );
    assert_eq!(
        rollback.step(RollbackEvent::AllJoined, 15_205),
        RollbackAction::ReleaseHandles
    );
    assert_eq!(
        rollback.step(RollbackEvent::HandlesReleased, 15_205),
        RollbackAction::StopCompanion
    );
    assert_eq!(
        rollback.step(RollbackEvent::CompanionStopped(Ok(())), 15_206),
        RollbackAction::Finish
    );
    assert!(rollback.cleanup_confirmed());
    assert_eq!(
        rollback.outcome(),
        Err("shutdown DNS handles: busy; drain unstarted handle 1: closed".to_owned())
    );
}

#[test]
fn a_rollback_is_detached_at_its_deadline() {
    let (mut rollback, _) = Rollback::new(1, 0);
    rollback.step(RollbackEvent::Frozen, 0);
    rollback.step(RollbackEvent::Quiesced(Err("gone".to_owned())), 1_000);
    rollback.step(RollbackEvent::HandlesShutdown(Err("busy".to_owned())), 1_001);
    assert_eq!(
        rollback.step(RollbackEvent::Paused, 16_000),
        RollbackAction::Detach {
            handles_shutdown: false
        }
    );
    assert!(!rollback.cleanup_confirmed());

    let (mut rollback, _) = Rollback::new(1, 1);
    rollback.step(RollbackEvent::Frozen, 0);
    rollback.step(RollbackEvent::Quiesced(Err("gone".to_owned())), 0);
    assert_eq!(
        rollback.step(RollbackEvent::HandlesShutdown(Ok(())), 1),
        RollbackAction::ReleaseWorkers { drain: false }
    );
    assert_eq!(
        rollback.step(RollbackEvent::Released, 2),
        RollbackAction::LookAtWorkers
    );
    assert_eq!(
        rollback.step(RollbackEvent::Workers { finished: false }, 15_002),
        RollbackAction::Detach {
            handles_shutdown: true
        }
    );
    assert!(rollback
        .outcome()
        .unwrap_err()
        .contains("did not stop during startup rollback"));
}

#[test]
fn an_unfinished_rollback_goes_on_until_everything_has_ended() {
    for quiesced in [true, false] {
        assert_eq!(
            retry_rollback(quiesced, RetryEvent::HandlesShutdown(false)),
            RetryAction::ShutdownAgain
        );
        assert_eq!(
            retry_rollback(quiesced, RetryEvent::HandlesShutdown(true)),
            RetryAction::ReleaseWorkers { drain: quiesced }
        );
        assert_eq!(
            retry_rollback(quiesced, RetryEvent::WorkersFinished(false)),
            RetryAction::AwaitWorkers
        );
        assert_eq!(
            retry_rollback(quiesced, RetryEvent::WorkersFinished(true)),
            RetryAction::JoinWorkers
        );
        assert_eq!(
            retry_rollback(quiesced, RetryEvent::CompanionStopped(true)),
            RetryAction::ConfirmCleanup
        );
        assert_eq!(
            retry_rollback(quiesced, RetryEvent::CompanionStopped(false)),
            RetryAction::Finish
        );
    }
    assert_eq!(
        retry_rollback(true, RetryEvent::Joined),
        RetryAction::DrainUnstarted
    );
    assert_eq!(
        retry_rollback(false, RetryEvent::Joined),
        RetryAction::ReleaseHandles
    );
    assert_eq!(
        retry_rollback(false, RetryEvent::HandlesReleased),
        RetryAction::StopCompanion
    );
    assert_eq!(
        retry_open_cleanup(CleanupEvent::HandlesReleased),
        RetryAction::StopCompanion
    );
    assert_eq!(
        retry_open_cleanup(CleanupEvent::HandlesShutdown(true)),
        RetryAction::ReleaseHandles
    );
    assert_eq!(
        retry_open_cleanup(CleanupEvent::HandlesShutdown(false)),
        RetryAction::ShutdownAgain
    );
}

#[test]
fn requests_are_admitted_by_state() {
    assert_eq!(admit_reload(DnsSessionState::Running), Ok(()));
    assert!(admit_reload(DnsSessionState::Stopping)
        .unwrap_err()
        .contains("Stopping"));
    assert_eq!(admit_stop(DnsSessionState::Running, None), None);
    assert_eq!(admit_stop(DnsSessionState::Stopped, None), Some(Ok(())));
    assert_eq!(reload_reply(Reply::Answered(Ok(())), None), Ok(()));
    assert!(reload_reply(Reply::TimedOut, None).is_err());
    assert_eq!(
        stop_reply(Reply::Answered(Err("late".to_owned())), None),
        Err("late".to_owned())
    );
    assert!(stop_reply(Reply::Unavailable, Some("gone".to_owned())).is_err());
}
