//! The watchdog that gives the settings back when its parent is gone.

use vapour_protection::dns_configuration::{DnsConfigurationError, DnsRestoreResult};
use vapour_protection::dns_watchdog::{
    filetime, parent_identity_matches, run, run_with_ready, should_restore_after_parent_exit,
    validate_inputs, DnsWatchdogError, DnsWatchdogOutcome, JournalPath, ParentWait,
    ParentWaitState, WatchdogAction, WatchdogEvent, WatchdogPhase, MAX_RESTORE_ATTEMPTS,
    RESTORE_RETRY_DELAY_MS,
};
use vapour_protection::dns_watchdog_cli::{
    arguments, completion_status, exit_code, parse, ready_line, refusal, switch,
};
use vapour_protection::dns_watchdog_process::{
    await_ready, checked_identity, creation_flags, parse_ready_line, ready_polled,
    terminate_polled, verify_independent, Disarm, Launch, LaunchAction, LaunchEvent, LaunchPhase,
    ProcessPoll, ReadyByte, ReadyMessage, ReadyPoll, ReadyReader, ReadyStep, MAX_READY_LINE_BYTES,
    READY_POLL_MS,
};

#[test]
fn creation_time_mismatch_is_rejected_without_an_observed_identity() {
    assert!(!parent_identity_matches(42, None));
    assert!(!parent_identity_matches(42, Some(41)));
    assert!(parent_identity_matches(42, Some(42)));
    assert!(!parent_identity_matches(0, Some(0)));
}

#[test]
fn restore_requires_verified_parent_exit_and_a_present_journal() {
    assert!(!should_restore_after_parent_exit(
        ParentWaitState::Alive,
        true
    ));
    assert!(!should_restore_after_parent_exit(
        ParentWaitState::Exited,
        false
    ));
    assert!(should_restore_after_parent_exit(
        ParentWaitState::Exited,
        true
    ));
}

fn absolute() -> JournalPath {
    JournalPath {
        absolute: true,
        climbs: false,
        named: true,
    }
}

#[test]
fn invalid_parent_or_relative_journal_is_rejected_before_platform_work() {
    let relative = JournalPath {
        absolute: false,
        climbs: false,
        named: true,
    };
    assert!(matches!(
        validate_inputs(0, 1, absolute()),
        Err(DnsWatchdogError::InvalidParentIdentity)
    ));
    assert!(matches!(
        validate_inputs(1, 1, relative),
        Err(DnsWatchdogError::InvalidJournalPath(_))
    ));
    assert!(validate_inputs(1, 1, absolute()).is_ok());
}

#[test]
fn retry_budget_is_fixed_and_bounded() {
    assert_eq!(MAX_RESTORE_ATTEMPTS, 8);
    assert!(RESTORE_RETRY_DELAY_MS <= 1000);
}

#[test]
fn a_watchdog_does_not_guard_itself() {
    assert!(matches!(
        run(7, 1, absolute(), 7),
        Err(DnsWatchdogError::InvalidParentIdentity)
    ));
    assert!(matches!(
        run_with_ready(7, 0, absolute(), 8),
        Err(DnsWatchdogError::InvalidParentIdentity)
    ));
    let climbing = JournalPath {
        absolute: true,
        climbs: true,
        named: true,
    };
    assert!(matches!(
        run(7, 1, climbing, 8),
        Err(DnsWatchdogError::InvalidJournalPath(_))
    ));
}

fn removed() -> DnsRestoreResult {
    DnsRestoreResult {
        restored_stack_count: 2,
        skipped_stack_count: 0,
        remaining: Vec::new(),
        journal_removed: true,
    }
}

#[test]
fn settings_are_given_back_once_the_parent_has_gone() {
    let mut watchdog = run_with_ready(7, 99, absolute(), 8).unwrap();
    assert_eq!(watchdog.phase(), WatchdogPhase::Open);
    assert_eq!(
        watchdog.step(WatchdogEvent::Opened(Ok(()))),
        WatchdogAction::QueryCreationTime
    );
    assert_eq!(
        watchdog.step(WatchdogEvent::CreationTime(Ok(99))),
        WatchdogAction::SignalReady
    );
    assert_eq!(
        watchdog.step(WatchdogEvent::Ready(Ok(()))),
        WatchdogAction::WaitForParent
    );
    assert_eq!(
        watchdog.step(WatchdogEvent::Parent(ParentWait::TimedOut)),
        WatchdogAction::WaitForParent
    );
    assert_eq!(
        watchdog.step(WatchdogEvent::Parent(ParentWait::Exited)),
        WatchdogAction::ReadJournal
    );
    assert_eq!(
        watchdog.step(WatchdogEvent::Journal(Ok(true))),
        WatchdogAction::Restore
    );
    assert_eq!(
        watchdog.step(WatchdogEvent::Restored(Ok(removed()))),
        WatchdogAction::Finish
    );
    assert_eq!(
        watchdog.outcome(),
        Ok(DnsWatchdogOutcome::Restored {
            attempts: 1,
            result: removed()
        })
    );
}

#[test]
fn a_reused_process_number_is_no_parent() {
    let mut watchdog = run(7, 99, absolute(), 8).unwrap();
    watchdog.step(WatchdogEvent::Opened(Ok(())));
    assert_eq!(
        watchdog.step(WatchdogEvent::CreationTime(Ok(100))),
        WatchdogAction::Finish
    );
    assert_eq!(
        watchdog.outcome(),
        Ok(DnsWatchdogOutcome::ParentIdentityMismatch)
    );
}

#[test]
fn attempts_end_after_the_budget() {
    let mut watchdog = run(7, 99, absolute(), 8).unwrap();
    watchdog.step(WatchdogEvent::Opened(Ok(())));
    watchdog.step(WatchdogEvent::CreationTime(Ok(99)));
    let mut action = watchdog.step(WatchdogEvent::Parent(ParentWait::Exited));
    let mut reads = 0;
    loop {
        match action {
            WatchdogAction::ReadJournal | WatchdogAction::PauseAndReadJournal => {
                reads += 1;
                action = watchdog.step(WatchdogEvent::Journal(Ok(true)));
            }
            WatchdogAction::Restore => {
                let mut left = removed();
                left.journal_removed = false;
                action = watchdog.step(WatchdogEvent::Restored(Ok(left)));
            }
            WatchdogAction::Finish => break,
            other => panic!("unexpected {other:?}"),
        }
    }
    assert_eq!(reads, MAX_RESTORE_ATTEMPTS);
    match watchdog.outcome() {
        Ok(DnsWatchdogOutcome::PersistentRestoreFailure {
            attempts,
            last_error,
        }) => {
            assert_eq!(attempts, 8);
            assert!(last_error.contains("without removing its journal"));
        }
        other => panic!("expected a persistent failure: {other:?}"),
    }
}

#[test]
fn each_failure_of_the_watchdog_is_named() {
    let begun = || run(7, 99, absolute(), 8).unwrap();
    let mut closed = begun();
    closed.step(WatchdogEvent::Opened(Err(5)));
    assert_eq!(
        closed.outcome(),
        Err(DnsWatchdogError::ParentOpen { code: 5 })
    );
    let mut timeless = begun();
    timeless.step(WatchdogEvent::Opened(Ok(())));
    timeless.step(WatchdogEvent::CreationTime(Err(6)));
    assert_eq!(
        timeless.outcome(),
        Err(DnsWatchdogError::ParentCreationTime { code: 6 })
    );
    let mut waiting = begun();
    waiting.step(WatchdogEvent::Opened(Ok(())));
    waiting.step(WatchdogEvent::CreationTime(Ok(99)));
    waiting.step(WatchdogEvent::Parent(ParentWait::Failed { code: 7 }));
    assert_eq!(
        waiting.outcome(),
        Err(DnsWatchdogError::ParentWait { code: 7 })
    );
    let mut silent = run_with_ready(7, 99, absolute(), 8).unwrap();
    silent.step(WatchdogEvent::Opened(Ok(())));
    silent.step(WatchdogEvent::CreationTime(Ok(99)));
    silent.step(WatchdogEvent::Ready(Err("pipe closed".to_owned())));
    let error = silent.outcome().unwrap_err();
    assert!(error.message().contains("pipe closed"));
    let mut missing = begun();
    missing.step(WatchdogEvent::Opened(Ok(())));
    missing.step(WatchdogEvent::CreationTime(Ok(99)));
    missing.step(WatchdogEvent::Parent(ParentWait::Exited));
    missing.step(WatchdogEvent::Journal(Ok(true)));
    missing.step(WatchdogEvent::Restored(Err(
        DnsConfigurationError::JournalMissing,
    )));
    assert_eq!(
        missing.outcome(),
        Ok(DnsWatchdogOutcome::ParentExitedWithoutJournal)
    );
}

#[test]
fn file_times_have_two_halves() {
    assert_eq!(filetime(1, 2), 0x1_0000_0002);
    assert_eq!(filetime(u32::MAX, u32::MAX), u64::MAX);
}

fn args(values: &[&str]) -> Vec<Option<String>> {
    values.iter().map(|value| Some(value.to_string())).collect()
}

#[test]
fn recovery_failure_is_reported_with_bounded_details() {
    let (code, status) = completion_status(Ok(DnsWatchdogOutcome::PersistentRestoreFailure {
        attempts: 8,
        last_error: "é".repeat(2048),
    }));
    let status: serde_json::Value = serde_json::from_str(&status).unwrap();
    assert_eq!(code, 1);
    assert_eq!(status["status"], "recovery_failed");
    assert_eq!(status["attempts"], 8);
    assert_eq!(status["error"].as_str().unwrap().chars().count(), 1024);
    let (code, status) = completion_status(Ok(DnsWatchdogOutcome::ParentIdentityMismatch));
    let status: serde_json::Value = serde_json::from_str(&status).unwrap();
    assert_eq!(code, 2);
    assert_eq!(status["status"], "parent_mismatch");
}

#[test]
fn ordinary_app_launch_is_not_intercepted() {
    assert!(parse(&[]).is_none());
    assert!(parse(&args(&["--other"])).is_none());
    assert!(parse(&[None]).is_none());
}

#[test]
fn watchdog_rejects_invalid_identity_and_journal_paths() {
    let switch = switch();
    for values in [
        vec![switch],
        vec![switch, "0", "123"],
        vec![switch, "1", "0"],
        vec![switch, "bad", "123"],
        vec![switch, "1", "18446744073709551616"],
        vec![switch, "0", "123", "C:\\Vapour\\dns-recovery.json"],
        vec![switch, "1", "0", "C:\\Vapour\\dns-recovery.json"],
        vec![switch, "1", "123", "dns-recovery.json"],
        vec![switch, "1", "123", "C:\\Vapour\\wrong.json"],
        vec![switch, "1", "123", "C:\\Vapour\\..\\dns-recovery.json"],
        vec![switch, "1", "123", "\\\\server\\share\\dns-recovery.json"],
    ] {
        assert!(parse(&args(&values)).unwrap().is_err());
    }
}

#[test]
fn watchdog_accepts_only_parent_identity() {
    let input = args(&[switch(), "42", "123"]);
    let request = parse(&input).unwrap().unwrap();
    assert_eq!(request.pid, 42);
    assert_eq!(request.creation, 123);
    assert!(parse(&args(&[
        switch(),
        "42",
        "123",
        "C:\\Vapour Data\\dns-recovery.json"
    ]))
    .unwrap()
    .is_err());
}

#[test]
fn success_is_said_with_a_zero() {
    assert_eq!(
        completion_status(Ok(DnsWatchdogOutcome::ParentExitedWithoutJournal)),
        (
            0,
            "{\"journal_present\":false,\"status\":\"stopped\"}".to_owned()
        )
    );
    assert_eq!(
        completion_status(Ok(DnsWatchdogOutcome::Restored {
            attempts: 3,
            result: removed()
        })),
        (
            0,
            "{\"attempts\":3,\"restored_stacks\":2,\"status\":\"restored\"}".to_owned()
        )
    );
    assert_eq!(
        completion_status(Err(DnsWatchdogError::UnsupportedPlatform)).0,
        1
    );
    assert_eq!(refusal(&"x".repeat(2000)), (2, "x".repeat(1024)));
    assert_eq!(exit_code(0, true), 0);
    assert_eq!(exit_code(0, false), 1);
    assert_eq!(exit_code(2, true), 2);
    assert_eq!(ready_line(), "{\"status\":\"ready\"}\n");
}

fn decode(bytes: Vec<u8>) -> Result<ReadyMessage, String> {
    let value: serde_json::Value =
        serde_json::from_slice(&bytes).map_err(|error| error.to_string())?;
    let fields = value.as_object().ok_or("not an object")?;
    if fields.len() != 1 {
        return Err("unknown field".to_owned());
    }
    Ok(ReadyMessage {
        status: value["status"].as_str().ok_or("no status")?.to_owned(),
    })
}

#[test]
fn ready_parser_requires_the_exact_ready_object() {
    assert!(parse_ready_line(br#"{"status":"ready"}"#, decode).is_ok());
    for line in [
        br#"{"status":"stopped"}"#.as_slice(),
        br#"{"status":"ready","extra":true}"#.as_slice(),
        br#" {"status":"ready"}"#.as_slice(),
        br#"{"status":"ready"} "#.as_slice(),
        b"not-json".as_slice(),
    ] {
        assert!(parse_ready_line(line, decode).is_err(), "accepted {line:?}");
    }
}

/// Reads a line from some bytes and their end.
fn read_ready_line(bytes: &[u8]) -> Result<Vec<u8>, String> {
    let mut reader = ReadyReader::new();
    for byte in bytes {
        match reader.read_ready_line(ReadyByte::Byte(*byte)) {
            ReadyStep::More => {}
            ReadyStep::Line(line) => return Ok(line),
            ReadyStep::Failed(message) => return Err(message),
        }
    }
    match reader.read_ready_line(ReadyByte::End) {
        ReadyStep::Failed(message) => Err(message),
        other => panic!("the end is a failure: {other:?}"),
    }
}

#[test]
fn ready_reader_rejects_early_exit_and_oversized_lines() {
    assert!(read_ready_line(&[]).is_err());
    assert!(read_ready_line(&vec![b'x'; MAX_READY_LINE_BYTES]).is_err());
    assert_eq!(read_ready_line(b"ready\nmore"), Ok(b"ready".to_vec()));
}

#[test]
fn ready_wait_has_a_deadline_when_child_is_silent() {
    let mut remaining = 5;
    let error = loop {
        match await_ready(remaining) {
            Ok(slice) => {
                assert_eq!(ready_polled(ReadyPoll::Nothing), None);
                remaining -= slice.min(remaining);
            }
            Err(error) => break error,
        }
    };
    assert!(error.contains("readiness deadline"));
}

#[test]
fn readiness_is_polled_in_slices() {
    assert_eq!(await_ready(10_000), Ok(READY_POLL_MS));
    assert_eq!(await_ready(40), Ok(40));
    assert_eq!(ready_polled(ReadyPoll::Received(Ok(()))), Some(Ok(())));
    assert!(matches!(
        ready_polled(ReadyPoll::Disconnected),
        Some(Err(_))
    ));
    assert_eq!(terminate_polled(&ProcessPoll::Exited(Some(1)), false), Some(true));
    assert_eq!(terminate_polled(&ProcessPoll::Running, false), None);
    assert_eq!(terminate_polled(&ProcessPoll::Running, true), Some(false));
}

#[test]
fn a_watchdog_is_launched_outside_a_job() {
    assert_eq!(creation_flags(false), 0x0800_0000);
    assert_eq!(creation_flags(true), 0x0900_0000);
    assert_eq!(verify_independent(false), Ok(()));
    assert!(verify_independent(true).is_err());
    assert_eq!(checked_identity(7, 9), Ok((7, 9)));
    assert!(checked_identity(0, 9).is_err());
    assert!(checked_identity(7, 0).is_err());
}

fn launched() -> Launch {
    let mut launch = Launch::start();
    launch.step(LaunchEvent::Identity(Ok(())));
    launch.step(LaunchEvent::Executable(Ok(true)));
    launch.step(LaunchEvent::Flags(Ok(())));
    assert_eq!(
        launch.step(LaunchEvent::Spawned(Ok(()))),
        LaunchAction::VerifyIndependence
    );
    launch.step(LaunchEvent::Independence(Ok(())));
    launch.step(LaunchEvent::Output(true));
    assert_eq!(
        launch.step(LaunchEvent::Reader(Ok(()))),
        LaunchAction::AwaitReady
    );
    launch
}

#[test]
fn a_launched_watchdog_is_handed_over_or_stopped() {
    let mut launch = launched();
    assert_eq!(
        launch.step(LaunchEvent::Ready(Ok(()))),
        LaunchAction::JoinReader
    );
    assert_eq!(launch.step(LaunchEvent::Joined(true)), LaunchAction::Inspect);
    assert_eq!(
        launch.step(LaunchEvent::Inspected(ProcessPoll::Running)),
        LaunchAction::Finish
    );
    let mut process = launch.outcome().unwrap();
    assert!(process.is_armed());
    assert_eq!(process.is_alive(ProcessPoll::Running), Ok(true));
    assert!(process.disarm_after_restore(Ok(()), Ok(true)).is_err());
    assert!(process
        .disarm_after_restore(Err("no folder".to_owned()), Ok(false))
        .is_err());
    assert_eq!(
        process.disarm_after_restore(Ok(()), Ok(false)),
        Ok(Disarm::Terminate)
    );
    assert!(process.disarmed(false).is_err());
    assert!(process.is_armed());
    assert_eq!(
        process.disarm_after_restore(Ok(()), Ok(false)),
        Ok(Disarm::Terminate)
    );
    assert_eq!(process.disarmed(true), Ok(()));
    assert!(!process.is_armed());
    assert_eq!(process.is_alive(ProcessPoll::Running), Ok(false));

    let mut silent = launched();
    assert_eq!(
        silent.step(LaunchEvent::Ready(Err("silent".to_owned()))),
        LaunchAction::Terminate
    );
    assert_eq!(silent.phase(), LaunchPhase::Terminate);
    assert_eq!(
        silent.step(LaunchEvent::Terminated(true)),
        LaunchAction::JoinReader
    );
    silent.step(LaunchEvent::Joined(true));
    assert!(silent.outcome().unwrap_err().contains("silent"));
}

#[test]
fn a_watchdog_understands_the_arguments_it_is_started_with() {
    let own = arguments(4321, 133_456_789_012_345_678);
    assert_eq!(own, vec![switch(), "4321", "133456789012345678"]);
    for (pid, creation) in [(1, 1), (4321, 133_456_789_012_345_678), (u32::MAX, u64::MAX)] {
        let texts: Vec<Option<String>> =
            arguments(pid, creation).into_iter().map(Some).collect();
        let request = parse(&texts).unwrap().unwrap();
        assert_eq!((request.pid, request.creation), (pid, creation));
    }
    let texts: Vec<Option<String>> = arguments(0, 1).into_iter().map(Some).collect();
    assert_eq!(parse(&texts), Some(Err("invalid parent PID")));
}
