//! What is asked for, and how the rules follow.

use vapour_protection::atomic_file::{
    read_bounded_file, temporary_file_name, AtomicWrite, FileRead, ReadFault, WriteAction,
    WriteEvent, WritePhase,
};
use vapour_protection::controller::{
    accept_intent, intent_text, load_intent, reconcile_action, resolve_requested, Change,
    ChangeAction, ChangeEvent, ChangePhase, EnforcementStatus, IntentError, IntentFile, Preference,
    ProtectionController, ReconcileAction, UpdateStatus, MAX_INTENT_FILE_BYTES,
};

fn decode(bytes: Vec<u8>) -> Result<IntentFile, String> {
    let value: serde_json::Value =
        serde_json::from_slice(&bytes).map_err(|error| error.to_string())?;
    Ok(IntentFile {
        format_version: value["format_version"].as_u64().ok_or("no version")? as u32,
        requested_enabled: value["requested_enabled"].as_bool().ok_or("no request")?,
    })
}

fn opened(bytes: &[u8]) -> FileRead {
    FileRead::Opened {
        length: Some(bytes.len() as u64),
        bytes: Ok(bytes.to_vec()),
    }
}

fn persisted(requested: bool) -> Vec<u8> {
    intent_text(requested).unwrap().into_bytes()
}

#[test]
fn requested_enable_reconciles_even_when_the_feed_has_no_endpoints() {
    assert_eq!(
        reconcile_action(true, false),
        ReconcileAction::Apply,
        "an empty feed still represents an enabled requested state"
    );
}

#[test]
fn persisted_request_survives_restart_and_ignores_later_rule_observation() {
    let file = persisted(true);
    let after_restart = load_intent(opened(&file), decode).unwrap();
    assert_eq!(after_restart, Some(true));
    assert!(resolve_requested(after_restart, false));
}

#[test]
fn missing_request_migrates_from_rules_once() {
    assert_eq!(load_intent(FileRead::Missing, decode).unwrap(), None);
    let migrated = resolve_requested(None, true);
    let file = persisted(migrated);
    assert!(migrated);
    assert_eq!(load_intent(opened(&file), decode).unwrap(), Some(true));
    assert!(resolve_requested(Some(migrated), false));
}

#[test]
fn explicit_disable_is_persisted_as_false() {
    let file = persisted(false);
    assert_eq!(load_intent(opened(&file), decode).unwrap(), Some(false));
    assert_eq!(reconcile_action(false, true), ReconcileAction::Disable);
}

#[test]
fn preference_write_failure_is_reported_without_replacing_existing_file() {
    let mut write = AtomicWrite::new(
        "preference",
        "could not allocate a unique preference temporary file",
        true,
    );
    assert_eq!(
        write.step(WriteEvent::Directory(Err("not a directory".to_owned()))),
        WriteAction::Finish
    );
    let error = write.outcome().unwrap_err();
    assert_eq!(error, "not a directory");
    let mut controller = ProtectionController::new();
    assert!(controller
        .persist_requested(true, Err(IntentError::Io(error)))
        .is_err());
    assert_eq!(controller.requested(), None);
}

#[test]
fn oversized_preference_is_rejected_before_deserialization() {
    let file = vec![b'x'; MAX_INTENT_FILE_BYTES + 1];
    assert!(matches!(
        load_intent(opened(&file), |_| panic!("not decoded")),
        Err(IntentError::TooLarge { .. })
    ));
}

#[test]
fn preferences_are_checked() {
    assert_eq!(
        intent_text(true).unwrap(),
        "{\"format_version\":1,\"requested_enabled\":true}"
    );
    assert!(matches!(
        load_intent(opened(b"nonsense"), decode),
        Err(IntentError::Invalid(_))
    ));
    assert!(matches!(
        load_intent(FileRead::Failed("denied".to_owned()), decode),
        Err(IntentError::Io(_))
    ));
    let newer = IntentFile {
        format_version: 2,
        requested_enabled: true,
    };
    assert_eq!(
        accept_intent(Ok(newer)),
        Err(IntentError::UnsupportedVersion {
            actual: 2,
            expected: 1
        })
    );
    let message = accept_intent(Ok(newer)).unwrap_err().message();
    assert!(message.contains('2'), "{message}");
}

#[test]
fn a_stored_preference_wins_over_the_rules() {
    let mut controller = ProtectionController::new();
    assert_eq!(
        controller.load_or_migrate_requested(Ok(Some(false)), true),
        Ok(Preference::Known(false))
    );
    assert_eq!(
        controller.load_or_migrate_requested(Ok(Some(true)), true),
        Ok(Preference::Known(false))
    );

    let mut fresh = ProtectionController::new();
    assert_eq!(
        fresh.load_or_migrate_requested(Ok(None), true),
        Ok(Preference::Migrated(true))
    );
    assert_eq!(fresh.requested(), Some(true));
    assert_eq!(fresh.persist_requested(false, Ok(())), Ok(()));
    assert_eq!(fresh.requested(), Some(false));
}

#[test]
fn rounds_are_told_and_decide_about_the_rules() {
    let mut controller = ProtectionController::new();
    controller.scheduled(Err("offline".to_owned()));
    let status = controller.status(
        true,
        EnforcementStatus { enabled: false },
        UpdateStatus { refreshing: true },
    );
    assert_eq!(status.update_error, Some("offline".to_owned()));
    assert!(status.feed.refreshing);
    assert!(ProtectionController::refresh(&status).is_some());
    controller.scheduled(Ok(()));
    let status = controller.status(
        false,
        EnforcementStatus { enabled: false },
        UpdateStatus { refreshing: false },
    );
    assert_eq!(status.update_error, None);
    assert_eq!(ProtectionController::refresh(&status), None);
    assert!(ProtectionController::begin(true).is_err());
    assert_eq!(ProtectionController::begin(false), Ok(()));
    for (requested, enabled, action) in [
        (true, true, ChangeAction::RequestFeed),
        (true, false, ChangeAction::RequestFeed),
        (false, true, ChangeAction::RemoveRules),
    ] {
        let status = controller.status(
            requested,
            EnforcementStatus { enabled },
            UpdateStatus { refreshing: false },
        );
        let mut change = ProtectionController::refresh(&status).unwrap();
        assert_eq!(change.step(ChangeEvent::Elevation(true)), action);
    }
    assert!(!controller.is_stopped());
    controller.stop();
    assert!(controller.is_stopped());
}

fn begun(enabled: bool) -> Change {
    let wish = ProtectionController::set_enabled(enabled, false).unwrap();
    ProtectionController::new()
        .set_enabled_kept(wish, Ok(()))
        .unwrap()
}

#[test]
fn rules_change_only_once_the_preference_is_kept() {
    assert_eq!(
        ProtectionController::set_enabled(true, true),
        Err("Protection change already in progress".to_owned())
    );
    let mut controller = ProtectionController::new();
    let wish = ProtectionController::set_enabled(true, false).unwrap();
    assert!(wish.enabled());
    assert_eq!(
        controller.set_enabled_kept(wish, Err(IntentError::Io("disk full".to_owned()))),
        Err(
            "could not persist protection preference: preference I/O failed: disk full".to_owned()
        )
    );
    assert_eq!(controller.requested(), None);
    let wish = ProtectionController::set_enabled(false, false).unwrap();
    let mut change = controller.set_enabled_kept(wish, Ok(())).unwrap();
    assert_eq!(controller.requested(), Some(false));
    assert_eq!(
        change.step(ChangeEvent::Elevation(true)),
        ChangeAction::RemoveRules
    );
}

#[test]
fn rules_are_applied_with_a_validated_feed() {
    let mut change = begun(true);
    assert_eq!(change.phase(), ChangePhase::Elevation);
    assert_eq!(
        change.step(ChangeEvent::Elevation(true)),
        ChangeAction::RequestFeed
    );
    assert_eq!(
        change.step(ChangeEvent::Feed {
            refreshing: true,
            timed_out: false
        }),
        ChangeAction::AwaitFeed
    );
    assert_eq!(
        change.step(ChangeEvent::Feed {
            refreshing: false,
            timed_out: true
        }),
        ChangeAction::TakeFeed
    );
    assert_eq!(
        change.step(ChangeEvent::Snapshot(true)),
        ChangeAction::ApplyRules
    );
    assert_eq!(
        change.step(ChangeEvent::Applied(Ok(false))),
        ChangeAction::Finish
    );
    assert_eq!(change.outcome(), Ok(()));
}

#[test]
fn a_change_says_why_it_fails() {
    let mut plain = begun(true);
    plain.step(ChangeEvent::Elevation(false));
    assert_eq!(
        plain.outcome(),
        Err("Administrator access is required".to_owned())
    );

    let mut late = begun(true);
    late.step(ChangeEvent::Elevation(true));
    late.step(ChangeEvent::Feed {
        refreshing: true,
        timed_out: true,
    });
    assert_eq!(
        late.outcome(),
        Err("Threat feed refresh timed out".to_owned())
    );

    let mut empty = begun(true);
    empty.step(ChangeEvent::Elevation(true));
    empty.step(ChangeEvent::Feed {
        refreshing: false,
        timed_out: false,
    });
    empty.step(ChangeEvent::Snapshot(false));
    assert_eq!(
        empty.outcome(),
        Err("No validated threat feed is available".to_owned())
    );

    let mut left = begun(false);
    assert_eq!(
        left.step(ChangeEvent::Elevation(true)),
        ChangeAction::RemoveRules
    );
    left.step(ChangeEvent::Disabled(Ok(3)));
    assert_eq!(
        left.outcome(),
        Err("Some protection rules could not be removed".to_owned())
    );
}

#[test]
fn a_file_is_replaced_by_one_that_was_synced() {
    let mut write = AtomicWrite::new("cache", "no name left", true);
    assert_eq!(write.phase(), WritePhase::Directory);
    assert_eq!(
        write.step(WriteEvent::Directory(Ok(()))),
        WriteAction::Open
    );
    assert_eq!(write.step(WriteEvent::Exists), WriteAction::Open);
    assert_eq!(write.step(WriteEvent::Opened), WriteAction::Write);
    assert_eq!(write.step(WriteEvent::Written(Ok(()))), WriteAction::Sync);
    assert_eq!(write.step(WriteEvent::Synced(Ok(()))), WriteAction::Replace);
    assert_eq!(
        write.step(WriteEvent::Replaced(Ok(()))),
        WriteAction::Finish
    );
    assert_eq!(write.outcome(), Ok(()));

    let mut unsynced = AtomicWrite::new("cache", "no name left", true);
    unsynced.step(WriteEvent::Directory(Ok(())));
    unsynced.step(WriteEvent::Opened);
    unsynced.step(WriteEvent::Written(Ok(())));
    assert_eq!(
        unsynced.step(WriteEvent::Synced(Err("full".to_owned()))),
        WriteAction::Remove
    );
    assert_eq!(unsynced.outcome(), Err("full".to_owned()));

    let mut taken = AtomicWrite::new("cache", "no name left", true);
    taken.step(WriteEvent::Directory(Ok(())));
    for _ in 0..31 {
        assert_eq!(taken.step(WriteEvent::Exists), WriteAction::Open);
    }
    assert_eq!(taken.step(WriteEvent::Exists), WriteAction::Finish);
    assert_eq!(taken.outcome(), Err("no name left".to_owned()));

    let mut unnamed = AtomicWrite::new("cache", "no name left", false);
    unnamed.step(WriteEvent::Directory(Ok(())));
    assert_eq!(
        unnamed.outcome(),
        Err("cache path must contain a file name".to_owned())
    );
}

#[test]
fn files_are_read_up_to_a_limit() {
    assert_eq!(read_bounded_file(FileRead::Missing, 4), Ok(None));
    assert_eq!(
        read_bounded_file(opened(b"abcd"), 4),
        Ok(Some(b"abcd".to_vec()))
    );
    assert_eq!(
        read_bounded_file(opened(b"abcde"), 4),
        Err(ReadFault::TooLarge { actual: 5 })
    );
    assert_eq!(
        read_bounded_file(
            FileRead::Opened {
                length: None,
                bytes: Ok(b"abcde".to_vec())
            },
            4
        ),
        Err(ReadFault::TooLarge { actual: 5 })
    );
    assert_eq!(
        read_bounded_file(FileRead::Failed("denied".to_owned()), 4),
        Err(ReadFault::Io("denied".to_owned()))
    );
}

#[test]
fn temporary_files_are_hidden_beside_their_file() {
    assert_eq!(
        temporary_file_name("feed.json", 12, 3),
        ".feed.json.tmp-12-3"
    );
}
