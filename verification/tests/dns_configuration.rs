//! Planning, applying and undoing changes of DNS settings.

use vapour_protection::atomic_file::FileRead;
use vapour_protection::dns_apply::{
    begin_apply, prepare_journal, set_operation, set_original, ApplyAction, ApplyEvent, ApplyPhase,
    ApplyRun, ApplyStart, OwnedAction, OwnedPhase, OwnedRestore,
};
use vapour_protection::dns_configuration::{
    copy_servers, loopback_ipv4, loopback_ipv6, same_servers, source, AdapterDnsSnapshot,
    DnsApplyPlan, DnsConfigurationError, DnsFamily, DnsRestoreIssue, DnsSetting, DnsSkipReason,
    DnsSnapshot, DnsUnavailableReason, MAX_ADAPTERS, MAX_DNS_SERVERS,
};
use vapour_protection::dns_journal::{
    accept_journal, journal_from_plan, journal_text, read_journal, validate_journal,
    DnsJournalAdapter, DnsJournalStack, DnsRecoveryJournal, MAX_JOURNAL_BYTES,
};
use vapour_protection::dns_plan::{
    generation_for, normalized_loopback_servers, plan, validate_snapshot, write_setting,
};
use vapour_protection::dns_restore::{
    Removal, RestoreAction, RestoreEvent, RestorePhase, RestoreRun,
};
use vapour_protection::guid::{canonical_guid, parse_guid};
use vapour_protection::net::{ip_from_text, IpAddr};

fn ip(text: &str) -> IpAddr {
    ip_from_text(text).unwrap()
}

fn fixed(servers: Vec<IpAddr>) -> DnsSetting {
    DnsSetting::Static { servers }
}

/// Gives back a setting, reading by `read` and counting the writes.
fn restore_owned_setting(
    original: &DnsSetting,
    applied: &[IpAddr],
    mut read: impl FnMut() -> DnsSetting,
    writes: &mut usize,
) -> Result<(), String> {
    let mut restore = OwnedRestore::restore_owned_setting(original, applied);
    let mut action = OwnedAction::Read;
    loop {
        action = match action {
            OwnedAction::Read => restore.read(Ok(read())),
            OwnedAction::Write => {
                *writes += 1;
                restore.written(Ok(()))
            }
            OwnedAction::Finish => {
                assert_eq!(restore.phase(), OwnedPhase::Finished);
                return restore.outcome();
            }
        }
    }
}

#[test]
fn rollback_preserves_external_dns_changes_and_verifies_its_write() {
    let original = DnsSetting::Automatic;
    let owned = fixed(vec![loopback_ipv4()]);
    let external = fixed(vec![ip("192.0.2.53")]);
    let mut writes = 0;
    let applied = [loopback_ipv4()];
    assert!(
        restore_owned_setting(&original, &applied, || external.clone(), &mut writes).is_err()
    );
    assert_eq!(writes, 0);
    assert!(restore_owned_setting(&original, &applied, || original.clone(), &mut writes).is_ok());
    assert_eq!(writes, 0);
    // A successful native setter is insufficient if policy overrides it.
    assert!(restore_owned_setting(&original, &applied, || owned.clone(), &mut writes).is_err());
    assert_eq!(writes, 1);
    let mut reads = [owned, original.clone()].into_iter();
    assert!(
        restore_owned_setting(&original, &applied, || reads.next().unwrap(), &mut writes).is_ok()
    );
    assert_eq!(writes, 2);
}

fn adapter(guid: &str, index: u32) -> AdapterDnsSnapshot {
    AdapterDnsSnapshot {
        interface_guid: guid.to_owned(),
        interface_index: index,
        interface_type: 6,
        operational_status: 2,
        media_connect_state: 2,
        ipv4: DnsSetting::Automatic,
        ipv6: fixed(vec![ip("2001:4860:4860::8888")]),
    }
}

fn test_snapshot() -> DnsSnapshot {
    DnsSnapshot {
        source: source().to_owned(),
        sampled_at_unix_secs: 1,
        adapters: vec![
            adapter("11111111-2222-3333-4455-66778899AABB", 1),
            AdapterDnsSnapshot {
                interface_guid: "AAAAAAAA-BBBB-CCCC-DDEE-FF0011223344".to_owned(),
                interface_index: 2,
                interface_type: 131,
                operational_status: 1,
                media_connect_state: 1,
                ipv4: DnsSetting::Unavailable {
                    reason: DnsUnavailableReason::QueryFailed { code: 5 },
                },
                ipv6: DnsSetting::Automatic,
            },
        ],
    }
}

#[test]
fn plan_keeps_static_and_automatic_modes_for_each_family() {
    let result = plan(&test_snapshot(), &[loopback_ipv4(), loopback_ipv6()]).unwrap();
    assert_eq!(result.operations.len(), 3);
    let ipv4 = result
        .operations
        .iter()
        .find(|operation| operation.interface_guid.starts_with("11111111"))
        .unwrap();
    assert_eq!(ipv4.family, DnsFamily::Ipv4);
    assert_eq!(ipv4.original, DnsSetting::Automatic);
    let ipv6 = result
        .operations
        .iter()
        .find(|operation| {
            operation.interface_guid.starts_with("11111111")
                && operation.family == DnsFamily::Ipv6
        })
        .unwrap();
    assert_eq!(ipv6.original, fixed(vec![ip("2001:4860:4860::8888")]));
    assert!(result.skipped.iter().any(|entry| {
        entry.interface_guid.starts_with("AAAAAAAA")
            && entry.family == DnsFamily::Ipv4
            && matches!(entry.reason, DnsSkipReason::Unavailable(_))
    }));
}

#[test]
fn plan_includes_disconnected_and_tunnel_adapters_without_filtering() {
    let result = plan(&test_snapshot(), &[loopback_ipv4()]).unwrap();
    assert_eq!(result.operations.len(), 1);
    assert_eq!(result.operations[0].interface_index, 1);
    assert!(result.skipped.iter().any(|entry| {
        entry.interface_guid.starts_with("AAAAAAAA") && entry.family == DnsFamily::Ipv4
    }));
    assert!(result.skipped.iter().any(|entry| {
        entry.interface_guid.starts_with("11111111")
            && entry.family == DnsFamily::Ipv6
            && matches!(entry.reason, DnsSkipReason::NoLoopbackServer)
    }));
}

#[test]
fn plan_rejects_arbitrary_upstream_and_invalid_family_values() {
    assert!(matches!(
        plan(&test_snapshot(), &[ip("8.8.8.8")]),
        Err(DnsConfigurationError::InvalidLoopbackServer { .. })
    ));
    let mut malformed = test_snapshot();
    malformed.adapters[0].ipv4 = fixed(vec![ip("::1")]);
    assert!(matches!(
        plan(&malformed, &[loopback_ipv4()]),
        Err(DnsConfigurationError::InvalidSnapshot(_))
    ));
}

#[test]
fn already_applied_values_are_skipped_without_claiming_ownership() {
    let mut snapshot = test_snapshot();
    snapshot.adapters.truncate(1);
    snapshot.adapters[0].ipv4 = fixed(vec![loopback_ipv4()]);
    let result = plan(&snapshot, &[loopback_ipv4()]).unwrap();
    assert!(result.operations.is_empty());
    assert!(result.skipped.iter().any(|entry| {
        entry.interface_guid.starts_with("11111111")
            && entry.family == DnsFamily::Ipv4
            && matches!(entry.reason, DnsSkipReason::AlreadyApplied)
    }));
}

fn read_setting(value: &serde_json::Value) -> Result<DnsSetting, String> {
    if value == "automatic" {
        return Ok(DnsSetting::Automatic);
    }
    if let Some(fields) = value.get("static") {
        return Ok(fixed(read_servers(&fields["servers"])?));
    }
    let reason = &value["unavailable"]["reason"];
    let reason = if reason == "invalid_data" {
        DnsUnavailableReason::InvalidData
    } else if reason == "unsupported" {
        DnsUnavailableReason::Unsupported
    } else {
        DnsUnavailableReason::QueryFailed {
            code: reason["query_failed"]["code"]
                .as_u64()
                .ok_or("unknown setting")? as u32,
        }
    };
    Ok(DnsSetting::Unavailable { reason })
}

fn read_servers(value: &serde_json::Value) -> Result<Vec<IpAddr>, String> {
    let mut servers = Vec::new();
    for server in value.as_array().ok_or("no servers")? {
        let text = server.as_str().ok_or("no server")?;
        servers.push(ip_from_text(text).ok_or("no address")?);
    }
    Ok(servers)
}

fn read_stack(value: &serde_json::Value) -> Result<Option<DnsJournalStack>, String> {
    if value.is_null() {
        return Ok(None);
    }
    Ok(Some(DnsJournalStack {
        original: read_setting(&value["original"])?,
        applied_servers: read_servers(&value["applied_servers"])?,
    }))
}

fn text_of(value: &serde_json::Value, key: &str) -> Result<String, String> {
    Ok(value[key].as_str().ok_or("no text")?.to_owned())
}

fn number_of(value: &serde_json::Value, key: &str) -> Result<u64, String> {
    Ok(value[key].as_u64().ok_or("no number")?)
}

fn decode(bytes: Vec<u8>) -> Result<DnsRecoveryJournal, String> {
    let value: serde_json::Value =
        serde_json::from_slice(&bytes).map_err(|error| error.to_string())?;
    let mut adapters = Vec::new();
    for adapter in value["adapters"].as_array().ok_or("no adapters")? {
        adapters.push(DnsJournalAdapter {
            interface_guid: text_of(adapter, "interface_guid")?,
            interface_index: number_of(adapter, "interface_index")? as u32,
            interface_type: number_of(adapter, "interface_type")? as u32,
            operational_status: number_of(adapter, "operational_status")? as u32,
            media_connect_state: number_of(adapter, "media_connect_state")? as u32,
            ipv4: read_stack(&adapter["ipv4"])?,
            ipv6: read_stack(&adapter["ipv6"])?,
        });
    }
    Ok(DnsRecoveryJournal {
        format_version: number_of(&value, "format_version")? as u32,
        source: text_of(&value, "source")?,
        generation: text_of(&value, "generation")?,
        created_at_unix_secs: number_of(&value, "created_at_unix_secs")?,
        adapters,
    })
}

fn opened(bytes: &[u8]) -> FileRead {
    FileRead::Opened {
        length: Some(bytes.len() as u64),
        bytes: Ok(bytes.to_vec()),
    }
}

#[test]
fn journal_round_trip_preserves_original_and_applied_values() {
    let snapshot = test_snapshot();
    let plan = plan(&snapshot, &[loopback_ipv4(), loopback_ipv6()]).unwrap();
    let journal = journal_from_plan(&snapshot, &plan, 7).unwrap();
    let text = journal_text(&journal).unwrap();
    assert!(text.len() < MAX_JOURNAL_BYTES);
    let restored = decode(text.into_bytes()).unwrap();
    validate_journal(&restored).unwrap();
    assert_eq!(restored, journal);
    let static_stack = restored
        .adapters
        .iter()
        .find(|adapter| adapter.interface_guid.starts_with("11111111"))
        .unwrap()
        .ipv6
        .as_ref()
        .unwrap();
    assert_eq!(
        static_stack.original,
        fixed(vec![ip("2001:4860:4860::8888")])
    );
    assert_eq!(static_stack.applied_servers, vec![loopback_ipv6()]);
}

#[test]
fn journal_validation_rejects_unknown_generation_or_unavailable_original() {
    let snapshot = test_snapshot();
    let plan = plan(&snapshot, &[loopback_ipv4()]).unwrap();
    let mut journal = journal_from_plan(&snapshot, &plan, 7).unwrap();
    journal.generation = "not-a-generation".to_owned();
    assert!(matches!(
        validate_journal(&journal),
        Err(DnsConfigurationError::JournalInvalid(_))
    ));

    let mut journal = journal_from_plan(&snapshot, &plan, 7).unwrap();
    journal
        .adapters
        .iter_mut()
        .find(|adapter| adapter.interface_guid.starts_with("11111111"))
        .unwrap()
        .ipv4
        .as_mut()
        .unwrap()
        .original = DnsSetting::Unavailable {
        reason: DnsUnavailableReason::InvalidData,
    };
    journal.generation = "a".repeat(64);
    assert!(matches!(
        validate_journal(&journal),
        Err(DnsConfigurationError::JournalInvalid(_))
    ));
}

#[test]
fn read_journal_rejects_files_over_the_bound_before_parsing() {
    let bytes = vec![b'x'; MAX_JOURNAL_BYTES + 1];
    assert!(matches!(
        read_journal(opened(&bytes), |_| panic!("not parsed")),
        Err(DnsConfigurationError::JournalTooLarge { .. })
    ));
}

#[test]
fn journals_are_read_or_refused() {
    assert_eq!(read_journal(FileRead::Missing, decode), Ok(None));
    assert!(matches!(
        read_journal(FileRead::Failed("denied".to_owned()), decode),
        Err(DnsConfigurationError::JournalIo(_))
    ));
    assert!(matches!(
        read_journal(opened(b"nonsense"), decode),
        Err(DnsConfigurationError::JournalInvalid(_))
    ));
    let snapshot = test_snapshot();
    let plan = plan(&snapshot, &[loopback_ipv4()]).unwrap();
    let journal = journal_from_plan(&snapshot, &plan, 7).unwrap();
    let text = journal_text(&journal).unwrap();
    assert_eq!(
        read_journal(opened(text.as_bytes()), decode),
        Ok(Some(journal.clone()))
    );
    let mut newer = journal;
    newer.format_version = 2;
    assert!(matches!(
        accept_journal(Ok(newer)),
        Err(DnsConfigurationError::JournalInvalid(_))
    ));
}

#[test]
fn snapshots_are_checked() {
    assert_eq!(validate_snapshot(&test_snapshot()), Ok(()));
    let refused = |change: fn(&mut DnsSnapshot)| {
        let mut snapshot = test_snapshot();
        change(&mut snapshot);
        matches!(
            validate_snapshot(&snapshot),
            Err(DnsConfigurationError::InvalidSnapshot(_))
        )
    };
    assert!(refused(|snapshot| snapshot.source = "elsewhere".to_owned()));
    assert!(refused(|snapshot| {
        snapshot.adapters[0].interface_guid = "no identifier".to_owned()
    }));
    assert!(refused(|snapshot| {
        snapshot.adapters[1].interface_guid = snapshot.adapters[0].interface_guid.clone()
    }));
    assert!(refused(|snapshot| {
        snapshot.adapters[0].ipv4 = fixed(vec![loopback_ipv4(); MAX_DNS_SERVERS + 1])
    }));
    assert!(refused(|snapshot| {
        let one = snapshot.adapters[0].clone();
        snapshot.adapters = vec![one; MAX_ADAPTERS + 1]
    }));
}

#[test]
fn loopback_servers_are_taken_once_each() {
    assert_eq!(
        normalized_loopback_servers(&[loopback_ipv6(), loopback_ipv4()]),
        Ok(vec![loopback_ipv4(), loopback_ipv6()])
    );
    assert_eq!(
        normalized_loopback_servers(&[loopback_ipv6(), loopback_ipv6()]),
        Ok(vec![loopback_ipv6()])
    );
    assert!(matches!(
        normalized_loopback_servers(&[ip("127.0.0.2")]),
        Err(DnsConfigurationError::InvalidLoopbackServer { .. })
    ));
    assert!(normalized_loopback_servers(&[]).is_err());
    assert!(normalized_loopback_servers(&[loopback_ipv4(); 3]).is_err());
}

#[test]
fn a_generation_names_its_snapshot_and_servers() {
    let first = generation_for(&test_snapshot(), &[loopback_ipv4()]);
    assert_eq!(first.len(), 64);
    assert!(first.bytes().all(|byte| byte.is_ascii_hexdigit()));
    assert_eq!(first, generation_for(&test_snapshot(), &[loopback_ipv4()]));
    assert_ne!(first, generation_for(&test_snapshot(), &[loopback_ipv6()]));
    let mut other = test_snapshot();
    other.adapters[0].interface_index = 9;
    assert_ne!(first, generation_for(&other, &[loopback_ipv4()]));
    assert_eq!(
        plan(&test_snapshot(), &[loopback_ipv4()]).unwrap().generation,
        first
    );
}

#[test]
fn settings_are_written_as_json() {
    assert_eq!(write_setting(&DnsSetting::Automatic), "\"automatic\"");
    assert_eq!(
        write_setting(&fixed(vec![ip("192.0.2.53"), ip("192.0.2.54")])),
        "{\"static\":{\"servers\":[\"192.0.2.53\",\"192.0.2.54\"]}}"
    );
    assert_eq!(
        write_setting(&DnsSetting::Unavailable {
            reason: DnsUnavailableReason::QueryFailed { code: 5 }
        }),
        "{\"unavailable\":{\"reason\":{\"query_failed\":{\"code\":5}}}}"
    );
}

#[test]
fn settings_and_families_are_told_apart() {
    assert!(fixed(vec![loopback_ipv4()]).is_static(&[loopback_ipv4()]));
    assert!(!DnsSetting::Automatic.is_static(&[]));
    assert!(DnsSetting::Automatic.same(&DnsSetting::Automatic.copied()));
    assert!(!DnsSetting::Automatic.same(&fixed(vec![])));
    assert!(same_servers(&copy_servers(&[loopback_ipv4()]), &[loopback_ipv4()]));
    assert!(DnsFamily::Ipv4.accepts(loopback_ipv4()));
    assert!(!DnsFamily::Ipv4.accepts(loopback_ipv6()));
    assert!(DnsFamily::Ipv6.is_ipv6());
    assert_eq!(DnsFamily::Ipv4.name(), "Ipv4");
}

fn planned() -> (DnsSnapshot, DnsApplyPlan) {
    let snapshot = test_snapshot();
    match begin_apply(&snapshot, &[loopback_ipv4(), loopback_ipv6()]).unwrap() {
        ApplyStart::Planned(plan) => (snapshot, plan),
        ApplyStart::Done(done) => panic!("expected a plan: {done:?}"),
    }
}

#[test]
fn nothing_to_change_is_done_at_once() {
    let mut snapshot = test_snapshot();
    snapshot.adapters.truncate(1);
    snapshot.adapters[0].ipv4 = fixed(vec![loopback_ipv4()]);
    match begin_apply(&snapshot, &[loopback_ipv4()]).unwrap() {
        ApplyStart::Done(done) => {
            assert_eq!(done.attempted_stack_count, 0);
            assert_eq!(done.changed_stack_count, 0);
            assert_eq!(done.skipped_stack_count, 2);
            assert!(!done.journal_present);
        }
        ApplyStart::Planned(plan) => panic!("nothing was to be planned: {plan:?}"),
    }
}

#[test]
fn a_journal_is_made_only_where_none_is() {
    let (snapshot, plan) = planned();
    let prepared = prepare_journal(&snapshot, plan, Ok(None), 7).unwrap();
    let journal = prepared.journal().clone();
    assert_eq!(journal.created_at_unix_secs, 7);
    assert_eq!(journal_text(&journal).as_deref(), Ok(prepared.text()));
    let (snapshot, plan) = planned();
    assert_eq!(
        prepare_journal(&snapshot, plan, Ok(Some(journal)), 7),
        Err(DnsConfigurationError::JournalAlreadyExists)
    );
    let (snapshot, plan) = planned();
    assert_eq!(
        prepare_journal(
            &snapshot,
            plan,
            Err(DnsConfigurationError::JournalIo("denied".to_owned())),
            7
        ),
        Err(DnsConfigurationError::JournalIo("denied".to_owned()))
    );
}

#[test]
fn a_journal_that_cannot_be_kept_ends_the_run() {
    let (snapshot, plan) = planned();
    let prepared = prepare_journal(&snapshot, plan, Ok(None), 7).unwrap();
    let text = prepared.text().to_owned();
    let (mut run, action) = ApplyRun::apply(prepared);
    assert_eq!(action, ApplyAction::KeepJournal);
    assert_eq!(run.phase(), ApplyPhase::Journal);
    assert_eq!(run.journal_text(), text);
    assert_eq!(
        run.step(ApplyEvent::JournalKept(Err("disk full".to_owned()))),
        ApplyAction::Finish
    );
    assert_eq!(
        run.outcome(),
        Err(DnsConfigurationError::JournalIo("disk full".to_owned()))
    );
}

#[test]
fn operations_write_the_planned_setting_and_give_back_the_old_one() {
    let (_, plan) = planned();
    let operation = &plan.operations[0];
    assert_eq!(set_operation(operation), fixed(vec![loopback_ipv4()]));
    let mut restore = set_original(operation);
    assert_eq!(restore.setting(), &operation.original);
    assert_eq!(
        restore.read(Ok(set_operation(operation))),
        OwnedAction::Write
    );
    assert_eq!(restore.written(Ok(())), OwnedAction::Read);
    assert_eq!(
        restore.read(Ok(operation.original.copied())),
        OwnedAction::Finish
    );
    assert_eq!(restore.outcome(), Ok(()));
}

#[test]
fn a_plan_is_carried_out_stack_by_stack() {
    let (snapshot, plan) = planned();
    let count = plan.operations.len();
    let skipped = plan.skipped.len();
    let prepared = prepare_journal(&snapshot, plan, Ok(None), 7).unwrap();
    let (mut run, mut action) = ApplyRun::apply(prepared);
    let mut kept = 0;
    let mut written = Vec::new();
    loop {
        action = match action {
            ApplyAction::KeepJournal => {
                kept += 1;
                run.step(ApplyEvent::JournalKept(Ok(())))
            }
            ApplyAction::Read(index) => {
                let original = run.operation(index).original.copied();
                run.step(ApplyEvent::Read(Ok(original)))
            }
            ApplyAction::Write(index) => {
                assert_eq!(kept, 1);
                written.push(index);
                run.step(ApplyEvent::Written(Ok(())))
            }
            ApplyAction::Verify(index) => {
                let desired = fixed(run.operation(index).desired_servers.clone());
                run.step(ApplyEvent::Verified(Ok(desired)))
            }
            ApplyAction::Undo(_) => panic!("nothing failed"),
            ApplyAction::Finish => break,
        }
    }
    assert_eq!(run.phase(), ApplyPhase::Finished);
    assert_eq!(written, (0..count).collect::<Vec<_>>());
    let result = run.outcome().unwrap();
    assert_eq!(result.attempted_stack_count, count);
    assert_eq!(result.changed_stack_count, count);
    assert_eq!(result.skipped_stack_count, skipped);
    assert!(result.journal_present);
}

#[test]
fn a_failure_gives_back_what_was_changed() {
    let (snapshot, plan) = planned();
    let prepared = prepare_journal(&snapshot, plan, Ok(None), 7).unwrap();
    let (mut run, action) = ApplyRun::apply(prepared);
    assert_eq!(action, ApplyAction::KeepJournal);
    assert_eq!(
        run.step(ApplyEvent::JournalKept(Ok(()))),
        ApplyAction::Read(0)
    );
    let original = run.operation(0).original.copied();
    assert_eq!(
        run.step(ApplyEvent::Read(Ok(original))),
        ApplyAction::Write(0)
    );
    assert_eq!(
        run.step(ApplyEvent::Written(Ok(()))),
        ApplyAction::Verify(0)
    );
    let desired = fixed(run.operation(0).desired_servers.clone());
    assert_eq!(
        run.step(ApplyEvent::Verified(Ok(desired))),
        ApplyAction::Read(1)
    );
    let changed_meanwhile = fixed(vec![ip("2001:db8::1")]);
    let mut action = run.step(ApplyEvent::Read(Ok(changed_meanwhile)));
    let mut undone = Vec::new();
    while let ApplyAction::Undo(index) = action {
        undone.push(index);
        action = run.step(ApplyEvent::Undone(Err("lost".to_owned())));
    }
    assert_eq!(undone, [0]);
    assert_eq!(action, ApplyAction::Finish);
    match run.outcome() {
        Err(DnsConfigurationError::ApplyPreconditionFailed {
            changed_stack_count,
            rollback_failures,
            ..
        }) => {
            assert_eq!(changed_stack_count, 1);
            assert_eq!(
                rollback_failures,
                vec![DnsRestoreIssue {
                    interface_guid: "11111111-2222-3333-4455-66778899AABB".to_owned(),
                    family: DnsFamily::Ipv4,
                    reason: "lost".to_owned()
                }]
            );
        }
        other => panic!("expected a failed precondition: {other:?}"),
    }
}

#[test]
fn a_restoration_removes_the_journal_last() {
    let (snapshot, plan) = planned();
    let journal = journal_from_plan(&snapshot, &plan, 7).unwrap();
    let (mut run, mut action) = RestoreRun::restore(Ok(Some(journal))).unwrap();
    let mut restored = 0;
    loop {
        action = match action {
            RestoreAction::Read(index) => {
                let applied = fixed(run.item(index).applied.clone());
                run.step(RestoreEvent::Read(Ok(applied)))
            }
            RestoreAction::Restore(_) => {
                restored += 1;
                run.step(RestoreEvent::Restored(Ok(())))
            }
            RestoreAction::RemoveJournal => {
                assert_eq!(restored, plan.operations.len());
                run.step(RestoreEvent::Removed(Removal::Removed))
            }
            RestoreAction::Finish => break,
        }
    }
    assert_eq!(run.phase(), RestorePhase::Finished);
    let result = run.outcome().unwrap();
    assert_eq!(result.restored_stack_count, restored);
    assert!(result.remaining.is_empty());
    assert!(result.journal_removed);
}

#[test]
fn foreign_settings_stay_and_keep_the_journal() {
    let (snapshot, plan) = planned();
    let journal = journal_from_plan(&snapshot, &plan, 7).unwrap();
    let (mut run, mut action) = RestoreRun::restore(Ok(Some(journal))).unwrap();
    loop {
        action = match action {
            RestoreAction::Read(_) => {
                run.step(RestoreEvent::Read(Ok(fixed(vec![ip("192.0.2.53")]))))
            }
            RestoreAction::Finish => break,
            other => panic!("foreign settings are left alone: {other:?}"),
        }
    }
    match run.outcome() {
        Err(DnsConfigurationError::RestoreIncomplete {
            restored_stack_count,
            skipped_stack_count,
            remaining,
        }) => {
            assert_eq!(restored_stack_count, 0);
            assert_eq!(skipped_stack_count, plan.operations.len());
            assert_eq!(remaining.len(), plan.operations.len());
        }
        other => panic!("expected remaining stacks: {other:?}"),
    }

    assert_eq!(
        RestoreRun::restore(Ok(None)).unwrap_err(),
        DnsConfigurationError::JournalMissing
    );
}

#[test]
fn a_journal_that_stays_is_told() {
    let (snapshot, plan) = planned();
    for (removal, reason) in [
        (Removal::Missing, "journal disappeared before cleanup"),
        (Removal::Failed("denied".to_owned()), "denied"),
    ] {
        let journal = journal_from_plan(&snapshot, &plan, 7).unwrap();
        let (mut run, mut action) = RestoreRun::restore(Ok(Some(journal))).unwrap();
        while let RestoreAction::Read(index) = action {
            let original = run.item(index).original.copied();
            action = run.step(RestoreEvent::Read(Ok(original)));
        }
        assert_eq!(action, RestoreAction::RemoveJournal);
        run.step(RestoreEvent::Removed(removal));
        assert_eq!(
            run.outcome(),
            Err(DnsConfigurationError::JournalCleanupFailed {
                restored_stack_count: plan.operations.len(),
                path_error: reason.to_owned()
            })
        );
    }
}

#[test]
fn identifiers_have_one_canonical_spelling() {
    for spelling in [
        "{11111111-2222-3333-4455-66778899aabb}",
        "11111111-2222-3333-4455-66778899aabb",
        " \t11111111-2222-3333-4455-66778899AABB\u{3000}",
        "11111111-2222-3333-4455-66778899AABB",
    ] {
        assert_eq!(
            canonical_guid(spelling),
            Ok("11111111-2222-3333-4455-66778899AABB".to_owned())
        );
    }
    let parts = parse_guid("00000001-0002-0003-0405-060708090A0B").unwrap();
    assert_eq!(parts.data1, 1);
    assert_eq!(parts.data2, 2);
    assert_eq!(parts.data3, 3);
    assert_eq!(parts.node0, 4);
    assert_eq!(parts.node7, 11);
    assert_eq!(parts.text(), "00000001-0002-0003-0405-060708090A0B");
    assert!(parse_guid("").is_err());
    assert!(parse_guid("11111111-2222-3333-4455-66778899AABG").is_err());
    assert!(parse_guid("111111112222333344556677889900AABB").is_err());
}

#[test]
fn errors_have_messages() {
    assert!(DnsConfigurationError::JournalTooLarge {
        actual: 9,
        maximum: 4
    }
    .message()
    .contains('9'));
    assert!(DnsConfigurationError::NativeQuery {
        interface_guid: "G".to_owned(),
        family: DnsFamily::Ipv6,
        code: 5
    }
    .message()
    .contains('5'));
}
