//! How the companion process is made.

use vapour_protection::dns_launch::{
    command_line, desktop_primary_token, extract_engine, launch_companion, spawn_companion,
    spawn_flags, try_wait, verify_child_token_medium_or_lower, ChildTokenEvent, ChildTokenQuery,
    CompanionAction, CompanionEvent, DesktopEvent, DesktopQuery, ExtractAction, ExtractEvent,
    SpawnAction, SpawnEvent,
};
use vapour_protection::dns_manager::ChildState;

fn failed() -> Result<(), String> {
    Err("denied".to_owned())
}

#[test]
fn exit_codes_tell_whether_a_process_runs() {
    assert_eq!(try_wait(Ok(259)), ChildState::Running);
    assert_eq!(try_wait(Ok(0)), ChildState::Exited(0));
    assert_eq!(
        try_wait(Err("denied".to_owned())),
        ChildState::Unknown("cannot inspect DNS proxy process: denied".to_owned())
    );
}

#[test]
fn processes_are_created_suspended() {
    assert_eq!(spawn_flags(true), 0x0800_0004);
    assert_eq!(spawn_flags(false), 0x0808_0004);
    assert_eq!(command_line(r"C:\a b\c.exe"), "\"C:\\a b\\c.exe\"");
}

#[test]
fn an_executable_is_verified_before_it_is_used() {
    let next = |event: ExtractEvent| extract_engine(event);
    assert_eq!(
        next(ExtractEvent::Path { absolute: true }),
        (ExtractAction::MakeDirectory, None)
    );
    assert_eq!(
        next(ExtractEvent::Path { absolute: false }),
        (
            ExtractAction::Finish,
            Some("DNS proxy app-data path must be absolute".to_owned())
        )
    );
    assert_eq!(
        next(ExtractEvent::Directory(Ok(()))),
        (ExtractAction::Create, None)
    );
    assert_eq!(next(ExtractEvent::Created), (ExtractAction::Write, None));
    assert_eq!(next(ExtractEvent::Exists), (ExtractAction::Open, None));
    assert_eq!(
        next(ExtractEvent::Written(failed())),
        (
            ExtractAction::Remove,
            Some("cannot extract DNS proxy executable: denied".to_owned())
        )
    );
    assert_eq!(
        next(ExtractEvent::Opened(Ok(()))),
        (ExtractAction::Verify, None)
    );
    assert_eq!(
        next(ExtractEvent::Verified(failed())),
        (ExtractAction::Finish, Some("denied".to_owned()))
    );
    assert_eq!(
        next(ExtractEvent::Verified(Ok(()))),
        (ExtractAction::Use, None)
    );
}

#[test]
fn the_desktop_token_is_not_elevated() {
    assert!(desktop_primary_token(DesktopEvent::Shell(0)).is_err());
    assert_eq!(
        desktop_primary_token(DesktopEvent::Shell(8)),
        Ok(DesktopQuery::OpenShell)
    );
    assert_eq!(
        desktop_primary_token(DesktopEvent::Elevation(Ok(0))),
        Ok(DesktopQuery::Duplicate)
    );
    assert_eq!(
        desktop_primary_token(DesktopEvent::Elevation(Ok(1))),
        Err("the desktop token is elevated; refusing DNS proxy launch".to_owned())
    );
    assert!(desktop_primary_token(DesktopEvent::Duplicated(Ok(false))).is_err());
    assert_eq!(
        desktop_primary_token(DesktopEvent::Kind(Ok(1))),
        Ok(DesktopQuery::Use)
    );
    assert_eq!(
        desktop_primary_token(DesktopEvent::Kind(Ok(-2))),
        Err("duplicated desktop token has unsupported type -2".to_owned())
    );
}

#[test]
fn a_companion_is_of_medium_integrity_at_most() {
    let next = |event: ChildTokenEvent| verify_child_token_medium_or_lower(event);
    assert_eq!(
        next(ChildTokenEvent::Elevation(Ok(1))),
        Err("TokenIsElevated is set".to_owned())
    );
    assert_eq!(
        next(ChildTokenEvent::Sized {
            needed: 28,
            header: 16,
            word: 8
        }),
        Ok(ChildTokenQuery::Read { words: 4 })
    );
    assert_eq!(
        next(ChildTokenEvent::Sized {
            needed: 8,
            header: 16,
            word: 8
        }),
        Err("invalid integrity information size 8 bytes".to_owned())
    );
    assert!(next(ChildTokenEvent::Sized {
        needed: 65_537,
        header: 16,
        word: 8
    })
    .is_err());
    assert!(next(ChildTokenEvent::Identity(false)).is_err());
    assert!(next(ChildTokenEvent::Parts(Some(0))).is_err());
    assert!(next(ChildTokenEvent::Parts(None)).is_err());
    assert_eq!(
        next(ChildTokenEvent::Parts(Some(1))),
        Ok(ChildTokenQuery::Level { index: 0 })
    );
    assert_eq!(
        next(ChildTokenEvent::Level(Some(0x2000))),
        Ok(ChildTokenQuery::Accept)
    );
    assert_eq!(
        next(ChildTokenEvent::Level(Some(0x3000))),
        Err("integrity RID 12288 is above medium (8192)".to_owned())
    );
    assert!(next(ChildTokenEvent::Level(None)).is_err());
}

/// Runs through a spawn in which everything succeeds.
fn spawned(elevated: bool) -> Vec<SpawnAction> {
    let mut actions = vec![spawn_companion(elevated, SpawnEvent::Begin).0];
    loop {
        let event = match actions[actions.len() - 1] {
            SpawnAction::TakeDesktopToken => SpawnEvent::Token(Ok(())),
            SpawnAction::MakeStdinPipe => SpawnEvent::StdinPipe(Ok(())),
            SpawnAction::MakeStdoutPipe => SpawnEvent::StdoutPipe(Ok(())),
            SpawnAction::HideStdin => SpawnEvent::StdinPrivate(Ok(())),
            SpawnAction::HideStdout => SpawnEvent::StdoutPrivate(Ok(())),
            SpawnAction::FindDirectory => SpawnEvent::Directory(true),
            SpawnAction::SizeAttributes => SpawnEvent::Sized(48),
            SpawnAction::InitializeAttributes => SpawnEvent::Initialized(Ok(())),
            SpawnAction::RestrictHandles => SpawnEvent::Restricted(Ok(())),
            SpawnAction::Create | SpawnAction::CreateWithToken => SpawnEvent::Created(Ok(())),
            SpawnAction::ReleaseAttributes | SpawnAction::Finish => return actions,
        };
        let (action, error) = spawn_companion(elevated, event);
        assert_eq!(error, None);
        actions.push(action);
    }
}

#[test]
fn an_elevated_process_takes_the_desktop_token() {
    let elevated = spawned(true);
    assert_eq!(elevated[0], SpawnAction::TakeDesktopToken);
    assert_eq!(elevated.len(), 11);
    assert_eq!(elevated[9], SpawnAction::CreateWithToken);
    assert_eq!(elevated[10], SpawnAction::ReleaseAttributes);
    let plain = spawned(false);
    assert_eq!(plain.len(), 10);
    assert_eq!(plain[8], SpawnAction::Create);
    assert_eq!(
        spawn_companion(true, SpawnEvent::Restricted(failed())),
        (
            SpawnAction::ReleaseAttributes,
            Some("cannot restrict DNS proxy inherited handles: denied".to_owned())
        )
    );
    assert_eq!(
        spawn_companion(false, SpawnEvent::Created(failed())),
        (
            SpawnAction::ReleaseAttributes,
            Some("cannot start DNS proxy: denied".to_owned())
        )
    );
    assert_eq!(
        spawn_companion(false, SpawnEvent::Sized(0)).1,
        Some("cannot size DNS proxy process attributes".to_owned())
    );
}

/// Runs through a launch in which everything succeeds.
fn launched(elevated: bool) -> Vec<CompanionAction> {
    let mut actions = vec![launch_companion(elevated, CompanionEvent::Extracted(Ok(()))).0];
    loop {
        let event = match actions[actions.len() - 1] {
            CompanionAction::Spawn => CompanionEvent::Spawned(Ok(())),
            CompanionAction::Contain => CompanionEvent::Contained(Ok(())),
            CompanionAction::CheckToken => CompanionEvent::TokenChecked(Ok(())),
            CompanionAction::Resume => CompanionEvent::Resumed(true),
            CompanionAction::TakeStdin => CompanionEvent::Stdin(true),
            CompanionAction::TakeStdout => CompanionEvent::Stdout(true),
            CompanionAction::StartReader => CompanionEvent::Reader(Ok(())),
            CompanionAction::WriteConfiguration => CompanionEvent::Configured(Ok(())),
            CompanionAction::AwaitReady => CompanionEvent::Ready(Ok(())),
            _ => return actions,
        };
        let (action, error) = launch_companion(elevated, event);
        assert_eq!(error, None);
        actions.push(action);
    }
}

#[test]
fn a_companion_is_contained_before_it_runs() {
    let plain = launched(false);
    assert_eq!(
        plain,
        [
            CompanionAction::Spawn,
            CompanionAction::Contain,
            CompanionAction::Resume,
            CompanionAction::TakeStdin,
            CompanionAction::TakeStdout,
            CompanionAction::StartReader,
            CompanionAction::WriteConfiguration,
            CompanionAction::AwaitReady,
            CompanionAction::Keep,
        ]
    );
    assert_eq!(launched(true)[2], CompanionAction::CheckToken);
    assert_eq!(
        launch_companion(true, CompanionEvent::TokenChecked(failed())),
        (
            CompanionAction::Terminate,
            Some("DNS proxy child token was not demoted to medium or lower: denied".to_owned())
        )
    );
    assert_eq!(
        launch_companion(false, CompanionEvent::Contained(failed())),
        (
            CompanionAction::TerminateAlone,
            Some("denied".to_owned())
        )
    );
    assert_eq!(
        launch_companion(false, CompanionEvent::Ready(failed())).0,
        CompanionAction::TerminateAndReap
    );
    assert_eq!(
        launch_companion(false, CompanionEvent::Resumed(false)).1,
        Some("cannot resume DNS proxy process".to_owned())
    );
}
