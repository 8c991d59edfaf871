//! The watchdog that gives back the DNS settings when its parent is gone.
//!
//! It opens the process that it was told of, verifies that this is its parent by the
//! time at which it was created, and waits on that very process. A process that took
//! over the number of the parent is therefore never taken for it, and no setting is
//! touched before the parent is known to have exited.

use crate::dns_configuration::{
    issue_views, ConfigurationFault, DnsConfigurationError, DnsRestoreIssue, DnsRestoreResult,
    IssueView, RestoreResultView,
};
use crate::dns_session::text_option;
use crate::text::{decimal, decimal_text, join, join3, quoted, quoted_text};
use vstd::prelude::*;
use vstd::string::*;

verus! {

/// How many times restoration is attempted after the parent has exited.
pub const MAX_RESTORE_ATTEMPTS: u32 = 8;

/// How long to wait between two attempts, in milliseconds.
pub const RESTORE_RETRY_DELAY_MS: u64 = 250;

/// How long one wait for the parent lasts, in milliseconds. It bounds nothing else.
pub const PARENT_WAIT_SLICE_MS: u32 = 500;

/// Why the watchdog could not do its work.
#[derive(Clone, Debug, PartialEq, Eq)]
pub enum DnsWatchdogError {
    UnsupportedPlatform,
    InvalidParentIdentity,
    InvalidJournalPath(String),
    ParentOpen { code: u32 },
    ParentCreationTime { code: u32 },
    ParentWait { code: u32 },
    ReadyFailed { reason: String },
}

/// Why the watchdog could not do its work, as mathematical values.
pub ghost enum WatchdogFault {
    UnsupportedPlatform,
    InvalidParentIdentity,
    InvalidJournalPath(Seq<char>),
    ParentOpen { code: u32 },
    ParentCreationTime { code: u32 },
    ParentWait { code: u32 },
    ReadyFailed { reason: Seq<char> },
}

impl WatchdogFault {
    /// The message for a reader.
    pub open spec fn message(self) -> Seq<char> {
        match self {
            WatchdogFault::UnsupportedPlatform => "DNS recovery watchdog requires Windows"@,
            WatchdogFault::InvalidParentIdentity =>
            "watchdog parent PID and creation FILETIME must both be non-zero"@,
            WatchdogFault::InvalidJournalPath(reason) =>
            "DNS watchdog journal path is not trusted: "@ + reason,
            WatchdogFault::ParentOpen { code } => "watchdog could not open the parent process ("@
                + decimal(code as nat) + ")"@,
            WatchdogFault::ParentCreationTime { code } =>
            "watchdog could not query the parent creation time ("@ + decimal(code as nat) + ")"@,
            WatchdogFault::ParentWait { code } =>
            "watchdog could not wait on the parent process ("@ + decimal(code as nat) + ")"@,
            WatchdogFault::ReadyFailed { reason } => "watchdog readiness signal failed: "@ + reason,
        }
    }
}

impl DnsWatchdogError {
    pub open spec fn view(&self) -> WatchdogFault {
        match self {
            DnsWatchdogError::UnsupportedPlatform => WatchdogFault::UnsupportedPlatform,
            DnsWatchdogError::InvalidParentIdentity => WatchdogFault::InvalidParentIdentity,
            DnsWatchdogError::InvalidJournalPath(reason) => WatchdogFault::InvalidJournalPath(
                reason@,
            ),
            DnsWatchdogError::ParentOpen { code } => WatchdogFault::ParentOpen { code: *code },
            DnsWatchdogError::ParentCreationTime { code } => WatchdogFault::ParentCreationTime {
                code: *code,
            },
            DnsWatchdogError::ParentWait { code } => WatchdogFault::ParentWait { code: *code },
            DnsWatchdogError::ReadyFailed { reason } => WatchdogFault::ReadyFailed {
                reason: reason@,
            },
        }
    }

    /// The message for a reader.
    pub fn message(&self) -> (result: String)
        ensures
            result@ == self@.message(),
    {
        match self {
            DnsWatchdogError::UnsupportedPlatform => {
                "DNS recovery watchdog requires Windows".to_owned()
            },
            DnsWatchdogError::InvalidParentIdentity => {
                "watchdog parent PID and creation FILETIME must both be non-zero".to_owned()
            },
            DnsWatchdogError::InvalidJournalPath(reason) => join(
                "DNS watchdog journal path is not trusted: ",
                reason.as_str(),
            ),
            DnsWatchdogError::ParentOpen { code } => join3(
                "watchdog could not open the parent process (",
                decimal_text(*code as u64).as_str(),
                ")",
            ),
            DnsWatchdogError::ParentCreationTime { code } => join3(
                "watchdog could not query the parent creation time (",
                decimal_text(*code as u64).as_str(),
                ")",
            ),
            DnsWatchdogError::ParentWait { code } => join3(
                "watchdog could not wait on the parent process (",
                decimal_text(*code as u64).as_str(),
                ")",
            ),
            DnsWatchdogError::ReadyFailed { reason } => join(
                "watchdog readiness signal failed: ",
                reason.as_str(),
            ),
        }
    }
}

/// What the watchdog came to.
#[derive(Clone, Debug, PartialEq, Eq)]
pub enum DnsWatchdogOutcome {
    /// The number of the parent names another process. No journal was read.
    ParentIdentityMismatch,
    /// The parent has exited and there is no journal.
    ParentExitedWithoutJournal,
    /// The settings were given back and the journal is gone.
    Restored { attempts: u32, result: DnsRestoreResult },
    /// The attempts are used up. The journal stays.
    PersistentRestoreFailure { attempts: u32, last_error: String },
}

/// What the watchdog came to, as mathematical values.
pub ghost enum OutcomeView {
    ParentIdentityMismatch,
    ParentExitedWithoutJournal,
    Restored { attempts: u32, result: RestoreResultView },
    PersistentRestoreFailure { attempts: u32, last_error: Seq<char> },
}

impl DnsWatchdogOutcome {
    pub open spec fn view(&self) -> OutcomeView {
        match self {
            DnsWatchdogOutcome::ParentIdentityMismatch => OutcomeView::ParentIdentityMismatch,
            DnsWatchdogOutcome::ParentExitedWithoutJournal =>
            OutcomeView::ParentExitedWithoutJournal,
            DnsWatchdogOutcome::Restored { attempts, result } => OutcomeView::Restored {
                attempts: *attempts,
                result: result@,
            },
            DnsWatchdogOutcome::PersistentRestoreFailure { attempts, last_error } =>
            OutcomeView::PersistentRestoreFailure { attempts: *attempts, last_error: last_error@ },
        }
    }
}

/// Whether the parent runs.
#[derive(Clone, Copy, Debug, PartialEq, Eq, Structural)]
pub enum ParentWaitState {
    Alive,
    Exited,
}

/// Whether a process is the parent: it was created when the parent was. A time that
/// is missing or zero is never accepted.
pub open spec fn identity_matches(expected: u64, observed: Option<u64>) -> bool {
    expected != 0 && observed == Some(expected)
}

/// Whether a process is the parent.
pub fn parent_identity_matches(expected_creation_time_100ns: u64, observed: Option<u64>) -> (result:
    bool)
    ensures
        result == identity_matches(expected_creation_time_100ns, observed),
{
    match observed {
        Some(time) => expected_creation_time_100ns != 0 && time == expected_creation_time_100ns,
        None => false,
    }
}

/// Whether the settings may be given back: the parent has exited and there is a
/// journal.
pub fn should_restore_after_parent_exit(
    parent_state: ParentWaitState,
    journal_present: bool,
) -> (result: bool)
    ensures
        result == (parent_state == ParentWaitState::Exited && journal_present),
{
    match parent_state {
        ParentWaitState::Exited => journal_present,
        ParentWaitState::Alive => false,
    }
}

/// What the shape of the path of the journal is.
#[derive(Clone, Copy, Debug, PartialEq, Eq, Structural)]
pub struct JournalPath {
    pub absolute: bool,
    /// Whether it leads through a parent directory.
    pub climbs: bool,
    /// Whether it ends in the name of a file.
    pub named: bool,
}

/// What is wrong with what the watchdog was told.
pub open spec fn input_fault(pid: u32, creation: u64, path: JournalPath) -> Option<WatchdogFault> {
    if pid == 0 || creation == 0 {
        Some(WatchdogFault::InvalidParentIdentity)
    } else if !path.absolute {
        Some(WatchdogFault::InvalidJournalPath("the path must be absolute"@))
    } else if path.climbs {
        Some(WatchdogFault::InvalidJournalPath("parent-directory components are not accepted"@))
    } else if !path.named {
        Some(WatchdogFault::InvalidJournalPath("the path must name a journal file"@))
    } else {
        None
    }
}

/// Checks what the watchdog was told.
pub fn validate_inputs(pid: u32, creation: u64, path: JournalPath) -> (result: Result<
    (),
    DnsWatchdogError,
>)
    ensures
        match input_fault(pid, creation, path) {
            None => result is Ok,
            Some(fault) => result matches Err(error) && error@ == fault,
        },
{
    if pid == 0 || creation == 0 {
        return Err(DnsWatchdogError::InvalidParentIdentity);
    }
    if !path.absolute {
        return Err(DnsWatchdogError::InvalidJournalPath("the path must be absolute".to_owned()));
    }
    if path.climbs {
        return Err(
            DnsWatchdogError::InvalidJournalPath(
                "parent-directory components are not accepted".to_owned(),
            ),
        );
    }
    if !path.named {
        return Err(
            DnsWatchdogError::InvalidJournalPath("the path must name a journal file".to_owned()),
        );
    }
    Ok(())
}

/// Whether a journal that could not be read is read again.
pub open spec fn read_again(fault: ConfigurationFault) -> bool {
    fault is JournalIo
}

/// Whether a restoration that failed is attempted again.
pub open spec fn restore_again(fault: ConfigurationFault) -> bool {
    fault is JournalIo || fault is RestoreIncomplete || fault is JournalCleanupFailed
}

fn retryable_read_error(error: &DnsConfigurationError) -> (result: bool)
    ensures
        result == read_again(error@),
{
    match error {
        DnsConfigurationError::JournalIo(_) => true,
        _ => false,
    }
}

fn retryable_restore_error(error: &DnsConfigurationError) -> (result: bool)
    ensures
        result == restore_again(error@),
{
    match error {
        DnsConfigurationError::JournalIo(_) => true,
        DnsConfigurationError::RestoreIncomplete { .. } => true,
        DnsConfigurationError::JournalCleanupFailed { .. } => true,
        _ => false,
    }
}

/// A stack that remains, spelled out.
pub open spec fn issue_text(issue: IssueView) -> Seq<char> {
    "DnsRestoreIssue { interface_guid: "@ + quoted(issue.guid) + ", family: "@
        + issue.family.spec_name() + ", reason: "@ + quoted(issue.reason) + " }"@
}

/// Stacks that remain, spelled out.
pub open spec fn issues_text(issues: Seq<IssueView>) -> Seq<char>
    decreases issues.len(),
{
    if issues.len() == 0 {
        Seq::empty()
    } else if issues.len() == 1 {
        issue_text(issues[0])
    } else {
        issues_text(issues.drop_last()) + ", "@ + issue_text(issues.last())
    }
}

/// What came of a restoration, spelled out.
pub open spec fn result_text(result: RestoreResultView) -> Seq<char> {
    "DnsRestoreResult { restored_stack_count: "@ + decimal(result.restored)
        + ", skipped_stack_count: "@ + decimal(result.skipped) + ", remaining: ["@ + issues_text(
        result.remaining,
    ) + "], journal_removed: "@ + (if result.journal_removed {
        "true"@
    } else {
        "false"@
    }) + " }"@
}

fn write_issues(issues: &Vec<DnsRestoreIssue>) -> (result: String)
    ensures
        result@ == issues_text(issue_views(issues@)),
{
    let ghost all = issue_views(issues@);
    let mut text = String::new();
    let mut i: usize = 0;
    while i < issues.len()
        invariant
            i <= issues.len(),
            all == issue_views(issues@),
            text@ == issues_text(all.take(i as int)),
        decreases issues.len() - i,
    {
        if i > 0 {
            text.append(", ");
        }
        let issue = &issues[i];
        let mut own = join3(
            "DnsRestoreIssue { interface_guid: ",
            quoted_text(issue.interface_guid.as_str()).as_str(),
            ", family: ",
        );
        own.append(issue.family.name());
        own.append(", reason: ");
        own.append(quoted_text(issue.reason.as_str()).as_str());
        own.append(" }");
        assert(own@ == issue_text(all[i as int]));
        text.append(own.as_str());
        proof {
            let now = all.take(i + 1);
            assert(now.drop_last() =~= all.take(i as int));
            assert(now.last() == all[i as int]);
            if i == 0 {
                assert(text@ =~= issue_text(all[0]));
            }
        }
        i += 1;
    }
    assert(all.take(i as int) =~= all);
    text
}

fn write_result(result: &DnsRestoreResult) -> (text: String)
    ensures
        text@ == result_text(result@),
{
    let mut text = join3(
        "DnsRestoreResult { restored_stack_count: ",
        decimal_text(result.restored_stack_count as u64).as_str(),
        ", skipped_stack_count: ",
    );
    text.append(decimal_text(result.skipped_stack_count as u64).as_str());
    text.append(", remaining: [");
    text.append(write_issues(&result.remaining).as_str());
    text.append("], journal_removed: ");
    if result.journal_removed {
        text.append("true");
    } else {
        text.append("false");
    }
    text.append(" }");
    text
}

/// What the watchdog waits for.
#[derive(Clone, Copy, Debug, PartialEq, Eq, Structural)]
pub enum WatchdogPhase {
    Open,
    CreationTime,
    Ready,
    Parent,
    Journal,
    Restore,
    Finished,
}

/// What a wait for the parent came to.
#[derive(Clone, Copy, Debug, PartialEq, Eq, Structural)]
pub enum ParentWait {
    Exited,
    TimedOut,
    Failed { code: u32 },
}

/// What happened to the watchdog.
#[derive(Debug, PartialEq, Eq)]
pub enum WatchdogEvent {
    /// The process was opened, or the code of the failure.
    Opened(Result<(), u32>),
    CreationTime(Result<u64, u32>),
    /// The one who waits for the watchdog was told that it is ready.
    Ready(Result<(), String>),
    Parent(ParentWait),
    /// Whether there is a journal.
    Journal(Result<bool, DnsConfigurationError>),
    Restored(Result<DnsRestoreResult, DnsConfigurationError>),
}

/// What the caller does next for the watchdog.
#[derive(Clone, Copy, Debug, PartialEq, Eq, Structural)]
pub enum WatchdogAction {
    OpenParent,
    QueryCreationTime,
    SignalReady,
    WaitForParent,
    ReadJournal,
    /// Waits a little, then reads the journal.
    PauseAndReadJournal,
    Restore,
    Finish,
}

/// The watchdog.
#[derive(Debug, PartialEq, Eq)]
pub struct Watchdog {
    creation: u64,
    signals: bool,
    phase: WatchdogPhase,
    verified: bool,
    parent: ParentWaitState,
    attempt: u32,
    last_error: Option<String>,
    outcome: Option<Result<DnsWatchdogOutcome, DnsWatchdogError>>,
}

/// The watchdog, as mathematical values.
pub ghost struct WatchdogView {
    pub creation: u64,
    /// Whether someone waits for the watchdog to be ready.
    pub signals: bool,
    pub phase: WatchdogPhase,
    /// Whether the process that was opened is the parent.
    pub verified: bool,
    pub parent: ParentWaitState,
    pub attempt: u32,
    pub last_error: Option<Seq<char>>,
    pub outcome: Option<Result<OutcomeView, WatchdogFault>>,
}

impl WatchdogView {
    /// What holds at all times: no journal is looked at before the parent was verified
    /// and has exited, and the attempts are bounded.
    pub open spec fn valid(self) -> bool {
        &&& self.creation != 0
        &&& self.attempt <= MAX_RESTORE_ATTEMPTS
        &&& (self.phase == WatchdogPhase::Ready || self.phase == WatchdogPhase::Parent)
            ==> self.verified
        &&& (self.phase == WatchdogPhase::Journal || self.phase == WatchdogPhase::Restore)
            ==> self.verified && self.parent == ParentWaitState::Exited && self.attempt >= 1
        &&& self.phase == WatchdogPhase::Finished <==> self.outcome is Some
    }

    pub open spec fn expects(self, event: WatchdogEvent) -> bool {
        match event {
            WatchdogEvent::Opened(_) => self.phase == WatchdogPhase::Open,
            WatchdogEvent::CreationTime(_) => self.phase == WatchdogPhase::CreationTime,
            WatchdogEvent::Ready(_) => self.phase == WatchdogPhase::Ready,
            WatchdogEvent::Parent(_) => self.phase == WatchdogPhase::Parent,
            WatchdogEvent::Journal(_) => self.phase == WatchdogPhase::Journal,
            WatchdogEvent::Restored(_) => self.phase == WatchdogPhase::Restore,
        }
    }

    pub open spec fn ended(self, outcome: Result<OutcomeView, WatchdogFault>) -> (
        WatchdogView,
        WatchdogAction,
    ) {
        (
            WatchdogView { phase: WatchdogPhase::Finished, outcome: Some(outcome), ..self },
            WatchdogAction::Finish,
        )
    }

    /// The watchdog after an attempt that is made again, if any are left.
    pub open spec fn retried(self, message: Seq<char>) -> (WatchdogView, WatchdogAction) {
        let noted = WatchdogView { last_error: Some(message), ..self };
        if self.attempt < MAX_RESTORE_ATTEMPTS {
            (
                WatchdogView {
                    phase: WatchdogPhase::Journal,
                    attempt: (self.attempt + 1) as u32,
                    ..noted
                },
                WatchdogAction::PauseAndReadJournal,
            )
        } else {
            noted.ended(
                Ok(
                    OutcomeView::PersistentRestoreFailure {
                        attempts: MAX_RESTORE_ATTEMPTS,
                        last_error: message,
                    },
                ),
            )
        }
    }

    /// The watchdog after an attempt that is not made again.
    pub open spec fn given_up(self, message: Seq<char>) -> (WatchdogView, WatchdogAction) {
        self.ended(
            Ok(
                OutcomeView::PersistentRestoreFailure {
                    attempts: self.attempt,
                    last_error: message,
                },
            ),
        )
    }

    /// What an event does, and what comes next.
    pub open spec fn step(self, event: WatchdogEvent) -> (WatchdogView, WatchdogAction) {
        match event {
            WatchdogEvent::Opened(Err(code)) => self.ended(Err(WatchdogFault::ParentOpen { code })),
            WatchdogEvent::Opened(Ok(())) => (
                WatchdogView { phase: WatchdogPhase::CreationTime, ..self },
                WatchdogAction::QueryCreationTime,
            ),
            WatchdogEvent::CreationTime(Err(code)) => self.ended(
                Err(WatchdogFault::ParentCreationTime { code }),
            ),
            WatchdogEvent::CreationTime(Ok(observed)) => if !identity_matches(
                self.creation,
                Some(observed),
            ) {
                self.ended(Ok(OutcomeView::ParentIdentityMismatch))
            } else if self.signals {
                (
                    WatchdogView { phase: WatchdogPhase::Ready, verified: true, ..self },
                    WatchdogAction::SignalReady,
                )
            } else {
                (
                    WatchdogView { phase: WatchdogPhase::Parent, verified: true, ..self },
                    WatchdogAction::WaitForParent,
                )
            },
            WatchdogEvent::Ready(Err(reason)) => self.ended(
                Err(WatchdogFault::ReadyFailed { reason: reason@ }),
            ),
            WatchdogEvent::Ready(Ok(())) => (
                WatchdogView { phase: WatchdogPhase::Parent, ..self },
                WatchdogAction::WaitForParent,
            ),
            WatchdogEvent::Parent(ParentWait::TimedOut) => (self, WatchdogAction::WaitForParent),
            WatchdogEvent::Parent(ParentWait::Failed { code }) => self.ended(
                Err(WatchdogFault::ParentWait { code }),
            ),
            WatchdogEvent::Parent(ParentWait::Exited) => (
                WatchdogView {
                    phase: WatchdogPhase::Journal,
                    parent: ParentWaitState::Exited,
                    attempt: 1,
                    ..self
                },
                WatchdogAction::ReadJournal,
            ),
            WatchdogEvent::Journal(Ok(false)) => self.ended(
                Ok(OutcomeView::ParentExitedWithoutJournal),
            ),
            WatchdogEvent::Journal(Ok(true)) => (
                WatchdogView { phase: WatchdogPhase::Restore, ..self },
                WatchdogAction::Restore,
            ),
            WatchdogEvent::Journal(Err(error)) => if read_again(error@) {
                self.retried(error@.message())
            } else {
                self.given_up(error@.message())
            },
            WatchdogEvent::Restored(Ok(result)) => if result@.journal_removed {
                self.ended(
                    Ok(OutcomeView::Restored { attempts: self.attempt, result: result@ }),
                )
            } else {
                self.retried(
                    "DNS restore returned without removing its journal: "@ + result_text(result@),
                )
            },
            WatchdogEvent::Restored(Err(error)) => if error@ is JournalMissing {
                self.ended(Ok(OutcomeView::ParentExitedWithoutJournal))
            } else if restore_again(error@) {
                self.retried(error@.message())
            } else {
                self.given_up(error@.message())
            },
        }
    }
}

/// The journal is read and the settings are given back only after the process that
/// was opened was verified to be the parent and has exited.
pub proof fn nothing_is_restored_before_the_parent_exits(
    state: WatchdogView,
    event: WatchdogEvent,
)
    requires
        state.valid(),
        state.expects(event),
    ensures
        state.step(event).0.valid(),
        state.step(event).1 == WatchdogAction::ReadJournal || state.step(event).1
            == WatchdogAction::PauseAndReadJournal || state.step(event).1
            == WatchdogAction::Restore ==> state.step(event).0.verified && state.step(
            event,
        ).0.parent == ParentWaitState::Exited,
        state.step(event).1 == WatchdogAction::Restore ==> event matches WatchdogEvent::Journal(
            Ok(true),
        ),
{
}

/// Each attempt after the first is counted, so that there are no more than are
/// allowed.
pub proof fn attempts_are_bounded(state: WatchdogView, event: WatchdogEvent)
    requires
        state.valid(),
        state.expects(event),
    ensures
        state.step(event).1 == WatchdogAction::PauseAndReadJournal ==> state.step(event).0.attempt
            == state.attempt + 1 && state.attempt < MAX_RESTORE_ATTEMPTS,
        state.step(event).1 == WatchdogAction::ReadJournal ==> state.step(event).0.attempt == 1,
        state.step(event).0.attempt <= MAX_RESTORE_ATTEMPTS,
{
}

/// The watchdog at its beginning.
pub open spec fn new_watchdog(creation: u64, signals: bool) -> WatchdogView {
    WatchdogView {
        creation,
        signals,
        phase: WatchdogPhase::Open,
        verified: false,
        parent: ParentWaitState::Alive,
        attempt: 0,
        last_error: None,
        outcome: None,
    }
}

/// What is wrong with what a watchdog of a process was told.
pub open spec fn start_fault(
    pid: u32,
    creation: u64,
    path: JournalPath,
    own_pid: u32,
) -> Option<WatchdogFault> {
    match input_fault(pid, creation, path) {
        Some(fault) => Some(fault),
        None => if pid == own_pid {
            Some(WatchdogFault::InvalidParentIdentity)
        } else {
            None
        },
    }
}

fn start(pid: u32, creation: u64, path: JournalPath, own_pid: u32, signals: bool) -> (result: Result<
    Watchdog,
    DnsWatchdogError,
>)
    ensures
        match start_fault(pid, creation, path, own_pid) {
            Some(fault) => result matches Err(error) && error@ == fault,
            None => result matches Ok(watchdog) && watchdog@ == new_watchdog(creation, signals)
                && watchdog@.valid(),
        },
{
    if let Err(error) = validate_inputs(pid, creation, path) {
        return Err(error);
    }
    if pid == own_pid {
        return Err(DnsWatchdogError::InvalidParentIdentity);
    }
    Ok(
        Watchdog {
            creation,
            signals,
            phase: WatchdogPhase::Open,
            verified: false,
            parent: ParentWaitState::Alive,
            attempt: 0,
            last_error: None,
            outcome: None,
        },
    )
}

/// Begins a watchdog that tells nobody when it is ready. The parent is opened first.
pub fn run(parent_pid: u32, parent_creation_time_100ns: u64, path: JournalPath, own_pid: u32) -> (result:
    Result<Watchdog, DnsWatchdogError>)
    ensures
        match start_fault(parent_pid, parent_creation_time_100ns, path, own_pid) {
            Some(fault) => result matches Err(error) && error@ == fault,
            None => result matches Ok(watchdog) && watchdog@ == new_watchdog(
                parent_creation_time_100ns,
                false,
            ) && watchdog@.valid(),
        },
{
    start(parent_pid, parent_creation_time_100ns, path, own_pid, false)
}

/// Begins a watchdog that signals when the parent was verified, before it waits and
/// before any setting can be touched. The parent is opened first.
pub fn run_with_ready(
    parent_pid: u32,
    parent_creation_time_100ns: u64,
    path: JournalPath,
    own_pid: u32,
) -> (result: Result<Watchdog, DnsWatchdogError>)
    ensures
        match start_fault(parent_pid, parent_creation_time_100ns, path, own_pid) {
            Some(fault) => result matches Err(error) && error@ == fault,
            None => result matches Ok(watchdog) && watchdog@ == new_watchdog(
                parent_creation_time_100ns,
                true,
            ) && watchdog@.valid(),
        },
{
    start(parent_pid, parent_creation_time_100ns, path, own_pid, true)
}

impl Watchdog {
    pub closed spec fn view(&self) -> WatchdogView {
        WatchdogView {
            creation: self.creation,
            signals: self.signals,
            phase: self.phase,
            verified: self.verified,
            parent: self.parent,
            attempt: self.attempt,
            last_error: text_option(self.last_error),
            outcome: match self.outcome {
                None => None,
                Some(Ok(outcome)) => Some(Ok(outcome@)),
                Some(Err(error)) => Some(Err(error@)),
            },
        }
    }

    /// What the watchdog waits for.
    pub fn phase(&self) -> (result: WatchdogPhase)
        ensures
            result == self@.phase,
    {
        self.phase
    }

    fn end(&mut self, outcome: Result<DnsWatchdogOutcome, DnsWatchdogError>) -> (result:
        WatchdogAction)
        ensures
            (final(self)@, result) == old(self)@.ended(
                match outcome {
                    Ok(outcome) => Ok(outcome@),
                    Err(error) => Err(error@),
                },
            ),
    {
        self.phase = WatchdogPhase::Finished;
        self.outcome = Some(outcome);
        WatchdogAction::Finish
    }

    fn retry(&mut self, message: String) -> (result: WatchdogAction)
        ensures
            (final(self)@, result) == old(self)@.retried(message@),
    {
        if self.attempt < MAX_RESTORE_ATTEMPTS {
            self.last_error = Some(message);
            self.phase = WatchdogPhase::Journal;
            self.attempt = self.attempt + 1;
            WatchdogAction::PauseAndReadJournal
        } else {
            self.last_error = Some(message.clone());
            self.end(
                Ok(
                    DnsWatchdogOutcome::PersistentRestoreFailure {
                        attempts: MAX_RESTORE_ATTEMPTS,
                        last_error: message,
                    },
                ),
            )
        }
    }

    fn give_up(&mut self, message: String) -> (result: WatchdogAction)
        ensures
            (final(self)@, result) == old(self)@.given_up(message@),
    {
        let attempts: u32 = self.attempt;
        self.end(
            Ok(DnsWatchdogOutcome::PersistentRestoreFailure { attempts, last_error: message }),
        )
    }

    fn took_journal(&mut self, read: Result<bool, DnsConfigurationError>) -> (result:
        WatchdogAction)
        requires
            old(self)@.parent == ParentWaitState::Exited,
        ensures
            (final(self)@, result) == old(self)@.step(WatchdogEvent::Journal(read)),
    {
        match read {
            Ok(present) => if should_restore_after_parent_exit(self.parent, present) {
                self.phase = WatchdogPhase::Restore;
                WatchdogAction::Restore
            } else {
                self.end(Ok(DnsWatchdogOutcome::ParentExitedWithoutJournal))
            },
            Err(error) => if retryable_read_error(&error) {
                self.retry(error.message())
            } else {
                self.give_up(error.message())
            },
        }
    }

    fn took_restored(&mut self, restored: Result<DnsRestoreResult, DnsConfigurationError>) -> (result:
        WatchdogAction)
        ensures
            (final(self)@, result) == old(self)@.step(WatchdogEvent::Restored(restored)),
    {
        match restored {
            Ok(result) => if result.journal_removed {
                let attempts: u32 = self.attempt;
                self.end(Ok(DnsWatchdogOutcome::Restored { attempts, result }))
            } else {
                self.retry(
                    join(
                        "DNS restore returned without removing its journal: ",
                        write_result(&result).as_str(),
                    ),
                )
            },
            Err(DnsConfigurationError::JournalMissing) => self.end(
                Ok(DnsWatchdogOutcome::ParentExitedWithoutJournal),
            ),
            Err(error) => if retryable_restore_error(&error) {
                self.retry(error.message())
            } else {
                self.give_up(error.message())
            },
        }
    }

    /// Takes an event that is waited for.
    pub fn step(&mut self, event: WatchdogEvent) -> (result: WatchdogAction)
        requires
            old(self)@.valid(),
            old(self)@.expects(event),
        ensures
            final(self)@.valid(),
            (final(self)@, result) == old(self)@.step(event),
    {
        proof {
            nothing_is_restored_before_the_parent_exits(self@, event);
        }
        match event {
            WatchdogEvent::Opened(Err(code)) => self.end(Err(DnsWatchdogError::ParentOpen { code })),
            WatchdogEvent::Opened(Ok(())) => {
                self.phase = WatchdogPhase::CreationTime;
                WatchdogAction::QueryCreationTime
            },
            WatchdogEvent::CreationTime(Err(code)) => self.end(
                Err(DnsWatchdogError::ParentCreationTime { code }),
            ),
            WatchdogEvent::CreationTime(Ok(observed)) => {
                if !parent_identity_matches(self.creation, Some(observed)) {
                    return self.end(Ok(DnsWatchdogOutcome::ParentIdentityMismatch));
                }
                self.verified = true;
                if self.signals {
                    self.phase = WatchdogPhase::Ready;
                    WatchdogAction::SignalReady
                } else {
                    self.phase = WatchdogPhase::Parent;
                    WatchdogAction::WaitForParent
                }
            },
            WatchdogEvent::Ready(Err(reason)) => self.end(
                Err(DnsWatchdogError::ReadyFailed { reason }),
            ),
            WatchdogEvent::Ready(Ok(())) => {
                self.phase = WatchdogPhase::Parent;
                WatchdogAction::WaitForParent
            },
            WatchdogEvent::Parent(ParentWait::TimedOut) => WatchdogAction::WaitForParent,
            WatchdogEvent::Parent(ParentWait::Failed { code }) => self.end(
                Err(DnsWatchdogError::ParentWait { code }),
            ),
            WatchdogEvent::Parent(ParentWait::Exited) => {
                self.phase = WatchdogPhase::Journal;
                self.parent = ParentWaitState::Exited;
                self.attempt = 1;
                WatchdogAction::ReadJournal
            },
            WatchdogEvent::Journal(read) => self.took_journal(read),
            WatchdogEvent::Restored(restored) => self.took_restored(restored),
        }
    }

    /// What a watchdog that has ended came to.
    pub fn outcome(self) -> (result: Result<DnsWatchdogOutcome, DnsWatchdogError>)
        requires
            self@.outcome is Some,
        ensures
            match self@.outcome->0 {
                Ok(outcome) => result matches Ok(own) && own@ == outcome,
                Err(fault) => result matches Err(error) && error@ == fault,
            },
    {
        match self.outcome {
            Some(outcome) => outcome,
            None => Err(DnsWatchdogError::UnsupportedPlatform),
        }
    }
}

/// A moment as the system tells it, from its upper and lower halves.
pub fn filetime(high: u32, low: u32) -> (result: u64)
    ensures
        result == high * 0x1_0000_0000 + low,
{
    high as u64 * 0x1_0000_0000 + low as u64
}

/// A watchdog takes on a process exactly where number and creation time are not zero, the
/// number is not its own, and the path of the journal is absolute, does not climb and
/// names a file. What is told first is the identity.
pub proof fn watchdogs_are_told_enough(
    pid: u32,
    creation: u64,
    path: JournalPath,
    own_pid: u32,
)
    ensures
        ({
            let fault = start_fault(pid, creation, path, own_pid);
            &&& fault is None <==> pid != 0 && creation != 0 && pid != own_pid && path.absolute
                && !path.climbs && path.named
            &&& pid == 0 || creation == 0 ==> fault == Some(WatchdogFault::InvalidParentIdentity)
            &&& pid != 0 && creation != 0 && !path.absolute ==> fault == Some(
                WatchdogFault::InvalidJournalPath("the path must be absolute"@),
            )
            &&& pid != 0 && creation != 0 && path.absolute && path.climbs ==> fault == Some(
                WatchdogFault::InvalidJournalPath("parent-directory components are not accepted"@),
            )
            &&& pid != 0 && creation != 0 && path.absolute && !path.climbs && !path.named ==> fault
                == Some(WatchdogFault::InvalidJournalPath("the path must name a journal file"@))
            &&& pid != 0 && creation != 0 && path.absolute && !path.climbs && path.named && pid
                == own_pid ==> fault == Some(WatchdogFault::InvalidParentIdentity)
        }),
        input_fault(pid, creation, path) is None <==> pid != 0 && creation != 0 && path.absolute
            && !path.climbs && path.named,
{
}

/// A process is the parent exactly where it has the creation time that was told, and that
/// is not zero.
pub proof fn parents_are_known_by_their_creation_time(expected: u64, observed: Option<u64>)
    ensures
        identity_matches(expected, observed) <==> observed is Some && observed->0 == expected
            && expected > 0,
{
}

/// What the watchdog does until the parent has exited: it opens the process, compares its
/// creation time, tells that it is ready where someone waits for that, and waits for as
/// long as it takes. Every failure ends it with its code, and another process ends it
/// without a look at the journal.
pub proof fn watchdogs_wait_for_their_parent(state: WatchdogView, event: WatchdogEvent)
    requires
        state.valid(),
        state.expects(event),
        event is Opened || event is CreationTime || event is Ready || event is Parent,
    ensures
        ({
            let (after, action) = state.step(event);
            let fault = match event {
                WatchdogEvent::Opened(Err(code)) => Some(WatchdogFault::ParentOpen { code }),
                WatchdogEvent::CreationTime(Err(code)) => Some(
                    WatchdogFault::ParentCreationTime { code },
                ),
                WatchdogEvent::Ready(Err(reason)) => Some(
                    WatchdogFault::ReadyFailed { reason: reason@ },
                ),
                WatchdogEvent::Parent(ParentWait::Failed { code }) => Some(
                    WatchdogFault::ParentWait { code },
                ),
                _ => None,
            };
            let other = event matches WatchdogEvent::CreationTime(Ok(time)) && time
                != state.creation;
            &&& fault is Some ==> after.outcome == Some(Err::<OutcomeView, WatchdogFault>(fault->0))
            &&& other ==> after.outcome == Some(
                Ok::<OutcomeView, WatchdogFault>(OutcomeView::ParentIdentityMismatch),
            )
            &&& after.outcome is Some <==> fault is Some || other
            &&& action is Finish <==> fault is Some || other
            &&& fault is None && !other ==> match event {
                WatchdogEvent::Opened(_) => action is QueryCreationTime && after.phase
                    is CreationTime,
                WatchdogEvent::CreationTime(_) => after.verified && (state.signals ==> action
                    is SignalReady && after.phase is Ready) && (!state.signals ==> action
                    is WaitForParent && after.phase is Parent),
                WatchdogEvent::Ready(_) => action is WaitForParent && after.phase is Parent,
                WatchdogEvent::Parent(wait) => {
                    &&& wait is TimedOut ==> action is WaitForParent && after == state
                    &&& wait is Exited ==> action is ReadJournal && after.phase is Journal
                        && after.parent is Exited && after.attempt == 1
                },
                _ => false,
            }
            &&& after.creation == state.creation && after.signals == state.signals
                && after.last_error == state.last_error
        }),
{
}

/// What the watchdog does once the parent has exited: it gives back what a journal tells,
/// and ends where there is none or it is gone. A journal that could not be read, a
/// restoration that is incomplete or left its journal, is tried again, eight times in
/// all; every other failure ends it at once. What remains is told with the number of
/// attempts.
pub proof fn watchdogs_restore_up_to_eight_times(state: WatchdogView, event: WatchdogEvent)
    requires
        state.valid(),
        state.expects(event),
        event is Journal || event is Restored,
    ensures
        ({
            let (after, action) = state.step(event);
            let absent = event matches WatchdogEvent::Journal(Ok(false)) || (event
                matches WatchdogEvent::Restored(Err(error)) && error@ is JournalMissing);
            let done = event matches WatchdogEvent::Restored(Ok(result)) && result@.journal_removed;
            let failure = match event {
                WatchdogEvent::Journal(Err(error)) => Some(error@.message()),
                WatchdogEvent::Restored(Ok(result)) => if result@.journal_removed {
                    None
                } else {
                    Some(
                        "DNS restore returned without removing its journal: "@ + result_text(
                            result@,
                        ),
                    )
                },
                WatchdogEvent::Restored(Err(error)) => if error@ is JournalMissing {
                    None
                } else {
                    Some(error@.message())
                },
                _ => None,
            };
            let again = match event {
                WatchdogEvent::Journal(Err(error)) => error@ is JournalIo,
                WatchdogEvent::Restored(Ok(_)) => true,
                WatchdogEvent::Restored(Err(error)) => error@ is JournalIo || error@
                    is RestoreIncomplete || error@ is JournalCleanupFailed,
                _ => false,
            };
            &&& event matches WatchdogEvent::Journal(Ok(true)) ==> action is Restore && after.phase
                is Restore && after.outcome is None && after.attempt == state.attempt
            &&& absent ==> action is Finish && after.outcome == Some(
                Ok::<OutcomeView, WatchdogFault>(OutcomeView::ParentExitedWithoutJournal),
            )
            &&& done ==> action is Finish && (event matches WatchdogEvent::Restored(Ok(result))
                && after.outcome == Some(
                Ok::<OutcomeView, WatchdogFault>(
                    OutcomeView::Restored { attempts: state.attempt, result: result@ },
                ),
            ))
            &&& failure is Some && again && state.attempt < 8 ==> action is PauseAndReadJournal
                && after.phase is Journal && after.attempt == state.attempt + 1 && after.outcome
                is None && after.last_error == failure
            &&& failure is Some && (!again || state.attempt == 8) ==> action is Finish
                && after.outcome == Some(
                Ok::<OutcomeView, WatchdogFault>(
                    OutcomeView::PersistentRestoreFailure {
                        attempts: state.attempt,
                        last_error: failure->0,
                    },
                ),
            )
            &&& after.creation == state.creation && after.verified == state.verified && after.parent
                == state.parent
        }),
{
}

/// What the watchdog waits for is one thing at a time.
pub proof fn watchdogs_wait_for_one_thing(state: WatchdogView, event: WatchdogEvent)
    ensures
        state.expects(event) <==> match state.phase {
            WatchdogPhase::Open => event is Opened,
            WatchdogPhase::CreationTime => event is CreationTime,
            WatchdogPhase::Ready => event is Ready,
            WatchdogPhase::Parent => event is Parent,
            WatchdogPhase::Journal => event is Journal,
            WatchdogPhase::Restore => event is Restored,
            WatchdogPhase::Finished => false,
        },
{
}

/// Stacks that remain are spelled out one after the other, with a comma and a space
/// between two.
pub proof fn remaining_stacks_are_spelled_out(first: Seq<IssueView>, second: Seq<IssueView>)
    ensures
        issues_text(Seq::empty()) == Seq::<char>::empty(),
        first.len() == 1 ==> issues_text(first) == issue_text(first[0]),
        first.len() > 0 && second.len() > 0 ==> issues_text(first + second) == issues_text(first)
            + seq![',', ' '] + issues_text(second),
    decreases second.len(),
{
    reveal_strlit(", ");
    assert(", "@ =~= seq![',', ' ']);
    if first.len() > 0 && second.len() > 0 {
        let whole = first + second;
        let front = second.drop_last();
        assert(whole.drop_last() =~= first + front);
        assert(whole.last() == second.last());
        if second.len() == 1 {
            assert(first + front =~= first);
        } else {
            remaining_stacks_are_spelled_out(first, front);
            assert(issues_text(whole) =~= issues_text(first) + seq![',', ' '] + (issues_text(front)
                + ", "@ + issue_text(second.last())));
        }
    }
}

/// A watchdog begins by opening its parent, with nothing verified and nothing tried.
pub proof fn watchdogs_begin_with_their_parent(creation: u64, signals: bool)
    ensures
        ({
            let first = new_watchdog(creation, signals);
            &&& first.creation == creation && first.signals == signals
            &&& first.phase is Open && first.parent is Alive
            &&& !first.verified && first.attempt == 0
            &&& first.last_error is None && first.outcome is None
        }),
{
}

} // verus!
