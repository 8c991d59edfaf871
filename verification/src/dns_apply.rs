//! Carrying out a plan and undoing it. The caller reads and writes the settings; what
//! is read or written next, and what is made of it, is decided here.

use crate::atomic_file::{holds, FileRead};
use crate::dns_configuration::{
    issue_views, ApplyResultView, ConfigurationFault, DnsApplyPlan, DnsApplyResult,
    DnsConfigurationError, DnsFamily, DnsOperation, DnsRestoreIssue, DnsSetting, DnsSnapshot,
    IssueView, OperationView, PlanView, SettingView, SnapshotView,
};
use crate::dns_journal::{
    journal_fault, journal_from_plan, journal_json, journal_outcome, journal_read, journal_text,
    journals_record_every_operation, records, DnsRecoveryJournal, JournalAdapterView,
    JournalStackView, JournalView, MAX_JOURNAL_BYTES,
};
use crate::dns_plan::{distinct_stacks, plan, plan_outcome, plans_change_each_stack_once};
use crate::dns_restore::{items_of, with_item, ItemView};
use crate::dns_session::text_option;
use crate::dns_supervisor::result_view;
use crate::guid::{guid_of, parse_guid};
use crate::net::IpAddr;
use crate::text::byte_len;
use vstd::prelude::*;
use vstd::string::*;

verus! {

/// A setting that was read, as a mathematical value.
pub open spec fn read_view(read: Result<DnsSetting, String>) -> Result<SettingView, Seq<char>> {
    match read {
        Ok(setting) => Ok(setting@),
        Err(message) => Err(message@),
    }
}

/// What giving a stack back waits for.
#[derive(Clone, Copy, Debug, PartialEq, Eq, Structural)]
pub enum OwnedPhase {
    /// For the setting that is in force.
    Read,
    /// For the write.
    Write,
    /// For the setting that is in force after the write.
    Verify,
    Finished,
}

/// What the caller does next to give a stack back.
#[derive(Clone, Copy, Debug, PartialEq, Eq, Structural)]
pub enum OwnedAction {
    Read,
    Write,
    Finish,
}

/// Giving a stack back what it had. The setting is read right before the write and
/// again after it. The system has no write that compares first, so another writer can
/// still come between; but a change that can be seen is never overwritten.
#[derive(Debug, PartialEq, Eq)]
pub struct OwnedRestore {
    original: DnsSetting,
    applied: Vec<IpAddr>,
    phase: OwnedPhase,
    error: Option<String>,
}

/// Giving a stack back, as mathematical values.
pub ghost struct OwnedView {
    pub original: SettingView,
    pub applied: Seq<IpAddr>,
    pub phase: OwnedPhase,
    pub error: Option<Seq<char>>,
}

impl OwnedView {
    pub open spec fn ended(self, error: Option<Seq<char>>) -> (OwnedView, OwnedAction) {
        (OwnedView { phase: OwnedPhase::Finished, error, ..self }, OwnedAction::Finish)
    }

    /// What a setting that was read does, and what comes next.
    pub open spec fn read(self, read: Result<SettingView, Seq<char>>) -> (OwnedView, OwnedAction) {
        match read {
            Err(message) => self.ended(Some(message)),
            Ok(current) => if current == self.original {
                self.ended(None)
            } else if self.phase == OwnedPhase::Verify {
                self.ended(Some("Windows did not retain the restored DNS value"@))
            } else if current == (SettingView::Static { servers: self.applied }) {
                (OwnedView { phase: OwnedPhase::Write, ..self }, OwnedAction::Write)
            } else {
                self.ended(Some("current DNS value no longer matches the Vapour generation"@))
            },
        }
    }

    /// What a write does, and what comes next.
    pub open spec fn written(self, result: Result<(), Seq<char>>) -> (OwnedView, OwnedAction) {
        match result {
            Err(message) => self.ended(Some(message)),
            Ok(()) => (OwnedView { phase: OwnedPhase::Verify, ..self }, OwnedAction::Read),
        }
    }
}

/// A setting is written only over the one that was given to the stack; anything else
/// that is in force is left alone. Giving back succeeds only where the original
/// setting was read last.
pub proof fn foreign_settings_are_kept(state: OwnedView, read: Result<SettingView, Seq<char>>)
    requires
        state.phase == OwnedPhase::Read || state.phase == OwnedPhase::Verify,
        state.error is None,
    ensures
        state.read(read).1 == OwnedAction::Write ==> state.phase == OwnedPhase::Read && read == Ok::<
            SettingView,
            Seq<char>,
        >(SettingView::Static { servers: state.applied }),
        state.read(read).1 == OwnedAction::Finish && state.read(read).0.error is None ==> read
            == Ok::<SettingView, Seq<char>>(state.original),
{
}

impl OwnedRestore {
    pub closed spec fn view(&self) -> OwnedView {
        OwnedView {
            original: self.original@,
            applied: self.applied@,
            phase: self.phase,
            error: text_option(self.error),
        }
    }

    /// Begins; the setting that is in force is read first.
    pub fn restore_owned_setting(original: &DnsSetting, applied: &[IpAddr]) -> (result: Self)
        ensures
            result@ == (OwnedView {
                original: original@,
                applied: applied@,
                phase: OwnedPhase::Read,
                error: None,
            }),
    {
        OwnedRestore {
            original: original.copied(),
            applied: crate::dns_configuration::copy_servers(applied),
            phase: OwnedPhase::Read,
            error: None,
        }
    }

    /// The setting that is written.
    pub fn setting(&self) -> (result: &DnsSetting)
        ensures
            result@ == self@.original,
    {
        &self.original
    }

    /// What giving back waits for.
    pub fn phase(&self) -> (result: OwnedPhase)
        ensures
            result == self@.phase,
    {
        self.phase
    }

    /// Takes a setting that was read.
    pub fn read(&mut self, read: Result<DnsSetting, String>) -> (result: OwnedAction)
        requires
            old(self)@.phase == OwnedPhase::Read || old(self)@.phase == OwnedPhase::Verify,
        ensures
            (final(self)@, result) == old(self)@.read(read_view(read)),
    {
        match read {
            Err(message) => {
                self.phase = OwnedPhase::Finished;
                self.error = Some(message);
                OwnedAction::Finish
            },
            Ok(current) => {
                if current.same(&self.original) {
                    self.phase = OwnedPhase::Finished;
                    self.error = None;
                    return OwnedAction::Finish;
                }
                if self.phase == OwnedPhase::Verify {
                    self.phase = OwnedPhase::Finished;
                    self.error = Some("Windows did not retain the restored DNS value".to_owned());
                    return OwnedAction::Finish;
                }
                if current.is_static(self.applied.as_slice()) {
                    self.phase = OwnedPhase::Write;
                    return OwnedAction::Write;
                }
                self.phase = OwnedPhase::Finished;
                self.error = Some(
                    "current DNS value no longer matches the Vapour generation".to_owned(),
                );
                OwnedAction::Finish
            },
        }
    }

    /// Takes the outcome of the write.
    pub fn written(&mut self, result: Result<(), String>) -> (action: OwnedAction)
        requires
            old(self)@.phase == OwnedPhase::Write,
        ensures
            (final(self)@, action) == old(self)@.written(result_view(result)),
    {
        match result {
            Err(message) => {
                self.phase = OwnedPhase::Finished;
                self.error = Some(message);
                OwnedAction::Finish
            },
            Ok(()) => {
                self.phase = OwnedPhase::Verify;
                OwnedAction::Read
            },
        }
    }

    /// What giving back came to.
    pub fn outcome(self) -> (result: Result<(), String>)
        ensures
            result_view(result) == (match self@.error {
                None => Ok::<(), Seq<char>>(()),
                Some(message) => Err::<(), Seq<char>>(message),
            }),
    {
        match self.error {
            None => Ok(()),
            Some(message) => Err(message),
        }
    }
}

/// The setting that an operation writes.
pub fn set_operation(operation: &DnsOperation) -> (result: DnsSetting)
    ensures
        result@ == (SettingView::Static { servers: operation@.desired }),
{
    DnsSetting::Static {
        servers: crate::dns_configuration::copy_servers(operation.desired_servers.as_slice()),
    }
}

/// Begins to give back the stack of an operation: what it had is written over what the
/// operation gave it.
pub fn set_original(operation: &DnsOperation) -> (result: OwnedRestore)
    ensures
        result@ == (OwnedView {
            original: operation@.original,
            applied: operation@.desired,
            phase: OwnedPhase::Read,
            error: None,
        }),
{
    OwnedRestore::restore_owned_setting(&operation.original, operation.desired_servers.as_slice())
}

/// What a request to change the settings comes to before anything is written.
#[derive(Debug, PartialEq, Eq)]
pub enum ApplyStart {
    /// Nothing has to be changed.
    Done(DnsApplyResult),
    /// The plan has to be carried out.
    Planned(DnsApplyPlan),
}

/// Makes the plan for a request to change the settings.
pub fn begin_apply(snapshot: &DnsSnapshot, desired_servers: &[IpAddr]) -> (result: Result<
    ApplyStart,
    DnsConfigurationError,
>)
    ensures
        match plan_outcome(snapshot@, desired_servers@) {
            Err(fault) => result matches Err(error) && error@ == fault,
            Ok(plan) => if plan.operations.len() == 0 {
                result matches Ok(ApplyStart::Done(done)) && done@ == (ApplyResultView {
                    generation: plan.generation,
                    attempted: 0,
                    changed: 0,
                    skipped: plan.skipped.len(),
                    journal_present: false,
                })
            } else {
                result matches Ok(ApplyStart::Planned(own)) && own@ == plan
            },
        },
        result matches Ok(ApplyStart::Planned(own)) ==> own@.operations.len() > 0
            && distinct_stacks(own@.operations),
{
    let own = match plan(snapshot, desired_servers) {
        Ok(own) => own,
        Err(error) => {
            return Err(error);
        },
    };
    if own.operations.len() == 0 {
        return Ok(
            ApplyStart::Done(
                DnsApplyResult {
                    generation: own.generation,
                    attempted_stack_count: 0,
                    changed_stack_count: 0,
                    skipped_stack_count: own.skipped.len(),
                    journal_present: false,
                },
            ),
        );
    }
    proof {
        plans_change_each_stack_once(snapshot@, desired_servers@);
    }
    Ok(ApplyStart::Planned(own))
}

/// Whether a journal records of every operation what the stack was and what it is given.
pub open spec fn recorded(operations: Seq<OperationView>, journal: JournalView) -> bool {
    forall|i: int|
        0 <= i < operations.len() ==> records(
            journal.adapters,
            (#[trigger] operations[i]).guid,
            operations[i].family,
            JournalStackView { original: operations[i].original, applied: operations[i].desired },
        )
}

/// A plan with the journal that has to be kept before it is carried out.
#[derive(Debug, PartialEq, Eq)]
pub struct PreparedApply {
    plan: DnsApplyPlan,
    journal: DnsRecoveryJournal,
    text: String,
}

/// A plan with its journal, as mathematical values.
pub ghost struct PreparedView {
    pub plan: PlanView,
    pub journal: JournalView,
    /// The text of the journal.
    pub text: Seq<char>,
}

impl PreparedView {
    /// What holds at all times: there is something to change, the journal is in order
    /// and records all of it, and its text fits its file.
    pub open spec fn valid(self) -> bool {
        &&& 0 < self.plan.operations.len() <= usize::MAX
        &&& recorded(self.plan.operations, self.journal)
        &&& journal_fault(self.journal) is None
        &&& self.text == journal_json(self.journal)
        &&& byte_len(self.text) <= MAX_JOURNAL_BYTES
    }
}

impl PreparedApply {
    pub closed spec fn view(&self) -> PreparedView {
        PreparedView { plan: self.plan@, journal: self.journal@, text: self.text@ }
    }

    /// The journal.
    pub fn journal(&self) -> (result: &DnsRecoveryJournal)
        ensures
            result@ == self@.journal,
    {
        &self.journal
    }

    /// The text of the journal.
    pub fn text(&self) -> (result: &str)
        ensures
            result@ == self@.text,
    {
        self.text.as_str()
    }
}

/// The journal that has to be kept before a plan is carried out, given the one that
/// there is.
pub open spec fn prepared(
    snapshot: SnapshotView,
    plan: PlanView,
    existing: Result<Option<DnsRecoveryJournal>, DnsConfigurationError>,
    now: u64,
) -> Result<(JournalView, Seq<char>), ConfigurationFault> {
    match existing {
        Err(error) => Err(error@),
        Ok(Some(_)) => Err(ConfigurationFault::JournalAlreadyExists),
        Ok(None) => match journal_outcome(snapshot, plan, now) {
            Err(fault) => Err(fault),
            Ok(journal) => if byte_len(journal_json(journal)) > MAX_JOURNAL_BYTES {
                Err(
                    ConfigurationFault::JournalTooLarge {
                        actual: byte_len(journal_json(journal)) as u64,
                        maximum: MAX_JOURNAL_BYTES,
                    },
                )
            } else {
                Ok((journal, journal_json(journal)))
            },
        },
    }
}

/// Makes the journal that has to be kept before a plan is carried out. No journal may
/// be there.
pub fn prepare_journal(
    snapshot: &DnsSnapshot,
    plan: DnsApplyPlan,
    existing: Result<Option<DnsRecoveryJournal>, DnsConfigurationError>,
    now: u64,
) -> (result: Result<PreparedApply, DnsConfigurationError>)
    requires
        plan@.operations.len() > 0,
        distinct_stacks(plan@.operations),
    ensures
        match prepared(snapshot@, plan@, existing, now) {
            Ok((journal, text)) => result matches Ok(own) && own@ == (PreparedView {
                plan: plan@,
                journal,
                text,
            }),
            Err(fault) => result matches Err(error) && error@ == fault,
        },
        result matches Ok(own) ==> own@.valid(),
{
    match existing {
        Err(error) => {
            return Err(error);
        },
        Ok(Some(_)) => {
            return Err(DnsConfigurationError::JournalAlreadyExists);
        },
        Ok(None) => {},
    }
    let journal = match journal_from_plan(snapshot, &plan, now) {
        Ok(journal) => journal,
        Err(error) => {
            return Err(error);
        },
    };
    let text = match journal_text(&journal) {
        Ok(text) => text,
        Err(error) => {
            return Err(error);
        },
    };
    proof {
        let operations = plan@.operations;
        journals_record_every_operation(
            snapshot@.adapters,
            operations,
            operations.len() as int,
        );
        assert(operations.len() == plan.operations.len());
    }
    Ok(PreparedApply { plan, journal, text })
}

proof fn lemma_recorded_stack_is_an_item(
    adapters: Seq<JournalAdapterView>,
    n: int,
    k: int,
    family: DnsFamily,
    stack: JournalStackView,
)
    requires
        0 <= k < n <= adapters.len(),
        adapters[k].stack(family) == Some(stack),
    ensures
        items_of(adapters, n).contains(ItemView { guid: adapters[k].guid, family, stack }),
    decreases n,
{
    let item = ItemView { guid: adapters[k].guid, family, stack };
    let before = items_of(adapters, n - 1);
    let adapter = adapters[n - 1];
    let first = with_item(before, adapter.guid, DnsFamily::Ipv4, adapter.ipv4);
    let all = items_of(adapters, n);
    assert(all == with_item(first, adapter.guid, DnsFamily::Ipv6, adapter.ipv6));
    if k < n - 1 {
        lemma_recorded_stack_is_an_item(adapters, n - 1, k, family, stack);
        let i = before.index_of(item);
        assert(all[i] == item);
    } else if family == DnsFamily::Ipv4 {
        assert(first[before.len() as int] == item);
        assert(all[before.len() as int] == item);
    } else {
        assert(all[first.len() as int] == item);
    }
}

/// A journal that was kept is read again from a file that still holds its text, and what
/// it names can be given back: each stack of the plan, with what it was and what it was
/// given. The file is decoded by the caller, to the journal that was encoded.
pub proof fn kept_journals_give_back_every_operation<
    D: FnOnce(Vec<u8>) -> Result<DnsRecoveryJournal, String>,
>(
    prepared: PreparedView,
    file: FileRead,
    decode: D,
    result: Result<Option<DnsRecoveryJournal>, DnsConfigurationError>,
)
    requires
        prepared.valid(),
        holds(file, vstd::utf8::encode_utf8(prepared.text)),
        forall|bytes: Vec<u8>, decoded: Result<DnsRecoveryJournal, String>|
            bytes@ == vstd::utf8::encode_utf8(prepared.text) && #[trigger] call_ensures(
                decode,
                (bytes,),
                decoded,
            ) ==> (decoded matches Ok(own) && own@ == prepared.journal),
        journal_read(file, decode, result),
    ensures
        result matches Ok(Some(own)) && own@ == prepared.journal && journal_fault(own@) is None,
        forall|i: int|
            0 <= i < prepared.plan.operations.len() ==> items_of(
                prepared.journal.adapters,
                prepared.journal.adapters.len() as int,
            ).contains(
                ItemView {
                    guid: (#[trigger] prepared.plan.operations[i]).guid,
                    family: prepared.plan.operations[i].family,
                    stack: JournalStackView {
                        original: prepared.plan.operations[i].original,
                        applied: prepared.plan.operations[i].desired,
                    },
                },
            ),
{
    let adapters = prepared.journal.adapters;
    assert forall|i: int| 0 <= i < prepared.plan.operations.len() implies items_of(
        adapters,
        adapters.len() as int,
    ).contains(
        ItemView {
            guid: (#[trigger] prepared.plan.operations[i]).guid,
            family: prepared.plan.operations[i].family,
            stack: JournalStackView {
                original: prepared.plan.operations[i].original,
                applied: prepared.plan.operations[i].desired,
            },
        },
    ) by {
        let operation = prepared.plan.operations[i];
        let stack = JournalStackView { original: operation.original, applied: operation.desired };
        assert(records(adapters, operation.guid, operation.family, stack));
        let k = choose|k: int|
            0 <= k < adapters.len() && (#[trigger] adapters[k]).guid == operation.guid
                && adapters[k].stack(operation.family) == Some(stack);
        lemma_recorded_stack_is_an_item(
            adapters,
            adapters.len() as int,
            k,
            operation.family,
            stack,
        );
    }
}

/// What carrying out a plan waits for.
#[derive(Clone, Copy, Debug, PartialEq, Eq, Structural)]
pub enum ApplyPhase {
    /// For the journal to be kept.
    Journal,
    Read,
    Write,
    Verify,
    Undo,
    Finished,
}

/// What happened while a plan is carried out.
#[derive(Debug, PartialEq, Eq)]
pub enum ApplyEvent {
    /// The journal was kept, or could not be.
    JournalKept(Result<(), String>),
    /// The setting of the stack, before it is changed.
    Read(Result<DnsSetting, DnsConfigurationError>),
    Written(Result<(), DnsConfigurationError>),
    /// The setting of the stack, after it was changed.
    Verified(Result<DnsSetting, DnsConfigurationError>),
    /// A stack was given back, or not.
    Undone(Result<(), String>),
}

/// What the caller does next to carry out a plan. The number is that of an operation.
#[derive(Clone, Copy, Debug, PartialEq, Eq, Structural)]
pub enum ApplyAction {
    /// Keeps the journal, where none is.
    KeepJournal,
    Read(usize),
    Write(usize),
    Verify(usize),
    /// Gives the stack back.
    Undo(usize),
    Finish,
}

/// Why a plan is given up.
#[derive(Debug, PartialEq, Eq)]
enum Failure {
    Failed { guid: String, family: DnsFamily, code: u32 },
    Precondition { guid: String, family: DnsFamily },
    Other(DnsConfigurationError),
}

/// Why a plan is given up, as mathematical values.
pub ghost enum FailureView {
    Failed { guid: Seq<char>, family: DnsFamily, code: u32 },
    Precondition { guid: Seq<char>, family: DnsFamily },
    Other(ConfigurationFault),
}

impl Failure {
    spec fn view(&self) -> FailureView {
        match self {
            Failure::Failed { guid, family, code } => FailureView::Failed {
                guid: guid@,
                family: *family,
                code: *code,
            },
            Failure::Precondition { guid, family } => FailureView::Precondition {
                guid: guid@,
                family: *family,
            },
            Failure::Other(error) => FailureView::Other(error@),
        }
    }
}

impl FailureView {
    /// What is reported once everything was undone.
    pub open spec fn fault(self, changed: nat, failures: Seq<IssueView>) -> ConfigurationFault {
        match self {
            FailureView::Failed { guid, family, code } => ConfigurationFault::ApplyFailed {
                guid,
                family,
                code,
                changed,
                failures,
            },
            FailureView::Precondition { guid, family } =>
            ConfigurationFault::ApplyPreconditionFailed { guid, family, changed, failures },
            FailureView::Other(fault) => fault,
        }
    }
}

/// The code of a failed read before the change.
pub open spec fn native_code(fault: ConfigurationFault) -> u32 {
    match fault {
        ConfigurationFault::NativeQuery { code, .. } => code,
        ConfigurationFault::NativeSet { code, .. } => code,
        _ => 0,
    }
}

/// The code of a failed read after the change.
pub open spec fn query_code(fault: ConfigurationFault) -> u32 {
    match fault {
        ConfigurationFault::NativeQuery { code, .. } => code,
        _ => 0,
    }
}

/// Carrying out a plan.
#[derive(Debug, PartialEq, Eq)]
pub struct ApplyRun {
    plan: DnsApplyPlan,
    journal: DnsRecoveryJournal,
    text: String,
    journal_kept: bool,
    phase: ApplyPhase,
    index: usize,
    changed: usize,
    undo: usize,
    failure: Option<Failure>,
    failures: Vec<DnsRestoreIssue>,
    invalid: Option<String>,
}

/// Carrying out a plan, as mathematical values.
pub ghost struct ApplyView {
    pub plan: PlanView,
    pub journal: JournalView,
    /// The text of the journal.
    pub text: Seq<char>,
    pub journal_kept: bool,
    pub phase: ApplyPhase,
    /// The operation that is under way.
    pub index: int,
    /// How many stacks were changed: those of the first operations.
    pub changed: int,
    /// How many of them are still to be given back.
    pub undo: int,
    pub failure: Option<FailureView>,
    pub failures: Seq<IssueView>,
    /// Why the identifier of an operation could not be read.
    pub invalid: Option<Seq<char>>,
}

impl ApplyView {
    pub open spec fn operation(self) -> OperationView {
        self.plan.operations[self.index]
    }

    /// What is carried out.
    pub open spec fn prepared(self) -> PreparedView {
        PreparedView { plan: self.plan, journal: self.journal, text: self.text }
    }

    /// What holds at all times: the journal records every operation and is kept before
    /// any stack is read or written, the stacks that were changed are those of the
    /// first operations, giving back goes through all of them, and only that can leave
    /// one as it is.
    pub open spec fn valid(self) -> bool {
        let n = self.plan.operations.len();
        &&& self.prepared().valid()
        &&& (self.phase == ApplyPhase::Read || self.phase == ApplyPhase::Write || self.phase
            == ApplyPhase::Verify || self.phase == ApplyPhase::Undo) ==> self.journal_kept
        &&& self.phase == ApplyPhase::Journal ==> self.index == 0 && !self.journal_kept
        &&& !self.journal_kept ==> self.changed == 0
        &&& self.phase == ApplyPhase::Finished && self.failure is None ==> self.journal_kept
        &&& 0 <= self.index <= n <= usize::MAX
        &&& 0 <= self.changed <= n
        &&& 0 <= self.undo <= self.changed
        &&& (self.phase == ApplyPhase::Read || self.phase == ApplyPhase::Write) ==> self.index < n
            && self.changed == self.index
        &&& self.phase == ApplyPhase::Verify ==> self.index < n && self.changed == self.index + 1
        &&& self.phase == ApplyPhase::Undo ==> self.failure is Some && self.undo > 0
        &&& self.phase != ApplyPhase::Undo && self.phase != ApplyPhase::Finished ==> self.failure
            is None
        &&& self.phase == ApplyPhase::Finished && self.failure is None && self.invalid is None
            ==> self.changed == n
        &&& self.phase == ApplyPhase::Finished && self.failure is Some ==> self.undo == 0
        &&& self.phase != ApplyPhase::Finished ==> self.invalid is None
        &&& self.failure is None ==> self.failures.len() == 0
        &&& self.failures.len() <= self.changed - self.undo
    }

    pub open spec fn expects(self, event: ApplyEvent) -> bool {
        match event {
            ApplyEvent::JournalKept(_) => self.phase == ApplyPhase::Journal,
            ApplyEvent::Read(_) => self.phase == ApplyPhase::Read,
            ApplyEvent::Written(_) => self.phase == ApplyPhase::Write,
            ApplyEvent::Verified(_) => self.phase == ApplyPhase::Verify,
            ApplyEvent::Undone(_) => self.phase == ApplyPhase::Undo,
        }
    }

    /// The run that goes on to an operation, or ends after the last.
    pub open spec fn at(self, index: int) -> (ApplyView, ApplyAction) {
        if index >= self.plan.operations.len() {
            (ApplyView { index, phase: ApplyPhase::Finished, ..self }, ApplyAction::Finish)
        } else {
            match guid_of(self.plan.operations[index].guid) {
                Err(reason) => (
                    ApplyView { index, phase: ApplyPhase::Finished, invalid: Some(reason), ..self },
                    ApplyAction::Finish,
                ),
                Ok(_) => (
                    ApplyView { index, phase: ApplyPhase::Read, ..self },
                    ApplyAction::Read(index as usize),
                ),
            }
        }
    }

    /// The run that gives back the stack that was changed last, or ends.
    pub open spec fn undoing(self) -> (ApplyView, ApplyAction) {
        if self.undo == 0 {
            (ApplyView { phase: ApplyPhase::Finished, ..self }, ApplyAction::Finish)
        } else {
            (
                ApplyView { phase: ApplyPhase::Undo, ..self },
                ApplyAction::Undo((self.undo - 1) as usize),
            )
        }
    }

    /// The run that is given up.
    pub open spec fn failing(self, failure: FailureView) -> (ApplyView, ApplyAction) {
        ApplyView { failure: Some(failure), undo: self.changed, ..self }.undoing()
    }

    /// The run that is given up over the operation that is under way.
    pub open spec fn failing_here(self, code: u32) -> (ApplyView, ApplyAction) {
        self.failing(
            FailureView::Failed { guid: self.operation().guid, family: self.operation().family, code },
        )
    }

    /// What an event does, and what comes next.
    pub open spec fn step(self, event: ApplyEvent) -> (ApplyView, ApplyAction) {
        match event {
            ApplyEvent::JournalKept(Ok(())) => ApplyView { journal_kept: true, ..self }.at(0),
            ApplyEvent::JournalKept(Err(message)) => self.failing(
                FailureView::Other(ConfigurationFault::JournalIo(message@)),
            ),
            ApplyEvent::Read(Err(error)) => self.failing_here(native_code(error@)),
            ApplyEvent::Read(Ok(current)) => if current@ != self.operation().original {
                self.failing(
                    FailureView::Precondition {
                        guid: self.operation().guid,
                        family: self.operation().family,
                    },
                )
            } else {
                (
                    ApplyView { phase: ApplyPhase::Write, ..self },
                    ApplyAction::Write(self.index as usize),
                )
            },
            ApplyEvent::Written(Ok(())) => (
                ApplyView { phase: ApplyPhase::Verify, changed: self.changed + 1, ..self },
                ApplyAction::Verify(self.index as usize),
            ),
            ApplyEvent::Written(Err(error)) => self.failing(
                match error@ {
                    ConfigurationFault::NativeSet { guid, family, code } => FailureView::Failed {
                        guid,
                        family,
                        code,
                    },
                    other => FailureView::Other(other),
                },
            ),
            ApplyEvent::Verified(Ok(observed)) => if observed@ == (SettingView::Static {
                servers: self.operation().desired,
            }) {
                self.at(self.index + 1)
            } else {
                self.failing_here(0)
            },
            ApplyEvent::Verified(Err(error)) => self.failing_here(query_code(error@)),
            ApplyEvent::Undone(result) => {
                let undone = self.plan.operations[self.undo - 1];
                ApplyView {
                    undo: self.undo - 1,
                    failures: match result {
                        Ok(()) => self.failures,
                        Err(reason) => self.failures.push(
                            IssueView { guid: undone.guid, family: undone.family, reason: reason@ },
                        ),
                    },
                    ..self
                }.undoing()
            },
        }
    }

    /// What a run that has ended came to.
    pub open spec fn outcome(self) -> Result<ApplyResultView, ConfigurationFault> {
        match self.invalid {
            Some(reason) => Err(ConfigurationFault::InvalidSnapshot(reason)),
            None => match self.failure {
                Some(failure) => Err(failure.fault(self.changed as nat, self.failures)),
                None => Ok(
                    ApplyResultView {
                        generation: self.plan.generation,
                        attempted: self.plan.operations.len(),
                        changed: self.changed as nat,
                        skipped: self.plan.skipped.len(),
                        journal_present: self.journal_kept,
                    },
                ),
            },
        }
    }
}

/// Every event keeps what holds of a run. A stack is written only right after it was
/// read with the setting that the plan was made for.
pub proof fn writes_follow_a_matching_read(state: ApplyView, event: ApplyEvent)
    requires
        state.valid(),
        state.expects(event),
    ensures
        state.step(event).0.valid(),
        state.step(event).1 is Write ==> (event matches ApplyEvent::Read(Ok(current)) && current@
            == state.operation().original),
        state.step(event).0.plan == state.plan,
{
}

/// The journal comes first: a stack is read, written or given back only once the journal
/// is kept that records what every stack was and what it is given. A journal that
/// cannot be kept ends the run with an error, and nothing was changed.
pub proof fn journals_come_first(state: ApplyView, event: ApplyEvent)
    requires
        state.valid(),
        state.expects(event),
    ensures
        state.step(event).1 is Write ==> state.journal_kept,
        state.step(event).1 is Read || state.step(event).1 is Write || state.step(event).1 is Verify
            || state.step(event).1 is Undo ==> state.step(event).0.journal_kept && recorded(
            state.plan.operations,
            state.journal,
        ),
        state.journal_kept ==> state.step(event).0.journal_kept,
        state.step(event).0.journal == state.journal,
        state.step(event).0.text == state.text,
        state.step(event).0.journal_kept && !state.journal_kept ==> (event
            matches ApplyEvent::JournalKept(Ok(_))),
        event matches ApplyEvent::JournalKept(Err(message)) ==> {
            &&& state.step(event).1 == ApplyAction::Finish
            &&& state.step(event).0.outcome() == Err::<ApplyResultView, ConfigurationFault>(
                ConfigurationFault::JournalIo(message@),
            )
            &&& state.step(event).0.changed == 0
        },
        state.step(event).1 == ApplyAction::Finish && state.step(event).0.outcome() is Ok
            ==> state.step(event).0.journal_kept,
{
}

/// A run that is given up gives back every stack that it changed, the last one first,
/// before it ends; it ends well only where every stack was changed and was read with
/// its new setting.
pub proof fn failures_give_back_every_stack(state: ApplyView, event: ApplyEvent)
    requires
        state.valid(),
        state.expects(event),
    ensures
        state.phase != ApplyPhase::Undo && state.step(event).0.failure is Some ==> state.step(
            event,
        ).0.undo == state.step(event).0.changed,
        state.step(event).0.phase == ApplyPhase::Undo ==> state.step(event).1 == ApplyAction::Undo(
            (state.step(event).0.undo - 1) as usize,
        ),
        state.phase == ApplyPhase::Undo ==> state.step(event).0.undo == state.undo - 1,
        state.step(event).1 == ApplyAction::Finish && state.step(event).0.outcome() is Ok
            ==> state.step(event).0.changed == state.plan.operations.len() && (event
            matches ApplyEvent::Verified(Ok(observed)) && observed@ == (SettingView::Static {
            servers: state.operation().desired,
        })),
{
}

/// The stacks that could not be given back, of those that were changed: the last one was
/// tried first.
pub open spec fn not_given_back(
    operations: Seq<OperationView>,
    changed: int,
    results: Seq<Result<(), String>>,
) -> Seq<IssueView>
    decreases results.len(),
{
    if results.len() == 0 {
        Seq::empty()
    } else {
        let earlier = not_given_back(operations, changed, results.drop_last());
        let operation = operations[changed - results.len()];
        match results.last() {
            Ok(()) => earlier,
            Err(reason) => earlier.push(
                IssueView { guid: operation.guid, family: operation.family, reason: reason@ },
            ),
        }
    }
}

impl ApplyView {
    /// The run after the outcomes of giving back, one after the other.
    pub open spec fn undone(self, results: Seq<Result<(), String>>) -> ApplyView
        decreases results.len(),
    {
        if results.len() == 0 {
            self
        } else {
            self.undone(results.drop_last()).step(ApplyEvent::Undone(results.last())).0
        }
    }
}

/// A run that is given up reports exactly the stacks that it changed and could not give
/// back.
pub proof fn rollback_failures_are_exact(
    state: ApplyView,
    event: ApplyEvent,
    results: Seq<Result<(), String>>,
)
    requires
        state.valid(),
        state.expects(event),
        state.phase != ApplyPhase::Undo,
        state.step(event).0.failure is Some,
        results.len() <= state.step(event).0.changed,
    ensures
        ({
            let given_up = state.step(event).0;
            let after = given_up.undone(results);
            &&& after.valid()
            &&& after.plan == state.plan
            &&& after.failure == given_up.failure
            &&& after.changed == given_up.changed
            &&& after.invalid is None
            &&& after.undo == given_up.changed - results.len()
            &&& after.failures == not_given_back(state.plan.operations, given_up.changed, results)
            &&& (if after.undo > 0 {
                after.phase == ApplyPhase::Undo
            } else {
                after.phase == ApplyPhase::Finished && after.outcome() == Err::<
                    ApplyResultView,
                    ConfigurationFault,
                >(
                    given_up.failure->0.fault(
                        given_up.changed as nat,
                        not_given_back(state.plan.operations, given_up.changed, results),
                    ),
                )
            })
        }),
    decreases results.len(),
{
    writes_follow_a_matching_read(state, event);
    let given_up = state.step(event).0;
    let after = given_up.undone(results);
    if results.len() > 0 {
        let before = given_up.undone(results.drop_last());
        rollback_failures_are_exact(state, event, results.drop_last());
        writes_follow_a_matching_read(before, ApplyEvent::Undone(results.last()));
        assert(before.undo - 1 == before.changed - results.len());
        assert(after == before.step(ApplyEvent::Undone(results.last())).0);
    } else {
        assert(after == given_up);
        assert(after.failures =~= Seq::<IssueView>::empty());
    }
    assert(after.failures == not_given_back(state.plan.operations, given_up.changed, results));
}

impl ApplyRun {
    pub closed spec fn view(&self) -> ApplyView {
        ApplyView {
            plan: self.plan@,
            journal: self.journal@,
            text: self.text@,
            journal_kept: self.journal_kept,
            phase: self.phase,
            index: self.index as int,
            changed: self.changed as int,
            undo: self.undo as int,
            failure: match self.failure {
                Some(failure) => Some(failure@),
                None => None,
            },
            failures: issue_views(self.failures@),
            invalid: text_option(self.invalid),
        }
    }

    /// Begins to carry out a plan; its journal is kept first.
    pub fn apply(prepared: PreparedApply) -> (result: (Self, ApplyAction))
        requires
            prepared@.valid(),
        ensures
            result.0@.valid(),
            result.0@ == (ApplyView {
                plan: prepared@.plan,
                journal: prepared@.journal,
                text: prepared@.text,
                journal_kept: false,
                phase: ApplyPhase::Journal,
                index: 0,
                changed: 0,
                undo: 0,
                failure: None,
                failures: Seq::empty(),
                invalid: None,
            }),
            result.1 == ApplyAction::KeepJournal,
    {
        let run = ApplyRun {
            plan: prepared.plan,
            journal: prepared.journal,
            text: prepared.text,
            journal_kept: false,
            phase: ApplyPhase::Journal,
            index: 0,
            changed: 0,
            undo: 0,
            failure: None,
            failures: Vec::new(),
            invalid: None,
        };
        assert(issue_views(run.failures@) =~= Seq::empty());
        (run, ApplyAction::KeepJournal)
    }

    /// The text of the journal that is kept.
    pub fn journal_text(&self) -> (result: &str)
        ensures
            result@ == self@.text,
    {
        self.text.as_str()
    }

    /// What the run waits for.
    pub fn phase(&self) -> (result: ApplyPhase)
        ensures
            result == self@.phase,
    {
        self.phase
    }

    /// An operation of the plan.
    pub fn operation(&self, index: usize) -> (result: &DnsOperation)
        requires
            index < self@.plan.operations.len(),
        ensures
            result@ == self@.plan.operations[index as int],
    {
        &self.plan.operations[index]
    }

    fn go_on(&mut self) -> (result: ApplyAction)
        requires
            old(self)@.index <= old(self)@.plan.operations.len(),
        ensures
            (final(self)@, result) == old(self)@.at(old(self)@.index),
    {
        if self.index >= self.plan.operations.len() {
            self.phase = ApplyPhase::Finished;
            return ApplyAction::Finish;
        }
        match parse_guid(self.plan.operations[self.index].interface_guid.as_str()) {
            Err(reason) => {
                self.phase = ApplyPhase::Finished;
                self.invalid = Some(reason.to_owned());
                ApplyAction::Finish
            },
            Ok(_) => {
                self.phase = ApplyPhase::Read;
                ApplyAction::Read(self.index)
            },
        }
    }

    fn undo_next(&mut self) -> (result: ApplyAction)
        ensures
            (final(self)@, result) == old(self)@.undoing(),
    {
        if self.undo == 0 {
            self.phase = ApplyPhase::Finished;
            ApplyAction::Finish
        } else {
            self.phase = ApplyPhase::Undo;
            ApplyAction::Undo(self.undo - 1)
        }
    }

    fn fail(&mut self, failure: Failure) -> (result: ApplyAction)
        ensures
            (final(self)@, result) == old(self)@.failing(failure@),
    {
        self.failure = Some(failure);
        self.undo = self.changed;
        self.undo_next()
    }

    fn fail_here(&mut self, code: u32) -> (result: ApplyAction)
        requires
            old(self)@.index < old(self)@.plan.operations.len(),
        ensures
            (final(self)@, result) == old(self)@.failing_here(code),
    {
        let operation = &self.plan.operations[self.index];
        assert(operation@ == self@.operation());
        let failure = Failure::Failed {
            guid: operation.interface_guid.clone(),
            family: operation.family,
            code,
        };
        self.fail(failure)
    }

    fn took_journal(&mut self, result: Result<(), String>) -> (action: ApplyAction)
        requires
            old(self)@.valid(),
            old(self)@.phase == ApplyPhase::Journal,
        ensures
            (final(self)@, action) == old(self)@.step(ApplyEvent::JournalKept(result)),
    {
        match result {
            Ok(()) => {
                self.journal_kept = true;
                self.go_on()
            },
            Err(message) => self.fail(Failure::Other(DnsConfigurationError::JournalIo(message))),
        }
    }

    fn took_read(&mut self, read: Result<DnsSetting, DnsConfigurationError>) -> (result: ApplyAction)
        requires
            old(self)@.valid(),
            old(self)@.phase == ApplyPhase::Read,
        ensures
            (final(self)@, result) == old(self)@.step(ApplyEvent::Read(read)),
    {
        match read {
            Err(error) => {
                let code: u32 = match &error {
                    DnsConfigurationError::NativeQuery { code, .. } => *code,
                    DnsConfigurationError::NativeSet { code, .. } => *code,
                    _ => 0,
                };
                self.fail_here(code)
            },
            Ok(current) => {
                let operation = &self.plan.operations[self.index];
                assert(operation@ == self@.operation());
                if !current.same(&operation.original) {
                    let failure = Failure::Precondition {
                        guid: operation.interface_guid.clone(),
                        family: operation.family,
                    };
                    return self.fail(failure);
                }
                self.phase = ApplyPhase::Write;
                ApplyAction::Write(self.index)
            },
        }
    }

    fn took_written(&mut self, result: Result<(), DnsConfigurationError>) -> (action: ApplyAction)
        requires
            old(self)@.valid(),
            old(self)@.phase == ApplyPhase::Write,
        ensures
            (final(self)@, action) == old(self)@.step(ApplyEvent::Written(result)),
    {
        match result {
            Ok(()) => {
                self.phase = ApplyPhase::Verify;
                self.changed = self.changed + 1;
                ApplyAction::Verify(self.index)
            },
            Err(error) => {
                let failure = match error {
                    DnsConfigurationError::NativeSet { interface_guid, family, code } => Failure::Failed {
                        guid: interface_guid,
                        family,
                        code,
                    },
                    other => Failure::Other(other),
                };
                self.fail(failure)
            },
        }
    }

    fn took_verified(&mut self, read: Result<DnsSetting, DnsConfigurationError>) -> (result:
        ApplyAction)
        requires
            old(self)@.valid(),
            old(self)@.phase == ApplyPhase::Verify,
        ensures
            (final(self)@, result) == old(self)@.step(ApplyEvent::Verified(read)),
    {
        match read {
            Err(error) => {
                let code: u32 = match &error {
                    DnsConfigurationError::NativeQuery { code, .. } => *code,
                    _ => 0,
                };
                self.fail_here(code)
            },
            Ok(observed) => {
                let operation = &self.plan.operations[self.index];
                assert(operation@ == self@.operation());
                if !observed.is_static(operation.desired_servers.as_slice()) {
                    return self.fail_here(0);
                }
                self.index = self.index + 1;
                self.go_on()
            },
        }
    }

    fn took_undone(&mut self, result: Result<(), String>) -> (action: ApplyAction)
        requires
            old(self)@.valid(),
            old(self)@.phase == ApplyPhase::Undo,
        ensures
            (final(self)@, action) == old(self)@.step(ApplyEvent::Undone(result)),
    {
        let ghost before = self.failures@;
        let undone = &self.plan.operations[self.undo - 1];
        assert(undone@ == self@.plan.operations[self.undo - 1]);
        if let Err(reason) = result {
            let issue = DnsRestoreIssue {
                interface_guid: undone.interface_guid.clone(),
                family: undone.family,
                reason,
            };
            self.failures.push(issue);
            assert(issue_views(self.failures@) =~= issue_views(before).push(issue@));
        }
        self.undo = self.undo - 1;
        self.undo_next()
    }

    /// Takes an event that is waited for.
    pub fn step(&mut self, event: ApplyEvent) -> (result: ApplyAction)
        requires
            old(self)@.valid(),
            old(self)@.expects(event),
        ensures
            final(self)@.valid(),
            (final(self)@, result) == old(self)@.step(event),
    {
        proof {
            writes_follow_a_matching_read(self@, event);
        }
        match event {
            ApplyEvent::JournalKept(result) => self.took_journal(result),
            ApplyEvent::Read(read) => self.took_read(read),
            ApplyEvent::Written(result) => self.took_written(result),
            ApplyEvent::Verified(read) => self.took_verified(read),
            ApplyEvent::Undone(result) => self.took_undone(result),
        }
    }

    /// What a run that has ended came to.
    pub fn outcome(self) -> (result: Result<DnsApplyResult, DnsConfigurationError>)
        requires
            self@.valid(),
            self@.phase == ApplyPhase::Finished,
        ensures
            match self@.outcome() {
                Ok(done) => result matches Ok(own) && own@ == done,
                Err(fault) => result matches Err(error) && error@ == fault,
            },
            result matches Ok(own) ==> self@.journal_kept && own.journal_present,
    {
        if let Some(reason) = self.invalid {
            return Err(DnsConfigurationError::InvalidSnapshot(reason));
        }
        match self.failure {
            Some(Failure::Failed { guid, family, code }) => Err(
                DnsConfigurationError::ApplyFailed {
                    interface_guid: guid,
                    family,
                    code,
                    changed_stack_count: self.changed,
                    rollback_failures: self.failures,
                },
            ),
            Some(Failure::Precondition { guid, family }) => Err(
                DnsConfigurationError::ApplyPreconditionFailed {
                    interface_guid: guid,
                    family,
                    changed_stack_count: self.changed,
                    rollback_failures: self.failures,
                },
            ),
            Some(Failure::Other(error)) => Err(error),
            None => Ok(
                DnsApplyResult {
                    generation: self.plan.generation,
                    attempted_stack_count: self.plan.operations.len(),
                    changed_stack_count: self.changed,
                    skipped_stack_count: self.plan.skipped.len(),
                    journal_present: self.journal_kept,
                },
            ),
        }
    }
}

/// What a setting that was read does while a stack is given back: the original one ends it
/// well; before the write the one that was given to the stack is written over; every
/// other one, and a failure, ends it with an error.
pub proof fn stacks_are_given_back_over_their_own_setting(
    state: OwnedView,
    read: Result<SettingView, Seq<char>>,
    write: Result<(), Seq<char>>,
)
    requires
        state.phase is Read || state.phase is Verify,
    ensures
        ({
            let (after, action) = state.read(read);
            let original = read is Ok && read->Ok_0 == state.original;
            let own = read is Ok && read->Ok_0 == (SettingView::Static { servers: state.applied });
            let writes = !original && own && state.phase is Read;
            &&& action is Write <==> writes
            &&& action is Finish <==> !writes
            &&& after.phase is Write <==> writes
            &&& original ==> after.error is None
            &&& read matches Err(message) ==> after.error == Some(message)
            &&& read is Ok && !original && state.phase is Verify ==> after.error == Some(
                "Windows did not retain the restored DNS value"@,
            )
            &&& read is Ok && !original && !own && state.phase is Read ==> after.error == Some(
                "current DNS value no longer matches the Vapour generation"@,
            )
            &&& after.original == state.original && after.applied == state.applied
        }),
        ({
            let (after, action) = state.written(write);
            &&& write is Ok ==> action is Read && after.phase is Verify && after.error
                == state.error
            &&& write matches Err(message) ==> action is Finish && after.phase is Finished
                && after.error == Some(message)
        }),
{
}

/// A journal is prepared exactly where none is there, one can be made of the plan and it
/// fits its 256 kibibytes; what is kept is its text.
pub proof fn journals_are_prepared_where_none_is(
    snapshot: SnapshotView,
    plan: PlanView,
    existing: Result<Option<DnsRecoveryJournal>, DnsConfigurationError>,
    now: u64,
)
    ensures
        ({
            let made = journal_outcome(snapshot, plan, now);
            let told = prepared(snapshot, plan, existing, now);
            let absent = existing is Ok && existing->Ok_0 is None;
            let size = vstd::utf8::encode_utf8(journal_json(made->Ok_0)).len();
            &&& told is Ok <==> absent && made is Ok && size <= 256 * 1024
            &&& told matches Ok((journal, text)) ==> made == Ok::<JournalView, ConfigurationFault>(
                journal,
            ) && text == journal_json(journal)
            &&& existing matches Err(error) ==> told == Err::<
                (JournalView, Seq<char>),
                ConfigurationFault,
            >(error@)
            &&& existing matches Ok(Some(_)) ==> told == Err::<
                (JournalView, Seq<char>),
                ConfigurationFault,
            >(ConfigurationFault::JournalAlreadyExists)
            &&& absent && made is Err ==> told == Err::<
                (JournalView, Seq<char>),
                ConfigurationFault,
            >(made->Err_0)
            &&& absent && made is Ok && told is Err ==> (told matches Err(
                ConfigurationFault::JournalTooLarge { maximum, .. },
            ) && maximum == 262_144)
        }),
{
}

/// What each event does while a plan is carried out. A stack is read, written where it has
/// the setting that the plan was made for, and read again; then comes the next one. What
/// goes wrong gives the plan up, and every stack that was changed is given back, the last
/// one first.
pub proof fn plans_are_carried_out_stack_by_stack(state: ApplyView, event: ApplyEvent)
    requires
        state.valid(),
        state.expects(event),
    ensures
        ({
            let (after, action) = state.step(event);
            let operation = state.plan.operations[state.index];
            let goes_on = match event {
                ApplyEvent::JournalKept(Ok(_)) => true,
                ApplyEvent::Verified(Ok(observed)) => observed@ == (SettingView::Static {
                    servers: operation.desired,
                }),
                _ => false,
            };
            let writes = event matches ApplyEvent::Read(Ok(current)) && current@
                == operation.original;
            let wrote = event matches ApplyEvent::Written(Ok(_));
            let next = if event is JournalKept {
                0
            } else {
                state.index + 1
            };
            let more = next < state.plan.operations.len();
            let readable = more && guid_of(state.plan.operations[next].guid) is Ok;
            let gives_up = !goes_on && !writes && !wrote && !(event is Undone);
            &&& writes ==> action == ApplyAction::Write(state.index as usize) && after.phase is Write
            &&& wrote ==> action == ApplyAction::Verify(state.index as usize) && after.phase
                is Verify
            &&& after.changed == if wrote {
                state.changed + 1
            } else {
                state.changed
            }
            &&& goes_on && readable ==> action == ApplyAction::Read(next as usize) && after.phase
                is Read && after.index == next
            &&& goes_on && !readable ==> action is Finish && after.phase is Finished
            &&& after.invalid is Some <==> state.invalid is Some || (goes_on && more && !readable)
            &&& after.failure is Some <==> state.failure is Some || gives_up
            &&& gives_up && state.changed > 0 ==> action == ApplyAction::Undo(
                (state.changed - 1) as usize,
            ) && after.undo == state.changed
            &&& gives_up && state.changed == 0 ==> action is Finish && after.phase is Finished
            &&& event matches ApplyEvent::Undone(result) ==> {
                let undone = state.plan.operations[state.undo - 1];
                &&& after.undo == state.undo - 1
                &&& state.undo > 1 ==> action == ApplyAction::Undo((state.undo - 2) as usize)
                &&& state.undo == 1 ==> action is Finish
                &&& result is Ok ==> after.failures == state.failures
                &&& result matches Err(reason) ==> after.failures == state.failures.push(
                    IssueView { guid: undone.guid, family: undone.family, reason: reason@ },
                )
            }
            &&& !(event is Undone) ==> after.failures == state.failures
            &&& after.plan == state.plan && after.journal == state.journal && after.text
                == state.text
        }),
{
}

/// Why a plan is given up: a stack that cannot be read, before or after the change, with
/// the code if there is one; one that has another setting than the plan was made for; a
/// write that failed, as it tells; and one that does not have what it was given.
pub proof fn plans_tell_why_they_are_given_up(state: ApplyView, event: ApplyEvent)
    requires
        state.valid(),
        state.expects(event),
        !(event is Undone),
        state.step(event).0.failure is Some,
    ensures
        ({
            let operation = state.plan.operations[state.index];
            let failure = state.step(event).0.failure->0;
            &&& event matches ApplyEvent::JournalKept(Err(message)) ==> failure
                == FailureView::Other(ConfigurationFault::JournalIo(message@))
            &&& event is Read && (event matches ApplyEvent::Read(Ok(_))) ==> failure == (
            FailureView::Precondition { guid: operation.guid, family: operation.family })
            &&& event matches ApplyEvent::Read(Err(error)) ==> (failure matches FailureView::Failed {
                guid,
                family,
                code,
            } && guid == operation.guid && family == operation.family && code == match error@ {
                ConfigurationFault::NativeQuery { code, .. } => code,
                ConfigurationFault::NativeSet { code, .. } => code,
                _ => 0,
            })
            &&& event matches ApplyEvent::Verified(Ok(_)) ==> failure == (FailureView::Failed {
                guid: operation.guid,
                family: operation.family,
                code: 0,
            })
            &&& event matches ApplyEvent::Verified(Err(error)) ==> (failure
                matches FailureView::Failed { guid, family, code } && guid == operation.guid
                && family == operation.family && code == match error@ {
                ConfigurationFault::NativeQuery { code, .. } => code,
                _ => 0,
            })
            &&& event matches ApplyEvent::Written(Err(error)) ==> match error@ {
                ConfigurationFault::NativeSet { guid, family, code } => failure == (
                FailureView::Failed { guid, family, code }),
                other => failure == FailureView::Other(other),
            }
        }),
{
}

/// What a run that has ended tells: how many stacks it changed and passed over, where
/// nothing went wrong; otherwise why, with the stacks that were not given back.
pub proof fn runs_tell_what_they_changed(state: ApplyView)
    requires
        state.valid(),
        state.phase is Finished,
    ensures
        ({
            let told = state.outcome();
            &&& told is Ok <==> state.invalid is None && state.failure is None
            &&& told matches Ok(result) ==> {
                &&& result.generation == state.plan.generation
                &&& result.attempted == state.plan.operations.len()
                &&& result.changed == state.plan.operations.len()
                &&& result.skipped == state.plan.skipped.len()
                &&& result.journal_present
            }
            &&& state.invalid matches Some(reason) ==> told == Err::<
                ApplyResultView,
                ConfigurationFault,
            >(ConfigurationFault::InvalidSnapshot(reason))
            &&& state.invalid is None ==> (state.failure matches Some(failure) ==> match failure {
                FailureView::Failed { guid, family, code } => told == Err::<
                    ApplyResultView,
                    ConfigurationFault,
                >(
                    ConfigurationFault::ApplyFailed {
                        guid,
                        family,
                        code,
                        changed: state.changed as nat,
                        failures: state.failures,
                    },
                ),
                FailureView::Precondition { guid, family } => told == Err::<
                    ApplyResultView,
                    ConfigurationFault,
                >(
                    ConfigurationFault::ApplyPreconditionFailed {
                        guid,
                        family,
                        changed: state.changed as nat,
                        failures: state.failures,
                    },
                ),
                FailureView::Other(fault) => told == Err::<ApplyResultView, ConfigurationFault>(
                    fault,
                ),
            })
        }),
{
}

} // verus!
