//! Whether protection is asked for, and how the rules are brought in line with it.

use crate::atomic_file::{
    bounded_contents, holds, read_bounded_file, FileRead, ReadFault, ReadFaultView,
};
use crate::dns_session::text_option;
use crate::dns_supervisor::result_view;
use crate::json::{json_bool, json_truth};
use crate::text::{
    byte_len, decimal, decimal_text, join, join4, join5, lemma_decimal_bytes, lemma_joined_bytes,
    lemma_plain_bytes,
};
use vstd::prelude::*;
use vstd::string::*;

verus! {

/// The version of the preference file.
pub const INTENT_FORMAT_VERSION: u32 = 1;

/// How large the preference file may be, in bytes.
pub const MAX_INTENT_FILE_BYTES: usize = 1024;

/// How long to wait for a feed that is being retrieved, in milliseconds.
pub const REFRESH_WAIT_MS: u64 = 40_000;

/// How many seconds pass between two rounds of the scheduler.
pub const SCHEDULE_SECS: u32 = 900;

/// What brings the rules in line with what is asked for.
#[derive(Clone, Copy, Debug, PartialEq, Eq, Structural)]
pub enum ReconcileAction {
    Apply,
    Disable,
    Nothing,
}

/// What brings the rules in line: they are applied anew whenever protection is asked
/// for, so that they follow the feed, and removed where it is not.
pub open spec fn reconciled(requested: bool, actual: bool) -> ReconcileAction {
    if requested {
        ReconcileAction::Apply
    } else if actual {
        ReconcileAction::Disable
    } else {
        ReconcileAction::Nothing
    }
}

/// What brings the rules in line with what is asked for.
pub fn reconcile_action(requested_enabled: bool, actual_enabled: bool) -> (result: ReconcileAction)
    ensures
        result == reconciled(requested_enabled, actual_enabled),
{
    match (requested_enabled, actual_enabled) {
        (true, _) => ReconcileAction::Apply,
        (false, true) => ReconcileAction::Disable,
        (false, false) => ReconcileAction::Nothing,
    }
}

/// What is asked for: what was stored, else what is in force.
pub open spec fn resolved(stored: Option<bool>, observed: bool) -> bool {
    match stored {
        Some(requested) => requested,
        None => observed,
    }
}

/// What is asked for: what was stored, else what is in force.
pub fn resolve_requested(stored: Option<bool>, observed_enabled: bool) -> (result: bool)
    ensures
        result == resolved(stored, observed_enabled),
{
    match stored {
        Some(requested) => requested,
        None => observed_enabled,
    }
}

/// A preference that was stored is never changed by what is in force.
pub proof fn stored_preferences_win(requested: bool, observed: bool)
    ensures
        resolved(Some(requested), observed) == requested,
        resolved(Some(resolved(None, requested)), observed) == requested,
{
}

/// The preference file.
#[derive(Clone, Copy, Debug, PartialEq, Eq, Structural)]
pub struct IntentFile {
    pub format_version: u32,
    pub requested_enabled: bool,
}

/// The JSON of the preference file.
pub open spec fn intent_json(requested: bool) -> Seq<char> {
    "{\"format_version\":"@ + decimal(INTENT_FORMAT_VERSION as nat) + ",\"requested_enabled\":"@
        + json_bool(requested) + "}"@
}

/// Why a preference could not be read or kept.
#[derive(Clone, Debug, PartialEq, Eq)]
#[allow(inconsistent_fields)]
pub enum IntentError {
    Io(String),
    Serialization(String),
    TooLarge { actual: u64, maximum: usize },
    Invalid(String),
    UnsupportedVersion { actual: u32, expected: u32 },
}

/// Why a preference could not be read or kept, as mathematical values.
#[allow(inconsistent_fields)]
pub ghost enum IntentFault {
    Io(Seq<char>),
    Serialization(Seq<char>),
    TooLarge { actual: u64, maximum: usize },
    Invalid(Seq<char>),
    UnsupportedVersion { actual: u32, expected: u32 },
}

impl IntentFault {
    /// The message for a reader.
    pub open spec fn message(self) -> Seq<char> {
        match self {
            IntentFault::Io(error) => "preference I/O failed: "@ + error,
            IntentFault::Serialization(error) => "preference serialization failed: "@ + error,
            IntentFault::TooLarge { actual, maximum } => "preference is "@ + decimal(actual as nat)
                + " bytes; maximum is "@ + decimal(maximum as nat),
            IntentFault::Invalid(error) => "preference is invalid: "@ + error,
            IntentFault::UnsupportedVersion { actual, expected } => "preference format version "@
                + decimal(actual as nat) + " is unsupported; expected "@ + decimal(
                expected as nat,
            ),
        }
    }
}

impl IntentError {
    pub open spec fn view(&self) -> IntentFault {
        match self {
            IntentError::Io(error) => IntentFault::Io(error@),
            IntentError::Serialization(error) => IntentFault::Serialization(error@),
            IntentError::TooLarge { actual, maximum } => IntentFault::TooLarge {
                actual: *actual,
                maximum: *maximum,
            },
            IntentError::Invalid(error) => IntentFault::Invalid(error@),
            IntentError::UnsupportedVersion { actual, expected } =>
            IntentFault::UnsupportedVersion { actual: *actual, expected: *expected },
        }
    }

    /// The message for a reader.
    pub fn message(&self) -> (result: String)
        ensures
            result@ == self@.message(),
    {
        match self {
            IntentError::Io(error) => join("preference I/O failed: ", error.as_str()),
            IntentError::Serialization(error) => join(
                "preference serialization failed: ",
                error.as_str(),
            ),
            IntentError::TooLarge { actual, maximum } => join4(
                "preference is ",
                decimal_text(*actual).as_str(),
                " bytes; maximum is ",
                decimal_text(*maximum as u64).as_str(),
            ),
            IntentError::Invalid(error) => join("preference is invalid: ", error.as_str()),
            IntentError::UnsupportedVersion { actual, expected } => join4(
                "preference format version ",
                decimal_text(*actual as u64).as_str(),
                " is unsupported; expected ",
                decimal_text(*expected as u64).as_str(),
            ),
        }
    }
}

/// What a decoded preference file is worth.
pub open spec fn intent_outcome(decoded: Result<IntentFile, String>) -> Result<bool, IntentFault> {
    match decoded {
        Err(message) => Err(IntentFault::Invalid(message@)),
        Ok(intent) => if intent.format_version != INTENT_FORMAT_VERSION {
            Err(
                IntentFault::UnsupportedVersion {
                    actual: intent.format_version,
                    expected: INTENT_FORMAT_VERSION,
                },
            )
        } else {
            Ok(intent.requested_enabled)
        },
    }
}

/// Takes a decoded preference file.
pub fn accept_intent(decoded: Result<IntentFile, String>) -> (result: Result<bool, IntentError>)
    ensures
        match intent_outcome(decoded) {
            Ok(requested) => result matches Ok(own) && own == requested,
            Err(fault) => result matches Err(error) && error@ == fault,
        },
{
    match decoded {
        Err(message) => Err(IntentError::Invalid(message)),
        Ok(intent) => if intent.format_version != INTENT_FORMAT_VERSION {
            Err(
                IntentError::UnsupportedVersion {
                    actual: intent.format_version,
                    expected: INTENT_FORMAT_VERSION,
                },
            )
        } else {
            Ok(intent.requested_enabled)
        },
    }
}

/// Whether `result` is what the preference file comes to with a decoder.
pub open spec fn loaded_intent<D: FnOnce(Vec<u8>) -> Result<IntentFile, String>>(
    file: FileRead,
    decode: D,
    result: Result<Option<bool>, IntentError>,
) -> bool {
    match bounded_contents(file, MAX_INTENT_FILE_BYTES as nat) {
        Ok(None) => result matches Ok(None),
        Err(ReadFaultView::Io(message)) => result matches Err(error) && error@ == IntentFault::Io(
            message,
        ),
        Err(ReadFaultView::TooLarge { actual }) => result matches Err(error) && error@ == (
        IntentFault::TooLarge { actual, maximum: MAX_INTENT_FILE_BYTES }),
        Ok(Some(contents)) => exists|bytes: Vec<u8>, decoded: Result<IntentFile, String>|
            {
                &&& bytes@ == contents
                &&& #[trigger] call_ensures(decode, (bytes,), decoded)
                &&& match intent_outcome(decoded) {
                    Ok(requested) => result matches Ok(Some(own)) && own == requested,
                    Err(fault) => result matches Err(error) && error@ == fault,
                }
            },
    }
}

/// Reads the preference; `None` where none was stored. The file is decoded only
/// where its size is in order.
pub fn load_intent<D: FnOnce(Vec<u8>) -> Result<IntentFile, String>>(file: FileRead, decode: D) -> (result:
    Result<Option<bool>, IntentError>)
    requires
        forall|bytes: Vec<u8>| call_requires(decode, (bytes,)),
    ensures
        loaded_intent(file, decode, result),
{
    let contents = match read_bounded_file(file, MAX_INTENT_FILE_BYTES) {
        Err(ReadFault::Io(message)) => {
            return Err(IntentError::Io(message));
        },
        Err(ReadFault::TooLarge { actual }) => {
            return Err(IntentError::TooLarge { actual, maximum: MAX_INTENT_FILE_BYTES });
        },
        Ok(None) => {
            return Ok(None);
        },
        Ok(Some(contents)) => contents,
    };
    let decoded = decode(contents);
    match accept_intent(decoded) {
        Ok(requested) => Ok(Some(requested)),
        Err(error) => Err(error),
    }
}

proof fn lemma_intent_fits(requested: bool)
    ensures
        byte_len(intent_json(requested)) <= MAX_INTENT_FILE_BYTES,
{
    reveal_strlit("{\"format_version\":");
    reveal_strlit(",\"requested_enabled\":");
    reveal_strlit("}");
    reveal_strlit("true");
    reveal_strlit("false");
    lemma_plain_bytes("{\"format_version\":"@);
    lemma_plain_bytes(",\"requested_enabled\":"@);
    lemma_plain_bytes("}"@);
    lemma_plain_bytes(json_bool(requested));
    lemma_decimal_bytes(INTENT_FORMAT_VERSION as nat);
    let t1 = "{\"format_version\":"@ + decimal(INTENT_FORMAT_VERSION as nat);
    let t2 = t1 + ",\"requested_enabled\":"@;
    let t3 = t2 + json_bool(requested);
    lemma_joined_bytes("{\"format_version\":"@, decimal(INTENT_FORMAT_VERSION as nat));
    lemma_joined_bytes(t1, ",\"requested_enabled\":"@);
    lemma_joined_bytes(t2, json_bool(requested));
    lemma_joined_bytes(t3, "}"@);
}

/// A preference is read again from a file that still holds what was kept, and wins over
/// whatever is in force. The file is decoded by the caller, to the record that was
/// encoded.
pub proof fn kept_preferences_are_loaded<D: FnOnce(Vec<u8>) -> Result<IntentFile, String>>(
    requested: bool,
    file: FileRead,
    decode: D,
    result: Result<Option<bool>, IntentError>,
    observed: bool,
)
    requires
        holds(file, vstd::utf8::encode_utf8(intent_json(requested))),
        forall|bytes: Vec<u8>, decoded: Result<IntentFile, String>|
            bytes@ == vstd::utf8::encode_utf8(intent_json(requested)) && #[trigger] call_ensures(
                decode,
                (bytes,),
                decoded,
            ) ==> decoded == Ok::<IntentFile, String>(
                IntentFile {
                    format_version: INTENT_FORMAT_VERSION,
                    requested_enabled: requested,
                },
            ),
        loaded_intent(file, decode, result),
    ensures
        result == Ok::<Option<bool>, IntentError>(Some(requested)),
        resolved(result->Ok_0, observed) == requested,
{
    lemma_intent_fits(requested);
}

/// The text of the preference file.
pub fn intent_text(requested_enabled: bool) -> (result: Result<String, IntentError>)
    ensures
        result matches Ok(text) && text@ == intent_json(requested_enabled) && byte_len(text@)
            <= MAX_INTENT_FILE_BYTES,
{
    let text = join5(
        "{\"format_version\":",
        decimal_text(INTENT_FORMAT_VERSION as u64).as_str(),
        ",\"requested_enabled\":",
        json_truth(requested_enabled),
        "}",
    );
    proof {
        lemma_intent_fits(requested_enabled);
    }
    let length: usize = text.as_str().as_bytes().len();
    if length > MAX_INTENT_FILE_BYTES {
        return Err(
            IntentError::TooLarge { actual: length as u64, maximum: MAX_INTENT_FILE_BYTES },
        );
    }
    Ok(text)
}

/// What is told of the rules.
#[derive(Clone, Copy, Debug, PartialEq, Eq, Structural)]
pub struct EnforcementStatus {
    pub enabled: bool,
}

/// What is told of the feed.
#[derive(Clone, Copy, Debug, PartialEq, Eq, Structural)]
pub struct UpdateStatus {
    pub refreshing: bool,
}

/// What is told of the protection.
#[derive(Debug, PartialEq, Eq)]
pub struct ProtectionStatus {
    pub requested_enabled: bool,
    pub rules: EnforcementStatus,
    pub feed: UpdateStatus,
    pub update_error: Option<String>,
}

/// What is told of the protection, as mathematical values.
pub ghost struct ProtectionView {
    pub requested_enabled: bool,
    pub rules: EnforcementStatus,
    pub feed: UpdateStatus,
    pub update_error: Option<Seq<char>>,
}

impl ProtectionStatus {
    pub open spec fn view(&self) -> ProtectionView {
        ProtectionView {
            requested_enabled: self.requested_enabled,
            rules: self.rules,
            feed: self.feed,
            update_error: text_option(self.update_error),
        }
    }
}

/// What is asked for, and what became of the last round.
#[derive(Debug, PartialEq, Eq)]
pub struct ProtectionController {
    requested_enabled: Option<bool>,
    stopped: bool,
    update_error: Option<String>,
}

/// The controller, as mathematical values.
pub ghost struct ControllerView {
    pub requested: Option<bool>,
    pub stopped: bool,
    pub update_error: Option<Seq<char>>,
}

/// How what is asked for is found out.
#[derive(Clone, Copy, Debug, PartialEq, Eq, Structural)]
pub enum Preference {
    /// It is known.
    Known(bool),
    /// It was taken from what is in force, and has to be kept.
    Migrated(bool),
}

/// What is told of a preference that could not be kept.
pub open spec fn persist_failure(fault: IntentFault) -> Seq<char> {
    "could not persist protection preference: "@ + fault.message()
}

impl ProtectionController {
    pub closed spec fn view(&self) -> ControllerView {
        ControllerView {
            requested: self.requested_enabled,
            stopped: self.stopped,
            update_error: text_option(self.update_error),
        }
    }

    /// A controller that has not looked for the preference yet.
    pub fn new() -> (result: Self)
        ensures
            result@ == (ControllerView { requested: None, stopped: false, update_error: None }),
    {
        ProtectionController { requested_enabled: None, stopped: false, update_error: None }
    }

    /// Ends the scheduler.
    pub fn stop(&mut self)
        ensures
            final(self)@ == (ControllerView { stopped: true, ..old(self)@ }),
    {
        self.stopped = true;
    }

    /// Whether the scheduler is to end.
    pub fn is_stopped(&self) -> (result: bool)
        ensures
            result == self@.stopped,
    {
        self.stopped
    }

    /// What is asked for, where it is known.
    pub fn requested(&self) -> (result: Option<bool>)
        ensures
            result == self@.requested,
    {
        self.requested_enabled
    }

    /// Finds out what is asked for: what is known, what was stored, or once what is in
    /// force. The preference is read only where it is not known.
    pub fn load_or_migrate_requested(
        &mut self,
        loaded: Result<Option<bool>, IntentError>,
        actual_enabled: bool,
    ) -> (result: Result<Preference, String>)
        ensures
            match old(self)@.requested {
                Some(requested) => final(self)@ == old(self)@ && (result matches Ok(found)
                    && found == Preference::Known(requested)),
                None => match loaded {
                    Err(error) => final(self)@ == old(self)@ && (result matches Err(message)
                        && message@ == error@.message()),
                    Ok(stored) => {
                        &&& final(self)@ == (ControllerView {
                            requested: Some(resolved(stored, actual_enabled)),
                            ..old(self)@
                        })
                        &&& result matches Ok(found) && found == match stored {
                            Some(requested) => Preference::Known(requested),
                            None => Preference::Migrated(actual_enabled),
                        }
                    },
                },
            },
    {
        if let Some(requested) = self.requested_enabled {
            return Ok(Preference::Known(requested));
        }
        match loaded {
            Err(error) => Err(error.message()),
            Ok(stored) => {
                let requested = resolve_requested(stored, actual_enabled);
                self.requested_enabled = Some(requested);
                match stored {
                    Some(requested) => Ok(Preference::Known(requested)),
                    None => Ok(Preference::Migrated(requested)),
                }
            },
        }
    }

    /// Takes whether a preference that was asked for could be kept; it counts only
    /// then.
    pub fn persist_requested(&mut self, requested: bool, kept: Result<(), IntentError>) -> (result:
        Result<(), String>)
        ensures
            kept is Ok ==> result is Ok && final(self)@ == (ControllerView {
                requested: Some(requested),
                ..old(self)@
            }),
            kept matches Err(error) ==> final(self)@ == old(self)@ && (result matches Err(message)
                && message@ == persist_failure(error@)),
    {
        match kept {
            Ok(()) => {
                self.requested_enabled = Some(requested);
                Ok(())
            },
            Err(error) => Err(
                join("could not persist protection preference: ", error.message().as_str()),
            ),
        }
    }

    /// What is told of the protection, given what is asked for.
    pub fn status(&self, requested: bool, rules: EnforcementStatus, feed: UpdateStatus) -> (result:
        ProtectionStatus)
        ensures
            result@ == (ProtectionView {
                requested_enabled: requested,
                rules,
                feed,
                update_error: self@.update_error,
            }),
    {
        ProtectionStatus {
            requested_enabled: requested,
            rules,
            feed,
            update_error: match &self.update_error {
                Some(message) => Some(message.clone()),
                None => None,
            },
        }
    }

    /// Takes what a round of the scheduler came to.
    pub fn scheduled(&mut self, result: Result<(), String>)
        ensures
            final(self)@ == (ControllerView {
                update_error: match result {
                    Ok(()) => None,
                    Err(message) => Some(message@),
                },
                ..old(self)@
            }),
    {
        self.update_error = match result {
            Ok(()) => None,
            Err(message) => Some(message),
        };
    }

    /// Whether an operation may begin: one at a time.
    pub fn begin(busy: bool) -> (result: Result<(), String>)
        ensures
            result is Err <==> busy,
            result matches Err(message) ==> message@ == "Protection change already in progress"@,
    {
        if busy {
            return Err("Protection change already in progress".to_owned());
        }
        Ok(())
    }

    /// Begins the change of the rules that a round of the scheduler, or a refresh, makes;
    /// none where they are as asked for.
    pub fn refresh(status: &ProtectionStatus) -> (result: Option<Change>)
        ensures
            match reconciled(status@.requested_enabled, status@.rules.enabled) {
                ReconcileAction::Apply => result matches Some(change) && change@
                    == ChangeView::begun(true),
                ReconcileAction::Disable => result matches Some(change) && change@
                    == ChangeView::begun(false),
                ReconcileAction::Nothing => result is None,
            },
    {
        match reconcile_action(status.requested_enabled, status.rules.enabled) {
            ReconcileAction::Apply => Some(Change::begin(true)),
            ReconcileAction::Disable => Some(Change::begin(false)),
            ReconcileAction::Nothing => None,
        }
    }

    /// Takes a wish of the user, if no operation is under way; the preference has to be
    /// kept next.
    pub fn set_enabled(enabled: bool, busy: bool) -> (result: Result<Wish, String>)
        ensures
            result is Err <==> busy,
            result matches Err(message) ==> message@ == "Protection change already in progress"@,
            result matches Ok(wish) ==> wish@ == enabled,
    {
        match ProtectionController::begin(busy) {
            Ok(()) => Ok(Wish { enabled }),
            Err(message) => Err(message),
        }
    }

    /// Takes whether the preference of a wish could be kept, and only then begins to
    /// change the rules; otherwise nothing changes.
    pub fn set_enabled_kept(&mut self, wish: Wish, kept: Result<(), IntentError>) -> (result:
        Result<Change, String>)
        ensures
            result is Ok <==> kept is Ok,
            result matches Ok(change) ==> {
                &&& change@ == ChangeView::begun(wish@)
                &&& final(self)@ == (ControllerView { requested: Some(wish@), ..old(self)@ })
            },
            kept matches Err(error) ==> final(self)@ == old(self)@ && (result matches Err(message)
                && message@ == persist_failure(error@)),
    {
        match self.persist_requested(wish.enabled, kept) {
            Ok(()) => Ok(Change::begin(wish.enabled)),
            Err(message) => Err(message),
        }
    }
}

/// A wish of the user whose preference was not kept yet.
#[derive(Debug, PartialEq, Eq)]
pub struct Wish {
    enabled: bool,
}

impl Wish {
    pub closed spec fn view(&self) -> bool {
        self.enabled
    }

    /// Whether the protection is to be enabled.
    pub fn enabled(&self) -> (result: bool)
        ensures
            result == self@,
    {
        self.enabled
    }
}

/// What a change of the rules waits for.
#[derive(Clone, Copy, Debug, PartialEq, Eq, Structural)]
pub enum ChangePhase {
    Elevation,
    Feed,
    Snapshot,
    Rules,
    Finished,
}

/// What happened while the rules are changed.
#[derive(Debug, PartialEq, Eq)]
pub enum ChangeEvent {
    /// Whether the process may change rules.
    Elevation(bool),
    /// Whether the feed is still being retrieved, and whether the wait is over.
    Feed { refreshing: bool, timed_out: bool },
    /// Whether there is a validated feed.
    Snapshot(bool),
    /// The rules were applied; whether old ones are left.
    Applied(Result<bool, String>),
    /// The rules were removed; how many are left.
    Disabled(Result<usize, String>),
}

/// What the caller does next to change the rules.
#[derive(Clone, Copy, Debug, PartialEq, Eq, Structural)]
pub enum ChangeAction {
    /// Asks for the feed, then says whether it is still being retrieved.
    RequestFeed,
    /// Waits a little and says again whether the feed is being retrieved.
    AwaitFeed,
    TakeFeed,
    ApplyRules,
    RemoveRules,
    /// Nothing; the outcome says whether the rules are as asked for.
    Finish,
}

/// A change of the rules.
#[derive(Debug, PartialEq, Eq)]
pub struct Change {
    enabled: bool,
    phase: ChangePhase,
    error: Option<String>,
}

/// A change of the rules, as mathematical values.
pub ghost struct ChangeView {
    pub enabled: bool,
    pub phase: ChangePhase,
    pub error: Option<Seq<char>>,
}

impl ChangeView {
    /// A change that waits to hear whether the process may make it.
    pub open spec fn begun(enabled: bool) -> ChangeView {
        ChangeView { enabled, phase: ChangePhase::Elevation, error: None }
    }

    pub open spec fn expects(self, event: ChangeEvent) -> bool {
        match event {
            ChangeEvent::Elevation(_) => self.phase == ChangePhase::Elevation,
            ChangeEvent::Feed { .. } => self.phase == ChangePhase::Feed,
            ChangeEvent::Snapshot(_) => self.phase == ChangePhase::Snapshot,
            ChangeEvent::Applied(_) => self.phase == ChangePhase::Rules && self.enabled,
            ChangeEvent::Disabled(_) => self.phase == ChangePhase::Rules && !self.enabled,
        }
    }

    pub open spec fn ended(self, error: Option<Seq<char>>) -> (ChangeView, ChangeAction) {
        (ChangeView { phase: ChangePhase::Finished, error, ..self }, ChangeAction::Finish)
    }

    /// What an event does, and what comes next.
    pub open spec fn step(self, event: ChangeEvent) -> (ChangeView, ChangeAction) {
        match event {
            ChangeEvent::Elevation(elevated) => if !elevated {
                self.ended(Some("Administrator access is required"@))
            } else if self.enabled {
                (ChangeView { phase: ChangePhase::Feed, ..self }, ChangeAction::RequestFeed)
            } else {
                (ChangeView { phase: ChangePhase::Rules, ..self }, ChangeAction::RemoveRules)
            },
            ChangeEvent::Feed { refreshing, timed_out } => if !refreshing {
                (ChangeView { phase: ChangePhase::Snapshot, ..self }, ChangeAction::TakeFeed)
            } else if timed_out {
                self.ended(Some("Threat feed refresh timed out"@))
            } else {
                (self, ChangeAction::AwaitFeed)
            },
            ChangeEvent::Snapshot(available) => if available {
                (ChangeView { phase: ChangePhase::Rules, ..self }, ChangeAction::ApplyRules)
            } else {
                self.ended(Some("No validated threat feed is available"@))
            },
            ChangeEvent::Applied(result) => match result {
                Err(message) => self.ended(Some(message@)),
                Ok(cleanup_pending) => if cleanup_pending {
                    self.ended(Some("Protection updated, but old rules still need cleanup"@))
                } else {
                    self.ended(None)
                },
            },
            ChangeEvent::Disabled(result) => match result {
                Err(message) => self.ended(Some(message@)),
                Ok(remaining) => if remaining > 0 {
                    self.ended(Some("Some protection rules could not be removed"@))
                } else {
                    self.ended(None)
                },
            },
        }
    }
}

/// Rules are applied only with a validated feed that is not being replaced, and
/// changed at all only by an elevated process.
pub proof fn rules_follow_a_validated_feed(state: ChangeView, event: ChangeEvent)
    requires
        state.expects(event),
    ensures
        state.step(event).1 == ChangeAction::ApplyRules ==> event matches ChangeEvent::Snapshot(
            true,
        ),
        state.step(event).1 == ChangeAction::TakeFeed ==> (event matches ChangeEvent::Feed {
            refreshing,
            ..
        } && !refreshing),
        state.step(event).1 == ChangeAction::RemoveRules ==> event
            matches ChangeEvent::Elevation(true),
        state.step(event).1 == ChangeAction::RequestFeed ==> event
            matches ChangeEvent::Elevation(true),
{
}

impl ChangeView {
    /// The change after events, one after the other.
    pub open spec fn run(self, events: Seq<ChangeEvent>) -> ChangeView
        decreases events.len(),
    {
        if events.len() == 0 {
            self
        } else {
            self.run(events.drop_last()).step(events.last()).0
        }
    }

    /// Whether each event was waited for.
    pub open spec fn expects_all(self, events: Seq<ChangeEvent>) -> bool
        decreases events.len(),
    {
        events.len() > 0 ==> self.expects_all(events.drop_last()) && self.run(
            events.drop_last(),
        ).expects(events.last())
    }
}

/// An event ends a change well exactly where it says that the rules were removed and none
/// is left, or that they were applied and no old ones are left. A process that may not
/// change rules, a feed that comes too late or not at all, a failure and anything left
/// over end it with an error; nothing else ends it.
pub proof fn changes_end_well_only_with_nothing_left(state: ChangeView, event: ChangeEvent)
    requires
        state.expects(event),
        state.error is None,
    ensures
        ({
            let (next, action) = state.step(event);
            let done = match event {
                ChangeEvent::Disabled(result) => result == Ok::<usize, String>(0),
                ChangeEvent::Applied(result) => result == Ok::<bool, String>(false),
                _ => false,
            };
            let failed = match event {
                ChangeEvent::Elevation(elevated) => !elevated,
                ChangeEvent::Feed { refreshing, timed_out } => refreshing && timed_out,
                ChangeEvent::Snapshot(available) => !available,
                ChangeEvent::Applied(_) => !done,
                ChangeEvent::Disabled(_) => !done,
            };
            &&& (action == ChangeAction::Finish && next.error is None) <==> done
            &&& (action == ChangeAction::Finish && next.error is Some) <==> failed
            &&& action == ChangeAction::Finish <==> next.phase == ChangePhase::Finished
            &&& next.enabled == state.enabled
            &&& event matches ChangeEvent::Disabled(Err(message)) ==> next.error == Some(message@)
            &&& event matches ChangeEvent::Applied(Err(message)) ==> next.error == Some(message@)
        }),
{
}

/// A change takes these steps and no others: to enable, the feed is asked for, waited for
/// while it is being retrieved, taken and applied; to disable, the rules are removed. What
/// is told of a failure says at which of them it failed.
pub proof fn changes_go_through_their_steps(enabled: bool, events: Seq<ChangeEvent>)
    requires
        events.len() > 0,
        ChangeView::begun(enabled).expects_all(events),
    ensures
        ({
            let last = events.last();
            let before = ChangeView::begun(enabled).run(events.drop_last());
            let (after, action) = before.step(last);
            &&& events[0] is Elevation
            &&& after == ChangeView::begun(enabled).run(events)
            &&& last is Elevation <==> events.len() == 1
            &&& last == ChangeEvent::Elevation(true) ==> action == (if enabled {
                ChangeAction::RequestFeed
            } else {
                ChangeAction::RemoveRules
            })
            &&& last == ChangeEvent::Elevation(false) ==> after.error == Some(
                "Administrator access is required"@,
            )
            &&& last matches ChangeEvent::Feed { refreshing, timed_out } ==> {
                &&& enabled
                &&& !refreshing ==> action == ChangeAction::TakeFeed
                &&& refreshing && !timed_out ==> action == ChangeAction::AwaitFeed
                &&& refreshing && timed_out ==> after.error == Some(
                    "Threat feed refresh timed out"@,
                )
            }
            &&& last matches ChangeEvent::Snapshot(available) ==> {
                &&& enabled
                &&& available ==> action == ChangeAction::ApplyRules
                &&& !available ==> after.error == Some("No validated threat feed is available"@)
            }
            &&& last matches ChangeEvent::Applied(result) ==> enabled && (result == Ok::<
                bool,
                String,
            >(true) ==> after.error == Some(
                "Protection updated, but old rules still need cleanup"@,
            ))
            &&& last matches ChangeEvent::Disabled(result) ==> !enabled && (result
                matches Ok(left) && left > 0 ==> after.error == Some(
                "Some protection rules could not be removed"@,
            ))
            &&& after.enabled == enabled
            &&& after.phase == ChangePhase::Elevation ==> events.len() == 0
            &&& after.phase != ChangePhase::Finished ==> after.error is None
            &&& (after.phase == ChangePhase::Feed || after.phase == ChangePhase::Snapshot)
                ==> enabled
        }),
    decreases events.len(),
{
    reveal_with_fuel(ChangeView::run, 2);
    reveal_with_fuel(ChangeView::expects_all, 2);
    if events.len() > 1 {
        changes_go_through_their_steps(enabled, events.drop_last());
        assert(events.drop_last()[0] == events[0]);
    } else {
        assert(events.drop_last().len() == 0);
    }
}

/// A round changes the rules exactly where protection is asked for, or rules are in force
/// without it; what it brings about is what is asked for. What is asked for is what was
/// stored, and only without that what is in force.
pub proof fn rounds_bring_about_what_is_asked_for(
    stored: Option<bool>,
    in_force: bool,
    observed: bool,
)
    ensures
        ({
            let requested = resolved(stored, in_force);
            let action = reconciled(requested, observed);
            &&& stored is Some ==> requested == stored->0
            &&& stored is None ==> requested == in_force
            &&& action == ReconcileAction::Apply <==> requested
            &&& action == ReconcileAction::Disable <==> !requested && observed
            &&& action == ReconcileAction::Nothing <==> !requested && !observed
        }),
{
}

/// The preference file is one JSON object of the first format.
pub proof fn preference_files_are_json_objects(requested: bool)
    ensures
        intent_json(requested) == if requested {
            "{\"format_version\":1,\"requested_enabled\":true}"@
        } else {
            "{\"format_version\":1,\"requested_enabled\":false}"@
        },
{
    reveal(decimal);
    reveal_with_fuel(crate::text::numeral, 2);
    reveal_strlit("{\"format_version\":");
    reveal_strlit(",\"requested_enabled\":");
    reveal_strlit("}");
    reveal_strlit("true");
    reveal_strlit("false");
    reveal_strlit("{\"format_version\":1,\"requested_enabled\":true}");
    reveal_strlit("{\"format_version\":1,\"requested_enabled\":false}");
    assert(decimal(1) =~= seq!['1']);
    if requested {
        assert(intent_json(requested) =~= "{\"format_version\":1,\"requested_enabled\":true}"@);
    } else {
        assert(intent_json(requested) =~= "{\"format_version\":1,\"requested_enabled\":false}"@);
    }
}

/// A preference file is taken where it is of the first format and its object can be
/// decoded; one of another format is refused with both numbers, and one of more than 1024
/// bytes is not decoded at all.
pub proof fn other_preference_formats_are_refused(decoded: Result<IntentFile, String>)
    ensures
        ({
            let outcome = intent_outcome(decoded);
            &&& decoded matches Ok(file) ==> {
                &&& file.format_version == 1 ==> outcome == Ok::<bool, IntentFault>(
                    file.requested_enabled,
                )
                &&& file.format_version != 1 ==> outcome == Err::<bool, IntentFault>(
                    IntentFault::UnsupportedVersion { actual: file.format_version, expected: 1 },
                )
            }
            &&& decoded matches Err(message) ==> outcome == Err::<bool, IntentFault>(
                IntentFault::Invalid(message@),
            )
            &&& MAX_INTENT_FILE_BYTES == 1024
        }),
{
}

impl Change {
    pub closed spec fn view(&self) -> ChangeView {
        ChangeView { enabled: self.enabled, phase: self.phase, error: text_option(self.error) }
    }

    fn begin(enabled: bool) -> (result: Self)
        ensures
            result@ == ChangeView::begun(enabled),
    {
        Change { enabled, phase: ChangePhase::Elevation, error: None }
    }

    /// What the change waits for.
    pub fn phase(&self) -> (result: ChangePhase)
        ensures
            result == self@.phase,
    {
        self.phase
    }

    fn end(&mut self, error: Option<String>) -> (result: ChangeAction)
        ensures
            (final(self)@, result) == old(self)@.ended(text_option(error)),
    {
        self.phase = ChangePhase::Finished;
        self.error = error;
        ChangeAction::Finish
    }

    /// Takes an event that is waited for.
    pub fn step(&mut self, event: ChangeEvent) -> (result: ChangeAction)
        requires
            old(self)@.expects(event),
        ensures
            (final(self)@, result) == old(self)@.step(event),
    {
        match event {
            ChangeEvent::Elevation(elevated) => {
                if !elevated {
                    return self.end(Some("Administrator access is required".to_owned()));
                }
                if self.enabled {
                    self.phase = ChangePhase::Feed;
                    ChangeAction::RequestFeed
                } else {
                    self.phase = ChangePhase::Rules;
                    ChangeAction::RemoveRules
                }
            },
            ChangeEvent::Feed { refreshing, timed_out } => {
                if !refreshing {
                    self.phase = ChangePhase::Snapshot;
                    return ChangeAction::TakeFeed;
                }
                if timed_out {
                    return self.end(Some("Threat feed refresh timed out".to_owned()));
                }
                ChangeAction::AwaitFeed
            },
            ChangeEvent::Snapshot(available) => {
                if available {
                    self.phase = ChangePhase::Rules;
                    ChangeAction::ApplyRules
                } else {
                    self.end(Some("No validated threat feed is available".to_owned()))
                }
            },
            ChangeEvent::Applied(result) => match result {
                Err(message) => self.end(Some(message)),
                Ok(cleanup_pending) => if cleanup_pending {
                    self.end(
                        Some("Protection updated, but old rules still need cleanup".to_owned()),
                    )
                } else {
                    self.end(None)
                },
            },
            ChangeEvent::Disabled(result) => match result {
                Err(message) => self.end(Some(message)),
                Ok(remaining) => if remaining > 0 {
                    self.end(Some("Some protection rules could not be removed".to_owned()))
                } else {
                    self.end(None)
                },
            },
        }
    }

    /// What the change came to.
    pub fn outcome(self) -> (result: Result<(), String>)
        ensures
            result_view(result) == (match self@.error {
                None => Ok::<(), Seq<char>>(()),
                Some(message) => Err::<(), Seq<char>>(message),
            }),
    {
        match self.error {
            None => Ok(()),
            Some(message) => Err(message),
        }
    }
}

} // verus!
