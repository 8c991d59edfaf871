//! One transparent DNS interception generation.
//!
//! A supervisor owns the companion, the interception handles and the receive
//! workers. The caller performs what this module decides, and reports what came
//! of it. The companion is never stopped while a handle or a worker may still be
//! in use.

use crate::dns_flow::{FlowError, Interface};
use crate::dns_router::{RouteError, RoutedPacket};
use crate::text::{decimal, decimal_text, join3, join4, quoted, quoted_text};
use vstd::prelude::*;
use vstd::string::*;

verus! {

/// The largest packet that is received.
pub const MAX_PACKET_BYTES: usize = 65_575;

/// How long a stop may take before it is reported as pending.
pub const INTERNAL_STOP_TIMEOUT_MS: u64 = 15_000;

/// Whether a generation is owned in this process.
#[derive(Debug, PartialEq, Eq)]
pub struct GenerationGate {
    owned: bool,
}

/// The exclusive right to run a generation, held by everyone who still uses its
/// resources.
#[derive(Debug, PartialEq, Eq)]
pub struct GenerationLease {
    owners: usize,
    cleanup_confirmed: bool,
}

impl GenerationGate {
    pub closed spec fn view(&self) -> bool {
        self.owned
    }

    /// A gate that nobody holds.
    pub fn new() -> (result: Self)
        ensures
            !result@,
    {
        GenerationGate { owned: false }
    }

    /// Whether a generation is owned.
    pub fn generation_owned(&self) -> (result: bool)
        ensures
            result == self@,
    {
        self.owned
    }
}

/// A lease as mathematical values.
pub ghost struct LeaseView {
    pub owners: nat,
    pub cleanup_confirmed: bool,
}

/// What happens to a lease.
pub ghost enum LeaseOperation {
    /// An owner is added.
    Retain,
    /// The cleanup is confirmed.
    ConfirmCleanup,
    /// An owner is removed.
    Release,
}

impl LeaseView {
    /// A lease that was just acquired.
    pub open spec fn acquired() -> LeaseView {
        LeaseView { owners: 1, cleanup_confirmed: false }
    }

    /// The lease after an operation.
    pub open spec fn after(self, operation: LeaseOperation) -> LeaseView {
        match operation {
            LeaseOperation::Retain => LeaseView { owners: self.owners + 1, ..self },
            LeaseOperation::ConfirmCleanup => LeaseView { cleanup_confirmed: true, ..self },
            LeaseOperation::Release => LeaseView { owners: (self.owners - 1) as nat, ..self },
        }
    }

    /// Whether removing an owner ends the generation.
    pub open spec fn ends(self) -> bool {
        self.owners == 1 && self.cleanup_confirmed
    }

    /// The lease after operations.
    pub open spec fn run(self, operations: Seq<LeaseOperation>) -> LeaseView
        decreases operations.len(),
    {
        if operations.len() == 0 {
            self
        } else {
            self.run(operations.drop_last()).after(operations.last())
        }
    }

    /// Whether nothing happens to the lease once it has no owner.
    pub open spec fn held_through(self, operations: Seq<LeaseOperation>) -> bool {
        forall|i: int| 0 <= i < operations.len() ==> #[trigger] self.run(operations.take(i)).owners > 0
    }
}

/// Whether a generation is still owned after operations on its lease.
pub open spec fn owned_after(operations: Seq<LeaseOperation>) -> bool
    decreases operations.len(),
{
    operations.len() == 0 || (owned_after(operations.drop_last()) && !(operations.last()
        == LeaseOperation::Release && LeaseView::acquired().run(operations.drop_last()).ends()))
}

/// A generation ends exactly when its last owner is gone and its cleanup was confirmed:
/// until then no other one can begin, whatever became of its start.
pub proof fn generations_do_not_overlap(operations: Seq<LeaseOperation>)
    requires
        LeaseView::acquired().held_through(operations),
    ensures
        owned_after(operations) <==> !(LeaseView::acquired().run(operations).owners == 0
            && LeaseView::acquired().run(operations).cleanup_confirmed),
        LeaseView::acquired().run(operations).cleanup_confirmed <==> operations.contains(
            LeaseOperation::ConfirmCleanup,
        ),
    decreases operations.len(),
{
    if operations.len() > 0 {
        let front = operations.drop_last();
        let lease = LeaseView::acquired();
        assert(operations.take(operations.len() - 1) =~= front);
        assert(lease.run(front).owners > 0);
        assert forall|i: int| 0 <= i < front.len() implies #[trigger] lease.run(
            front.take(i),
        ).owners > 0 by {
            assert(front.take(i) =~= operations.take(i));
        }
        generations_do_not_overlap(front);
        assert(operations =~= front.push(operations.last()));
        if front.contains(LeaseOperation::ConfirmCleanup) {
            let i = front.index_of(LeaseOperation::ConfirmCleanup);
            assert(operations[i] == LeaseOperation::ConfirmCleanup);
        }
        if operations.last() == LeaseOperation::ConfirmCleanup {
            assert(operations[operations.len() - 1] == LeaseOperation::ConfirmCleanup);
        }
        if operations.contains(LeaseOperation::ConfirmCleanup) && operations.last()
            != LeaseOperation::ConfirmCleanup {
            let i = operations.index_of(LeaseOperation::ConfirmCleanup);
            assert(front[i] == LeaseOperation::ConfirmCleanup);
        }
    }
}

impl GenerationLease {
    pub closed spec fn view(&self) -> LeaseView {
        LeaseView { owners: self.owners as nat, cleanup_confirmed: self.cleanup_confirmed }
    }

    /// Begins a generation, where nobody holds one.
    pub fn acquire_from(gate: &mut GenerationGate) -> (result: Result<Self, String>)
        ensures
            final(gate)@,
            result is Ok <==> !old(gate)@,
            result matches Ok(lease) ==> lease@ == LeaseView::acquired(),
            result matches Err(message) ==> message@
                == "A DNS interception generation is active or still cleaning up"@,
    {
        if gate.owned {
            return Err(
                "A DNS interception generation is active or still cleaning up".to_owned(),
            );
        }
        gate.owned = true;
        Ok(GenerationLease { owners: 1, cleanup_confirmed: false })
    }

    /// Adds an owner.
    pub fn retain(&mut self)
        requires
            old(self)@.owners < usize::MAX,
        ensures
            final(self)@ == old(self)@.after(LeaseOperation::Retain),
    {
        self.owners = self.owners + 1;
    }

    /// Notes that every resource of the generation has been released.
    pub fn confirm_cleanup(&mut self)
        ensures
            final(self)@ == old(self)@.after(LeaseOperation::ConfirmCleanup),
    {
        self.cleanup_confirmed = true;
    }

    /// Removes an owner. With the last one the generation ends, but only where the cleanup
    /// was confirmed.
    pub fn release(&mut self, gate: &mut GenerationGate)
        requires
            old(self)@.owners > 0,
        ensures
            final(self)@ == old(self)@.after(LeaseOperation::Release),
            final(gate)@ == (old(gate)@ && !old(self)@.ends()),
    {
        self.owners = self.owners - 1;
        if self.owners == 0 && self.cleanup_confirmed {
            gate.owned = false;
        }
    }
}

/// The state of a session.
#[derive(Clone, Copy, Debug, PartialEq, Eq, Structural)]
pub enum DnsSessionState {
    Starting,
    Running,
    Failed,
    Stopping,
    StopPending,
    Stopped,
}

impl DnsSessionState {
    /// The number that stands for the state.
    pub open spec fn spec_raw(self) -> u8 {
        match self {
            DnsSessionState::Starting => 0,
            DnsSessionState::Running => 1,
            DnsSessionState::Failed => 2,
            DnsSessionState::Stopping => 3,
            DnsSessionState::StopPending => 4,
            DnsSessionState::Stopped => 5,
        }
    }

    pub fn raw(self) -> (result: u8)
        ensures
            result == self.spec_raw(),
    {
        match self {
            DnsSessionState::Starting => 0,
            DnsSessionState::Running => 1,
            DnsSessionState::Failed => 2,
            DnsSessionState::Stopping => 3,
            DnsSessionState::StopPending => 4,
            DnsSessionState::Stopped => 5,
        }
    }

    /// The state that a number stands for; any other number is a failure.
    pub fn from_raw(raw: u8) -> (result: Self)
        ensures
            raw <= 5 ==> result.spec_raw() == raw,
            raw > 5 ==> result == DnsSessionState::Failed,
    {
        match raw {
            0 => DnsSessionState::Starting,
            1 => DnsSessionState::Running,
            2 => DnsSessionState::Failed,
            3 => DnsSessionState::Stopping,
            4 => DnsSessionState::StopPending,
            5 => DnsSessionState::Stopped,
            _ => DnsSessionState::Failed,
        }
    }

    /// Whether packets are no longer admitted.
    pub open spec fn draining(self) -> bool {
        !(self is Starting) && !(self is Running)
    }

    pub fn is_draining(self) -> (result: bool)
        ensures
            result == self.draining(),
    {
        match self {
            DnsSessionState::Starting => false,
            DnsSessionState::Running => false,
            _ => true,
        }
    }

    /// The name of the state in messages.
    pub open spec fn spec_name(self) -> Seq<char> {
        match self {
            DnsSessionState::Starting => "Starting"@,
            DnsSessionState::Running => "Running"@,
            DnsSessionState::Failed => "Failed"@,
            DnsSessionState::Stopping => "Stopping"@,
            DnsSessionState::StopPending => "StopPending"@,
            DnsSessionState::Stopped => "Stopped"@,
        }
    }

    pub fn name(self) -> (result: &'static str)
        ensures
            result@ == self.spec_name(),
    {
        match self {
            DnsSessionState::Starting => "Starting",
            DnsSessionState::Running => "Running",
            DnsSessionState::Failed => "Failed",
            DnsSessionState::Stopping => "Stopping",
            DnsSessionState::StopPending => "StopPending",
            DnsSessionState::Stopped => "Stopped",
        }
    }
}

/// The view of a text that may be missing.
pub open spec fn text_option(text: Option<String>) -> Option<Seq<char>> {
    match text {
        Some(value) => Some(value@),
        None => None,
    }
}

/// The first of two texts that is there.
pub open spec fn first_of(present: Option<Seq<char>>, next: Seq<char>) -> Option<Seq<char>> {
    if present is Some {
        present
    } else {
        Some(next)
    }
}

/// Keeps the first error.
pub fn remember_error(target: &mut Option<String>, error: String)
    ensures
        text_option(*final(target)) == first_of(text_option(*old(target)), error@),
{
    if target.is_none() {
        *target = Some(error);
    }
}

/// Two errors in one message.
pub open spec fn joined_errors(primary: Seq<char>, secondary: Option<Seq<char>>) -> Seq<char> {
    match secondary {
        Some(more) => primary + "; "@ + more,
        None => primary,
    }
}

/// Joins an error with another that may have followed it.
pub fn join_errors(primary: String, secondary: Option<String>) -> (result: String)
    ensures
        result@ == joined_errors(primary@, text_option(secondary)),
{
    match secondary {
        Some(more) => join3(primary.as_str(), "; ", more.as_str()),
        None => primary,
    }
}

/// What is published about a session.
#[derive(Debug, PartialEq, Eq)]
pub struct SessionState {
    state: DnsSessionState,
    first_error: Option<String>,
    cleanup_complete: bool,
    rollover_requested: bool,
}

/// What is published about a session, as mathematical values.
pub ghost struct SessionView {
    pub state: DnsSessionState,
    pub first_error: Option<Seq<char>>,
    pub cleanup_complete: bool,
    pub rollover_requested: bool,
}

impl SessionView {
    /// A failure: the first error is kept, and a session that has not stopped has
    /// failed.
    pub open spec fn failed(self, error: Seq<char>) -> SessionView {
        SessionView {
            first_error: first_of(self.first_error, error),
            state: if self.state == DnsSessionState::Stopped {
                self.state
            } else {
                DnsSessionState::Failed
            },
            ..self
        }
    }
}

impl SessionState {
    pub closed spec fn view(&self) -> SessionView {
        SessionView {
            state: self.state,
            first_error: text_option(self.first_error),
            cleanup_complete: self.cleanup_complete,
            rollover_requested: self.rollover_requested,
        }
    }

    pub fn new() -> (result: Self)
        ensures
            result@ == (SessionView {
                state: DnsSessionState::Starting,
                first_error: None,
                cleanup_complete: false,
                rollover_requested: false,
            }),
    {
        SessionState {
            state: DnsSessionState::Starting,
            first_error: None,
            cleanup_complete: false,
            rollover_requested: false,
        }
    }

    pub fn load(&self) -> (result: DnsSessionState)
        ensures
            result == self@.state,
    {
        self.state
    }

    pub fn store(&mut self, state: DnsSessionState)
        ensures
            final(self)@ == (SessionView { state, ..old(self)@ }),
    {
        self.state = state;
    }

    /// Notes a failure.
    pub fn fail(&mut self, error: String)
        ensures
            final(self)@ == old(self)@.failed(error@),
    {
        remember_error(&mut self.first_error, error);
        if self.state != DnsSessionState::Stopped {
            self.state = DnsSessionState::Failed;
        }
    }

    /// The first error.
    pub fn error(&self) -> (result: Option<String>)
        ensures
            text_option(result) == self@.first_error,
    {
        match &self.first_error {
            Some(error) => Some(error.clone()),
            None => None,
        }
    }

    /// Whether the handles and the companion have all been released. A failure
    /// alone does not allow a replacement: cleanup may still be under way.
    pub fn cleanup_complete(&self) -> (result: bool)
        ensures
            result == self@.cleanup_complete,
    {
        self.cleanup_complete
    }

    pub fn confirm_cleanup(&mut self)
        ensures
            final(self)@ == (SessionView { cleanup_complete: true, ..old(self)@ }),
    {
        self.cleanup_complete = true;
    }

    /// Whether the session asked for a fresh generation.
    pub fn rollover_requested(&self) -> (result: bool)
        ensures
            result == self@.rollover_requested,
    {
        self.rollover_requested
    }

    pub fn request_rollover(&mut self)
        ensures
            final(self)@ == (SessionView { rollover_requested: true, ..old(self)@ }),
    {
        self.rollover_requested = true;
    }
}

/// What is done with captured packets.
#[derive(Clone, Copy, Debug, PartialEq, Eq, Structural)]
pub enum RouteMode {
    /// They are dropped: the session is half started, or admission is frozen and
    /// not every handle has stopped receiving.
    Discard,
    /// They are drained.
    Drain,
    /// They are routed.
    Route,
}

/// What is done with captured packets in a state of the session: they are routed only
/// while it is published as running, and drained only behind the drain barrier.
pub fn route_mode(state: DnsSessionState, drain_enabled: bool) -> (result: RouteMode)
    ensures
        result == (if state == DnsSessionState::Starting || (state.draining() && !drain_enabled) {
            RouteMode::Discard
        } else if state.draining() {
            RouteMode::Drain
        } else {
            RouteMode::Route
        }),
        result == RouteMode::Route <==> state == DnsSessionState::Running,
        result == RouteMode::Drain ==> state.draining() && drain_enabled,
{
    if state == DnsSessionState::Starting {
        RouteMode::Discard
    } else if state.is_draining() && !drain_enabled {
        RouteMode::Discard
    } else if state.is_draining() {
        RouteMode::Drain
    } else {
        RouteMode::Route
    }
}

/// What a worker does when its handle receives nothing more.
#[derive(Debug, PartialEq, Eq)]
pub enum EndStep {
    /// It waits for the drain barrier.
    Wait,
    Finished,
    Failed(String),
}

/// Decides what a worker does when its handle receives nothing more.
pub fn receive_ended(state: DnsSessionState, drain_enabled: bool, finish_without_drain: bool) -> (result:
    EndStep)
    ensures
        state.draining() && (drain_enabled || finish_without_drain) <==> result is Finished,
        state.draining() && !drain_enabled && !finish_without_drain <==> result is Wait,
        result matches EndStep::Failed(message) ==> message@
            == "DNS interception receive ended before shutdown"@,
{
    if state.is_draining() {
        if drain_enabled || finish_without_drain {
            EndStep::Finished
        } else {
            EndStep::Wait
        }
    } else {
        EndStep::Failed("DNS interception receive ended before shutdown".to_owned())
    }
}

/// What a worker does with a packet that was routed.
#[derive(Debug, PartialEq, Eq)]
pub enum WorkerAction {
    /// It sends the packet on as it is.
    Reinject,
    Discard,
    /// It injects another packet inbound on an interface.
    Inject { packet: Vec<u8>, interface: Interface },
    /// It ends. With `rollover` the session needs a fresh generation.
    Fail { message: String, rollover: bool },
}

/// What a worker does with a packet, as mathematical values.
pub ghost enum WorkerView {
    Reinject,
    Discard,
    Inject { packet: Seq<u8>, interface: Interface },
    Fail { message: Seq<char>, rollover: bool },
}

impl WorkerAction {
    pub open spec fn view(&self) -> WorkerView {
        match self {
            WorkerAction::Reinject => WorkerView::Reinject,
            WorkerAction::Discard => WorkerView::Discard,
            WorkerAction::Inject { packet, interface } => WorkerView::Inject {
                packet: packet@,
                interface: *interface,
            },
            WorkerAction::Fail { message, rollover } => WorkerView::Fail {
                message: message@,
                rollover: *rollover,
            },
        }
    }
}

/// The name of a reflection error in messages.
pub open spec fn flow_error_name(error: FlowError) -> Seq<char> {
    match error {
        FlowError::Packet(_) => "Packet"@,
        FlowError::InvalidClientPort => "InvalidClientPort"@,
        FlowError::InvalidResolverPort => "InvalidResolverPort"@,
        FlowError::InvalidProxyPort => "InvalidProxyPort"@,
        FlowError::ProxyPortMismatch => "ProxyPortMismatch"@,
        FlowError::ReflectedCollision => "ReflectedCollision"@,
        FlowError::KeyQuarantined => "KeyQuarantined"@,
        FlowError::AtCapacity => "AtCapacity"@,
        FlowError::UnknownFlow => "UnknownFlow"@,
        FlowError::NotTcp => "NotTcp"@,
    }
}

fn flow_error_text(error: FlowError) -> (result: &'static str)
    ensures
        result@ == flow_error_name(error),
{
    match error {
        FlowError::Packet(_) => "Packet",
        FlowError::InvalidClientPort => "InvalidClientPort",
        FlowError::InvalidResolverPort => "InvalidResolverPort",
        FlowError::InvalidProxyPort => "InvalidProxyPort",
        FlowError::ProxyPortMismatch => "ProxyPortMismatch",
        FlowError::ReflectedCollision => "ReflectedCollision",
        FlowError::KeyQuarantined => "KeyQuarantined",
        FlowError::AtCapacity => "AtCapacity",
        FlowError::UnknownFlow => "UnknownFlow",
        FlowError::NotTcp => "NotTcp",
    }
}

/// What a worker does with the outcome of routing a packet. A packet that cannot
/// be read is dropped; a frozen session sends requests on as they are.
pub open spec fn worker_view(outcome: Result<RoutedPacket, RouteError>) -> WorkerView {
    match outcome {
        Ok(RoutedPacket::Unchanged) => WorkerView::Reinject,
        Ok(RoutedPacket::Discard) => WorkerView::Discard,
        Ok(RoutedPacket::Inbound { packet, interface }) => WorkerView::Inject {
            packet: packet@,
            interface,
        },
        Err(RouteError::Stopped) => WorkerView::Reinject,
        Err(RouteError::InvalidPacket) => WorkerView::Discard,
        Err(RouteError::Reflection(FlowError::Packet(_))) => WorkerView::Discard,
        Err(RouteError::RolloverRequired) => WorkerView::Fail {
            message: "DNS session requires a fresh connection generation"@,
            rollover: true,
        },
        Err(RouteError::Reflection(error)) => WorkerView::Fail {
            message: "DNS packet routing failed: Reflection("@ + flow_error_name(error) + ")"@,
            rollover: false,
        },
        Err(RouteError::Companion(message)) => WorkerView::Fail {
            message: "DNS packet routing failed: Companion("@ + quoted(message@) + ")"@,
            rollover: false,
        },
        Err(RouteError::InvalidInterface) => WorkerView::Fail {
            message: "DNS packet routing failed: InvalidInterface"@,
            rollover: false,
        },
        Err(RouteError::ClockReversed) => WorkerView::Fail {
            message: "DNS packet routing failed: ClockReversed"@,
            rollover: false,
        },
    }
}

/// Decides what a worker does with the outcome of routing a packet.
pub fn worker_action(outcome: Result<RoutedPacket, RouteError>) -> (result: WorkerAction)
    ensures
        result@ == worker_view(outcome),
{
    match outcome {
        Ok(RoutedPacket::Unchanged) => WorkerAction::Reinject,
        Ok(RoutedPacket::Discard) => WorkerAction::Discard,
        Ok(RoutedPacket::Inbound { packet, interface }) => WorkerAction::Inject {
            packet,
            interface,
        },
        Err(RouteError::Stopped) => WorkerAction::Reinject,
        Err(RouteError::InvalidPacket) => WorkerAction::Discard,
        Err(RouteError::Reflection(FlowError::Packet(_))) => WorkerAction::Discard,
        Err(RouteError::RolloverRequired) => WorkerAction::Fail {
            message: "DNS session requires a fresh connection generation".to_owned(),
            rollover: true,
        },
        Err(RouteError::Reflection(error)) => WorkerAction::Fail {
            message: join3(
                "DNS packet routing failed: Reflection(",
                flow_error_text(error),
                ")",
            ),
            rollover: false,
        },
        Err(RouteError::Companion(message)) => WorkerAction::Fail {
            message: join3(
                "DNS packet routing failed: Companion(",
                quoted_text(message.as_str()).as_str(),
                ")",
            ),
            rollover: false,
        },
        Err(RouteError::InvalidInterface) => WorkerAction::Fail {
            message: "DNS packet routing failed: InvalidInterface".to_owned(),
            rollover: false,
        },
        Err(RouteError::ClockReversed) => WorkerAction::Fail {
            message: "DNS packet routing failed: ClockReversed".to_owned(),
            rollover: false,
        },
    }
}

/// The messages of the handles among the first `n` that did not shut down.
pub open spec fn handle_errors(results: Seq<Option<Result<(), String>>>, n: int) -> Seq<char>
    decreases n,
{
    if n <= 0 {
        Seq::empty()
    } else {
        let front = handle_errors(results, n - 1);
        match results[n - 1] {
            Some(Err(message)) => {
                let own = "handle "@ + decimal((n - 1) as nat) + ": "@ + message@;
                if front.len() == 0 {
                    own
                } else {
                    front + "; "@ + own
                }
            },
            _ => front,
        }
    }
}

/// Which handles have stopped receiving, after another attempt on those that had
/// not.
pub open spec fn shutdown_after(
    complete: Seq<bool>,
    results: Seq<Option<Result<(), String>>>,
) -> Seq<bool> {
    Seq::new(complete.len(), |i: int| complete[i] || (results[i] matches Some(Ok(_))))
}

proof fn lemma_handle_errors(results: Seq<Option<Result<(), String>>>, n: int)
    requires
        0 <= n <= results.len(),
    ensures
        handle_errors(results, n).len() == 0 <==> forall|i: int|
            0 <= i < n ==> !((#[trigger] results[i]) matches Some(Err(_))),
    decreases n,
{
    if n > 0 {
        lemma_handle_errors(results, n - 1);
        reveal_strlit("handle ");
        if let Some(Err(message)) = results[n - 1] {
            assert(!(forall|i: int| 0 <= i < n ==> !((#[trigger] results[i]) matches Some(Err(_)))));
        }
    }
}

/// Takes the outcome of shutting down the handles that had not stopped receiving
/// (`results` has an entry for each handle, `None` for those that had). It
/// succeeds once every handle has stopped.
pub fn shutdown_handles(complete: &mut Vec<bool>, results: &Vec<Option<Result<(), String>>>) -> (result:
    Result<(), String>)
    requires
        results@.len() == old(complete)@.len() ==> forall|i: int|
            0 <= i < results@.len() ==> ((#[trigger] results@[i]) is None <==> old(complete)@[i]),
    ensures
        results@.len() != old(complete)@.len() ==> final(complete)@ == old(complete)@ && (
        result matches Err(message) && message@
            == "DNS interception handle ownership changed during shutdown"@),
        results@.len() == old(complete)@.len() ==> {
            &&& final(complete)@ == shutdown_after(old(complete)@, results@)
            &&& result is Ok <==> forall|i: int|
                0 <= i < final(complete)@.len() ==> final(complete)@[i]
            &&& result matches Err(message) ==> message@ == handle_errors(
                results@,
                results@.len() as int,
            )
        },
{
    if complete.len() != results.len() {
        return Err("DNS interception handle ownership changed during shutdown".to_owned());
    }
    settle_shutdown(complete, results)
}

fn settle_shutdown(complete: &mut Vec<bool>, results: &Vec<Option<Result<(), String>>>) -> (result:
    Result<(), String>)
    requires
        results@.len() == old(complete)@.len(),
        forall|i: int|
            0 <= i < results@.len() ==> ((#[trigger] results@[i]) is None <==> old(complete)@[i]),
    ensures
        final(complete)@ == shutdown_after(old(complete)@, results@),
        result is Ok <==> forall|i: int| 0 <= i < final(complete)@.len() ==> final(complete)@[i],
        result matches Err(message) ==> message@ == handle_errors(
            results@,
            results@.len() as int,
        ),
{
    let ghost before = complete@;
    let ghost goal = shutdown_after(before, results@);
    let mut errors = String::new();
    let mut failed = false;
    let mut i: usize = 0;
    while i < results.len()
        invariant
            i <= results.len() == complete.len(),
            before.len() == complete@.len(),
            goal == shutdown_after(before, results@),
            errors@ == handle_errors(results@, i as int),
            failed == (errors@.len() > 0),
            forall|j: int| 0 <= j < i ==> complete@[j] == goal[j],
            forall|j: int| i <= j < complete@.len() ==> complete@[j] == before[j],
        decreases results.len() - i,
    {
        match &results[i] {
            Some(Ok(())) => {
                complete.set(i, true);
            },
            Some(Err(message)) => {
                let own = join4("handle ", decimal_text(i as u64).as_str(), ": ", message.as_str());
                proof {
                    reveal_strlit("handle ");
                }
                if failed {
                    errors.append("; ");
                    errors.append(own.as_str());
                } else {
                    errors = own;
                    failed = true;
                }
            },
            None => {},
        }
        i += 1;
    }
    assert(complete@ =~= goal);
    proof {
        lemma_handle_errors(results@, results@.len() as int);
    }
    if failed {
        proof {
            let j = choose|j: int|
                0 <= j < results@.len() && ((#[trigger] results@[j]) matches Some(Err(_)));
            assert(!complete@[j]);
        }
        Err(errors)
    } else {
        assert forall|j: int| 0 <= j < complete@.len() implies complete@[j] by {
            assert(!(results@[j] matches Some(Err(_))));
        }
        Ok(())
    }
}

/// Takes the outcome of shutting down the handles of a start that failed. It
/// succeeds once every handle has stopped; they may be drained then.
pub fn cleanup_handles(complete: &mut Vec<bool>, results: &Vec<Option<Result<(), String>>>) -> (result:
    Result<(), String>)
    requires
        results@.len() == old(complete)@.len() ==> forall|i: int|
            0 <= i < results@.len() ==> ((#[trigger] results@[i]) is None <==> old(complete)@[i]),
    ensures
        results@.len() != old(complete)@.len() ==> final(complete)@ == old(complete)@ && (
        result matches Err(message) && message@ == "DNS interception cleanup ownership changed"@),
        results@.len() == old(complete)@.len() ==> {
            &&& final(complete)@ == shutdown_after(old(complete)@, results@)
            &&& result is Ok <==> forall|i: int|
                0 <= i < final(complete)@.len() ==> final(complete)@[i]
            &&& result matches Err(message) ==> message@ == handle_errors(
                results@,
                results@.len() as int,
            )
        },
{
    if complete.len() != results.len() {
        return Err("DNS interception cleanup ownership changed".to_owned());
    }
    settle_shutdown(complete, results)
}

/// The messages of the handles among the first `n` that were not drained.
pub open spec fn drain_errors(results: Seq<Result<(), String>>, n: int) -> Option<Seq<char>>
    decreases n,
{
    if n <= 0 {
        None
    } else {
        let front = drain_errors(results, n - 1);
        match results[n - 1] {
            Err(message) => {
                let own = "drain handle "@ + decimal((n - 1) as nat) + ": "@ + message@;
                match front {
                    None => Some(own),
                    Some(text) => Some(text + "; "@ + own),
                }
            },
            Ok(()) => front,
        }
    }
}

/// Takes the outcome of draining every handle of a start that failed.
pub fn cleanup_drained(results: &Vec<Result<(), String>>) -> (result: Result<(), String>)
    ensures
        result is Ok <==> drain_errors(results@, results@.len() as int) is None,
        result matches Err(message) ==> drain_errors(results@, results@.len() as int) == Some(
            message@,
        ),
{
    let mut errors: Option<String> = None;
    let mut i: usize = 0;
    while i < results.len()
        invariant
            i <= results.len(),
            text_option(errors) == drain_errors(results@, i as int),
        decreases results.len() - i,
    {
        if let Err(message) = &results[i] {
            let own = join4(
                "drain handle ",
                decimal_text(i as u64).as_str(),
                ": ",
                message.as_str(),
            );
            errors = match errors {
                None => Some(own),
                Some(text) => Some(join3(text.as_str(), "; ", own.as_str())),
            };
        }
        i += 1;
    }
    match errors {
        None => Ok(()),
        Some(message) => Err(message),
    }
}

/// What each operation does to a lease: one owner more, one owner fewer, or the cleanup
/// confirmed for good. Removing an owner ends the generation exactly where it is the only
/// one and the cleanup was confirmed.
pub proof fn leases_count_their_owners(lease: LeaseView)
    requires
        lease.owners > 0,
    ensures
        LeaseView::acquired().owners == 1 && !LeaseView::acquired().cleanup_confirmed,
        lease.after(LeaseOperation::Retain).owners == lease.owners + 1,
        lease.after(LeaseOperation::Release).owners + 1 == lease.owners,
        lease.after(LeaseOperation::ConfirmCleanup).owners == lease.owners,
        lease.after(LeaseOperation::ConfirmCleanup).cleanup_confirmed,
        lease.after(LeaseOperation::Retain).cleanup_confirmed == lease.cleanup_confirmed,
        lease.after(LeaseOperation::Release).cleanup_confirmed == lease.cleanup_confirmed,
        lease.ends() <==> lease.after(LeaseOperation::Release).owners == 0
            && lease.cleanup_confirmed,
{
}

/// States are numbered from 0 in the order in which a session goes through them: starting,
/// running, failed, stopping, stop pending and stopped. From the third on it drains.
pub proof fn states_are_numbered(state: DnsSessionState)
    ensures
        state.spec_raw() <= 5,
        state.spec_raw() == 0 <==> state is Starting,
        state.spec_raw() == 1 <==> state is Running,
        state.spec_raw() == 2 <==> state is Failed,
        state.spec_raw() == 3 <==> state is Stopping,
        state.spec_raw() == 4 <==> state is StopPending,
        state.spec_raw() == 5 <==> state is Stopped,
        state.draining() <==> state.spec_raw() >= 2,
{
}

/// The first error is kept, and a failure leaves every session but a stopped one failed.
pub proof fn first_errors_are_kept(session: SessionView, error: Seq<char>)
    ensures
        session.failed(error).first_error is Some,
        session.first_error is Some ==> session.failed(error).first_error == session.first_error,
        session.first_error is None ==> session.failed(error).first_error == Some(error),
        session.state is Stopped ==> session.failed(error).state is Stopped,
        !(session.state is Stopped) ==> session.failed(error).state is Failed,
        session.failed(error).cleanup_complete == session.cleanup_complete,
        session.failed(error).rollover_requested == session.rollover_requested,
        session.failed(error).failed(error) == session.failed(error),
{
}

/// Two errors stand in one message in the order in which they came, with a semicolon and a
/// space between them.
pub proof fn errors_are_joined_in_order(first: Seq<char>, second: Seq<char>)
    ensures
        joined_errors(first, None) == first,
        joined_errors(first, Some(second)) == first + seq![';', ' '] + second,
{
    reveal_strlit("; ");
    assert("; "@ =~= seq![';', ' ']);
}

/// What a worker does with what routing came to. A packet goes on as it is where it is not
/// concerned or the session has stopped; it is dropped where the router says so or it
/// cannot be read; another one takes its place where the router made one. Every other
/// error ends the worker, and only the need of a fresh generation asks for one.
pub proof fn workers_do_what_was_routed(outcome: Result<RoutedPacket, RouteError>)
    ensures
        ({
            let action = worker_view(outcome);
            let unreadable = outcome matches Err(error) && (error is InvalidPacket || (error
                matches RouteError::Reflection(cause) && cause is Packet));
            &&& action is Reinject <==> (outcome is Ok && outcome->Ok_0 is Unchanged) || (outcome
                is Err && outcome->Err_0 is Stopped)
            &&& action is Discard <==> (outcome is Ok && outcome->Ok_0 is Discard) || unreadable
            &&& action is Inject <==> outcome is Ok && outcome->Ok_0 is Inbound
            &&& outcome matches Ok(RoutedPacket::Inbound { packet, interface }) ==> action
                == WorkerView::Inject { packet: packet@, interface }
            &&& action is Fail <==> outcome is Err && !(outcome->Err_0 is Stopped) && !unreadable
            &&& action matches WorkerView::Fail { rollover, .. } ==> (rollover <==> outcome->Err_0
                is RolloverRequired)
        }),
{
}

/// A handle has stopped receiving once an attempt on it succeeded, and stays so; no other
/// one has.
pub proof fn handles_stop_one_by_one(
    complete: Seq<bool>,
    results: Seq<Option<Result<(), String>>>,
    i: int,
)
    requires
        0 <= i < complete.len(),
    ensures
        shutdown_after(complete, results).len() == complete.len(),
        complete[i] ==> shutdown_after(complete, results)[i],
        !complete[i] ==> (shutdown_after(complete, results)[i] <==> results[i] is Some
            && results[i]->0 is Ok),
{
}

/// The failures of handles are told in order, each with its number, with a semicolon and a
/// space between two.
pub proof fn handle_failures_are_told_in_order(
    results: Seq<Option<Result<(), String>>>,
    n: int,
    message: String,
)
    requires
        0 <= n < results.len(),
        results[n] == Some(Err::<(), String>(message)),
    ensures
        (forall|i: int| 0 <= i < n ==> !((#[trigger] results[i]) matches Some(Err(_))))
            ==> handle_errors(results, n + 1) == "handle "@ + decimal(n as nat) + ": "@ + message@,
        !(forall|i: int| 0 <= i < n ==> !((#[trigger] results[i]) matches Some(Err(_))))
            ==> handle_errors(results, n + 1) == handle_errors(results, n) + "; "@ + "handle "@
            + decimal(n as nat) + ": "@ + message@,
{
    lemma_handle_errors(results, n);
    assert(handle_errors(results, n) + "; "@ + ("handle "@ + decimal(n as nat) + ": "@ + message@)
        =~= handle_errors(results, n) + "; "@ + "handle "@ + decimal(n as nat) + ": "@ + message@);
}

/// A handle that did not fail adds nothing to what is told.
pub proof fn handles_without_failure_are_silent(
    results: Seq<Option<Result<(), String>>>,
    n: int,
)
    requires
        0 <= n < results.len(),
        !(results[n] matches Some(Err(_))),
    ensures
        handle_errors(results, n + 1) == handle_errors(results, n),
        handle_errors(results, 0) == Seq::<char>::empty(),
{
}

/// The failures to drain are told in order, each with the number of its handle, with a
/// semicolon and a space between two; a handle that was drained adds nothing.
pub proof fn drain_failures_are_told_in_order(results: Seq<Result<(), String>>, n: int)
    requires
        0 <= n < results.len(),
    ensures
        drain_errors(results, 0) is None,
        results[n] is Ok ==> drain_errors(results, n + 1) == drain_errors(results, n),
        results[n] matches Err(message) ==> drain_errors(results, n + 1) == Some(
            if drain_errors(results, n) is Some {
                drain_errors(results, n)->0 + seq![';', ' '] + ("drain handle "@ + decimal(n as nat)
                    + ": "@ + message@)
            } else {
                "drain handle "@ + decimal(n as nat) + ": "@ + message@
            },
        ),
{
    reveal_strlit("; ");
    assert("; "@ =~= seq![';', ' ']);
}

} // verus!
