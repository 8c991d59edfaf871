//! The supervisor of a session: a loop that the caller runs, one event and one
//! action at a time.

use crate::dns_flow::deadline_of;
use crate::dns_manager::TransparentReloadError;
use crate::dns_session::{
    first_of, remember_error, text_option, DnsSessionState, SessionState, SessionView,
};
use crate::text::{decimal, decimal_text, join, join3, join4};
use vstd::prelude::*;
use vstd::string::*;

verus! {

/// What the supervisor waits for.
#[derive(Clone, Copy, Debug, PartialEq, Eq, Structural)]
pub enum SupervisorPhase {
    /// Reports of workers that have ended.
    Workers,
    /// The end of admission.
    Freeze,
    /// The companion's answer to the request to stop admission.
    Quiesce,
    /// The outcome of shutting down the handles.
    Shutdown,
    /// Whether every worker has ended.
    Inspect,
    /// The joined workers.
    Join,
    /// The release of the handles.
    Release,
    /// The outcome of stopping the companion.
    StopCompanion,
    /// The health of the companion.
    Health,
    /// A command.
    Command,
    /// The outcome of a reload.
    Reload,
    /// Nothing: the session has ended.
    Finished,
}

/// What happened.
#[derive(Debug, PartialEq, Eq)]
pub enum SupervisorEvent {
    /// A worker has ended.
    WorkerExited { index: usize, result: Result<(), String> },
    /// No more workers have reported their end.
    NoMoreExits,
    /// The router admits nothing any more.
    Frozen,
    Quiesced(Result<(), String>),
    HandlesShutdown(Result<(), String>),
    /// Whether every worker has ended.
    Inspected { finished: bool },
    /// Every worker was joined. The first that panicked, and the first failure
    /// that was reported late.
    Joined { panicked: Option<usize>, late: Option<(usize, String)> },
    /// The handles were dropped.
    HandlesReleased,
    CompanionStopped(Result<(), String>),
    /// Whether the companion runs.
    Health(Result<bool, String>),
    /// A request to stop.
    Stop,
    /// A request to reload the rules.
    Reload,
    /// No command came for a while.
    Quiet,
    /// Nobody can send commands any more.
    Disconnected,
    Reloaded(Result<(), TransparentReloadError>),
}

/// What the caller does next.
#[derive(Clone, Copy, Debug, PartialEq, Eq, Structural)]
pub enum SupervisorAction {
    PollWorkers,
    /// Freezes the router; a registration under way ends first.
    FreezeAdmission,
    Quiesce,
    ShutdownHandles,
    InspectWorkers,
    JoinWorkers,
    /// Drops the handles.
    ReleaseHandles,
    StopCompanion,
    CheckHealth,
    AwaitCommand,
    /// Reloads the rules of the command.
    ReloadRules,
    Finish,
}

/// What the caller does next, and whom it answers.
#[derive(Debug, PartialEq, Eq)]
pub struct SupervisorStep {
    pub action: SupervisorAction,
    /// The answer for everyone who waits for the session to stop.
    pub stop_answer: Option<Result<(), String>>,
    /// The answer for the one who asked for a reload.
    pub reload_answer: Option<Result<(), String>>,
}

/// The step, as mathematical values.
pub ghost struct StepView {
    pub action: SupervisorAction,
    pub stop_answer: Option<Result<(), Seq<char>>>,
    pub reload_answer: Option<Result<(), Seq<char>>>,
}

/// The mathematical value of an answer.
pub open spec fn answer_option(answer: Option<Result<(), String>>) -> Option<
    Result<(), Seq<char>>,
> {
    match answer {
        Some(Ok(())) => Some(Ok(())),
        Some(Err(message)) => Some(Err(message@)),
        None => None,
    }
}

impl SupervisorStep {
    pub open spec fn view(&self) -> StepView {
        StepView {
            action: self.action,
            stop_answer: answer_option(self.stop_answer),
            reload_answer: answer_option(self.reload_answer),
        }
    }
}

/// The supervisor of a running session.
#[derive(Debug, PartialEq, Eq)]
pub struct Supervisor {
    phase: SupervisorPhase,
    stop_requested: bool,
    quiesce_attempted: bool,
    quiesced: bool,
    first_error: Option<String>,
    stop_deadline: Option<u64>,
    handles_shutdown: bool,
    drain_enabled: bool,
    finish_without_drain: bool,
    session: SessionState,
}

/// What a supervisor holds.
pub ghost struct SupervisorView {
    pub phase: SupervisorPhase,
    pub stop_requested: bool,
    pub quiesce_attempted: bool,
    pub quiesced: bool,
    pub first_error: Option<Seq<char>>,
    pub stop_deadline: Option<u64>,
    pub handles_shutdown: bool,
    pub drain_enabled: bool,
    pub finish_without_drain: bool,
    pub session: SessionView,
}

/// A step without an answer.
pub open spec fn plain(action: SupervisorAction) -> StepView {
    StepView { action, stop_answer: None, reload_answer: None }
}

/// What is said of a reload that the session cannot take.
pub open spec fn reload_refusal(state: DnsSessionState) -> Seq<char> {
    "DNS rule reload requires a running session (state "@ + state.spec_name() + ")"@
}

pub(crate) fn reload_refusal_message(state: DnsSessionState) -> (result: String)
    ensures
        result@ == reload_refusal(state),
{
    join3("DNS rule reload requires a running session (state ", state.name(), ")")
}

impl SupervisorView {
    /// The first error is kept.
    pub open spec fn with_error(self, message: Seq<char>) -> SupervisorView {
        SupervisorView { first_error: first_of(self.first_error, message), ..self }
    }

    /// The session has failed and is to stop.
    pub open spec fn failing(self, message: Seq<char>, now_ms: u64) -> SupervisorView {
        SupervisorView {
            session: self.session.failed(message),
            stop_requested: true,
            stop_deadline: Some(deadline_of(now_ms, 15_000)),
            ..self
        }
    }

    /// The session is to stop; a deadline that runs already is kept.
    pub open spec fn stopping(self, now_ms: u64) -> SupervisorView {
        SupervisorView {
            stop_requested: true,
            stop_deadline: if self.stop_deadline is Some {
                self.stop_deadline
            } else {
                Some(deadline_of(now_ms, 15_000))
            },
            ..self
        }
    }

    /// A worker has ended. It must not end before the session stops.
    pub open spec fn worker_exited(
        self,
        index: nat,
        result: Result<(), Seq<char>>,
        now_ms: u64,
    ) -> SupervisorView {
        match result {
            Err(message) => {
                let noted = self.with_error("worker "@ + decimal(index) + ": "@ + message);
                if self.stop_requested {
                    noted
                } else {
                    noted.failing(noted.first_error->0, now_ms)
                }
            },
            Ok(()) => if self.stop_requested {
                self
            } else {
                let noted = self.with_error(
                    "DNS interception worker "@ + decimal(index) + " exited unexpectedly"@,
                );
                noted.failing(noted.first_error->0, now_ms)
            },
        }
    }

    /// The reports of the workers have been read.
    pub open spec fn reports_read(self) -> (SupervisorView, StepView) {
        if !self.stop_requested {
            (
                SupervisorView { phase: SupervisorPhase::Health, ..self },
                plain(SupervisorAction::CheckHealth),
            )
        } else if !self.quiesce_attempted {
            (
                SupervisorView {
                    phase: SupervisorPhase::Freeze,
                    quiesce_attempted: true,
                    drain_enabled: false,
                    finish_without_drain: false,
                    session: SessionView { state: DnsSessionState::Stopping, ..self.session },
                    ..self
                },
                plain(SupervisorAction::FreezeAdmission),
            )
        } else if !self.drain_enabled {
            (
                SupervisorView { phase: SupervisorPhase::Shutdown, ..self },
                plain(SupervisorAction::ShutdownHandles),
            )
        } else {
            (
                SupervisorView { phase: SupervisorPhase::Inspect, ..self },
                plain(SupervisorAction::InspectWorkers),
            )
        }
    }

    /// The handles were shut down, or not all of them. Only where the companion
    /// quiesced may the workers drain.
    pub open spec fn handles_shut(self, result: Result<(), Seq<char>>, now_ms: u64) -> SupervisorView {
        let next = match result {
            Ok(()) => SupervisorView {
                handles_shutdown: true,
                drain_enabled: self.quiesced,
                finish_without_drain: self.finish_without_drain || !self.quiesced,
                ..self
            },
            Err(message) => self.with_error("shutdown DNS handles: "@ + message),
        };
        SupervisorView { phase: SupervisorPhase::Inspect, ..next.stopping(now_ms) }
    }

    /// The workers were looked at.
    pub open spec fn inspected(self, finished: bool, now_ms: u64) -> (SupervisorView, StepView) {
        let deadline = match self.stop_deadline {
            Some(deadline) => deadline,
            None => deadline_of(now_ms, 15_000),
        };
        let timed = SupervisorView {
            stop_deadline: Some(deadline),
            phase: SupervisorPhase::Command,
            ..self
        };
        if self.handles_shutdown && finished {
            (
                SupervisorView { phase: SupervisorPhase::Join, ..timed },
                plain(SupervisorAction::JoinWorkers),
            )
        } else if now_ms >= deadline {
            (
                SupervisorView {
                    stop_deadline: None,
                    session: SessionView { state: DnsSessionState::StopPending, ..self.session },
                    ..timed
                },
                StepView {
                    action: SupervisorAction::AwaitCommand,
                    stop_answer: Some(
                        Err(
                            match self.first_error {
                                Some(message) => message,
                                None => "DNS interception workers did not stop before the bounded deadline"@,
                            },
                        ),
                    ),
                    reload_answer: None,
                },
            )
        } else {
            (timed, plain(SupervisorAction::AwaitCommand))
        }
    }

    /// The workers were joined.
    pub open spec fn joined(
        self,
        panicked: Option<nat>,
        late: Option<(nat, Seq<char>)>,
    ) -> SupervisorView {
        let first = match panicked {
            Some(index) => self.with_error(
                "DNS interception worker "@ + decimal(index) + " panicked"@,
            ),
            None => self,
        };
        let second = match late {
            Some((index, message)) => first.with_error(
                "worker "@ + decimal(index) + ": "@ + message,
            ),
            None => first,
        };
        let third = match self.session.first_error {
            Some(message) => second.with_error(message),
            None => second,
        };
        SupervisorView { phase: SupervisorPhase::Release, ..third }
    }

    /// The companion was stopped, or not. The session has stopped only where no
    /// error was noted.
    pub open spec fn companion_stopped(self, result: Result<(), Seq<char>>) -> (
        SupervisorView,
        StepView,
    ) {
        let noted = match result {
            Ok(()) => SupervisorView {
                session: SessionView { cleanup_complete: true, ..self.session },
                ..self
            },
            Err(message) => self.with_error("stop DNS companion: "@ + message),
        };
        match noted.first_error {
            None => (
                SupervisorView {
                    phase: SupervisorPhase::Finished,
                    session: SessionView { state: DnsSessionState::Stopped, ..noted.session },
                    ..noted
                },
                StepView {
                    action: SupervisorAction::Finish,
                    stop_answer: Some(Ok(())),
                    reload_answer: None,
                },
            ),
            Some(message) => (
                SupervisorView {
                    phase: SupervisorPhase::Finished,
                    session: SessionView {
                        state: DnsSessionState::Failed,
                        ..noted.session.failed(message)
                    },
                    ..noted
                },
                StepView {
                    action: SupervisorAction::Finish,
                    stop_answer: Some(Err(message)),
                    reload_answer: None,
                },
            ),
        }
    }

    /// The companion was looked at.
    pub open spec fn health(self, result: Result<bool, Seq<char>>, now_ms: u64) -> SupervisorView {
        let next = match result {
            Ok(true) => self,
            Ok(false) => {
                let message = "DNS companion disappeared while interception was active"@;
                self.with_error(message).failing(message, now_ms)
            },
            Err(message) => self.with_error(message).failing(
                "DNS companion health check failed: "@ + message,
                now_ms,
            ),
        };
        SupervisorView { phase: SupervisorPhase::Command, ..next }
    }

    /// A reload was asked for.
    pub open spec fn reload_asked(self) -> (SupervisorView, StepView) {
        if self.stop_requested || self.session.state != DnsSessionState::Running {
            (
                SupervisorView { phase: SupervisorPhase::Workers, ..self },
                StepView {
                    action: SupervisorAction::PollWorkers,
                    stop_answer: None,
                    reload_answer: Some(Err(reload_refusal(self.session.state))),
                },
            )
        } else {
            (
                SupervisorView { phase: SupervisorPhase::Reload, ..self },
                plain(SupervisorAction::ReloadRules),
            )
        }
    }

    /// A reload ended. A rejection leaves the session running; doubt ends it.
    pub open spec fn reloaded(
        self,
        result: Result<(), TransparentReloadError>,
        now_ms: u64,
    ) -> (SupervisorView, StepView) {
        let calm = SupervisorView { phase: SupervisorPhase::Workers, ..self };
        let answer = |value: Result<(), Seq<char>>|
            StepView {
                action: SupervisorAction::PollWorkers,
                stop_answer: None,
                reload_answer: Some(value),
            };
        match result {
            Ok(()) => (calm, answer(Ok(()))),
            Err(TransparentReloadError::Rejected(message)) => (calm, answer(Err(message@))),
            Err(TransparentReloadError::Uncertain(message)) => (
                SupervisorView {
                    session: self.session.failed(message@),
                    ..calm.with_error(message@).stopping(now_ms)
                },
                answer(Err(message@)),
            ),
        }
    }

    /// Whether an event is one that the supervisor waits for.
    pub open spec fn expects(self, event: SupervisorEvent) -> bool {
        match event {
            SupervisorEvent::WorkerExited { .. } => self.phase == SupervisorPhase::Workers,
            SupervisorEvent::NoMoreExits => self.phase == SupervisorPhase::Workers,
            SupervisorEvent::Frozen => self.phase == SupervisorPhase::Freeze,
            SupervisorEvent::Quiesced(_) => self.phase == SupervisorPhase::Quiesce,
            SupervisorEvent::HandlesShutdown(_) => self.phase == SupervisorPhase::Shutdown,
            SupervisorEvent::Inspected { .. } => self.phase == SupervisorPhase::Inspect,
            SupervisorEvent::Joined { .. } => self.phase == SupervisorPhase::Join,
            SupervisorEvent::HandlesReleased => self.phase == SupervisorPhase::Release,
            SupervisorEvent::CompanionStopped(_) => self.phase == SupervisorPhase::StopCompanion,
            SupervisorEvent::Health(_) => self.phase == SupervisorPhase::Health,
            SupervisorEvent::Stop => self.phase == SupervisorPhase::Command,
            SupervisorEvent::Reload => self.phase == SupervisorPhase::Command,
            SupervisorEvent::Quiet => self.phase == SupervisorPhase::Command,
            SupervisorEvent::Disconnected => self.phase == SupervisorPhase::Command,
            SupervisorEvent::Reloaded(_) => self.phase == SupervisorPhase::Reload,
        }
    }

    /// What an event does, and what comes next.
    pub open spec fn step(self, event: SupervisorEvent, now_ms: u64) -> (SupervisorView, StepView) {
        match event {
            SupervisorEvent::WorkerExited { index, result } => (
                self.worker_exited(index as nat, result_view(result), now_ms),
                plain(SupervisorAction::PollWorkers),
            ),
            SupervisorEvent::NoMoreExits => self.reports_read(),
            SupervisorEvent::Frozen => (
                SupervisorView { phase: SupervisorPhase::Quiesce, ..self },
                plain(SupervisorAction::Quiesce),
            ),
            SupervisorEvent::Quiesced(result) => {
                let noted = match result {
                    Ok(()) => SupervisorView { quiesced: true, ..self },
                    Err(message) => self.with_error("quiesce DNS companion: "@ + message@),
                };
                (
                    SupervisorView { phase: SupervisorPhase::Shutdown, ..noted },
                    plain(SupervisorAction::ShutdownHandles),
                )
            },
            SupervisorEvent::HandlesShutdown(result) => (
                self.handles_shut(result_view(result), now_ms),
                plain(SupervisorAction::InspectWorkers),
            ),
            SupervisorEvent::Inspected { finished } => self.inspected(finished, now_ms),
            SupervisorEvent::Joined { panicked, late } => (
                self.joined(
                    match panicked {
                        Some(index) => Some(index as nat),
                        None => None,
                    },
                    match late {
                        Some((index, message)) => Some((index as nat, message@)),
                        None => None,
                    },
                ),
                plain(SupervisorAction::ReleaseHandles),
            ),
            SupervisorEvent::HandlesReleased => (
                SupervisorView { phase: SupervisorPhase::StopCompanion, ..self },
                plain(SupervisorAction::StopCompanion),
            ),
            SupervisorEvent::CompanionStopped(result) => self.companion_stopped(
                result_view(result),
            ),
            SupervisorEvent::Health(result) => (
                self.health(
                    match result {
                        Ok(running) => Ok(running),
                        Err(message) => Err(message@),
                    },
                    now_ms,
                ),
                plain(SupervisorAction::AwaitCommand),
            ),
            SupervisorEvent::Stop | SupervisorEvent::Disconnected => (
                SupervisorView { phase: SupervisorPhase::Workers, ..self.stopping(now_ms) },
                plain(SupervisorAction::PollWorkers),
            ),
            SupervisorEvent::Reload => self.reload_asked(),
            SupervisorEvent::Quiet => (
                SupervisorView { phase: SupervisorPhase::Workers, ..self },
                plain(SupervisorAction::PollWorkers),
            ),
            SupervisorEvent::Reloaded(result) => self.reloaded(result, now_ms),
        }
    }

    /// What holds of every supervisor: a stop goes in order. Admission is frozen
    /// before anything is shut down; the workers drain only once the companion has
    /// quiesced and every handle has stopped receiving; the workers are joined, and
    /// the companion is stopped, only after that; and cleanup is complete only in
    /// the end.
    pub open spec fn valid(self) -> bool {
        let ending = self.phase == SupervisorPhase::Join || self.phase == SupervisorPhase::Release
            || self.phase == SupervisorPhase::StopCompanion || self.phase
            == SupervisorPhase::Finished;
        &&& self.quiesce_attempted ==> self.stop_requested
        &&& self.quiesced ==> self.quiesce_attempted
        &&& self.handles_shutdown ==> self.quiesce_attempted
        &&& self.drain_enabled ==> self.quiesced && self.handles_shutdown
        &&& self.finish_without_drain ==> !self.quiesced && self.handles_shutdown
        &&& ending ==> self.handles_shutdown && self.stop_requested
        &&& (self.phase == SupervisorPhase::Shutdown || self.phase == SupervisorPhase::Inspect
            || self.phase == SupervisorPhase::Freeze || self.phase == SupervisorPhase::Quiesce)
            ==> self.quiesce_attempted
        &&& (self.phase == SupervisorPhase::Freeze || self.phase == SupervisorPhase::Quiesce)
            ==> !self.quiesced && !self.handles_shutdown
        &&& self.phase == SupervisorPhase::Shutdown ==> !self.drain_enabled
        &&& self.session.cleanup_complete ==> self.phase == SupervisorPhase::Finished
        &&& self.session.state == DnsSessionState::Stopped ==> self.phase
            == SupervisorPhase::Finished
    }
}

/// The mathematical value of a result.
pub open spec fn result_view(result: Result<(), String>) -> Result<(), Seq<char>> {
    match result {
        Ok(()) => Ok(()),
        Err(message) => Err(message@),
    }
}

/// Every event keeps the order of a stop. The companion is asked to quiesce only once
/// admission is frozen, and handles are shut down only after that.
pub proof fn stop_order_is_kept(state: SupervisorView, event: SupervisorEvent, now_ms: u64)
    requires
        state.valid(),
        state.expects(event),
    ensures
        state.step(event, now_ms).0.valid(),
        state.step(event, now_ms).1.action == SupervisorAction::FreezeAdmission
            ==> state.stop_requested && !state.quiesce_attempted,
        state.step(event, now_ms).1.action == SupervisorAction::Quiesce ==> event
            == SupervisorEvent::Frozen,
        state.step(event, now_ms).1.action == SupervisorAction::ShutdownHandles
            ==> state.quiesce_attempted && state.phase != SupervisorPhase::Freeze,
{
}

/// The handles are dropped only once every handle has stopped receiving and every worker
/// has ended and was joined, and the companion is stopped only after that.
pub proof fn release_follows_shutdown_and_join(
    state: SupervisorView,
    event: SupervisorEvent,
    now_ms: u64,
)
    requires
        state.valid(),
        state.expects(event),
    ensures
        state.step(event, now_ms).1.action == SupervisorAction::StopCompanion
            ==> state.handles_shutdown && event == SupervisorEvent::HandlesReleased,
        state.step(event, now_ms).1.action == SupervisorAction::ReleaseHandles
            ==> state.handles_shutdown && state.phase == SupervisorPhase::Join && event is Joined,
        state.step(event, now_ms).1.action == SupervisorAction::JoinWorkers
            ==> state.handles_shutdown && event == (SupervisorEvent::Inspected { finished: true }),
{
}

/// Once a stop is requested it stays requested.
pub proof fn stop_requests_are_final(state: SupervisorView, event: SupervisorEvent, now_ms: u64)
    requires
        state.stop_requested,
    ensures
        state.step(event, now_ms).0.stop_requested,
{
}

proof fn lemma_workers_keep_error(state: SupervisorView, event: SupervisorEvent, now_ms: u64)
    requires
        state.first_error is Some,
        event is WorkerExited || event is NoMoreExits || event is Joined,
    ensures
        state.step(event, now_ms).0.first_error == state.first_error,
{
}

proof fn lemma_shutdown_keeps_error(state: SupervisorView, event: SupervisorEvent, now_ms: u64)
    requires
        state.first_error is Some,
        event is HandlesShutdown || event is Frozen || event is Quiesced || event is Inspected,
    ensures
        state.step(event, now_ms).0.first_error == state.first_error,
{
}

proof fn lemma_end_keeps_error(state: SupervisorView, event: SupervisorEvent, now_ms: u64)
    requires
        state.first_error is Some,
        event is HandlesReleased || event is CompanionStopped || event is Health,
    ensures
        state.step(event, now_ms).0.first_error == state.first_error,
{
}

proof fn lemma_commands_keep_error(state: SupervisorView, event: SupervisorEvent, now_ms: u64)
    requires
        state.first_error is Some,
        event is Stop || event is Reload || event is Quiet || event is Disconnected || event is Reloaded,
    ensures
        state.step(event, now_ms).0.first_error == state.first_error,
{
}

/// The first error that was noted stays the first error.
pub proof fn first_error_is_kept(state: SupervisorView, event: SupervisorEvent, now_ms: u64)
    requires
        state.first_error is Some,
    ensures
        state.step(event, now_ms).0.first_error == state.first_error,
{
    match event {
        SupervisorEvent::WorkerExited { .. }
        | SupervisorEvent::NoMoreExits
        | SupervisorEvent::Joined { .. } => lemma_workers_keep_error(state, event, now_ms),
        SupervisorEvent::HandlesShutdown(_)
        | SupervisorEvent::Frozen
        | SupervisorEvent::Quiesced(_)
        | SupervisorEvent::Inspected { .. } => lemma_shutdown_keeps_error(state, event, now_ms),
        SupervisorEvent::HandlesReleased
        | SupervisorEvent::CompanionStopped(_)
        | SupervisorEvent::Health(_) => lemma_end_keeps_error(state, event, now_ms),
        _ => lemma_commands_keep_error(state, event, now_ms),
    }
}

/// A session stops with success only where nothing went wrong, and its resources
/// are all released then.
pub proof fn noted_errors_make_the_stop_fail(
    state: SupervisorView,
    result: Result<(), String>,
    now_ms: u64,
)
    ensures
        ({
            let (next, step) = state.step(SupervisorEvent::CompanionStopped(result), now_ms);
            &&& state.first_error matches Some(message) ==> step.stop_answer == Some(
                Err::<(), Seq<char>>(message),
            )
            &&& step.stop_answer == Some(Ok::<(), Seq<char>>(())) ==> next.session.cleanup_complete
                && next.session.state == DnsSessionState::Stopped
        }),
{
}

/// Rules that the companion rejects leave the session as it was.
pub proof fn rejected_rules_leave_the_session_running(
    state: SupervisorView,
    message: String,
    now_ms: u64,
)
    requires
        state.phase == SupervisorPhase::Reload,
    ensures
        ({
            let event = SupervisorEvent::Reloaded(
                Err(TransparentReloadError::Rejected(message)),
            );
            let (next, step) = state.step(event, now_ms);
            &&& next == (SupervisorView { phase: SupervisorPhase::Workers, ..state })
            &&& step.reload_answer == Some(Err::<(), Seq<char>>(message@))
        }),
{
}

impl Supervisor {
    pub closed spec fn view(&self) -> SupervisorView {
        SupervisorView {
            phase: self.phase,
            stop_requested: self.stop_requested,
            quiesce_attempted: self.quiesce_attempted,
            quiesced: self.quiesced,
            first_error: text_option(self.first_error),
            stop_deadline: self.stop_deadline,
            handles_shutdown: self.handles_shutdown,
            drain_enabled: self.drain_enabled,
            finish_without_drain: self.finish_without_drain,
            session: self.session@,
        }
    }

    /// The supervisor of a session whose workers all run.
    pub fn new() -> (result: Self)
        ensures
            result@.valid(),
            result@ == (SupervisorView {
                phase: SupervisorPhase::Workers,
                stop_requested: false,
                quiesce_attempted: false,
                quiesced: false,
                first_error: None,
                stop_deadline: None,
                handles_shutdown: false,
                drain_enabled: false,
                finish_without_drain: false,
                session: SessionView {
                    state: DnsSessionState::Running,
                    first_error: None,
                    cleanup_complete: false,
                    rollover_requested: false,
                },
            }),
    {
        let mut session = SessionState::new();
        session.store(DnsSessionState::Running);
        Supervisor {
            phase: SupervisorPhase::Workers,
            stop_requested: false,
            quiesce_attempted: false,
            quiesced: false,
            first_error: None,
            stop_deadline: None,
            handles_shutdown: false,
            drain_enabled: false,
            finish_without_drain: false,
            session,
        }
    }

    /// What is published about the session.
    pub fn session(&self) -> (result: &SessionState)
        ensures
            result@ == self@.session,
    {
        &self.session
    }

    /// Whether the workers may drain.
    pub fn drain_enabled(&self) -> (result: bool)
        ensures
            result == self@.drain_enabled,
    {
        self.drain_enabled
    }

    /// Whether the workers may end without draining.
    pub fn finish_without_drain(&self) -> (result: bool)
        ensures
            result == self@.finish_without_drain,
    {
        self.finish_without_drain
    }

    /// What the supervisor waits for.
    pub fn phase(&self) -> (result: SupervisorPhase)
        ensures
            result == self@.phase,
    {
        self.phase
    }

    fn request_stop(&mut self, now_ms: u64)
        ensures
            final(self)@ == old(self)@.stopping(now_ms),
    {
        self.stop_requested = true;
        if self.stop_deadline.is_none() {
            self.stop_deadline = Some(now_ms.saturating_add(15_000));
        }
    }

    fn fail(&mut self, message: String, now_ms: u64)
        ensures
            final(self)@ == old(self)@.failing(message@, now_ms),
    {
        self.session.fail(message);
        self.stop_requested = true;
        self.stop_deadline = Some(now_ms.saturating_add(15_000));
    }

    fn first_error_copy(&self) -> (result: Option<String>)
        ensures
            text_option(result) == self@.first_error,
    {
        match &self.first_error {
            Some(message) => Some(message.clone()),
            None => None,
        }
    }

    fn note_worker_exit(&mut self, index: usize, result: Result<(), String>, now_ms: u64)
        ensures
            final(self)@ == old(self)@.worker_exited(index as nat, result_view(result), now_ms),
    {
        let message = match result {
            Err(message) => join4(
                "worker ",
                decimal_text(index as u64).as_str(),
                ": ",
                message.as_str(),
            ),
            Ok(()) => {
                if self.stop_requested {
                    return;
                }
                join3(
                    "DNS interception worker ",
                    decimal_text(index as u64).as_str(),
                    " exited unexpectedly",
                )
            },
        };
        remember_error(&mut self.first_error, message);
        if !self.stop_requested {
            match self.first_error_copy() {
                Some(first) => {
                    self.fail(first, now_ms);
                },
                None => {},
            }
        }
    }

    /// Takes an event that the supervisor waits for.
    pub fn step(&mut self, event: SupervisorEvent, now_ms: u64) -> (result: SupervisorStep)
        requires
            old(self)@.valid(),
            old(self)@.expects(event),
        ensures
            final(self)@.valid(),
            (final(self)@, result@) == old(self)@.step(event, now_ms),
    {
        proof {
            stop_order_is_kept(self@, event, now_ms);
        }
        match event {
            SupervisorEvent::WorkerExited { index, result } => {
                self.note_worker_exit(index, result, now_ms);
                next(SupervisorAction::PollWorkers)
            },
            SupervisorEvent::NoMoreExits => {
                if !self.stop_requested {
                    self.phase = SupervisorPhase::Health;
                    next(SupervisorAction::CheckHealth)
                } else if !self.quiesce_attempted {
                    self.phase = SupervisorPhase::Freeze;
                    self.quiesce_attempted = true;
                    self.drain_enabled = false;
                    self.finish_without_drain = false;
                    self.session.store(DnsSessionState::Stopping);
                    next(SupervisorAction::FreezeAdmission)
                } else if !self.drain_enabled {
                    self.phase = SupervisorPhase::Shutdown;
                    next(SupervisorAction::ShutdownHandles)
                } else {
                    self.phase = SupervisorPhase::Inspect;
                    next(SupervisorAction::InspectWorkers)
                }
            },
            SupervisorEvent::Frozen => {
                self.phase = SupervisorPhase::Quiesce;
                next(SupervisorAction::Quiesce)
            },
            SupervisorEvent::Quiesced(result) => {
                match result {
                    Ok(()) => {
                        self.quiesced = true;
                    },
                    Err(message) => {
                        remember_error(
                            &mut self.first_error,
                            join("quiesce DNS companion: ", message.as_str()),
                        );
                    },
                }
                self.phase = SupervisorPhase::Shutdown;
                next(SupervisorAction::ShutdownHandles)
            },
            SupervisorEvent::HandlesShutdown(result) => {
                match result {
                    Ok(()) => {
                        self.handles_shutdown = true;
                        if self.quiesced {
                            self.drain_enabled = true;
                        } else {
                            self.drain_enabled = false;
                            self.finish_without_drain = true;
                        }
                    },
                    Err(message) => {
                        remember_error(
                            &mut self.first_error,
                            join("shutdown DNS handles: ", message.as_str()),
                        );
                    },
                }
                self.request_stop(now_ms);
                self.phase = SupervisorPhase::Inspect;
                next(SupervisorAction::InspectWorkers)
            },
            SupervisorEvent::Inspected { finished } => self.inspect(finished, now_ms),
            SupervisorEvent::Joined { panicked, late } => {
                if let Some(index) = panicked {
                    remember_error(
                        &mut self.first_error,
                        join3(
                            "DNS interception worker ",
                            decimal_text(index as u64).as_str(),
                            " panicked",
                        ),
                    );
                }
                if let Some((index, message)) = late {
                    remember_error(
                        &mut self.first_error,
                        join4(
                            "worker ",
                            decimal_text(index as u64).as_str(),
                            ": ",
                            message.as_str(),
                        ),
                    );
                }
                if let Some(message) = self.session.error() {
                    remember_error(&mut self.first_error, message);
                }
                self.phase = SupervisorPhase::Release;
                next(SupervisorAction::ReleaseHandles)
            },
            SupervisorEvent::HandlesReleased => {
                self.phase = SupervisorPhase::StopCompanion;
                next(SupervisorAction::StopCompanion)
            },
            SupervisorEvent::CompanionStopped(result) => self.finish(result),
            SupervisorEvent::Health(result) => {
                match result {
                    Ok(running) => if !running {
                        let message = "DNS companion disappeared while interception was active";
                        self.fail(message.to_owned(), now_ms);
                        remember_error(&mut self.first_error, message.to_owned());
                    },
                    Err(message) => {
                        self.fail(
                            join("DNS companion health check failed: ", message.as_str()),
                            now_ms,
                        );
                        remember_error(&mut self.first_error, message);
                    },
                }
                self.phase = SupervisorPhase::Command;
                next(SupervisorAction::AwaitCommand)
            },
            SupervisorEvent::Stop => {
                self.request_stop(now_ms);
                self.phase = SupervisorPhase::Workers;
                next(SupervisorAction::PollWorkers)
            },
            SupervisorEvent::Disconnected => {
                self.request_stop(now_ms);
                self.phase = SupervisorPhase::Workers;
                next(SupervisorAction::PollWorkers)
            },
            SupervisorEvent::Quiet => {
                self.phase = SupervisorPhase::Workers;
                next(SupervisorAction::PollWorkers)
            },
            SupervisorEvent::Reload => {
                if self.stop_requested || self.session.load() != DnsSessionState::Running {
                    self.phase = SupervisorPhase::Workers;
                    SupervisorStep {
                        action: SupervisorAction::PollWorkers,
                        stop_answer: None,
                        reload_answer: Some(Err(reload_refusal_message(self.session.load()))),
                    }
                } else {
                    self.phase = SupervisorPhase::Reload;
                    next(SupervisorAction::ReloadRules)
                }
            },
            SupervisorEvent::Reloaded(result) => {
                self.phase = SupervisorPhase::Workers;
                let answer = match result {
                    Ok(()) => Ok(()),
                    Err(TransparentReloadError::Rejected(message)) => Err(message),
                    Err(TransparentReloadError::Uncertain(message)) => {
                        remember_error(&mut self.first_error, message.clone());
                        self.session.fail(message.clone());
                        self.request_stop(now_ms);
                        Err(message)
                    },
                };
                SupervisorStep {
                    action: SupervisorAction::PollWorkers,
                    stop_answer: None,
                    reload_answer: Some(answer),
                }
            },
        }
    }

    fn inspect(&mut self, finished: bool, now_ms: u64) -> (result: SupervisorStep)
        ensures
            (final(self)@, result@) == old(self)@.inspected(finished, now_ms),
    {
        let deadline: u64 = match self.stop_deadline {
            Some(deadline) => deadline,
            None => now_ms.saturating_add(15_000),
        };
        self.stop_deadline = Some(deadline);
        if self.handles_shutdown && finished {
            self.phase = SupervisorPhase::Join;
            return next(SupervisorAction::JoinWorkers);
        }
        self.phase = SupervisorPhase::Command;
        if now_ms >= deadline {
            self.session.store(DnsSessionState::StopPending);
            self.stop_deadline = None;
            let message = match self.first_error_copy() {
                Some(message) => message,
                None => "DNS interception workers did not stop before the bounded deadline".to_owned(),
            };
            return SupervisorStep {
                action: SupervisorAction::AwaitCommand,
                stop_answer: Some(Err(message)),
                reload_answer: None,
            };
        }
        next(SupervisorAction::AwaitCommand)
    }

    fn finish(&mut self, result: Result<(), String>) -> (outcome: SupervisorStep)
        ensures
            (final(self)@, outcome@) == old(self)@.companion_stopped(result_view(result)),
    {
        match result {
            Ok(()) => {
                self.session.confirm_cleanup();
            },
            Err(message) => {
                remember_error(
                    &mut self.first_error,
                    join("stop DNS companion: ", message.as_str()),
                );
            },
        }
        self.phase = SupervisorPhase::Finished;
        match self.first_error_copy() {
            None => {
                self.session.store(DnsSessionState::Stopped);
                SupervisorStep {
                    action: SupervisorAction::Finish,
                    stop_answer: Some(Ok(())),
                    reload_answer: None,
                }
            },
            Some(message) => {
                self.session.fail(message.clone());
                self.session.store(DnsSessionState::Failed);
                SupervisorStep {
                    action: SupervisorAction::Finish,
                    stop_answer: Some(Err(message)),
                    reload_answer: None,
                }
            },
        }
    }
}

fn next(action: SupervisorAction) -> (result: SupervisorStep)
    ensures
        result@ == plain(action),
{
    SupervisorStep { action, stop_answer: None, reload_answer: None }
}

/// The error that is noted after another one may have been: the first.
pub open spec fn earliest(before: Option<Seq<char>>, message: Seq<char>) -> Option<Seq<char>> {
    match before {
        None => Some(message),
        Some(_) => before,
    }
}

/// Fifteen seconds later, as far as the clock goes.
pub open spec fn stop_limit(now_ms: u64) -> u64 {
    if now_ms + 15_000 > u64::MAX {
        u64::MAX
    } else {
        (now_ms + 15_000) as u64
    }
}

/// What the end of a worker does. One that fails is noted; one that ends before the
/// session stops, in whatever way, makes the session fail and gives it fifteen seconds to
/// stop. Nothing else changes, and the next report is read.
pub proof fn workers_must_not_end_early(
    state: SupervisorView,
    index: usize,
    result: Result<(), String>,
    now_ms: u64,
)
    ensures
        ({
            let (after, step) = state.step(SupervisorEvent::WorkerExited { index, result }, now_ms);
            let number = decimal(index as nat);
            &&& step.action is PollWorkers && step.stop_answer is None && step.reload_answer is None
            &&& result matches Err(message) ==> after.first_error == earliest(
                state.first_error,
                "worker "@ + number + ": "@ + message@,
            )
            &&& result is Ok && !state.stop_requested ==> after.first_error == earliest(
                state.first_error,
                "DNS interception worker "@ + number + " exited unexpectedly"@,
            )
            &&& result is Ok && state.stop_requested ==> after == state
            &&& state.stop_requested ==> after.session == state.session && after.stop_deadline
                == state.stop_deadline
            &&& !state.stop_requested ==> {
                &&& after.stop_deadline == Some(stop_limit(now_ms))
                &&& after.session.first_error == earliest(
                    state.session.first_error,
                    after.first_error->0,
                )
                &&& !(state.session.state is Stopped) ==> after.session.state is Failed
                &&& after.session.cleanup_complete == state.session.cleanup_complete
            }
            &&& after.stop_requested
            &&& after.phase == state.phase && after.quiesce_attempted == state.quiesce_attempted
                && after.quiesced == state.quiesced && after.handles_shutdown
                == state.handles_shutdown && after.drain_enabled == state.drain_enabled
                && after.finish_without_drain == state.finish_without_drain
        }),
{
}

/// What follows the reports of the workers: the companion is looked at while the session
/// runs; a stop freezes admission first, once; until the workers may drain the handles are
/// shut down; after that the workers are looked at.
pub proof fn stops_begin_with_a_freeze(state: SupervisorView, now_ms: u64)
    ensures
        ({
            let (after, step) = state.step(SupervisorEvent::NoMoreExits, now_ms);
            let freezes = state.stop_requested && !state.quiesce_attempted;
            &&& step.stop_answer is None && step.reload_answer is None
            &&& step.action is CheckHealth <==> !state.stop_requested
            &&& step.action is FreezeAdmission <==> freezes
            &&& step.action is ShutdownHandles <==> state.stop_requested && !freezes
                && !state.drain_enabled
            &&& step.action is InspectWorkers <==> state.stop_requested && !freezes
                && state.drain_enabled
            &&& after.phase is Health <==> step.action is CheckHealth
            &&& after.phase is Freeze <==> freezes
            &&& after.phase is Shutdown <==> step.action is ShutdownHandles
            &&& after.phase is Inspect <==> step.action is InspectWorkers
            &&& freezes ==> after.quiesce_attempted && !after.drain_enabled
                && !after.finish_without_drain && after.session.state is Stopping
            &&& !freezes ==> after == SupervisorView { phase: after.phase, ..state }
            &&& after.stop_requested == state.stop_requested && after.first_error
                == state.first_error && after.stop_deadline == state.stop_deadline && after.quiesced
                == state.quiesced && after.handles_shutdown == state.handles_shutdown
            &&& after.session.first_error == state.session.first_error
                && after.session.cleanup_complete == state.session.cleanup_complete
        }),
{
}

/// What freezing, quiescing and shutting down leave. A companion that quiesced is noted,
/// one that did not leaves its error. Handles that are shut down let the workers drain
/// exactly where the companion quiesced; a failure leaves its error and they are tried
/// again. A stop that has no limit gets fifteen seconds.
pub proof fn shutdowns_follow_the_quiesce(
    state: SupervisorView,
    result: Result<(), String>,
    now_ms: u64,
)
    ensures
        ({
            let (after, step) = state.step(SupervisorEvent::Frozen, now_ms);
            &&& step.action is Quiesce && after == SupervisorView {
                phase: SupervisorPhase::Quiesce,
                ..state
            }
        }),
        ({
            let (after, step) = state.step(SupervisorEvent::Quiesced(result), now_ms);
            &&& step.action is ShutdownHandles && after.phase is Shutdown
            &&& after.quiesced == (result is Ok || state.quiesced)
            &&& result is Ok ==> after.first_error == state.first_error
            &&& result matches Err(message) ==> after.first_error == earliest(
                state.first_error,
                "quiesce DNS companion: "@ + message@,
            )
            &&& after == SupervisorView {
                phase: after.phase,
                quiesced: after.quiesced,
                first_error: after.first_error,
                ..state
            }
        }),
        ({
            let (after, step) = state.step(SupervisorEvent::HandlesShutdown(result), now_ms);
            &&& step.action is InspectWorkers && after.phase is Inspect && after.stop_requested
            &&& after.handles_shutdown == (result is Ok || state.handles_shutdown)
            &&& result is Ok ==> after.drain_enabled == state.quiesced && after.first_error
                == state.first_error
            &&& result is Ok ==> after.finish_without_drain == (state.finish_without_drain
                || !state.quiesced)
            &&& result matches Err(message) ==> after.first_error == earliest(
                state.first_error,
                "shutdown DNS handles: "@ + message@,
            ) && after.drain_enabled == state.drain_enabled && after.finish_without_drain
                == state.finish_without_drain
            &&& state.stop_deadline is Some ==> after.stop_deadline == state.stop_deadline
            &&& state.stop_deadline is None ==> after.stop_deadline == Some(stop_limit(now_ms))
            &&& after.session == state.session && after.quiesced == state.quiesced
                && after.quiesce_attempted == state.quiesce_attempted
        }),
{
}

/// What is done once the workers were looked at: they are joined where all have ended and
/// the handles are shut down; where the limit has come everyone who waits is told so, and
/// the session says that its stop is pending; otherwise a command is awaited.
pub proof fn stops_are_reported_at_their_limit(state: SupervisorView, finished: bool, now_ms: u64)
    ensures
        ({
            let (after, step) = state.step(SupervisorEvent::Inspected { finished }, now_ms);
            let limit = if state.stop_deadline is Some {
                state.stop_deadline->0
            } else {
                stop_limit(now_ms)
            };
            let joins = finished && state.handles_shutdown;
            let late = !joins && limit <= now_ms;
            &&& step.action is JoinWorkers <==> joins
            &&& step.action is AwaitCommand <==> !joins
            &&& after.phase is Join <==> joins
            &&& after.phase is Command <==> !joins
            &&& step.stop_answer is Some <==> late
            &&& late ==> step.stop_answer == Some(
                Err::<(), Seq<char>>(
                    if state.first_error is Some {
                        state.first_error->0
                    } else {
                        "DNS interception workers did not stop before the bounded deadline"@
                    },
                ),
            )
            &&& step.reload_answer is None
            &&& late ==> after.stop_deadline is None && after.session.state is StopPending
            &&& !late ==> after.stop_deadline == Some(limit) && after.session == state.session
            &&& after.session.first_error == state.session.first_error
                && after.session.cleanup_complete == state.session.cleanup_complete
            &&& after == SupervisorView {
                phase: after.phase,
                stop_deadline: after.stop_deadline,
                session: after.session,
                ..state
            }
        }),
{
}

/// What joining and releasing leave: a panic, a failure that was told late and the error
/// of the session are noted, in that order, as far as none was before; then the handles
/// go, and the companion is stopped.
pub proof fn joins_note_what_was_missed(
    state: SupervisorView,
    panicked: Option<usize>,
    late: Option<(usize, String)>,
    now_ms: u64,
)
    ensures
        ({
            let (after, step) = state.step(SupervisorEvent::Joined { panicked, late }, now_ms);
            &&& step.action is ReleaseHandles && after.phase is Release
            &&& after == SupervisorView {
                phase: after.phase,
                first_error: after.first_error,
                ..state
            }
            &&& state.first_error is Some ==> after.first_error == state.first_error
            &&& state.first_error is None && panicked is Some ==> after.first_error == Some(
                "DNS interception worker "@ + decimal(panicked->0 as nat) + " panicked"@,
            )
            &&& state.first_error is None && panicked is None ==> (late matches Some((index, message))
                ==> after.first_error == Some("worker "@ + decimal(index as nat) + ": "@ + message@))
            &&& state.first_error is None && panicked is None && late is None ==> after.first_error
                == state.session.first_error
        }),
        ({
            let (after, step) = state.step(SupervisorEvent::HandlesReleased, now_ms);
            &&& step.action is StopCompanion && after == SupervisorView {
                phase: SupervisorPhase::StopCompanion,
                ..state
            }
        }),
{
}

/// What the end is: the cleanup is complete exactly where the companion was stopped. The
/// session has stopped, and everyone who waits is told so, exactly where no error was
/// noted; otherwise it has failed, with the first error.
pub proof fn sessions_end_with_their_first_error(
    state: SupervisorView,
    result: Result<(), String>,
    now_ms: u64,
)
    requires
        !state.session.cleanup_complete,
    ensures
        ({
            let (after, step) = state.step(SupervisorEvent::CompanionStopped(result), now_ms);
            let error = match result {
                Ok(_) => state.first_error,
                Err(message) => earliest(
                    state.first_error,
                    "stop DNS companion: "@ + message@,
                ),
            };
            &&& step.action is Finish && after.phase is Finished && step.reload_answer is None
            &&& after.first_error == error
            &&& after.session.cleanup_complete <==> result is Ok
            &&& error is None ==> after.session.state is Stopped && step.stop_answer == Some(
                Ok::<(), Seq<char>>(()),
            ) && after.session.first_error == state.session.first_error
            &&& error is Some ==> after.session.state is Failed && step.stop_answer == Some(
                Err::<(), Seq<char>>(error->0),
            ) && after.session.first_error == earliest(state.session.first_error, error->0)
            &&& after.stop_requested == state.stop_requested && after.handles_shutdown
                == state.handles_shutdown && after.quiesced == state.quiesced
        }),
{
}

/// What the health of the companion does: one that runs changes nothing; one that is gone,
/// or that cannot be looked at, makes the session fail and gives it fifteen seconds.
pub proof fn companions_must_stay(state: SupervisorView, result: Result<bool, String>, now_ms: u64)
    ensures
        ({
            let (after, step) = state.step(SupervisorEvent::Health(result), now_ms);
            let well = result is Ok && result->Ok_0;
            &&& step == StepView {
                action: SupervisorAction::AwaitCommand,
                stop_answer: None,
                reload_answer: None,
            }
            &&& well ==> after == SupervisorView { phase: SupervisorPhase::Command, ..state }
            &&& !well ==> {
                let noted = match result {
                    Ok(_) => "DNS companion disappeared while interception was active"@,
                    Err(message) => message@,
                };
                let told = match result {
                    Ok(_) => "DNS companion disappeared while interception was active"@,
                    Err(message) => "DNS companion health check failed: "@ + message@,
                };
                &&& after.phase is Command && after.stop_requested
                &&& after.stop_deadline == Some(stop_limit(now_ms))
                &&& after.first_error == earliest(state.first_error, noted)
                &&& after.session.first_error == earliest(state.session.first_error, told)
                &&& !(state.session.state is Stopped) ==> after.session.state is Failed
                &&& after.session.cleanup_complete == state.session.cleanup_complete
                &&& after.quiesce_attempted == state.quiesce_attempted && after.handles_shutdown
                    == state.handles_shutdown && after.drain_enabled == state.drain_enabled
            }
        }),
{
}

/// What commands do: a stop, or that nobody can command any more, requests the stop and
/// leaves a limit that runs alone; silence changes nothing; a reload is made exactly where
/// the session runs and is not to stop, and refused otherwise.
pub proof fn commands_are_taken(state: SupervisorView, now_ms: u64)
    ensures
        ({
            let (after, step) = state.step(SupervisorEvent::Stop, now_ms);
            &&& step.action is PollWorkers && step.stop_answer is None && step.reload_answer is None
            &&& after.phase is Workers && after.stop_requested
            &&& state.stop_deadline is Some ==> after.stop_deadline == state.stop_deadline
            &&& state.stop_deadline is None ==> after.stop_deadline == Some(stop_limit(now_ms))
            &&& after == SupervisorView {
                phase: after.phase,
                stop_requested: after.stop_requested,
                stop_deadline: after.stop_deadline,
                ..state
            }
        }),
        state.step(SupervisorEvent::Disconnected, now_ms) == state.step(
            SupervisorEvent::Stop,
            now_ms,
        ),
        state.step(SupervisorEvent::Quiet, now_ms).0 == (SupervisorView {
            phase: SupervisorPhase::Workers,
            ..state
        }),
        state.step(SupervisorEvent::Quiet, now_ms).1.action is PollWorkers,
        ({
            let (after, step) = state.step(SupervisorEvent::Reload, now_ms);
            let possible = !state.stop_requested && state.session.state is Running;
            &&& step.action is ReloadRules <==> possible
            &&& step.action is PollWorkers <==> !possible
            &&& after.phase is Reload <==> possible
            &&& after.phase is Workers <==> !possible
            &&& step.reload_answer is Some <==> !possible
            &&& !possible ==> step.reload_answer == Some(
                Err::<(), Seq<char>>(
                    "DNS rule reload requires a running session (state "@
                        + state.session.state.spec_name() + ")"@,
                ),
            )
            &&& step.stop_answer is None
            &&& after == SupervisorView { phase: after.phase, ..state }
        }),
{
}

/// What a reload leaves: it is answered as it went. Rules that were taken or rejected
/// change nothing; in doubt the session fails and is stopped.
pub proof fn doubtful_reloads_end_the_session(
    state: SupervisorView,
    result: Result<(), TransparentReloadError>,
    now_ms: u64,
)
    ensures
        ({
            let (after, step) = state.step(SupervisorEvent::Reloaded(result), now_ms);
            &&& step.action is PollWorkers && step.stop_answer is None && after.phase is Workers
            &&& match result {
                Ok(_) => step.reload_answer == Some(Ok::<(), Seq<char>>(())),
                Err(TransparentReloadError::Rejected(message)) => step.reload_answer == Some(
                    Err::<(), Seq<char>>(message@),
                ),
                Err(TransparentReloadError::Uncertain(message)) => {
                    &&& step.reload_answer == Some(Err::<(), Seq<char>>(message@))
                    &&& after.stop_requested && after.stop_deadline is Some
                    &&& state.stop_deadline is Some ==> after.stop_deadline == state.stop_deadline
                    &&& state.stop_deadline is None ==> after.stop_deadline == Some(
                        stop_limit(now_ms),
                    )
                    &&& after.first_error == earliest(state.first_error, message@)
                    &&& after.session.first_error == earliest(
                        state.session.first_error,
                        message@,
                    )
                    &&& !(state.session.state is Stopped) ==> after.session.state is Failed
                    &&& after.session.cleanup_complete == state.session.cleanup_complete
                },
            }
            &&& !(result is Err && result->Err_0 is Uncertain) ==> after == SupervisorView {
                phase: after.phase,
                ..state
            }
        }),
{
}

/// What the supervisor waits for is one thing at a time.
pub proof fn supervisors_wait_for_one_thing(state: SupervisorView, event: SupervisorEvent)
    ensures
        state.expects(event) <==> match state.phase {
            SupervisorPhase::Workers => event is WorkerExited || event is NoMoreExits,
            SupervisorPhase::Freeze => event is Frozen,
            SupervisorPhase::Quiesce => event is Quiesced,
            SupervisorPhase::Shutdown => event is HandlesShutdown,
            SupervisorPhase::Inspect => event is Inspected,
            SupervisorPhase::Join => event is Joined,
            SupervisorPhase::Release => event is HandlesReleased,
            SupervisorPhase::StopCompanion => event is CompanionStopped,
            SupervisorPhase::Health => event is Health,
            SupervisorPhase::Command => event is Stop || event is Reload || event is Quiet || event
                is Disconnected,
            SupervisorPhase::Reload => event is Reloaded,
            SupervisorPhase::Finished => false,
        },
{
}

} // verus!
