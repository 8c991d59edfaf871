//! How a session starts, how a start that fails is undone, and what those who ask
//! for a reload or a stop are told.

use crate::dns_flow::deadline_of;
use crate::dns_session::{
    join_errors, joined_errors, text_option, DnsSessionState, INTERNAL_STOP_TIMEOUT_MS,
};
use crate::dns_supervisor::{reload_refusal, reload_refusal_message, result_view};
use crate::text::{decimal, decimal_text, join, join3, join4};
use vstd::prelude::*;
use vstd::string::*;

verus! {

/// Several errors in one message.
pub open spec fn more_errors(errors: Option<Seq<char>>, message: Seq<char>) -> Option<Seq<char>> {
    match errors {
        None => Some(message),
        Some(text) => Some(text + "; "@ + message),
    }
}

fn add_error(errors: &mut Option<String>, message: String)
    ensures
        text_option(*final(errors)) == more_errors(text_option(*old(errors)), message@),
{
    match errors.take() {
        None => {
            *errors = Some(message);
        },
        Some(text) => {
            *errors = Some(join3(text.as_str(), "; ", message.as_str()));
        },
    }
}

/// What undoing a start waits for.
#[derive(Clone, Copy, Debug, PartialEq, Eq, Structural)]
pub enum RollbackPhase {
    Freeze,
    Quiesce,
    Shutdown,
    /// A pause before the handles are shut down again.
    ShutdownPause,
    Release,
    Drain,
    Wait,
    /// A pause before the workers are looked at again.
    WaitPause,
    Join,
    ReleaseHandles,
    StopCompanion,
    /// It has ended, or someone else goes on with it.
    Finished,
}

/// What happened while a start is undone.
#[derive(Debug, PartialEq, Eq)]
pub enum RollbackEvent {
    /// Nothing is admitted any more.
    Frozen,
    Quiesced(Result<(), String>),
    HandlesShutdown(Result<(), String>),
    /// A pause is over.
    Paused,
    /// The workers were released.
    Released,
    /// The handle without a worker was drained, or not.
    Drained(Result<(), String>),
    /// Whether every worker has ended.
    Workers { finished: bool },
    /// A worker was joined, and had panicked or not.
    Joined { index: usize, panicked: bool },
    /// Every worker was joined.
    AllJoined,
    /// The handles were dropped.
    HandlesReleased,
    CompanionStopped(Result<(), String>),
}

/// What the caller does next to undo a start.
#[derive(Clone, Copy, Debug, PartialEq, Eq, Structural)]
pub enum RollbackAction {
    FreezeAdmission,
    Quiesce,
    ShutdownHandles,
    /// Waits a little.
    Pause,
    /// Lets the workers drain, or end without that.
    ReleaseWorkers { drain: bool },
    /// Drains the handle at this index, which has no worker.
    DrainUnstarted(usize),
    LookAtWorkers,
    JoinWorkers,
    /// Drops the handles.
    ReleaseHandles,
    StopCompanion,
    /// Someone in the background keeps the handles and the companion, and goes on
    /// until both can be released.
    Detach { handles_shutdown: bool },
    Finish,
}

/// How far undoing a start has come.
#[derive(Debug, PartialEq, Eq)]
pub struct Rollback {
    phase: RollbackPhase,
    handles: usize,
    undrained: usize,
    deadline: u64,
    errors: Option<String>,
    frozen: bool,
    quiesced: bool,
    handles_shutdown: bool,
    released: bool,
    cleanup_confirmed: bool,
}

/// How far undoing a start has come, as mathematical values.
pub ghost struct RollbackView {
    pub phase: RollbackPhase,
    /// How many handles are open.
    pub handles: int,
    /// The first handle without a worker that was not drained.
    pub undrained: int,
    /// When the handles or the workers are given up.
    pub deadline: u64,
    pub errors: Option<Seq<char>>,
    pub frozen: bool,
    pub quiesced: bool,
    pub handles_shutdown: bool,
    /// Whether the workers were released.
    pub released: bool,
    pub cleanup_confirmed: bool,
}

impl RollbackView {
    pub open spec fn with_error(self, message: Seq<char>) -> RollbackView {
        RollbackView { errors: more_errors(self.errors, message), ..self }
    }

    /// Whether an event is one that is waited for.
    pub open spec fn expects(self, event: RollbackEvent) -> bool {
        match event {
            RollbackEvent::Frozen => self.phase == RollbackPhase::Freeze,
            RollbackEvent::Quiesced(_) => self.phase == RollbackPhase::Quiesce,
            RollbackEvent::HandlesShutdown(_) => self.phase == RollbackPhase::Shutdown,
            RollbackEvent::Paused => self.phase == RollbackPhase::ShutdownPause || self.phase
                == RollbackPhase::WaitPause,
            RollbackEvent::Released => self.phase == RollbackPhase::Release,
            RollbackEvent::Drained(_) => self.phase == RollbackPhase::Drain,
            RollbackEvent::Workers { .. } => self.phase == RollbackPhase::Wait,
            RollbackEvent::Joined { .. } => self.phase == RollbackPhase::Join,
            RollbackEvent::AllJoined => self.phase == RollbackPhase::Join,
            RollbackEvent::HandlesReleased => self.phase == RollbackPhase::ReleaseHandles,
            RollbackEvent::CompanionStopped(_) => self.phase == RollbackPhase::StopCompanion,
        }
    }

    /// The rollback that waits for the workers from now on.
    pub open spec fn waiting(self, now_ms: u64) -> (RollbackView, RollbackAction) {
        (
            RollbackView {
                phase: RollbackPhase::Wait,
                deadline: deadline_of(now_ms, INTERNAL_STOP_TIMEOUT_MS),
                ..self
            },
            RollbackAction::LookAtWorkers,
        )
    }

    /// The rollback that drains the next handle without a worker, or goes on after the
    /// last.
    pub open spec fn draining(self, now_ms: u64) -> (RollbackView, RollbackAction) {
        if self.undrained < self.handles {
            (
                RollbackView { phase: RollbackPhase::Drain, ..self },
                RollbackAction::DrainUnstarted(self.undrained as usize),
            )
        } else {
            self.waiting(now_ms)
        }
    }

    /// The rollback that someone else goes on with.
    pub open spec fn detached(self) -> (RollbackView, RollbackAction) {
        (
            RollbackView { phase: RollbackPhase::Finished, ..self },
            RollbackAction::Detach { handles_shutdown: self.handles_shutdown },
        )
    }

    /// What an event does, and what comes next. Handles without a worker are
    /// drained only where the companion quiesced.
    pub open spec fn step(self, event: RollbackEvent, now_ms: u64) -> (
        RollbackView,
        RollbackAction,
    ) {
        match event {
            RollbackEvent::Frozen => (
                RollbackView { phase: RollbackPhase::Quiesce, frozen: true, ..self },
                RollbackAction::Quiesce,
            ),
            RollbackEvent::Quiesced(result) => {
                let noted = match result {
                    Ok(()) => RollbackView { quiesced: true, ..self },
                    Err(message) => self.with_error("quiesce DNS companion: "@ + message@),
                };
                (
                    RollbackView {
                        phase: RollbackPhase::Shutdown,
                        deadline: deadline_of(now_ms, INTERNAL_STOP_TIMEOUT_MS),
                        ..noted
                    },
                    RollbackAction::ShutdownHandles,
                )
            },
            RollbackEvent::HandlesShutdown(result) => match result {
                Err(message) => (
                    RollbackView {
                        phase: RollbackPhase::ShutdownPause,
                        ..self.with_error("shutdown DNS handles: "@ + message@)
                    },
                    RollbackAction::Pause,
                ),
                Ok(()) => (
                    RollbackView {
                        phase: RollbackPhase::Release,
                        handles_shutdown: true,
                        ..self
                    },
                    RollbackAction::ReleaseWorkers { drain: self.quiesced },
                ),
            },
            RollbackEvent::Paused => if self.phase == RollbackPhase::WaitPause {
                (
                    RollbackView { phase: RollbackPhase::Wait, ..self },
                    RollbackAction::LookAtWorkers,
                )
            } else if now_ms < self.deadline {
                (
                    RollbackView { phase: RollbackPhase::Shutdown, ..self },
                    RollbackAction::ShutdownHandles,
                )
            } else {
                self.detached()
            },
            RollbackEvent::Released => {
                let released = RollbackView { released: true, ..self };
                if self.quiesced {
                    released.draining(now_ms)
                } else {
                    released.waiting(now_ms)
                }
            },
            RollbackEvent::Drained(result) => {
                let noted = match result {
                    Ok(()) => self,
                    Err(message) => self.with_error(
                        "drain unstarted handle "@ + decimal(self.undrained as nat) + ": "@
                            + message@,
                    ),
                };
                RollbackView { undrained: self.undrained + 1, ..noted }.draining(now_ms)
            },
            RollbackEvent::Workers { finished } => if finished {
                (
                    RollbackView { phase: RollbackPhase::Join, ..self },
                    RollbackAction::JoinWorkers,
                )
            } else if now_ms < self.deadline {
                (RollbackView { phase: RollbackPhase::WaitPause, ..self }, RollbackAction::Pause)
            } else {
                self.with_error(
                    "DNS interception workers did not stop during startup rollback"@,
                ).detached()
            },
            RollbackEvent::Joined { index, panicked } => (
                if panicked {
                    self.with_error(
                        "DNS interception worker "@ + decimal(index as nat) + " panicked"@,
                    )
                } else {
                    self
                },
                RollbackAction::JoinWorkers,
            ),
            RollbackEvent::AllJoined => (
                RollbackView { phase: RollbackPhase::ReleaseHandles, ..self },
                RollbackAction::ReleaseHandles,
            ),
            RollbackEvent::HandlesReleased => (
                RollbackView { phase: RollbackPhase::StopCompanion, ..self },
                RollbackAction::StopCompanion,
            ),
            RollbackEvent::CompanionStopped(result) => (
                RollbackView {
                    phase: RollbackPhase::Finished,
                    ..match result {
                        Ok(()) => RollbackView { cleanup_confirmed: true, ..self },
                        Err(message) => self.with_error("stop DNS companion: "@ + message@),
                    }
                },
                RollbackAction::Finish,
            ),
        }
    }

    /// What holds of every rollback: the companion quiesces only once nothing is
    /// admitted, the workers are released only once every handle has stopped receiving,
    /// and nothing else is before them.
    pub open spec fn valid(self) -> bool {
        &&& 0 <= self.undrained <= self.handles <= usize::MAX
        &&& self.phase != RollbackPhase::Freeze ==> self.frozen
        &&& (self.phase == RollbackPhase::Release || self.phase == RollbackPhase::Drain
            || self.phase == RollbackPhase::Wait || self.phase == RollbackPhase::WaitPause
            || self.phase == RollbackPhase::Join || self.phase == RollbackPhase::ReleaseHandles
            || self.phase == RollbackPhase::StopCompanion) ==> self.handles_shutdown
        &&& (self.phase == RollbackPhase::Drain || self.phase == RollbackPhase::Wait || self.phase
            == RollbackPhase::WaitPause || self.phase == RollbackPhase::Join || self.phase
            == RollbackPhase::ReleaseHandles || self.phase == RollbackPhase::StopCompanion)
            ==> self.released
        &&& self.phase == RollbackPhase::Drain ==> self.quiesced && self.undrained < self.handles
        &&& self.quiesced ==> self.frozen
        &&& self.released ==> self.handles_shutdown
        &&& self.cleanup_confirmed ==> self.handles_shutdown && self.released && self.phase
            == RollbackPhase::Finished
        &&& self.handles_shutdown ==> self.phase != RollbackPhase::Freeze && self.phase
            != RollbackPhase::Quiesce && self.phase != RollbackPhase::Shutdown && self.phase
            != RollbackPhase::ShutdownPause
    }
}

/// Every event of a rollback keeps its order. The companion quiesces only once nothing
/// is admitted; the workers are released once every handle has stopped receiving, to
/// drain where the companion quiesced; the handles are dropped only once the workers
/// were joined; and the companion is stopped only after that. The handles and the workers are given up only at the deadline,
/// which is so long after the wait for them began.
pub proof fn rollback_order_is_kept(state: RollbackView, event: RollbackEvent, now_ms: u64)
    requires
        state.valid(),
        state.expects(event),
    ensures
        state.step(event, now_ms).0.valid(),
        state.step(event, now_ms).1 == RollbackAction::Quiesce ==> state.step(event, now_ms).0.frozen
            && event == RollbackEvent::Frozen,
        state.step(event, now_ms).1 == RollbackAction::ShutdownHandles ==> state.frozen,
        state.step(event, now_ms).1 matches RollbackAction::ReleaseWorkers { drain } ==> drain
            == state.quiesced && state.step(event, now_ms).0.handles_shutdown,
        state.step(event, now_ms).1 == RollbackAction::ReleaseHandles ==> state.handles_shutdown
            && state.released && event == RollbackEvent::AllJoined,
        state.step(event, now_ms).1 == RollbackAction::StopCompanion ==> state.handles_shutdown
            && event == RollbackEvent::HandlesReleased,
        state.step(event, now_ms).1 is DrainUnstarted ==> state.step(event, now_ms).0.quiesced
            && state.step(event, now_ms).0.handles_shutdown && state.step(event, now_ms).0.released,
        state.step(event, now_ms).1 is Detach ==> now_ms >= state.deadline,
        event is Quiesced ==> state.step(event, now_ms).0.deadline == deadline_of(
            now_ms,
            INTERNAL_STOP_TIMEOUT_MS,
        ),
        state.step(event, now_ms).0.phase == RollbackPhase::Wait && state.phase
            != RollbackPhase::WaitPause ==> state.step(event, now_ms).0.deadline == deadline_of(
            now_ms,
            INTERNAL_STOP_TIMEOUT_MS,
        ),
        state.phase == RollbackPhase::Shutdown || state.phase == RollbackPhase::WaitPause
            || event is Workers ==> state.step(event, now_ms).0.deadline == state.deadline,
        state.quiesced ==> state.step(event, now_ms).0.quiesced,
{
}

impl Rollback {
    pub closed spec fn view(&self) -> RollbackView {
        RollbackView {
            phase: self.phase,
            handles: self.handles as int,
            undrained: self.undrained as int,
            deadline: self.deadline,
            errors: text_option(self.errors),
            frozen: self.frozen,
            quiesced: self.quiesced,
            handles_shutdown: self.handles_shutdown,
            released: self.released,
            cleanup_confirmed: self.cleanup_confirmed,
        }
    }

    /// Begins with so many handles, of which so many have a worker; admission is frozen
    /// first.
    pub fn new(handles: usize, workers: usize) -> (result: (Self, RollbackAction))
        requires
            workers <= handles,
        ensures
            result.0@.valid(),
            result.0@ == (RollbackView {
                phase: RollbackPhase::Freeze,
                handles: handles as int,
                undrained: workers as int,
                deadline: 0,
                errors: None,
                frozen: false,
                quiesced: false,
                handles_shutdown: false,
                released: false,
                cleanup_confirmed: false,
            }),
            result.1 == RollbackAction::FreezeAdmission,
    {
        (
            Rollback {
                phase: RollbackPhase::Freeze,
                handles,
                undrained: workers,
                deadline: 0,
                errors: None,
                frozen: false,
                quiesced: false,
                handles_shutdown: false,
                released: false,
                cleanup_confirmed: false,
            },
            RollbackAction::FreezeAdmission,
        )
    }

    /// Whether the companion quiesced: the workers may drain then.
    pub fn quiesced(&self) -> (result: bool)
        ensures
            result == self@.quiesced,
    {
        self.quiesced
    }

    /// Whether everything was released.
    pub fn cleanup_confirmed(&self) -> (result: bool)
        ensures
            result == self@.cleanup_confirmed,
    {
        self.cleanup_confirmed
    }

    fn wait(&mut self, now_ms: u64) -> (result: RollbackAction)
        ensures
            (final(self)@, result) == old(self)@.waiting(now_ms),
    {
        self.phase = RollbackPhase::Wait;
        self.deadline = now_ms.saturating_add(INTERNAL_STOP_TIMEOUT_MS);
        RollbackAction::LookAtWorkers
    }

    fn drain_next(&mut self, now_ms: u64) -> (result: RollbackAction)
        ensures
            (final(self)@, result) == old(self)@.draining(now_ms),
    {
        if self.undrained < self.handles {
            self.phase = RollbackPhase::Drain;
            RollbackAction::DrainUnstarted(self.undrained)
        } else {
            self.wait(now_ms)
        }
    }

    fn detach(&mut self) -> (result: RollbackAction)
        ensures
            (final(self)@, result) == old(self)@.detached(),
    {
        self.phase = RollbackPhase::Finished;
        RollbackAction::Detach { handles_shutdown: self.handles_shutdown }
    }

    /// Takes an event that is waited for, and the time.
    pub fn step(&mut self, event: RollbackEvent, now_ms: u64) -> (result: RollbackAction)
        requires
            old(self)@.valid(),
            old(self)@.expects(event),
        ensures
            final(self)@.valid(),
            (final(self)@, result) == old(self)@.step(event, now_ms),
    {
        proof {
            rollback_order_is_kept(self@, event, now_ms);
        }
        match event {
            RollbackEvent::Frozen => {
                self.frozen = true;
                self.phase = RollbackPhase::Quiesce;
                RollbackAction::Quiesce
            },
            RollbackEvent::Quiesced(result) => {
                match result {
                    Ok(()) => {
                        self.quiesced = true;
                    },
                    Err(message) => {
                        add_error(
                            &mut self.errors,
                            join("quiesce DNS companion: ", message.as_str()),
                        );
                    },
                }
                self.phase = RollbackPhase::Shutdown;
                self.deadline = now_ms.saturating_add(INTERNAL_STOP_TIMEOUT_MS);
                RollbackAction::ShutdownHandles
            },
            RollbackEvent::HandlesShutdown(result) => match result {
                Err(message) => {
                    add_error(&mut self.errors, join("shutdown DNS handles: ", message.as_str()));
                    self.phase = RollbackPhase::ShutdownPause;
                    RollbackAction::Pause
                },
                Ok(()) => {
                    self.handles_shutdown = true;
                    self.phase = RollbackPhase::Release;
                    RollbackAction::ReleaseWorkers { drain: self.quiesced }
                },
            },
            RollbackEvent::Paused => {
                if self.phase == RollbackPhase::WaitPause {
                    self.phase = RollbackPhase::Wait;
                    RollbackAction::LookAtWorkers
                } else if now_ms < self.deadline {
                    self.phase = RollbackPhase::Shutdown;
                    RollbackAction::ShutdownHandles
                } else {
                    self.detach()
                }
            },
            RollbackEvent::Released => {
                self.released = true;
                if self.quiesced {
                    self.drain_next(now_ms)
                } else {
                    self.wait(now_ms)
                }
            },
            RollbackEvent::Drained(result) => {
                match result {
                    Ok(()) => {},
                    Err(message) => {
                        add_error(
                            &mut self.errors,
                            join4(
                                "drain unstarted handle ",
                                decimal_text(self.undrained as u64).as_str(),
                                ": ",
                                message.as_str(),
                            ),
                        );
                    },
                }
                self.undrained = self.undrained + 1;
                self.drain_next(now_ms)
            },
            RollbackEvent::Workers { finished } => {
                if finished {
                    self.phase = RollbackPhase::Join;
                    RollbackAction::JoinWorkers
                } else if now_ms < self.deadline {
                    self.phase = RollbackPhase::WaitPause;
                    RollbackAction::Pause
                } else {
                    add_error(
                        &mut self.errors,
                        "DNS interception workers did not stop during startup rollback".to_owned(),
                    );
                    self.detach()
                }
            },
            RollbackEvent::Joined { index, panicked } => {
                if panicked {
                    add_error(
                        &mut self.errors,
                        join3(
                            "DNS interception worker ",
                            decimal_text(index as u64).as_str(),
                            " panicked",
                        ),
                    );
                }
                RollbackAction::JoinWorkers
            },
            RollbackEvent::AllJoined => {
                self.phase = RollbackPhase::ReleaseHandles;
                RollbackAction::ReleaseHandles
            },
            RollbackEvent::HandlesReleased => {
                self.phase = RollbackPhase::StopCompanion;
                RollbackAction::StopCompanion
            },
            RollbackEvent::CompanionStopped(result) => {
                match result {
                    Ok(()) => {
                        self.cleanup_confirmed = true;
                    },
                    Err(message) => {
                        add_error(
                            &mut self.errors,
                            join("stop DNS companion: ", message.as_str()),
                        );
                    },
                }
                self.phase = RollbackPhase::Finished;
                RollbackAction::Finish
            },
        }
    }

    /// What undoing the start came to.
    pub fn outcome(self) -> (result: Result<(), String>)
        ensures
            result is Ok <==> self@.errors is None,
            result matches Err(message) ==> self@.errors == Some(message@),
    {
        match self.errors {
            None => Ok(()),
            Some(message) => Err(message),
        }
    }
}

/// What a start waits for.
#[derive(Clone, Copy, Debug, PartialEq, Eq, Structural)]
pub enum StartPhase {
    Companion,
    Router,
    Open,
    Quiesce,
    Cleanup,
    ReleaseHandles,
    StopCompanion,
    Spawn,
    Publish,
    Supervisor,
    /// For the session to be marked as failed.
    Fail,
    Rollback,
    Finished,
}

/// What happened while a session starts.
#[derive(Debug, PartialEq, Eq)]
pub enum StartEvent {
    Companion(Result<(), String>),
    /// The router was made, with this number of filters.
    Router(Result<usize, String>),
    Opened(Result<(), String>),
    Quiesced(Result<(), String>),
    /// The handles that were opened have stopped receiving, or not all of them.
    Cleaned(Result<(), String>),
    /// The handles that were opened were dropped.
    HandlesReleased,
    CompanionStopped(Result<(), String>),
    Spawned(Result<(), String>),
    /// The session is published as running.
    Published,
    Supervised(Result<(), String>),
    /// The session is marked as failed.
    Failed,
    RolledBack(Result<(), String>),
}

/// What the caller does next to start a session.
#[derive(Clone, Copy, Debug, PartialEq, Eq, Structural)]
pub enum StartAction {
    MakeRouter,
    OpenHandle(usize),
    Quiesce,
    /// Shuts the opened handles down; drains them where the companion quiesced.
    CleanupHandles { drain: bool },
    /// Drops the opened handles.
    ReleaseHandles,
    StopCompanion,
    /// Someone in the background keeps the handles and the companion, and goes on
    /// until both can be released.
    DetachCleanup { drain: bool },
    SpawnWorker(usize),
    /// Publishes the session as running; packets are admitted from then on.
    PublishRunning,
    SpawnSupervisor,
    /// Marks the session as failed, with what went wrong.
    FailSession,
    Rollback,
    Finish,
}

/// How far a start has come.
#[derive(Debug, PartialEq, Eq)]
pub struct Startup {
    phase: StartPhase,
    filters: usize,
    opened: usize,
    spawned: usize,
    failure: Option<String>,
    quiesce_error: Option<String>,
    handles_shutdown: bool,
    published: bool,
    cleanup_confirmed: bool,
}

/// How far a start has come, as mathematical values.
pub ghost struct StartView {
    pub phase: StartPhase,
    pub filters: int,
    pub opened: int,
    pub spawned: int,
    pub failure: Option<Seq<char>>,
    pub quiesce_error: Option<Seq<char>>,
    pub handles_shutdown: bool,
    /// Whether the session was published as running.
    pub published: bool,
    pub cleanup_confirmed: bool,
}

/// What is said of a handle that could not be opened.
pub open spec fn open_failure(index: nat, message: Seq<char>) -> Seq<char> {
    "open DNS interception handle "@ + decimal(index) + ": "@ + message
}

/// What is said of a worker that could not be started.
pub open spec fn spawn_failure(index: nat, message: Seq<char>) -> Seq<char> {
    "start DNS interception worker "@ + decimal(index) + ": "@ + message
}

impl StartView {
    /// Whether an event is one that is waited for.
    pub open spec fn expects(self, event: StartEvent) -> bool {
        match event {
            StartEvent::Companion(_) => self.phase == StartPhase::Companion,
            StartEvent::Router(_) => self.phase == StartPhase::Router,
            StartEvent::Opened(_) => self.phase == StartPhase::Open,
            StartEvent::Quiesced(_) => self.phase == StartPhase::Quiesce,
            StartEvent::Cleaned(_) => self.phase == StartPhase::Cleanup,
            StartEvent::HandlesReleased => self.phase == StartPhase::ReleaseHandles,
            StartEvent::CompanionStopped(_) => self.phase == StartPhase::StopCompanion,
            StartEvent::Spawned(_) => self.phase == StartPhase::Spawn,
            StartEvent::Published => self.phase == StartPhase::Publish,
            StartEvent::Failed => self.phase == StartPhase::Fail,
            StartEvent::Supervised(_) => self.phase == StartPhase::Supervisor,
            StartEvent::RolledBack(_) => self.phase == StartPhase::Rollback,
        }
    }

    /// The start once `opened` handles are open.
    pub open spec fn opening(self, opened: int) -> (StartView, StartAction) {
        if opened < self.filters {
            (
                StartView { phase: StartPhase::Open, opened, ..self },
                StartAction::OpenHandle(opened as usize),
            )
        } else {
            StartView { opened, ..self }.spawning(0)
        }
    }

    /// The start once `spawned` workers run.
    pub open spec fn spawning(self, spawned: int) -> (StartView, StartAction) {
        if spawned < self.opened {
            (
                StartView { phase: StartPhase::Spawn, spawned, ..self },
                StartAction::SpawnWorker(spawned as usize),
            )
        } else {
            (
                StartView { phase: StartPhase::Publish, spawned, ..self },
                StartAction::PublishRunning,
            )
        }
    }

    /// The start once nothing is left but to stop the companion.
    pub open spec fn abandoned(self, message: Seq<char>) -> (StartView, StartAction) {
        (
            StartView { phase: StartPhase::StopCompanion, failure: Some(message), ..self },
            StartAction::StopCompanion,
        )
    }

    /// What an event does, and what comes next.
    pub open spec fn step(self, event: StartEvent) -> (StartView, StartAction) {
        match event {
            StartEvent::Companion(result) => match result {
                Ok(()) => (
                    StartView { phase: StartPhase::Router, ..self },
                    StartAction::MakeRouter,
                ),
                Err(message) => self.abandoned(message@),
            },
            StartEvent::Router(result) => match result {
                Ok(filters) => StartView { filters: filters as int, ..self }.opening(0),
                Err(message) => self.abandoned(message@),
            },
            StartEvent::Opened(result) => match result {
                Ok(()) => self.opening(self.opened + 1),
                Err(message) => (
                    StartView {
                        phase: StartPhase::Quiesce,
                        failure: Some(open_failure(self.opened as nat, message@)),
                        ..self
                    },
                    StartAction::Quiesce,
                ),
            },
            StartEvent::Quiesced(result) => (
                StartView {
                    phase: StartPhase::Cleanup,
                    quiesce_error: match result {
                        Ok(()) => None,
                        Err(message) => Some(message@),
                    },
                    ..self
                },
                StartAction::CleanupHandles { drain: result is Ok },
            ),
            StartEvent::Cleaned(result) => match result {
                Ok(()) => (
                    StartView {
                        phase: StartPhase::ReleaseHandles,
                        handles_shutdown: true,
                        ..self
                    },
                    StartAction::ReleaseHandles,
                ),
                Err(message) => (
                    StartView {
                        phase: StartPhase::Finished,
                        failure: Some(
                            joined_errors(
                                self.failure->0,
                                Some(joined_errors(message@, self.quiesce_error)),
                            ),
                        ),
                        ..self
                    },
                    StartAction::DetachCleanup { drain: self.quiesce_error is None },
                ),
            },
            StartEvent::HandlesReleased => (
                StartView { phase: StartPhase::StopCompanion, ..self },
                StartAction::StopCompanion,
            ),
            StartEvent::CompanionStopped(result) => (
                StartView {
                    phase: StartPhase::Finished,
                    cleanup_confirmed: result is Ok,
                    failure: Some(
                        joined_errors(
                            self.failure->0,
                            if self.quiesce_error is Some {
                                self.quiesce_error
                            } else {
                                match result {
                                    Ok(()) => None,
                                    Err(message) => Some(message@),
                                }
                            },
                        ),
                    ),
                    ..self
                },
                StartAction::Finish,
            ),
            StartEvent::Spawned(result) => match result {
                Ok(()) => self.spawning(self.spawned + 1),
                Err(message) => (
                    StartView {
                        phase: StartPhase::Fail,
                        failure: Some(spawn_failure(self.spawned as nat, message@)),
                        ..self
                    },
                    StartAction::FailSession,
                ),
            },
            StartEvent::Failed => (
                StartView { phase: StartPhase::Rollback, ..self },
                StartAction::Rollback,
            ),
            StartEvent::Published => (
                StartView { phase: StartPhase::Supervisor, published: true, ..self },
                StartAction::SpawnSupervisor,
            ),
            StartEvent::Supervised(result) => match result {
                Ok(()) => (
                    StartView { phase: StartPhase::Finished, ..self },
                    StartAction::Finish,
                ),
                Err(message) => (
                    StartView {
                        phase: StartPhase::Rollback,
                        failure: Some("start DNS session supervisor: "@ + message@),
                        ..self
                    },
                    StartAction::Rollback,
                ),
            },
            StartEvent::RolledBack(result) => (
                StartView {
                    phase: StartPhase::Finished,
                    failure: Some(
                        joined_errors(
                            self.failure->0,
                            match result {
                                Ok(()) => None,
                                Err(message) => Some(message@),
                            },
                        ),
                    ),
                    ..self
                },
                StartAction::Finish,
            ),
        }
    }

    /// What holds of every start: handles are opened one by one, a worker runs for
    /// each only once all are open, the session is published as running only once all
    /// workers run, a session that did not start is marked so before it is undone, and
    /// the companion of opened handles is stopped
    /// only once they have stopped receiving.
    pub open spec fn valid(self) -> bool {
        &&& 0 <= self.spawned <= self.opened <= self.filters <= usize::MAX
        &&& self.spawned > 0 ==> self.opened == self.filters
        &&& (self.phase == StartPhase::Companion || self.phase == StartPhase::Router) ==> self.opened
            == 0
        &&& self.phase == StartPhase::Open ==> self.opened < self.filters
        &&& self.phase == StartPhase::Spawn ==> self.spawned < self.opened && self.opened
            == self.filters
        &&& self.phase == StartPhase::Publish ==> self.spawned == self.opened && self.opened
            == self.filters && !self.published
        &&& self.phase == StartPhase::Supervisor ==> self.published
        &&& self.published ==> self.spawned == self.opened && self.opened == self.filters
        &&& self.published ==> self.phase == StartPhase::Supervisor || self.phase
            == StartPhase::Rollback || self.phase == StartPhase::Finished
        &&& self.phase == StartPhase::ReleaseHandles ==> self.handles_shutdown
        &&& self.phase == StartPhase::StopCompanion ==> self.opened == 0 || self.handles_shutdown
        &&& (self.phase == StartPhase::Quiesce || self.phase == StartPhase::Cleanup || self.phase
            == StartPhase::ReleaseHandles || self.phase == StartPhase::StopCompanion || self.phase == StartPhase::Fail || self.phase
            == StartPhase::Rollback) ==> self.failure is Some
        &&& self.failure is None && self.phase == StartPhase::Finished ==> self.published
        &&& (self.phase == StartPhase::Companion || self.phase == StartPhase::Router || self.phase
            == StartPhase::Open || self.phase == StartPhase::Spawn || self.phase
            == StartPhase::Publish || self.phase == StartPhase::Supervisor) ==> self.failure is None
    }
}

/// Every event of a start keeps its order. A session is published as running only once
/// a worker runs for every filter, and supervised only then; a start succeeds only so;
/// and the companion is stopped only where no handle was opened, or once all have
/// stopped receiving and were dropped.
pub proof fn start_order_is_kept(state: StartView, event: StartEvent)
    requires
        state.valid(),
        state.expects(event),
    ensures
        state.step(event).0.valid(),
        state.step(event).1 == StartAction::StopCompanion ==> state.opened == 0 || (
        state.handles_shutdown && event == StartEvent::HandlesReleased),
        state.step(event).1 == StartAction::ReleaseHandles ==> state.step(event).0.handles_shutdown,
        state.step(event).1 == StartAction::PublishRunning ==> state.step(event).0.spawned
            == state.step(event).0.filters && !state.published,
        state.step(event).0.published && !state.published ==> event == StartEvent::Published,
        state.step(event).1 == StartAction::SpawnSupervisor ==> state.step(event).0.published,
        state.step(event).1 == StartAction::Finish && state.step(event).0.failure is None ==> state.step(
            event,
        ).0.published && state.step(event).0.spawned == state.step(event).0.filters,
        event matches StartEvent::Spawned(Err(_)) ==> state.step(event).1
            == StartAction::FailSession,
{
}

impl Startup {
    pub closed spec fn view(&self) -> StartView {
        StartView {
            phase: self.phase,
            filters: self.filters as int,
            opened: self.opened as int,
            spawned: self.spawned as int,
            failure: text_option(self.failure),
            quiesce_error: text_option(self.quiesce_error),
            handles_shutdown: self.handles_shutdown,
            published: self.published,
            cleanup_confirmed: self.cleanup_confirmed,
        }
    }

    /// Begins once the generation is owned; the companion is started first.
    pub fn new() -> (result: Self)
        ensures
            result@.valid(),
            result@ == (StartView {
                phase: StartPhase::Companion,
                filters: 0,
                opened: 0,
                spawned: 0,
                failure: None,
                quiesce_error: None,
                handles_shutdown: false,
                published: false,
                cleanup_confirmed: false,
            }),
    {
        Startup {
            phase: StartPhase::Companion,
            filters: 0,
            opened: 0,
            spawned: 0,
            failure: None,
            quiesce_error: None,
            handles_shutdown: false,
            published: false,
            cleanup_confirmed: false,
        }
    }

    /// Whether everything was released after a failure.
    pub fn cleanup_confirmed(&self) -> (result: bool)
        ensures
            result == self@.cleanup_confirmed,
    {
        self.cleanup_confirmed
    }

    /// What went wrong, while that is known.
    pub fn failure(&self) -> (result: Option<String>)
        ensures
            text_option(result) == self@.failure,
    {
        match &self.failure {
            Some(message) => Some(message.clone()),
            None => None,
        }
    }

    fn open_next(&mut self) -> (result: StartAction)
        ensures
            (final(self)@, result) == old(self)@.opening(old(self)@.opened),
    {
        if self.opened < self.filters {
            self.phase = StartPhase::Open;
            StartAction::OpenHandle(self.opened)
        } else {
            self.spawned = 0;
            self.spawn_next()
        }
    }

    fn spawn_next(&mut self) -> (result: StartAction)
        ensures
            (final(self)@, result) == old(self)@.spawning(old(self)@.spawned),
    {
        if self.spawned < self.opened {
            self.phase = StartPhase::Spawn;
            StartAction::SpawnWorker(self.spawned)
        } else {
            self.phase = StartPhase::Publish;
            StartAction::PublishRunning
        }
    }

    fn take_failure(&mut self) -> (result: String)
        requires
            old(self)@.failure is Some,
        ensures
            result@ == old(self)@.failure->0,
            final(self)@ == (StartView { failure: None, ..old(self)@ }),
    {
        match self.failure.take() {
            Some(message) => message,
            None => String::new(),
        }
    }

    /// Takes an event that is waited for.
    pub fn step(&mut self, event: StartEvent) -> (result: StartAction)
        requires
            old(self)@.valid(),
            old(self)@.expects(event),
        ensures
            final(self)@.valid(),
            (final(self)@, result) == old(self)@.step(event),
    {
        proof {
            start_order_is_kept(self@, event);
        }
        match event {
            StartEvent::Companion(result) => match result {
                Ok(()) => {
                    self.phase = StartPhase::Router;
                    StartAction::MakeRouter
                },
                Err(message) => {
                    self.phase = StartPhase::StopCompanion;
                    self.failure = Some(message);
                    StartAction::StopCompanion
                },
            },
            StartEvent::Router(result) => match result {
                Ok(filters) => {
                    self.filters = filters;
                    self.open_next()
                },
                Err(message) => {
                    self.phase = StartPhase::StopCompanion;
                    self.failure = Some(message);
                    StartAction::StopCompanion
                },
            },
            StartEvent::Opened(result) => match result {
                Ok(()) => {
                    self.opened = self.opened + 1;
                    self.open_next()
                },
                Err(message) => {
                    self.phase = StartPhase::Quiesce;
                    self.failure = Some(
                        join4(
                            "open DNS interception handle ",
                            decimal_text(self.opened as u64).as_str(),
                            ": ",
                            message.as_str(),
                        ),
                    );
                    StartAction::Quiesce
                },
            },
            StartEvent::Quiesced(result) => {
                self.phase = StartPhase::Cleanup;
                match result {
                    Ok(()) => {
                        self.quiesce_error = None;
                        StartAction::CleanupHandles { drain: true }
                    },
                    Err(message) => {
                        self.quiesce_error = Some(message);
                        StartAction::CleanupHandles { drain: false }
                    },
                }
            },
            StartEvent::Cleaned(result) => match result {
                Ok(()) => {
                    self.phase = StartPhase::ReleaseHandles;
                    self.handles_shutdown = true;
                    StartAction::ReleaseHandles
                },
                Err(message) => {
                    let drain = self.quiesce_error.is_none();
                    let quiesce_error = match &self.quiesce_error {
                        Some(text) => Some(text.clone()),
                        None => None,
                    };
                    let failure = self.take_failure();
                    self.phase = StartPhase::Finished;
                    self.failure = Some(
                        join_errors(failure, Some(join_errors(message, quiesce_error))),
                    );
                    StartAction::DetachCleanup { drain }
                },
            },
            StartEvent::HandlesReleased => {
                self.phase = StartPhase::StopCompanion;
                StartAction::StopCompanion
            },
            StartEvent::CompanionStopped(result) => {
                let failure = self.take_failure();
                let stop_error = match result {
                    Ok(()) => {
                        self.cleanup_confirmed = true;
                        None
                    },
                    Err(message) => {
                        self.cleanup_confirmed = false;
                        Some(message)
                    },
                };
                let second = match &self.quiesce_error {
                    Some(text) => Some(text.clone()),
                    None => stop_error,
                };
                self.phase = StartPhase::Finished;
                self.failure = Some(join_errors(failure, second));
                StartAction::Finish
            },
            StartEvent::Spawned(result) => match result {
                Ok(()) => {
                    self.spawned = self.spawned + 1;
                    self.spawn_next()
                },
                Err(message) => {
                    self.phase = StartPhase::Fail;
                    self.failure = Some(
                        join4(
                            "start DNS interception worker ",
                            decimal_text(self.spawned as u64).as_str(),
                            ": ",
                            message.as_str(),
                        ),
                    );
                    StartAction::FailSession
                },
            },
            StartEvent::Failed => {
                self.phase = StartPhase::Rollback;
                StartAction::Rollback
            },
            StartEvent::Published => {
                self.phase = StartPhase::Supervisor;
                self.published = true;
                StartAction::SpawnSupervisor
            },
            StartEvent::Supervised(result) => match result {
                Ok(()) => {
                    self.phase = StartPhase::Finished;
                    StartAction::Finish
                },
                Err(message) => {
                    self.phase = StartPhase::Rollback;
                    self.failure = Some(
                        join("start DNS session supervisor: ", message.as_str()),
                    );
                    StartAction::Rollback
                },
            },
            StartEvent::RolledBack(result) => {
                let failure = self.take_failure();
                let second = match result {
                    Ok(()) => None,
                    Err(message) => Some(message),
                };
                self.phase = StartPhase::Finished;
                self.failure = Some(join_errors(failure, second));
                StartAction::Finish
            },
        }
    }

    /// What the start came to.
    pub fn outcome(self) -> (result: Result<(), String>)
        ensures
            result is Ok <==> self@.failure is None,
            result matches Err(message) ==> self@.failure == Some(message@),
    {
        match self.failure {
            None => Ok(()),
            Some(message) => Err(message),
        }
    }
}

/// What happened while someone else goes on to undo a start.
#[derive(Clone, Copy, Debug, PartialEq, Eq, Structural)]
pub enum RetryEvent {
    /// Whether every handle has shut down.
    HandlesShutdown(bool),
    /// Whether every worker has ended.
    WorkersFinished(bool),
    Joined,
    /// The handles without a worker were drained, as far as they could.
    Drained,
    /// The handles were dropped.
    HandlesReleased,
    /// Whether the companion has stopped.
    CompanionStopped(bool),
}

/// What is done next to undo a start.
#[derive(Clone, Copy, Debug, PartialEq, Eq, Structural)]
pub enum RetryAction {
    /// Waits a little and shuts the handles down again.
    ShutdownAgain,
    /// Lets the workers drain, or end without that, and looks at them.
    ReleaseWorkers { drain: bool },
    /// Waits a little and looks at the workers again.
    AwaitWorkers,
    JoinWorkers,
    DrainUnstarted,
    /// Drops the handles.
    ReleaseHandles,
    StopCompanion,
    ConfirmCleanup,
    Finish,
}

/// What is done next to undo a start, which never ends before the handles and the
/// workers have.
pub open spec fn retried_rollback(quiesced: bool, event: RetryEvent) -> RetryAction {
    match event {
        RetryEvent::HandlesShutdown(complete) => if complete {
            RetryAction::ReleaseWorkers { drain: quiesced }
        } else {
            RetryAction::ShutdownAgain
        },
        RetryEvent::WorkersFinished(finished) => if finished {
            RetryAction::JoinWorkers
        } else {
            RetryAction::AwaitWorkers
        },
        RetryEvent::Joined => if quiesced {
            RetryAction::DrainUnstarted
        } else {
            RetryAction::ReleaseHandles
        },
        RetryEvent::Drained => RetryAction::ReleaseHandles,
        RetryEvent::HandlesReleased => RetryAction::StopCompanion,
        RetryEvent::CompanionStopped(stopped) => if stopped {
            RetryAction::ConfirmCleanup
        } else {
            RetryAction::Finish
        },
    }
}

/// Takes what happened while someone else goes on to undo a start.
pub fn retry_rollback(quiesced: bool, event: RetryEvent) -> (result: RetryAction)
    ensures
        result == retried_rollback(quiesced, event),
{
    match event {
        RetryEvent::HandlesShutdown(complete) => if complete {
            RetryAction::ReleaseWorkers { drain: quiesced }
        } else {
            RetryAction::ShutdownAgain
        },
        RetryEvent::WorkersFinished(finished) => if finished {
            RetryAction::JoinWorkers
        } else {
            RetryAction::AwaitWorkers
        },
        RetryEvent::Joined => if quiesced {
            RetryAction::DrainUnstarted
        } else {
            RetryAction::ReleaseHandles
        },
        RetryEvent::Drained => RetryAction::ReleaseHandles,
        RetryEvent::HandlesReleased => RetryAction::StopCompanion,
        RetryEvent::CompanionStopped(stopped) => if stopped {
            RetryAction::ConfirmCleanup
        } else {
            RetryAction::Finish
        },
    }
}

/// What happened to handles that were opened before any worker was there.
#[derive(Clone, Copy, Debug, PartialEq, Eq, Structural)]
pub enum CleanupEvent {
    /// Whether every handle has shut down.
    HandlesShutdown(bool),
    /// The handles were dropped.
    HandlesReleased,
    /// Whether the companion has stopped.
    CompanionStopped(bool),
}

/// What is done next about handles that were opened before any worker was there: they
/// are shut down until that succeeds, and then the companion is stopped.
pub open spec fn retried_cleanup(event: CleanupEvent) -> RetryAction {
    match event {
        CleanupEvent::HandlesShutdown(complete) => if complete {
            RetryAction::ReleaseHandles
        } else {
            RetryAction::ShutdownAgain
        },
        CleanupEvent::HandlesReleased => RetryAction::StopCompanion,
        CleanupEvent::CompanionStopped(stopped) => if stopped {
            RetryAction::ConfirmCleanup
        } else {
            RetryAction::Finish
        },
    }
}

/// Takes what happened to handles that were opened before any worker was there.
pub fn retry_open_cleanup(event: CleanupEvent) -> (result: RetryAction)
    ensures
        result == retried_cleanup(event),
{
    match event {
        CleanupEvent::HandlesShutdown(complete) => if complete {
            RetryAction::ReleaseHandles
        } else {
            RetryAction::ShutdownAgain
        },
        CleanupEvent::HandlesReleased => RetryAction::StopCompanion,
        CleanupEvent::CompanionStopped(stopped) => if stopped {
            RetryAction::ConfirmCleanup
        } else {
            RetryAction::Finish
        },
    }
}

/// Whether an event is what an action comes to.
pub open spec fn retry_answers(action: RetryAction, event: RetryEvent) -> bool {
    match action {
        RetryAction::ShutdownAgain => event is HandlesShutdown,
        RetryAction::ReleaseWorkers { .. } => event is WorkersFinished,
        RetryAction::AwaitWorkers => event is WorkersFinished,
        RetryAction::JoinWorkers => event is Joined,
        RetryAction::DrainUnstarted => event is Drained,
        RetryAction::ReleaseHandles => event is HandlesReleased,
        RetryAction::StopCompanion => event is CompanionStopped,
        RetryAction::ConfirmCleanup => false,
        RetryAction::Finish => false,
    }
}

/// Events that follow each other: the handles first, and then what each action came to.
pub open spec fn retry_run(quiesced: bool, events: Seq<RetryEvent>) -> bool {
    &&& events.len() > 0
    &&& events[0] is HandlesShutdown
    &&& forall|i: int|
        0 < i < events.len() ==> retry_answers(
            retried_rollback(quiesced, events[i - 1]),
            #[trigger] events[i],
        )
}

/// Whether a cleanup event is what an action comes to.
pub open spec fn cleanup_answers(action: RetryAction, event: CleanupEvent) -> bool {
    match action {
        RetryAction::ShutdownAgain => event is HandlesShutdown,
        RetryAction::ReleaseHandles => event is HandlesReleased,
        RetryAction::StopCompanion => event is CompanionStopped,
        _ => false,
    }
}

/// Cleanup events that follow each other.
pub open spec fn cleanup_run(events: Seq<CleanupEvent>) -> bool {
    &&& events.len() > 0
    &&& events[0] is HandlesShutdown
    &&& forall|i: int|
        0 < i < events.len() ==> cleanup_answers(
            retried_cleanup(events[i - 1]),
            #[trigger] events[i],
        )
}

proof fn lemma_retried_shutdown(quiesced: bool, events: Seq<RetryEvent>, at: int)
    requires
        retry_run(quiesced, events),
        0 <= at < events.len(),
        !(events[at] is HandlesShutdown),
    ensures
        events.contains(RetryEvent::HandlesShutdown(true)),
        !(events[at] is WorkersFinished) ==> events.contains(RetryEvent::WorkersFinished(true)),
    decreases at,
{
    if events[at - 1] is HandlesShutdown {
        assert(events[at - 1] == RetryEvent::HandlesShutdown(true));
    } else {
        lemma_retried_shutdown(quiesced, events, at - 1);
        if events[at] is Joined {
            assert(events[at - 1] == RetryEvent::WorkersFinished(true));
        }
    }
}

/// Whoever goes on to undo a start releases the workers only once every handle has shut
/// down, to drain where the companion quiesced, drops the handles only after the
/// workers were joined, stops the companion only after that, and confirms the cleanup
/// only once it has stopped.
pub proof fn retries_confirm_only_a_stopped_companion(quiesced: bool, events: Seq<RetryEvent>)
    requires
        retry_run(quiesced, events),
    ensures
        retried_rollback(quiesced, events.last()) matches RetryAction::ReleaseWorkers { drain }
            ==> drain == quiesced && events.last() == RetryEvent::HandlesShutdown(true),
        retried_rollback(quiesced, events.last()) == RetryAction::ReleaseHandles ==> {
            &&& events.contains(RetryEvent::HandlesShutdown(true))
            &&& events.contains(RetryEvent::WorkersFinished(true))
            &&& events.contains(RetryEvent::Joined)
        },
        retried_rollback(quiesced, events.last()) == RetryAction::StopCompanion ==> events.last()
            == RetryEvent::HandlesReleased && events.contains(RetryEvent::HandlesShutdown(true))
            && events.contains(RetryEvent::Joined),
        retried_rollback(quiesced, events.last()) == RetryAction::DrainUnstarted ==> quiesced
            && events.contains(RetryEvent::HandlesShutdown(true)) && events.contains(
            RetryEvent::Joined,
        ),
        retried_rollback(quiesced, events.last()) == RetryAction::ConfirmCleanup ==> events.last()
            == RetryEvent::CompanionStopped(true) && events.contains(RetryEvent::HandlesReleased)
            && events.contains(RetryEvent::Joined),
{
    let n = events.len() - 1;
    let action = retried_rollback(quiesced, events.last());
    if action == RetryAction::ReleaseHandles || action == RetryAction::StopCompanion || action
        == RetryAction::DrainUnstarted || action == RetryAction::ConfirmCleanup {
        lemma_retried_shutdown(quiesced, events, n);
        lemma_retried_join(quiesced, events, n);
        assert(events[n] == events.last());
        if events[n] is CompanionStopped {
            assert(events[n - 1] is HandlesReleased);
        }
    }
}

proof fn lemma_retried_join(quiesced: bool, events: Seq<RetryEvent>, at: int)
    requires
        retry_run(quiesced, events),
        0 <= at < events.len(),
        !(events[at] is HandlesShutdown),
        !(events[at] is WorkersFinished),
    ensures
        events.contains(RetryEvent::Joined),
    decreases at,
{
    if events[at] is Joined {
        assert(events[at] == RetryEvent::Joined);
    } else {
        lemma_retried_join(quiesced, events, at - 1);
    }
}

/// Handles without workers are dropped only once they have shut down, and the companion
/// is stopped only after that; the cleanup is confirmed only once the companion has stopped.
pub proof fn cleanups_confirm_only_a_stopped_companion(events: Seq<CleanupEvent>)
    requires
        cleanup_run(events),
    ensures
        retried_cleanup(events.last()) == RetryAction::ReleaseHandles ==> events.last()
            == CleanupEvent::HandlesShutdown(true),
        retried_cleanup(events.last()) == RetryAction::StopCompanion ==> events.last()
            == CleanupEvent::HandlesReleased && events.contains(
            CleanupEvent::HandlesShutdown(true),
        ),
        retried_cleanup(events.last()) == RetryAction::ConfirmCleanup ==> events.last()
            == CleanupEvent::CompanionStopped(true) && events.contains(
            CleanupEvent::HandlesReleased,
        ) && events.contains(CleanupEvent::HandlesShutdown(true)),
{
    let n = events.len() - 1;
    if events[n] is HandlesReleased {
        assert(events[n - 1] == CleanupEvent::HandlesShutdown(true));
    }
    if events[n] is CompanionStopped {
        assert(events[n - 1] == CleanupEvent::HandlesReleased);
        assert(events[n - 2] == CleanupEvent::HandlesShutdown(true));
    }
}

/// How a request to the supervisor was answered.
#[derive(Debug, PartialEq, Eq)]
pub enum Reply {
    Answered(Result<(), String>),
    /// No answer came in time. The supervisor goes on with the request.
    TimedOut,
    /// The supervisor ended without an answer.
    Disconnected,
    /// The supervisor was gone already.
    Unavailable,
}

/// What the one who asked is told.
pub open spec fn reply_outcome(
    reply: Reply,
    session_error: Option<Seq<char>>,
    pending: Seq<char>,
) -> Result<(), Seq<char>> {
    match reply {
        Reply::Answered(result) => result_view(result),
        Reply::TimedOut => Err(pending),
        Reply::Disconnected => Err(
            match session_error {
                Some(message) => message,
                None => "DNS session supervisor stopped unexpectedly"@,
            },
        ),
        Reply::Unavailable => Err(
            match session_error {
                Some(message) => message,
                None => "DNS session supervisor is unavailable"@,
            },
        ),
    }
}

fn tell(reply: Reply, session_error: Option<String>, pending: &str) -> (result: Result<(), String>)
    ensures
        result_view(result) == reply_outcome(reply, text_option(session_error), pending@),
{
    match reply {
        Reply::Answered(answer) => answer,
        Reply::TimedOut => Err(pending.to_owned()),
        Reply::Disconnected => match session_error {
            Some(message) => Err(message),
            None => Err("DNS session supervisor stopped unexpectedly".to_owned()),
        },
        Reply::Unavailable => match session_error {
            Some(message) => Err(message),
            None => Err("DNS session supervisor is unavailable".to_owned()),
        },
    }
}

/// Whether a reload can be asked for: only of a running session.
pub fn admit_reload(state: DnsSessionState) -> (result: Result<(), String>)
    ensures
        result is Ok <==> state == DnsSessionState::Running,
        result matches Err(message) ==> message@ == reload_refusal(state),
{
    if state != DnsSessionState::Running {
        return Err(reload_refusal_message(state));
    }
    Ok(())
}

/// What the one who asked for a reload is told.
pub fn reload_reply(reply: Reply, session_error: Option<String>) -> (result: Result<(), String>)
    ensures
        result_view(result) == reply_outcome(
            reply,
            text_option(session_error),
            "DNS rule reload is still pending; the active session remains owned"@,
        ),
{
    tell(
        reply,
        session_error,
        "DNS rule reload is still pending; the active session remains owned",
    )
}

/// Whether a stop has to be asked for; a session that has stopped answers at once.
pub fn admit_stop(state: DnsSessionState, session_error: Option<String>) -> (result: Option<
    Result<(), String>,
>)
    ensures
        result is Some <==> state == DnsSessionState::Stopped,
        result matches Some(answer) ==> result_view(answer) == (match text_option(session_error) {
            Some(message) => Err::<(), Seq<char>>(message),
            None => Ok::<(), Seq<char>>(()),
        }),
{
    if state == DnsSessionState::Stopped {
        match session_error {
            Some(message) => Some(Err(message)),
            None => Some(Ok(())),
        }
    } else {
        None
    }
}

/// What the one who asked for a stop is told.
pub fn stop_reply(reply: Reply, session_error: Option<String>) -> (result: Result<(), String>)
    ensures
        result_view(result) == reply_outcome(
            reply,
            text_option(session_error),
            "DNS session stop is still pending; interception handles and upstream ports remain owned"@,
        ),
{
    tell(
        reply,
        session_error,
        "DNS session stop is still pending; interception handles and upstream ports remain owned",
    )
}

/// One more error after those that there are, with a semicolon and a space between two.
pub open spec fn appended(errors: Option<Seq<char>>, message: Seq<char>) -> Seq<char> {
    match errors {
        Some(text) => text + seq![';', ' '] + message,
        None => message,
    }
}

/// What each event adds to the errors of a start that is undone: what failed, and which
/// part it was.
pub proof fn rollbacks_tell_every_failure(state: RollbackView, event: RollbackEvent, now_ms: u64)
    requires
        state.valid(),
        state.expects(event),
    ensures
        ({
            let after = state.step(event, now_ms).0;
            let failure = match event {
                RollbackEvent::Quiesced(Err(message)) => Some(
                    "quiesce DNS companion: "@ + message@,
                ),
                RollbackEvent::HandlesShutdown(Err(message)) => Some(
                    "shutdown DNS handles: "@ + message@,
                ),
                RollbackEvent::Drained(Err(message)) => Some(
                    "drain unstarted handle "@ + decimal(state.undrained as nat) + ": "@ + message@,
                ),
                RollbackEvent::Workers { finished: false } => if state.deadline <= now_ms {
                    Some("DNS interception workers did not stop during startup rollback"@)
                } else {
                    None
                },
                RollbackEvent::Joined { index, panicked: true } => Some(
                    "DNS interception worker "@ + decimal(index as nat) + " panicked"@,
                ),
                RollbackEvent::CompanionStopped(Err(message)) => Some(
                    "stop DNS companion: "@ + message@,
                ),
                _ => None,
            };
            &&& failure is None ==> after.errors == state.errors
            &&& failure is Some ==> after.errors == Some(appended(state.errors, failure->0))
            &&& after.cleanup_confirmed == (state.cleanup_confirmed || event
                matches RollbackEvent::CompanionStopped(Ok(_)))
            &&& after.frozen == (state.frozen || event is Frozen)
            &&& after.quiesced == (state.quiesced || event matches RollbackEvent::Quiesced(Ok(_)))
            &&& after.handles_shutdown == (state.handles_shutdown || event
                matches RollbackEvent::HandlesShutdown(Ok(_)))
            &&& after.released == (state.released || event is Released)
            &&& after.undrained == if event is Drained {
                state.undrained + 1
            } else {
                state.undrained
            }
            &&& after.handles == state.handles
        }),
{
    reveal_strlit("; ");
    assert("; "@ =~= seq![';', ' ']);
}

/// What follows each event while a start is undone. Handles are shut down until that
/// succeeds or fifteen seconds are over; the workers are then released; where the
/// companion quiesced, each handle without a worker is drained; the workers get fifteen
/// seconds to end; they are joined, the handles dropped and the companion stopped.
pub proof fn rollbacks_go_step_by_step(state: RollbackView, event: RollbackEvent, now_ms: u64)
    requires
        state.valid(),
        state.expects(event),
    ensures
        ({
            let (after, action) = state.step(event, now_ms);
            let left = if event is Drained {
                state.undrained + 1
            } else {
                state.undrained
            };
            let begins = (event is Released || event is Drained) && !(state.quiesced && left
                < state.handles);
            &&& event is Frozen ==> action is Quiesce && after.phase is Quiesce
            &&& event is Quiesced ==> action is ShutdownHandles && after.phase is Shutdown
            &&& event matches RollbackEvent::HandlesShutdown(Err(_)) ==> action is Pause
                && after.phase is ShutdownPause
            &&& event matches RollbackEvent::HandlesShutdown(Ok(_)) ==> after.phase is Release
                && action == RollbackAction::ReleaseWorkers { drain: state.quiesced }
            &&& event is Paused && state.phase is ShutdownPause && now_ms < state.deadline ==> action
                is ShutdownHandles && after.phase is Shutdown
            &&& event is Paused && state.phase is ShutdownPause && now_ms >= state.deadline
                ==> after.phase is Finished && action == RollbackAction::Detach {
                handles_shutdown: false,
            }
            &&& event is Paused && state.phase is WaitPause ==> action is LookAtWorkers
                && after.phase is Wait
            &&& (event is Released || event is Drained) && !begins ==> after.phase is Drain && action
                == RollbackAction::DrainUnstarted(left as usize)
            &&& begins ==> action is LookAtWorkers && after.phase is Wait
            &&& event matches RollbackEvent::Workers { finished } ==> {
                &&& finished ==> action is JoinWorkers && after.phase is Join
                &&& !finished && now_ms < state.deadline ==> action is Pause && after.phase
                    is WaitPause
                &&& !finished && now_ms >= state.deadline ==> after.phase is Finished && action
                    == RollbackAction::Detach { handles_shutdown: true }
            }
            &&& event is Joined ==> action is JoinWorkers && after.phase is Join
            &&& event is AllJoined ==> action is ReleaseHandles && after.phase is ReleaseHandles
            &&& event is HandlesReleased ==> action is StopCompanion && after.phase is StopCompanion
            &&& event is CompanionStopped ==> action is Finish && after.phase is Finished
            &&& (event is Quiesced || begins) && now_ms + 15_000 <= u64::MAX ==> after.deadline
                == now_ms + 15_000
            &&& (event is Quiesced || begins) && now_ms + 15_000 > u64::MAX ==> after.deadline
                == u64::MAX
            &&& !(event is Quiesced || begins) ==> after.deadline == state.deadline
        }),
{
}

/// What each event of a start leads to. After the companion the router is made, then each
/// handle is opened, then each gets its worker, then the session is published and
/// supervised. A failure before any handle is open stops the companion; one to open a
/// handle quiesces it and cleans up; one to start a worker marks the session as failed
/// and rolls back; and one to supervise rolls back.
pub proof fn starts_go_step_by_step(state: StartView, event: StartEvent)
    requires
        state.valid(),
        state.expects(event),
    ensures
        ({
            let (after, action) = state.step(event);
            let filters = match event {
                StartEvent::Router(Ok(n)) => n as int,
                _ => state.filters,
            };
            let opened = match event {
                StartEvent::Opened(Ok(_)) => state.opened + 1,
                _ => state.opened,
            };
            let spawned = match event {
                StartEvent::Spawned(Ok(_)) => state.spawned + 1,
                _ => state.spawned,
            };
            let proceeds = event matches StartEvent::Router(Ok(_)) || event
                matches StartEvent::Opened(Ok(_)) || event matches StartEvent::Spawned(Ok(_));
            &&& after.filters == filters && after.opened == opened
            &&& proceeds ==> {
                &&& opened < filters ==> after.phase is Open && action == StartAction::OpenHandle(
                    opened as usize,
                )
                &&& opened == filters && !(event is Spawned) && filters > 0 ==> after.phase is Spawn
                    && action == StartAction::SpawnWorker(0) && after.spawned == 0
                &&& event is Spawned && spawned < opened ==> after.phase is Spawn && action
                    == StartAction::SpawnWorker(spawned as usize) && after.spawned == spawned
                &&& filters == 0 || (event is Spawned && spawned == opened) ==> after.phase
                    is Publish && action is PublishRunning && after.spawned == filters
            }
            &&& event matches StartEvent::Companion(Ok(_)) ==> after.phase is Router && action
                is MakeRouter
            &&& event matches StartEvent::Companion(Err(_)) ==> after.phase is StopCompanion
                && action is StopCompanion
            &&& event matches StartEvent::Router(Err(_)) ==> after.phase is StopCompanion && action
                is StopCompanion
            &&& event matches StartEvent::Opened(Err(_)) ==> after.phase is Quiesce && action
                is Quiesce
            &&& event is Quiesced ==> after.phase is Cleanup && (action
                matches StartAction::CleanupHandles { drain } && (drain <==> event
                matches StartEvent::Quiesced(Ok(_))))
            &&& event matches StartEvent::Cleaned(Ok(_)) ==> after.phase is ReleaseHandles && action
                is ReleaseHandles
            &&& event matches StartEvent::Cleaned(Err(_)) ==> after.phase is Finished && action
                == StartAction::DetachCleanup { drain: state.quiesce_error is None }
            &&& event is HandlesReleased ==> after.phase is StopCompanion && action is StopCompanion
            &&& event is CompanionStopped ==> after.phase is Finished && action is Finish
            &&& event matches StartEvent::Spawned(Err(_)) ==> after.phase is Fail && action
                is FailSession
            &&& event is Failed ==> after.phase is Rollback && action is Rollback
            &&& event is Published ==> after.phase is Supervisor && action is SpawnSupervisor
            &&& event matches StartEvent::Supervised(Ok(_)) ==> after.phase is Finished && action
                is Finish
            &&& event matches StartEvent::Supervised(Err(_)) ==> after.phase is Rollback && action
                is Rollback
            &&& event is RolledBack ==> after.phase is Finished && action is Finish
            &&& after.published == (state.published || event is Published)
            &&& after.handles_shutdown == (state.handles_shutdown || event
                matches StartEvent::Cleaned(Ok(_)))
            &&& after.cleanup_confirmed == if event is CompanionStopped {
                event matches StartEvent::CompanionStopped(Ok(_))
            } else {
                state.cleanup_confirmed
            }
        }),
{
}

/// What a start that fails tells: what failed first, and what failed while it was undone.
pub proof fn failed_starts_tell_every_failure(state: StartView, event: StartEvent)
    requires
        state.valid(),
        state.expects(event),
    ensures
        ({
            let after = state.step(event).0;
            let first = match event {
                StartEvent::Companion(Err(message)) => Some(message@),
                StartEvent::Router(Err(message)) => Some(message@),
                StartEvent::Opened(Err(message)) => Some(
                    "open DNS interception handle "@ + decimal(state.opened as nat) + ": "@
                        + message@,
                ),
                StartEvent::Spawned(Err(message)) => Some(
                    "start DNS interception worker "@ + decimal(state.spawned as nat) + ": "@
                        + message@,
                ),
                StartEvent::Supervised(Err(message)) => Some(
                    "start DNS session supervisor: "@ + message@,
                ),
                _ => None,
            };
            let second = match event {
                StartEvent::Cleaned(Err(message)) => Some(
                    if state.quiesce_error is Some {
                        message@ + seq![';', ' '] + state.quiesce_error->0
                    } else {
                        message@
                    },
                ),
                StartEvent::CompanionStopped(result) => if state.quiesce_error is Some {
                    state.quiesce_error
                } else if let Err(message) = result {
                    Some(message@)
                } else {
                    None
                },
                StartEvent::RolledBack(Err(message)) => Some(message@),
                _ => None,
            };
            &&& first is Some ==> after.failure == first
            &&& second is Some ==> after.failure == Some(appended(state.failure, second->0))
            &&& first is None && second is None ==> after.failure == state.failure
            &&& event matches StartEvent::Quiesced(result) ==> match result {
                Ok(_) => after.quiesce_error is None,
                Err(message) => after.quiesce_error == Some(message@),
            }
            &&& !(event is Quiesced) ==> after.quiesce_error == state.quiesce_error
        }),
{
    reveal_strlit("; ");
    assert("; "@ =~= seq![';', ' ']);
}

/// What an answer comes to: itself; or, without one, that it is pending, or the error of
/// the session if it has one.
pub proof fn replies_are_passed_on(
    reply: Reply,
    session_error: Option<Seq<char>>,
    pending: Seq<char>,
)
    ensures
        ({
            let told = reply_outcome(reply, session_error, pending);
            &&& told is Ok <==> (reply matches Reply::Answered(Ok(_)))
            &&& reply matches Reply::Answered(Err(message)) ==> told == Err::<(), Seq<char>>(
                message@,
            )
            &&& reply is TimedOut ==> told == Err::<(), Seq<char>>(pending)
            &&& (reply is Disconnected || reply is Unavailable) && session_error is Some ==> told
                == Err::<(), Seq<char>>(session_error->0)
            &&& reply is Disconnected && session_error is None ==> told == Err::<(), Seq<char>>(
                "DNS session supervisor stopped unexpectedly"@,
            )
            &&& reply is Unavailable && session_error is None ==> told == Err::<(), Seq<char>>(
                "DNS session supervisor is unavailable"@,
            )
        }),
{
}

/// What whoever goes on to undo a start does after each event: handles are shut down until
/// that succeeds and workers are looked at until they have ended; handles without a
/// worker are drained where the companion quiesced; then the handles are dropped and the
/// companion is stopped. The cleanup is confirmed exactly where that succeeds.
pub proof fn retries_go_on_until_everything_ended(quiesced: bool, event: RetryEvent)
    ensures
        ({
            let action = retried_rollback(quiesced, event);
            &&& action is ShutdownAgain <==> event == RetryEvent::HandlesShutdown(false)
            &&& action is ReleaseWorkers <==> event == RetryEvent::HandlesShutdown(true)
            &&& action is AwaitWorkers <==> event == RetryEvent::WorkersFinished(false)
            &&& action is JoinWorkers <==> event == RetryEvent::WorkersFinished(true)
            &&& action is DrainUnstarted <==> event is Joined && quiesced
            &&& action is ReleaseHandles <==> event is Drained || (event is Joined && !quiesced)
            &&& action is StopCompanion <==> event is HandlesReleased
            &&& action is ConfirmCleanup <==> event == RetryEvent::CompanionStopped(true)
            &&& action is Finish <==> event == RetryEvent::CompanionStopped(false)
            &&& action matches RetryAction::ReleaseWorkers { drain } ==> drain == quiesced
        }),
{
}

/// The same for handles that were opened before any worker was there.
pub proof fn cleanups_go_on_until_everything_ended(event: CleanupEvent)
    ensures
        ({
            let action = retried_cleanup(event);
            &&& action is ShutdownAgain <==> event == CleanupEvent::HandlesShutdown(false)
            &&& action is ReleaseHandles <==> event == CleanupEvent::HandlesShutdown(true)
            &&& action is StopCompanion <==> event is HandlesReleased
            &&& action is ConfirmCleanup <==> event == CleanupEvent::CompanionStopped(true)
            &&& action is Finish <==> event == CleanupEvent::CompanionStopped(false)
        }),
{
}

} // verus!
