//! Starting the watchdog from the program that it guards, and sending it away.
//!
//! A watchdog that is ready is never stopped by accident: it guards the settings until
//! the journal is known to be gone.

use crate::dns_configuration::DnsConfigurationError;
use crate::dns_supervisor::result_view;
use crate::text::{bytes_of, decimal, decimal_text, join, join3, same_text};
use vstd::prelude::*;
use vstd::string::*;

verus! {

/// How long the line of readiness may be, in bytes.
pub const MAX_READY_LINE_BYTES: usize = 4096;

/// How long the watchdog may take to be ready, in milliseconds.
pub const READY_TIMEOUT_MS: u64 = 10_000;

/// How long stopping the watchdog may take, in milliseconds.
pub const CLEANUP_TIMEOUT_MS: u64 = 2_000;

/// How long one look for the line of readiness lasts, in milliseconds.
pub const READY_POLL_MS: u64 = 100;

/// The flag of a process without a window.
pub const CREATE_NO_WINDOW_FLAG: u32 = 0x0800_0000;

/// The flag of a process that leaves the job of its parent.
pub const CREATE_BREAKAWAY_FLAG: u32 = 0x0100_0000;

/// The line of readiness, decoded.
#[derive(Debug, PartialEq, Eq)]
pub struct ReadyMessage {
    pub status: String,
}

/// What is wrong with a line of readiness before it is decoded.
pub open spec fn line_fault(line: Seq<u8>) -> Option<Seq<char>> {
    if line.len() + 1 > MAX_READY_LINE_BYTES {
        Some("DNS watchdog readiness line exceeds 4096 bytes"@)
    } else if line.len() == 0 || line[0] != 123 || line.last() != 125 {
        Some("DNS watchdog readiness is not a strict JSON object"@)
    } else {
        None
    }
}

/// What a decoded line of readiness is worth.
pub open spec fn message_fault(decoded: Result<ReadyMessage, String>) -> Option<Seq<char>> {
    match decoded {
        Err(message) => Some("invalid DNS watchdog readiness JSON: "@ + message@),
        Ok(message) => if message.status@ != "ready"@ {
            Some("DNS watchdog readiness status was not ready"@)
        } else {
            None
        },
    }
}

/// Takes a decoded line of readiness.
pub fn accept_ready(decoded: Result<ReadyMessage, String>) -> (result: Result<(), String>)
    ensures
        match message_fault(decoded) {
            None => result is Ok,
            Some(message) => result matches Err(text) && text@ == message,
        },
{
    match decoded {
        Err(message) => Err(join("invalid DNS watchdog readiness JSON: ", message.as_str())),
        Ok(message) => if !same_text(message.status.as_str(), "ready") {
            Err("DNS watchdog readiness status was not ready".to_owned())
        } else {
            Ok(())
        },
    }
}

/// Reads the line of readiness. It is decoded only where it is an object and nothing
/// around it.
pub fn parse_ready_line<D: FnOnce(Vec<u8>) -> Result<ReadyMessage, String>>(
    line: &[u8],
    decode: D,
) -> (result: Result<(), String>)
    requires
        forall|bytes: Vec<u8>| call_requires(decode, (bytes,)),
    ensures
        match line_fault(line@) {
            Some(message) => result matches Err(text) && text@ == message,
            None => exists|bytes: Vec<u8>, decoded: Result<ReadyMessage, String>|
                {
                    &&& bytes@ == line@
                    &&& #[trigger] call_ensures(decode, (bytes,), decoded)
                    &&& match message_fault(decoded) {
                        None => result is Ok,
                        Some(message) => result matches Err(text) && text@ == message,
                    }
                },
        },
{
    if line.len() >= MAX_READY_LINE_BYTES {
        return Err("DNS watchdog readiness line exceeds 4096 bytes".to_owned());
    }
    if line.len() == 0 || line[0] != 123 || line[line.len() - 1] != 125 {
        return Err("DNS watchdog readiness is not a strict JSON object".to_owned());
    }
    let bytes = bytes_of(line);
    let decoded = decode(bytes);
    accept_ready(decoded)
}

/// What reading one byte from the watchdog came to.
#[derive(Debug, PartialEq, Eq)]
pub enum ReadyByte {
    Byte(u8),
    /// The watchdog has ended.
    End,
    Failed(String),
    /// More than one byte was said to have been read.
    BadCount,
}

/// What is known of the line of readiness.
#[derive(Debug, PartialEq, Eq)]
pub enum ReadyStep {
    /// It is not complete.
    More,
    /// It is complete, without the line feed.
    Line(Vec<u8>),
    Failed(String),
}

/// What is known of the line of readiness, as mathematical values.
pub ghost enum ReadyView {
    More,
    Line(Seq<u8>),
    Failed(Seq<char>),
}

impl ReadyStep {
    pub open spec fn view(&self) -> ReadyView {
        match self {
            ReadyStep::More => ReadyView::More,
            ReadyStep::Line(line) => ReadyView::Line(line@),
            ReadyStep::Failed(message) => ReadyView::Failed(message@),
        }
    }
}

/// What a byte does to the line of readiness.
pub open spec fn ready_step(line: Seq<u8>, read: ReadyByte) -> (Seq<u8>, ReadyView) {
    match read {
        ReadyByte::Failed(message) => (
            line,
            ReadyView::Failed("reading DNS watchdog readiness failed: "@ + message@),
        ),
        ReadyByte::End => (line, ReadyView::Failed("DNS watchdog exited before readiness"@)),
        ReadyByte::BadCount => (
            line,
            ReadyView::Failed("DNS watchdog readiness reader returned an invalid byte count"@),
        ),
        ReadyByte::Byte(byte) => if byte == 10 {
            (line, ReadyView::Line(line))
        } else if line.len() + 1 >= MAX_READY_LINE_BYTES {
            (line, ReadyView::Failed("DNS watchdog readiness line exceeds 4096 bytes"@))
        } else {
            (line.push(byte), ReadyView::More)
        },
    }
}

/// Reads the line of readiness byte by byte.
#[derive(Debug, PartialEq, Eq)]
pub struct ReadyReader {
    line: Vec<u8>,
}

impl ReadyReader {
    pub closed spec fn view(&self) -> Seq<u8> {
        self.line@
    }

    /// Nothing was read yet.
    pub fn new() -> (result: Self)
        ensures
            result@ == Seq::<u8>::empty(),
    {
        ReadyReader { line: Vec::new() }
    }

    /// Takes one byte, or that there is none.
    pub fn read_ready_line(&mut self, read: ReadyByte) -> (result: ReadyStep)
        ensures
            (final(self)@, result@) == ready_step(old(self)@, read),
    {
        match read {
            ReadyByte::Failed(message) => ReadyStep::Failed(
                join("reading DNS watchdog readiness failed: ", message.as_str()),
            ),
            ReadyByte::End => ReadyStep::Failed("DNS watchdog exited before readiness".to_owned()),
            ReadyByte::BadCount => ReadyStep::Failed(
                "DNS watchdog readiness reader returned an invalid byte count".to_owned(),
            ),
            ReadyByte::Byte(byte) => {
                if byte == 10 {
                    return ReadyStep::Line(bytes_of(self.line.as_slice()));
                }
                if self.line.len() >= MAX_READY_LINE_BYTES - 1 {
                    return ReadyStep::Failed(
                        "DNS watchdog readiness line exceeds 4096 bytes".to_owned(),
                    );
                }
                self.line.push(byte);
                ReadyStep::More
            },
        }
    }
}

/// How long to look for the line of readiness, or that there is no time left.
pub fn await_ready(remaining_ms: u64) -> (result: Result<u64, String>)
    ensures
        remaining_ms == 0 ==> (result matches Err(message) && message@
            == "DNS watchdog readiness deadline exceeded"@),
        remaining_ms > 0 ==> (result matches Ok(slice) && slice == (if remaining_ms
            < READY_POLL_MS {
            remaining_ms
        } else {
            READY_POLL_MS
        })),
{
    if remaining_ms == 0 {
        return Err("DNS watchdog readiness deadline exceeded".to_owned());
    }
    if remaining_ms < READY_POLL_MS {
        Ok(remaining_ms)
    } else {
        Ok(READY_POLL_MS)
    }
}

/// What a look for the line of readiness came to.
#[derive(Debug, PartialEq, Eq)]
pub enum ReadyPoll {
    Received(Result<(), String>),
    Nothing,
    Disconnected,
}

/// Takes what a look for the line of readiness came to; `None` where to look again.
pub fn ready_polled(poll: ReadyPoll) -> (result: Option<Result<(), String>>)
    ensures
        match poll {
            ReadyPoll::Received(answer) => result matches Some(told) && result_view(told)
                == result_view(answer),
            ReadyPoll::Nothing => result is None,
            ReadyPoll::Disconnected => result matches Some(Err(message)) && message@
                == "DNS watchdog readiness reader disconnected"@,
        },
{
    match poll {
        ReadyPoll::Received(answer) => Some(answer),
        ReadyPoll::Nothing => None,
        ReadyPoll::Disconnected => Some(
            Err("DNS watchdog readiness reader disconnected".to_owned()),
        ),
    }
}

/// What a look at a process came to.
#[derive(Debug, PartialEq, Eq)]
pub enum ProcessPoll {
    /// It has ended, with a code where there is one.
    Exited(Option<i32>),
    Running,
    Failed(String),
}

/// Takes a look at a process that was told to end; `None` where to look again. The
/// last look comes after the time is up.
pub fn terminate_polled(poll: &ProcessPoll, timed_out: bool) -> (result: Option<bool>)
    ensures
        result == (match *poll {
            ProcessPoll::Exited(_) => Some(true),
            ProcessPoll::Failed(_) => Some(false),
            ProcessPoll::Running => if timed_out {
                Some(false)
            } else {
                None
            },
        }),
{
    match poll {
        ProcessPoll::Exited(_) => Some(true),
        ProcessPoll::Failed(_) => Some(false),
        ProcessPoll::Running => if timed_out {
            Some(false)
        } else {
            None
        },
    }
}

/// Whether a process has an identity.
pub fn checked_identity(pid: u32, creation: u64) -> (result: Result<(u32, u64), String>)
    ensures
        result is Ok <==> pid != 0 && creation != 0,
        result matches Ok(identity) ==> identity == (pid, creation),
        result matches Err(message) ==> message@ == "current process identity was empty"@,
{
    if pid == 0 || creation == 0 {
        return Err("current process identity was empty".to_owned());
    }
    Ok((pid, creation))
}

/// The flags with which the watchdog is started: it has no window, and leaves the job
/// of its parent so that it does not end with it.
pub fn creation_flags(in_job: bool) -> (result: u32)
    ensures
        result == (if in_job {
            CREATE_NO_WINDOW_FLAG + CREATE_BREAKAWAY_FLAG
        } else {
            CREATE_NO_WINDOW_FLAG as int
        }),
{
    if in_job {
        CREATE_NO_WINDOW_FLAG + CREATE_BREAKAWAY_FLAG
    } else {
        CREATE_NO_WINDOW_FLAG
    }
}

/// Whether a watchdog is independent of its parent.
pub fn verify_independent(in_job: bool) -> (result: Result<(), String>)
    ensures
        result is Ok <==> !in_job,
        result matches Err(message) ==> message@
            == "DNS watchdog remains in a process job; independent recovery is unavailable"@,
{
    if in_job {
        return Err(
            "DNS watchdog remains in a process job; independent recovery is unavailable".to_owned(),
        );
    }
    Ok(())
}

/// What starting the watchdog waits for.
#[derive(Clone, Copy, Debug, PartialEq, Eq, Structural)]
pub enum LaunchPhase {
    Identity,
    Executable,
    Flags,
    Spawn,
    Independence,
    Output,
    Reader,
    Ready,
    /// For the reader, once the watchdog is ready.
    Join,
    Inspect,
    /// For the watchdog to end after a failure.
    Terminate,
    /// For the reader, after a failure.
    JoinFailed,
    Finished,
}

/// What happened while the watchdog is started.
#[derive(Debug, PartialEq, Eq)]
pub enum LaunchEvent {
    Identity(Result<(), String>),
    /// The path of the program, and whether it is absolute.
    Executable(Result<bool, String>),
    Flags(Result<(), String>),
    Spawned(Result<(), String>),
    Independence(Result<(), String>),
    /// Whether the watchdog has an output.
    Output(bool),
    Reader(Result<(), String>),
    Ready(Result<(), String>),
    /// Whether the reader has ended.
    Joined(bool),
    Inspected(ProcessPoll),
    /// Whether the watchdog has ended.
    Terminated(bool),
}

/// What the caller does next to start the watchdog.
#[derive(Clone, Copy, Debug, PartialEq, Eq, Structural)]
pub enum LaunchAction {
    ResolveExecutable,
    ComputeFlags,
    Spawn,
    VerifyIndependence,
    TakeOutput,
    SpawnReader,
    AwaitReady,
    JoinReader,
    Inspect,
    Terminate,
    Finish,
}

/// Why the watchdog is stopped again.
#[derive(Clone, Copy, Debug, PartialEq, Eq, Structural)]
pub enum Abandoned {
    NotIndependent,
    NoOutput,
    NoReader,
    NotReady,
    ReaderStuck,
    NotInspected,
}

/// Starting the watchdog.
#[derive(Debug, PartialEq, Eq)]
pub struct Launch {
    phase: LaunchPhase,
    abandoned: Option<Abandoned>,
    message: String,
    stopped: bool,
    outcome: Option<Result<(), String>>,
}

/// Starting the watchdog, as mathematical values.
pub ghost struct LaunchView {
    pub phase: LaunchPhase,
    pub abandoned: Option<Abandoned>,
    pub message: Seq<char>,
    pub stopped: bool,
    pub outcome: Option<Result<(), Seq<char>>>,
}

/// What is told of a watchdog that was stopped again.
pub open spec fn abandoned_text(
    abandoned: Abandoned,
    message: Seq<char>,
    stopped: bool,
    joined: bool,
) -> Seq<char> {
    match abandoned {
        Abandoned::NotIndependent => if stopped {
            message
        } else {
            message + "; watchdog cleanup was incomplete"@
        },
        Abandoned::NoOutput => if stopped {
            "DNS watchdog did not provide a stdout pipe"@
        } else {
            "DNS watchdog did not provide a stdout pipe and cleanup was incomplete"@
        },
        Abandoned::NoReader => if stopped {
            message + "; watchdog cleanup completed"@
        } else {
            message + "; watchdog cleanup was incomplete"@
        },
        Abandoned::NotReady => if stopped {
            if joined {
                message
            } else {
                message + "; readiness reader cleanup was incomplete"@
            }
        } else if joined {
            message + "; watchdog cleanup was incomplete"@
        } else {
            message
                + "; watchdog cleanup was incomplete and readiness reader cleanup was incomplete"@
        },
        Abandoned::ReaderStuck => if stopped {
            "DNS watchdog readiness reader did not finish within the cleanup bound"@
        } else {
            "DNS watchdog readiness reader and process cleanup were incomplete"@
        },
        Abandoned::NotInspected => if stopped {
            "cannot inspect DNS watchdog after readiness: "@ + message
        } else {
            "cannot inspect DNS watchdog after readiness: "@ + message
                + "; cleanup was incomplete"@
        },
    }
}

/// An exit code as text.
pub open spec fn code_text(code: Option<i32>) -> Seq<char> {
    match code {
        None => "terminated"@,
        Some(code) => if code < 0 {
            "-"@ + decimal((-(code as int)) as nat)
        } else {
            decimal(code as nat)
        },
    }
}

fn write_code(code: Option<i32>) -> (result: String)
    ensures
        result@ == code_text(code),
{
    match code {
        None => "terminated".to_owned(),
        Some(code) => if code < 0 {
            let magnitude: u64 = (-(code as i64)) as u64;
            join("-", decimal_text(magnitude).as_str())
        } else {
            decimal_text(code as u64)
        },
    }
}

fn write_abandoned(abandoned: Abandoned, message: &str, stopped: bool, joined: bool) -> (result:
    String)
    ensures
        result@ == abandoned_text(abandoned, message@, stopped, joined),
{
    match abandoned {
        Abandoned::NotIndependent => if stopped {
            message.to_owned()
        } else {
            join(message, "; watchdog cleanup was incomplete")
        },
        Abandoned::NoOutput => if stopped {
            "DNS watchdog did not provide a stdout pipe".to_owned()
        } else {
            "DNS watchdog did not provide a stdout pipe and cleanup was incomplete".to_owned()
        },
        Abandoned::NoReader => if stopped {
            join(message, "; watchdog cleanup completed")
        } else {
            join(message, "; watchdog cleanup was incomplete")
        },
        Abandoned::NotReady => if stopped {
            if joined {
                message.to_owned()
            } else {
                join(message, "; readiness reader cleanup was incomplete")
            }
        } else if joined {
            join(message, "; watchdog cleanup was incomplete")
        } else {
            join(
                message,
                "; watchdog cleanup was incomplete and readiness reader cleanup was incomplete",
            )
        },
        Abandoned::ReaderStuck => if stopped {
            "DNS watchdog readiness reader did not finish within the cleanup bound".to_owned()
        } else {
            "DNS watchdog readiness reader and process cleanup were incomplete".to_owned()
        },
        Abandoned::NotInspected => if stopped {
            join("cannot inspect DNS watchdog after readiness: ", message)
        } else {
            join3(
                "cannot inspect DNS watchdog after readiness: ",
                message,
                "; cleanup was incomplete",
            )
        },
    }
}

impl LaunchView {
    pub open spec fn valid(self) -> bool {
        &&& self.phase == LaunchPhase::Finished <==> self.outcome is Some
        &&& self.phase == LaunchPhase::Terminate ==> self.abandoned is Some
        &&& self.phase == LaunchPhase::JoinFailed ==> self.abandoned == Some(Abandoned::NotReady)
        &&& self.phase != LaunchPhase::Terminate && self.phase != LaunchPhase::JoinFailed
            && self.phase != LaunchPhase::Finished ==> self.abandoned is None
        &&& (self.outcome matches Some(Ok(_))) ==> self.abandoned is None
    }

    pub open spec fn expects(self, event: LaunchEvent) -> bool {
        match event {
            LaunchEvent::Identity(_) => self.phase == LaunchPhase::Identity,
            LaunchEvent::Executable(_) => self.phase == LaunchPhase::Executable,
            LaunchEvent::Flags(_) => self.phase == LaunchPhase::Flags,
            LaunchEvent::Spawned(_) => self.phase == LaunchPhase::Spawn,
            LaunchEvent::Independence(_) => self.phase == LaunchPhase::Independence,
            LaunchEvent::Output(_) => self.phase == LaunchPhase::Output,
            LaunchEvent::Reader(_) => self.phase == LaunchPhase::Reader,
            LaunchEvent::Ready(_) => self.phase == LaunchPhase::Ready,
            LaunchEvent::Joined(_) => self.phase == LaunchPhase::Join || self.phase
                == LaunchPhase::JoinFailed,
            LaunchEvent::Inspected(_) => self.phase == LaunchPhase::Inspect,
            LaunchEvent::Terminated(_) => self.phase == LaunchPhase::Terminate,
        }
    }

    pub open spec fn ended(self, outcome: Result<(), Seq<char>>) -> (LaunchView, LaunchAction) {
        (
            LaunchView { phase: LaunchPhase::Finished, outcome: Some(outcome), ..self },
            LaunchAction::Finish,
        )
    }

    pub open spec fn on_to(self, phase: LaunchPhase, action: LaunchAction) -> (
        LaunchView,
        LaunchAction,
    ) {
        (LaunchView { phase, ..self }, action)
    }

    pub open spec fn abandoning(self, abandoned: Abandoned, message: Seq<char>) -> (
        LaunchView,
        LaunchAction,
    ) {
        (
            LaunchView {
                phase: LaunchPhase::Terminate,
                abandoned: Some(abandoned),
                message,
                ..self
            },
            LaunchAction::Terminate,
        )
    }

    /// What an event does, and what comes next.
    pub open spec fn step(self, event: LaunchEvent) -> (LaunchView, LaunchAction) {
        match event {
            LaunchEvent::Identity(Err(message)) => self.ended(Err(message@)),
            LaunchEvent::Identity(Ok(())) => self.on_to(
                LaunchPhase::Executable,
                LaunchAction::ResolveExecutable,
            ),
            LaunchEvent::Executable(Err(message)) => self.ended(
                Err("cannot resolve the current executable: "@ + message@),
            ),
            LaunchEvent::Executable(Ok(absolute)) => if absolute {
                self.on_to(LaunchPhase::Flags, LaunchAction::ComputeFlags)
            } else {
                self.ended(Err("current executable path is not absolute"@))
            },
            LaunchEvent::Flags(Err(message)) => self.ended(Err(message@)),
            LaunchEvent::Flags(Ok(())) => self.on_to(LaunchPhase::Spawn, LaunchAction::Spawn),
            LaunchEvent::Spawned(Err(message)) => self.ended(
                Err("cannot start DNS watchdog: "@ + message@),
            ),
            LaunchEvent::Spawned(Ok(())) => self.on_to(
                LaunchPhase::Independence,
                LaunchAction::VerifyIndependence,
            ),
            LaunchEvent::Independence(Err(message)) => self.abandoning(
                Abandoned::NotIndependent,
                message@,
            ),
            LaunchEvent::Independence(Ok(())) => self.on_to(
                LaunchPhase::Output,
                LaunchAction::TakeOutput,
            ),
            LaunchEvent::Output(available) => if available {
                self.on_to(LaunchPhase::Reader, LaunchAction::SpawnReader)
            } else {
                self.abandoning(Abandoned::NoOutput, Seq::empty())
            },
            LaunchEvent::Reader(Err(message)) => self.abandoning(
                Abandoned::NoReader,
                "cannot create DNS watchdog readiness reader: "@ + message@,
            ),
            LaunchEvent::Reader(Ok(())) => self.on_to(LaunchPhase::Ready, LaunchAction::AwaitReady),
            LaunchEvent::Ready(Err(message)) => self.abandoning(Abandoned::NotReady, message@),
            LaunchEvent::Ready(Ok(())) => self.on_to(LaunchPhase::Join, LaunchAction::JoinReader),
            LaunchEvent::Joined(joined) => if self.phase == LaunchPhase::JoinFailed {
                self.ended(
                    Err(abandoned_text(Abandoned::NotReady, self.message, self.stopped, joined)),
                )
            } else if joined {
                self.on_to(LaunchPhase::Inspect, LaunchAction::Inspect)
            } else {
                self.abandoning(Abandoned::ReaderStuck, Seq::empty())
            },
            LaunchEvent::Inspected(ProcessPoll::Running) => self.ended(Ok(())),
            LaunchEvent::Inspected(ProcessPoll::Exited(code)) => self.ended(
                Err(
                    "DNS watchdog exited before launch completed ("@ + code_text(code) + ")"@,
                ),
            ),
            LaunchEvent::Inspected(ProcessPoll::Failed(message)) => self.abandoning(
                Abandoned::NotInspected,
                message@,
            ),
            LaunchEvent::Terminated(stopped) => if self.abandoned == Some(Abandoned::NotReady) {
                LaunchView { stopped, ..self }.on_to(
                    LaunchPhase::JoinFailed,
                    LaunchAction::JoinReader,
                )
            } else {
                self.ended(
                    Err(abandoned_text(self.abandoned->0, self.message, stopped, true)),
                )
            },
        }
    }
}

/// Starting succeeds only where the watchdog was ready, its reader has ended and it
/// still runs; a watchdog that was started and is not handed over is told to end.
pub proof fn a_started_watchdog_is_handed_over_or_stopped(state: LaunchView, event: LaunchEvent)
    requires
        state.valid(),
        state.expects(event),
    ensures
        state.step(event).0.valid(),
        state.step(event).0.outcome matches Some(Ok(_)) ==> event matches LaunchEvent::Inspected(
            ProcessPoll::Running,
        ),
        state.step(event).1 == LaunchAction::Inspect ==> event matches LaunchEvent::Joined(true),
        state.step(event).1 == LaunchAction::JoinReader && state.phase == LaunchPhase::Ready
            ==> event matches LaunchEvent::Ready(Ok(_)),
        (state.phase == LaunchPhase::Independence || state.phase == LaunchPhase::Output
            || state.phase == LaunchPhase::Reader || state.phase == LaunchPhase::Ready
            || state.phase == LaunchPhase::Join) ==> state.step(event).1 != LaunchAction::Finish,
{
}

impl Launch {
    pub closed spec fn view(&self) -> LaunchView {
        LaunchView {
            phase: self.phase,
            abandoned: self.abandoned,
            message: self.message@,
            stopped: self.stopped,
            outcome: match self.outcome {
                Some(outcome) => Some(result_view(outcome)),
                None => None,
            },
        }
    }

    /// Begins; the identity of this process is found out first.
    pub fn start() -> (result: Self)
        ensures
            result@.valid(),
            result@ == (LaunchView {
                phase: LaunchPhase::Identity,
                abandoned: None,
                message: Seq::empty(),
                stopped: false,
                outcome: None,
            }),
    {
        Launch {
            phase: LaunchPhase::Identity,
            abandoned: None,
            message: String::new(),
            stopped: false,
            outcome: None,
        }
    }

    /// What starting the watchdog waits for.
    pub fn phase(&self) -> (result: LaunchPhase)
        ensures
            result == self@.phase,
    {
        self.phase
    }

    fn end(&mut self, outcome: Result<(), String>) -> (result: LaunchAction)
        ensures
            (final(self)@, result) == old(self)@.ended(result_view(outcome)),
    {
        self.phase = LaunchPhase::Finished;
        self.outcome = Some(outcome);
        LaunchAction::Finish
    }

    fn go_on(&mut self, phase: LaunchPhase, action: LaunchAction) -> (result: LaunchAction)
        ensures
            (final(self)@, result) == old(self)@.on_to(phase, action),
    {
        self.phase = phase;
        action
    }

    fn abandon(&mut self, abandoned: Abandoned, message: String) -> (result: LaunchAction)
        ensures
            (final(self)@, result) == old(self)@.abandoning(abandoned, message@),
    {
        self.phase = LaunchPhase::Terminate;
        self.abandoned = Some(abandoned);
        self.message = message;
        LaunchAction::Terminate
    }

    /// Takes an event that is waited for.
    pub fn step(&mut self, event: LaunchEvent) -> (result: LaunchAction)
        requires
            old(self)@.valid(),
            old(self)@.expects(event),
        ensures
            final(self)@.valid(),
            (final(self)@, result) == old(self)@.step(event),
    {
        proof {
            a_started_watchdog_is_handed_over_or_stopped(self@, event);
        }
        match event {
            LaunchEvent::Identity(Err(message)) => self.end(Err(message)),
            LaunchEvent::Identity(Ok(())) => self.go_on(
                LaunchPhase::Executable,
                LaunchAction::ResolveExecutable,
            ),
            LaunchEvent::Executable(Err(message)) => self.end(
                Err(join("cannot resolve the current executable: ", message.as_str())),
            ),
            LaunchEvent::Executable(Ok(absolute)) => if absolute {
                self.go_on(LaunchPhase::Flags, LaunchAction::ComputeFlags)
            } else {
                self.end(Err("current executable path is not absolute".to_owned()))
            },
            LaunchEvent::Flags(Err(message)) => self.end(Err(message)),
            LaunchEvent::Flags(Ok(())) => self.go_on(LaunchPhase::Spawn, LaunchAction::Spawn),
            LaunchEvent::Spawned(Err(message)) => self.end(
                Err(join("cannot start DNS watchdog: ", message.as_str())),
            ),
            LaunchEvent::Spawned(Ok(())) => self.go_on(
                LaunchPhase::Independence,
                LaunchAction::VerifyIndependence,
            ),
            LaunchEvent::Independence(Err(message)) => self.abandon(
                Abandoned::NotIndependent,
                message,
            ),
            LaunchEvent::Independence(Ok(())) => self.go_on(
                LaunchPhase::Output,
                LaunchAction::TakeOutput,
            ),
            LaunchEvent::Output(available) => if available {
                self.go_on(LaunchPhase::Reader, LaunchAction::SpawnReader)
            } else {
                self.abandon(Abandoned::NoOutput, String::new())
            },
            LaunchEvent::Reader(Err(message)) => self.abandon(
                Abandoned::NoReader,
                join("cannot create DNS watchdog readiness reader: ", message.as_str()),
            ),
            LaunchEvent::Reader(Ok(())) => self.go_on(LaunchPhase::Ready, LaunchAction::AwaitReady),
            LaunchEvent::Ready(Err(message)) => self.abandon(Abandoned::NotReady, message),
            LaunchEvent::Ready(Ok(())) => self.go_on(LaunchPhase::Join, LaunchAction::JoinReader),
            LaunchEvent::Joined(joined) => if self.phase == LaunchPhase::JoinFailed {
                let told = write_abandoned(
                    Abandoned::NotReady,
                    self.message.as_str(),
                    self.stopped,
                    joined,
                );
                self.end(Err(told))
            } else if joined {
                self.go_on(LaunchPhase::Inspect, LaunchAction::Inspect)
            } else {
                self.abandon(Abandoned::ReaderStuck, String::new())
            },
            LaunchEvent::Inspected(ProcessPoll::Running) => self.end(Ok(())),
            LaunchEvent::Inspected(ProcessPoll::Exited(code)) => self.end(
                Err(
                    join3(
                        "DNS watchdog exited before launch completed (",
                        write_code(code).as_str(),
                        ")",
                    ),
                ),
            ),
            LaunchEvent::Inspected(ProcessPoll::Failed(message)) => self.abandon(
                Abandoned::NotInspected,
                message,
            ),
            LaunchEvent::Terminated(stopped) => match self.abandoned {
                Some(Abandoned::NotReady) => {
                    self.stopped = stopped;
                    self.go_on(LaunchPhase::JoinFailed, LaunchAction::JoinReader)
                },
                Some(abandoned) => {
                    let told = write_abandoned(abandoned, self.message.as_str(), stopped, true);
                    self.end(Err(told))
                },
                None => LaunchAction::Finish,
            },
        }
    }

    /// What starting the watchdog came to.
    pub fn outcome(self) -> (result: Result<DnsWatchdogProcess, String>)
        requires
            self@.outcome is Some,
        ensures
            match self@.outcome->0 {
                Ok(()) => result matches Ok(process) && process.armed() && !process.leaving(),
                Err(message) => result matches Err(text) && text@ == message,
            },
    {
        match self.outcome {
            Some(Ok(())) => Ok(DnsWatchdogProcess { armed: true, leaving: false }),
            Some(Err(message)) => Err(message),
            None => Err(String::new()),
        }
    }
}

/// A watchdog that is on guard, until it has ended or was sent away.
#[derive(Debug, PartialEq, Eq)]
pub struct DnsWatchdogProcess {
    armed: bool,
    leaving: bool,
}

/// What has to be done to send a watchdog away.
#[derive(Clone, Copy, Debug, PartialEq, Eq, Structural)]
pub enum Disarm {
    /// It has ended already.
    Nothing,
    Terminate,
}

impl DnsWatchdogProcess {
    /// Whether the watchdog is on guard.
    pub closed spec fn armed(&self) -> bool {
        self.armed
    }

    /// Whether the journal was found gone, so that the watchdog may be told to end.
    pub closed spec fn leaving(&self) -> bool {
        self.leaving
    }

    /// Whether the watchdog is on guard.
    pub fn is_armed(&self) -> (result: bool)
        ensures
            result == self.armed(),
    {
        self.armed
    }

    /// Takes a look at the watchdog, if it is on guard: whether it runs.
    pub fn is_alive(&mut self, poll: ProcessPoll) -> (result: Result<bool, String>)
        ensures
            final(self).leaving() == (old(self).leaving() && final(self).armed()),
            !old(self).armed() ==> (result matches Ok(alive) && !alive) && !final(self).armed(),
            old(self).armed() ==> match poll {
                ProcessPoll::Exited(_) => (result matches Ok(alive) && !alive) && !final(
                    self).armed(),
                ProcessPoll::Running => (result matches Ok(alive) && alive) && final(self).armed(),
                ProcessPoll::Failed(error) => (result matches Err(message) && message@
                    == "cannot inspect DNS watchdog: "@ + error@) && final(self).armed(),
            },
    {
        if !self.armed {
            self.leaving = false;
            return Ok(false);
        }
        match poll {
            ProcessPoll::Exited(_) => {
                self.armed = false;
                self.leaving = false;
                Ok(false)
            },
            ProcessPoll::Running => Ok(true),
            ProcessPoll::Failed(error) => Err(
                join("cannot inspect DNS watchdog: ", error.as_str()),
            ),
        }
    }

    /// Whether the watchdog may be sent away: the journal has to be gone. Takes whether
    /// its place is known and whether it is there.
    pub fn disarm_after_restore(
        &mut self,
        place: Result<(), String>,
        journal: Result<bool, DnsConfigurationError>,
    ) -> (result: Result<Disarm, String>)
        ensures
            final(self).armed() == old(self).armed(),
            final(self).leaving() <==> place is Ok && journal == Ok::<bool, DnsConfigurationError>(
                false,
            ) && old(self).armed(),
            match place {
                Err(error) => result matches Err(message) && message@
                    == "cannot resolve trusted DNS journal: "@ + error@,
                Ok(()) => match journal {
                    Err(error) => result matches Err(message) && message@
                        == "cannot verify trusted DNS journal: "@ + error@.message(),
                    Ok(true) => result matches Err(message) && message@
                        == "trusted DNS recovery journal is still present"@,
                    Ok(false) => result matches Ok(disarm) && disarm == (if old(self).armed() {
                        Disarm::Terminate
                    } else {
                        Disarm::Nothing
                    }),
                },
            },
    {
        self.leaving = false;
        if let Err(error) = place {
            return Err(join("cannot resolve trusted DNS journal: ", error.as_str()));
        }
        match journal {
            Err(error) => Err(
                join("cannot verify trusted DNS journal: ", error.message().as_str()),
            ),
            Ok(true) => Err("trusted DNS recovery journal is still present".to_owned()),
            Ok(false) => if self.armed {
                self.leaving = true;
                Ok(Disarm::Terminate)
            } else {
                Ok(Disarm::Nothing)
            },
        }
    }

    /// Takes whether the watchdog that was told to end has ended; it stays on guard
    /// where it has not. It can only have been told so where the journal was found gone.
    pub fn disarmed(&mut self, terminated: bool) -> (result: Result<(), String>)
        requires
            old(self).armed(),
            old(self).leaving(),
        ensures
            final(self).armed() == !terminated,
            !final(self).leaving(),
            result is Ok <==> terminated,
            result matches Err(message) ==> message@
                == "DNS watchdog did not stop within the cleanup bound"@,
    {
        self.leaving = false;
        if terminated {
            self.armed = false;
            Ok(())
        } else {
            Err("DNS watchdog did not stop within the cleanup bound".to_owned())
        }
    }
}

/// A line of readiness is decoded exactly where it has at most 4095 bytes, begins with an
/// opening brace and ends with a closing one.
pub proof fn ready_lines_are_objects(line: Seq<u8>)
    ensures
        line_fault(line) is None <==> 1 <= line.len() <= 4095 && line[0] == '{' as u8
            && line[line.len() - 1] == '}' as u8,
        line.len() >= 4096 ==> line_fault(line) == Some(
            "DNS watchdog readiness line exceeds 4096 bytes"@,
        ),
        line.len() < 4096 && line_fault(line) is Some ==> line_fault(line) == Some(
            "DNS watchdog readiness is not a strict JSON object"@,
        ),
{
}

/// A decoded line tells readiness exactly where its status is so.
pub proof fn ready_messages_say_so(decoded: Result<ReadyMessage, String>)
    ensures
        message_fault(decoded) is None <==> decoded is Ok && decoded->Ok_0.status@ == "ready"@,
        decoded matches Err(message) ==> message_fault(decoded) == Some(
            "invalid DNS watchdog readiness JSON: "@ + message@,
        ),
        decoded is Ok && message_fault(decoded) is Some ==> message_fault(decoded) == Some(
            "DNS watchdog readiness status was not ready"@,
        ),
{
}

/// A line of readiness is complete at its line feed, which is not part of it; every other
/// byte is added to it, up to 4095. It fails where there is no byte.
pub proof fn ready_lines_grow_to_their_line_feed(line: Seq<u8>, read: ReadyByte)
    ensures
        ({
            let (after, told) = ready_step(line, read);
            &&& told is Line <==> read == ReadyByte::Byte(10)
            &&& told is Line ==> told->Line_0 == line
            &&& told is More <==> (read matches ReadyByte::Byte(byte) && byte != 10 && line.len()
                < 4095)
            &&& read matches ReadyByte::Byte(byte) ==> (told is More ==> after == line + seq![byte])
            &&& !(told is More) ==> after == line
            &&& read is End ==> told == ReadyView::Failed("DNS watchdog exited before readiness"@)
            &&& read is BadCount ==> told == ReadyView::Failed(
                "DNS watchdog readiness reader returned an invalid byte count"@,
            )
            &&& read matches ReadyByte::Failed(message) ==> told == ReadyView::Failed(
                "reading DNS watchdog readiness failed: "@ + message@,
            )
            &&& read is Byte && told is Failed ==> told == ReadyView::Failed(
                "DNS watchdog readiness line exceeds 4096 bytes"@,
            )
        }),
{
    if let ReadyByte::Byte(byte) = read {
        assert(line.push(byte) =~= line + seq![byte]);
    }
}

/// What follows each event while the watchdog is started. A failure before there is a
/// process ends it; one after that stops the process first, and tells whether that
/// succeeded. It succeeds where the process was ready and still runs.
pub proof fn launches_go_step_by_step(state: LaunchView, event: LaunchEvent)
    requires
        state.valid(),
        state.expects(event),
    ensures
        ({
            let (after, action) = state.step(event);
            let refused = match event {
                LaunchEvent::Identity(Err(message)) => Some(message@),
                LaunchEvent::Executable(Err(message)) => Some(
                    "cannot resolve the current executable: "@ + message@,
                ),
                LaunchEvent::Executable(Ok(false)) => Some(
                    "current executable path is not absolute"@,
                ),
                LaunchEvent::Flags(Err(message)) => Some(message@),
                LaunchEvent::Spawned(Err(message)) => Some(
                    "cannot start DNS watchdog: "@ + message@,
                ),
                LaunchEvent::Inspected(ProcessPoll::Exited(code)) => Some(
                    "DNS watchdog exited before launch completed ("@ + code_text(code) + ")"@,
                ),
                _ => None,
            };
            let stops = match event {
                LaunchEvent::Independence(Err(_)) => true,
                LaunchEvent::Output(available) => !available,
                LaunchEvent::Reader(Err(_)) => true,
                LaunchEvent::Ready(Err(_)) => true,
                LaunchEvent::Joined(joined) => state.phase is Join && !joined,
                LaunchEvent::Inspected(ProcessPoll::Failed(_)) => true,
                _ => false,
            };
            let ends = event is Terminated && !(state.abandoned->0 is NotReady) || state.phase
                is JoinFailed;
            &&& refused is Some ==> action is Finish && after.outcome == Some(
                Err::<(), Seq<char>>(refused->0),
            )
            &&& action is Terminate <==> stops
            &&& stops ==> after.phase is Terminate
            &&& (after.outcome matches Some(Ok(_))) <==> (event matches LaunchEvent::Inspected(
                ProcessPoll::Running,
            ))
            &&& action is Finish <==> after.outcome is Some
            &&& after.outcome is Some <==> refused is Some || ends || (event
                matches LaunchEvent::Inspected(ProcessPoll::Running))
            &&& refused is None && !stops ==> match event {
                LaunchEvent::Identity(_) => action is ResolveExecutable && after.phase is Executable,
                LaunchEvent::Executable(_) => action is ComputeFlags && after.phase is Flags,
                LaunchEvent::Flags(_) => action is Spawn && after.phase is Spawn,
                LaunchEvent::Spawned(_) => action is VerifyIndependence && after.phase
                    is Independence,
                LaunchEvent::Independence(_) => action is TakeOutput && after.phase is Output,
                LaunchEvent::Output(_) => action is SpawnReader && after.phase is Reader,
                LaunchEvent::Reader(_) => action is AwaitReady && after.phase is Ready,
                LaunchEvent::Ready(_) => action is JoinReader && after.phase is Join,
                LaunchEvent::Joined(_) => state.phase is Join ==> action is Inspect && after.phase
                    is Inspect,
                LaunchEvent::Inspected(_) => true,
                LaunchEvent::Terminated(_) => state.abandoned->0 is NotReady ==> action
                    is JoinReader && after.phase is JoinFailed,
            }
        }),
{
}

/// What is told of a watchdog that was stopped again: the failure itself, and whether the
/// process, or the reader of its output, could not be brought to an end.
pub proof fn incomplete_cleanups_are_told(message: Seq<char>)
    ensures
        forall|stopped: bool, joined: bool| #[trigger]
            abandoned_text(Abandoned::NotReady, message, stopped, joined) == message + (
            match (stopped, joined) {
                (true, true) => Seq::empty(),
                (true, false) => "; readiness reader cleanup was incomplete"@,
                (false, true) => "; watchdog cleanup was incomplete"@,
                (
                    false,
                    false,
                ) => "; watchdog cleanup was incomplete and readiness reader cleanup was incomplete"@,
            }),
        forall|stopped: bool, joined: bool| #[trigger]
            abandoned_text(Abandoned::NotIndependent, message, stopped, joined) == message + (
            if stopped {
                Seq::empty()
            } else {
                "; watchdog cleanup was incomplete"@
            }),
        forall|stopped: bool, joined: bool| #[trigger]
            abandoned_text(Abandoned::NoReader, message, stopped, joined) == message + (
            if stopped {
                "; watchdog cleanup completed"@
            } else {
                "; watchdog cleanup was incomplete"@
            }),
        forall|stopped: bool, joined: bool| #[trigger]
            abandoned_text(Abandoned::NotInspected, message, stopped, joined)
                == "cannot inspect DNS watchdog after readiness: "@ + message + (if stopped {
                Seq::empty()
            } else {
                "; cleanup was incomplete"@
            }),
{
    assert(message + Seq::empty() =~= message);
    let inspected = "cannot inspect DNS watchdog after readiness: "@ + message;
    assert(inspected + Seq::empty() =~= inspected);
}

/// An exit code is told with its sign, and a process without one as terminated.
pub proof fn exit_codes_are_told(code: i32)
    ensures
        code >= 0 ==> code_text(Some(code)) == decimal(code as nat),
        code < 0 ==> code_text(Some(code)) == seq!['-'] + decimal((0 - code) as nat),
        code_text(None) == "terminated"@,
{
    reveal_strlit("-");
    assert("-"@ =~= seq!['-']);
}

} // verus!
