//! What becomes of the companion process.
//!
//! The companion's pipes, its process handle and its clock belong to the caller,
//! who reports what they say; this module decides. A transparent companion whose
//! control channel is in doubt is kept, with its reserved ports, until it is
//! stopped explicitly.

use crate::digest::{sha256, sha256_hex};
use crate::dns_process::{
    empty_fault, encode_flow_command, encode_reload_command, error_fault, flow_command_of,
    ready_fault, ready_outcome, ready_status, reload_command, transparent_ready_fault,
    validate_empty_status, validate_error_status, validate_listeners, validate_ready_status,
    validate_transparent_listeners, validate_updated_status, wire_error, wire_message,
    carries_endpoints, DnsProcessConfig, DnsProcessStatus, StatusView, TransparentDnsConfig,
    TransparentFlowRegistration, WireStatus, MAX_RULE_TEXT_BYTES, MAX_STATUS_LINE_BYTES,
};
use crate::text::{
    byte_len, decimal, decimal_text, hex_of, join, join3, join4, join5, quoted, quoted_text,
    same_bytes, same_text,
};
use vstd::prelude::*;
use vstd::string::*;

verus! {

/// What is known of the companion process.
#[derive(Debug, PartialEq, Eq)]
pub enum ChildState {
    Running,
    Exited(u32),
    Unknown(String),
}

/// What a wait for the companion brought.
#[derive(Debug, PartialEq, Eq)]
pub enum Arrival {
    /// A line of some bytes, and the status that it holds or why it holds none.
    Line { length: usize, status: Result<WireStatus, String> },
    /// The output could not be read.
    Failed(String),
    /// The output ended.
    Closed,
    /// Nothing came for a while.
    Quiet(ChildState),
    /// The reader is gone.
    Disconnected,
    /// The deadline has passed.
    TimedOut,
}

/// What is said of a line that holds no status.
pub open spec fn bad_line(length: nat, error: Seq<char>) -> Seq<char> {
    "invalid DNS proxy status JSON ("@ + decimal(length) + " bytes): "@ + error
}

fn bad_line_message(length: usize, error: &String) -> (result: String)
    ensures
        result@ == bad_line(length as nat, error@),
{
    join4(
        "invalid DNS proxy status JSON (",
        decimal_text(length as u64).as_str(),
        " bytes): ",
        error.as_str(),
    )
}

/// How the start of the companion goes on.
#[derive(Debug, PartialEq, Eq)]
pub enum ReadyStep {
    Wait,
    Ready(DnsProcessStatus),
    Failed(String),
}

/// How the start goes on, as mathematical values.
pub ghost enum ReadyView {
    Wait,
    Ready(StatusView),
    Failed(Seq<char>),
}

impl ReadyStep {
    pub open spec fn view(&self) -> ReadyView {
        match self {
            ReadyStep::Wait => ReadyView::Wait,
            ReadyStep::Ready(status) => ReadyView::Ready(status@),
            ReadyStep::Failed(message) => ReadyView::Failed(message@),
        }
    }
}

/// What a status line means while the companion starts.
pub open spec fn ready_line(wire: WireStatus) -> ReadyView {
    if wire.status@ == "ready"@ {
        if wire.error is Some {
            ReadyView::Failed("DNS proxy ready status carried an unexpected error"@)
        } else {
            match ready_outcome(wire) {
                Ok(status) => ReadyView::Ready(status),
                Err(message) => ReadyView::Failed(message),
            }
        }
    } else if wire.status@ == "error"@ {
        match error_fault(wire, "startup"@) {
            Some(message) => ReadyView::Failed(message),
            None => ReadyView::Failed(wire_message(wire)),
        }
    } else if wire.status@ == "stopped"@ {
        match empty_fault(wire, "stopped"@) {
            Some(message) => ReadyView::Failed(message),
            None => ReadyView::Failed("DNS proxy stopped before becoming ready"@),
        }
    } else {
        ReadyView::Failed("DNS proxy reported unsupported status "@ + quoted(wire.status@))
    }
}

/// What an arrival means while the companion starts.
pub open spec fn ready_arrival(arrival: Arrival) -> ReadyView {
    match arrival {
        Arrival::TimedOut => ReadyView::Failed("DNS proxy did not become ready within 10 seconds"@),
        Arrival::Line { length, status } => match status {
            Ok(wire) => ready_line(wire),
            Err(error) => ReadyView::Failed(bad_line(length as nat, error@)),
        },
        Arrival::Failed(error) => ReadyView::Failed("DNS proxy output failed: "@ + error@),
        Arrival::Closed => ReadyView::Failed("DNS proxy output closed before becoming ready"@),
        Arrival::Quiet(ChildState::Running) => ReadyView::Wait,
        Arrival::Quiet(ChildState::Exited(code)) => ReadyView::Failed(
            "DNS proxy exited before becoming ready ("@ + decimal(code as nat) + ")"@,
        ),
        Arrival::Quiet(ChildState::Unknown(error)) => ReadyView::Failed(
            "cannot inspect DNS proxy: "@ + error@,
        ),
        Arrival::Disconnected => ReadyView::Failed(
            "DNS proxy output channel disconnected before becoming ready"@,
        ),
    }
}

fn read_ready_status(status: WireStatus) -> (result: ReadyStep)
    ensures
        result@ == ready_line(status),
{
    if same_text(status.status.as_str(), "ready") {
        match validate_ready_status(&status) {
            Ok(()) => {},
            Err(message) => return ReadyStep::Failed(message),
        }
        match ready_status(status) {
            Ok(ready) => ReadyStep::Ready(ready),
            Err(message) => ReadyStep::Failed(message),
        }
    } else if same_text(status.status.as_str(), "error") {
        match validate_error_status(&status, "startup") {
            Ok(()) => ReadyStep::Failed(wire_error(&status)),
            Err(message) => ReadyStep::Failed(message),
        }
    } else if same_text(status.status.as_str(), "stopped") {
        match validate_empty_status(&status, "stopped") {
            Ok(()) => ReadyStep::Failed("DNS proxy stopped before becoming ready".to_owned()),
            Err(message) => ReadyStep::Failed(message),
        }
    } else {
        ReadyStep::Failed(
            join(
                "DNS proxy reported unsupported status ",
                quoted_text(status.status.as_str()).as_str(),
            ),
        )
    }
}

/// Takes what came while waiting for the companion to become ready.
pub fn wait_ready(arrival: Arrival) -> (result: ReadyStep)
    ensures
        result@ == ready_arrival(arrival),
{
    match arrival {
        Arrival::TimedOut => ReadyStep::Failed(
            "DNS proxy did not become ready within 10 seconds".to_owned(),
        ),
        Arrival::Line { length, status } => match status {
            Ok(wire) => read_ready_status(wire),
            Err(error) => ReadyStep::Failed(bad_line_message(length, &error)),
        },
        Arrival::Failed(error) => ReadyStep::Failed(
            join("DNS proxy output failed: ", error.as_str()),
        ),
        Arrival::Closed => ReadyStep::Failed(
            "DNS proxy output closed before becoming ready".to_owned(),
        ),
        Arrival::Quiet(ChildState::Running) => ReadyStep::Wait,
        Arrival::Quiet(ChildState::Exited(code)) => ReadyStep::Failed(
            join3(
                "DNS proxy exited before becoming ready (",
                decimal_text(code as u64).as_str(),
                ")",
            ),
        ),
        Arrival::Quiet(ChildState::Unknown(error)) => ReadyStep::Failed(
            join("cannot inspect DNS proxy: ", error.as_str()),
        ),
        Arrival::Disconnected => ReadyStep::Failed(
            "DNS proxy output channel disconnected before becoming ready".to_owned(),
        ),
    }
}

/// How a command to the companion goes on.
#[derive(Debug, PartialEq, Eq)]
pub enum CommandStep {
    Wait,
    /// A reload was acknowledged; this is the status from now on.
    Updated(DnsProcessStatus),
    /// The command was acknowledged.
    Acknowledged,
    /// The companion refused the command and is as it was.
    Rejected(String),
    /// The companion or its channel can no longer be relied on.
    Uncertain(String),
}

/// How a command goes on, as mathematical values.
pub ghost enum CommandView {
    Wait,
    Updated(StatusView),
    Acknowledged,
    Rejected(Seq<char>),
    Uncertain(Seq<char>),
}

impl CommandStep {
    pub open spec fn view(&self) -> CommandView {
        match self {
            CommandStep::Wait => CommandView::Wait,
            CommandStep::Updated(status) => CommandView::Updated(status@),
            CommandStep::Acknowledged => CommandView::Acknowledged,
            CommandStep::Rejected(message) => CommandView::Rejected(message@),
            CommandStep::Uncertain(message) => CommandView::Uncertain(message@),
        }
    }
}

/// What a status line means while rules are reloaded: only the count of rules
/// changes.
pub open spec fn reload_line(current: Option<StatusView>, wire: WireStatus) -> CommandView {
    if wire.status@ == "updated"@ {
        if wire.error is Some || carries_endpoints(wire) {
            CommandView::Uncertain("DNS proxy updated status carried an invalid payload"@)
        } else {
            match current {
                None => CommandView::Uncertain("DNS proxy reload succeeded before a ready status"@),
                Some(status) => CommandView::Updated(
                    StatusView {
                        rules_count: match wire.rules_count {
                            Some(count) => count,
                            None => 0,
                        },
                        ..status
                    },
                ),
            }
        }
    } else if wire.status@ == "error"@ {
        match error_fault(wire, "reload"@) {
            Some(message) => CommandView::Uncertain(message),
            None => CommandView::Rejected(
                "DNS proxy rejected rule reload: "@ + wire_message(wire),
            ),
        }
    } else if wire.status@ == "stopped"@ {
        match empty_fault(wire, "stopped"@) {
            Some(message) => CommandView::Uncertain(message),
            None => CommandView::Uncertain("DNS proxy stopped while reloading rules"@),
        }
    } else {
        CommandView::Uncertain(
            "DNS proxy reported unsupported reload status "@ + quoted(wire.status@),
        )
    }
}

/// What an arrival means while rules are reloaded.
pub open spec fn reload_arrival(current: Option<StatusView>, arrival: Arrival) -> CommandView {
    match arrival {
        Arrival::TimedOut => CommandView::Uncertain(
            "DNS proxy reload did not respond within "@ + decimal(10) + " seconds"@,
        ),
        Arrival::Line { length, status } => match status {
            Ok(wire) => reload_line(current, wire),
            Err(error) => CommandView::Uncertain(bad_line(length as nat, error@)),
        },
        Arrival::Failed(error) => CommandView::Uncertain(
            "DNS proxy output failed during reload: "@ + error@,
        ),
        Arrival::Closed => CommandView::Uncertain("DNS proxy output closed during reload"@),
        Arrival::Quiet(ChildState::Running) => CommandView::Wait,
        Arrival::Quiet(ChildState::Exited(code)) => CommandView::Uncertain(
            "DNS proxy exited during reload ("@ + decimal(code as nat) + ")"@,
        ),
        Arrival::Quiet(ChildState::Unknown(error)) => CommandView::Uncertain(
            "cannot inspect DNS proxy during reload: "@ + error@,
        ),
        Arrival::Disconnected => CommandView::Uncertain(
            "DNS proxy output channel disconnected during reload"@,
        ),
    }
}

fn read_reload_status(current: &Option<DnsProcessStatus>, status: WireStatus) -> (result: CommandStep)
    ensures
        result@ == reload_line(option_view(*current), status),
{
    if same_text(status.status.as_str(), "updated") {
        match validate_updated_status(&status) {
            Ok(()) => {},
            Err(message) => return CommandStep::Uncertain(message),
        }
        match current {
            None => CommandStep::Uncertain(
                "DNS proxy reload succeeded before a ready status".to_owned(),
            ),
            Some(ready) => {
                let mut next = ready.copied();
                next.rules_count = match status.rules_count {
                    Some(count) => count,
                    None => 0,
                };
                CommandStep::Updated(next)
            },
        }
    } else if same_text(status.status.as_str(), "error") {
        match validate_error_status(&status, "reload") {
            Ok(()) => CommandStep::Rejected(
                join("DNS proxy rejected rule reload: ", wire_error(&status).as_str()),
            ),
            Err(message) => CommandStep::Uncertain(message),
        }
    } else if same_text(status.status.as_str(), "stopped") {
        match validate_empty_status(&status, "stopped") {
            Ok(()) => CommandStep::Uncertain("DNS proxy stopped while reloading rules".to_owned()),
            Err(message) => CommandStep::Uncertain(message),
        }
    } else {
        CommandStep::Uncertain(
            join(
                "DNS proxy reported unsupported reload status ",
                quoted_text(status.status.as_str()).as_str(),
            ),
        )
    }
}

/// The mathematical value of a status that may be missing.
pub open spec fn option_view(status: Option<DnsProcessStatus>) -> Option<StatusView> {
    match status {
        Some(ready) => Some(ready@),
        None => None,
    }
}

/// Takes what came while waiting for a reload.
pub fn wait_reload(current: &Option<DnsProcessStatus>, arrival: Arrival) -> (result: CommandStep)
    ensures
        result@ == reload_arrival(option_view(*current), arrival),
{
    match arrival {
        Arrival::TimedOut => CommandStep::Uncertain(
            join3(
                "DNS proxy reload did not respond within ",
                decimal_text(10).as_str(),
                " seconds",
            ),
        ),
        Arrival::Line { length, status } => match status {
            Ok(wire) => read_reload_status(current, wire),
            Err(error) => CommandStep::Uncertain(bad_line_message(length, &error)),
        },
        Arrival::Failed(error) => CommandStep::Uncertain(
            join("DNS proxy output failed during reload: ", error.as_str()),
        ),
        Arrival::Closed => CommandStep::Uncertain(
            "DNS proxy output closed during reload".to_owned(),
        ),
        Arrival::Quiet(ChildState::Running) => CommandStep::Wait,
        Arrival::Quiet(ChildState::Exited(code)) => CommandStep::Uncertain(
            join3(
                "DNS proxy exited during reload (",
                decimal_text(code as u64).as_str(),
                ")",
            ),
        ),
        Arrival::Quiet(ChildState::Unknown(error)) => CommandStep::Uncertain(
            join("cannot inspect DNS proxy during reload: ", error.as_str()),
        ),
        Arrival::Disconnected => CommandStep::Uncertain(
            "DNS proxy output channel disconnected during reload".to_owned(),
        ),
    }
}

/// What a status line means while a command waits for its acknowledgement.
pub open spec fn ack_line(
    operation: Seq<char>,
    expected: Seq<char>,
    wire: WireStatus,
) -> CommandView {
    if wire.status@ == expected {
        match empty_fault(wire, operation) {
            Some(message) => CommandView::Uncertain(message),
            None => CommandView::Acknowledged,
        }
    } else if wire.status@ == "error"@ {
        match error_fault(wire, operation) {
            Some(message) => CommandView::Uncertain(message),
            None => CommandView::Rejected(
                "DNS proxy rejected "@ + operation + " flow: "@ + wire_message(wire),
            ),
        }
    } else if wire.status@ == "stopped"@ {
        match empty_fault(wire, "stopped"@) {
            Some(message) => CommandView::Uncertain(message),
            None => CommandView::Uncertain(
                "DNS proxy stopped while processing "@ + operation + " flow"@,
            ),
        }
    } else {
        CommandView::Uncertain(
            "DNS proxy reported unsupported "@ + operation + " flow status "@ + quoted(
                wire.status@,
            ),
        )
    }
}

/// What an arrival means while a command waits for its acknowledgement.
pub open spec fn ack_arrival(
    operation: Seq<char>,
    expected: Seq<char>,
    timeout_secs: u64,
    arrival: Arrival,
) -> CommandView {
    match arrival {
        Arrival::TimedOut => CommandView::Uncertain(
            "DNS proxy "@ + operation + " command did not respond within "@ + decimal(
                timeout_secs as nat,
            ) + " seconds"@,
        ),
        Arrival::Line { length, status } => match status {
            Ok(wire) => ack_line(operation, expected, wire),
            Err(error) => CommandView::Uncertain(bad_line(length as nat, error@)),
        },
        Arrival::Failed(error) => CommandView::Uncertain(
            "DNS proxy output failed during "@ + operation + " flow: "@ + error@,
        ),
        Arrival::Closed => CommandView::Uncertain(
            "DNS proxy output closed during "@ + operation + " flow"@,
        ),
        Arrival::Quiet(ChildState::Running) => CommandView::Wait,
        Arrival::Quiet(ChildState::Exited(code)) => CommandView::Uncertain(
            "DNS proxy exited during "@ + operation + " flow ("@ + decimal(code as nat) + ")"@,
        ),
        Arrival::Quiet(ChildState::Unknown(error)) => CommandView::Uncertain(
            "cannot inspect DNS proxy during "@ + operation + " flow: "@ + error@,
        ),
        Arrival::Disconnected => CommandView::Uncertain(
            "DNS proxy output channel disconnected during "@ + operation + " flow"@,
        ),
    }
}

fn read_ack_status(operation: &str, expected: &str, status: WireStatus) -> (result: CommandStep)
    ensures
        result@ == ack_line(operation@, expected@, status),
{
    if same_text(status.status.as_str(), expected) {
        match validate_empty_status(&status, operation) {
            Ok(()) => CommandStep::Acknowledged,
            Err(message) => CommandStep::Uncertain(message),
        }
    } else if same_text(status.status.as_str(), "error") {
        match validate_error_status(&status, operation) {
            Ok(()) => CommandStep::Rejected(
                join4("DNS proxy rejected ", operation, " flow: ", wire_error(&status).as_str()),
            ),
            Err(message) => CommandStep::Uncertain(message),
        }
    } else if same_text(status.status.as_str(), "stopped") {
        match validate_empty_status(&status, "stopped") {
            Ok(()) => CommandStep::Uncertain(
                join3("DNS proxy stopped while processing ", operation, " flow"),
            ),
            Err(message) => CommandStep::Uncertain(message),
        }
    } else {
        CommandStep::Uncertain(
            join4(
                "DNS proxy reported unsupported ",
                operation,
                " flow status ",
                quoted_text(status.status.as_str()).as_str(),
            ),
        )
    }
}

/// Takes what came while a command waits for its acknowledgement.
pub fn wait_command_ack(
    operation: &str,
    expected: &str,
    timeout_secs: u64,
    arrival: Arrival,
) -> (result: CommandStep)
    ensures
        result@ == ack_arrival(operation@, expected@, timeout_secs, arrival),
{
    match arrival {
        Arrival::TimedOut => CommandStep::Uncertain(
            join5(
                "DNS proxy ",
                operation,
                " command did not respond within ",
                decimal_text(timeout_secs).as_str(),
                " seconds",
            ),
        ),
        Arrival::Line { length, status } => match status {
            Ok(wire) => read_ack_status(operation, expected, wire),
            Err(error) => CommandStep::Uncertain(bad_line_message(length, &error)),
        },
        Arrival::Failed(error) => CommandStep::Uncertain(
            join4("DNS proxy output failed during ", operation, " flow: ", error.as_str()),
        ),
        Arrival::Closed => CommandStep::Uncertain(
            join3("DNS proxy output closed during ", operation, " flow"),
        ),
        Arrival::Quiet(ChildState::Running) => CommandStep::Wait,
        Arrival::Quiet(ChildState::Exited(code)) => CommandStep::Uncertain(
            join5(
                "DNS proxy exited during ",
                operation,
                " flow (",
                decimal_text(code as u64).as_str(),
                ")",
            ),
        ),
        Arrival::Quiet(ChildState::Unknown(error)) => CommandStep::Uncertain(
            join4("cannot inspect DNS proxy during ", operation, " flow: ", error.as_str()),
        ),
        Arrival::Disconnected => CommandStep::Uncertain(
            join3("DNS proxy output channel disconnected during ", operation, " flow"),
        ),
    }
}

/// Whether the companion admits flows.
#[derive(Clone, Copy, Debug, PartialEq, Eq, Structural)]
pub enum Quiescence {
    Active,
    Quiesced,
    Uncertain,
}

/// Whether the companion's control channel can be relied on.
#[derive(Clone, Copy, Debug, PartialEq, Eq, Structural)]
pub enum ControlState {
    Certain,
    Uncertain,
}

/// What is kept of the running companion.
#[derive(Debug, PartialEq, Eq)]
struct Companion {
    status: Option<DnsProcessStatus>,
    quiescence: Quiescence,
    control: ControlState,
    writer_pending: bool,
}

/// What is kept of the running companion, as mathematical values.
pub ghost struct CompanionView {
    pub status: Option<StatusView>,
    pub quiescence: Quiescence,
    pub control: ControlState,
    pub writer_pending: bool,
}

impl CompanionView {
    /// A transparent companion reserves source endpoints.
    pub open spec fn transparent(self) -> bool {
        self.status matches Some(status) && status.slots.len() > 0
    }
}

impl Companion {
    spec fn view(&self) -> CompanionView {
        CompanionView {
            status: option_view(self.status),
            quiescence: self.quiescence,
            control: self.control,
            writer_pending: self.writer_pending,
        }
    }

    fn is_transparent(&self) -> (result: bool)
        ensures
            result == self@.transparent(),
    {
        match &self.status {
            Some(status) => status.slots.len() > 0,
            None => false,
        }
    }
}

/// Why a companion takes no commands.
pub open spec fn active_fault(running: Option<CompanionView>) -> Option<Seq<char>> {
    match running {
        None => None,
        Some(companion) => if companion.control == ControlState::Uncertain {
            Some("DNS companion control state is uncertain; stop before retrying"@)
        } else if companion.quiescence != Quiescence::Active {
            Some("DNS companion is quiescing or quiesced"@)
        } else {
            None
        },
    }
}

/// What asking for a start does: the companion that is there afterwards, and
/// whether a dead one has to be cleaned up first.
pub open spec fn start_admission(running: Option<CompanionView>, child: ChildState) -> (
    Option<CompanionView>,
    Result<bool, Seq<char>>,
) {
    match running {
        None => (None, Ok(false)),
        Some(companion) => if active_fault(running) is Some {
            (running, Err(active_fault(running)->0))
        } else {
            match child {
                ChildState::Running => (running, Err("DNS proxy is already running"@)),
                ChildState::Exited(code) => if companion.transparent() {
                    (
                        Some(CompanionView { control: ControlState::Uncertain, ..companion }),
                        Err(
                            "DNS proxy stopped unexpectedly ("@ + decimal(code as nat)
                                + "); explicit stop is required before restart"@,
                        ),
                    )
                } else {
                    (None, Ok(true))
                },
                ChildState::Unknown(error) => (
                    running,
                    Err("cannot inspect existing DNS proxy: "@ + error@),
                ),
            }
        },
    }
}

/// What looking at the companion does and shows. A dead transparent companion, or
/// one that was quiescing, stays until it is stopped.
pub open spec fn status_observation(running: Option<CompanionView>, child: ChildState) -> (
    Option<CompanionView>,
    Result<Option<StatusView>, Seq<char>>,
) {
    match running {
        None => (None, Ok(None)),
        Some(companion) => match child {
            ChildState::Running => (running, Ok(companion.status)),
            ChildState::Exited(code) => {
                let next = if companion.transparent() {
                    Some(CompanionView { control: ControlState::Uncertain, ..companion })
                } else if companion.quiescence == Quiescence::Active {
                    None
                } else {
                    running
                };
                (
                    next,
                    Err("DNS proxy stopped unexpectedly ("@ + decimal(code as nat) + ")"@),
                )
            },
            ChildState::Unknown(error) => (running, Err("cannot inspect DNS proxy: "@ + error@)),
        },
    }
}

/// What the outcome of a command does to the companion, and whether its process
/// has to be ended. A transparent companion in doubt is kept; any other is ended.
pub open spec fn command_settlement(running: Option<CompanionView>, step: CommandView) -> (
    Option<CompanionView>,
    bool,
) {
    match (running, step) {
        (Some(companion), CommandView::Updated(status)) => (
            Some(CompanionView { status: Some(status), ..companion }),
            false,
        ),
        (Some(companion), CommandView::Uncertain(_)) => if companion.transparent() {
            (Some(CompanionView { control: ControlState::Uncertain, ..companion }), false)
        } else {
            (None, true)
        },
        _ => (running, false),
    }
}

/// Why admission cannot be stopped now; `None` also where it has stopped already.
pub open spec fn quiesce_fault(running: Option<CompanionView>) -> Option<Seq<char>> {
    match running {
        None => Some("DNS proxy is not running"@),
        Some(companion) => if companion.control == ControlState::Uncertain {
            Some(
                "DNS companion control state is uncertain; stop interception before stopping the companion"@,
            )
        } else if companion.quiescence == Quiescence::Quiesced {
            None
        } else if companion.quiescence == Quiescence::Uncertain {
            Some(
                "DNS quiescence is uncertain; stop interception before stopping the companion"@,
            )
        } else if !companion.transparent() {
            Some("quiesce requires a transparent DNS companion"@)
        } else {
            None
        },
    }
}

/// How a companion is stopped.
#[derive(Clone, Copy, Debug, PartialEq, Eq, Structural)]
pub enum StopPlan {
    /// There is none.
    Nothing,
    /// Its process is ended: a command could race one that is still being written.
    Terminate,
    /// It is asked to stop.
    Ask,
}

/// How a companion is stopped.
pub open spec fn stop_plan(running: Option<CompanionView>) -> StopPlan {
    match running {
        None => StopPlan::Nothing,
        Some(companion) => if companion.writer_pending || companion.control
            == ControlState::Uncertain || companion.quiescence == Quiescence::Uncertain {
            StopPlan::Terminate
        } else {
            StopPlan::Ask
        },
    }
}

/// How the write of a control command to a transparent companion ended. The pipe
/// itself is kept in every case, so that the companion never sees it close.
#[derive(Debug, PartialEq, Eq)]
pub enum ControlWrite {
    Written,
    NoPipe,
    NotRetained(String),
    NoWorker(String),
    Failed(String),
    /// The writer is still at it.
    TimedOut,
    Disconnected,
}

/// What is said of a control write that did not end well.
pub open spec fn control_fault(operation: Seq<char>, write: ControlWrite) -> Option<Seq<char>> {
    match write {
        ControlWrite::Written => None,
        ControlWrite::NoPipe => Some("DNS proxy stdin is unavailable"@),
        ControlWrite::NotRetained(error) => Some(
            "cannot retain "@ + operation + " pipe: "@ + error@,
        ),
        ControlWrite::NoWorker(error) => Some(
            "cannot start "@ + operation + " worker: "@ + error@,
        ),
        ControlWrite::Failed(error) => Some(operation + " failed: "@ + error@),
        ControlWrite::TimedOut => Some(operation + " is uncertain: writer deadline expired"@),
        ControlWrite::Disconnected => Some(operation + " is uncertain: writer disconnected"@),
    }
}

/// How a write to the pipe of a companion goes on, which ends the companion where
/// it cannot be finished.
#[derive(Debug, PartialEq, Eq)]
pub enum PipeWrite {
    Written,
    NoWorker(String),
    Failed(String),
    Quiet(ChildState),
    Disconnected,
    TimedOut,
}

/// What to do about a write to the pipe.
#[derive(Debug, PartialEq, Eq)]
pub enum PipeStep {
    Wait,
    Written,
    Failed { message: String, terminate: bool },
}

/// What to do about a write, as mathematical values.
pub ghost enum PipeView {
    Wait,
    Written,
    Failed { message: Seq<char>, terminate: bool },
}

impl PipeStep {
    pub open spec fn view(&self) -> PipeView {
        match self {
            PipeStep::Wait => PipeView::Wait,
            PipeStep::Written => PipeView::Written,
            PipeStep::Failed { message, terminate } => PipeView::Failed {
                message: message@,
                terminate: *terminate,
            },
        }
    }
}

/// What an outcome of a pipe write means.
pub open spec fn pipe_view(operation: Seq<char>, write: PipeWrite) -> PipeView {
    match write {
        PipeWrite::Written => PipeView::Written,
        PipeWrite::NoWorker(error) => PipeView::Failed {
            message: "cannot create "@ + operation + " worker: "@ + error@,
            terminate: true,
        },
        PipeWrite::Failed(error) => PipeView::Failed {
            message: operation + " failed: "@ + error@,
            terminate: false,
        },
        PipeWrite::Quiet(ChildState::Running) => PipeView::Wait,
        PipeWrite::Quiet(ChildState::Exited(_)) => PipeView::Failed {
            message: operation + " failed because DNS proxy exited"@,
            terminate: false,
        },
        PipeWrite::Quiet(ChildState::Unknown(error)) => PipeView::Failed {
            message: "cannot inspect DNS proxy during "@ + operation + ": "@ + error@,
            terminate: true,
        },
        PipeWrite::Disconnected => PipeView::Failed {
            message: operation + " worker disconnected"@,
            terminate: true,
        },
        PipeWrite::TimedOut => PipeView::Failed {
            message: operation + " exceeded its deadline"@,
            terminate: true,
        },
    }
}

/// Takes the outcome of a pipe write.
pub fn write_pipe_bounded(operation: &str, write: PipeWrite) -> (result: PipeStep)
    ensures
        result@ == pipe_view(operation@, write),
{
    match write {
        PipeWrite::Written => PipeStep::Written,
        PipeWrite::NoWorker(error) => PipeStep::Failed {
            message: join4("cannot create ", operation, " worker: ", error.as_str()),
            terminate: true,
        },
        PipeWrite::Failed(error) => PipeStep::Failed {
            message: join3(operation, " failed: ", error.as_str()),
            terminate: false,
        },
        PipeWrite::Quiet(ChildState::Running) => PipeStep::Wait,
        PipeWrite::Quiet(ChildState::Exited(_)) => PipeStep::Failed {
            message: join(operation, " failed because DNS proxy exited"),
            terminate: false,
        },
        PipeWrite::Quiet(ChildState::Unknown(error)) => PipeStep::Failed {
            message: join4("cannot inspect DNS proxy during ", operation, ": ", error.as_str()),
            terminate: true,
        },
        PipeWrite::Disconnected => PipeStep::Failed {
            message: join(operation, " worker disconnected"),
            terminate: true,
        },
        PipeWrite::TimedOut => PipeStep::Failed {
            message: join(operation, " exceeded its deadline"),
            terminate: true,
        },
    }
}

/// Owns at most one companion.
pub struct DnsProcessManager {
    running: Option<Companion>,
}

/// A command to write, and whether it goes to a transparent companion.
#[derive(Debug, PartialEq, Eq)]
pub struct PreparedCommand {
    pub bytes: Vec<u8>,
    pub transparent: bool,
}

/// Why a transparent reload failed: the rules were rejected and the generation
/// stays usable, or the companion is in doubt and interception must end first.
#[derive(Debug, PartialEq, Eq)]
pub enum TransparentReloadError {
    Rejected(String),
    Uncertain(String),
}

/// What was settled about a command.
#[derive(Debug, PartialEq, Eq)]
pub struct Settlement {
    /// The message, where the command failed.
    pub failure: Option<String>,
    /// The process has to be ended and its pipes cleaned up.
    pub terminate: bool,
}

/// The bytes of the command that stops admission.
pub open spec fn quiesce_command() -> Seq<u8> {
    vstd::utf8::encode_utf8("{\"op\":\"quiesce\"}\n"@)
}

/// The bytes of the command that stops the companion.
pub open spec fn stop_command() -> Seq<u8> {
    vstd::utf8::encode_utf8("{\"op\":\"stop\"}\n"@)
}

/// Writes the command that stops admission.
pub fn encode_quiesce_command() -> (result: Vec<u8>)
    ensures
        result@ == quiesce_command(),
{
    crate::text::bytes_of("{\"op\":\"quiesce\"}\n".as_bytes())
}

/// Writes the command that stops the companion.
pub fn encode_stop_command() -> (result: Vec<u8>)
    ensures
        result@ == stop_command(),
{
    crate::text::bytes_of("{\"op\":\"stop\"}\n".as_bytes())
}

impl DnsProcessManager {
    /// The companion that runs.
    pub closed spec fn view(&self) -> Option<CompanionView> {
        match self.running {
            Some(companion) => Some(companion@),
            None => None,
        }
    }

    /// A manager without a companion.
    pub fn new() -> (result: Self)
        ensures
            result@ is None,
    {
        DnsProcessManager { running: None }
    }

    fn require_active(&self) -> (result: Result<(), String>)
        ensures
            result is Ok <==> active_fault(self@) is None,
            result matches Err(message) ==> active_fault(self@) == Some(message@),
    {
        match &self.running {
            None => Ok(()),
            Some(companion) => if companion.control == ControlState::Uncertain {
                Err(
                    "DNS companion control state is uncertain; stop before retrying".to_owned(),
                )
            } else if companion.quiescence != Quiescence::Active {
                Err("DNS companion is quiescing or quiesced".to_owned())
            } else {
                Ok(())
            },
        }
    }

    /// Asks whether a companion may be started, given what is known of the process
    /// of the present one. `Ok(true)` says that a dead one was dropped, whose pipes
    /// have to be cleaned up.
    pub fn start(&mut self, child: ChildState) -> (result: Result<bool, String>)
        ensures
            final(self)@ == start_admission(old(self)@, child).0,
            result is Ok <==> start_admission(old(self)@, child).1 is Ok,
            result matches Ok(stale) ==> start_admission(old(self)@, child).1 == Ok::<
                bool,
                Seq<char>,
            >(stale),
            result matches Err(message) ==> start_admission(old(self)@, child).1 == Err::<
                bool,
                Seq<char>,
            >(message@),
    {
        match self.require_active() {
            Ok(()) => {},
            Err(message) => return Err(message),
        }
        match self.running.take() {
            None => Ok(false),
            Some(mut companion) => match child {
                ChildState::Running => {
                    self.running = Some(companion);
                    Err("DNS proxy is already running".to_owned())
                },
                ChildState::Exited(code) => if companion.is_transparent() {
                    companion.control = ControlState::Uncertain;
                    self.running = Some(companion);
                    Err(
                        join3(
                            "DNS proxy stopped unexpectedly (",
                            decimal_text(code as u64).as_str(),
                            "); explicit stop is required before restart",
                        ),
                    )
                } else {
                    Ok(true)
                },
                ChildState::Unknown(error) => {
                    self.running = Some(companion);
                    Err(join("cannot inspect existing DNS proxy: ", error.as_str()))
                },
            },
        }
    }

    /// Takes over a companion that has become ready.
    pub fn started(&mut self, status: DnsProcessStatus)
        ensures
            final(self)@ == Some(
                CompanionView {
                    status: Some(status@),
                    quiescence: Quiescence::Active,
                    control: ControlState::Certain,
                    writer_pending: false,
                },
            ),
    {
        self.running = Some(
            Companion {
                status: Some(status),
                quiescence: Quiescence::Active,
                control: ControlState::Certain,
                writer_pending: false,
            },
        );
    }

    /// The last ready status while the process is alive.
    pub fn status(&mut self, child: ChildState) -> (result: Result<
        Option<DnsProcessStatus>,
        String,
    >)
        ensures
            final(self)@ == status_observation(old(self)@, child).0,
            result is Ok <==> status_observation(old(self)@, child).1 is Ok,
            result matches Ok(status) ==> status_observation(old(self)@, child).1 == Ok::<
                Option<StatusView>,
                Seq<char>,
            >(option_view(status)),
            result matches Err(message) ==> status_observation(old(self)@, child).1 == Err::<
                Option<StatusView>,
                Seq<char>,
            >(message@),
    {
        match self.running.take() {
            None => Ok(None),
            Some(mut companion) => match child {
                ChildState::Running => {
                    let status = match &companion.status {
                        Some(status) => Some(status.copied()),
                        None => None,
                    };
                    self.running = Some(companion);
                    Ok(status)
                },
                ChildState::Exited(code) => {
                    let message = join3(
                        "DNS proxy stopped unexpectedly (",
                        decimal_text(code as u64).as_str(),
                        ")",
                    );
                    if companion.is_transparent() {
                        companion.control = ControlState::Uncertain;
                        self.running = Some(companion);
                    } else if companion.quiescence != Quiescence::Active {
                        self.running = Some(companion);
                    }
                    Err(message)
                },
                ChildState::Unknown(error) => {
                    self.running = Some(companion);
                    Err(join("cannot inspect DNS proxy: ", error.as_str()))
                },
            },
        }
    }

    /// Gives up the companion and says how to stop it.
    pub fn stop(&mut self) -> (result: StopPlan)
        ensures
            result == stop_plan(old(self)@),
            final(self)@ is None,
    {
        match self.running.take() {
            None => StopPlan::Nothing,
            Some(companion) => if companion.writer_pending || companion.control
                == ControlState::Uncertain || companion.quiescence == Quiescence::Uncertain {
                StopPlan::Terminate
            } else {
                StopPlan::Ask
            },
        }
    }

    /// Prepares a reload. The size of the rules is checked before anything else.
    pub fn reload(&self, rules: &str) -> (result: Result<PreparedCommand, String>)
        ensures
            result is Ok <==> reload_command(rules@) is Ok && active_fault(self@) is None && self@
                is Some,
            result matches Ok(command) ==> reload_command(rules@) == Ok::<Seq<u8>, Seq<char>>(
                command.bytes@,
            ) && command.transparent == self@->0.transparent(),
            result matches Err(message) ==> message@ == (if reload_command(rules@) is Err {
                reload_command(rules@)->Err_0
            } else if active_fault(self@) is Some {
                active_fault(self@)->0
            } else {
                "DNS proxy is not running"@
            }),
    {
        let bytes = match encode_reload_command(rules) {
            Ok(bytes) => bytes,
            Err(message) => return Err(message),
        };
        match self.require_active() {
            Ok(()) => {},
            Err(message) => return Err(message),
        }
        match &self.running {
            None => Err("DNS proxy is not running".to_owned()),
            Some(companion) => Ok(
                PreparedCommand { bytes, transparent: companion.is_transparent() },
            ),
        }
    }

    /// Prepares a reload of a transparent companion. Only rules that are too large
    /// count as rejected; all else leaves the companion in doubt.
    pub fn reload_transparent(&self, rules: &str) -> (result: Result<
        Vec<u8>,
        TransparentReloadError,
    >)
        ensures
            result is Ok <==> reload_command(rules@) is Ok && active_fault(self@) is None && (
            self@ matches Some(companion) && companion.transparent()),
            result matches Ok(bytes) ==> reload_command(rules@) == Ok::<Seq<u8>, Seq<char>>(bytes@),
            result matches Err(TransparentReloadError::Rejected(message)) ==> reload_command(rules@)
                == Err::<Seq<u8>, Seq<char>>(message@),
            result matches Err(TransparentReloadError::Uncertain(message)) ==> reload_command(
                rules@,
            ) is Ok && message@ == (if active_fault(self@) is Some {
                active_fault(self@)->0
            } else if self@ is None {
                "DNS proxy is not running"@
            } else {
                "transparent reload requires a transparent DNS companion"@
            }),
    {
        let bytes = match encode_reload_command(rules) {
            Ok(bytes) => bytes,
            Err(message) => return Err(TransparentReloadError::Rejected(message)),
        };
        match self.require_active() {
            Ok(()) => {},
            Err(message) => return Err(TransparentReloadError::Uncertain(message)),
        }
        match &self.running {
            None => Err(TransparentReloadError::Uncertain("DNS proxy is not running".to_owned())),
            Some(companion) => if !companion.is_transparent() {
                Err(
                    TransparentReloadError::Uncertain(
                        "transparent reload requires a transparent DNS companion".to_owned(),
                    ),
                )
            } else {
                Ok(bytes)
            },
        }
    }

    /// Prepares the command that registers or releases a flow.
    pub fn flow_command(&self, operation: &str, flow: &TransparentFlowRegistration) -> (result:
        Result<PreparedCommand, String>)
        ensures
            result is Ok <==> flow_command_of(operation@, *flow) is Ok && active_fault(self@) is None
                && self@ is Some,
            result matches Ok(command) ==> flow_command_of(operation@, *flow) == Ok::<
                Seq<u8>,
                Seq<char>,
            >(command.bytes@) && command.transparent == self@->0.transparent(),
            result matches Err(message) ==> message@ == (if flow_command_of(
                operation@,
                *flow,
            ) is Err {
                flow_command_of(operation@, *flow)->Err_0
            } else if active_fault(self@) is Some {
                active_fault(self@)->0
            } else {
                "DNS proxy is not running"@
            }),
    {
        let bytes = match encode_flow_command(operation, flow) {
            Ok(bytes) => bytes,
            Err(message) => return Err(message),
        };
        match self.require_active() {
            Ok(()) => {},
            Err(message) => return Err(message),
        }
        match &self.running {
            None => Err("DNS proxy is not running".to_owned()),
            Some(companion) => Ok(
                PreparedCommand { bytes, transparent: companion.is_transparent() },
            ),
        }
    }

    /// The current status, for a reload to build on.
    pub fn current(&self) -> (result: Option<DnsProcessStatus>)
        ensures
            option_view(result) == (match self@ {
                Some(companion) => companion.status,
                None => None,
            }),
    {
        match &self.running {
            None => None,
            Some(companion) => match &companion.status {
                Some(status) => Some(status.copied()),
                None => None,
            },
        }
    }

    /// Takes the outcome of a reload or a flow command.
    pub fn settle(&mut self, step: CommandStep) -> (result: Settlement)
        requires
            !(step is Wait),
        ensures
            final(self)@ == command_settlement(old(self)@, step@).0,
            result.terminate == command_settlement(old(self)@, step@).1,
            match step {
                CommandStep::Rejected(message) => result.failure matches Some(text) && text@
                    == message@,
                CommandStep::Uncertain(message) => result.failure matches Some(text) && text@
                    == message@,
                _ => result.failure is None,
            },
    {
        match self.running.take() {
            None => {
                let failure = match step {
                    CommandStep::Rejected(message) => Some(message),
                    CommandStep::Uncertain(message) => Some(message),
                    _ => None,
                };
                Settlement { failure, terminate: false }
            },
            Some(mut companion) => match step {
                CommandStep::Updated(status) => {
                    companion.status = Some(status);
                    self.running = Some(companion);
                    Settlement { failure: None, terminate: false }
                },
                CommandStep::Rejected(message) => {
                    self.running = Some(companion);
                    Settlement { failure: Some(message), terminate: false }
                },
                CommandStep::Uncertain(message) => {
                    if companion.is_transparent() {
                        companion.control = ControlState::Uncertain;
                        self.running = Some(companion);
                        Settlement { failure: Some(message), terminate: false }
                    } else {
                        Settlement { failure: Some(message), terminate: true }
                    }
                },
                _ => {
                    self.running = Some(companion);
                    Settlement { failure: None, terminate: false }
                },
            },
        }
    }

    /// Asks to stop admission. `Ok(true)` says that the command has to be sent;
    /// until it is acknowledged the companion is in doubt.
    pub fn quiesce(&mut self) -> (result: Result<bool, String>)
        ensures
            result is Ok <==> quiesce_fault(old(self)@) is None,
            result matches Ok(send) ==> old(self)@ matches Some(companion) && send == (
            companion.quiescence == Quiescence::Active) && final(self)@ == Some(
                CompanionView {
                    quiescence: if send {
                        Quiescence::Uncertain
                    } else {
                        companion.quiescence
                    },
                    ..companion
                },
            ),
            result matches Err(message) ==> quiesce_fault(old(self)@) == Some(message@) && final(
                self)@ == old(self)@,
    {
        match self.running.take() {
            None => Err("DNS proxy is not running".to_owned()),
            Some(mut companion) => {
                if companion.control == ControlState::Uncertain {
                    self.running = Some(companion);
                    return Err(
                        "DNS companion control state is uncertain; stop interception before stopping the companion".to_owned(),
                    );
                }
                match companion.quiescence {
                    Quiescence::Quiesced => {
                        self.running = Some(companion);
                        Ok(false)
                    },
                    Quiescence::Uncertain => {
                        self.running = Some(companion);
                        Err(
                            "DNS quiescence is uncertain; stop interception before stopping the companion".to_owned(),
                        )
                    },
                    Quiescence::Active => {
                        if !companion.is_transparent() {
                            self.running = Some(companion);
                            return Err("quiesce requires a transparent DNS companion".to_owned());
                        }
                        companion.quiescence = Quiescence::Uncertain;
                        self.running = Some(companion);
                        Ok(true)
                    },
                }
            },
        }
    }

    /// Takes the outcome of the command that stops admission. Without an
    /// acknowledgement the companion stays in doubt.
    pub fn quiesced(&mut self, step: CommandStep) -> (result: Result<(), String>)
        requires
            !(step is Wait),
        ensures
            final(self)@ == (match old(self)@ {
                Some(companion) if step is Acknowledged => Some(
                    CompanionView { quiescence: Quiescence::Quiesced, ..companion },
                ),
                other => other,
            }),
            match step {
                CommandStep::Rejected(message) => result matches Err(text) && text@ == message@,
                CommandStep::Uncertain(message) => result matches Err(text) && text@ == message@,
                _ => result is Ok,
            },
    {
        match step {
            CommandStep::Rejected(message) => Err(message),
            CommandStep::Uncertain(message) => Err(message),
            CommandStep::Acknowledged => {
                match self.running.take() {
                    None => {},
                    Some(mut companion) => {
                        companion.quiescence = Quiescence::Quiesced;
                        self.running = Some(companion);
                    },
                }
                Ok(())
            },
            _ => Ok(()),
        }
    }

    /// Asks whether a control command may be written now: never beside another one.
    pub fn begin_control_write(&self) -> (result: Result<(), String>)
        ensures
            result is Ok <==> !(self@ matches Some(companion) && companion.writer_pending),
            result matches Err(message) ==> message@
                == "DNS proxy control writer is already pending"@,
    {
        match &self.running {
            Some(companion) => if companion.writer_pending {
                Err("DNS proxy control writer is already pending".to_owned())
            } else {
                Ok(())
            },
            None => Ok(()),
        }
    }

    /// Takes how a control write ended. A writer that is still at it stays noted.
    pub fn end_control_write(&mut self, operation: &str, write: ControlWrite) -> (result: Result<
        (),
        String,
    >)
        ensures
            final(self)@ == (match old(self)@ {
                Some(companion) if write is TimedOut => Some(
                    CompanionView { writer_pending: true, ..companion },
                ),
                other => other,
            }),
            result is Ok <==> control_fault(operation@, write) is None,
            result matches Err(message) ==> control_fault(operation@, write) == Some(message@),
    {
        match write {
            ControlWrite::Written => Ok(()),
            ControlWrite::NoPipe => Err("DNS proxy stdin is unavailable".to_owned()),
            ControlWrite::NotRetained(error) => Err(
                join4("cannot retain ", operation, " pipe: ", error.as_str()),
            ),
            ControlWrite::NoWorker(error) => Err(
                join4("cannot start ", operation, " worker: ", error.as_str()),
            ),
            ControlWrite::Failed(error) => Err(join3(operation, " failed: ", error.as_str())),
            ControlWrite::TimedOut => {
                match self.running.take() {
                    None => {},
                    Some(mut companion) => {
                        companion.writer_pending = true;
                        self.running = Some(companion);
                    },
                }
                Err(join(operation, " is uncertain: writer deadline expired"))
            },
            ControlWrite::Disconnected => Err(
                join(operation, " is uncertain: writer disconnected"),
            ),
        }
    }
}

/// A command whose outcome is in doubt is not followed by another one: until the
/// transparent companion is stopped, every command and every start is refused.
pub proof fn uncertain_owner_is_retained(
    running: CompanionView,
    message: Seq<char>,
    child: ChildState,
)
    requires
        running.transparent(),
    ensures
        ({
            let (next, terminate) = command_settlement(
                Some(running),
                CommandView::Uncertain(message),
            );
            &&& next is Some
            &&& !terminate
            &&& next->0.status == running.status
            &&& active_fault(next) is Some
            &&& quiesce_fault(next) is Some
            &&& start_admission(next, child).1 is Err
            &&& start_admission(next, child).0 is Some
            &&& stop_plan(next) == StopPlan::Terminate
        }),
{
}

/// A rejected command leaves the companion and its status as they were.
pub proof fn rejection_preserves_the_companion(running: Option<CompanionView>, message: Seq<char>)
    ensures
        command_settlement(running, CommandView::Rejected(message)) == (running, false),
{
}

/// A reload changes the count of rules and nothing else of the status.
pub proof fn reload_preserves_the_endpoints(current: StatusView, arrival: Arrival)
    ensures
        reload_arrival(Some(current), arrival) matches CommandView::Updated(next) ==> {
            &&& next.udp_addr == current.udp_addr
            &&& next.tcp_addr == current.tcp_addr
            &&& next.udp_addrs == current.udp_addrs
            &&& next.tcp_addrs == current.tcp_addrs
            &&& next.slots == current.slots
        },
{
}

/// A dead transparent companion is never replaced without an explicit stop.
pub proof fn dead_owner_requires_explicit_stop(running: CompanionView, code: u32, child: ChildState)
    requires
        running.transparent(),
    ensures
        ({
            let seen = status_observation(Some(running), ChildState::Exited(code)).0;
            &&& seen is Some
            &&& start_admission(seen, child).1 is Err
            &&& start_admission(seen, child).0 is Some
        }),
{
}

/// What a companion was started with.
pub enum StartSpec {
    Legacy(DnsProcessConfig),
    Transparent(TransparentDnsConfig),
}

impl StartSpec {
    /// What is wrong with the readiness of a companion that was started so.
    pub open spec fn fault(self, status: DnsProcessStatus) -> Option<Seq<char>> {
        match self {
            StartSpec::Legacy(config) => ready_fault(
                status@,
                config.listen_address@,
                config.listen_port,
                config.dual_stack,
                config.upstream@,
            ),
            StartSpec::Transparent(config) => transparent_ready_fault(status, config),
        }
    }

    /// Checks the readiness of a companion that was started so.
    pub fn validate_ready(&self, status: &DnsProcessStatus) -> (result: Result<(), String>)
        ensures
            result is Ok <==> self.fault(*status) is None,
            result matches Err(message) ==> self.fault(*status) == Some(message@),
    {
        match self {
            StartSpec::Legacy(config) => validate_listeners(
                status,
                config.listen_address.as_str(),
                config.listen_port,
                config.dual_stack,
                config.upstream.as_str(),
            ),
            StartSpec::Transparent(config) => validate_transparent_listeners(status, config),
        }
    }

    /// The start command, where the configuration is in order.
    pub open spec fn command(self) -> Result<Seq<u8>, Seq<char>> {
        match self {
            StartSpec::Legacy(config) => match crate::dns_process::config_fault(config) {
                Some(message) => Err(message),
                None => crate::dns_process::framed(
                    crate::dns_process::start_text(config),
                    "DNS proxy configuration exceeds the "@,
                ),
            },
            StartSpec::Transparent(config) => match crate::dns_process::transparent_fault(config) {
                Some(message) => Err(message),
                None => crate::dns_process::framed(
                    crate::dns_process::transparent_start_text(config),
                    "transparent DNS configuration exceeds the "@,
                ),
            },
        }
    }

    /// Checks the configuration and writes the start command. Nothing is extracted
    /// or started for a configuration that is not in order.
    pub fn launch(&self) -> (result: Result<Vec<u8>, String>)
        ensures
            result is Ok <==> self.command() is Ok,
            result matches Ok(bytes) ==> self.command() == Ok::<Seq<u8>, Seq<char>>(bytes@),
            result matches Err(message) ==> self.command() == Err::<Seq<u8>, Seq<char>>(message@),
    {
        match self {
            StartSpec::Legacy(config) => match crate::dns_process::validate_config(config) {
                Ok(()) => crate::dns_process::encode_start_command(config),
                Err(message) => Err(message),
            },
            StartSpec::Transparent(config) => match crate::dns_process::validate_transparent_config(
                config,
            ) {
                Ok(()) => crate::dns_process::encode_transparent_start_command(config),
                Err(message) => Err(message),
            },
        }
    }
}

/// The configuration of a companion that only parses a rule list: any free
/// loopback port and an upstream that is never used.
pub fn validation_config(rules: &str) -> (result: Result<DnsProcessConfig, String>)
    ensures
        result is Ok <==> 0 < rules@.len() && byte_len(rules@) <= 8388608,
        result matches Ok(config) ==> {
            &&& config.upstream@ == "127.0.0.1:9"@
            &&& config.listen_address@ == "127.0.0.1"@
            &&& config.listen_port == 0
            &&& !config.dual_stack
            &&& config.rules@ == rules@
        },
        result matches Err(message) ==> message@
            == "DNS filter is empty or exceeds its size limit"@,
{
    if rules.is_empty() || rules.as_bytes().len() > MAX_RULE_TEXT_BYTES {
        return Err("DNS filter is empty or exceeds its size limit".to_owned());
    }
    Ok(
        DnsProcessConfig {
            upstream: "127.0.0.1:9".to_owned(),
            listen_address: "127.0.0.1".to_owned(),
            listen_port: 0,
            dual_stack: false,
            rules: rules.to_owned(),
        },
    )
}

/// Where stopping the companion stands.
#[derive(Clone, Copy, Debug, PartialEq, Eq, Structural)]
pub enum StopPhase {
    /// Waiting for it to report that it has stopped.
    Listening,
    /// Waiting for its process to exit.
    Exiting,
    /// Nothing is left to wait for.
    Finished,
}

/// The progress of stopping the companion.
#[derive(Debug, PartialEq, Eq)]
pub struct StopProgress {
    first_error: Option<String>,
    stopped: bool,
    child_exited: bool,
    phase: StopPhase,
}

/// The progress of stopping, as mathematical values.
pub ghost struct StopView {
    pub first_error: Option<Seq<char>>,
    pub stopped: bool,
    pub child_exited: bool,
    pub phase: StopPhase,
}

impl StopView {
    /// The progress with an error; the first one is kept.
    pub open spec fn with_error(self, message: Seq<char>) -> StopView {
        StopView {
            first_error: if self.first_error is Some {
                self.first_error
            } else {
                Some(message)
            },
            ..self
        }
    }

    /// The progress once the companion is no longer listened to. It may exit only
    /// where it reported that it has stopped.
    pub open spec fn heard(self) -> StopView {
        StopView { phase: StopPhase::Exiting, ..self }
    }

    /// What a status line does.
    pub open spec fn line(self, wire: WireStatus) -> StopView {
        if wire.status@ == "stopped"@ {
            match empty_fault(wire, "stopped"@) {
                Some(message) => self.with_error(message).heard(),
                None => StopView { stopped: true, ..self }.heard(),
            }
        } else if wire.status@ == "error"@ {
            match error_fault(wire, "stop"@) {
                Some(message) => self.with_error(message).heard(),
                None => self.with_error(wire_message(wire)),
            }
        } else {
            self.with_error(
                "DNS proxy reported unsupported stop status "@ + quoted(wire.status@),
            ).heard()
        }
    }

    /// What an arrival does while listening.
    pub open spec fn arrived(self, arrival: Arrival) -> StopView {
        match arrival {
            Arrival::TimedOut => self.heard(),
            Arrival::Line { length, status } => match status {
                Ok(wire) => self.line(wire),
                Err(error) => self.with_error(bad_line(length as nat, error@)).heard(),
            },
            Arrival::Failed(error) => self.with_error(
                "DNS proxy output failed: "@ + error@,
            ).heard(),
            Arrival::Closed => self.heard(),
            Arrival::Quiet(ChildState::Exited(_)) => self.heard(),
            Arrival::Quiet(_) => self,
            Arrival::Disconnected => self.heard(),
        }
    }

    /// What the state of the process does while it is to exit. Without a report
    /// that the companion has stopped it is looked at once.
    pub open spec fn polled(self, child: ChildState, timed_out: bool) -> StopView {
        let done = StopView { phase: StopPhase::Finished, ..self };
        if self.stopped {
            if timed_out {
                done
            } else {
                match child {
                    ChildState::Exited(_) => StopView { child_exited: true, ..done },
                    ChildState::Running => self,
                    ChildState::Unknown(error) => done.with_error(
                        "cannot inspect DNS proxy: "@ + error@,
                    ),
                }
            }
        } else {
            StopView { child_exited: child is Exited, ..done }
        }
    }

    /// What stopping came to.
    pub open spec fn outcome(self) -> Result<(), Seq<char>> {
        if self.first_error is Some {
            Err(self.first_error->0)
        } else if !self.stopped {
            Err("DNS proxy did not report stopped within 3 seconds"@)
        } else if !self.child_exited {
            Err("DNS proxy did not exit within 3 seconds"@)
        } else {
            Ok(())
        }
    }
}

impl StopProgress {
    pub closed spec fn view(&self) -> StopView {
        StopView {
            first_error: match self.first_error {
                Some(message) => Some(message@),
                None => None,
            },
            stopped: self.stopped,
            child_exited: self.child_exited,
            phase: self.phase,
        }
    }

    /// Begins with how the stop command was sent, or with the pipe closed where
    /// none is sent. After a failure nothing is listened for.
    pub fn begin(sent: Result<(), String>) -> (result: Self)
        ensures
            result@ == (StopView {
                first_error: match sent {
                    Ok(()) => None,
                    Err(message) => Some(message@),
                },
                stopped: false,
                child_exited: false,
                phase: if sent is Ok {
                    StopPhase::Listening
                } else {
                    StopPhase::Exiting
                },
            }),
    {
        match sent {
            Ok(()) => StopProgress {
                first_error: None,
                stopped: false,
                child_exited: false,
                phase: StopPhase::Listening,
            },
            Err(message) => StopProgress {
                first_error: Some(message),
                stopped: false,
                child_exited: false,
                phase: StopPhase::Exiting,
            },
        }
    }

    /// Where stopping stands.
    pub fn phase(&self) -> (result: StopPhase)
        ensures
            result == self@.phase,
    {
        self.phase
    }

    fn remember(&mut self, message: String)
        ensures
            final(self)@ == old(self)@.with_error(message@),
    {
        if self.first_error.is_none() {
            self.first_error = Some(message);
        }
    }

    fn read_line(&mut self, status: WireStatus)
        ensures
            final(self)@ == old(self)@.line(status),
    {
        if same_text(status.status.as_str(), "stopped") {
            match validate_empty_status(&status, "stopped") {
                Ok(()) => {
                    self.stopped = true;
                },
                Err(message) => {
                    self.remember(message);
                },
            }
            self.phase = StopPhase::Exiting;
        } else if same_text(status.status.as_str(), "error") {
            match validate_error_status(&status, "stop") {
                Ok(()) => {
                    self.remember(wire_error(&status));
                },
                Err(message) => {
                    self.remember(message);
                    self.phase = StopPhase::Exiting;
                },
            }
        } else {
            self.remember(
                join(
                    "DNS proxy reported unsupported stop status ",
                    quoted_text(status.status.as_str()).as_str(),
                ),
            );
            self.phase = StopPhase::Exiting;
        }
    }

    /// Takes what came while listening for the companion to stop.
    pub fn arrive(&mut self, arrival: Arrival)
        requires
            old(self)@.phase == StopPhase::Listening,
        ensures
            final(self)@ == old(self)@.arrived(arrival),
    {
        match arrival {
            Arrival::TimedOut => {
                self.phase = StopPhase::Exiting;
            },
            Arrival::Line { length, status } => match status {
                Ok(wire) => {
                    self.read_line(wire);
                },
                Err(error) => {
                    self.remember(bad_line_message(length, &error));
                    self.phase = StopPhase::Exiting;
                },
            },
            Arrival::Failed(error) => {
                self.remember(join("DNS proxy output failed: ", error.as_str()));
                self.phase = StopPhase::Exiting;
            },
            Arrival::Closed => {
                self.phase = StopPhase::Exiting;
            },
            Arrival::Quiet(ChildState::Exited(_)) => {
                self.phase = StopPhase::Exiting;
            },
            Arrival::Quiet(_) => {},
            Arrival::Disconnected => {
                self.phase = StopPhase::Exiting;
            },
        }
    }

    /// Takes the state of the process while it is to exit.
    pub fn poll(&mut self, child: ChildState, timed_out: bool)
        requires
            old(self)@.phase == StopPhase::Exiting,
        ensures
            final(self)@ == old(self)@.polled(child, timed_out),
    {
        if self.stopped {
            if timed_out {
                self.phase = StopPhase::Finished;
            } else {
                match child {
                    ChildState::Exited(_) => {
                        self.child_exited = true;
                        self.phase = StopPhase::Finished;
                    },
                    ChildState::Running => {},
                    ChildState::Unknown(error) => {
                        self.remember(join("cannot inspect DNS proxy: ", error.as_str()));
                        self.phase = StopPhase::Finished;
                    },
                }
            }
        } else {
            match child {
                ChildState::Exited(_) => {
                    self.child_exited = true;
                },
                _ => {
                    self.child_exited = false;
                },
            }
            self.phase = StopPhase::Finished;
        }
    }

    /// What stopping came to: whether the process has to be ended, and the result.
    pub fn finish(self) -> (result: (bool, Result<(), String>))
        ensures
            result.0 == (!self@.stopped || !self@.child_exited),
            result.1 is Ok <==> self@.outcome() is Ok,
            result.1 matches Err(message) ==> self@.outcome() == Err::<(), Seq<char>>(message@),
    {
        let terminate = !self.stopped || !self.child_exited;
        match self.first_error {
            Some(message) => (terminate, Err(message)),
            None => if !self.stopped {
                (
                    terminate,
                    Err("DNS proxy did not report stopped within 3 seconds".to_owned()),
                )
            } else if !self.child_exited {
                (terminate, Err("DNS proxy did not exit within 3 seconds".to_owned()))
            } else {
                (terminate, Ok(()))
            },
        }
    }
}

/// A stop succeeds only where the companion reported it and its process exited;
/// its process is ended in every other case.
pub proof fn stop_succeeds_only_after_exit(progress: StopView)
    ensures
        progress.outcome() is Ok ==> progress.stopped && progress.child_exited
            && progress.first_error is None,
{
}

/// What reading one byte of the companion's output brought.
#[derive(Debug, PartialEq, Eq)]
pub enum LineStep {
    More,
    Line(Vec<u8>),
    End,
    /// The output ended inside a line.
    Unterminated,
    /// The line is too long.
    TooLong,
}

/// The part of a status line that was read so far.
#[derive(Debug, PartialEq, Eq)]
pub struct StatusLineReader {
    line: Vec<u8>,
}

/// What reading a byte, or the end, does to a line.
pub open spec fn line_after(line: Seq<u8>, read: Option<u8>) -> Seq<u8> {
    match read {
        Some(byte) => if byte == 10 {
            Seq::empty()
        } else if line.len() >= 65536 {
            line
        } else {
            line.push(byte)
        },
        None => line,
    }
}

impl StatusLineReader {
    pub closed spec fn view(&self) -> Seq<u8> {
        self.line@
    }

    pub fn new() -> (result: Self)
        ensures
            result@ == Seq::<u8>::empty(),
    {
        StatusLineReader { line: Vec::new() }
    }

    /// Takes one byte of the output, or its end.
    pub fn read(&mut self, read: Option<u8>) -> (result: LineStep)
        ensures
            final(self)@ == line_after(old(self)@, read),
            match read {
                None => if old(self)@.len() == 0 {
                    result is End
                } else {
                    result is Unterminated
                },
                Some(byte) => if byte == 10 {
                    result matches LineStep::Line(line) && line@ == old(self)@
                } else if old(self)@.len() >= 65536 {
                    result is TooLong
                } else {
                    result is More
                },
            },
    {
        match read {
            None => if self.line.len() == 0 {
                LineStep::End
            } else {
                LineStep::Unterminated
            },
            Some(byte) => if byte == 10 {
                let mut line: Vec<u8> = Vec::new();
                line.append(&mut self.line);
                assert(line@ =~= old(self)@);
                LineStep::Line(line)
            } else if self.line.len() >= MAX_STATUS_LINE_BYTES {
                LineStep::TooLong
            } else {
                self.line.push(byte);
                LineStep::More
            },
        }
    }
}

/// What a reader holds after a run of bytes.
pub open spec fn line_after_all(line: Seq<u8>, bytes: Seq<u8>) -> Seq<u8>
    decreases bytes.len(),
{
    if bytes.len() == 0 {
        line
    } else {
        line_after(line_after_all(line, bytes.drop_last()), Some(bytes.last()))
    }
}

/// A line within the limit is read back as it was sent.
pub proof fn status_line_is_read_back(bytes: Seq<u8>)
    requires
        bytes.len() <= 65536,
        forall|i: int| 0 <= i < bytes.len() ==> bytes[i] != 10,
    ensures
        line_after_all(Seq::empty(), bytes) == bytes,
    decreases bytes.len(),
{
    if bytes.len() > 0 {
        status_line_is_read_back(bytes.drop_last());
        assert(bytes.drop_last().push(bytes.last()) =~= bytes);
    }
}

/// The file name of the companion's executable, which names its content.
pub fn engine_file_name(engine: &[u8]) -> (result: String)
    ensures
        result@ == "vapour-dnsproxy-"@ + hex_of(sha256(engine@)) + ".exe"@,
{
    join3("vapour-dnsproxy-", sha256_hex(engine).as_str(), ".exe")
}

/// Checks the extracted executable: its length on disk and its content. At most
/// one byte more than expected is read.
pub fn verify_engine(engine: &[u8], actual_len: u64, actual: &[u8]) -> (result: Result<(), String>)
    ensures
        result is Ok <==> actual_len == engine@.len() && actual@ == engine@,
        result matches Err(message) ==> message@ == (if actual_len != engine@.len() {
            "DNS proxy executable length mismatch: expected "@ + decimal(engine@.len()) + ", got "@
                + decimal(actual_len as nat)
        } else {
            "DNS proxy executable content verification failed"@
        }),
{
    let expected_len: u64 = engine.len() as u64;
    if actual_len != expected_len {
        return Err(
            join4(
                "DNS proxy executable length mismatch: expected ",
                decimal_text(expected_len).as_str(),
                ", got ",
                decimal_text(actual_len).as_str(),
            ),
        );
    }
    if !same_bytes(actual, engine) {
        return Err("DNS proxy executable content verification failed".to_owned());
    }
    Ok(())
}

/// Whether an arrival is a status line of this name.
pub open spec fn says(arrival: Arrival, name: Seq<char>) -> bool {
    arrival matches Arrival::Line { status: Ok(wire), .. } && wire.status@ == name
}

/// The status line that arrived.
pub open spec fn line_of(arrival: Arrival) -> WireStatus {
    arrival->Line_status->Ok_0
}

/// A start goes on while nothing comes and the process runs. It succeeds exactly with a
/// ready status without an error that can be read; everything else ends it.
pub proof fn starts_end_with_a_ready_status(arrival: Arrival)
    ensures
        ({
            let step = ready_arrival(arrival);
            &&& step is Wait <==> (arrival matches Arrival::Quiet(ChildState::Running))
            &&& step is Ready <==> says(arrival, "ready"@) && line_of(arrival).error is None
                && ready_outcome(line_of(arrival)) is Ok
            &&& step matches ReadyView::Ready(status) ==> ready_outcome(line_of(arrival)) == Ok::<
                StatusView,
                Seq<char>,
            >(status)
        }),
{
}

/// A reload goes on while nothing comes and the process runs. It succeeds exactly with an
/// updated status that carries neither an error nor endpoints; it is rejected exactly
/// with an error status that carries a message alone; everything else leaves it in doubt.
pub proof fn reloads_end_with_their_answer(current: StatusView, arrival: Arrival)
    ensures
        ({
            let step = reload_arrival(Some(current), arrival);
            let wire = line_of(arrival);
            &&& step is Wait <==> (arrival matches Arrival::Quiet(ChildState::Running))
            &&& step is Updated <==> says(arrival, "updated"@) && wire.error is None && wire.udp_addr
                is None && wire.tcp_addr is None && wire.udp_addrs is None && wire.tcp_addrs is None
                && wire.slots is None
            &&& step matches CommandView::Updated(next) ==> next.rules_count == if wire.rules_count
                is Some {
                wire.rules_count->0
            } else {
                0
            }
            &&& step is Rejected <==> says(arrival, "error"@) && error_fault(wire, "reload"@) is None
            &&& step matches CommandView::Rejected(message) ==> message
                == "DNS proxy rejected rule reload: "@ + wire.error->0@
            &&& !(step is Acknowledged)
            &&& reload_arrival(None, arrival) is Updated ==> false
        }),
{
    reveal_strlit("updated");
    reveal_strlit("error");
    reveal_strlit("stopped");
    assert("updated"@[0] != "error"@[0]);
    assert("updated"@.len() != "error"@.len());
}

/// A command goes on while nothing comes and the process runs. It is acknowledged exactly
/// with the status that is expected and carries nothing; it is rejected exactly with an
/// error status that carries a message alone; everything else leaves it in doubt.
pub proof fn commands_end_with_their_answer(
    operation: Seq<char>,
    expected: Seq<char>,
    timeout_secs: u64,
    arrival: Arrival,
)
    requires
        expected != "error"@,
    ensures
        ({
            let step = ack_arrival(operation, expected, timeout_secs, arrival);
            let wire = line_of(arrival);
            &&& step is Wait <==> (arrival matches Arrival::Quiet(ChildState::Running))
            &&& step is Acknowledged <==> says(arrival, expected) && empty_fault(wire, operation)
                is None
            &&& step is Rejected <==> says(arrival, "error"@) && error_fault(wire, operation) is None
            &&& step matches CommandView::Rejected(message) ==> message == "DNS proxy rejected "@
                + operation + " flow: "@ + wire.error->0@
            &&& !(step is Updated)
        }),
{
}

/// Whether a companion has reserved source endpoints.
pub open spec fn reserves(companion: CompanionView) -> bool {
    companion.status is Some && companion.status->0.slots.len() >= 1
}

/// A start is admitted exactly where there is no companion, or one that takes commands,
/// reserves nothing and has exited, which is then cleaned up. One that reserves and has
/// exited is in doubt from then on; nothing else changes.
pub proof fn starts_are_admitted_without_a_companion(
    running: Option<CompanionView>,
    child: ChildState,
)
    ensures
        ({
            let (after, admitted) = start_admission(running, child);
            let takes = running is Some && !(running->0.control is Uncertain)
                && running->0.quiescence is Active;
            &&& admitted is Ok <==> running is None || (takes && child is Exited && !reserves(
                running->0,
            ))
            &&& admitted matches Ok(cleans) ==> (cleans <==> running is Some) && after is None
            &&& admitted is Err && !(takes && child is Exited) ==> after == running
            &&& admitted is Err && takes && child is Exited ==> after == Some(
                CompanionView { control: ControlState::Uncertain, ..running->0 },
            )
            &&& takes && child is Running ==> admitted == Err::<bool, Seq<char>>(
                "DNS proxy is already running"@,
            )
        }),
{
}

/// What looking at a companion shows: its status while it runs, nothing without one, and
/// an error once it has exited or cannot be looked at. One that has exited is let go only
/// where it reserves nothing and was active.
pub proof fn statuses_show_what_runs(running: Option<CompanionView>, child: ChildState)
    ensures
        ({
            let (after, shown) = status_observation(running, child);
            &&& shown is Ok <==> running is None || child is Running
            &&& running is None ==> shown == Ok::<Option<StatusView>, Seq<char>>(None) && after
                is None
            &&& running is Some && child is Running ==> shown == Ok::<Option<StatusView>, Seq<char>>(
                running->0.status,
            )
            &&& running is Some && !(child is Exited) ==> after == running
            &&& running is Some && child is Exited && reserves(running->0) ==> after == Some(
                CompanionView { control: ControlState::Uncertain, ..running->0 },
            )
            &&& running is Some && child is Exited && !reserves(running->0) ==> after == if (
            running->0.quiescence is Active) {
                None
            } else {
                running
            }
        }),
{
}

/// What a command leaves of a companion: the status of a reload; in doubt one that reserves
/// is kept as such and every other one is ended; otherwise it is as it was.
pub proof fn doubt_ends_companions_that_reserve_nothing(
    running: CompanionView,
    step: CommandView,
)
    ensures
        ({
            let (after, ends) = command_settlement(Some(running), step);
            let doubt = step is Uncertain;
            &&& ends <==> doubt && !reserves(running)
            &&& after is None <==> ends
            &&& doubt && reserves(running) ==> after == Some(
                CompanionView { control: ControlState::Uncertain, ..running },
            )
            &&& step matches CommandView::Updated(status) ==> after == Some(
                CompanionView { status: Some(status), ..running },
            )
            &&& !doubt && !(step is Updated) ==> after == Some(running)
        }),
        command_settlement(None, step) == (None::<CompanionView>, false),
{
}

/// A companion takes commands exactly where its control is certain and it is active. It can
/// be asked to quiesce exactly where its control is certain and it has quiesced already,
/// or is active and reserves.
pub proof fn companions_take_commands_while_active(running: CompanionView)
    ensures
        active_fault(Some(running)) is None <==> running.control is Certain && running.quiescence
            is Active,
        active_fault(None) is None,
        quiesce_fault(Some(running)) is None <==> running.control is Certain && (running.quiescence
            is Quiesced || (running.quiescence is Active && reserves(running))),
        quiesce_fault(None) == Some("DNS proxy is not running"@),
        running.control is Uncertain ==> active_fault(Some(running)) == Some(
            "DNS companion control state is uncertain; stop before retrying"@,
        ),
        running.transparent() == reserves(running),
{
}

/// A companion is asked to stop exactly where nothing is in doubt and nothing is being
/// written to it; otherwise its process is ended.
pub proof fn companions_are_asked_to_stop(running: CompanionView)
    ensures
        stop_plan(Some(running)) is Ask <==> !running.writer_pending && running.control is Certain
            && !(running.quiescence is Uncertain),
        stop_plan(Some(running)) is Terminate <==> !(stop_plan(Some(running)) is Ask),
        stop_plan(None) is Nothing,
{
}

/// A write to the pipe goes on while nothing comes and the process runs; it ends well
/// exactly where everything was written. The process is ended after a failure, unless it
/// has exited or the pipe failed.
pub proof fn unfinished_writes_end_the_companion(operation: Seq<char>, write: PipeWrite)
    ensures
        ({
            let step = pipe_view(operation, write);
            &&& step is Wait <==> (write matches PipeWrite::Quiet(ChildState::Running))
            &&& step is Written <==> write is Written
            &&& step matches PipeView::Failed { terminate, .. } ==> (terminate <==> !(write
                is Failed) && !(write matches PipeWrite::Quiet(ChildState::Exited(_))))
        }),
        forall|control: ControlWrite| #[trigger]
            control_fault(operation, control) is None <==> control is Written,
{
}

/// What an arrival does while a stop is listened for: a stopped status that carries nothing
/// is noted and ends the listening; an error that carries a message alone is noted and
/// the next line is awaited; so is silence of a process that has not exited. Everything
/// else ends the listening.
pub proof fn stops_are_listened_for(progress: StopView, arrival: Arrival)
    requires
        progress.phase is Listening,
    ensures
        ({
            let after = progress.arrived(arrival);
            let wire = line_of(arrival);
            let stopped = says(arrival, "stopped"@) && empty_fault(wire, "stopped"@) is None;
            let told = says(arrival, "error"@) && error_fault(wire, "stop"@) is None;
            let silent = arrival matches Arrival::Quiet(child) && !(child is Exited);
            &&& after.stopped <==> progress.stopped || stopped
            &&& after.phase is Listening <==> told || silent
            &&& after.phase is Exiting <==> !told && !silent
            &&& after.child_exited == progress.child_exited
            &&& progress.first_error is Some ==> after.first_error == progress.first_error
            &&& progress.first_error is None ==> (after.first_error is Some <==> (arrival is Line
                && !stopped) || arrival is Failed)
            &&& progress.first_error is None && told ==> after.first_error == Some(wire.error->0@)
        }),
{
    reveal_strlit("stopped");
    reveal_strlit("error");
    assert("stopped"@.len() != "error"@.len());
}

/// What the process does while it is to exit: without a report it is looked at once; with
/// one it is looked at until it has exited, cannot be looked at, or the time is up.
pub proof fn stops_wait_for_the_exit(progress: StopView, child: ChildState, timed_out: bool)
    requires
        !progress.child_exited,
    ensures
        ({
            let after = progress.polled(child, timed_out);
            &&& after.stopped == progress.stopped
            &&& after.child_exited <==> child is Exited && !(progress.stopped && timed_out)
            &&& progress.stopped && !timed_out && child is Running ==> after == progress
            &&& !(progress.stopped && !timed_out && child is Running) ==> after.phase is Finished
            &&& progress.first_error is Some || !(child is Unknown) || !progress.stopped || timed_out
                ==> after.first_error == progress.first_error
        }),
        progress.outcome() is Ok <==> progress.first_error is None && progress.stopped
            && progress.child_exited,
        progress.first_error is None && !progress.stopped ==> progress.outcome() == Err::<
            (),
            Seq<char>,
        >("DNS proxy did not report stopped within 3 seconds"@),
        progress.first_error is None && progress.stopped && !progress.child_exited
            ==> progress.outcome() == Err::<(), Seq<char>>(
            "DNS proxy did not exit within 3 seconds"@,
        ),
        progress.first_error is Some ==> progress.outcome() == Err::<(), Seq<char>>(
            progress.first_error->0,
        ),
{
}

/// A line grows by one byte at a time up to 65536, and begins anew after a line feed.
pub proof fn lines_grow_up_to_their_limit(line: Seq<u8>, byte: u8)
    ensures
        line_after(line, None) == line,
        line_after(line, Some(10)).len() == 0,
        byte != 10 && line.len() < 65_536 ==> line_after(line, Some(byte)) == line + seq![byte],
        byte != 10 && line.len() >= 65_536 ==> line_after(line, Some(byte)) == line,
{
    assert(line.push(byte) =~= line + seq![byte]);
}

/// A companion is ready, and gets its command, as what it was started with.
pub proof fn starts_follow_their_configuration(start: StartSpec, status: DnsProcessStatus)
    ensures
        start matches StartSpec::Transparent(config) ==> start.fault(status)
            == transparent_ready_fault(status, config),
        start matches StartSpec::Legacy(config) ==> start.fault(status) == ready_fault(
            status@,
            config.listen_address@,
            config.listen_port,
            config.dual_stack,
            config.upstream@,
        ),
        start matches StartSpec::Transparent(config) ==> (start.command() is Ok
            <==> crate::dns_process::transparent_fault(config) is None),
        start matches StartSpec::Legacy(config) ==> (start.command() is Ok
            <==> crate::dns_process::config_fault(config) is None),
{
}

} // verus!
