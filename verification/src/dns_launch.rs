//! How the companion process is made: its executable, its rights, its pipes and its
//! containment. The caller asks the system; each answer is taken here and says what
//! comes next. Each answer is to the question before it, so an answer alone says how
//! far it is; what holds of the answers that follow each other so is proved of them.

use crate::dns_manager::ChildState;
use crate::dns_session::text_option;
use crate::text::{decimal, decimal_text, join, join3, join4};
use vstd::prelude::*;
use vstd::string::*;

verus! {

/// The exit code that the system tells of a process that has not ended.
pub const STILL_RUNNING: u32 = 259;

/// The highest integrity that the companion may have.
pub const MEDIUM_INTEGRITY: u32 = 0x2000;

/// How large the information about an integrity may be, in bytes.
pub const MAX_INTEGRITY_BYTES: u32 = 65_536;

/// The flag of a process without a window.
pub const NO_WINDOW_FLAG: u32 = 0x0800_0000;

/// The flag of a process that does not run yet.
pub const SUSPENDED_FLAG: u32 = 0x4;

/// The flag of a process with a list of handles that it inherits.
pub const EXTENDED_STARTUP_FLAG: u32 = 0x8_0000;

/// What an exit code, or the failure to get one, says of the process.
pub fn try_wait(code: Result<u32, String>) -> (result: ChildState)
    ensures
        match code {
            Ok(code) => result == (if code == STILL_RUNNING {
                ChildState::Running
            } else {
                ChildState::Exited(code)
            }),
            Err(error) => result matches ChildState::Unknown(message) && message@
                == "cannot inspect DNS proxy process: "@ + error@,
        },
{
    match code {
        Ok(code) => if code == STILL_RUNNING {
            ChildState::Running
        } else {
            ChildState::Exited(code)
        },
        Err(error) => ChildState::Unknown(
            join("cannot inspect DNS proxy process: ", error.as_str()),
        ),
    }
}

/// The text by which the process is started.
pub fn command_line(path: &str) -> (result: String)
    ensures
        result@ == "\""@ + path@ + "\""@,
{
    join3("\"", path, "\"")
}

/// How the process is created: suspended and without a window, and with a list of
/// handles unless it gets a token of its own.
pub fn spawn_flags(with_token: bool) -> (result: u32)
    ensures
        result == (if with_token {
            NO_WINDOW_FLAG | SUSPENDED_FLAG
        } else {
            NO_WINDOW_FLAG | SUSPENDED_FLAG | EXTENDED_STARTUP_FLAG
        }),
{
    if with_token {
        NO_WINDOW_FLAG | SUSPENDED_FLAG
    } else {
        NO_WINDOW_FLAG | SUSPENDED_FLAG | EXTENDED_STARTUP_FLAG
    }
}

/// What happened to the executable.
#[derive(Debug, PartialEq, Eq)]
pub enum ExtractEvent {
    /// Whether the path of its directory is absolute.
    Path { absolute: bool },
    Directory(Result<(), String>),
    Created,
    /// There is such a file already.
    Exists,
    CreateFailed(String),
    Written(Result<(), String>),
    Opened(Result<(), String>),
    Verified(Result<(), String>),
}

/// What is done next with the executable.
#[derive(Clone, Copy, Debug, PartialEq, Eq, Structural)]
pub enum ExtractAction {
    MakeDirectory,
    Create,
    Write,
    Open,
    Verify,
    /// Removes what was written; nothing more is done.
    Remove,
    /// The file is kept open; its content is known.
    Use,
    Finish,
}

/// What is done next with the executable, and what went wrong.
pub open spec fn extracted(event: ExtractEvent) -> (ExtractAction, Option<Seq<char>>) {
    match event {
        ExtractEvent::Path { absolute } => if absolute {
            (ExtractAction::MakeDirectory, None)
        } else {
            (ExtractAction::Finish, Some("DNS proxy app-data path must be absolute"@))
        },
        ExtractEvent::Directory(Ok(())) => (ExtractAction::Create, None),
        ExtractEvent::Directory(Err(error)) => (
            ExtractAction::Finish,
            Some("cannot create DNS proxy app-data directory: "@ + error@),
        ),
        ExtractEvent::Created => (ExtractAction::Write, None),
        ExtractEvent::Exists => (ExtractAction::Open, None),
        ExtractEvent::CreateFailed(error) => (
            ExtractAction::Finish,
            Some("cannot create DNS proxy executable: "@ + error@),
        ),
        ExtractEvent::Written(Ok(())) => (ExtractAction::Open, None),
        ExtractEvent::Written(Err(error)) => (
            ExtractAction::Remove,
            Some("cannot extract DNS proxy executable: "@ + error@),
        ),
        ExtractEvent::Opened(Ok(())) => (ExtractAction::Verify, None),
        ExtractEvent::Opened(Err(error)) => (
            ExtractAction::Finish,
            Some("cannot open extracted DNS proxy executable: "@ + error@),
        ),
        ExtractEvent::Verified(Ok(())) => (ExtractAction::Use, None),
        ExtractEvent::Verified(Err(error)) => (ExtractAction::Finish, Some(error@)),
    }
}

/// Takes what happened to the executable.
pub fn extract_engine(event: ExtractEvent) -> (result: (ExtractAction, Option<String>))
    ensures
        (result.0, text_option(result.1)) == extracted(event),
{
    match event {
        ExtractEvent::Path { absolute } => if absolute {
            (ExtractAction::MakeDirectory, None)
        } else {
            (ExtractAction::Finish, Some("DNS proxy app-data path must be absolute".to_owned()))
        },
        ExtractEvent::Directory(Ok(())) => (ExtractAction::Create, None),
        ExtractEvent::Directory(Err(error)) => (
            ExtractAction::Finish,
            Some(join("cannot create DNS proxy app-data directory: ", error.as_str())),
        ),
        ExtractEvent::Created => (ExtractAction::Write, None),
        ExtractEvent::Exists => (ExtractAction::Open, None),
        ExtractEvent::CreateFailed(error) => (
            ExtractAction::Finish,
            Some(join("cannot create DNS proxy executable: ", error.as_str())),
        ),
        ExtractEvent::Written(Ok(())) => (ExtractAction::Open, None),
        ExtractEvent::Written(Err(error)) => (
            ExtractAction::Remove,
            Some(join("cannot extract DNS proxy executable: ", error.as_str())),
        ),
        ExtractEvent::Opened(Ok(())) => (ExtractAction::Verify, None),
        ExtractEvent::Opened(Err(error)) => (
            ExtractAction::Finish,
            Some(join("cannot open extracted DNS proxy executable: ", error.as_str())),
        ),
        ExtractEvent::Verified(Ok(())) => (ExtractAction::Use, None),
        ExtractEvent::Verified(Err(error)) => (ExtractAction::Finish, Some(error)),
    }
}

/// Whether an event is what an action comes to.
pub open spec fn extract_answers(action: ExtractAction, event: ExtractEvent) -> bool {
    match action {
        ExtractAction::MakeDirectory => event is Directory,
        ExtractAction::Create => event is Created || event is Exists || event is CreateFailed,
        ExtractAction::Write => event is Written,
        ExtractAction::Open => event is Opened,
        ExtractAction::Verify => event is Verified,
        _ => false,
    }
}

/// Events that follow each other: the path first, and then what each action came to.
pub open spec fn extract_run(events: Seq<ExtractEvent>) -> bool {
    &&& events.len() > 0
    &&& events[0] is Path
    &&& forall|i: int|
        0 < i < events.len() ==> extract_answers(extracted(events[i - 1]).0, #[trigger] events[i])
}

/// An executable is used only after it was opened and its content was verified,
/// whoever wrote it; one that could not be written as a whole is removed.
pub proof fn executables_are_verified_before_use(events: Seq<ExtractEvent>)
    requires
        extract_run(events),
    ensures
        extracted(events.last()).0 == ExtractAction::Use ==> (events.last()
            matches ExtractEvent::Verified(Ok(_))) && exists|i: int|
            0 <= i < events.len() && (#[trigger] events[i] matches ExtractEvent::Opened(Ok(_))),
        extracted(events.last()).0 == ExtractAction::Remove <==> (events.last()
            matches ExtractEvent::Written(Err(_))),
        extracted(events.last()).1 is Some <==> extracted(events.last()).0 == ExtractAction::Finish
            || extracted(events.last()).0 == ExtractAction::Remove,
        forall|i: int| 0 <= i < events.len() - 1 ==> extracted(#[trigger] events[i]).1 is None,
{
    let n = events.len() - 1;
    if extracted(events.last()).0 == ExtractAction::Use {
        assert(events[n] is Verified);
        assert(events[n - 1] matches ExtractEvent::Opened(Ok(_)));
    }
    assert forall|i: int| 0 <= i < n implies extracted(#[trigger] events[i]).1 is None by {
        let next = events[i + 1];
    }
}

/// What is known of the token of the desktop.
#[derive(Debug, PartialEq, Eq)]
pub enum DesktopEvent {
    /// The process of the shell; zero where there is none.
    Shell(u32),
    ShellOpened(Result<(), String>),
    TokenOpened(Result<(), String>),
    /// Whether the token is elevated: it is not where this is zero.
    Elevation(Result<u32, String>),
    /// The token was duplicated, to a handle that is valid or not.
    Duplicated(Result<bool, String>),
    Kind(Result<i32, String>),
}

/// What is asked next about the token of the desktop.
#[derive(Clone, Copy, Debug, PartialEq, Eq, Structural)]
pub enum DesktopQuery {
    OpenShell,
    OpenToken,
    Elevation,
    Duplicate,
    Kind,
    /// The duplicate is used.
    Use,
}

/// A number as text.
pub open spec fn number_text(number: i32) -> Seq<char> {
    if number < 0 {
        "-"@ + decimal((-(number as int)) as nat)
    } else {
        decimal(number as nat)
    }
}

fn write_number(number: i32) -> (result: String)
    ensures
        result@ == number_text(number),
{
    if number < 0 {
        let magnitude: u64 = (-(number as i64)) as u64;
        join("-", decimal_text(magnitude).as_str())
    } else {
        decimal_text(number as u64)
    }
}

/// What is asked next about the token of the desktop, or why it is not used: only the
/// duplicate of a token that is not elevated, and only as a primary one.
pub open spec fn desktop_token(event: DesktopEvent) -> Result<DesktopQuery, Seq<char>> {
    match event {
        DesktopEvent::Shell(process) => if process == 0 {
            Err("cannot find the desktop user's normal security token"@)
        } else {
            Ok(DesktopQuery::OpenShell)
        },
        DesktopEvent::ShellOpened(Ok(())) => Ok(DesktopQuery::OpenToken),
        DesktopEvent::ShellOpened(Err(error)) => Err(
            "cannot open the desktop shell process: "@ + error@,
        ),
        DesktopEvent::TokenOpened(Ok(())) => Ok(DesktopQuery::Elevation),
        DesktopEvent::TokenOpened(Err(error)) => Err(
            "cannot open the desktop shell token: "@ + error@,
        ),
        DesktopEvent::Elevation(Ok(elevated)) => if elevated != 0 {
            Err("the desktop token is elevated; refusing DNS proxy launch"@)
        } else {
            Ok(DesktopQuery::Duplicate)
        },
        DesktopEvent::Elevation(Err(error)) => Err(
            "cannot inspect the desktop token elevation: "@ + error@,
        ),
        DesktopEvent::Duplicated(Ok(valid)) => if valid {
            Ok(DesktopQuery::Kind)
        } else {
            Err("desktop token duplication returned an invalid handle"@)
        },
        DesktopEvent::Duplicated(Err(error)) => Err(
            "cannot duplicate the desktop token: "@ + error@,
        ),
        DesktopEvent::Kind(Ok(kind)) => if kind == 1 {
            Ok(DesktopQuery::Use)
        } else {
            Err("duplicated desktop token has unsupported type "@ + number_text(kind))
        },
        DesktopEvent::Kind(Err(error)) => Err(
            "cannot query duplicated desktop token type: "@ + error@,
        ),
    }
}

/// Takes what is known of the token of the desktop.
pub fn desktop_primary_token(event: DesktopEvent) -> (result: Result<DesktopQuery, String>)
    ensures
        match desktop_token(event) {
            Ok(query) => result matches Ok(own) && own == query,
            Err(message) => result matches Err(text) && text@ == message,
        },
{
    match event {
        DesktopEvent::Shell(process) => if process == 0 {
            Err("cannot find the desktop user's normal security token".to_owned())
        } else {
            Ok(DesktopQuery::OpenShell)
        },
        DesktopEvent::ShellOpened(Ok(())) => Ok(DesktopQuery::OpenToken),
        DesktopEvent::ShellOpened(Err(error)) => Err(
            join("cannot open the desktop shell process: ", error.as_str()),
        ),
        DesktopEvent::TokenOpened(Ok(())) => Ok(DesktopQuery::Elevation),
        DesktopEvent::TokenOpened(Err(error)) => Err(
            join("cannot open the desktop shell token: ", error.as_str()),
        ),
        DesktopEvent::Elevation(Ok(elevated)) => if elevated != 0 {
            Err("the desktop token is elevated; refusing DNS proxy launch".to_owned())
        } else {
            Ok(DesktopQuery::Duplicate)
        },
        DesktopEvent::Elevation(Err(error)) => Err(
            join("cannot inspect the desktop token elevation: ", error.as_str()),
        ),
        DesktopEvent::Duplicated(Ok(valid)) => if valid {
            Ok(DesktopQuery::Kind)
        } else {
            Err("desktop token duplication returned an invalid handle".to_owned())
        },
        DesktopEvent::Duplicated(Err(error)) => Err(
            join("cannot duplicate the desktop token: ", error.as_str()),
        ),
        DesktopEvent::Kind(Ok(kind)) => if kind == 1 {
            Ok(DesktopQuery::Use)
        } else {
            Err(
                join(
                    "duplicated desktop token has unsupported type ",
                    write_number(kind).as_str(),
                ),
            )
        },
        DesktopEvent::Kind(Err(error)) => Err(
            join("cannot query duplicated desktop token type: ", error.as_str()),
        ),
    }
}

/// Whether an event is what a question comes to.
pub open spec fn desktop_answers(query: DesktopQuery, event: DesktopEvent) -> bool {
    match query {
        DesktopQuery::OpenShell => event is ShellOpened,
        DesktopQuery::OpenToken => event is TokenOpened,
        DesktopQuery::Elevation => event is Elevation,
        DesktopQuery::Duplicate => event is Duplicated,
        DesktopQuery::Kind => event is Kind,
        DesktopQuery::Use => false,
    }
}

/// Events that follow each other: the shell first, and then what each question came to.
pub open spec fn desktop_run(events: Seq<DesktopEvent>) -> bool {
    &&& events.len() > 0
    &&& events[0] is Shell
    &&& forall|i: int|
        0 < i < events.len() ==> (desktop_token(events[i - 1]) matches Ok(query)
            && desktop_answers(query, #[trigger] events[i]))
}

/// The token of the desktop is used only where it is not elevated, and only as a
/// primary duplicate with a valid handle.
pub proof fn desktop_tokens_are_not_elevated(events: Seq<DesktopEvent>)
    requires
        desktop_run(events),
        desktop_token(events.last()) == Ok::<DesktopQuery, Seq<char>>(DesktopQuery::Use),
    ensures
        events.last() matches DesktopEvent::Kind(Ok(kind)) && kind == 1,
        exists|i: int|
            0 <= i < events.len() && (#[trigger] events[i] matches DesktopEvent::Duplicated(
                Ok(valid),
            ) && valid),
        exists|i: int|
            0 <= i < events.len() && (#[trigger] events[i] matches DesktopEvent::Elevation(
                Ok(elevated),
            ) && elevated == 0),
{
    let n = events.len() - 1;
    assert(events[n] is Kind);
    assert(events[n - 1] is Duplicated);
    assert(events[n - 2] is Elevation);
}

/// What is known of the token of the companion.
#[derive(Debug, PartialEq, Eq)]
pub enum ChildTokenEvent {
    Opened(Result<(), String>),
    Elevation(Result<u32, String>),
    /// How large the information about its integrity is, how much of it is fixed, and
    /// how large a word is.
    Sized { needed: u32, header: u32, word: usize },
    Read(Result<(), String>),
    /// Whether there is an identity.
    Identity(bool),
    /// How many parts the identity has.
    Parts(Option<u8>),
    /// The last of these parts.
    Level(Option<u32>),
}

/// What is asked next about the token of the companion.
#[derive(Clone, Copy, Debug, PartialEq, Eq, Structural)]
pub enum ChildTokenQuery {
    Elevation,
    Size,
    /// Reads so many words.
    Read { words: usize },
    Identity,
    Parts,
    /// The part at this index.
    Level { index: u32 },
    /// The companion may run.
    Accept,
}

/// What is asked next about the token of the companion, or why the companion may not
/// run: a token is accepted that is not elevated and of medium integrity at most.
pub open spec fn child_token(event: ChildTokenEvent) -> Result<ChildTokenQuery, Seq<char>> {
    match event {
        ChildTokenEvent::Opened(Ok(())) => Ok(ChildTokenQuery::Elevation),
        ChildTokenEvent::Opened(Err(error)) => Err(
            "cannot open DNS proxy process token: "@ + error@,
        ),
        ChildTokenEvent::Elevation(Ok(elevated)) => if elevated != 0 {
            Err("TokenIsElevated is set"@)
        } else {
            Ok(ChildTokenQuery::Size)
        },
        ChildTokenEvent::Elevation(Err(error)) => Err(
            "cannot inspect DNS proxy token elevation: "@ + error@,
        ),
        ChildTokenEvent::Sized { needed, header, word } => if needed < header || needed
            > MAX_INTEGRITY_BYTES {
            Err("invalid integrity information size "@ + decimal(needed as nat) + " bytes"@)
        } else {
            Ok(ChildTokenQuery::Read { words: ((needed + word - 1) / word as int) as usize })
        },
        ChildTokenEvent::Read(Ok(())) => Ok(ChildTokenQuery::Identity),
        ChildTokenEvent::Read(Err(error)) => Err(
            "cannot read DNS proxy token integrity: "@ + error@,
        ),
        ChildTokenEvent::Identity(present) => if present {
            Ok(ChildTokenQuery::Parts)
        } else {
            Err("DNS proxy token has no integrity SID"@)
        },
        ChildTokenEvent::Parts(count) => match count {
            Some(count) if count > 0 => Ok(ChildTokenQuery::Level { index: (count - 1) as u32 }),
            _ => Err("DNS proxy token integrity SID has no subauthority"@),
        },
        ChildTokenEvent::Level(level) => match level {
            None => Err("DNS proxy token integrity SID has no RID"@),
            Some(level) => if level > MEDIUM_INTEGRITY {
                Err(
                    "integrity RID "@ + decimal(level as nat) + " is above medium ("@ + decimal(
                        MEDIUM_INTEGRITY as nat,
                    ) + ")"@,
                )
            } else {
                Ok(ChildTokenQuery::Accept)
            },
        },
    }
}

/// Takes what is known of the token of the companion.
pub fn verify_child_token_medium_or_lower(event: ChildTokenEvent) -> (result: Result<
    ChildTokenQuery,
    String,
>)
    requires
        event matches ChildTokenEvent::Sized { word, .. } ==> 0 < word <= 16,
    ensures
        match child_token(event) {
            Ok(query) => result matches Ok(own) && own == query,
            Err(message) => result matches Err(text) && text@ == message,
        },
{
    match event {
        ChildTokenEvent::Opened(Ok(())) => Ok(ChildTokenQuery::Elevation),
        ChildTokenEvent::Opened(Err(error)) => Err(
            join("cannot open DNS proxy process token: ", error.as_str()),
        ),
        ChildTokenEvent::Elevation(Ok(elevated)) => if elevated != 0 {
            Err("TokenIsElevated is set".to_owned())
        } else {
            Ok(ChildTokenQuery::Size)
        },
        ChildTokenEvent::Elevation(Err(error)) => Err(
            join("cannot inspect DNS proxy token elevation: ", error.as_str()),
        ),
        ChildTokenEvent::Sized { needed, header, word } => if needed < header || needed
            > MAX_INTEGRITY_BYTES {
            Err(
                join3(
                    "invalid integrity information size ",
                    decimal_text(needed as u64).as_str(),
                    " bytes",
                ),
            )
        } else {
            Ok(ChildTokenQuery::Read { words: (needed as usize + word - 1) / word })
        },
        ChildTokenEvent::Read(Ok(())) => Ok(ChildTokenQuery::Identity),
        ChildTokenEvent::Read(Err(error)) => Err(
            join("cannot read DNS proxy token integrity: ", error.as_str()),
        ),
        ChildTokenEvent::Identity(present) => if present {
            Ok(ChildTokenQuery::Parts)
        } else {
            Err("DNS proxy token has no integrity SID".to_owned())
        },
        ChildTokenEvent::Parts(count) => match count {
            Some(count) if count > 0 => Ok(ChildTokenQuery::Level { index: (count - 1) as u32 }),
            _ => Err("DNS proxy token integrity SID has no subauthority".to_owned()),
        },
        ChildTokenEvent::Level(level) => match level {
            None => Err("DNS proxy token integrity SID has no RID".to_owned()),
            Some(level) => if level > MEDIUM_INTEGRITY {
                let front = join4(
                    "integrity RID ",
                    decimal_text(level as u64).as_str(),
                    " is above medium (",
                    decimal_text(MEDIUM_INTEGRITY as u64).as_str(),
                );
                Err(join(front.as_str(), ")"))
            } else {
                Ok(ChildTokenQuery::Accept)
            },
        },
    }
}

/// Whether an event is what a question comes to.
pub open spec fn child_token_answers(query: ChildTokenQuery, event: ChildTokenEvent) -> bool {
    match query {
        ChildTokenQuery::Elevation => event is Elevation,
        ChildTokenQuery::Size => event is Sized,
        ChildTokenQuery::Read { .. } => event is Read,
        ChildTokenQuery::Identity => event is Identity,
        ChildTokenQuery::Parts => event is Parts,
        ChildTokenQuery::Level { .. } => event is Level,
        ChildTokenQuery::Accept => false,
    }
}

/// Events that follow each other: the token is opened first, and then comes what each
/// question came to.
pub open spec fn child_token_run(events: Seq<ChildTokenEvent>) -> bool {
    &&& events.len() > 0
    &&& events[0] is Opened
    &&& forall|i: int|
        0 < i < events.len() ==> (child_token(events[i - 1]) matches Ok(query)
            && child_token_answers(query, #[trigger] events[i]))
}

/// A companion is accepted only at medium integrity or below, and only after its token
/// was seen not to be elevated.
pub proof fn only_medium_companions_are_accepted(events: Seq<ChildTokenEvent>)
    requires
        child_token_run(events),
    ensures
        child_token(events.last()) == Ok::<ChildTokenQuery, Seq<char>>(ChildTokenQuery::Accept)
            <==> (events.last() matches ChildTokenEvent::Level(Some(level)) && level
            <= MEDIUM_INTEGRITY),
        child_token(events.last()) == Ok::<ChildTokenQuery, Seq<char>>(ChildTokenQuery::Accept)
            ==> exists|i: int|
            0 <= i < events.len() && (#[trigger] events[i] matches ChildTokenEvent::Elevation(
                Ok(elevated),
            ) && elevated == 0),
        (events.last() matches ChildTokenEvent::Elevation(Ok(elevated)) && elevated != 0)
            ==> child_token(events.last()) is Err,
{
    let n = events.len() - 1;
    if child_token(events.last()) == Ok::<ChildTokenQuery, Seq<char>>(ChildTokenQuery::Accept) {
        assert(events[n] is Level);
        assert(events[n - 1] is Parts);
        assert(events[n - 2] is Identity);
        assert(events[n - 3] is Read);
        assert(events[n - 4] is Sized);
        assert(events[n - 5] is Elevation);
    }
}

/// What happened while the process is created.
#[derive(Debug, PartialEq, Eq)]
pub enum SpawnEvent {
    Begin,
    Token(Result<(), String>),
    StdinPipe(Result<(), String>),
    StdoutPipe(Result<(), String>),
    /// The end of the pipe that stays here is not inherited.
    StdinPrivate(Result<(), String>),
    StdoutPrivate(Result<(), String>),
    /// Whether the executable lies in a directory.
    Directory(bool),
    /// How large the list of attributes is.
    Sized(usize),
    Initialized(Result<(), String>),
    /// The process inherits only its ends of the pipes.
    Restricted(Result<(), String>),
    Created(Result<(), String>),
}

/// What is done next to create the process.
#[derive(Clone, Copy, Debug, PartialEq, Eq, Structural)]
pub enum SpawnAction {
    TakeDesktopToken,
    MakeStdinPipe,
    MakeStdoutPipe,
    HideStdin,
    HideStdout,
    FindDirectory,
    SizeAttributes,
    InitializeAttributes,
    RestrictHandles,
    /// Creates the process, suspended, with the token of the desktop.
    CreateWithToken,
    /// Creates the process, suspended, with this process's own token.
    Create,
    /// Releases the list of attributes; nothing more is done.
    ReleaseAttributes,
    Finish,
}

/// What comes after a step that succeeded or failed.
pub open spec fn then_do(
    result: Result<(), String>,
    action: SpawnAction,
) -> (SpawnAction, Option<Seq<char>>) {
    match result {
        Ok(()) => (action, None),
        Err(error) => (SpawnAction::Finish, Some(error@)),
    }
}

fn go_on(result: Result<(), String>, action: SpawnAction) -> (step: (SpawnAction, Option<String>))
    ensures
        (step.0, text_option(step.1)) == then_do(result, action),
{
    match result {
        Ok(()) => (action, None),
        Err(error) => (SpawnAction::Finish, Some(error)),
    }
}

/// What is done next to create the process, and what went wrong.
pub open spec fn spawning(elevated: bool, event: SpawnEvent) -> (SpawnAction, Option<Seq<char>>) {
    match event {
        SpawnEvent::Begin => if elevated {
            (SpawnAction::TakeDesktopToken, None)
        } else {
            (SpawnAction::MakeStdinPipe, None)
        },
        SpawnEvent::Token(result) => then_do(result, SpawnAction::MakeStdinPipe),
        SpawnEvent::StdinPipe(result) => then_do(result, SpawnAction::MakeStdoutPipe),
        SpawnEvent::StdoutPipe(result) => then_do(result, SpawnAction::HideStdin),
        SpawnEvent::StdinPrivate(result) => then_do(result, SpawnAction::HideStdout),
        SpawnEvent::StdoutPrivate(result) => then_do(result, SpawnAction::FindDirectory),
        SpawnEvent::Directory(found) => if found {
            (SpawnAction::SizeAttributes, None)
        } else {
            (SpawnAction::Finish, Some("DNS proxy executable has no parent directory"@))
        },
        SpawnEvent::Sized(size) => if size == 0 {
            (SpawnAction::Finish, Some("cannot size DNS proxy process attributes"@))
        } else {
            (SpawnAction::InitializeAttributes, None)
        },
        SpawnEvent::Initialized(Ok(())) => (SpawnAction::RestrictHandles, None),
        SpawnEvent::Initialized(Err(error)) => (
            SpawnAction::Finish,
            Some("cannot initialize DNS proxy process attributes: "@ + error@),
        ),
        SpawnEvent::Restricted(Ok(())) => if elevated {
            (SpawnAction::CreateWithToken, None)
        } else {
            (SpawnAction::Create, None)
        },
        SpawnEvent::Restricted(Err(error)) => (
            SpawnAction::ReleaseAttributes,
            Some("cannot restrict DNS proxy inherited handles: "@ + error@),
        ),
        SpawnEvent::Created(Ok(())) => (SpawnAction::ReleaseAttributes, None),
        SpawnEvent::Created(Err(error)) => (
            SpawnAction::ReleaseAttributes,
            Some("cannot start DNS proxy: "@ + error@),
        ),
    }
}

/// Takes what happened while the process is created.
pub fn spawn_companion(elevated: bool, event: SpawnEvent) -> (result: (
    SpawnAction,
    Option<String>,
))
    ensures
        (result.0, text_option(result.1)) == spawning(elevated, event),
{
    match event {
        SpawnEvent::Begin => if elevated {
            (SpawnAction::TakeDesktopToken, None)
        } else {
            (SpawnAction::MakeStdinPipe, None)
        },
        SpawnEvent::Token(result) => go_on(result, SpawnAction::MakeStdinPipe),
        SpawnEvent::StdinPipe(result) => go_on(result, SpawnAction::MakeStdoutPipe),
        SpawnEvent::StdoutPipe(result) => go_on(result, SpawnAction::HideStdin),
        SpawnEvent::StdinPrivate(result) => go_on(result, SpawnAction::HideStdout),
        SpawnEvent::StdoutPrivate(result) => go_on(result, SpawnAction::FindDirectory),
        SpawnEvent::Directory(found) => if found {
            (SpawnAction::SizeAttributes, None)
        } else {
            (
                SpawnAction::Finish,
                Some("DNS proxy executable has no parent directory".to_owned()),
            )
        },
        SpawnEvent::Sized(size) => if size == 0 {
            (SpawnAction::Finish, Some("cannot size DNS proxy process attributes".to_owned()))
        } else {
            (SpawnAction::InitializeAttributes, None)
        },
        SpawnEvent::Initialized(Ok(())) => (SpawnAction::RestrictHandles, None),
        SpawnEvent::Initialized(Err(error)) => (
            SpawnAction::Finish,
            Some(join("cannot initialize DNS proxy process attributes: ", error.as_str())),
        ),
        SpawnEvent::Restricted(Ok(())) => if elevated {
            (SpawnAction::CreateWithToken, None)
        } else {
            (SpawnAction::Create, None)
        },
        SpawnEvent::Restricted(Err(error)) => (
            SpawnAction::ReleaseAttributes,
            Some(join("cannot restrict DNS proxy inherited handles: ", error.as_str())),
        ),
        SpawnEvent::Created(Ok(())) => (SpawnAction::ReleaseAttributes, None),
        SpawnEvent::Created(Err(error)) => (
            SpawnAction::ReleaseAttributes,
            Some(join("cannot start DNS proxy: ", error.as_str())),
        ),
    }
}

/// Whether an event is what an action comes to.
pub open spec fn spawn_answers(action: SpawnAction, event: SpawnEvent) -> bool {
    match action {
        SpawnAction::TakeDesktopToken => event is Token,
        SpawnAction::MakeStdinPipe => event is StdinPipe,
        SpawnAction::MakeStdoutPipe => event is StdoutPipe,
        SpawnAction::HideStdin => event is StdinPrivate,
        SpawnAction::HideStdout => event is StdoutPrivate,
        SpawnAction::FindDirectory => event is Directory,
        SpawnAction::SizeAttributes => event is Sized,
        SpawnAction::InitializeAttributes => event is Initialized,
        SpawnAction::RestrictHandles => event is Restricted,
        SpawnAction::CreateWithToken => event is Created,
        SpawnAction::Create => event is Created,
        SpawnAction::ReleaseAttributes => false,
        SpawnAction::Finish => false,
    }
}

/// Events that follow each other: the beginning, and then what each action came to.
pub open spec fn spawn_run(elevated: bool, events: Seq<SpawnEvent>) -> bool {
    &&& events.len() > 0
    &&& events[0] is Begin
    &&& forall|i: int|
        0 < i < events.len() ==> spawn_answers(
            spawning(elevated, events[i - 1]).0,
            #[trigger] events[i],
        )
}

/// An elevated process creates the companion with the token of the desktop, which it
/// has taken, and never with its own. A process is created only after both ends of the
/// pipes that stay here were made private and its handles were restricted; the list
/// that restricts them is released once it was made. An error ends the run.
pub proof fn companions_never_get_an_elevated_token(elevated: bool, events: Seq<SpawnEvent>)
    requires
        spawn_run(elevated, events),
    ensures
        spawning(elevated, events.last()).0 == SpawnAction::Create ==> !elevated,
        spawning(elevated, events.last()).0 == SpawnAction::CreateWithToken ==> elevated
            && exists|i: int|
            0 <= i < events.len() && (#[trigger] events[i] matches SpawnEvent::Token(Ok(_))),
        spawning(elevated, events.last()).0 == SpawnAction::Create || spawning(
            elevated,
            events.last(),
        ).0 == SpawnAction::CreateWithToken ==> {
            &&& exists|i: int|
                0 <= i < events.len() && (#[trigger] events[i] matches SpawnEvent::StdinPrivate(
                    Ok(_),
                ))
            &&& exists|i: int|
                0 <= i < events.len() && (#[trigger] events[i] matches SpawnEvent::StdoutPrivate(
                    Ok(_),
                ))
            &&& events.last() matches SpawnEvent::Restricted(Ok(_))
        },
        spawning(elevated, events.last()).0 == SpawnAction::ReleaseAttributes <==> (events.last()
            matches SpawnEvent::Restricted(Err(_))) || events.last() is Created,
        forall|i: int|
            0 <= i < events.len() - 1 ==> spawning(elevated, #[trigger] events[i]).1 is None,
{
    let n = events.len() - 1;
    if spawning(elevated, events.last()).0 == SpawnAction::Create || spawning(
        elevated,
        events.last(),
    ).0 == SpawnAction::CreateWithToken {
        assert(events[n] is Restricted);
        assert(events[n - 1] is Initialized);
        assert(events[n - 2] is Sized);
        assert(events[n - 3] is Directory);
        assert(events[n - 4] matches SpawnEvent::StdoutPrivate(Ok(_)));
        assert(events[n - 5] matches SpawnEvent::StdinPrivate(Ok(_)));
        assert(events[n - 6] is StdoutPipe);
        assert(events[n - 7] is StdinPipe);
        if elevated {
            assert(events[n - 8] matches SpawnEvent::Token(Ok(_)));
        }
    }
    assert forall|i: int| 0 <= i < n implies spawning(elevated, #[trigger] events[i]).1 is None by {
        let next = events[i + 1];
    }
}

/// What happened while the companion is launched.
#[derive(Debug, PartialEq, Eq)]
pub enum CompanionEvent {
    Extracted(Result<(), String>),
    Spawned(Result<(), String>),
    /// The process is in a job that ends with this process.
    Contained(Result<(), String>),
    TokenChecked(Result<(), String>),
    Resumed(bool),
    /// Whether the process has a pipe for its input, or for its output.
    Stdin(bool),
    Stdout(bool),
    Reader(Result<(), String>),
    Configured(Result<(), String>),
    /// The companion said that it is ready, with what was asked for.
    Ready(Result<(), String>),
}

/// What is done next to launch the companion.
#[derive(Clone, Copy, Debug, PartialEq, Eq, Structural)]
pub enum CompanionAction {
    Spawn,
    Contain,
    CheckToken,
    Resume,
    TakeStdin,
    TakeStdout,
    StartReader,
    WriteConfiguration,
    AwaitReady,
    /// The companion runs and is kept.
    Keep,
    /// Ends the process, which is not in a job.
    TerminateAlone,
    /// Ends the job with the process.
    Terminate,
    /// Ends the job with the process and waits a little for the reader.
    TerminateAndReap,
    /// Nothing; there is no process.
    Finish,
}

/// What comes after a step that succeeded or failed.
pub open spec fn then_launch(
    result: Result<(), String>,
    action: CompanionAction,
    failed: CompanionAction,
) -> (CompanionAction, Option<Seq<char>>) {
    match result {
        Ok(()) => (action, None),
        Err(error) => (failed, Some(error@)),
    }
}

fn launch_on(result: Result<(), String>, action: CompanionAction, failed: CompanionAction) -> (step:
    (CompanionAction, Option<String>))
    ensures
        (step.0, text_option(step.1)) == then_launch(result, action, failed),
{
    match result {
        Ok(()) => (action, None),
        Err(error) => (failed, Some(error)),
    }
}

/// What is done next to launch the companion, and what went wrong.
pub open spec fn launching(elevated: bool, event: CompanionEvent) -> (
    CompanionAction,
    Option<Seq<char>>,
) {
    match event {
        CompanionEvent::Extracted(result) => then_launch(
            result,
            CompanionAction::Spawn,
            CompanionAction::Finish,
        ),
        CompanionEvent::Spawned(result) => then_launch(
            result,
            CompanionAction::Contain,
            CompanionAction::Finish,
        ),
        CompanionEvent::Contained(result) => then_launch(
            result,
            if elevated {
                CompanionAction::CheckToken
            } else {
                CompanionAction::Resume
            },
            CompanionAction::TerminateAlone,
        ),
        CompanionEvent::TokenChecked(Ok(())) => (CompanionAction::Resume, None),
        CompanionEvent::TokenChecked(Err(error)) => (
            CompanionAction::Terminate,
            Some("DNS proxy child token was not demoted to medium or lower: "@ + error@),
        ),
        CompanionEvent::Resumed(resumed) => if resumed {
            (CompanionAction::TakeStdin, None)
        } else {
            (CompanionAction::Terminate, Some("cannot resume DNS proxy process"@))
        },
        CompanionEvent::Stdin(present) => if present {
            (CompanionAction::TakeStdout, None)
        } else {
            (CompanionAction::Terminate, Some("DNS proxy stdin pipe was not created"@))
        },
        CompanionEvent::Stdout(present) => if present {
            (CompanionAction::StartReader, None)
        } else {
            (CompanionAction::Terminate, Some("DNS proxy stdout pipe was not created"@))
        },
        CompanionEvent::Reader(Ok(())) => (CompanionAction::WriteConfiguration, None),
        CompanionEvent::Reader(Err(error)) => (
            CompanionAction::Terminate,
            Some("cannot supervise DNS proxy output: "@ + error@),
        ),
        CompanionEvent::Configured(result) => then_launch(
            result,
            CompanionAction::AwaitReady,
            CompanionAction::TerminateAndReap,
        ),
        CompanionEvent::Ready(result) => then_launch(
            result,
            CompanionAction::Keep,
            CompanionAction::TerminateAndReap,
        ),
    }
}

/// Takes what happened while the companion is launched.
pub fn launch_companion(elevated: bool, event: CompanionEvent) -> (result: (
    CompanionAction,
    Option<String>,
))
    ensures
        (result.0, text_option(result.1)) == launching(elevated, event),
{
    match event {
        CompanionEvent::Extracted(result) => launch_on(
            result,
            CompanionAction::Spawn,
            CompanionAction::Finish,
        ),
        CompanionEvent::Spawned(result) => launch_on(
            result,
            CompanionAction::Contain,
            CompanionAction::Finish,
        ),
        CompanionEvent::Contained(result) => {
            let next = if elevated {
                CompanionAction::CheckToken
            } else {
                CompanionAction::Resume
            };
            launch_on(result, next, CompanionAction::TerminateAlone)
        },
        CompanionEvent::TokenChecked(Ok(())) => (CompanionAction::Resume, None),
        CompanionEvent::TokenChecked(Err(error)) => (
            CompanionAction::Terminate,
            Some(
                join(
                    "DNS proxy child token was not demoted to medium or lower: ",
                    error.as_str(),
                ),
            ),
        ),
        CompanionEvent::Resumed(resumed) => if resumed {
            (CompanionAction::TakeStdin, None)
        } else {
            (CompanionAction::Terminate, Some("cannot resume DNS proxy process".to_owned()))
        },
        CompanionEvent::Stdin(present) => if present {
            (CompanionAction::TakeStdout, None)
        } else {
            (CompanionAction::Terminate, Some("DNS proxy stdin pipe was not created".to_owned()))
        },
        CompanionEvent::Stdout(present) => if present {
            (CompanionAction::StartReader, None)
        } else {
            (CompanionAction::Terminate, Some("DNS proxy stdout pipe was not created".to_owned()))
        },
        CompanionEvent::Reader(Ok(())) => (CompanionAction::WriteConfiguration, None),
        CompanionEvent::Reader(Err(error)) => (
            CompanionAction::Terminate,
            Some(join("cannot supervise DNS proxy output: ", error.as_str())),
        ),
        CompanionEvent::Configured(result) => launch_on(
            result,
            CompanionAction::AwaitReady,
            CompanionAction::TerminateAndReap,
        ),
        CompanionEvent::Ready(result) => launch_on(
            result,
            CompanionAction::Keep,
            CompanionAction::TerminateAndReap,
        ),
    }
}

/// Whether an event is what an action comes to.
pub open spec fn launch_answers(action: CompanionAction, event: CompanionEvent) -> bool {
    match action {
        CompanionAction::Spawn => event is Spawned,
        CompanionAction::Contain => event is Contained,
        CompanionAction::CheckToken => event is TokenChecked,
        CompanionAction::Resume => event is Resumed,
        CompanionAction::TakeStdin => event is Stdin,
        CompanionAction::TakeStdout => event is Stdout,
        CompanionAction::StartReader => event is Reader,
        CompanionAction::WriteConfiguration => event is Configured,
        CompanionAction::AwaitReady => event is Ready,
        _ => false,
    }
}

/// Events that follow each other: the executable first, and then what each action came
/// to.
pub open spec fn launch_run(elevated: bool, events: Seq<CompanionEvent>) -> bool {
    &&& events.len() > 0
    &&& events[0] is Extracted
    &&& forall|i: int|
        0 < i < events.len() ==> launch_answers(
            launching(elevated, events[i - 1]).0,
            #[trigger] events[i],
        )
}

/// Whether the process was contained and, under an elevated process, its token accepted.
pub open spec fn contained_and_demoted(elevated: bool, events: Seq<CompanionEvent>) -> bool {
    &&& exists|i: int|
        0 <= i < events.len() && (#[trigger] events[i] matches CompanionEvent::Contained(Ok(_)))
    &&& elevated ==> exists|i: int|
        0 <= i < events.len() && (#[trigger] events[i] matches CompanionEvent::TokenChecked(Ok(_)))
}

/// A companion runs only once it is contained and, under an elevated process, its
/// token was accepted; it is kept only when it runs so and is ready. A process that
/// cannot be kept is ended, and an error ends the run.
pub proof fn companions_run_contained_and_demoted(elevated: bool, events: Seq<CompanionEvent>)
    requires
        launch_run(elevated, events),
    ensures
        launching(elevated, events.last()).0 == CompanionAction::Resume ==> contained_and_demoted(
            elevated,
            events,
        ),
        launching(elevated, events.last()).0 == CompanionAction::Keep ==> {
            &&& contained_and_demoted(elevated, events)
            &&& exists|i: int|
                0 <= i < events.len() && (#[trigger] events[i] matches CompanionEvent::Resumed(
                    resumed,
                ) && resumed)
            &&& events.last() matches CompanionEvent::Ready(Ok(_))
        },
        launching(elevated, events.last()).1 is Some && !(events.last() is Extracted) && !(
        events.last() is Spawned) ==> {
            ||| launching(elevated, events.last()).0 == CompanionAction::TerminateAlone
            ||| launching(elevated, events.last()).0 == CompanionAction::Terminate
            ||| launching(elevated, events.last()).0 == CompanionAction::TerminateAndReap
        },
        forall|i: int|
            0 <= i < events.len() - 1 ==> launching(elevated, #[trigger] events[i]).1 is None,
{
    let n = events.len() - 1;
    if launching(elevated, events.last()).0 == CompanionAction::Resume {
        lemma_resumed_contained(elevated, events, n);
    }
    if launching(elevated, events.last()).0 == CompanionAction::Keep {
        assert(events[n] is Ready);
        assert(events[n - 1] is Configured);
        assert(events[n - 2] is Reader);
        assert(events[n - 3] is Stdout);
        assert(events[n - 4] is Stdin);
        assert(events[n - 5] is Resumed);
        lemma_resumed_contained(elevated, events, n - 6);
    }
    assert forall|i: int| 0 <= i < n implies launching(elevated, #[trigger] events[i]).1
        is None by {
        let next = events[i + 1];
    }
}

proof fn lemma_resumed_contained(elevated: bool, events: Seq<CompanionEvent>, at: int)
    requires
        launch_run(elevated, events),
        0 <= at < events.len(),
        launching(elevated, events[at]).0 == CompanionAction::Resume,
    ensures
        contained_and_demoted(elevated, events),
{
    if events[at] is TokenChecked {
        assert(events[at - 1] matches CompanionEvent::Contained(Ok(_)));
    }
}

/// What follows each event of extracting the executable. One that is there is opened as
/// one that was written; it is used exactly where it was verified, and removed exactly
/// where it could not be written.
pub proof fn executables_are_extracted_step_by_step(event: ExtractEvent)
    ensures
        ({
            let (action, error) = extracted(event);
            &&& action is MakeDirectory <==> (event matches ExtractEvent::Path { absolute }
                && absolute)
            &&& action is Create <==> (event matches ExtractEvent::Directory(Ok(_)))
            &&& action is Write <==> event is Created
            &&& action is Open <==> event is Exists || (event matches ExtractEvent::Written(Ok(_)))
            &&& action is Verify <==> (event matches ExtractEvent::Opened(Ok(_)))
            &&& action is Use <==> (event matches ExtractEvent::Verified(Ok(_)))
            &&& action is Remove <==> (event matches ExtractEvent::Written(Err(_)))
            &&& error is Some <==> action is Finish || action is Remove
        }),
{
}

/// The token of the desktop is asked for in order, and given up where there is no shell,
/// it is elevated, its duplicate has no handle, or is no primary one.
pub proof fn desktop_tokens_are_asked_for_in_order(event: DesktopEvent)
    ensures
        ({
            let next = desktop_token(event);
            let good = match event {
                DesktopEvent::Shell(process) => process > 0,
                DesktopEvent::ShellOpened(result) => result is Ok,
                DesktopEvent::TokenOpened(result) => result is Ok,
                DesktopEvent::Elevation(result) => result is Ok && result->Ok_0 == 0,
                DesktopEvent::Duplicated(result) => result is Ok && result->Ok_0,
                DesktopEvent::Kind(result) => result is Ok && result->Ok_0 == 1,
            };
            &&& next is Ok <==> good
            &&& good ==> match event {
                DesktopEvent::Shell(_) => next->Ok_0 is OpenShell,
                DesktopEvent::ShellOpened(_) => next->Ok_0 is OpenToken,
                DesktopEvent::TokenOpened(_) => next->Ok_0 is Elevation,
                DesktopEvent::Elevation(_) => next->Ok_0 is Duplicate,
                DesktopEvent::Duplicated(_) => next->Ok_0 is Kind,
                DesktopEvent::Kind(_) => next->Ok_0 is Use,
            }
        }),
{
}

/// The token of the companion is looked at in order, and refused where it is elevated, its
/// information is smaller than its fixed part or larger than 64 kibibytes, it has no
/// identity, or a level above 8192. As many words are read as hold the information.
pub proof fn companion_tokens_are_looked_at_in_order(event: ChildTokenEvent)
    requires
        event matches ChildTokenEvent::Sized { word, .. } ==> 0 < word,
    ensures
        ({
            let next = child_token(event);
            let good = match event {
                ChildTokenEvent::Opened(result) => result is Ok,
                ChildTokenEvent::Elevation(result) => result is Ok && result->Ok_0 == 0,
                ChildTokenEvent::Sized { needed, header, .. } => header <= needed && needed
                    <= 64 * 1024,
                ChildTokenEvent::Read(result) => result is Ok,
                ChildTokenEvent::Identity(present) => present,
                ChildTokenEvent::Parts(count) => count is Some && count->0 >= 1,
                ChildTokenEvent::Level(level) => level is Some && level->0 <= 8192,
            };
            &&& next is Ok <==> good
            &&& good ==> match event {
                ChildTokenEvent::Opened(_) => next->Ok_0 is Elevation,
                ChildTokenEvent::Elevation(_) => next->Ok_0 is Size,
                ChildTokenEvent::Sized { needed, word, .. } => next->Ok_0
                    matches ChildTokenQuery::Read { words } && words * word >= needed && (words - 1)
                    * word < needed,
                ChildTokenEvent::Read(_) => next->Ok_0 is Identity,
                ChildTokenEvent::Identity(_) => next->Ok_0 is Parts,
                ChildTokenEvent::Parts(count) => next->Ok_0 == ChildTokenQuery::Level {
                    index: (count->0 - 1) as u32,
                },
                ChildTokenEvent::Level(_) => next->Ok_0 is Accept,
            }
        }),
{
    if let ChildTokenEvent::Sized { needed, header, word } = event {
        let words = (needed + word - 1) / word as int;
        assert(words * word >= needed && (words - 1) * word < needed && 0 <= words <= needed)
            by (nonlinear_arith)
            requires
                words == (needed + word - 1) / word as int,
                0 < word,
                0 <= needed,
        ;
    }
}

/// A process is created step by step; with the token of the desktop exactly where this one
/// is elevated. A failure ends it, and releases the list of attributes once there is one.
pub proof fn processes_are_created_step_by_step(elevated: bool, event: SpawnEvent)
    ensures
        ({
            let (action, error) = spawning(elevated, event);
            let good = match event {
                SpawnEvent::Begin => true,
                SpawnEvent::Token(result) => result is Ok,
                SpawnEvent::StdinPipe(result) => result is Ok,
                SpawnEvent::StdoutPipe(result) => result is Ok,
                SpawnEvent::StdinPrivate(result) => result is Ok,
                SpawnEvent::StdoutPrivate(result) => result is Ok,
                SpawnEvent::Directory(found) => found,
                SpawnEvent::Sized(size) => size > 0,
                SpawnEvent::Initialized(result) => result is Ok,
                SpawnEvent::Restricted(result) => result is Ok,
                SpawnEvent::Created(result) => result is Ok,
            };
            &&& error is None <==> good
            &&& !good ==> (action is ReleaseAttributes <==> event is Restricted || event is Created)
            &&& !good ==> (action is Finish <==> !(event is Restricted) && !(event is Created))
            &&& good ==> match event {
                SpawnEvent::Begin => (elevated ==> action is TakeDesktopToken) && (!elevated
                    ==> action is MakeStdinPipe),
                SpawnEvent::Token(_) => action is MakeStdinPipe,
                SpawnEvent::StdinPipe(_) => action is MakeStdoutPipe,
                SpawnEvent::StdoutPipe(_) => action is HideStdin,
                SpawnEvent::StdinPrivate(_) => action is HideStdout,
                SpawnEvent::StdoutPrivate(_) => action is FindDirectory,
                SpawnEvent::Directory(_) => action is SizeAttributes,
                SpawnEvent::Sized(_) => action is InitializeAttributes,
                SpawnEvent::Initialized(_) => action is RestrictHandles,
                SpawnEvent::Restricted(_) => (elevated ==> action is CreateWithToken) && (!elevated
                    ==> action is Create),
                SpawnEvent::Created(_) => action is ReleaseAttributes,
            }
        }),
{
}

/// A companion is launched step by step; its token is looked at exactly where this process
/// is elevated. A failure ends the process once there is one: alone until it is contained,
/// with its job after that, and with its reader once that was started.
pub proof fn companions_are_launched_step_by_step(elevated: bool, event: CompanionEvent)
    ensures
        ({
            let (action, error) = launching(elevated, event);
            let good = match event {
                CompanionEvent::Extracted(result) => result is Ok,
                CompanionEvent::Spawned(result) => result is Ok,
                CompanionEvent::Contained(result) => result is Ok,
                CompanionEvent::TokenChecked(result) => result is Ok,
                CompanionEvent::Resumed(resumed) => resumed,
                CompanionEvent::Stdin(present) => present,
                CompanionEvent::Stdout(present) => present,
                CompanionEvent::Reader(result) => result is Ok,
                CompanionEvent::Configured(result) => result is Ok,
                CompanionEvent::Ready(result) => result is Ok,
            };
            &&& error is None <==> good
            &&& !good ==> match event {
                CompanionEvent::Extracted(_) => action is Finish,
                CompanionEvent::Spawned(_) => action is Finish,
                CompanionEvent::Contained(_) => action is TerminateAlone,
                CompanionEvent::Configured(_) => action is TerminateAndReap,
                CompanionEvent::Ready(_) => action is TerminateAndReap,
                _ => action is Terminate,
            }
            &&& good ==> match event {
                CompanionEvent::Extracted(_) => action is Spawn,
                CompanionEvent::Spawned(_) => action is Contain,
                CompanionEvent::Contained(_) => (elevated ==> action is CheckToken) && (!elevated
                    ==> action is Resume),
                CompanionEvent::TokenChecked(_) => action is Resume,
                CompanionEvent::Resumed(_) => action is TakeStdin,
                CompanionEvent::Stdin(_) => action is TakeStdout,
                CompanionEvent::Stdout(_) => action is StartReader,
                CompanionEvent::Reader(_) => action is WriteConfiguration,
                CompanionEvent::Configured(_) => action is AwaitReady,
                CompanionEvent::Ready(_) => action is Keep,
            }
        }),
{
}

/// A number is told with its sign.
pub proof fn numbers_are_told_with_their_sign(number: i32)
    ensures
        number >= 0 ==> number_text(number) == decimal(number as nat),
        number < 0 ==> number_text(number) == seq!['-'] + decimal((0 - number) as nat),
{
    reveal_strlit("-");
    assert("-"@ =~= seq!['-']);
}

} // verus!
