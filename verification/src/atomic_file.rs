//! Replacing a file as a whole: the new contents go to a temporary file beside it,
//! which takes its place only once it is complete.

use crate::text::{decimal, decimal_text, join, join5};
use crate::dns_session::text_option;
use crate::dns_supervisor::result_view;
use vstd::prelude::*;
use vstd::string::*;

verus! {

/// How many names of temporary files are tried.
pub const TEMPORARY_ATTEMPTS: u32 = 32;

/// The name of a temporary file: that of the file it replaces, the process and a
/// number that the process has not used before.
pub open spec fn temporary_name(file_name: Seq<char>, process: u32, id: u64) -> Seq<char> {
    "."@ + file_name + ".tmp-"@ + decimal(process as nat) + "-"@ + decimal(id as nat)
}

/// The name of a temporary file.
pub fn temporary_file_name(file_name: &str, process: u32, id: u64) -> (result: String)
    ensures
        result@ == temporary_name(file_name@, process, id),
{
    let front = join5(".", file_name, ".tmp-", decimal_text(process as u64).as_str(), "-");
    join(front.as_str(), decimal_text(id).as_str())
}

/// What replacing a file waits for.
#[derive(Clone, Copy, Debug, PartialEq, Eq, Structural)]
pub enum WritePhase {
    Directory,
    Open,
    Write,
    Sync,
    Replace,
    Finished,
}

/// What happened while a file is replaced.
#[derive(Debug, PartialEq, Eq)]
pub enum WriteEvent {
    /// The directory of the file is there, or could not be made.
    Directory(Result<(), String>),
    /// A temporary file was made under a new name.
    Opened,
    /// The name is taken.
    Exists,
    OpenFailed(String),
    Written(Result<(), String>),
    Synced(Result<(), String>),
    Replaced(Result<(), String>),
}

/// What the caller does next to replace a file.
#[derive(Clone, Copy, Debug, PartialEq, Eq, Structural)]
pub enum WriteAction {
    /// Makes a temporary file under the next name.
    Open,
    Write,
    Sync,
    Replace,
    /// Closes and removes the temporary file; nothing else was changed.
    Remove,
    Finish,
}

/// How far replacing a file has come.
#[derive(Debug, PartialEq, Eq)]
pub struct AtomicWrite {
    label: String,
    unallocated: String,
    named: bool,
    phase: WritePhase,
    attempts: u32,
    synced: bool,
    error: Option<String>,
}

/// How far replacing a file has come, as mathematical values.
pub ghost struct WriteView {
    pub label: Seq<char>,
    pub unallocated: Seq<char>,
    pub named: bool,
    pub phase: WritePhase,
    pub attempts: int,
    pub synced: bool,
    pub error: Option<Seq<char>>,
}

impl WriteView {
    /// What holds at all times: a file is replaced only by one that was synced, at
    /// most as many names are tried as are allowed, and nothing goes on after an
    /// error.
    pub open spec fn valid(self) -> bool {
        &&& 0 <= self.attempts <= TEMPORARY_ATTEMPTS
        &&& self.phase == WritePhase::Directory ==> self.attempts == 0
        &&& self.phase == WritePhase::Open ==> self.attempts < TEMPORARY_ATTEMPTS
        &&& self.phase == WritePhase::Replace ==> self.synced
        &&& self.error is Some ==> self.phase == WritePhase::Finished
        &&& self.phase == WritePhase::Finished && self.error is None ==> self.synced
    }

    pub open spec fn expects(self, event: WriteEvent) -> bool {
        match event {
            WriteEvent::Directory(_) => self.phase == WritePhase::Directory,
            WriteEvent::Opened => self.phase == WritePhase::Open,
            WriteEvent::Exists => self.phase == WritePhase::Open,
            WriteEvent::OpenFailed(_) => self.phase == WritePhase::Open,
            WriteEvent::Written(_) => self.phase == WritePhase::Write,
            WriteEvent::Synced(_) => self.phase == WritePhase::Sync,
            WriteEvent::Replaced(_) => self.phase == WritePhase::Replace,
        }
    }

    pub open spec fn failed(self, message: Seq<char>, action: WriteAction) -> (
        WriteView,
        WriteAction,
    ) {
        (WriteView { phase: WritePhase::Finished, error: Some(message), ..self }, action)
    }

    /// What an event does, and what comes next.
    pub open spec fn step(self, event: WriteEvent) -> (WriteView, WriteAction) {
        match event {
            WriteEvent::Directory(Ok(())) => if self.named {
                (WriteView { phase: WritePhase::Open, ..self }, WriteAction::Open)
            } else {
                self.failed(self.label + " path must contain a file name"@, WriteAction::Finish)
            },
            WriteEvent::Directory(Err(message)) => self.failed(message@, WriteAction::Finish),
            WriteEvent::Opened => (
                WriteView { phase: WritePhase::Write, ..self },
                WriteAction::Write,
            ),
            WriteEvent::Exists => if self.attempts + 1 < TEMPORARY_ATTEMPTS {
                (WriteView { attempts: self.attempts + 1, ..self }, WriteAction::Open)
            } else {
                WriteView { attempts: self.attempts + 1, ..self }.failed(
                    self.unallocated,
                    WriteAction::Finish,
                )
            },
            WriteEvent::OpenFailed(message) => self.failed(message@, WriteAction::Finish),
            WriteEvent::Written(Ok(())) => (
                WriteView { phase: WritePhase::Sync, ..self },
                WriteAction::Sync,
            ),
            WriteEvent::Written(Err(message)) => self.failed(message@, WriteAction::Remove),
            WriteEvent::Synced(Ok(())) => (
                WriteView { phase: WritePhase::Replace, synced: true, ..self },
                WriteAction::Replace,
            ),
            WriteEvent::Synced(Err(message)) => self.failed(message@, WriteAction::Remove),
            WriteEvent::Replaced(Ok(())) => (
                WriteView { phase: WritePhase::Finished, ..self },
                WriteAction::Finish,
            ),
            WriteEvent::Replaced(Err(message)) => self.failed(message@, WriteAction::Remove),
        }
    }
}

/// A file is replaced only after the new contents were written and synced; every
/// failure before that ends without touching it, and removes the temporary file if
/// there is one.
pub proof fn files_are_replaced_only_when_complete(state: WriteView, event: WriteEvent)
    requires
        state.valid(),
        state.expects(event),
    ensures
        state.step(event).0.valid(),
        state.step(event).1 == WriteAction::Replace ==> state.step(event).0.synced && event
            matches WriteEvent::Synced(Ok(_)),
        state.step(event).0.error is Some && (state.phase == WritePhase::Write || state.phase
            == WritePhase::Sync || state.phase == WritePhase::Replace) ==> state.step(event).1
            == WriteAction::Remove,
{
}

impl AtomicWrite {
    pub closed spec fn view(&self) -> WriteView {
        WriteView {
            label: self.label@,
            unallocated: self.unallocated@,
            named: self.named,
            phase: self.phase,
            attempts: self.attempts as int,
            synced: self.synced,
            error: text_option(self.error),
        }
    }

    /// Begins; the directory of the file is made first. `label` says what kind of
    /// file it is, `unallocated` what is said when every name is taken, `named`
    /// whether its path ends in a name.
    pub fn new(label: &str, unallocated: &str, named: bool) -> (result: Self)
        ensures
            result@.valid(),
            result@ == (WriteView {
                label: label@,
                unallocated: unallocated@,
                named,
                phase: WritePhase::Directory,
                attempts: 0,
                synced: false,
                error: None,
            }),
    {
        AtomicWrite {
            label: label.to_owned(),
            unallocated: unallocated.to_owned(),
            named,
            phase: WritePhase::Directory,
            attempts: 0,
            synced: false,
            error: None,
        }
    }

    /// What replacing the file waits for.
    pub fn phase(&self) -> (result: WritePhase)
        ensures
            result == self@.phase,
    {
        self.phase
    }

    fn fail(&mut self, message: String)
        ensures
            final(self)@ == (WriteView {
                phase: WritePhase::Finished,
                error: Some(message@),
                ..old(self)@
            }),
    {
        self.phase = WritePhase::Finished;
        self.error = Some(message);
    }

    /// Takes an event that is waited for.
    pub fn step(&mut self, event: WriteEvent) -> (result: WriteAction)
        requires
            old(self)@.valid(),
            old(self)@.expects(event),
        ensures
            final(self)@.valid(),
            (final(self)@, result) == old(self)@.step(event),
    {
        proof {
            files_are_replaced_only_when_complete(self@, event);
        }
        match event {
            WriteEvent::Directory(result) => match result {
                Ok(()) => if self.named {
                    self.phase = WritePhase::Open;
                    WriteAction::Open
                } else {
                    let message = join(self.label.as_str(), " path must contain a file name");
                    self.fail(message);
                    WriteAction::Finish
                },
                Err(message) => {
                    self.fail(message);
                    WriteAction::Finish
                },
            },
            WriteEvent::Opened => {
                self.phase = WritePhase::Write;
                WriteAction::Write
            },
            WriteEvent::Exists => {
                self.attempts = self.attempts + 1;
                if self.attempts < TEMPORARY_ATTEMPTS {
                    WriteAction::Open
                } else {
                    let message = self.unallocated.clone();
                    self.fail(message);
                    WriteAction::Finish
                }
            },
            WriteEvent::OpenFailed(message) => {
                self.fail(message);
                WriteAction::Finish
            },
            WriteEvent::Written(result) => match result {
                Ok(()) => {
                    self.phase = WritePhase::Sync;
                    WriteAction::Sync
                },
                Err(message) => {
                    self.fail(message);
                    WriteAction::Remove
                },
            },
            WriteEvent::Synced(result) => match result {
                Ok(()) => {
                    self.phase = WritePhase::Replace;
                    self.synced = true;
                    WriteAction::Replace
                },
                Err(message) => {
                    self.fail(message);
                    WriteAction::Remove
                },
            },
            WriteEvent::Replaced(result) => match result {
                Ok(()) => {
                    self.phase = WritePhase::Finished;
                    WriteAction::Finish
                },
                Err(message) => {
                    self.fail(message);
                    WriteAction::Remove
                },
            },
        }
    }

    /// What replacing the file came to.
    pub fn outcome(self) -> (result: Result<(), String>)
        ensures
            result_view(result) == (match self@.error {
                None => Ok::<(), Seq<char>>(()),
                Some(message) => Err::<(), Seq<char>>(message),
            }),
    {
        match self.error {
            None => Ok(()),
            Some(message) => Err(message),
        }
    }
}

/// What reading a file came to.
#[derive(Debug, PartialEq, Eq)]
pub enum FileRead {
    /// There is no such file.
    Missing,
    /// The file could not be opened.
    Failed(String),
    /// The file was opened: its length, where it is known, and its first bytes, at
    /// least one more than is allowed where it is that long.
    Opened { length: Option<u64>, bytes: Result<Vec<u8>, String> },
}

/// Why the contents of a file are refused.
#[derive(Debug, PartialEq, Eq)]
pub enum ReadFault {
    Io(String),
    TooLarge { actual: u64 },
}

/// Why the contents of a file are refused, as mathematical values.
pub ghost enum ReadFaultView {
    Io(Seq<char>),
    TooLarge { actual: u64 },
}

impl ReadFault {
    pub open spec fn view(&self) -> ReadFaultView {
        match self {
            ReadFault::Io(message) => ReadFaultView::Io(message@),
            ReadFault::TooLarge { actual } => ReadFaultView::TooLarge { actual: *actual },
        }
    }
}

/// Whether a file was read as a whole and holds these bytes.
pub open spec fn holds(file: FileRead, contents: Seq<u8>) -> bool {
    file matches FileRead::Opened { length, bytes: Ok(bytes) } && bytes@ == contents && (length
        matches Some(length) ==> length == contents.len())
}

/// The contents of a file of at most `maximum` bytes, `None` where there is none.
pub open spec fn bounded_contents(file: FileRead, maximum: nat) -> Result<
    Option<Seq<u8>>,
    ReadFaultView,
> {
    match file {
        FileRead::Missing => Ok(None),
        FileRead::Failed(message) => Err(ReadFaultView::Io(message@)),
        FileRead::Opened { length, bytes } => if length matches Some(length) && length > maximum {
            Err(ReadFaultView::TooLarge { actual: length->0 })
        } else {
            match bytes {
                Err(message) => Err(ReadFaultView::Io(message@)),
                Ok(bytes) => if bytes@.len() > maximum {
                    Err(ReadFaultView::TooLarge { actual: bytes@.len() as u64 })
                } else {
                    Ok(Some(bytes@))
                },
            }
        },
    }
}

/// Takes the contents of a file of at most `maximum` bytes.
pub fn read_bounded_file(file: FileRead, maximum: usize) -> (result: Result<
    Option<Vec<u8>>,
    ReadFault,
>)
    ensures
        match bounded_contents(file, maximum as nat) {
            Ok(None) => result matches Ok(None),
            Ok(Some(bytes)) => result matches Ok(Some(contents)) && contents@ == bytes,
            Err(fault) => result matches Err(error) && error@ == fault,
        },
{
    match file {
        FileRead::Missing => Ok(None),
        FileRead::Failed(message) => Err(ReadFault::Io(message)),
        FileRead::Opened { length, bytes } => {
            if let Some(actual) = length {
                if actual > maximum as u64 {
                    return Err(ReadFault::TooLarge { actual });
                }
            }
            match bytes {
                Err(message) => Err(ReadFault::Io(message)),
                Ok(bytes) => if bytes.len() > maximum {
                    Err(ReadFault::TooLarge { actual: bytes.len() as u64 })
                } else {
                    Ok(Some(bytes))
                },
            }
        },
    }
}

/// What each event does while a file is replaced. A failure ends it with its message; the
/// temporary file, once there is one, is then removed. Names are tried up to thirty-two
/// times. The file takes its place after it was written and synced.
pub proof fn files_are_replaced_step_by_step(state: WriteView, event: WriteEvent)
    requires
        state.valid(),
        state.expects(event),
    ensures
        ({
            let (after, action) = state.step(event);
            let failure = match event {
                WriteEvent::Directory(Err(message)) => Some(message@),
                WriteEvent::Directory(Ok(_)) => if state.named {
                    None
                } else {
                    Some(state.label + " path must contain a file name"@)
                },
                WriteEvent::Exists => if state.attempts == 31 {
                    Some(state.unallocated)
                } else {
                    None
                },
                WriteEvent::OpenFailed(message) => Some(message@),
                WriteEvent::Written(Err(message)) => Some(message@),
                WriteEvent::Synced(Err(message)) => Some(message@),
                WriteEvent::Replaced(Err(message)) => Some(message@),
                _ => None,
            };
            let made = event is Written || event is Synced || event is Replaced;
            &&& after.error == failure
            &&& failure is Some ==> after.phase is Finished && (action is Remove <==> made) && (
            action is Finish <==> !made)
            &&& failure is None ==> match event {
                WriteEvent::Directory(_) => action is Open && after.phase is Open,
                WriteEvent::Exists => action is Open && after.phase is Open,
                WriteEvent::Opened => action is Write && after.phase is Write,
                WriteEvent::OpenFailed(_) => false,
                WriteEvent::Written(_) => action is Sync && after.phase is Sync,
                WriteEvent::Synced(_) => action is Replace && after.phase is Replace,
                WriteEvent::Replaced(_) => action is Finish && after.phase is Finished,
            }
            &&& after.attempts == if event is Exists {
                state.attempts + 1
            } else {
                state.attempts
            }
            &&& after.synced == (state.synced || (event is Synced && failure is None))
            &&& after.label == state.label && after.unallocated == state.unallocated && after.named
                == state.named
        }),
{
}

/// What is waited for: the directory first, then a file to be opened, written, synced and
/// put in place, and nothing once it is finished.
pub proof fn writes_wait_for_one_thing(state: WriteView, event: WriteEvent)
    ensures
        state.expects(event) <==> match state.phase {
            WritePhase::Directory => event is Directory,
            WritePhase::Open => event is Opened || event is Exists || event is OpenFailed,
            WritePhase::Write => event is Written,
            WritePhase::Sync => event is Synced,
            WritePhase::Replace => event is Replaced,
            WritePhase::Finished => false,
        },
{
}

/// The contents of a file are taken exactly where it was read and neither the length it
/// tells nor the bytes that were read are more than is allowed. Only a file that is not
/// there is none.
pub proof fn contents_are_taken_up_to_their_limit(file: FileRead, maximum: nat)
    ensures
        bounded_contents(file, maximum) == Ok::<Option<Seq<u8>>, ReadFaultView>(None)
            <==> file is Missing,
        bounded_contents(file, maximum) matches Ok(Some(contents)) ==> {
            &&& contents.len() <= maximum
            &&& (file matches FileRead::Opened { length, bytes: Ok(bytes) } && bytes@ == contents
                && (length matches Some(length) ==> length <= maximum))
        },
        (file matches FileRead::Opened { length, bytes: Ok(bytes) } && bytes@.len() <= maximum && (
        length matches Some(length) ==> length <= maximum)) ==> bounded_contents(file, maximum)
            is Ok,
        file matches FileRead::Failed(message) ==> bounded_contents(file, maximum) == Err::<
            Option<Seq<u8>>,
            ReadFaultView,
        >(ReadFaultView::Io(message@)),
        (file matches FileRead::Opened { length: Some(length), bytes } && length > maximum)
            ==> bounded_contents(file, maximum) == Err::<Option<Seq<u8>>, ReadFaultView>(
            ReadFaultView::TooLarge { actual: file->Opened_length->0 },
        ),
        (file matches FileRead::Opened { length, bytes: Err(message) } && (length matches Some(
            length,
        ) ==> length <= maximum)) ==> bounded_contents(file, maximum) == Err::<
            Option<Seq<u8>>,
            ReadFaultView,
        >(ReadFaultView::Io(file->Opened_bytes->Err_0@)),
        (file matches FileRead::Opened { length, bytes: Ok(bytes) } && bytes@.len() > maximum && (
        length matches Some(length) ==> length <= maximum)) ==> bounded_contents(file, maximum)
            == Err::<Option<Seq<u8>>, ReadFaultView>(
            ReadFaultView::TooLarge { actual: file->Opened_bytes->Ok_0@.len() as u64 },
        ),
{
}

/// The name of a temporary file is a dot, the name of the file that is replaced, and what
/// tells the process and the number.
pub proof fn temporary_names_begin_with_the_file(file_name: Seq<char>, process: u32, id: u64)
    ensures
        temporary_name(file_name, process, id).len() > file_name.len(),
        temporary_name(file_name, process, id)[0] == '.',
        temporary_name(file_name, process, id).subrange(1, 1 + file_name.len() as int) == file_name,
        temporary_name(file_name, process, id).skip(1 + file_name.len() as int) == ".tmp-"@
            + decimal(process as nat) + "-"@ + decimal(id as nat),
{
    reveal_strlit(".");
    reveal_strlit(".tmp-");
    reveal_strlit("-");
    let name = temporary_name(file_name, process, id);
    let rest = ".tmp-"@ + decimal(process as nat) + "-"@ + decimal(id as nat);
    assert(name =~= "."@ + file_name + rest);
    assert(name.subrange(1, 1 + file_name.len() as int) =~= file_name);
    assert(name.skip(1 + file_name.len() as int) =~= rest);
}

} // verus!
