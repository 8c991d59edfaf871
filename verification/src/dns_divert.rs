//! The packets that the driver hands over and takes back.

use crate::dns_packet::{decode, decoded};
use crate::dns_session::{text_option, MAX_PACKET_BYTES};
use crate::dns_supervisor::result_view;
use crate::text::{
    byte_len, chars_of, contains_char, decimal, decimal_text, join4, join5, trim, trimmed,
};
use vstd::prelude::*;
use vstd::string::*;

verus! {

/// How long a filter may be, in bytes.
pub const MAX_FILTER_BYTES: usize = 32_768;

/// The code of a receive that was shut down.
pub const ERROR_NO_DATA_CODE: u32 = 232;

/// The priority of the interception: passive capture sees the original packet first.
pub const DIVERT_PRIORITY: i16 = -1000;

/// What the driver says of a packet.
#[derive(Clone, Copy, Debug)]
pub struct Address {
    pub timestamp: i64,
    pub bits: u32,
    pub reserved: u32,
    pub data: [u8; 64],
}

/// The bit of an outgoing packet.
pub const OUTBOUND_BIT: u32 = 0x2_0000;

/// A number of four bytes, the lowest first.
pub open spec fn quad(data: Seq<u8>, at: int) -> int {
    data[at] + 0x100 * data[at + 1] + 0x1_0000 * data[at + 2] + 0x100_0000 * data[at + 3]
}

/// The bytes of a number, the lowest first.
pub open spec fn quad_bytes(n: u32) -> Seq<u8> {
    seq![
        (n % 0x100) as u8,
        (n / 0x100 % 0x100) as u8,
        (n / 0x1_0000 % 0x100) as u8,
        (n / 0x100_0000) as u8,
    ]
}

proof fn lemma_quad(n: u32, data: Seq<u8>, at: int)
    requires
        0 <= at <= at + 4 <= data.len(),
        data.subrange(at, at + 4) == quad_bytes(n),
    ensures
        quad(data, at) == n,
{
    let bytes = quad_bytes(n);
    assert(data[at] == data.subrange(at, at + 4)[0]);
    assert(data[at + 1] == data.subrange(at, at + 4)[1]);
    assert(data[at + 2] == data.subrange(at, at + 4)[2]);
    assert(data[at + 3] == data.subrange(at, at + 4)[3]);
}

fn read_quad(data: &[u8; 64], at: usize) -> (result: u32)
    requires
        at <= 60,
    ensures
        result == quad(data@, at as int),
{
    data[at] as u32 + 0x100 * (data[at + 1] as u32) + 0x1_0000 * (data[at + 2] as u32) + 0x100_0000
        * (data[at + 3] as u32)
}

fn write_quad(data: &mut [u8; 64], at: usize, n: u32)
    requires
        at <= 60,
    ensures
        final(data)@.subrange(at as int, at + 4) == quad_bytes(n),
        forall|i: int|
            0 <= i < 64 && !(at <= i < at + 4) ==> #[trigger] final(data)@[i] == old(data)@[i],
{
    data[at] = (n % 0x100) as u8;
    data[at + 1] = (n / 0x100 % 0x100) as u8;
    data[at + 2] = (n / 0x1_0000 % 0x100) as u8;
    data[at + 3] = (n / 0x100_0000) as u8;
    assert(data@.subrange(at as int, at + 4) =~= quad_bytes(n));
}

impl Default for Address {
    fn default() -> (result: Self)
        ensures
            result.timestamp == 0,
            result.bits == 0,
            result.reserved == 0,
            forall|i: int| 0 <= i < 64 ==> result.data@[i] == 0,
    {
        Address { timestamp: 0, bits: 0, reserved: 0, data: [0; 64] }
    }
}

impl Address {
    /// Whether the packet goes out.
    pub open spec fn spec_outbound(self) -> bool {
        self.bits & OUTBOUND_BIT != 0
    }

    /// The interface of the packet and its part.
    pub open spec fn spec_interface(self) -> (int, int) {
        (quad(self.data@, 0), quad(self.data@, 4))
    }

    /// Whether this is said of a packet of the network layer.
    pub open spec fn network_packet(self) -> bool {
        self.bits & 0xffff == 0
    }

    /// Whether the packet goes out.
    pub fn outbound(&self) -> (result: bool)
        ensures
            result == self.spec_outbound(),
    {
        self.bits & OUTBOUND_BIT != 0
    }

    /// Turns the packet; nothing else changes.
    pub fn set_outbound(&mut self, outbound: bool)
        ensures
            final(self).spec_outbound() == outbound,
            final(self).bits & !OUTBOUND_BIT == old(self).bits & !OUTBOUND_BIT,
            final(self).timestamp == old(self).timestamp,
            final(self).reserved == old(self).reserved,
            final(self).data == old(self).data,
    {
        let bits: u32 = self.bits;
        if outbound {
            self.bits = bits | OUTBOUND_BIT;
            assert((bits | 0x2_0000u32) & 0x2_0000u32 != 0 && (bits | 0x2_0000u32) & !0x2_0000u32
                == bits & !0x2_0000u32) by (bit_vector);
        } else {
            self.bits = bits & !OUTBOUND_BIT;
            assert((bits & !0x2_0000u32) & 0x2_0000u32 == 0 && (bits & !0x2_0000u32) & !0x2_0000u32
                == bits & !0x2_0000u32) by (bit_vector);
        }
    }

    /// The interface of the packet and its part.
    pub fn interface(&self) -> (result: (u32, u32))
        ensures
            (result.0 as int, result.1 as int) == self.spec_interface(),
    {
        (read_quad(&self.data, 0), read_quad(&self.data, 4))
    }

    /// Gives the packet another interface; nothing else changes.
    pub fn set_interface(&mut self, index: u32, sub_index: u32)
        ensures
            final(self).spec_interface() == (index as int, sub_index as int),
            forall|i: int| 8 <= i < 64 ==> #[trigger] final(self).data@[i] == old(self).data@[i],
            final(self).bits == old(self).bits,
            final(self).timestamp == old(self).timestamp,
            final(self).reserved == old(self).reserved,
    {
        let mut data = self.data;
        write_quad(&mut data, 0, index);
        let ghost first = data@;
        write_quad(&mut data, 4, sub_index);
        proof {
            assert(data@.subrange(0, 4) =~= first.subrange(0, 4));
            lemma_quad(index, data@, 0);
            lemma_quad(sub_index, data@, 4);
        }
        self.data = data;
    }

    /// Whether this is said of a packet of the network layer.
    pub fn is_network_packet(&self) -> (result: bool)
        ensures
            result == self.network_packet(),
    {
        self.bits & 0xffff == 0
    }
}

/// What is wrong with a filter.
pub open spec fn filter_fault(filter: Seq<char>) -> Option<Seq<char>> {
    if trim(filter).len() == 0 || byte_len(filter) > MAX_FILTER_BYTES {
        Some("DNS interception filter is empty or too large"@)
    } else if filter.contains('\0') {
        Some("DNS interception filter contains NUL"@)
    } else {
        None
    }
}

/// Checks a filter before the driver sees it.
pub fn validate_filter(filter: &str) -> (result: Result<(), String>)
    ensures
        match filter_fault(filter@) {
            None => result is Ok,
            Some(message) => result matches Err(text) && text@ == message,
        },
{
    if trimmed(filter).len() == 0 || filter.as_bytes().len() > MAX_FILTER_BYTES {
        return Err("DNS interception filter is empty or too large".to_owned());
    }
    let chars = chars_of(filter);
    if contains_char(chars.as_slice(), '\0') {
        return Err("DNS interception filter contains NUL".to_owned());
    }
    Ok(())
}

/// What is told of a call that failed.
pub open spec fn native_failure(operation: Seq<char>, code: u32) -> Seq<char> {
    "Could not "@ + operation + " ("@ + decimal(code as nat) + ")"@
}

/// What is told of a call that failed.
pub fn native_error(operation: &str, code: u32) -> (result: String)
    ensures
        result@ == native_failure(operation@, code),
{
    join5("Could not ", operation, " (", decimal_text(code as u64).as_str(), ")")
}

/// What is told of a filter that the driver refuses.
pub open spec fn compile_failure(position: u32, message: Option<Seq<char>>) -> Seq<char> {
    "Invalid DNS interception filter at "@ + decimal(position as nat) + ": "@ + (match message {
        Some(message) => message,
        None => "unknown filter error"@,
    })
}

/// Takes what the driver says of a filter: whether it accepts it, and if not where and
/// why.
pub fn filter_compiled(accepted: bool, position: u32, message: Option<String>) -> (result: Result<
    (),
    String,
>)
    ensures
        result is Ok <==> accepted,
        result matches Err(text) ==> text@ == compile_failure(position, text_option(message)),
{
    if accepted {
        return Ok(());
    }
    let reason = match message {
        Some(message) => message,
        None => "unknown filter error".to_owned(),
    };
    Err(
        join4(
            "Invalid DNS interception filter at ",
            decimal_text(position as u64).as_str(),
            ": ",
            reason.as_str(),
        ),
    )
}

/// Takes what opening the interception came to.
pub fn handle_opened(handle: usize, code: u32) -> (result: Result<(), String>)
    ensures
        result is Ok <==> handle != 0 && handle != usize::MAX,
        result matches Err(text) ==> text@ == native_failure("open DNS interception"@, code),
{
    if handle == 0 || handle == usize::MAX {
        return Err(native_error("open DNS interception", code));
    }
    Ok(())
}

/// The limits of the queue: how many packets, for how many milliseconds, how many
/// bytes. Each is the number of the limit and its value.
pub fn queue_parameters() -> (result: [(i32, u64); 3])
    ensures
        result@ == queue_limits(),
{
    let parameters: [(i32, u64); 3] = [(0, 4096), (1, 2000), (2, 4_194_304)];
    assert(parameters@ =~= queue_limits());
    parameters
}

/// The limits of the queue, as mathematical values.
pub open spec fn queue_limits() -> Seq<(i32, u64)> {
    seq![(0i32, 4096u64), (1i32, 2000u64), (2i32, 4_194_304u64)]
}

/// What opening an interception waits for.
#[derive(Clone, Copy, Debug, PartialEq, Eq, Structural)]
pub enum OpeningPhase {
    Filter,
    Handle,
    Queue,
    Close,
    Finished,
}

/// What happened while an interception is opened.
#[derive(Debug, PartialEq, Eq)]
pub enum OpeningEvent {
    /// Whether the driver accepts the filter, and if not where and why.
    Compiled { accepted: bool, position: u32, message: Option<String> },
    /// The handle that the driver gave, and its code.
    Opened { handle: usize, code: u32 },
    /// Whether a limit was set, else the code of the driver.
    Configured(Result<(), u32>),
    Closed,
}

/// What the caller does next to open an interception.
#[derive(Clone, Copy, Debug, PartialEq, Eq, Structural)]
pub enum OpeningAction {
    CompileFilter,
    Open,
    /// Sets a limit of the queue.
    Configure { parameter: i32, value: u64 },
    /// Closes the handle that was opened.
    Close,
    /// Nothing; the outcome says whether the interception is open.
    Finish,
}

/// Opening an interception.
#[derive(Debug, PartialEq, Eq)]
pub struct Opening {
    phase: OpeningPhase,
    configured: usize,
    error: Option<String>,
}

/// Opening an interception, as mathematical values.
pub ghost struct OpeningView {
    pub phase: OpeningPhase,
    /// How many limits were set.
    pub configured: int,
    pub error: Option<Seq<char>>,
}

impl OpeningView {
    /// What holds at all times: the limits are set one after the other, and a handle is
    /// closed only over an error.
    pub open spec fn valid(self) -> bool {
        &&& 0 <= self.configured <= queue_limits().len()
        &&& self.phase == OpeningPhase::Queue ==> self.configured < queue_limits().len()
        &&& self.phase == OpeningPhase::Filter || self.phase == OpeningPhase::Handle
            ==> self.configured == 0
        &&& self.phase == OpeningPhase::Close ==> self.error is Some
        &&& self.phase != OpeningPhase::Close && self.phase != OpeningPhase::Finished
            ==> self.error is None
        &&& self.phase == OpeningPhase::Finished && self.error is None ==> self.configured
            == queue_limits().len()
    }

    pub open spec fn expects(self, event: OpeningEvent) -> bool {
        match event {
            OpeningEvent::Compiled { .. } => self.phase == OpeningPhase::Filter,
            OpeningEvent::Opened { .. } => self.phase == OpeningPhase::Handle,
            OpeningEvent::Configured(_) => self.phase == OpeningPhase::Queue,
            OpeningEvent::Closed => self.phase == OpeningPhase::Close,
        }
    }

    pub open spec fn failed(self, error: Seq<char>) -> (OpeningView, OpeningAction) {
        (
            OpeningView { phase: OpeningPhase::Finished, error: Some(error), ..self },
            OpeningAction::Finish,
        )
    }

    /// The interception that goes on to the next limit, or is open.
    pub open spec fn configuring(self) -> (OpeningView, OpeningAction) {
        if self.configured < queue_limits().len() {
            (
                OpeningView { phase: OpeningPhase::Queue, ..self },
                OpeningAction::Configure {
                    parameter: queue_limits()[self.configured].0,
                    value: queue_limits()[self.configured].1,
                },
            )
        } else {
            (OpeningView { phase: OpeningPhase::Finished, ..self }, OpeningAction::Finish)
        }
    }

    /// What an event does, and what comes next.
    pub open spec fn step(self, event: OpeningEvent) -> (OpeningView, OpeningAction) {
        match event {
            OpeningEvent::Compiled { accepted, position, message } => if accepted {
                (OpeningView { phase: OpeningPhase::Handle, ..self }, OpeningAction::Open)
            } else {
                self.failed(compile_failure(position, text_option(message)))
            },
            OpeningEvent::Opened { handle, code } => if handle == 0 || handle == usize::MAX {
                self.failed(native_failure("open DNS interception"@, code))
            } else {
                self.configuring()
            },
            OpeningEvent::Configured(Ok(())) => OpeningView {
                configured: self.configured + 1,
                ..self
            }.configuring(),
            OpeningEvent::Configured(Err(code)) => (
                OpeningView {
                    phase: OpeningPhase::Close,
                    error: Some(native_failure("configure DNS interception queue"@, code)),
                    ..self
                },
                OpeningAction::Close,
            ),
            OpeningEvent::Closed => (
                OpeningView { phase: OpeningPhase::Finished, ..self },
                OpeningAction::Finish,
            ),
        }
    }
}

/// A handle is opened only for a filter that the driver accepts. One that was opened is
/// closed again unless every limit of its queue was set, and it is handed out only then.
pub proof fn opened_handles_are_configured_or_closed(state: OpeningView, event: OpeningEvent)
    requires
        state.valid(),
        state.expects(event),
    ensures
        state.step(event).0.valid(),
        state.step(event).1 == OpeningAction::Open ==> (event matches OpeningEvent::Compiled {
            accepted,
            ..
        } && accepted),
        state.step(event).1 == OpeningAction::Finish && state.step(event).0.error is None ==> {
            &&& event matches OpeningEvent::Configured(Ok(_))
            &&& state.step(event).0.configured == queue_limits().len()
        },
        event matches OpeningEvent::Configured(Err(_)) ==> state.step(event).1
            == OpeningAction::Close,
        state.step(event).1 == OpeningAction::Finish && state.step(event).0.error is Some ==> {
            ||| event is Closed
            ||| event is Compiled
            ||| event matches OpeningEvent::Opened { handle, .. } && (handle == 0 || handle
                == usize::MAX)
        },
        event is Closed ==> state.step(event).0.error == state.error && state.error is Some,
{
}

impl Opening {
    pub closed spec fn view(&self) -> OpeningView {
        OpeningView {
            phase: self.phase,
            configured: self.configured as int,
            error: text_option(self.error),
        }
    }

    /// Begins to open an interception; its filter is compiled first.
    pub fn open() -> (result: (Self, OpeningAction))
        ensures
            result.0@.valid(),
            result.0@ == (OpeningView { phase: OpeningPhase::Filter, configured: 0, error: None }),
            result.1 == OpeningAction::CompileFilter,
    {
        (
            Opening { phase: OpeningPhase::Filter, configured: 0, error: None },
            OpeningAction::CompileFilter,
        )
    }

    fn fail(&mut self, error: String) -> (result: OpeningAction)
        ensures
            (final(self)@, result) == old(self)@.failed(error@),
    {
        self.phase = OpeningPhase::Finished;
        self.error = Some(error);
        OpeningAction::Finish
    }

    fn configure(&mut self) -> (result: OpeningAction)
        requires
            old(self)@.configured <= queue_limits().len(),
        ensures
            (final(self)@, result) == old(self)@.configuring(),
    {
        let limits = queue_parameters();
        if self.configured < 3 {
            self.phase = OpeningPhase::Queue;
            let (parameter, value) = limits[self.configured];
            OpeningAction::Configure { parameter, value }
        } else {
            self.phase = OpeningPhase::Finished;
            OpeningAction::Finish
        }
    }

    /// Takes an event that is waited for.
    pub fn step(&mut self, event: OpeningEvent) -> (result: OpeningAction)
        requires
            old(self)@.valid(),
            old(self)@.expects(event),
        ensures
            final(self)@.valid(),
            (final(self)@, result) == old(self)@.step(event),
    {
        match event {
            OpeningEvent::Compiled { accepted, position, message } => match filter_compiled(
                accepted,
                position,
                message,
            ) {
                Ok(()) => {
                    self.phase = OpeningPhase::Handle;
                    OpeningAction::Open
                },
                Err(error) => self.fail(error),
            },
            OpeningEvent::Opened { handle, code } => match handle_opened(handle, code) {
                Ok(()) => self.configure(),
                Err(error) => self.fail(error),
            },
            OpeningEvent::Configured(Ok(())) => {
                self.configured = self.configured + 1;
                self.configure()
            },
            OpeningEvent::Configured(Err(code)) => {
                self.phase = OpeningPhase::Close;
                self.error = Some(native_error("configure DNS interception queue", code));
                OpeningAction::Close
            },
            OpeningEvent::Closed => {
                self.phase = OpeningPhase::Finished;
                OpeningAction::Finish
            },
        }
    }

    /// What opening an interception came to.
    pub fn outcome(self) -> (result: Result<(), String>)
        requires
            self@.phase == OpeningPhase::Finished,
        ensures
            result_view(result) == (match self@.error {
                None => Ok::<(), Seq<char>>(()),
                Some(message) => Err::<(), Seq<char>>(message),
            }),
    {
        match self.error {
            None => Ok(()),
            Some(message) => Err(message),
        }
    }
}

/// Whether a buffer can take every packet.
pub fn check_receive_buffer(length: usize) -> (result: Result<(), String>)
    ensures
        result is Ok <==> length >= MAX_PACKET_BYTES,
        result matches Err(text) ==> text@ == "DNS receive buffer is too small"@,
{
    if length < MAX_PACKET_BYTES {
        return Err("DNS receive buffer is too small".to_owned());
    }
    Ok(())
}

/// What a receive comes to: the length of a packet, or `None` once receiving was shut
/// down.
pub open spec fn receive_outcome(
    received: bool,
    code: u32,
    length: u32,
    address: Address,
) -> Result<Option<usize>, Seq<char>> {
    if !received {
        if code == ERROR_NO_DATA_CODE {
            Ok(None)
        } else {
            Err("DNS interception receive failed ("@ + decimal(code as nat) + ")"@)
        }
    } else if length == 0 || length > MAX_PACKET_BYTES || !address.network_packet() {
        Err("Invalid DNS interception packet metadata"@)
    } else {
        Ok(Some(length as usize))
    }
}

/// Takes what a receive came to.
pub fn receive(received: bool, code: u32, length: u32, address: &Address) -> (result: Result<
    Option<usize>,
    String,
>)
    ensures
        match receive_outcome(received, code, length, *address) {
            Ok(size) => result matches Ok(own) && own == size,
            Err(message) => result matches Err(text) && text@ == message,
        },
{
    if !received {
        if code == ERROR_NO_DATA_CODE {
            return Ok(None);
        }
        return Err(
            crate::text::join3(
                "DNS interception receive failed (",
                decimal_text(code as u64).as_str(),
                ")",
            ),
        );
    }
    if length == 0 || length as usize > MAX_PACKET_BYTES || !address.is_network_packet() {
        return Err("Invalid DNS interception packet metadata".to_owned());
    }
    Ok(Some(length as usize))
}

/// Whether a packet has a size and an address with which it may be injected.
pub open spec fn injectable(length: usize, address: Address) -> bool {
    0 < length <= MAX_PACKET_BYTES && address.network_packet()
}

/// Whether a packet may be injected.
fn check_injection(length: usize, address: &Address) -> (result: Result<(), String>)
    ensures
        result is Ok <==> injectable(length, *address),
        result matches Err(text) ==> text@ == "Invalid DNS packet for injection"@,
{
    if length == 0 || length > MAX_PACKET_BYTES || !address.is_network_packet() {
        return Err("Invalid DNS packet for injection".to_owned());
    }
    Ok(())
}

/// Takes what an injection came to: it is complete or it failed.
fn injected(accepted: bool, code: u32, sent: u32, length: usize) -> (result: Result<(), String>)
    ensures
        result is Ok <==> accepted && sent == length,
        result matches Err(text) ==> text@ == (if !accepted {
            native_failure("inject DNS packet"@, code)
        } else {
            "Incomplete DNS packet injection"@
        }),
{
    if !accepted {
        return Err(native_error("inject DNS packet", code));
    }
    if sent as usize != length {
        return Err("Incomplete DNS packet injection".to_owned());
    }
    Ok(())
}

/// Whether a packet that was changed may be injected: it has to be a whole packet of
/// its layer.
fn check_modified(packet: &[u8], address: &Address) -> (result: Result<(), String>)
    ensures
        result is Ok <==> decoded(packet@) is Ok && address.network_packet(),
        result matches Err(text) ==> text@ == (if decoded(packet@) is Err {
            "Invalid modified DNS packet"@
        } else {
            "Invalid DNS injection layer"@
        }),
{
    if decode(packet).is_err() {
        return Err("Invalid modified DNS packet".to_owned());
    }
    if !address.is_network_packet() {
        return Err("Invalid DNS injection layer".to_owned());
    }
    Ok(())
}

/// Takes whether the checksums of a packet that was changed could be computed.
fn checksums_computed(computed: bool) -> (result: Result<(), String>)
    ensures
        result is Ok <==> computed,
        result matches Err(text) ==> text@ == "DNS packet checksum calculation failed"@,
{
    if computed {
        Ok(())
    } else {
        Err("DNS packet checksum calculation failed".to_owned())
    }
}

/// What an injection waits for.
#[derive(Clone, Copy, Debug, PartialEq, Eq, Structural)]
pub enum InjectionPhase {
    Checksums,
    Injection,
    Finished,
}

/// What happened while a packet is injected.
#[derive(Clone, Copy, Debug)]
pub enum InjectionEvent {
    /// Whether the checksums were computed, and the address of the packet then.
    Checksums { computed: bool, address: Address },
    /// Whether the driver took the packet, with its code, and how many bytes of it.
    Injected { accepted: bool, code: u32, sent: u32 },
}

/// What the caller does next to inject a packet.
#[derive(Clone, Copy, Debug, PartialEq, Eq, Structural)]
pub enum InjectionAction {
    ComputeChecksums,
    Inject,
    /// Nothing; the outcome says whether the packet was injected.
    Finish,
}

/// The injection of one packet.
#[derive(Debug, PartialEq, Eq)]
pub struct Injection {
    length: usize,
    phase: InjectionPhase,
    error: Option<String>,
}

/// The injection of one packet, as mathematical values.
pub ghost struct InjectionView {
    pub length: usize,
    pub phase: InjectionPhase,
    pub error: Option<Seq<char>>,
}

impl InjectionView {
    pub open spec fn expects(self, event: InjectionEvent) -> bool {
        match event {
            InjectionEvent::Checksums { .. } => self.phase == InjectionPhase::Checksums,
            InjectionEvent::Injected { .. } => self.phase == InjectionPhase::Injection,
        }
    }

    pub open spec fn ended(self, error: Option<Seq<char>>) -> (InjectionView, InjectionAction) {
        (InjectionView { phase: InjectionPhase::Finished, error, ..self }, InjectionAction::Finish)
    }

    /// The injection that hands the packet to the driver, if it may.
    pub open spec fn handing_over(self, address: Address) -> (InjectionView, InjectionAction) {
        if injectable(self.length, address) {
            (
                InjectionView { phase: InjectionPhase::Injection, ..self },
                InjectionAction::Inject,
            )
        } else {
            self.ended(Some("Invalid DNS packet for injection"@))
        }
    }

    /// The injection of a packet as it was captured.
    pub open spec fn unchanged(length: usize, address: Address) -> (
        InjectionView,
        InjectionAction,
    ) {
        InjectionView { length, phase: InjectionPhase::Injection, error: None }.handing_over(
            address,
        )
    }

    /// The injection of a packet that was changed; its checksums come first.
    pub open spec fn modified(packet: Seq<u8>, address: Address) -> (
        InjectionView,
        InjectionAction,
    ) {
        let begun = InjectionView {
            length: packet.len() as usize,
            phase: InjectionPhase::Checksums,
            error: None,
        };
        if decoded(packet) is Err {
            begun.ended(Some("Invalid modified DNS packet"@))
        } else if !address.network_packet() {
            begun.ended(Some("Invalid DNS injection layer"@))
        } else {
            (begun, InjectionAction::ComputeChecksums)
        }
    }

    /// What an event does, and what comes next.
    pub open spec fn step(self, event: InjectionEvent) -> (InjectionView, InjectionAction) {
        match event {
            InjectionEvent::Checksums { computed, address } => if computed {
                self.handing_over(address)
            } else {
                self.ended(Some("DNS packet checksum calculation failed"@))
            },
            InjectionEvent::Injected { accepted, code, sent } => if !accepted {
                self.ended(Some(native_failure("inject DNS packet"@, code)))
            } else if sent != self.length {
                self.ended(Some("Incomplete DNS packet injection"@))
            } else {
                self.ended(None)
            },
        }
    }
}

/// A packet that was changed is handed to the driver only right after its checksums were
/// computed, with an address of its layer, and once: a failure of any step ends the
/// injection with an error. It succeeds only where the driver took the whole packet.
pub proof fn changed_packets_are_sent_with_their_checksums(
    packet: Seq<u8>,
    address: Address,
    state: InjectionView,
    event: InjectionEvent,
)
    requires
        state.expects(event),
    ensures
        InjectionView::modified(packet, address).1 != InjectionAction::Inject,
        InjectionView::modified(packet, address).1 == InjectionAction::Finish ==>
            InjectionView::modified(packet, address).0.error is Some,
        state.step(event).1 == InjectionAction::Inject ==> state.phase == InjectionPhase::Checksums
            && (event matches InjectionEvent::Checksums { computed, address } && computed
            && injectable(state.length, address)),
        state.step(event).1 != InjectionAction::ComputeChecksums,
        event matches InjectionEvent::Checksums { computed, .. } && !computed ==> state.step(
            event,
        ).1 == InjectionAction::Finish && state.step(event).0.error is Some,
        state.phase == InjectionPhase::Injection ==> state.step(event).1 == InjectionAction::Finish,
        state.step(event).1 == InjectionAction::Finish && state.step(event).0.error is None ==> (
        event matches InjectionEvent::Injected { accepted, sent, .. } && accepted && sent
            == state.length),
{
}

impl Injection {
    pub closed spec fn view(&self) -> InjectionView {
        InjectionView {
            length: self.length,
            phase: self.phase,
            error: text_option(self.error),
        }
    }

    /// Begins to forward a packet as it was captured.
    pub fn reinject(length: usize, address: &Address) -> (result: (Self, InjectionAction))
        ensures
            (result.0@, result.1) == InjectionView::unchanged(length, *address),
    {
        let mut injection = Injection { length, phase: InjectionPhase::Injection, error: None };
        let action = injection.hand_over(address);
        (injection, action)
    }

    /// Begins to forward a packet that was changed.
    pub fn send_modified(packet: &[u8], address: &Address) -> (result: (Self, InjectionAction))
        ensures
            (result.0@, result.1) == InjectionView::modified(packet@, *address),
    {
        let mut injection = Injection {
            length: packet.len(),
            phase: InjectionPhase::Checksums,
            error: None,
        };
        match check_modified(packet, address) {
            Ok(()) => (injection, InjectionAction::ComputeChecksums),
            Err(message) => {
                let action = injection.end(Some(message));
                (injection, action)
            },
        }
    }

    fn end(&mut self, error: Option<String>) -> (result: InjectionAction)
        ensures
            (final(self)@, result) == old(self)@.ended(text_option(error)),
    {
        self.phase = InjectionPhase::Finished;
        self.error = error;
        InjectionAction::Finish
    }

    fn hand_over(&mut self, address: &Address) -> (result: InjectionAction)
        ensures
            (final(self)@, result) == old(self)@.handing_over(*address),
    {
        match check_injection(self.length, address) {
            Ok(()) => {
                self.phase = InjectionPhase::Injection;
                InjectionAction::Inject
            },
            Err(message) => self.end(Some(message)),
        }
    }

    /// Takes an event that is waited for.
    pub fn step(&mut self, event: InjectionEvent) -> (result: InjectionAction)
        requires
            old(self)@.expects(event),
        ensures
            (final(self)@, result) == old(self)@.step(event),
    {
        match event {
            InjectionEvent::Checksums { computed, address } => match checksums_computed(computed) {
                Ok(()) => self.hand_over(&address),
                Err(message) => self.end(Some(message)),
            },
            InjectionEvent::Injected { accepted, code, sent } => match injected(
                accepted,
                code,
                sent,
                self.length,
            ) {
                Ok(()) => self.end(None),
                Err(message) => self.end(Some(message)),
            },
        }
    }

    /// What an injection that has ended came to.
    pub fn outcome(self) -> (result: Result<(), String>)
        requires
            self@.phase == InjectionPhase::Finished,
        ensures
            result_view(result) == (match self@.error {
                None => Ok::<(), Seq<char>>(()),
                Some(message) => Err::<(), Seq<char>>(message),
            }),
    {
        match self.error {
            None => Ok(()),
            Some(message) => Err(message),
        }
    }
}

/// A number of four bytes is read back from the bytes that it is written with, the lowest
/// first.
pub proof fn numbers_are_read_from_their_bytes(n: u32, data: Seq<u8>, at: int)
    requires
        0 <= at <= at + 4 <= data.len(),
    ensures
        quad_bytes(n).len() == 4,
        quad_bytes(n)[0] == n % 256,
        quad_bytes(n)[3] == n / 0x100_0000,
        quad(quad_bytes(n), 0) == n,
        quad(data, at) == data[at] + 256 * (data[at + 1] + 256 * (data[at + 2] + 256 * data[at + 3])),
{
}

/// What the bits of an address say: the eighteenth that the packet goes out, and the first
/// sixteen, where none is set, that it is one of the network layer.
pub proof fn bits_tell_direction_and_layer(address: Address)
    ensures
        address.spec_outbound() <==> (address.bits as int / 0x2_0000) % 2 == 1,
        address.network_packet() <==> address.bits as int % 0x1_0000 == 0,
{
    let bits = address.bits;
    assert(bits & 0x2_0000 != 0 <==> (bits / 0x2_0000) % 2 == 1) by (bit_vector);
    assert(bits & 0xffff == 0 <==> bits % 0x1_0000 == 0) by (bit_vector);
}

/// A filter is handed to the driver exactly where it is not blank, has at most 32 kibibytes
/// and holds no NUL.
pub proof fn filters_are_text(filter: Seq<char>)
    ensures
        filter_fault(filter) is None <==> trim(filter).len() > 0 && vstd::utf8::encode_utf8(
            filter,
        ).len() <= 32 * 1024 && forall|i: int|
            0 <= i < filter.len() ==> (#[trigger] filter[i]) as int != 0,
        trim(filter).len() == 0 || vstd::utf8::encode_utf8(filter).len() > 32 * 1024
            ==> filter_fault(filter) == Some("DNS interception filter is empty or too large"@),
{
    if filter.contains('\0') {
        let i = filter.index_of('\0');
        assert(filter[i] as int == 0);
    } else {
        assert forall|i: int| 0 <= i < filter.len() implies (#[trigger] filter[i]) as int != 0 by {
            if filter[i] as int == 0 {
                assert(filter[i] == '\0');
            }
        }
    }
}

/// What follows each event while an interception is opened: a filter that is accepted is
/// opened; a handle that is neither zero nor all ones gets its three limits, of 4096
/// packets, two seconds and four mebibytes; a limit that cannot be set closes it again.
pub proof fn interceptions_are_opened_step_by_step(state: OpeningView, event: OpeningEvent)
    requires
        state.valid(),
        state.expects(event),
    ensures
        ({
            let (after, action) = state.step(event);
            let opened = event matches OpeningEvent::Opened { handle, .. } && handle != 0 && handle
                != usize::MAX;
            let set = event matches OpeningEvent::Configured(Ok(_));
            let count = if set {
                state.configured + 1
            } else {
                state.configured
            };
            &&& after.configured == count
            &&& action is Open <==> (event matches OpeningEvent::Compiled { accepted, .. }
                && accepted)
            &&& action is Configure <==> (opened || set) && count < 3
            &&& action matches OpeningAction::Configure { parameter, value } ==> {
                &&& count == 0 ==> parameter == 0 && value == 4096
                &&& count == 1 ==> parameter == 1 && value == 2 * 1000
                &&& count == 2 ==> parameter == 2 && value == 4 * 1024 * 1024
            }
            &&& action is Close <==> (event matches OpeningEvent::Configured(Err(_)))
            &&& action is Finish && after.error is None <==> set && count == 3
            &&& event matches OpeningEvent::Configured(Err(code)) ==> after.error == Some(
                "Could not "@ + "configure DNS interception queue"@ + " ("@ + decimal(code as nat)
                    + ")"@,
            )
            &&& event matches OpeningEvent::Opened { code, .. } ==> (!opened ==> after.error == Some(
                "Could not "@ + "open DNS interception"@ + " ("@ + decimal(code as nat) + ")"@,
            ))
            &&& event is Closed ==> after.error == state.error
        }),
{
}

/// What a receive comes to: the length of a packet of the network layer of at most 65575
/// bytes; nothing once receiving was shut down, which has the code 232; and an error
/// otherwise.
pub proof fn receives_give_packets_of_the_network(
    received: bool,
    code: u32,
    length: u32,
    address: Address,
)
    ensures
        ({
            let told = receive_outcome(received, code, length, address);
            let sound = 1 <= length && length <= 65_575 && address.network_packet();
            &&& told is Ok <==> (received && sound) || (!received && code == 232)
            &&& received && sound ==> told == Ok::<Option<usize>, Seq<char>>(Some(length as usize))
            &&& !received && code == 232 ==> told == Ok::<Option<usize>, Seq<char>>(None)
            &&& received && !sound ==> told == Err::<Option<usize>, Seq<char>>(
                "Invalid DNS interception packet metadata"@,
            )
            &&& !received && code != 232 ==> told == Err::<Option<usize>, Seq<char>>(
                "DNS interception receive failed ("@ + decimal(code as nat) + ")"@,
            )
        }),
{
}

/// A packet is handed to the driver exactly where it has from 1 to 65575 bytes and its
/// address is of the network layer; one that was changed has to be whole, and its
/// checksums come first. The injection succeeds exactly where the driver took all of it.
pub proof fn packets_are_injected_as_a_whole(
    packet: Seq<u8>,
    length: usize,
    address: Address,
    state: InjectionView,
    event: InjectionEvent,
)
    requires
        state.expects(event),
    ensures
        injectable(length, address) <==> 1 <= length && length <= 65_575
            && address.network_packet(),
        InjectionView::unchanged(length, address).1 is Inject <==> injectable(length, address),
        InjectionView::unchanged(length, address).1 is Finish <==> !injectable(length, address),
        InjectionView::unchanged(length, address).0.length == length,
        InjectionView::modified(packet, address).1 is ComputeChecksums <==> decoded(packet) is Ok
            && address.network_packet(),
        InjectionView::modified(packet, address).0.length == packet.len() as usize,
        event matches InjectionEvent::Checksums { computed, address } ==> (state.step(event).1
            is Inject <==> computed && injectable(state.length, address)),
        event matches InjectionEvent::Injected { accepted, sent, .. } ==> {
            &&& state.step(event).1 is Finish
            &&& state.step(event).0.error is None <==> accepted && sent == state.length
            &&& accepted && sent != state.length ==> state.step(event).0.error == Some(
                "Incomplete DNS packet injection"@,
            )
        },
        state.step(event).0.length == state.length,
{
}

/// The interface of a packet is the number in the first four bytes, and its part the number
/// in the next four, each from the lowest byte up.
pub proof fn interfaces_stand_in_the_first_bytes(address: Address)
    ensures
        address.spec_interface().0 == address.data@[0] + 256 * (address.data@[1] + 256 * (
        address.data@[2] + 256 * address.data@[3])),
        address.spec_interface().1 == address.data@[4] + 256 * (address.data@[5] + 256 * (
        address.data@[6] + 256 * address.data@[7])),
{
}

} // verus!
