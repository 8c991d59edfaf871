//! Routing of packets to the companion.
//!
//! One router belongs to one companion generation. A new reflected tuple is
//! authorized before its first packet may be injected. Exhaustion and quarantined
//! tuples require a new generation, never a bypass.

use crate::dns_filter::{
    build_dns_filters, complete, complete_sessions_have_filters, filter_text, group, group_count, listeners_are_in_order, scope_of,
    scopes_are_unambiguous, sorted_ips, upstreams_share_the_host, DnsFilterConfig, FilterView,
};
use crate::dns_flow::{
    answered, closes, deadline_of, expiry_keeps_state_valid, flow_of, owner_is_unique, port_fault,
    reflection, reply_keeps_state_valid, request_keeps_state_valid, FlowError, FlowRegistry,
    FlowState, Interface, OriginalFlow, ReflectedTuple,
};
use crate::dns_packet::{
    decode, decoded, host_and_port, layout_of, rewrite_then_decode, rewritten, PacketError,
    PacketInfo, Protocol,
};
use crate::dns_process::{DnsProcessStatus, TransparentFlowRegistration, UpstreamSlot};
use crate::net::{socket_from_text, socket_of, IpAddr, SocketAddr, SocketAddrV4, SocketAddrV6};
use vstd::prelude::*;
use vstd::string::*;

verus! {

/// The number of flows that one generation may register.
pub const FLOW_LIMIT: usize = 4096;

/// How long a registered flow lives.
pub const FLOW_LIFETIME_MS: u64 = 120_000;

/// Why a packet is not routed.
#[derive(Debug, PartialEq, Eq)]
pub enum RouteError {
    InvalidPacket,
    InvalidInterface,
    Reflection(FlowError),
    RolloverRequired,
    Companion(String),
    Stopped,
    ClockReversed,
}

/// What to do with a captured packet.
#[derive(Debug, PartialEq, Eq)]
pub enum RoutedPacket {
    /// The packet is no part of the intercepted traffic.
    Unchanged,
    /// An unsolicited proxy reply must not leave the host.
    Discard,
    /// Reflected requests and restored replies are both injected inbound.
    Inbound { packet: Vec<u8>, interface: Interface },
}

/// The use of a slot: one resolver over one transport.
#[derive(Clone, Copy, Debug, PartialEq, Eq, Structural)]
pub struct Assignment {
    pub protocol: Protocol,
    pub resolver: SocketAddr,
}

/// A pair of owned source endpoints.
#[derive(Clone, Copy, Debug)]
pub struct Slot {
    pub id: usize,
    pub udp: SocketAddr,
    pub tcp: SocketAddr,
    pub assignment: Option<Assignment>,
}

impl Slot {
    /// The owned endpoint of a transport.
    pub open spec fn endpoint(self, protocol: Protocol) -> SocketAddr {
        match protocol {
            Protocol::Udp => self.udp,
            Protocol::Tcp => self.tcp,
        }
    }
}

/// An endpoint without its port.
pub open spec fn host_of(endpoint: SocketAddr) -> SocketAddr {
    match endpoint {
        SocketAddr::V4(v4) => SocketAddr::V4(SocketAddrV4 { port: 0, ..v4 }),
        SocketAddr::V6(v6) => SocketAddr::V6(SocketAddrV6 { port: 0, ..v6 }),
    }
}

fn host(endpoint: SocketAddr) -> (result: SocketAddr)
    ensures
        result == host_of(endpoint),
{
    match endpoint {
        SocketAddr::V4(v4) => SocketAddr::V4(SocketAddrV4 { ip: v4.ip, port: 0 }),
        SocketAddr::V6(v6) => SocketAddr::V6(
            SocketAddrV6 { ip: v6.ip, port: 0, flowinfo: v6.flowinfo, scope_id: v6.scope_id },
        ),
    }
}

/// An endpoint of a captured packet, with the capture interface where its address
/// is unicast on one link only. Such an address needs an interface.
pub open spec fn scoped_endpoint(endpoint: SocketAddr, interface: Interface) -> Option<SocketAddr> {
    match endpoint.spec_ip() {
        IpAddr::V6(ip) => if ip.link_local() {
            if interface.index == 0 {
                None
            } else {
                Some(
                    SocketAddr::V6(
                        SocketAddrV6 {
                            ip,
                            port: endpoint.spec_port(),
                            flowinfo: 0,
                            scope_id: interface.index,
                        },
                    ),
                )
            }
        } else {
            Some(endpoint)
        },
        IpAddr::V4(_) => Some(endpoint),
    }
}

fn scoped(endpoint: SocketAddr, interface: Interface) -> (result: Option<SocketAddr>)
    ensures
        result == scoped_endpoint(endpoint, interface),
{
    match endpoint.ip() {
        IpAddr::V6(ip) => if ip.is_unicast_link_local() {
            if interface.index == 0 {
                None
            } else {
                Some(
                    SocketAddr::V6(
                        SocketAddrV6 {
                            ip,
                            port: endpoint.port(),
                            flowinfo: 0,
                            scope_id: interface.index,
                        },
                    ),
                )
            }
        } else {
            Some(endpoint)
        },
        IpAddr::V4(_) => Some(endpoint),
    }
}

/// A registration as mathematical values.
pub ghost struct RegistrationView {
    pub protocol: Seq<char>,
    pub peer: Seq<char>,
    pub local: Seq<char>,
    pub resolver: Seq<char>,
    pub slot: int,
    pub lifetime_ms: u64,
}

/// The mathematical values of a registration.
pub open spec fn registration_view(flow: TransparentFlowRegistration) -> RegistrationView {
    RegistrationView {
        protocol: flow.protocol@,
        peer: flow.peer@,
        local: flow.local@,
        resolver: flow.resolver@,
        slot: flow.slot as int,
        lifetime_ms: flow.lifetime_ms,
    }
}

/// What to do with a packet, as mathematical values.
pub ghost enum Routed {
    Unchanged,
    Discard,
    Inbound { packet: Seq<u8>, interface: Interface },
}

/// Why a packet is not routed, as mathematical values.
pub ghost enum RouteFault {
    InvalidPacket,
    InvalidInterface,
    Reflection(FlowError),
    RolloverRequired,
    Companion(Seq<char>),
    Stopped,
    ClockReversed,
}

/// The mathematical value of a routing outcome.
pub open spec fn route_view(outcome: Result<RoutedPacket, RouteError>) -> Result<
    Routed,
    RouteFault,
> {
    match outcome {
        Ok(RoutedPacket::Unchanged) => Ok(Routed::Unchanged),
        Ok(RoutedPacket::Discard) => Ok(Routed::Discard),
        Ok(RoutedPacket::Inbound { packet, interface }) => Ok(
            Routed::Inbound { packet: packet@, interface },
        ),
        Err(RouteError::InvalidPacket) => Err(RouteFault::InvalidPacket),
        Err(RouteError::InvalidInterface) => Err(RouteFault::InvalidInterface),
        Err(RouteError::Reflection(error)) => Err(RouteFault::Reflection(error)),
        Err(RouteError::RolloverRequired) => Err(RouteFault::RolloverRequired),
        Err(RouteError::Companion(message)) => Err(RouteFault::Companion(message@)),
        Err(RouteError::Stopped) => Err(RouteFault::Stopped),
        Err(RouteError::ClockReversed) => Err(RouteFault::ClockReversed),
    }
}

/// A request that waits for its authorization.
pub ghost struct PendingView {
    pub packet: Seq<u8>,
    pub flow: OriginalFlow,
    pub slot: int,
    pub assignment: Assignment,
}

/// How far a packet came without the companion.
pub ghost enum Step {
    Done(Result<Routed, RouteFault>),
    Register { registration: RegistrationView, pending: PendingView },
}

/// What a router holds.
#[verifier::ext_equal]
pub ghost struct RouterState {
    pub filters: Seq<Seq<char>>,
    pub udp_listeners: Seq<SocketAddr>,
    pub tcp_listeners: Seq<SocketAddr>,
    pub slots: Seq<Slot>,
    pub flows: FlowState,
    pub registered: Set<OriginalFlow>,
    pub accepting: bool,
    pub last_ms: u64,
}

/// The first listener on the host of `source`; the length if there is none.
pub open spec fn listener_index(listeners: Seq<SocketAddr>, source: SocketAddr) -> int
    decreases listeners.len(),
{
    if listeners.len() == 0 || host_of(listeners[0]) == host_of(source) {
        0
    } else {
        1 + listener_index(listeners.drop_first(), source)
    }
}

/// The first slot on the host of `listener` with this assignment; the length if
/// there is none.
pub open spec fn slot_index(
    slots: Seq<Slot>,
    listener: SocketAddr,
    assignment: Option<Assignment>,
) -> int
    decreases slots.len(),
{
    if slots.len() == 0 || (host_of(slots[0].udp) == host_of(listener) && slots[0].assignment
        == assignment) {
        0
    } else {
        1 + slot_index(slots.drop_first(), listener, assignment)
    }
}

/// The slot for a resolver: the one that serves it already, else the first free
/// one; the length if there is neither.
pub open spec fn slot_for(slots: Seq<Slot>, listener: SocketAddr, assignment: Assignment) -> int {
    let used = slot_index(slots, listener, Some(assignment));
    if used < slots.len() {
        used
    } else {
        slot_index(slots, listener, None)
    }
}

/// The name of a transport in a registration.
pub open spec fn transport_name(protocol: Protocol) -> Seq<char> {
    match protocol {
        Protocol::Udp => "udp"@,
        Protocol::Tcp => "tcp"@,
    }
}

impl RouterState {
    /// The listeners of a transport.
    pub open spec fn listeners(self, protocol: Protocol) -> Seq<SocketAddr> {
        match protocol {
            Protocol::Udp => self.udp_listeners,
            Protocol::Tcp => self.tcp_listeners,
        }
    }

    /// Whether `source` is an owned source endpoint of the transport.
    pub open spec fn reserved(self, protocol: Protocol, source: SocketAddr) -> bool {
        exists|i: int|
            0 <= i < self.slots.len() && (#[trigger] self.slots[i]).endpoint(protocol) == source
    }

    /// What a packet from a proxy listener does.
    pub open spec fn reply(self, packet: Seq<u8>, now_ms: u64) -> (RouterState, Step) {
        let (flows, outcome) = self.flows.replied(packet, now_ms);
        let next = RouterState { flows, ..self };
        match outcome {
            Ok((bytes, flow)) => if self.registered.contains(flow) {
                (next, Step::Done(Ok(Routed::Inbound { packet: bytes, interface: flow.interface })))
            } else {
                (next, Step::Done(Ok(Routed::Discard)))
            },
            Err(FlowError::UnknownFlow) => (next, Step::Done(Ok(Routed::Discard))),
            Err(error) => (next, Step::Done(Err(RouteFault::Reflection(error)))),
        }
    }

    /// What a request from a covered address does.
    pub open spec fn request(
        self,
        packet: Seq<u8>,
        info: PacketInfo,
        source: SocketAddr,
        resolver: SocketAddr,
        interface: Interface,
        now_ms: u64,
    ) -> (RouterState, Step) {
        let listeners = self.listeners(info.protocol);
        let listener = listeners[listener_index(listeners, source)];
        let assignment = Assignment { protocol: info.protocol, resolver };
        let selected = slot_for(self.slots, listener, assignment);
        let (flows, outcome) = self.flows.requested(
            packet,
            interface,
            listener.spec_port(),
            now_ms,
        );
        let next = RouterState { flows, ..self };
        if selected >= self.slots.len() {
            (self, Step::Done(Err(RouteFault::RolloverRequired)))
        } else {
            match outcome {
                Err(FlowError::KeyQuarantined) | Err(FlowError::AtCapacity) => (
                    next,
                    Step::Done(Err(RouteFault::RolloverRequired)),
                ),
                Err(error) => (next, Step::Done(Err(RouteFault::Reflection(error)))),
                Ok((bytes, flow)) => if self.registered.contains(flow) {
                    (next, Step::Done(Ok(Routed::Inbound { packet: bytes, interface })))
                } else {
                    (
                        next,
                        Step::Register {
                            registration: RegistrationView {
                                protocol: transport_name(info.protocol),
                                peer: peer_of(resolver, source.spec_port()).spec_text(),
                                local: listener.spec_text(),
                                resolver: resolver.spec_text(),
                                slot: self.slots[selected].id as int,
                                lifetime_ms: 120_000,
                            },
                            pending: PendingView {
                                packet: bytes,
                                flow,
                                slot: selected,
                                assignment,
                            },
                        },
                    )
                },
            }
        }
    }

    /// How far a packet comes without the companion.
    pub open spec fn begun(self, packet: Seq<u8>, interface: Interface, now_ms: u64) -> (
        RouterState,
        Step,
    ) {
        let timed = RouterState { last_ms: now_ms, ..self };
        if now_ms < self.last_ms {
            (self, Step::Done(Err(RouteFault::ClockReversed)))
        } else {
            match decoded(packet) {
                Err(_) => (timed, Step::Done(Err(RouteFault::InvalidPacket))),
                Ok(info) => match scoped_endpoint(info.source, interface) {
                    None => (timed, Step::Done(Err(RouteFault::InvalidInterface))),
                    Some(source) => {
                        let listeners = self.listeners(info.protocol);
                        if listeners.contains(source) {
                            timed.reply(packet, now_ms)
                        } else if info.destination.spec_port() != 53 || listener_index(
                            listeners,
                            source,
                        ) >= listeners.len() || self.reserved(info.protocol, source) {
                            (timed, Step::Done(Ok(Routed::Unchanged)))
                        } else if !self.accepting {
                            (timed, Step::Done(Err(RouteFault::Stopped)))
                        } else {
                            match scoped_endpoint(info.destination, interface) {
                                None => (timed, Step::Done(Err(RouteFault::InvalidInterface))),
                                Some(resolver) => timed.request(
                                    packet,
                                    info,
                                    source,
                                    resolver,
                                    interface,
                                    now_ms,
                                ),
                            }
                        }
                    },
                },
            }
        }
    }

    /// What the companion's answer to a registration does. Its acknowledgement may
    /// have been lost, so a failure freezes admission.
    pub open spec fn finished(
        self,
        pending: PendingView,
        answer: Result<(), Seq<char>>,
    ) -> (RouterState, Result<Routed, RouteFault>) {
        match answer {
            Err(message) => (
                RouterState { accepting: false, ..self },
                Err(RouteFault::Companion(message)),
            ),
            Ok(()) => (
                RouterState {
                    slots: self.slots.update(
                        pending.slot,
                        Slot { assignment: Some(pending.assignment), ..self.slots[pending.slot] },
                    ),
                    registered: self.registered.insert(pending.flow),
                    ..self
                },
                Ok(
                    Routed::Inbound { packet: pending.packet, interface: pending.flow.interface },
                ),
            ),
        }
    }
}

/// Where a resolver's answers to a client seem to come from, as the companion
/// sees it: the resolver on the client's port.
pub open spec fn peer_of(resolver: SocketAddr, port: u16) -> SocketAddr {
    match resolver {
        SocketAddr::V4(v4) => SocketAddr::V4(SocketAddrV4 { port, ..v4 }),
        SocketAddr::V6(v6) => SocketAddr::V6(SocketAddrV6 { port, ..v6 }),
    }
}

/// The endpoints that a list of texts names, where each is one.
pub open spec fn endpoints_of(texts: Seq<String>) -> Option<Seq<SocketAddr>>
    decreases texts.len(),
{
    if texts.len() == 0 {
        Some(Seq::empty())
    } else {
        match (endpoints_of(texts.drop_last()), socket_of(texts.last()@)) {
            (Some(front), Some(last)) => Some(front.push(last)),
            _ => None,
        }
    }
}

proof fn lemma_endpoints_prefix(texts: Seq<String>, n: int)
    requires
        0 <= n <= texts.len(),
        endpoints_of(texts.take(n)) is None,
    ensures
        endpoints_of(texts) is None,
    decreases texts.len() - n,
{
    if n < texts.len() {
        assert(texts.take(n + 1).drop_last() =~= texts.take(n));
        lemma_endpoints_prefix(texts, n + 1);
    } else {
        assert(texts.take(n) =~= texts);
    }
}

fn parse_endpoints(texts: &[String]) -> (result: Option<Vec<SocketAddr>>)
    ensures
        result is Some <==> endpoints_of(texts@) is Some,
        result matches Some(endpoints) ==> endpoints_of(texts@) == Some(endpoints@),
{
    let mut endpoints: Vec<SocketAddr> = Vec::new();
    let mut i: usize = 0;
    while i < texts.len()
        invariant
            i <= texts.len(),
            endpoints_of(texts@.take(i as int)) == Some(endpoints@),
        decreases texts.len() - i,
    {
        assert(texts@.take(i + 1).drop_last() =~= texts@.take(i as int));
        match socket_from_text(texts[i].as_str()) {
            Some(endpoint) => {
                endpoints.push(endpoint);
            },
            None => {
                proof {
                    lemma_endpoints_prefix(texts@, i + 1);
                }
                return None;
            },
        }
        i += 1;
    }
    assert(texts@.take(i as int) =~= texts@);
    Some(endpoints)
}

/// The slots that the companion reports: endpoints of one host each, no number
/// twice.
pub open spec fn slots_of(slots: Seq<UpstreamSlot>) -> Result<Seq<Slot>, Seq<char>>
    decreases slots.len(),
{
    if slots.len() == 0 {
        Ok(Seq::empty())
    } else {
        let last = slots.last();
        match slots_of(slots.drop_last()) {
            Err(message) => Err(message),
            Ok(front) => match (socket_of(last.udp_addr@), socket_of(last.tcp_addr@)) {
                (Some(udp), Some(tcp)) => if host_of(udp) != host_of(tcp) || exists|j: int|
                    0 <= j < slots.len() - 1 && (#[trigger] slots[j]).id == last.id {
                    Err("invalid companion slot identity"@)
                } else {
                    Ok(front.push(Slot { id: last.id, udp, tcp, assignment: None }))
                },
                _ => Err("invalid companion endpoint"@),
            },
        }
    }
}

proof fn lemma_slots_prefix(slots: Seq<UpstreamSlot>, n: int)
    requires
        0 <= n <= slots.len(),
        slots_of(slots.take(n)) is Err,
    ensures
        slots_of(slots) == slots_of(slots.take(n)),
    decreases slots.len() - n,
{
    if n < slots.len() {
        assert(slots.take(n + 1).drop_last() =~= slots.take(n));
        lemma_slots_prefix(slots, n + 1);
    } else {
        assert(slots.take(n) =~= slots);
    }
}

fn parse_slots(slots: &[UpstreamSlot]) -> (result: Result<Vec<Slot>, String>)
    ensures
        result is Ok <==> slots_of(slots@) is Ok,
        result matches Ok(parsed) ==> slots_of(slots@) == Ok::<Seq<Slot>, Seq<char>>(parsed@),
        result matches Err(message) ==> slots_of(slots@) == Err::<Seq<Slot>, Seq<char>>(message@),
{
    let mut parsed: Vec<Slot> = Vec::new();
    let mut i: usize = 0;
    while i < slots.len()
        invariant
            i <= slots.len(),
            slots_of(slots@.take(i as int)) == Ok::<Seq<Slot>, Seq<char>>(parsed@),
        decreases slots.len() - i,
    {
        let ghost now = slots@.take(i + 1);
        assert(now.drop_last() =~= slots@.take(i as int));
        assert(now.last() == slots@[i as int]);
        let mut repeated = false;
        let mut j: usize = 0;
        while j < i
            invariant
                j <= i < slots.len(),
                repeated == exists|k: int|
                    0 <= k < j && (#[trigger] slots@[k]).id == slots@[i as int].id,
            decreases i - j,
        {
            if slots[j].id == slots[i].id {
                repeated = true;
            }
            j += 1;
        }
        proof {
            assert(repeated == exists|k: int|
                0 <= k < now.len() - 1 && (#[trigger] now[k]).id == now.last().id) by {
                if repeated {
                    let k = choose|k: int|
                        0 <= k < i && (#[trigger] slots@[k]).id == slots@[i as int].id;
                    assert(now[k].id == now.last().id);
                }
                if exists|k: int|
                    0 <= k < now.len() - 1 && (#[trigger] now[k]).id == now.last().id {
                    let k = choose|k: int|
                        0 <= k < now.len() - 1 && (#[trigger] now[k]).id == now.last().id;
                    assert(slots@[k].id == slots@[i as int].id);
                }
            }
        }
        match (
            socket_from_text(slots[i].udp_addr.as_str()),
            socket_from_text(slots[i].tcp_addr.as_str()),
        ) {
            (Some(udp), Some(tcp)) => {
                if repeated || host(udp) != host(tcp) {
                    proof {
                        lemma_slots_prefix(slots@, i + 1);
                    }
                    return Err("invalid companion slot identity".to_owned());
                }
                parsed.push(Slot { id: slots[i].id, udp, tcp, assignment: None });
            },
            _ => {
                proof {
                    lemma_slots_prefix(slots@, i + 1);
                }
                return Err("invalid companion endpoint".to_owned());
            },
        }
        i += 1;
    }
    assert(slots@.take(i as int) =~= slots@);
    Ok(parsed)
}

/// The filter configuration of a ready companion.
pub open spec fn filter_config(
    udp_listeners: Seq<SocketAddr>,
    tcp_listeners: Seq<SocketAddr>,
    slots: Seq<Slot>,
) -> FilterView {
    FilterView {
        local_ips: udp_listeners.map_values(|e: SocketAddr| e.spec_ip()),
        udp_listeners,
        tcp_listeners,
        udp_upstreams: slots.map_values(|s: Slot| s.udp),
        tcp_upstreams: slots.map_values(|s: Slot| s.tcp),
    }
}

/// The filters of a validated configuration; an error where the configuration or
/// the size of a filter is at fault.
pub open spec fn filters_of(config: FilterView) -> Result<Seq<Seq<char>>, Seq<char>> {
    let sorted = sorted_ips(config.local_ips);
    if config.fault() is Some {
        Err(config.fault()->0)
    } else if forall|k: int|
        0 <= k < group_count(sorted) ==> crate::text::byte_len(
            #[trigger] filter_text(config, group(sorted, k)),
        ) <= 32768 {
        Ok(
            Seq::new(
                group_count(sorted) as nat,
                |k: int| filter_text(config, group(sorted, k)),
            ),
        )
    } else {
        Err(crate::dns_filter::oversize_message())
    }
}

/// The router of a ready companion, or why there is none.
pub open spec fn router_for(ready: DnsProcessStatus) -> Result<RouterState, Seq<char>> {
    match (endpoints_of(ready.udp_addrs@), endpoints_of(ready.tcp_addrs@)) {
        (Some(udp_listeners), Some(tcp_listeners)) => match slots_of(ready.slots@) {
            Err(message) => Err(message),
            Ok(slots) => match filters_of(filter_config(udp_listeners, tcp_listeners, slots)) {
                Err(message) => Err(message),
                Ok(filters) => Ok(
                    RouterState {
                        filters,
                        udp_listeners,
                        tcp_listeners,
                        slots,
                        flows: FlowState {
                            capacity: 4096,
                            ttl_ms: 120_000,
                            tcp_close_grace_ms: 5_000,
                            allocated: 0,
                            active: Map::empty(),
                            quarantined_original: Set::empty(),
                            quarantined_reflected: Set::empty(),
                        },
                        registered: Set::empty(),
                        accepting: true,
                        last_ms: 0,
                    },
                ),
            },
        },
        _ => Err("invalid companion endpoint"@),
    }
}

/// The router of one companion generation.
pub struct PacketRouter {
    filters: Vec<String>,
    udp_listeners: Vec<SocketAddr>,
    tcp_listeners: Vec<SocketAddr>,
    slots: Vec<Slot>,
    flows: FlowRegistry,
    registered: Vec<OriginalFlow>,
    accepting: bool,
    last_ms: u64,
}

/// A reflected request that waits for the companion to authorize its flow.
pub struct PendingRequest {
    packet: Vec<u8>,
    flow: OriginalFlow,
    slot: usize,
    assignment: Assignment,
}

impl PendingRequest {
    pub closed spec fn view(&self) -> PendingView {
        PendingView {
            packet: self.packet@,
            flow: self.flow,
            slot: self.slot as int,
            assignment: self.assignment,
        }
    }
}

/// How far a packet came without the companion.
pub enum RouteStep {
    Done(Result<RoutedPacket, RouteError>),
    Register { registration: TransparentFlowRegistration, pending: PendingRequest },
}

/// The mathematical value of a step.
pub open spec fn step_view(step: RouteStep) -> Step {
    match step {
        RouteStep::Done(outcome) => Step::Done(route_view(outcome)),
        RouteStep::Register { registration, pending } => Step::Register {
            registration: registration_view(registration),
            pending: pending@,
        },
    }
}

/// The mathematical value of the companion's answer.
pub open spec fn answer_view(answer: Result<(), String>) -> Result<(), Seq<char>> {
    match answer {
        Ok(()) => Ok(()),
        Err(message) => Err(message@),
    }
}

impl PacketRouter {
    /// What the router holds.
    pub closed spec fn view(&self) -> RouterState {
        RouterState {
            filters: crate::text::views(self.filters@),
            udp_listeners: self.udp_listeners@,
            tcp_listeners: self.tcp_listeners@,
            slots: self.slots@,
            flows: self.flows@,
            registered: self.registered@.to_set(),
            accepting: self.accepting,
            last_ms: self.last_ms,
        }
    }

    /// The invariant of every router.
    pub closed spec fn wf(&self) -> bool {
        self.flows.wf()
    }

    /// Makes the router of a ready companion.
    pub fn new(ready: &DnsProcessStatus) -> (result: Result<Self, String>)
        ensures
            result is Ok <==> router_for(*ready) is Ok,
            result matches Ok(router) ==> router.wf() && router_for(*ready) == Ok::<
                RouterState,
                Seq<char>,
            >(router@),
            result matches Err(message) ==> router_for(*ready) == Err::<RouterState, Seq<char>>(
                message@,
            ),
    {
        let udp_listeners = match parse_endpoints(&ready.udp_addrs) {
            Some(endpoints) => endpoints,
            None => return Err("invalid companion endpoint".to_owned()),
        };
        let tcp_listeners = match parse_endpoints(&ready.tcp_addrs) {
            Some(endpoints) => endpoints,
            None => return Err("invalid companion endpoint".to_owned()),
        };
        let slots = match parse_slots(&ready.slots) {
            Ok(slots) => slots,
            Err(message) => return Err(message),
        };
        let mut local_ips: Vec<IpAddr> = Vec::new();
        let mut i: usize = 0;
        while i < udp_listeners.len()
            invariant
                i <= udp_listeners.len(),
                local_ips@ == udp_listeners@.take(i as int).map_values(
                    |e: SocketAddr| e.spec_ip(),
                ),
            decreases udp_listeners.len() - i,
        {
            local_ips.push(udp_listeners[i].ip());
            i += 1;
            assert(local_ips@ =~= udp_listeners@.take(i as int).map_values(
                |e: SocketAddr| e.spec_ip(),
            ));
        }
        assert(udp_listeners@.take(i as int) =~= udp_listeners@);
        let mut udp_upstreams: Vec<SocketAddr> = Vec::new();
        let mut tcp_upstreams: Vec<SocketAddr> = Vec::new();
        let mut j: usize = 0;
        while j < slots.len()
            invariant
                j <= slots.len(),
                udp_upstreams@ == slots@.take(j as int).map_values(|s: Slot| s.udp),
                tcp_upstreams@ == slots@.take(j as int).map_values(|s: Slot| s.tcp),
            decreases slots.len() - j,
        {
            udp_upstreams.push(slots[j].udp);
            tcp_upstreams.push(slots[j].tcp);
            j += 1;
            assert(udp_upstreams@ =~= slots@.take(j as int).map_values(|s: Slot| s.udp));
            assert(tcp_upstreams@ =~= slots@.take(j as int).map_values(|s: Slot| s.tcp));
        }
        assert(slots@.take(j as int) =~= slots@);
        let config = DnsFilterConfig {
            local_ips,
            udp_proxy_listeners: copy_endpoints(&udp_listeners),
            tcp_proxy_listeners: copy_endpoints(&tcp_listeners),
            udp_upstreams,
            tcp_upstreams,
        };
        let ghost config_view = filter_config(udp_listeners@, tcp_listeners@, slots@);
        assert(config@ == config_view);
        let filters = match build_dns_filters(&config) {
            Ok(filters) => filters,
            Err(message) => return Err(message),
        };
        let router = PacketRouter {
            filters,
            udp_listeners,
            tcp_listeners,
            slots,
            flows: FlowRegistry::new(FLOW_LIMIT, FLOW_LIFETIME_MS),
            registered: Vec::new(),
            accepting: true,
            last_ms: 0,
        };
        proof {
            let sorted = sorted_ips(config_view.local_ips);
            assert(crate::text::views(filters@) =~= Seq::new(
                group_count(sorted) as nat,
                |k: int| filter_text(config_view, group(sorted, k)),
            ));
            assert(router@.registered =~= Set::empty());
            assert(router@ =~= router_for(*ready)->Ok_0);
        }
        Ok(router)
    }

    /// The filters to open, one driver handle for each.
    pub fn filters(&self) -> (result: &Vec<String>)
        ensures
            crate::text::views(result@) == self@.filters,
    {
        &self.filters
    }

    /// Freezes registration before the companion is asked to quiesce. Known proxy
    /// replies are still restored, and requests pass as they are while draining.
    pub fn stop_admission(&mut self)
        requires
            old(self).wf(),
        ensures
            final(self).wf(),
            final(self)@ == (RouterState { accepting: false, ..old(self)@ }),
    {
        self.accepting = false;
    }

    fn is_registered(&self, flow: &OriginalFlow) -> (result: bool)
        ensures
            result == self@.registered.contains(*flow),
    {
        let mut i: usize = 0;
        while i < self.registered.len()
            invariant
                i <= self.registered.len(),
                forall|j: int| 0 <= j < i ==> self.registered@[j] != *flow,
            decreases self.registered.len() - i,
        {
            if self.registered[i] == *flow {
                assert(self.registered@[i as int] == *flow);
                return true;
            }
            i += 1;
        }
        false
    }

    fn is_reserved(&self, protocol: Protocol, source: SocketAddr) -> (result: bool)
        ensures
            result == self@.reserved(protocol, source),
    {
        let mut i: usize = 0;
        while i < self.slots.len()
            invariant
                i <= self.slots.len(),
                forall|j: int| 0 <= j < i ==> (#[trigger] self.slots@[j]).endpoint(protocol) != source,
            decreases self.slots.len() - i,
        {
            let endpoint = match protocol {
                Protocol::Udp => self.slots[i].udp,
                Protocol::Tcp => self.slots[i].tcp,
            };
            if endpoint == source {
                assert(self@.slots[i as int].endpoint(protocol) == source);
                return true;
            }
            i += 1;
        }
        false
    }

    /// Routes a packet as far as it comes without the companion.
    pub fn begin_route(&mut self, packet: &[u8], interface: Interface, now_ms: u64) -> (result:
        RouteStep)
        requires
            old(self).wf(),
        ensures
            final(self).wf(),
            (final(self)@, step_view(result)) == old(self)@.begun(packet@, interface, now_ms),
            result matches RouteStep::Register { pending, .. } ==> 0 <= pending@.slot < final(self)@.slots.len(),
    {
        if now_ms < self.last_ms {
            return RouteStep::Done(Err(RouteError::ClockReversed));
        }
        self.last_ms = now_ms;
        let info = match decode(packet) {
            Ok(info) => info,
            Err(_) => return RouteStep::Done(Err(RouteError::InvalidPacket)),
        };
        let source = match scoped(info.source, interface) {
            Some(source) => source,
            None => return RouteStep::Done(Err(RouteError::InvalidInterface)),
        };
        let listening = match info.protocol {
            Protocol::Udp => contains_endpoint(&self.udp_listeners, source),
            Protocol::Tcp => contains_endpoint(&self.tcp_listeners, source),
        };
        if listening {
            return self.route_reply(packet, now_ms);
        }
        if info.destination.port() != 53 {
            return RouteStep::Done(Ok(RoutedPacket::Unchanged));
        }
        let found = match info.protocol {
            Protocol::Udp => find_listener(&self.udp_listeners, source),
            Protocol::Tcp => find_listener(&self.tcp_listeners, source),
        };
        let listener = match found {
            Some(listener) => listener,
            None => return RouteStep::Done(Ok(RoutedPacket::Unchanged)),
        };
        if self.is_reserved(info.protocol, source) {
            return RouteStep::Done(Ok(RoutedPacket::Unchanged));
        }
        if !self.accepting {
            return RouteStep::Done(Err(RouteError::Stopped));
        }
        let resolver = match scoped(info.destination, interface) {
            Some(resolver) => resolver,
            None => return RouteStep::Done(Err(RouteError::InvalidInterface)),
        };
        self.route_request(packet, info, source, listener, resolver, interface, now_ms)
    }

    fn route_reply(&mut self, packet: &[u8], now_ms: u64) -> (result: RouteStep)
        requires
            old(self).wf(),
        ensures
            final(self).wf(),
            (final(self)@, step_view(result)) == old(self)@.reply(packet@, now_ms),
            result is Done,
    {
        match self.flows.reflect_reply(packet, now_ms) {
            Ok(reply) => if self.is_registered(&reply.original_flow) {
                RouteStep::Done(
                    Ok(
                        RoutedPacket::Inbound {
                            packet: reply.packet,
                            interface: reply.original_flow.interface,
                        },
                    ),
                )
            } else {
                RouteStep::Done(Ok(RoutedPacket::Discard))
            },
            Err(FlowError::UnknownFlow) => RouteStep::Done(Ok(RoutedPacket::Discard)),
            Err(error) => RouteStep::Done(Err(RouteError::Reflection(error))),
        }
    }

    fn route_request(
        &mut self,
        packet: &[u8],
        info: PacketInfo,
        source: SocketAddr,
        listener: SocketAddr,
        resolver: SocketAddr,
        interface: Interface,
        now_ms: u64,
    ) -> (result: RouteStep)
        requires
            old(self).wf(),
            ({
                let listeners = old(self)@.listeners(info.protocol);
                &&& 0 <= listener_index(listeners, source) < listeners.len()
                &&& listener == listeners[listener_index(listeners, source)]
            }),
        ensures
            final(self).wf(),
            (final(self)@, step_view(result)) == old(self)@.request(
                packet@,
                info,
                source,
                resolver,
                interface,
                now_ms,
            ),
            result matches RouteStep::Register { pending, .. } ==> 0 <= pending@.slot < final(self)@.slots.len(),
    {
        let assignment = Assignment { protocol: info.protocol, resolver };
        let used: usize = find_slot(&self.slots, listener, Some(assignment));
        let selected: usize = if used < self.slots.len() {
            used
        } else {
            find_slot(&self.slots, listener, None)
        };
        if selected >= self.slots.len() {
            return RouteStep::Done(Err(RouteError::RolloverRequired));
        }
        let reflected = match self.flows.reflect_request(
            packet,
            interface,
            listener.port(),
            now_ms,
        ) {
            Ok(reflected) => reflected,
            Err(FlowError::KeyQuarantined) => {
                return RouteStep::Done(Err(RouteError::RolloverRequired));
            },
            Err(FlowError::AtCapacity) => {
                return RouteStep::Done(Err(RouteError::RolloverRequired));
            },
            Err(error) => return RouteStep::Done(Err(RouteError::Reflection(error))),
        };
        if self.is_registered(&reflected.original_flow) {
            return RouteStep::Done(
                Ok(RoutedPacket::Inbound { packet: reflected.packet, interface }),
            );
        }
        let peer = match resolver {
            SocketAddr::V4(v4) => SocketAddr::V4(SocketAddrV4 { ip: v4.ip, port: source.port() }),
            SocketAddr::V6(v6) => SocketAddr::V6(
                SocketAddrV6 {
                    ip: v6.ip,
                    port: source.port(),
                    flowinfo: v6.flowinfo,
                    scope_id: v6.scope_id,
                },
            ),
        };
        let protocol = match info.protocol {
            Protocol::Udp => "udp",
            Protocol::Tcp => "tcp",
        };
        let registration = TransparentFlowRegistration {
            protocol: protocol.to_owned(),
            peer: peer.text(),
            local: listener.text(),
            resolver: resolver.text(),
            slot: self.slots[selected].id,
            lifetime_ms: FLOW_LIFETIME_MS,
        };
        let pending = PendingRequest {
            packet: reflected.packet,
            flow: reflected.original_flow,
            slot: selected,
            assignment,
        };
        RouteStep::Register { registration, pending }
    }

    /// Takes the companion's answer to a registration.
    pub fn finish_route(&mut self, pending: PendingRequest, answer: Result<(), String>) -> (result:
        Result<RoutedPacket, RouteError>)
        requires
            old(self).wf(),
            0 <= pending@.slot < old(self)@.slots.len(),
        ensures
            final(self).wf(),
            (final(self)@, route_view(result)) == old(self)@.finished(
                pending@,
                answer_view(answer),
            ),
    {
        match answer {
            Err(message) => {
                self.accepting = false;
                Err(RouteError::Companion(message))
            },
            Ok(()) => {
                let ghost before = self@;
                let ghost listed = self.registered@;
                let mut slot = self.slots[pending.slot];
                slot.assignment = Some(pending.assignment);
                self.slots.set(pending.slot, slot);
                self.registered.push(pending.flow);
                proof {
                    assert(self.registered@.to_set() =~= listed.to_set().insert(pending.flow)) by {
                        assert forall|f: OriginalFlow| self.registered@.to_set().contains(
                            f,
                        ) == listed.to_set().insert(pending.flow).contains(f) by {
                            if listed.contains(f) {
                                let i = choose|i: int| 0 <= i < listed.len() && listed[i] == f;
                                assert(self.registered@[i] == f);
                            }
                            if f == pending.flow {
                                assert(self.registered@[listed.len() as int] == f);
                            }
                            if self.registered@.contains(f) && f != pending.flow {
                                let i = choose|i: int|
                                    0 <= i < self.registered@.len() && self.registered@[i] == f;
                                assert(listed[i] == f);
                            }
                        }
                    }
                    assert(self@ =~= before.finished(pending@, Ok(())).0);
                }
                Ok(
                    RoutedPacket::Inbound {
                        packet: pending.packet,
                        interface: pending.flow.interface,
                    },
                )
            },
        }
    }

    /// Routes a packet. A flow that is new is registered through `register`, which
    /// is called at most once, before its packet is handed back for injection.
    pub fn route<F: FnOnce(TransparentFlowRegistration) -> Result<(), String>>(
        &mut self,
        packet: &[u8],
        interface: Interface,
        now_ms: u64,
        register: F,
    ) -> (result: Result<RoutedPacket, RouteError>)
        requires
            old(self).wf(),
            forall|flow: TransparentFlowRegistration| call_requires(register, (flow,)),
        ensures
            final(self).wf(),
            match old(self)@.begun(packet@, interface, now_ms) {
                (next, Step::Done(outcome)) => final(self)@ == next && route_view(result)
                    == outcome,
                (next, Step::Register { registration, pending }) => exists|
                    flow: TransparentFlowRegistration,
                    answer: Result<(), String>,
                |
                    registration_view(flow) == registration && #[trigger] call_ensures(
                        register,
                        (flow,),
                        answer,
                    ) && (final(self)@, route_view(result)) == next.finished(
                        pending,
                        answer_view(answer),
                    ),
            },
    {
        match self.begin_route(packet, interface, now_ms) {
            RouteStep::Done(outcome) => outcome,
            RouteStep::Register { registration, pending } => {
                let ghost flow = registration;
                let answer = register(registration);
                assert(call_ensures(register, (flow,), answer));
                self.finish_route(pending, answer)
            },
        }
    }

    /// Routes a packet while the driver drains: requests resume their normal path;
    /// proxy replies still need an exact reverse mapping. Nothing is registered.
    pub fn drain(&mut self, packet: &[u8], interface: Interface, now_ms: u64) -> (result: Result<
        RoutedPacket,
        RouteError,
    >)
        requires
            old(self).wf(),
        ensures
            final(self).wf(),
            ({
                let frozen = RouterState { accepting: false, ..old(self)@ };
                let (next, step) = frozen.begun(packet@, interface, now_ms);
                &&& step is Done
                &&& final(self)@ == next
                &&& route_view(result) == (if step == Step::Done(
                    Err::<Routed, RouteFault>(RouteFault::Stopped),
                ) {
                    Ok::<Routed, RouteFault>(Routed::Unchanged)
                } else {
                    step->Done_0
                })
            }),
    {
        self.stop_admission();
        match self.begin_route(packet, interface, now_ms) {
            RouteStep::Done(Err(RouteError::Stopped)) => Ok(RoutedPacket::Unchanged),
            RouteStep::Done(outcome) => outcome,
            RouteStep::Register { registration: _, pending: _ } => Ok(RoutedPacket::Unchanged),
        }
    }
}

fn copy_endpoints(endpoints: &[SocketAddr]) -> (result: Vec<SocketAddr>)
    ensures
        result@ == endpoints@,
{
    let mut result: Vec<SocketAddr> = Vec::new();
    let mut i: usize = 0;
    while i < endpoints.len()
        invariant
            i <= endpoints.len(),
            result@ == endpoints@.take(i as int),
        decreases endpoints.len() - i,
    {
        result.push(endpoints[i]);
        i += 1;
        assert(endpoints@.take(i as int) =~= endpoints@.take(i - 1).push(endpoints@[i - 1]));
    }
    assert(endpoints@.take(i as int) =~= endpoints@);
    result
}

fn contains_endpoint(endpoints: &[SocketAddr], endpoint: SocketAddr) -> (result: bool)
    ensures
        result == endpoints@.contains(endpoint),
{
    let mut i: usize = 0;
    while i < endpoints.len()
        invariant
            i <= endpoints.len(),
            forall|j: int| 0 <= j < i ==> endpoints@[j] != endpoint,
        decreases endpoints.len() - i,
    {
        if endpoints[i] == endpoint {
            assert(endpoints@[i as int] == endpoint);
            return true;
        }
        i += 1;
    }
    false
}

fn find_listener(listeners: &[SocketAddr], source: SocketAddr) -> (result: Option<SocketAddr>)
    ensures
        result is Some <==> listener_index(listeners@, source) < listeners@.len(),
        0 <= listener_index(listeners@, source),
        result matches Some(listener) ==> listener == listeners@[listener_index(
            listeners@,
            source,
        )],
{
    let mut i: usize = 0;
    assert(listeners@.skip(0) =~= listeners@);
    while i < listeners.len()
        invariant
            i <= listeners.len(),
            listener_index(listeners@, source) == i + listener_index(
                listeners@.skip(i as int),
                source,
            ),
        decreases listeners.len() - i,
    {
        if host(listeners[i]) == host(source) {
            return Some(listeners[i]);
        }
        assert(listeners@.skip(i as int).drop_first() =~= listeners@.skip(i + 1));
        i += 1;
    }
    None
}

fn same_assignment(left: Option<Assignment>, right: Option<Assignment>) -> (result: bool)
    ensures
        result == (left == right),
{
    match (left, right) {
        (Some(a), Some(b)) => a == b,
        (None, None) => true,
        _ => false,
    }
}

fn find_slot(slots: &[Slot], listener: SocketAddr, assignment: Option<Assignment>) -> (result: usize)
    ensures
        result == slot_index(slots@, listener, assignment),
        result <= slots.len(),
{
    let mut i: usize = 0;
    assert(slots@.skip(0) =~= slots@);
    while i < slots.len()
        invariant
            i <= slots.len(),
            slot_index(slots@, listener, assignment) == i + slot_index(
                slots@.skip(i as int),
                listener,
                assignment,
            ),
        decreases slots.len() - i,
    {
        if host(slots[i].udp) == host(listener) && same_assignment(
            slots[i].assignment,
            assignment,
        ) {
            return i;
        }
        assert(slots@.skip(i as int).drop_first() =~= slots@.skip(i + 1));
        i += 1;
    }
    i
}

/// A packet is injected without a registration of its own only where its flow was
/// registered before: the flow of the request, or the one that the reply answers.
pub proof fn injection_requires_registration(
    state: RouterState,
    packet: Seq<u8>,
    interface: Interface,
    now_ms: u64,
)
    ensures
        state.begun(packet, interface, now_ms).0.registered == state.registered,
        state.begun(packet, interface, now_ms).1 matches Step::Done(
            Ok(Routed::Inbound { packet: bytes, interface: out }),
        ) ==> {
            let info = decoded(packet)->Ok_0;
            let answered_flow = state.flows.expired(now_ms).owner(answered(info));
            ||| state.registered.contains(flow_of(info, interface)) && out == interface
            ||| answered_flow is Some && state.registered.contains(answered_flow->0) && out
                == answered_flow->0.interface
        },
{
}

/// After a registration that failed or was not acknowledged, nothing is admitted
/// until the generation is replaced, and the flow is not registered.
pub proof fn failed_registration_freezes_admission(
    state: RouterState,
    pending: PendingView,
    message: Seq<char>,
    packet: Seq<u8>,
    interface: Interface,
    now_ms: u64,
)
    ensures
        ({
            let frozen = state.finished(pending, Err(message)).0;
            let (next, step) = frozen.begun(packet, interface, now_ms);
            &&& frozen.registered == state.registered
            &&& step is Done
            &&& !next.accepting
        }),
{
}

/// While admission is frozen no packet asks for a registration, and none thaws it.
pub proof fn frozen_routers_never_register(
    state: RouterState,
    packet: Seq<u8>,
    interface: Interface,
    now_ms: u64,
)
    requires
        !state.accepting,
    ensures
        state.begun(packet, interface, now_ms).1 is Done,
        !state.begun(packet, interface, now_ms).0.accepting,
{
}

/// A slot serves one resolver over one transport for as long as the router lives.
pub proof fn assignments_are_fixed(
    state: RouterState,
    packet: Seq<u8>,
    interface: Interface,
    now_ms: u64,
    answer: Result<(), Seq<char>>,
    i: int,
)
    requires
        0 <= i < state.slots.len(),
        state.slots[i].assignment is Some,
    ensures
        ({
            let (next, step) = state.begun(packet, interface, now_ms);
            &&& next.slots == state.slots
            &&& step matches Step::Register { pending, .. } ==> next.finished(
                pending,
                answer,
            ).0.slots[i].assignment == state.slots[i].assignment
        }),
{
    let (next, step) = state.begun(packet, interface, now_ms);
    if let Step::Register { registration, pending } = step {
        let info = decoded(packet)->Ok_0;
        let source = scoped_endpoint(info.source, interface)->0;
        let listeners = state.listeners(info.protocol);
        let listener = listeners[listener_index(listeners, source)];
        lemma_slot_index(state.slots, listener, Some(pending.assignment));
        lemma_slot_index(state.slots, listener, None);
    }
}

proof fn lemma_slot_index(slots: Seq<Slot>, listener: SocketAddr, assignment: Option<Assignment>)
    ensures
        0 <= slot_index(slots, listener, assignment) <= slots.len(),
        slot_index(slots, listener, assignment) < slots.len() ==> slots[slot_index(
            slots,
            listener,
            assignment,
        )].assignment == assignment,
    decreases slots.len(),
{
    if slots.len() > 0 && !(host_of(slots[0].udp) == host_of(listener) && slots[0].assignment
        == assignment) {
        lemma_slot_index(slots.drop_first(), listener, assignment);
    }
}

/// A packet that a proxy listener sends is injected or discarded, never sent on
/// unchanged.
pub proof fn proxy_packets_never_pass_unchanged(
    state: RouterState,
    packet: Seq<u8>,
    interface: Interface,
    now_ms: u64,
)
    requires
        decoded(packet) matches Ok(info) && scoped_endpoint(info.source, interface) matches Some(
            source,
        ) && state.listeners(info.protocol).contains(source),
    ensures
        state.begun(packet, interface, now_ms).1 != Step::Done(
            Ok::<Routed, RouteFault>(Routed::Unchanged),
        ),
        state.begun(packet, interface, now_ms).1 is Done,
{
}

/// Time never runs backwards in a router.
pub proof fn router_clock_is_monotone(
    state: RouterState,
    packet: Seq<u8>,
    interface: Interface,
    now_ms: u64,
)
    ensures
        state.begun(packet, interface, now_ms).0.last_ms >= state.last_ms,
        now_ms < state.last_ms ==> state.begun(packet, interface, now_ms) == (
            state,
            Step::Done(Err::<Routed, RouteFault>(RouteFault::ClockReversed)),
        ),
{
}

/// Every packet keeps what every registry of flows keeps.
pub proof fn routing_keeps_flows_valid(
    state: RouterState,
    packet: Seq<u8>,
    interface: Interface,
    now_ms: u64,
)
    requires
        state.flows.valid(),
    ensures
        state.begun(packet, interface, now_ms).0.flows.valid(),
{
    reply_keeps_state_valid(state.flows, packet, now_ms);
    if let Ok(info) = decoded(packet) {
        if let Some(source) = scoped_endpoint(info.source, interface) {
            let listeners = state.listeners(info.protocol);
            let listener = listeners[listener_index(listeners, source)];
            request_keeps_state_valid(
                state.flows,
                packet,
                interface,
                listener.spec_port(),
                now_ms,
            );
        }
    }
}

/// The listener to which a request is reflected.
pub open spec fn proxy_of(state: RouterState, info: PacketInfo, interface: Interface) -> SocketAddr {
    let listeners = state.listeners(info.protocol);
    listeners[listener_index(listeners, scoped_endpoint(info.source, interface)->0)]
}

/// Whether a packet is a request that the router reflects, captured on an interface: to
/// port 53, from the host of a listener, and from no endpoint of the companion.
pub open spec fn is_request(state: RouterState, packet: Seq<u8>, interface: Interface) -> bool {
    &&& decoded(packet) matches Ok(info)
    &&& scoped_endpoint(info.source, interface) matches Some(source)
    &&& scoped_endpoint(info.destination, interface) is Some
    &&& info.destination.spec_port() == 53
    &&& !state.listeners(info.protocol).contains(source)
    &&& listener_index(state.listeners(info.protocol), source) < state.listeners(
        info.protocol,
    ).len()
    &&& !state.reserved(info.protocol, source)
}

/// Whether the flow of a request is registered and active at least until a time.
pub open spec fn established(
    state: RouterState,
    packet: Seq<u8>,
    interface: Interface,
    until_ms: u64,
) -> bool {
    let info = decoded(packet)->Ok_0;
    let flow = flow_of(info, interface);
    let proxy = proxy_of(state, info, interface);
    let resolver = scoped_endpoint(info.destination, interface)->0;
    let assignment = Assignment { protocol: info.protocol, resolver };
    &&& is_request(state, packet, interface)
    &&& state.accepting
    &&& state.flows.valid()
    &&& port_fault(info, proxy.spec_port()) is None
    &&& state.flows.active.dom().contains(flow)
    &&& state.flows.active[flow].reflected == reflection(flow, proxy.spec_port())
    &&& until_ms <= state.flows.active[flow].expires_at_ms
    &&& state.registered.contains(flow)
    &&& slot_for(state.slots, proxy, assignment) < state.slots.len()
}

/// A request as it is reflected to the proxy.
pub open spec fn reflected_request(
    state: RouterState,
    packet: Seq<u8>,
    interface: Interface,
) -> Seq<u8> {
    let info = decoded(packet)->Ok_0;
    let tuple = reflection(
        flow_of(info, interface),
        proxy_of(state, info, interface).spec_port(),
    );
    rewritten(packet, layout_of(packet)->Ok_0, tuple.source, tuple.destination)
}

/// Whether a packet is the answer to another one: the same tuple, the other way round.
pub open spec fn answers(reply: Seq<u8>, packet: Seq<u8>) -> bool {
    &&& decoded(reply) matches Ok(back)
    &&& decoded(packet) matches Ok(info)
    &&& back.source == info.destination
    &&& back.destination == info.source
    &&& back.protocol == info.protocol
}

proof fn lemma_listener_index(listeners: Seq<SocketAddr>, source: SocketAddr)
    ensures
        0 <= listener_index(listeners, source) <= listeners.len(),
        listener_index(listeners, source) < listeners.len() ==> host_of(
            listeners[listener_index(listeners, source)],
        ) == host_of(source),
    decreases listeners.len(),
{
    if listeners.len() > 0 && host_of(listeners[0]) != host_of(source) {
        lemma_listener_index(listeners.drop_first(), source);
    }
}

proof fn lemma_slot_found(
    slots: Seq<Slot>,
    listener: SocketAddr,
    assignment: Option<Assignment>,
    at: int,
)
    requires
        0 <= at < slots.len(),
        host_of(slots[at].udp) == host_of(listener),
        slots[at].assignment == assignment,
    ensures
        slot_index(slots, listener, assignment) <= at,
    decreases slots.len(),
{
    if !(host_of(slots[0].udp) == host_of(listener) && slots[0].assignment == assignment) {
        lemma_slot_found(slots.drop_first(), listener, assignment, at - 1);
    }
}

proof fn lemma_slot_host(slots: Seq<Slot>, listener: SocketAddr, assignment: Option<Assignment>)
    ensures
        slot_index(slots, listener, assignment) < slots.len() ==> host_of(
            slots[slot_index(slots, listener, assignment)].udp,
        ) == host_of(listener),
    decreases slots.len(),
{
    if slots.len() > 0 && !(host_of(slots[0].udp) == host_of(listener) && slots[0].assignment
        == assignment) {
        lemma_slot_index(slots.drop_first(), listener, assignment);
        lemma_slot_host(slots.drop_first(), listener, assignment);
    }
}

/// The proxy that a reflected request is sent to, and that its answer comes from.
proof fn lemma_reflected_tuple(state: RouterState, packet: Seq<u8>, interface: Interface)
    requires
        is_request(state, packet, interface),
    ensures
        ({
            let info = decoded(packet)->Ok_0;
            let proxy = proxy_of(state, info, interface);
            let out = reflected_request(state, packet, interface);
            let tuple = reflection(flow_of(info, interface), proxy.spec_port());
            &&& decoded(out) == Ok::<PacketInfo, PacketError>(
                PacketInfo {
                    source: tuple.source,
                    destination: tuple.destination,
                    protocol: info.protocol,
                },
            )
            &&& scoped_endpoint(tuple.destination, interface) == Some(proxy)
            &&& scoped_endpoint(tuple.source, interface) == Some(
                peer_of(scoped_endpoint(info.destination, interface)->0, info.source.spec_port()),
            )
            &&& state.listeners(info.protocol).contains(proxy)
        }),
{
    let info = decoded(packet)->Ok_0;
    let layout = layout_of(packet)->Ok_0;
    let source = scoped_endpoint(info.source, interface)->0;
    let listeners = state.listeners(info.protocol);
    lemma_listener_index(listeners, source);
    let proxy = proxy_of(state, info, interface);
    assert(listeners[listener_index(listeners, source)] == proxy);
    let tuple = reflection(flow_of(info, interface), proxy.spec_port());
    rewrite_then_decode(packet, layout, tuple.source, tuple.destination);
    assert(host_of(proxy) == host_of(source));
}

/// A repeated request of an established flow is reflected as the first one was, without
/// a registration; unless it closes its connection, the flow stays established.
proof fn lemma_repeated(
    state: RouterState,
    packet: Seq<u8>,
    interface: Interface,
    until_ms: u64,
    now_ms: u64,
)
    requires
        established(state, packet, interface, until_ms),
        state.last_ms <= now_ms < until_ms,
    ensures
        ({
            let (next, step) = state.begun(packet, interface, now_ms);
            &&& step == Step::Done(
                Ok::<Routed, RouteFault>(
                    Routed::Inbound {
                        packet: reflected_request(state, packet, interface),
                        interface,
                    },
                ),
            )
            &&& !closes(packet, layout_of(packet)->Ok_0) ==> established(
                next,
                packet,
                interface,
                until_ms,
            ) && reflected_request(next, packet, interface) == reflected_request(
                state,
                packet,
                interface,
            )
            &&& next.last_ms == now_ms
        }),
{
    let info = decoded(packet)->Ok_0;
    let flow = flow_of(info, interface);
    let port = proxy_of(state, info, interface).spec_port();
    let next = state.begun(packet, interface, now_ms).0;
    let live = state.flows.expired(now_ms);
    assert(!state.flows.elapsed(flow, now_ms));
    assert(live.active.dom().contains(flow));
    assert(live.active[flow] == state.flows.active[flow]);
    routing_keeps_flows_valid(state, packet, interface, now_ms);
    assert(next.slots == state.slots);
    assert(forall|source: SocketAddr|
        next.reserved(info.protocol, source) == state.reserved(info.protocol, source));
}

/// The answer to a reflected request of an established flow comes back as an answer of
/// the resolver to the client.
proof fn lemma_replied(
    state: RouterState,
    packet: Seq<u8>,
    interface: Interface,
    until_ms: u64,
    reply: Seq<u8>,
    now_ms: u64,
)
    requires
        established(state, packet, interface, until_ms),
        state.last_ms <= now_ms < until_ms,
        answers(reply, reflected_request(state, packet, interface)),
    ensures
        ({
            let info = decoded(packet)->Ok_0;
            let (next, step) = state.begun(reply, interface, now_ms);
            &&& step matches Step::Done(Ok(Routed::Inbound { packet: bytes, interface: out })) && out
                == interface && answers(bytes, packet)
            &&& !closes(reply, layout_of(reply)->Ok_0) ==> established(
                next,
                packet,
                interface,
                until_ms,
            ) && reflected_request(next, packet, interface) == reflected_request(
                state,
                packet,
                interface,
            )
            &&& next.last_ms == now_ms
        }),
{
    let info = decoded(packet)->Ok_0;
    let flow = flow_of(info, interface);
    let proxy = proxy_of(state, info, interface);
    let tuple = reflection(flow, proxy.spec_port());
    let next = state.begun(reply, interface, now_ms).0;
    let live = state.flows.expired(now_ms);
    let back = decoded(reply)->Ok_0;
    let layout = layout_of(reply)->Ok_0;
    lemma_reflected_tuple(state, packet, interface);
    assert(scoped_endpoint(back.source, interface) == Some(proxy));
    expiry_keeps_state_valid(state.flows, now_ms);
    assert(!state.flows.elapsed(flow, now_ms));
    assert(live.active.dom().contains(flow));
    assert(live.active[flow] == state.flows.active[flow]);
    assert(live.owns(flow, tuple));
    owner_is_unique(live, flow, tuple);
    assert(answered(back) == tuple);
    rewrite_then_decode(reply, layout, flow.resolver, flow.client);
    routing_keeps_flows_valid(state, reply, interface, now_ms);
    assert(next.slots == state.slots);
    assert(forall|source: SocketAddr|
        next.reserved(info.protocol, source) == state.reserved(info.protocol, source));
}

/// A new flow is registered once, before its request is injected: with the proxy and
/// the peer that the injected packet names, the resolver, and the lifetime of a flow.
/// Once the companion has answered, the flow is established until its deadline, which
/// for a flow that is new and does not close is the lifetime of flows away.
pub proof fn requests_are_registered_before_injection(
    state: RouterState,
    packet: Seq<u8>,
    interface: Interface,
    now_ms: u64,
)
    requires
        state.flows.valid(),
        state.begun(packet, interface, now_ms).1 is Register,
    ensures
        ({
            let (next, step) = state.begun(packet, interface, now_ms);
            let registration = step->registration;
            let pending = step->pending;
            let info = decoded(packet)->Ok_0;
            let flow = flow_of(info, interface);
            let (after, outcome) = next.finished(pending, Ok(()));
            let sent = decoded(pending.packet)->Ok_0;
            &&& is_request(state, packet, interface)
            &&& pending.packet == reflected_request(state, packet, interface)
            &&& reflected_request(after, packet, interface) == pending.packet
            &&& decoded(pending.packet) is Ok
            &&& registration.local == scoped_endpoint(sent.destination, interface)->0.spec_text()
            &&& registration.peer == scoped_endpoint(sent.source, interface)->0.spec_text()
            &&& registration.resolver == scoped_endpoint(
                info.destination,
                interface,
            )->0.spec_text()
            &&& registration.protocol == transport_name(info.protocol)
            &&& registration.lifetime_ms == 120_000
            &&& !state.registered.contains(flow)
            &&& outcome == Ok::<Routed, RouteFault>(
                Routed::Inbound { packet: pending.packet, interface },
            )
            &&& established(after, packet, interface, after.flows.active[flow].expires_at_ms)
            &&& after.last_ms == now_ms
            &&& !state.flows.expired(now_ms).active.dom().contains(flow) && !closes(
                packet,
                layout_of(packet)->Ok_0,
            ) ==> after.flows.active[flow].expires_at_ms == deadline_of(
                now_ms,
                state.flows.ttl_ms,
            )
        }),
{
    let (next, step) = state.begun(packet, interface, now_ms);
    let pending = step->pending;
    let info = decoded(packet)->Ok_0;
    let flow = flow_of(info, interface);
    let proxy = proxy_of(state, info, interface);
    let after = next.finished(pending, Ok(())).0;
    let source = scoped_endpoint(info.source, interface)->0;
    let resolver = scoped_endpoint(info.destination, interface)->0;
    let assignment = Assignment { protocol: info.protocol, resolver };
    lemma_listener_index(state.listeners(info.protocol), source);
    lemma_reflected_tuple(state, packet, interface);
    routing_keeps_flows_valid(state, packet, interface, now_ms);
    expiry_keeps_state_valid(state.flows, now_ms);
    lemma_slot_index(state.slots, proxy, Some(assignment));
    lemma_slot_index(state.slots, proxy, None);
    lemma_slot_host(state.slots, proxy, Some(assignment));
    lemma_slot_host(state.slots, proxy, None);
    let live = state.flows.expired(now_ms);
    if live.active.dom().contains(flow) {
        assert(live.active[flow].reflected == reflection(
            flow,
            live.active[flow].reflected.destination.spec_port(),
        ));
    }
    assert(next.flows.active[flow].reflected == reflection(flow, proxy.spec_port()));
    lemma_slot_found(after.slots, proxy, Some(assignment), pending.slot);
    lemma_slot_index(after.slots, proxy, Some(assignment));
    assert forall|endpoint: SocketAddr| after.reserved(info.protocol, endpoint) == state.reserved(
        info.protocol,
        endpoint,
    ) by {
        assert forall|i: int| 0 <= i < state.slots.len() implies (
        #[trigger] after.slots[i]).endpoint(info.protocol) == state.slots[i].endpoint(
            info.protocol,
        ) by {}
        if state.reserved(info.protocol, endpoint) {
            let i = choose|i: int|
                0 <= i < state.slots.len() && (#[trigger] state.slots[i]).endpoint(info.protocol)
                    == endpoint;
            assert(after.slots[i].endpoint(info.protocol) == endpoint);
        }
    }
}

/// While a flow is established its request is injected again without a registration, as
/// it was the first time, and the answer to it comes back as an answer of the resolver
/// to the client, on the interface of the request. Neither ends the flow, unless it
/// closes the connection, so that this holds of any number of them.
pub proof fn established_flows_need_no_registration(
    state: RouterState,
    packet: Seq<u8>,
    interface: Interface,
    until_ms: u64,
    reply: Seq<u8>,
    now_ms: u64,
)
    requires
        established(state, packet, interface, until_ms),
        state.last_ms <= now_ms < until_ms,
    ensures
        ({
            let out = reflected_request(state, packet, interface);
            let (repeated, again) = state.begun(packet, interface, now_ms);
            let (replied, back) = state.begun(reply, interface, now_ms);
            &&& again == Step::Done(
                Ok::<Routed, RouteFault>(Routed::Inbound { packet: out, interface }),
            )
            &&& !closes(packet, layout_of(packet)->Ok_0) ==> established(
                repeated,
                packet,
                interface,
                until_ms,
            ) && reflected_request(repeated, packet, interface) == out
            &&& answers(reply, out) ==> {
                &&& back matches Step::Done(
                    Ok(Routed::Inbound { packet: bytes, interface: own }),
                ) && own == interface && answers(bytes, packet)
                &&& !closes(reply, layout_of(reply)->Ok_0) ==> established(
                    replied,
                    packet,
                    interface,
                    until_ms,
                ) && reflected_request(replied, packet, interface) == out
            }
        }),
{
    lemma_repeated(state, packet, interface, until_ms, now_ms);
    if answers(reply, reflected_request(state, packet, interface)) {
        lemma_replied(state, packet, interface, until_ms, reply, now_ms);
    }
}

proof fn lemma_endpoints_plain(texts: Seq<String>)
    requires
        endpoints_of(texts) is Some,
    ensures
        forall|i: int|
            0 <= i < endpoints_of(texts)->0.len() ==> plain(#[trigger] endpoints_of(texts)->0[i]),
    decreases texts.len(),
{
    if texts.len() > 0 {
        lemma_endpoints_plain(texts.drop_last());
        reveal(socket_of);
    }
}

/// Whether an endpoint names no flow, as those that are read from a text.
spec fn plain(endpoint: SocketAddr) -> bool {
    endpoint matches SocketAddr::V6(v6) ==> v6.flowinfo == 0
}

proof fn lemma_slots_plain(slots: Seq<UpstreamSlot>)
    requires
        slots_of(slots) is Ok,
    ensures
        forall|i: int|
            0 <= i < slots_of(slots)->Ok_0.len() ==> plain(
                (#[trigger] slots_of(slots)->Ok_0[i]).udp,
            ) && slots_of(slots)->Ok_0[i].assignment is None,
    decreases slots.len(),
{
    if slots.len() > 0 {
        lemma_slots_plain(slots.drop_last());
        reveal(socket_of);
    }
}

/// A new router asks for the registration of the first request from each of its hosts
/// that comes from a port other than zero.
pub proof fn first_requests_are_registered(
    ready: DnsProcessStatus,
    packet: Seq<u8>,
    interface: Interface,
    now_ms: u64,
)
    requires
        router_for(ready) is Ok,
        is_request(router_for(ready)->Ok_0, packet, interface),
        decoded(packet)->Ok_0.source.spec_port() != 0,
    ensures
        router_for(ready)->Ok_0.flows.valid(),
        router_for(ready)->Ok_0.begun(packet, interface, now_ms).1 is Register,
        !closes(packet, layout_of(packet)->Ok_0) ==> ({
            let (next, step) = router_for(ready)->Ok_0.begun(packet, interface, now_ms);
            next.finished(
                step->pending,
                Ok(()),
            ).0.flows.active[flow_of(decoded(packet)->Ok_0, interface)].expires_at_ms
                == deadline_of(now_ms, 120_000)
        }),
{
    let state = router_for(ready)->Ok_0;
    let info = decoded(packet)->Ok_0;
    let source = scoped_endpoint(info.source, interface)->0;
    let resolver = scoped_endpoint(info.destination, interface)->0;
    let listeners = state.listeners(info.protocol);
    let config = filter_config(state.udp_listeners, state.tcp_listeners, state.slots);
    let at = listener_index(listeners, source);
    let proxy = proxy_of(state, info, interface);
    lemma_listener_index(listeners, source);
    lemma_endpoints_plain(ready.udp_addrs@);
    lemma_endpoints_plain(ready.tcp_addrs@);
    lemma_slots_plain(ready.slots@);
    assert(config.fault() is None);
    assert(config.listeners(info.protocol) == listeners);
    assert(listeners[at] == proxy);
    listeners_are_in_order(config, info.protocol, at);
    let k = upstreams_share_the_host(config, proxy.spec_ip());
    assert(config.udp_upstreams[k] == state.slots[k].udp);
    lemma_same_scope(config, proxy, state.slots[k].udp);
    assert(host_of(state.slots[k].udp) == host_of(proxy));
    lemma_slot_found(state.slots, proxy, None, k);
    let flow = flow_of(info, interface);
    let live = state.flows.expired(now_ms);
    assert(!live.active.dom().contains(flow));
    assert(live.owner(reflection(flow, proxy.spec_port())) is None);
    assert(live.quarantined_original =~= Set::empty());
    assert(live.quarantined_reflected =~= Set::empty());
    assert(proxy.spec_port() != info.source.spec_port()) by {
        if proxy.spec_port() == info.source.spec_port() {
            assert(host_of(proxy) == host_of(source));
            assert(proxy == source);
            assert(listeners.contains(source));
        }
    }
    assert(port_fault(info, proxy.spec_port()) is None);
}

proof fn lemma_same_scope(config: FilterView, first: SocketAddr, second: SocketAddr)
    requires
        config.fault() is None,
        config.local_ips.contains(first.spec_ip()),
        config.endpoints().contains(first),
        config.endpoints().contains(second),
        first.spec_ip() == second.spec_ip(),
        plain(first),
        plain(second),
    ensures
        host_of(first) == host_of(second),
{
    scopes_are_unambiguous(config, first.spec_ip());
    let all = config.endpoints();
    let i = choose|i: int| 0 <= i < all.len() && all[i] == first;
    let j = choose|j: int| 0 <= j < all.len() && all[j] == second;
    assert(all[i].spec_ip() == all[j].spec_ip());
    assert(scope_of(all[i]) == scope_of(all[j]));
}

/// Whether two endpoints are on the same host, whatever their ports.
pub open spec fn same_host(first: SocketAddr, second: SocketAddr) -> bool {
    match (first, second) {
        (SocketAddr::V4(a), SocketAddr::V4(b)) => a.ip == b.ip,
        (SocketAddr::V6(a), SocketAddr::V6(b)) => a.ip == b.ip && a.scope_id == b.scope_id
            && a.flowinfo == b.flowinfo,
        _ => false,
    }
}

/// Whether an endpoint means something only on a link: its address is in fe80::/10.
pub open spec fn on_a_link(endpoint: SocketAddr) -> bool {
    endpoint matches SocketAddr::V6(v6) && v6.ip.s0 / 64 == 0x3fa
}

/// An endpoint that was captured on an interface.
pub open spec fn captured_on(endpoint: SocketAddr, interface: Interface) -> SocketAddr {
    match endpoint {
        SocketAddr::V6(v6) => if on_a_link(endpoint) {
            SocketAddr::V6(SocketAddrV6 { scope_id: interface.index, flowinfo: 0, ..v6 })
        } else {
            endpoint
        },
        SocketAddr::V4(_) => endpoint,
    }
}

proof fn lemma_captured(endpoint: SocketAddr, interface: Interface)
    ensures
        scoped_endpoint(endpoint, interface) is None <==> on_a_link(endpoint) && interface.index
            == 0,
        scoped_endpoint(endpoint, interface) matches Some(own) ==> own == captured_on(
            endpoint,
            interface,
        ),
{
}

proof fn lemma_first_listener(listeners: Seq<SocketAddr>, source: SocketAddr)
    ensures
        ({
            let at = listener_index(listeners, source);
            &&& 0 <= at <= listeners.len()
            &&& at < listeners.len() ==> same_host(listeners[at], source)
            &&& forall|i: int| 0 <= i < at ==> !same_host(#[trigger] listeners[i], source)
        }),
    decreases listeners.len(),
{
    if listeners.len() > 0 && host_of(listeners[0]) != host_of(source) {
        let rest = listeners.drop_first();
        lemma_first_listener(rest, source);
        let at = listener_index(listeners, source);
        assert forall|i: int| 0 <= i < at implies !same_host(#[trigger] listeners[i], source) by {
            if i > 0 {
                assert(rest[i - 1] == listeners[i]);
            }
        }
    }
}

proof fn lemma_first_slot(slots: Seq<Slot>, listener: SocketAddr, assignment: Option<Assignment>)
    ensures
        ({
            let at = slot_index(slots, listener, assignment);
            &&& 0 <= at <= slots.len()
            &&& at < slots.len() ==> same_host(slots[at].udp, listener) && slots[at].assignment
                == assignment
            &&& forall|i: int|
                0 <= i < at ==> !(same_host((#[trigger] slots[i]).udp, listener)
                    && slots[i].assignment == assignment)
        }),
    decreases slots.len(),
{
    if slots.len() > 0 && !(host_of(slots[0].udp) == host_of(listener) && slots[0].assignment
        == assignment) {
        let rest = slots.drop_first();
        lemma_first_slot(rest, listener, assignment);
        let at = slot_index(slots, listener, assignment);
        assert forall|i: int| 0 <= i < at implies !(same_host((#[trigger] slots[i]).udp, listener)
            && slots[i].assignment == assignment) by {
            if i > 0 {
                assert(rest[i - 1] == slots[i]);
            }
        }
    }
}

/// The listeners of the transport of a packet.
pub open spec fn proxies(state: RouterState, protocol: Protocol) -> Seq<SocketAddr> {
    if protocol == Protocol::Udp {
        state.udp_listeners
    } else {
        state.tcp_listeners
    }
}

/// Whether an endpoint is one of the companion's own sockets of a transport.
pub open spec fn own_socket(slot: Slot, protocol: Protocol, endpoint: SocketAddr) -> bool {
    endpoint == if protocol == Protocol::Udp {
        slot.udp
    } else {
        slot.tcp
    }
}

/// What becomes of a packet goes by its endpoints. One that a listener of the proxy sent is
/// restored or discarded. Of the others only a request to port 53 from the host of a
/// listener, and not from one of the companion's own sockets, is reflected, and only while
/// requests are admitted; all else passes unchanged. An address that means something only
/// on a link needs an interface.
pub proof fn packets_are_routed_by_their_endpoints(
    state: RouterState,
    packet: Seq<u8>,
    interface: Interface,
    now_ms: u64,
)
    ensures
        ({
            let (next, step) = state.begun(packet, interface, now_ms);
            let info = decoded(packet)->Ok_0;
            let source = captured_on(info.source, interface);
            let listeners = proxies(state, info.protocol);
            let readable = now_ms >= state.last_ms && decoded(packet) is Ok;
            let placed = readable && !(on_a_link(info.source) && interface.index == 0);
            let proxy = exists|i: int| 0 <= i < listeners.len() && #[trigger] listeners[i] == source;
            let covered = exists|i: int|
                0 <= i < listeners.len() && same_host(#[trigger] listeners[i], source);
            let own = exists|i: int|
                0 <= i < state.slots.len() && own_socket(
                    #[trigger] state.slots[i],
                    info.protocol,
                    source,
                );
            let asks = host_and_port(info.destination).1 == 53 && covered && !own;
            &&& now_ms < state.last_ms ==> step == Step::Done(Err(RouteFault::ClockReversed))
                && next == state
            &&& now_ms >= state.last_ms ==> next.last_ms == now_ms
            &&& now_ms >= state.last_ms && decoded(packet) is Err ==> step == Step::Done(
                Err(RouteFault::InvalidPacket),
            )
            &&& readable && !placed ==> step == Step::Done(Err(RouteFault::InvalidInterface))
            &&& placed && proxy ==> {
                let (flows, restored) = state.flows.replied(packet, now_ms);
                &&& next.flows == flows
                &&& step == Step::Done(
                    match restored {
                        Ok((bytes, flow)) => if state.registered.contains(flow) {
                            Ok(Routed::Inbound { packet: bytes, interface: flow.interface })
                        } else {
                            Ok(Routed::Discard)
                        },
                        Err(error) => if error == FlowError::UnknownFlow {
                            Ok(Routed::Discard)
                        } else {
                            Err(RouteFault::Reflection(error))
                        },
                    },
                )
            }
            &&& placed && !proxy && !asks ==> step == Step::Done(Ok(Routed::Unchanged))
                && next.flows == state.flows
            &&& placed && !proxy && asks && !state.accepting ==> step == Step::Done(
                Err(RouteFault::Stopped),
            ) && next.flows == state.flows
            &&& placed && !proxy && asks && state.accepting && on_a_link(info.destination)
                && interface.index == 0 ==> step == Step::Done(Err(RouteFault::InvalidInterface))
            &&& step is Register ==> placed && !proxy && asks && state.accepting
            &&& next.registered == state.registered
            &&& next.slots == state.slots
            &&& next.accepting == state.accepting
        }),
{
    if let Ok(info) = decoded(packet) {
        lemma_captured(info.source, interface);
        lemma_captured(info.destination, interface);
        let source = captured_on(info.source, interface);
        let listeners = state.listeners(info.protocol);
        assert(listeners == proxies(state, info.protocol));
        lemma_first_listener(listeners, source);
        assert(listeners.contains(source) <==> exists|i: int|
            0 <= i < listeners.len() && #[trigger] listeners[i] == source);
        let at = listener_index(listeners, source);
        if at < listeners.len() {
            assert(same_host(listeners[at], source));
        }
        assert(state.reserved(info.protocol, source) <==> exists|i: int|
            0 <= i < state.slots.len() && own_socket(
                #[trigger] state.slots[i],
                info.protocol,
                source,
            )) by {
            if state.reserved(info.protocol, source) {
                let i = choose|i: int|
                    0 <= i < state.slots.len() && (#[trigger] state.slots[i]).endpoint(
                        info.protocol,
                    ) == source;
                assert(own_socket(state.slots[i], info.protocol, source));
            }
            if exists|i: int|
                0 <= i < state.slots.len() && own_socket(
                    #[trigger] state.slots[i],
                    info.protocol,
                    source,
                ) {
                let i = choose|i: int|
                    0 <= i < state.slots.len() && own_socket(
                        #[trigger] state.slots[i],
                        info.protocol,
                        source,
                    );
                assert(state.slots[i].endpoint(info.protocol) == source);
            }
        }
    }
}

/// A request is reflected to the first listener on its host. It needs a slot there that
/// already serves its resolver over its transport, else one that serves nobody; without
/// one, or once its key or the room for flows is used up, a fresh generation is needed. A
/// flow that is registered is injected at once; another one asks for a registration that
/// names the transport, the client's port at the resolver as its peer, the listener, the
/// resolver, the slot and two minutes.
pub proof fn requests_are_reflected_to_their_listener(
    state: RouterState,
    packet: Seq<u8>,
    interface: Interface,
    now_ms: u64,
    at: int,
)
    requires
        now_ms >= state.last_ms,
        decoded(packet) is Ok,
        ({
            let info = decoded(packet)->Ok_0;
            let source = captured_on(info.source, interface);
            let listeners = proxies(state, info.protocol);
            &&& interface.index != 0 || !on_a_link(info.source) && !on_a_link(info.destination)
            &&& host_and_port(info.destination).1 == 53
            &&& !listeners.contains(source)
            &&& 0 <= at < listeners.len() && same_host(listeners[at], source)
            &&& forall|i: int| 0 <= i < at ==> !same_host(#[trigger] listeners[i], source)
            &&& forall|i: int|
                0 <= i < state.slots.len() ==> !own_socket(
                    #[trigger] state.slots[i],
                    info.protocol,
                    source,
                )
        }),
        state.accepting,
    ensures
        ({
            let (next, step) = state.begun(packet, interface, now_ms);
            let info = decoded(packet)->Ok_0;
            let source = captured_on(info.source, interface);
            let resolver = captured_on(info.destination, interface);
            let listener = proxies(state, info.protocol)[at];
            let serving = Some(Assignment { protocol: info.protocol, resolver });
            let served = exists|i: int|
                0 <= i < state.slots.len() && same_host((#[trigger] state.slots[i]).udp, listener)
                    && state.slots[i].assignment == serving;
            let free = exists|i: int|
                0 <= i < state.slots.len() && same_host((#[trigger] state.slots[i]).udp, listener)
                    && state.slots[i].assignment is None;
            let (flows, reflected) = state.flows.requested(
                packet,
                interface,
                host_and_port(listener).1,
                now_ms,
            );
            &&& !served && !free ==> step == Step::Done(Err(RouteFault::RolloverRequired))
            &&& (served || free) && (reflected matches Err(error) && (error
                == FlowError::KeyQuarantined || error == FlowError::AtCapacity)) ==> step
                == Step::Done(Err(RouteFault::RolloverRequired))
            &&& (served || free) && (reflected matches Err(error) && error
                != FlowError::KeyQuarantined && error != FlowError::AtCapacity) ==> step
                == Step::Done(Err(RouteFault::Reflection(reflected->Err_0)))
            &&& (served || free) && reflected is Ok && state.registered.contains(
                reflected->Ok_0.1,
            ) ==> step == Step::Done(
                Ok(Routed::Inbound { packet: reflected->Ok_0.0, interface }),
            )
            &&& (served || free) && reflected is Ok && !state.registered.contains(
                reflected->Ok_0.1,
            ) ==> step is Register
            &&& step matches Step::Register { registration, pending } ==> {
                &&& pending.packet == reflected->Ok_0.0
                &&& pending.flow == reflected->Ok_0.1
                &&& Some(pending.assignment) == serving
                &&& 0 <= pending.slot < state.slots.len()
                &&& same_host(state.slots[pending.slot].udp, listener)
                &&& state.slots[pending.slot].assignment == if served {
                    serving
                } else {
                    None
                }
                &&& registration.slot == state.slots[pending.slot].id
                &&& registration.protocol == if info.protocol == Protocol::Udp {
                    "udp"@
                } else {
                    "tcp"@
                }
                &&& registration.local == listener.spec_text()
                &&& registration.resolver == resolver.spec_text()
                &&& registration.peer == (match resolver {
                    SocketAddr::V4(v4) => SocketAddr::V4(
                        SocketAddrV4 { port: host_and_port(info.source).1, ..v4 },
                    ),
                    SocketAddr::V6(v6) => SocketAddr::V6(
                        SocketAddrV6 { port: host_and_port(info.source).1, ..v6 },
                    ),
                }).spec_text()
                &&& registration.lifetime_ms == 120_000
            }
        }),
{
    let info = decoded(packet)->Ok_0;
    let source = captured_on(info.source, interface);
    let resolver = captured_on(info.destination, interface);
    let listeners = state.listeners(info.protocol);
    assert(listeners == proxies(state, info.protocol));
    lemma_captured(info.source, interface);
    lemma_captured(info.destination, interface);
    lemma_first_listener(listeners, source);
    let first = listener_index(listeners, source);
    if first < at {
        assert(!same_host(listeners[first], source));
    } else if at < first {
        assert(!same_host(listeners[at], source));
    }
    assert(first == at);
    let listener = listeners[at];
    let serving = Assignment { protocol: info.protocol, resolver };
    lemma_first_slot(state.slots, listener, Some(serving));
    lemma_first_slot(state.slots, listener, None);
    assert(!state.reserved(info.protocol, source)) by {
        if state.reserved(info.protocol, source) {
            let i = choose|i: int|
                0 <= i < state.slots.len() && (#[trigger] state.slots[i]).endpoint(info.protocol)
                    == source;
            assert(own_socket(state.slots[i], info.protocol, source));
        }
    }
    let used = slot_index(state.slots, listener, Some(serving));
    let unused = slot_index(state.slots, listener, None);
    if used < state.slots.len() {
        assert(same_host(state.slots[used].udp, listener));
    }
    if unused < state.slots.len() {
        assert(same_host(state.slots[unused].udp, listener));
    }
}

/// An answer to a registration is final: with a confirmation the request is injected as it
/// was reflected, on the interface of its flow, and its slot serves its resolver from then
/// on; with an error the message is passed on and no request is admitted any more.
/// Nothing else changes.
pub proof fn answers_to_registrations_are_final(
    state: RouterState,
    pending: PendingView,
    answer: Result<(), Seq<char>>,
)
    requires
        0 <= pending.slot < state.slots.len(),
    ensures
        ({
            let (next, outcome) = state.finished(pending, answer);
            &&& answer is Ok ==> {
                &&& outcome == Ok::<Routed, RouteFault>(
                    Routed::Inbound { packet: pending.packet, interface: pending.flow.interface },
                )
                &&& next.registered.contains(pending.flow)
                &&& next.slots[pending.slot].assignment == Some(pending.assignment)
                &&& next.accepting == state.accepting
            }
            &&& answer matches Err(message) ==> outcome == Err::<Routed, RouteFault>(
                RouteFault::Companion(message),
            ) && !next.accepting && next.slots == state.slots && next.registered
                == state.registered
            &&& forall|flow: OriginalFlow|
                flow != pending.flow ==> next.registered.contains(flow)
                    == state.registered.contains(flow)
            &&& next.slots.len() == state.slots.len()
            &&& forall|i: int|
                0 <= i < state.slots.len() ==> (#[trigger] next.slots[i]).udp == state.slots[i].udp
                    && next.slots[i].tcp == state.slots[i].tcp && next.slots[i].id
                    == state.slots[i].id && (i != pending.slot ==> next.slots[i]
                    == state.slots[i])
            &&& next.flows == state.flows
            &&& next.last_ms == state.last_ms
        }),
{
}

/// The router of a companion that is ready holds what the companion says: its listeners
/// and slots. It has room for 4096 flows of two minutes, which close after five seconds,
/// admits requests, and knows no flow yet.
pub proof fn routers_begin_empty(ready: DnsProcessStatus)
    ensures
        router_for(ready) matches Ok(state) ==> {
            &&& endpoints_of(ready.udp_addrs@) == Some(state.udp_listeners)
            &&& endpoints_of(ready.tcp_addrs@) == Some(state.tcp_listeners)
            &&& slots_of(ready.slots@) == Ok::<Seq<Slot>, Seq<char>>(state.slots)
            &&& state.flows.capacity == 4096
            &&& state.flows.ttl_ms == 120_000
            &&& state.flows.tcp_close_grace_ms == 5_000
            &&& state.flows.allocated == 0
            &&& forall|flow: OriginalFlow| !state.flows.active.dom().contains(flow)
            &&& forall|flow: OriginalFlow| !state.flows.quarantined_original.contains(flow)
            &&& forall|tuple: ReflectedTuple| !state.flows.quarantined_reflected.contains(tuple)
            &&& forall|flow: OriginalFlow| !state.registered.contains(flow)
            &&& state.accepting
            &&& state.last_ms == 0
        },
{
}

/// A list of texts names endpoints exactly where each text is one, in their order.
pub proof fn endpoints_are_read_one_by_one(texts: Seq<String>)
    ensures
        ({
            let outcome = endpoints_of(texts);
            &&& outcome is Some <==> forall|i: int|
                0 <= i < texts.len() ==> socket_of((#[trigger] texts[i])@) is Some
            &&& outcome matches Some(list) ==> list.len() == texts.len() && forall|i: int|
                0 <= i < texts.len() ==> socket_of((#[trigger] texts[i])@) == Some(list[i])
        }),
    decreases texts.len(),
{
    if texts.len() > 0 {
        let rest = texts.drop_last();
        endpoints_are_read_one_by_one(rest);
        assert forall|i: int| 0 <= i < rest.len() implies rest[i] == #[trigger] texts[i] by {}
        assert(texts.last() == texts[texts.len() - 1]);
        if endpoints_of(rest) is None {
            let i = choose|i: int|
                0 <= i < rest.len() && socket_of((#[trigger] rest[i])@) is None;
            assert(socket_of(texts[i]@) is None);
        }
        if forall|i: int| 0 <= i < texts.len() ==> socket_of((#[trigger] texts[i])@) is Some {
            assert forall|i: int| 0 <= i < rest.len() implies socket_of((#[trigger] rest[i])@)
                is Some by {
                assert(rest[i] == texts[i]);
            }
        }
    }
}

/// The slots of a companion are taken as it reports them, each free and under its own
/// number: the two endpoints of a slot are on one host, and no number comes twice.
pub proof fn slots_are_read_one_by_one(slots: Seq<UpstreamSlot>)
    ensures
        slots_of(slots) matches Ok(list) ==> {
            &&& list.len() == slots.len()
            &&& forall|i: int|
                0 <= i < slots.len() ==> {
                    &&& socket_of((#[trigger] slots[i]).udp_addr@) == Some(list[i].udp)
                    &&& socket_of(slots[i].tcp_addr@) == Some(list[i].tcp)
                    &&& same_host(list[i].udp, list[i].tcp)
                    &&& list[i].id == slots[i].id
                    &&& list[i].assignment is None
                }
            &&& forall|i: int, j: int|
                0 <= i < j < slots.len() ==> (#[trigger] slots[i]).id != (#[trigger] slots[j]).id
        },
        slots_of(slots) is Ok <==> {
            &&& forall|i: int|
                0 <= i < slots.len() ==> {
                    &&& socket_of((#[trigger] slots[i]).udp_addr@) matches Some(udp)
                    &&& socket_of(slots[i].tcp_addr@) matches Some(tcp)
                    &&& same_host(udp, tcp)
                }
            &&& forall|i: int, j: int|
                0 <= i < j < slots.len() ==> (#[trigger] slots[i]).id != (#[trigger] slots[j]).id
        },
    decreases slots.len(),
{
    if slots.len() > 0 {
        let rest = slots.drop_last();
        slots_are_read_one_by_one(rest);
        let n = slots.len() - 1;
        let last = slots[n];
        assert forall|i: int| 0 <= i < n implies rest[i] == #[trigger] slots[i] by {}
        if slots_of(rest) is Err {
            if forall|i: int|
                0 <= i < rest.len() ==> {
                    &&& socket_of((#[trigger] rest[i]).udp_addr@) matches Some(udp)
                    &&& socket_of(rest[i].tcp_addr@) matches Some(tcp)
                    &&& same_host(udp, tcp)
                } {
                let (i, j) = choose|i: int, j: int|
                    0 <= i < j < rest.len() && (#[trigger] rest[i]).id == (#[trigger] rest[j]).id;
                assert(slots[i].id == slots[j].id);
            } else {
                let i = choose|i: int|
                    0 <= i < rest.len() && !{
                        &&& socket_of((#[trigger] rest[i]).udp_addr@) matches Some(udp)
                        &&& socket_of(rest[i].tcp_addr@) matches Some(tcp)
                        &&& same_host(udp, tcp)
                    };
                assert(rest[i] == slots[i]);
            }
        } else {
            assert forall|i: int| 0 <= i < n implies {
                &&& socket_of((#[trigger] slots[i]).udp_addr@) matches Some(udp)
                &&& socket_of(slots[i].tcp_addr@) matches Some(tcp)
                &&& same_host(udp, tcp)
            } by {
                assert(rest[i] == slots[i]);
            }
            assert forall|i: int, j: int| 0 <= i < j < n implies (#[trigger] slots[i]).id != (
            #[trigger] slots[j]).id by {
                assert(rest[i].id != rest[j].id);
            }
            if slots_of(slots) is Ok {
                let list = slots_of(slots)->Ok_0;
                let front = slots_of(rest)->Ok_0;
                assert forall|i: int| 0 <= i < slots.len() implies {
                    &&& socket_of((#[trigger] slots[i]).udp_addr@) == Some(list[i].udp)
                    &&& socket_of(slots[i].tcp_addr@) == Some(list[i].tcp)
                    &&& same_host(list[i].udp, list[i].tcp)
                    &&& list[i].id == slots[i].id
                    &&& list[i].assignment is None
                } by {
                    if i < n {
                        assert(rest[i] == slots[i]);
                        assert(list[i] == front[i]);
                    }
                }
            }
        }
    }
}

/// The session of a companion has the addresses of its UDP listeners, its listeners, and
/// the sockets of its slots, each in their order.
pub proof fn sessions_are_those_of_the_companion(
    udp_listeners: Seq<SocketAddr>,
    tcp_listeners: Seq<SocketAddr>,
    slots: Seq<Slot>,
)
    ensures
        ({
            let config = filter_config(udp_listeners, tcp_listeners, slots);
            &&& config.udp_listeners == udp_listeners && config.tcp_listeners == tcp_listeners
            &&& config.local_ips.len() == udp_listeners.len()
            &&& forall|i: int|
                0 <= i < udp_listeners.len() ==> #[trigger] config.local_ips[i] == host_and_port(
                    udp_listeners[i],
                ).0
            &&& config.udp_upstreams.len() == slots.len() && config.tcp_upstreams.len()
                == slots.len()
            &&& forall|i: int|
                0 <= i < slots.len() ==> #[trigger] config.udp_upstreams[i] == slots[i].udp
            &&& forall|i: int|
                0 <= i < slots.len() ==> #[trigger] config.tcp_upstreams[i] == slots[i].tcp
        }),
{
}

/// The filters of a session are there exactly where it is complete and each has no more
/// than 32 kibibytes; there is one for every four addresses.
pub proof fn sessions_have_a_filter_for_four_addresses(config: FilterView)
    ensures
        ({
            let made = filters_of(config);
            let sorted = sorted_ips(config.local_ips);
            let count = (sorted.len() + 3) / 4;
            &&& made is Ok ==> complete(config)
            &&& made matches Ok(filters) ==> filters.len() == count && forall|k: int|
                0 <= k < count ==> #[trigger] filters[k] == filter_text(config, group(sorted, k))
                    && vstd::utf8::encode_utf8(filters[k]).len() <= 32 * 1024
            &&& complete(config) && made is Err ==> exists|k: int|
                0 <= k < count && vstd::utf8::encode_utf8(
                    #[trigger] filter_text(config, group(sorted, k)),
                ).len() > 32 * 1024
        }),
{
    complete_sessions_have_filters(config);
}

} // verus!
