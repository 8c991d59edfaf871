//! Bounded packet reflection for transparent DNS interception.
//!
//! This module owns the packet tuple and the lifetime of flows. Callers supply
//! the capture interface and a monotonic millisecond timestamp.

use crate::dns_packet::{
    bare_endpoint, bears, decode, decoded, host_and_port, in_tuple_or_checksum, info_of, layout_of,
    lemma_layout_bounds, on_wire, parse_layout, rewrite, rewritten,
    rewritten_packets_bear_their_tuple, sums_up, transport_number, transport_start, PacketError,
    PacketInfo, PacketLayout, Protocol,
};
use crate::net::{IpAddr, SocketAddr, SocketAddrV4, SocketAddrV6};
use vstd::prelude::*;
use vstd::set_lib::*;

verus! {

/// The identity of a capture interface, kept beside a packet and never on the wire.
#[derive(Clone, Copy, Debug, Hash, PartialEq, Eq, Structural)]
pub struct Interface {
    pub index: u32,
    pub sub_index: u32,
}

impl Interface {
    pub fn new(index: u32, sub_index: u32) -> (result: Self)
        ensures
            result.index == index,
            result.sub_index == sub_index,
    {
        Interface { index, sub_index }
    }
}

/// The flow from a client to a resolver as captured before reflection.
#[derive(Clone, Copy, Debug, PartialEq, Eq, Structural)]
pub struct OriginalFlow {
    pub client: SocketAddr,
    pub resolver: SocketAddr,
    pub protocol: Protocol,
    pub interface: Interface,
}

/// A rewritten packet and the flow through which it must be routed.
#[derive(Clone, Debug, PartialEq, Eq)]
pub struct ReflectedPacket {
    pub packet: Vec<u8>,
    pub original_flow: OriginalFlow,
}

/// The tuple of a reflected request.
#[derive(Clone, Copy, Debug, PartialEq, Eq, Structural)]
pub struct ReflectedTuple {
    pub source: SocketAddr,
    pub destination: SocketAddr,
    pub protocol: Protocol,
}

/// Why a packet is not reflected.
#[derive(Clone, Copy, Debug, PartialEq, Eq, Structural)]
pub enum FlowError {
    Packet(PacketError),
    InvalidClientPort,
    InvalidResolverPort,
    InvalidProxyPort,
    ProxyPortMismatch,
    ReflectedCollision,
    KeyQuarantined,
    AtCapacity,
    UnknownFlow,
    NotTcp,
}

/// What is kept of an active flow.
#[derive(Clone, Copy, Debug, PartialEq, Eq, Structural)]
pub struct ActiveFlow {
    pub reflected: ReflectedTuple,
    pub expires_at_ms: u64,
}

/// What a registry holds.
#[verifier::ext_equal]
pub ghost struct FlowState {
    pub capacity: nat,
    pub ttl_ms: u64,
    pub tcp_close_grace_ms: u64,
    pub allocated: nat,
    pub active: Map<OriginalFlow, ActiveFlow>,
    pub quarantined_original: Set<OriginalFlow>,
    pub quarantined_reflected: Set<ReflectedTuple>,
}

/// A deadline that stops at the end of time.
pub open spec fn deadline_of(now_ms: u64, duration_ms: u64) -> u64 {
    if now_ms + duration_ms > u64::MAX {
        u64::MAX
    } else {
        (now_ms + duration_ms) as u64
    }
}

/// The tuple of a request to `flow.resolver`, reflected to the proxy: it seems to
/// come from the resolver, on the client's port.
pub open spec fn reflection(flow: OriginalFlow, proxy_port: u16) -> ReflectedTuple {
    ReflectedTuple {
        source: bare_endpoint(flow.resolver.spec_ip(), flow.client.spec_port()),
        destination: bare_endpoint(flow.client.spec_ip(), proxy_port),
        protocol: flow.protocol,
    }
}

/// The reflected request that a reply answers.
pub open spec fn answered(info: PacketInfo) -> ReflectedTuple {
    ReflectedTuple { source: info.destination, destination: info.source, protocol: info.protocol }
}

/// The flow of a request captured on `interface`.
pub open spec fn flow_of(info: PacketInfo, interface: Interface) -> OriginalFlow {
    OriginalFlow {
        client: info.source,
        resolver: info.destination,
        protocol: info.protocol,
        interface,
    }
}

/// What is wrong with the ports of a request.
pub open spec fn port_fault(info: PacketInfo, proxy_port: u16) -> Option<FlowError> {
    if info.source.spec_port() == 0 {
        Some(FlowError::InvalidClientPort)
    } else if info.destination.spec_port() != 53 {
        Some(FlowError::InvalidResolverPort)
    } else if proxy_port == 0 || proxy_port == 53 || proxy_port == info.source.spec_port() {
        Some(FlowError::InvalidProxyPort)
    } else {
        None
    }
}

/// Whether a TCP packet carries FIN or RST.
pub open spec fn closes(packet: Seq<u8>, layout: PacketLayout) -> bool {
    let flags = packet[layout.offset + 13];
    layout.protocol == Protocol::Tcp && (flags % 2 == 1 || flags / 4 % 2 == 1)
}

impl FlowState {
    /// What every registry keeps: each allocation is active or quarantined, never
    /// both; no two active flows share a reflected tuple; and a row holds the
    /// reflection of its own flow.
    pub open spec fn valid(self) -> bool {
        &&& self.active.dom().finite()
        &&& self.quarantined_original.finite()
        &&& self.allocated == self.active.dom().len() + self.quarantined_original.len()
        &&& self.allocated <= self.capacity
        &&& self.active.dom().disjoint(self.quarantined_original)
        &&& forall|f: OriginalFlow|
            #![trigger self.active[f]]
            self.active.dom().contains(f) ==> {
                &&& !self.quarantined_reflected.contains(self.active[f].reflected)
                &&& self.active[f].reflected == reflection(
                    f,
                    self.active[f].reflected.destination.spec_port(),
                )
                &&& f.client == on_wire(f.client)
                &&& f.resolver == on_wire(f.resolver)
                &&& (f.client is V4) == (f.resolver is V4)
            }
        &&& forall|f: OriginalFlow, g: OriginalFlow|
            #![trigger self.active[f], self.active[g]]
            self.active.dom().contains(f) && self.active.dom().contains(g)
                && self.active[f].reflected == self.active[g].reflected ==> f == g
    }

    /// Whether `flow` is active and its deadline has passed.
    pub open spec fn elapsed(self, flow: OriginalFlow, now_ms: u64) -> bool {
        self.active.dom().contains(flow) && self.active[flow].expires_at_ms <= now_ms
    }

    /// The state once every elapsed flow is in quarantine.
    pub open spec fn expired(self, now_ms: u64) -> FlowState {
        FlowState {
            active: Map::new(
                |f: OriginalFlow| self.active.dom().contains(f) && !self.elapsed(f, now_ms),
                |f: OriginalFlow| self.active[f],
            ),
            quarantined_original: Set::new(
                |f: OriginalFlow| self.quarantined_original.contains(f) || self.elapsed(f, now_ms),
            ),
            quarantined_reflected: Set::new(
                |r: ReflectedTuple|
                    self.quarantined_reflected.contains(r) || exists|f: OriginalFlow|
                        #[trigger] self.elapsed(f, now_ms) && self.active[f].reflected == r,
            ),
            ..self
        }
    }

    /// Whether `flow` is the active flow with this reflected tuple.
    pub open spec fn owns(self, flow: OriginalFlow, reflected: ReflectedTuple) -> bool {
        self.active.dom().contains(flow) && self.active[flow].reflected == reflected
    }

    /// The active flow with this reflected tuple.
    pub open spec fn owner(self, reflected: ReflectedTuple) -> Option<OriginalFlow> {
        if exists|f: OriginalFlow| self.owns(f, reflected) {
            Some(choose|f: OriginalFlow| self.owns(f, reflected))
        } else {
            None
        }
    }

    /// The state with the deadline of `flow` no later than the close grace, where
    /// `closing` says that it closes.
    pub open spec fn closed(self, flow: OriginalFlow, closing: bool, now_ms: u64) -> FlowState {
        if closing && self.active.dom().contains(flow) {
            let row = self.active[flow];
            let grace = deadline_of(now_ms, self.tcp_close_grace_ms);
            FlowState {
                active: self.active.insert(
                    flow,
                    ActiveFlow {
                        expires_at_ms: if grace < row.expires_at_ms {
                            grace
                        } else {
                            row.expires_at_ms
                        },
                        ..row
                    },
                ),
                ..self
            }
        } else {
            self
        }
    }

    /// The state with a new active flow.
    pub open spec fn admitted(
        self,
        flow: OriginalFlow,
        reflected: ReflectedTuple,
        now_ms: u64,
    ) -> FlowState {
        FlowState {
            active: self.active.insert(
                flow,
                ActiveFlow { reflected, expires_at_ms: deadline_of(now_ms, self.ttl_ms) },
            ),
            allocated: self.allocated + 1,
            ..self
        }
    }

    /// What a request does, and what comes of it.
    pub open spec fn requested(
        self,
        packet: Seq<u8>,
        interface: Interface,
        proxy_port: u16,
        now_ms: u64,
    ) -> (FlowState, Result<(Seq<u8>, OriginalFlow), FlowError>) {
        match layout_of(packet) {
            Err(error) => (self, Err(FlowError::Packet(error))),
            Ok(layout) => {
                let info = info_of(packet, layout);
                let flow = flow_of(info, interface);
                let reflected = reflection(flow, proxy_port);
                let live = self.expired(now_ms);
                let answer = rewritten(packet, layout, reflected.source, reflected.destination);
                if port_fault(info, proxy_port) is Some {
                    (self, Err(port_fault(info, proxy_port)->0))
                } else if live.active.dom().contains(flow) {
                    if live.active[flow].reflected.destination.spec_port() != proxy_port {
                        (live, Err(FlowError::ProxyPortMismatch))
                    } else {
                        (live.closed(flow, closes(packet, layout), now_ms), Ok((answer, flow)))
                    }
                } else if live.quarantined_original.contains(flow)
                    || live.quarantined_reflected.contains(reflected) {
                    (live, Err(FlowError::KeyQuarantined))
                } else if live.owner(reflected) is Some {
                    (live, Err(FlowError::ReflectedCollision))
                } else if live.allocated >= live.capacity {
                    (live, Err(FlowError::AtCapacity))
                } else {
                    (
                        live.admitted(flow, reflected, now_ms).closed(
                            flow,
                            closes(packet, layout),
                            now_ms,
                        ),
                        Ok((answer, flow)),
                    )
                }
            },
        }
    }

    /// What a reply does, and what comes of it.
    pub open spec fn replied(self, packet: Seq<u8>, now_ms: u64) -> (
        FlowState,
        Result<(Seq<u8>, OriginalFlow), FlowError>,
    ) {
        match layout_of(packet) {
            Err(error) => (self, Err(FlowError::Packet(error))),
            Ok(layout) => {
                let live = self.expired(now_ms);
                match live.owner(answered(info_of(packet, layout))) {
                    None => (live, Err(FlowError::UnknownFlow)),
                    Some(flow) => (
                        live.closed(flow, closes(packet, layout), now_ms),
                        Ok((rewritten(packet, layout, flow.resolver, flow.client), flow)),
                    ),
                }
            },
        }
    }

    /// What observing a TCP packet does, and what comes of it.
    pub open spec fn observed(self, packet: Seq<u8>, interface: Interface, now_ms: u64) -> (
        FlowState,
        Result<(), FlowError>,
    ) {
        match layout_of(packet) {
            Err(error) => (self, Err(FlowError::Packet(error))),
            Ok(layout) => {
                let info = info_of(packet, layout);
                let live = self.expired(now_ms);
                let flow = flow_of(info, interface);
                if layout.protocol != Protocol::Tcp {
                    (self, Err(FlowError::NotTcp))
                } else if !closes(packet, layout) {
                    (live, Ok(()))
                } else if info.destination.spec_port() == 53 && live.active.dom().contains(flow) {
                    (live.closed(flow, true, now_ms), Ok(()))
                } else {
                    match live.owner(answered(info)) {
                        None => (live, Err(FlowError::UnknownFlow)),
                        Some(owner) => (live.closed(owner, true, now_ms), Ok(())),
                    }
                }
            },
        }
    }
}

/// A reflected tuple has at most one owner.
pub proof fn owner_is_unique(state: FlowState, flow: OriginalFlow, reflected: ReflectedTuple)
    requires
        state.valid(),
        state.owns(flow, reflected),
    ensures
        state.owner(reflected) == Some(flow),
{
    let found = choose|f: OriginalFlow| state.owns(f, reflected);
    assert(state.owns(found, reflected));
    assert(state.active[found].reflected == state.active[flow].reflected);
}

/// Expiry keeps what every registry keeps, and the number of allocations.
pub proof fn expiry_keeps_state_valid(state: FlowState, now_ms: u64)
    requires
        state.valid(),
    ensures
        state.expired(now_ms).valid(),
        state.expired(now_ms).allocated == state.allocated,
{
    let next = state.expired(now_ms);
    let all = state.active.dom();
    let gone = all.filter(|f: OriginalFlow| state.elapsed(f, now_ms));
    all.lemma_len_filter(|f: OriginalFlow| state.elapsed(f, now_ms));
    assert(gone.finite());
    assert(next.active.dom() =~= all.difference(gone));
    assert(next.quarantined_original =~= state.quarantined_original.union(gone));
    assert(gone.subset_of(all));
    lemma_set_disjoint_lens(state.quarantined_original, gone);
    lemma_set_difference_len(all, gone);
    vstd::set_lib::lemma_set_disjoint_lens(next.active.dom(), gone);
    assert(next.active.dom().union(gone) =~= all);
    assert forall|f: OriginalFlow|
        #![trigger next.active[f]]
        next.active.dom().contains(f) implies !next.quarantined_reflected.contains(
        next.active[f].reflected,
    ) by {
        assert(next.active[f] == state.active[f]);
        if next.quarantined_reflected.contains(next.active[f].reflected) {
            let g = choose|g: OriginalFlow| #[trigger]
                state.elapsed(g, now_ms) && state.active[g].reflected == state.active[f].reflected;
            assert(state.active[g].reflected == state.active[f].reflected);
            assert(f == g);
        }
    }
    assert forall|f: OriginalFlow, g: OriginalFlow|
        #![trigger next.active[f], next.active[g]]
        next.active.dom().contains(f) && next.active.dom().contains(g) && next.active[f].reflected
            == next.active[g].reflected implies f == g by {
        assert(state.active[f].reflected == state.active[g].reflected);
    }
}

/// A new flow under a new reflected tuple keeps what every registry keeps.
proof fn lemma_admitted(
    state: FlowState,
    flow: OriginalFlow,
    proxy_port: u16,
    now_ms: u64,
)
    requires
        state.valid(),
        !state.active.dom().contains(flow),
        !state.quarantined_original.contains(flow),
        !state.quarantined_reflected.contains(reflection(flow, proxy_port)),
        state.owner(reflection(flow, proxy_port)) is None,
        state.allocated < state.capacity,
        flow.client == on_wire(flow.client),
        flow.resolver == on_wire(flow.resolver),
        (flow.client is V4) == (flow.resolver is V4),
    ensures
        state.admitted(flow, reflection(flow, proxy_port), now_ms).valid(),
{
    let reflected = reflection(flow, proxy_port);
    let next = state.admitted(flow, reflected, now_ms);
    assert(next.active.dom() =~= state.active.dom().insert(flow));
    assert(reflected.destination.spec_port() == proxy_port);
    assert forall|f: OriginalFlow, g: OriginalFlow|
        #![trigger next.active[f], next.active[g]]
        next.active.dom().contains(f) && next.active.dom().contains(g) && next.active[f].reflected
            == next.active[g].reflected implies f == g by {
        if f != flow && g != flow {
            assert(state.active[f].reflected == state.active[g].reflected);
        } else if f != flow {
            assert(state.owns(f, reflected));
        } else if g != flow {
            assert(state.owns(g, reflected));
        }
    }
    assert forall|f: OriginalFlow| #![trigger next.active[f]] next.active.dom().contains(f) implies {
        &&& !next.quarantined_reflected.contains(next.active[f].reflected)
        &&& next.active[f].reflected == reflection(
            f,
            next.active[f].reflected.destination.spec_port(),
        )
        &&& f.client == on_wire(f.client)
        &&& f.resolver == on_wire(f.resolver)
        &&& (f.client is V4) == (f.resolver is V4)
    } by {
        if f != flow {
            assert(next.active[f] == state.active[f]);
        }
    }
}

/// A nearer deadline keeps what every registry keeps.
proof fn lemma_closed(state: FlowState, flow: OriginalFlow, closing: bool, now_ms: u64)
    requires
        state.valid(),
    ensures
        state.closed(flow, closing, now_ms).valid(),
{
    let next = state.closed(flow, closing, now_ms);
    assert(next.active.dom() =~= state.active.dom());
    assert forall|f: OriginalFlow| #![trigger next.active[f]] next.active.dom().contains(
        f,
    ) implies next.active[f].reflected == state.active[f].reflected by {}
    assert forall|f: OriginalFlow, g: OriginalFlow|
        #![trigger next.active[f], next.active[g]]
        next.active.dom().contains(f) && next.active.dom().contains(g) && next.active[f].reflected
            == next.active[g].reflected implies f == g by {
        assert(state.active[f].reflected == state.active[g].reflected);
    }
}

/// A request keeps what every registry keeps.
pub proof fn request_keeps_state_valid(
    state: FlowState,
    packet: Seq<u8>,
    interface: Interface,
    proxy_port: u16,
    now_ms: u64,
)
    requires
        state.valid(),
    ensures
        state.requested(packet, interface, proxy_port, now_ms).0.valid(),
{
    expiry_keeps_state_valid(state, now_ms);
    if let Ok(layout) = layout_of(packet) {
        let live = state.expired(now_ms);
        let info = info_of(packet, layout);
        let flow = flow_of(info, interface);
        let reflected = reflection(flow, proxy_port);
        lemma_closed(live, flow, closes(packet, layout), now_ms);
        if !live.active.dom().contains(flow) && !live.quarantined_original.contains(flow)
            && !live.quarantined_reflected.contains(reflected) && live.owner(reflected) is None
            && live.allocated < live.capacity {
            lemma_admitted(live, flow, proxy_port, now_ms);
            lemma_closed(
                live.admitted(flow, reflected, now_ms),
                flow,
                closes(packet, layout),
                now_ms,
            );
        }
    }
}

/// A reply keeps what every registry keeps.
pub proof fn reply_keeps_state_valid(state: FlowState, packet: Seq<u8>, now_ms: u64)
    requires
        state.valid(),
    ensures
        state.replied(packet, now_ms).0.valid(),
{
    expiry_keeps_state_valid(state, now_ms);
    if let Ok(layout) = layout_of(packet) {
        let live = state.expired(now_ms);
        if let Some(flow) = live.owner(answered(info_of(packet, layout))) {
            lemma_closed(live, flow, closes(packet, layout), now_ms);
        }
    }
}

/// Observing a packet keeps what every registry keeps.
pub proof fn observation_keeps_state_valid(
    state: FlowState,
    packet: Seq<u8>,
    interface: Interface,
    now_ms: u64,
)
    requires
        state.valid(),
    ensures
        state.observed(packet, interface, now_ms).0.valid(),
{
    expiry_keeps_state_valid(state, now_ms);
    if let Ok(layout) = layout_of(packet) {
        let live = state.expired(now_ms);
        let info = info_of(packet, layout);
        lemma_closed(live, flow_of(info, interface), true, now_ms);
        if let Some(owner) = live.owner(answered(info)) {
            lemma_closed(live, owner, true, now_ms);
        }
    }
}

/// Quarantine is permanent: no request, reply or observation takes a key out of
/// it, and none frees an allocation.
pub proof fn quarantine_is_permanent(
    state: FlowState,
    packet: Seq<u8>,
    interface: Interface,
    proxy_port: u16,
    now_ms: u64,
)
    ensures
        ({
            let after_request = state.requested(packet, interface, proxy_port, now_ms).0;
            let after_reply = state.replied(packet, now_ms).0;
            let after_observation = state.observed(packet, interface, now_ms).0;
            &&& state.quarantined_original.subset_of(after_request.quarantined_original)
            &&& state.quarantined_reflected.subset_of(after_request.quarantined_reflected)
            &&& state.allocated <= after_request.allocated
            &&& state.quarantined_original.subset_of(after_reply.quarantined_original)
            &&& state.quarantined_reflected.subset_of(after_reply.quarantined_reflected)
            &&& state.allocated == after_reply.allocated
            &&& state.quarantined_original.subset_of(after_observation.quarantined_original)
            &&& state.quarantined_reflected.subset_of(after_observation.quarantined_reflected)
            &&& state.allocated == after_observation.allocated
        }),
{
}

/// A request on a quarantined key is refused, whatever its time.
pub proof fn quarantined_keys_are_refused(
    state: FlowState,
    packet: Seq<u8>,
    interface: Interface,
    proxy_port: u16,
    now_ms: u64,
)
    requires
        state.valid(),
        decoded(packet) matches Ok(info) && port_fault(info, proxy_port) is None
            && state.quarantined_original.contains(flow_of(info, interface)),
    ensures
        state.requested(packet, interface, proxy_port, now_ms).1 == Err::<
            (Seq<u8>, OriginalFlow),
            FlowError,
        >(FlowError::KeyQuarantined),
{
}

/// A retry of an active flow reuses its row: nothing is allocated, and the
/// deadline does not move away.
pub proof fn retry_does_not_extend_the_deadline(
    state: FlowState,
    packet: Seq<u8>,
    interface: Interface,
    proxy_port: u16,
    now_ms: u64,
)
    requires
        state.valid(),
        decoded(packet) matches Ok(info) && port_fault(info, proxy_port) is None
            && state.expired(now_ms).active.dom().contains(flow_of(info, interface)),
    ensures
        ({
            let flow = flow_of(decoded(packet)->Ok_0, interface);
            let next = state.requested(packet, interface, proxy_port, now_ms).0;
            &&& next.allocated == state.allocated
            &&& next.active.dom().contains(flow)
            &&& next.active[flow].expires_at_ms <= state.active[flow].expires_at_ms
            &&& next.active[flow].reflected == state.active[flow].reflected
        }),
{
}

/// A flow whose deadline has passed is active no more, and both of its keys are in
/// quarantine; every other flow keeps its row.
pub proof fn expired_flows_are_quarantined(state: FlowState, flow: OriginalFlow, now_ms: u64)
    requires
        state.active.dom().contains(flow),
    ensures
        ({
            let next = state.expired(now_ms);
            if state.active[flow].expires_at_ms <= now_ms {
                &&& !next.active.dom().contains(flow)
                &&& next.quarantined_original.contains(flow)
                &&& next.quarantined_reflected.contains(state.active[flow].reflected)
            } else {
                &&& next.active.dom().contains(flow)
                &&& next.active[flow] == state.active[flow]
            }
        }),
{
    if state.active[flow].expires_at_ms <= now_ms {
        assert(state.elapsed(flow, now_ms));
    }
}

/// A request that was reflected to one port of the proxy is not reflected to another
/// one while its flow is active, and the attempt changes nothing beyond expiry.
pub proof fn changed_proxy_ports_are_refused(
    state: FlowState,
    packet: Seq<u8>,
    interface: Interface,
    first_port: u16,
    sent_ms: u64,
    second_port: u16,
    now_ms: u64,
)
    requires
        state.valid(),
        state.requested(packet, interface, first_port, sent_ms).1 is Ok,
        second_port != first_port,
        port_fault(decoded(packet)->Ok_0, second_port) is None,
        ({
            let (sent, outcome) = state.requested(packet, interface, first_port, sent_ms);
            now_ms < sent.active[outcome->Ok_0.1].expires_at_ms
        }),
    ensures
        ({
            let sent = state.requested(packet, interface, first_port, sent_ms).0;
            let (next, outcome) = sent.requested(packet, interface, second_port, now_ms);
            &&& outcome matches Err(error) && error == FlowError::ProxyPortMismatch
            &&& next == sent.expired(now_ms)
        }),
{
    let (sent, outcome) = state.requested(packet, interface, first_port, sent_ms);
    let flow = outcome->Ok_0.1;
    expiry_keeps_state_valid(state, sent_ms);
    assert(sent.active.dom().contains(flow));
    assert(sent.active[flow].reflected.destination.spec_port() == first_port);
    assert(!sent.elapsed(flow, now_ms));
    assert(sent.expired(now_ms).active.dom().contains(flow));
}

/// A flow that closes is never kept longer for it, and it stays active until the grace
/// is over, if it would have been active that long at all.
pub proof fn closing_flows_stay_through_the_grace(
    state: FlowState,
    flow: OriginalFlow,
    closed_ms: u64,
    now_ms: u64,
)
    requires
        state.active.dom().contains(flow),
    ensures
        ({
            let next = state.closed(flow, true, closed_ms);
            let before = state.active[flow].expires_at_ms;
            let grace = deadline_of(closed_ms, state.tcp_close_grace_ms);
            &&& next.active[flow].reflected == state.active[flow].reflected
            &&& next.active[flow].expires_at_ms <= before
            &&& next.expired(now_ms).active.dom().contains(flow) == (now_ms < before && now_ms
                < grace)
        }),
{
    let next = state.closed(flow, true, closed_ms);
    assert(next.active.dom().contains(flow));
    assert(next.elapsed(flow, now_ms) == (next.active[flow].expires_at_ms <= now_ms));
}

/// A reply to a reflected request, while its flow is active, comes back as an
/// answer of the resolver to the client, with the interface of the request.
pub proof fn reply_restores_the_request(
    state: FlowState,
    request: Seq<u8>,
    interface: Interface,
    proxy_port: u16,
    sent_ms: u64,
    reply: Seq<u8>,
    now_ms: u64,
)
    requires
        state.valid(),
        state.requested(request, interface, proxy_port, sent_ms).1 is Ok,
        ({
            let (sent, outcome) = state.requested(request, interface, proxy_port, sent_ms);
            let flow = outcome->Ok_0.1;
            let reflected = decoded(outcome->Ok_0.0)->Ok_0;
            &&& decoded(reply) matches Ok(info)
            &&& info.source == reflected.destination
            &&& info.destination == reflected.source
            &&& info.protocol == reflected.protocol
            &&& now_ms < sent.active[flow].expires_at_ms
        }),
    ensures
        ({
            let (sent, outcome) = state.requested(request, interface, proxy_port, sent_ms);
            let original = decoded(request)->Ok_0;
            let answer = sent.replied(reply, now_ms).1;
            &&& answer is Ok
            &&& answer->Ok_0.1 == flow_of(original, interface)
            &&& decoded(answer->Ok_0.0) == Ok::<PacketInfo, PacketError>(
                PacketInfo {
                    source: original.destination,
                    destination: original.source,
                    protocol: original.protocol,
                },
            )
        }),
{
    let (sent, outcome) = state.requested(request, interface, proxy_port, sent_ms);
    let layout = layout_of(request)->Ok_0;
    let original = info_of(request, layout);
    let flow = flow_of(original, interface);
    let reflected = reflection(flow, proxy_port);
    expiry_keeps_state_valid(state, sent_ms);
    request_keeps_state_valid(state, request, interface, proxy_port, sent_ms);
    expiry_keeps_state_valid(sent, now_ms);
    crate::dns_packet::rewrite_then_decode(
        request,
        layout,
        reflected.source,
        reflected.destination,
    );
    let live = sent.expired(now_ms);
    assert(sent.active[flow].reflected == reflected);
    assert(live.owns(flow, reflected));
    owner_is_unique(live, flow, reflected);
    let reply_layout = layout_of(reply)->Ok_0;
    assert(answered(info_of(reply, reply_layout)) == reflected);
    crate::dns_packet::rewrite_then_decode(reply, reply_layout, flow.resolver, flow.client);
}

/// A packet that answers no active flow changes nothing beyond expiry.
pub proof fn unknown_replies_change_nothing(state: FlowState, packet: Seq<u8>, now_ms: u64)
    ensures
        state.replied(packet, now_ms).1 is Err ==> state.replied(packet, now_ms).0 == state
            || state.replied(packet, now_ms).0 == state.expired(now_ms),
{
}

/// Whether a packet is a TCP packet with the bit of FIN or that of RST.
pub open spec fn fin_or_rst(packet: Seq<u8>) -> bool {
    transport_number(packet) == 6 && packet[transport_start(packet) + 13] & 0x05u8 != 0
}

/// Whether a flow is active and its deadline is still ahead.
pub open spec fn alive(state: FlowState, flow: OriginalFlow, now_ms: u64) -> bool {
    state.active.dom().contains(flow) && now_ms < state.active[flow].expires_at_ms
}

/// A moment, or the last one there is.
pub open spec fn moment(at: int) -> int {
    if at < u64::MAX {
        at
    } else {
        u64::MAX as int
    }
}

/// The sooner of two moments.
pub open spec fn sooner(first: int, second: int) -> int {
    if first < second {
        first
    } else {
        second
    }
}

proof fn lemma_close_bits(packet: Seq<u8>)
    requires
        decoded(packet) is Ok,
    ensures
        closes(packet, layout_of(packet)->Ok_0) == fin_or_rst(packet),
{
    lemma_layout_bounds(packet);
    let flags = packet[transport_start(packet) + 13];
    assert(flags & 0x05u8 != 0 <==> flags % 2 == 1 || flags / 4 % 2 == 1) by (bit_vector);
}

/// Only a FIN or an RST moves the deadline of an active flow, and only nearer. Whatever
/// else a packet is, the flows whose deadline is ahead keep it, and stay active with their
/// reflected tuple.
pub proof fn only_fin_and_rst_move_deadlines(
    state: FlowState,
    packet: Seq<u8>,
    interface: Interface,
    proxy_port: u16,
    now_ms: u64,
    flow: OriginalFlow,
)
    requires
        state.valid(),
        alive(state, flow, now_ms),
    ensures
        ({
            let requested = state.requested(packet, interface, proxy_port, now_ms).0.active;
            let replied = state.replied(packet, now_ms).0.active;
            let observed = state.observed(packet, interface, now_ms).0.active;
            let before = state.active[flow];
            &&& requested.dom().contains(flow) && requested[flow].reflected == before.reflected
            &&& replied.dom().contains(flow) && replied[flow].reflected == before.reflected
            &&& observed.dom().contains(flow) && observed[flow].reflected == before.reflected
            &&& decoded(packet) is Err || !fin_or_rst(packet) ==> {
                &&& requested[flow].expires_at_ms == before.expires_at_ms
                &&& replied[flow].expires_at_ms == before.expires_at_ms
                &&& observed[flow].expires_at_ms == before.expires_at_ms
            }
            &&& requested[flow].expires_at_ms <= before.expires_at_ms
            &&& replied[flow].expires_at_ms <= before.expires_at_ms
            &&& observed[flow].expires_at_ms <= before.expires_at_ms
        }),
{
    let live = state.expired(now_ms);
    assert(!state.elapsed(flow, now_ms));
    assert(live.active.dom().contains(flow) && live.active[flow] == state.active[flow]);
    if decoded(packet) is Ok {
        lemma_close_bits(packet);
    }
}

/// A flow that a request brings in lives for its whole time; one that a FIN or an RST
/// brings in, or a request or a reply with such a bit belongs to, ends after the grace at
/// the latest.
pub proof fn flows_live_their_time_unless_they_close(
    state: FlowState,
    packet: Seq<u8>,
    interface: Interface,
    proxy_port: u16,
    now_ms: u64,
)
    requires
        state.valid(),
    ensures
        ({
            let (next, outcome) = state.requested(packet, interface, proxy_port, now_ms);
            let flow = outcome->Ok_0.1;
            let whole = if alive(state, flow, now_ms) {
                state.active[flow].expires_at_ms as int
            } else {
                moment(now_ms + state.ttl_ms)
            };
            outcome is Ok ==> next.active.dom().contains(flow) && next.active[flow].expires_at_ms
                == if fin_or_rst(packet) {
                sooner(whole, moment(now_ms + state.tcp_close_grace_ms))
            } else {
                whole
            }
        }),
        ({
            let (next, outcome) = state.replied(packet, now_ms);
            let flow = outcome->Ok_0.1;
            let whole = state.active[flow].expires_at_ms as int;
            outcome is Ok ==> alive(state, flow, now_ms) && next.active.dom().contains(flow)
                && next.active[flow].expires_at_ms == if fin_or_rst(packet) {
                sooner(whole, moment(now_ms + state.tcp_close_grace_ms))
            } else {
                whole
            }
        }),
{
    let live = state.expired(now_ms);
    if let Ok(layout) = layout_of(packet) {
        lemma_close_bits(packet);
        let reflected = answered(info_of(packet, layout));
        if let Some(flow) = live.owner(reflected) {
            assert(live.owns(flow, reflected));
            assert(!state.elapsed(flow, now_ms));
        }
        let flow = flow_of(info_of(packet, layout), interface);
        if state.active.dom().contains(flow) {
            assert(state.elapsed(flow, now_ms) == !alive(state, flow, now_ms));
        }
    }
}

/// A FIN or an RST that is observed on an active flow, in the direction of the request or
/// of the reply, ends that flow after the grace at the latest; on no flow it is unknown.
/// A TCP packet without such a bit is taken, and a packet that is not TCP is not.
pub proof fn observed_closes_shorten_their_flow(
    state: FlowState,
    packet: Seq<u8>,
    interface: Interface,
    now_ms: u64,
    flow: OriginalFlow,
)
    requires
        state.valid(),
        decoded(packet) is Ok,
    ensures
        ({
            let info = decoded(packet)->Ok_0;
            let (next, outcome) = state.observed(packet, interface, now_ms);
            let asks = flow == (OriginalFlow {
                client: info.source,
                resolver: info.destination,
                protocol: Protocol::Tcp,
                interface,
            }) && host_and_port(info.destination).1 == 53;
            let answers = state.active[flow].reflected == (ReflectedTuple {
                source: info.destination,
                destination: info.source,
                protocol: Protocol::Tcp,
            });
            &&& transport_number(packet) != 6 ==> outcome == Err::<(), FlowError>(
                FlowError::NotTcp,
            ) && next == state
            &&& transport_number(packet) == 6 && !fin_or_rst(packet) ==> outcome is Ok
            &&& fin_or_rst(packet) && alive(state, flow, now_ms) && asks ==> outcome is Ok
                && next.active[flow].expires_at_ms == sooner(
                state.active[flow].expires_at_ms as int,
                moment(now_ms + state.tcp_close_grace_ms),
            )
            &&& fin_or_rst(packet) && alive(state, flow, now_ms) && answers && host_and_port(
                info.destination,
            ).1 != 53 ==> outcome is Ok && next.active[flow].expires_at_ms == sooner(
                state.active[flow].expires_at_ms as int,
                moment(now_ms + state.tcp_close_grace_ms),
            )
            &&& alive(state, flow, now_ms) && !asks && !answers ==> next.active[flow]
                == state.active[flow]
            &&& outcome matches Err(error) ==> error == FlowError::NotTcp || error
                == FlowError::UnknownFlow
            &&& outcome == Err::<(), FlowError>(FlowError::UnknownFlow) && alive(
                state,
                flow,
                now_ms,
            ) ==> !asks && !answers
        }),
{
    let layout = layout_of(packet)->Ok_0;
    let info = info_of(packet, layout);
    let live = state.expired(now_ms);
    lemma_layout_bounds(packet);
    lemma_close_bits(packet);
    expiry_keeps_state_valid(state, now_ms);
    if state.active.dom().contains(flow) {
        assert(state.elapsed(flow, now_ms) == !alive(state, flow, now_ms));
    }
    if alive(state, flow, now_ms) && live.owns(flow, answered(info)) {
        owner_is_unique(live, flow, answered(info));
    }
    if let Some(owner) = live.owner(answered(info)) {
        assert(live.owns(owner, answered(info)));
        assert(!state.elapsed(owner, now_ms));
    }
}

/// An endpoint of an address and a port alone.
pub open spec fn plain_endpoint(ip: IpAddr, port: u16) -> SocketAddr {
    match ip {
        IpAddr::V4(ip) => SocketAddr::V4(SocketAddrV4 { ip, port }),
        IpAddr::V6(ip) => SocketAddr::V6(SocketAddrV6 { ip, port, flowinfo: 0, scope_id: 0 }),
    }
}

/// A request is reflected exactly where it comes from a port other than 0 and goes to port
/// 53, the port of the proxy is neither of these nor 0, and its flow is active on that
/// port or, with room left, neither it nor its reflected tuple was ever used. Each refusal
/// names the first of these that fails.
pub proof fn requests_are_reflected_or_refused(
    state: FlowState,
    packet: Seq<u8>,
    interface: Interface,
    proxy_port: u16,
    now_ms: u64,
)
    requires
        state.valid(),
        decoded(packet) is Ok,
    ensures
        ({
            let info = decoded(packet)->Ok_0;
            let (client, client_port) = host_and_port(info.source);
            let (resolver, resolver_port) = host_and_port(info.destination);
            let flow = OriginalFlow {
                client: info.source,
                resolver: info.destination,
                protocol: info.protocol,
                interface,
            };
            let tuple = ReflectedTuple {
                source: plain_endpoint(resolver, client_port),
                destination: plain_endpoint(client, proxy_port),
                protocol: info.protocol,
            };
            let (next, outcome) = state.requested(packet, interface, proxy_port, now_ms);
            let ports = client_port != 0 && resolver_port == 53 && proxy_port != 0 && proxy_port
                != 53 && proxy_port != client_port;
            let used = state.quarantined_original.contains(flow) || state.active.dom().contains(
                flow,
            ) || state.quarantined_reflected.contains(tuple) || exists|other: OriginalFlow|
                state.active.dom().contains(other) && !alive(state, other, now_ms)
                    && #[trigger] state.active[other].reflected == tuple;
            let taken = exists|other: OriginalFlow|
                alive(state, other, now_ms) && #[trigger] state.active[other].reflected == tuple;
            &&& client_port == 0 ==> (outcome matches Err(error) && error
                == FlowError::InvalidClientPort)
            &&& client_port != 0 && resolver_port != 53 ==> (outcome matches Err(error) && error
                == FlowError::InvalidResolverPort)
            &&& client_port != 0 && resolver_port == 53 && !ports ==> (outcome matches Err(error) && error
                == FlowError::InvalidProxyPort)
            &&& !ports ==> next == state
            &&& ports && alive(state, flow, now_ms) ==> {
                if host_and_port(state.active[flow].reflected.destination).1 == proxy_port {
                    outcome is Ok && next.allocated == state.allocated
                } else {
                    outcome matches Err(error) && error == FlowError::ProxyPortMismatch
                }
            }
            &&& ports && !alive(state, flow, now_ms) && used ==> (outcome matches Err(error) && error
                == FlowError::KeyQuarantined)
            &&& ports && !alive(state, flow, now_ms) && !used && taken ==> (outcome matches Err(error) && error
                == FlowError::ReflectedCollision)
            &&& ports && !alive(state, flow, now_ms) && !used && !taken && state.allocated
                >= state.capacity ==> (outcome matches Err(error) && error
                == FlowError::AtCapacity)
            &&& ports && !alive(state, flow, now_ms) && !used && !taken && state.allocated
                < state.capacity ==> outcome is Ok && next.allocated == state.allocated + 1
            &&& outcome is Ok ==> {
                &&& outcome->Ok_0.1 == flow
                &&& next.active.dom().contains(flow)
                &&& next.active[flow].reflected == tuple
                &&& bears(outcome->Ok_0.0, tuple.source, tuple.destination)
                &&& sums_up(outcome->Ok_0.0)
                &&& outcome->Ok_0.0.len() == packet.len()
                &&& forall|i: int|
                    0 <= i < packet.len() && !in_tuple_or_checksum(packet, i)
                        ==> #[trigger] outcome->Ok_0.0[i] == packet[i]
            }
        }),
{
    let layout = layout_of(packet)->Ok_0;
    let info = info_of(packet, layout);
    let flow = flow_of(info, interface);
    let tuple = reflection(flow, proxy_port);
    let live = state.expired(now_ms);
    lemma_layout_bounds(packet);
    expiry_keeps_state_valid(state, now_ms);
    assert(tuple.source == plain_endpoint(
        host_and_port(info.destination).0,
        host_and_port(info.source).1,
    ));
    assert(tuple.destination == plain_endpoint(host_and_port(info.source).0, proxy_port));
    assert forall|other: OriginalFlow| state.active.dom().contains(other) implies state.elapsed(
        other,
        now_ms,
    ) == !alive(state, other, now_ms) by {}
    assert(live.quarantined_reflected.contains(tuple) <==> state.quarantined_reflected.contains(
        tuple,
    ) || exists|other: OriginalFlow|
        state.active.dom().contains(other) && !alive(state, other, now_ms)
            && #[trigger] state.active[other].reflected == tuple) by {
        if exists|other: OriginalFlow|
            state.active.dom().contains(other) && !alive(state, other, now_ms)
                && #[trigger] state.active[other].reflected == tuple {
            let other = choose|other: OriginalFlow|
                state.active.dom().contains(other) && !alive(state, other, now_ms)
                    && #[trigger] state.active[other].reflected == tuple;
            assert(state.elapsed(other, now_ms));
        }
    }
    assert(live.owner(tuple) is Some <==> exists|other: OriginalFlow|
        alive(state, other, now_ms) && #[trigger] state.active[other].reflected == tuple) by {
        if live.owner(tuple) is Some {
            let other = choose|other: OriginalFlow| live.owns(other, tuple);
            assert(live.owns(other, tuple));
            assert(alive(state, other, now_ms) && state.active[other].reflected == tuple);
        }
        if exists|other: OriginalFlow|
            alive(state, other, now_ms) && #[trigger] state.active[other].reflected == tuple {
            let other = choose|other: OriginalFlow|
                alive(state, other, now_ms) && #[trigger] state.active[other].reflected == tuple;
            assert(live.owns(other, tuple));
        }
    }
    if alive(state, flow, now_ms) {
        assert(live.active[flow] == state.active[flow]);
        assert(state.active[flow].reflected == reflection(
            flow,
            state.active[flow].reflected.destination.spec_port(),
        ));
    }
    rewritten_packets_bear_their_tuple(packet, tuple.source, tuple.destination);
}

/// A reply is restored exactly where it answers the reflected tuple of a flow whose
/// deadline is ahead: it then comes from the resolver of that flow and goes to its client,
/// with all that it carries.
pub proof fn replies_are_restored_or_unknown(
    state: FlowState,
    packet: Seq<u8>,
    now_ms: u64,
    flow: OriginalFlow,
)
    requires
        state.valid(),
        decoded(packet) is Ok,
    ensures
        ({
            let info = decoded(packet)->Ok_0;
            let (next, outcome) = state.replied(packet, now_ms);
            let answers = alive(state, flow, now_ms) && state.active[flow].reflected == (
            ReflectedTuple {
                source: info.destination,
                destination: info.source,
                protocol: info.protocol,
            });
            &&& answers ==> outcome is Ok && outcome->Ok_0.1 == flow
            &&& outcome is Ok && outcome->Ok_0.1 == flow ==> answers
            &&& outcome matches Err(error) ==> error == FlowError::UnknownFlow
            &&& outcome is Ok ==> {
                let to = outcome->Ok_0.1;
                &&& bears(outcome->Ok_0.0, to.resolver, to.client)
                &&& sums_up(outcome->Ok_0.0)
                &&& outcome->Ok_0.0.len() == packet.len()
                &&& forall|i: int|
                    0 <= i < packet.len() && !in_tuple_or_checksum(packet, i)
                        ==> #[trigger] outcome->Ok_0.0[i] == packet[i]
            }
            &&& next.allocated == state.allocated
        }),
{
    let layout = layout_of(packet)->Ok_0;
    let info = info_of(packet, layout);
    let live = state.expired(now_ms);
    let tuple = answered(info);
    lemma_layout_bounds(packet);
    expiry_keeps_state_valid(state, now_ms);
    if state.active.dom().contains(flow) {
        assert(state.elapsed(flow, now_ms) == !alive(state, flow, now_ms));
    }
    if alive(state, flow, now_ms) && state.active[flow].reflected == tuple {
        assert(live.owns(flow, tuple));
        owner_is_unique(live, flow, tuple);
    }
    if let Some(owner) = live.owner(tuple) {
        assert(live.owns(owner, tuple));
        assert(!state.elapsed(owner, now_ms));
        assert(live.active[owner].reflected == tuple);
        rewritten_packets_bear_their_tuple(packet, owner.resolver, owner.client);
    }
}

/// A row of the registry.
#[derive(Clone, Copy, Debug, PartialEq, Eq, Structural)]
struct Row {
    flow: OriginalFlow,
    reflected: ReflectedTuple,
    expires_at_ms: u64,
}

/// A pair of keys that were active once.
#[derive(Clone, Copy, Debug, PartialEq, Eq, Structural)]
struct QuarantinedKeys {
    flow: OriginalFlow,
    reflected: ReflectedTuple,
}

/// A bounded registry of active reflections and permanently quarantined keys.
///
/// `capacity` limits allocations over the lifetime of the registry, not only the
/// active rows: an expired row leaves its keys in quarantine, so that a delayed
/// packet is never taken for one of a newer flow.
pub struct FlowRegistry {
    capacity: usize,
    ttl_ms: u64,
    tcp_close_grace_ms: u64,
    allocated: usize,
    rows: Vec<Row>,
    quarantined: Vec<QuarantinedKeys>,
}

spec fn distinct_rows(rows: Seq<Row>) -> bool {
    forall|i: int, j: int| 0 <= i < j < rows.len() ==> rows[i].flow != rows[j].flow
}

spec fn distinct_keys(keys: Seq<QuarantinedKeys>) -> bool {
    forall|i: int, j: int| 0 <= i < j < keys.len() ==> keys[i].flow != keys[j].flow
}

spec fn row_at(rows: Seq<Row>, flow: OriginalFlow, i: int) -> bool {
    0 <= i < rows.len() && rows[i].flow == flow
}

spec fn active_map(rows: Seq<Row>) -> Map<OriginalFlow, ActiveFlow> {
    Map::new(
        |f: OriginalFlow| exists|i: int| row_at(rows, f, i),
        |f: OriginalFlow|
            {
                let i = choose|i: int| row_at(rows, f, i);
                ActiveFlow {
                    reflected: rows[i].reflected,
                    expires_at_ms: rows[i].expires_at_ms,
                }
            },
    )
}

spec fn flows_in(keys: Seq<QuarantinedKeys>) -> Set<OriginalFlow> {
    Set::new(|f: OriginalFlow| exists|i: int| 0 <= i < keys.len() && (#[trigger] keys[i]).flow == f)
}

spec fn tuples_in(keys: Seq<QuarantinedKeys>) -> Set<ReflectedTuple> {
    Set::new(
        |r: ReflectedTuple| exists|i: int| 0 <= i < keys.len() && (#[trigger] keys[i]).reflected == r,
    )
}

proof fn lemma_row(rows: Seq<Row>, i: int)
    requires
        distinct_rows(rows),
        0 <= i < rows.len(),
    ensures
        active_map(rows).dom().contains(rows[i].flow),
        active_map(rows)[rows[i].flow] == (ActiveFlow {
            reflected: rows[i].reflected,
            expires_at_ms: rows[i].expires_at_ms,
        }),
{
    let f = rows[i].flow;
    assert(row_at(rows, f, i));
    let k = choose|k: int| row_at(rows, f, k);
    assert(k == i);
}

proof fn lemma_dom_len(rows: Seq<Row>)
    requires
        distinct_rows(rows),
    ensures
        active_map(rows).dom().finite(),
        active_map(rows).dom().len() == rows.len(),
{
    let flows = rows.map_values(|r: Row| r.flow);
    assert(flows.no_duplicates());
    flows.unique_seq_to_set();
    assert(active_map(rows).dom() =~= flows.to_set()) by {
        assert forall|f: OriginalFlow| flows.to_set().contains(f) implies active_map(
            rows,
        ).dom().contains(f) by {
            let i = choose|i: int| 0 <= i < flows.len() && flows[i] == f;
            assert(row_at(rows, f, i));
        }
        assert forall|f: OriginalFlow| active_map(rows).dom().contains(
            f,
        ) implies flows.to_set().contains(f) by {
            let i = choose|i: int| row_at(rows, f, i);
            assert(flows[i] == f);
        }
    }
}

proof fn lemma_keys_len(keys: Seq<QuarantinedKeys>)
    requires
        distinct_keys(keys),
    ensures
        flows_in(keys).finite(),
        flows_in(keys).len() == keys.len(),
{
    let flows = keys.map_values(|k: QuarantinedKeys| k.flow);
    assert(flows.no_duplicates());
    flows.unique_seq_to_set();
    assert(flows_in(keys) =~= flows.to_set()) by {
        assert forall|f: OriginalFlow| flows.to_set().contains(f) implies flows_in(keys).contains(
            f,
        ) by {
            let i = choose|i: int| 0 <= i < flows.len() && flows[i] == f;
            assert(keys[i].flow == f);
        }
        assert forall|f: OriginalFlow| flows_in(keys).contains(
            f,
        ) implies flows.to_set().contains(f) by {
            let i = choose|i: int| 0 <= i < keys.len() && (#[trigger] keys[i]).flow == f;
            assert(flows[i] == f);
        }
    }
}

impl FlowRegistry {
    /// What the registry holds.
    pub closed spec fn view(&self) -> FlowState {
        FlowState {
            capacity: self.capacity as nat,
            ttl_ms: self.ttl_ms,
            tcp_close_grace_ms: self.tcp_close_grace_ms,
            allocated: self.allocated as nat,
            active: active_map(self.rows@),
            quarantined_original: flows_in(self.quarantined@),
            quarantined_reflected: tuples_in(self.quarantined@),
        }
    }

    /// The invariant of every registry.
    pub closed spec fn wf(&self) -> bool {
        &&& distinct_rows(self.rows@)
        &&& distinct_keys(self.quarantined@)
        &&& self@.valid()
    }

    /// A well-formed registry holds a valid state.
    pub broadcast proof fn lemma_wf(&self)
        requires
            #[trigger] self.wf(),
        ensures
            self@.valid(),
    {
    }

    /// Makes a registry whose timestamps are monotonic milliseconds.
    pub fn new(capacity: usize, ttl_ms: u64) -> (result: Self)
        ensures
            result.wf(),
            result@ == (FlowState {
                capacity: capacity as nat,
                ttl_ms,
                tcp_close_grace_ms: 5_000,
                allocated: 0,
                active: Map::empty(),
                quarantined_original: Set::empty(),
                quarantined_reflected: Set::empty(),
            }),
    {
        Self::with_tcp_close_grace(capacity, ttl_ms, 5_000)
    }

    /// Makes a registry with a given grace for closing TCP flows.
    pub fn with_tcp_close_grace(
        capacity: usize,
        ttl_ms: u64,
        tcp_close_grace_ms: u64,
    ) -> (result: Self)
        ensures
            result.wf(),
            result@ == (FlowState {
                capacity: capacity as nat,
                ttl_ms,
                tcp_close_grace_ms,
                allocated: 0,
                active: Map::empty(),
                quarantined_original: Set::empty(),
                quarantined_reflected: Set::empty(),
            }),
    {
        let result = FlowRegistry {
            capacity,
            ttl_ms,
            tcp_close_grace_ms,
            allocated: 0,
            rows: Vec::new(),
            quarantined: Vec::new(),
        };
        proof {
            assert(result@.active =~= Map::empty());
            assert(result@.quarantined_original =~= Set::empty());
            assert(result@.quarantined_reflected =~= Set::empty());
        }
        result
    }

    /// Moves every row whose deadline has passed into permanent quarantine.
    pub fn expire(&mut self, now_ms: u64)
        requires
            old(self).wf(),
        ensures
            final(self).wf(),
            final(self)@ == old(self)@.expired(now_ms),
    {
        let ghost rows = self.rows@;
        let ghost keys = self.quarantined@;
        let ghost before = self@;
        let mut kept: Vec<Row> = Vec::new();
        let mut i: usize = 0;
        while i < self.rows.len()
            invariant
                i <= self.rows.len(),
                self.rows@ == rows,
                distinct_rows(rows),
                distinct_keys(keys),
                before.active == active_map(rows),
                before.quarantined_original == flows_in(keys),
                before.valid(),
                self.capacity == before.capacity,
                self.ttl_ms == before.ttl_ms,
                self.tcp_close_grace_ms == before.tcp_close_grace_ms,
                self.allocated == before.allocated,
                distinct_rows(kept@),
                distinct_keys(self.quarantined@),
                keys.len() <= self.quarantined@.len(),
                self.quarantined@.take(keys.len() as int) == keys,
                forall|j: int|
                    0 <= j < kept@.len() ==> (#[trigger] kept@[j]).expires_at_ms > now_ms
                        && rows.take(i as int).contains(kept@[j]),
                forall|j: int|
                    0 <= j < i && (#[trigger] rows[j]).expires_at_ms > now_ms ==> kept@.contains(
                        rows[j],
                    ),
                forall|j: int|
                    keys.len() <= j < self.quarantined@.len() ==> quarantined_from(
                        rows,
                        i as int,
                        now_ms,
                        #[trigger] self.quarantined@[j],
                    ),
                forall|j: int|
                    0 <= j < i && (#[trigger] rows[j]).expires_at_ms <= now_ms
                        ==> self.quarantined@.contains(
                        QuarantinedKeys { flow: rows[j].flow, reflected: rows[j].reflected },
                    ),
            decreases self.rows.len() - i,
        {
            let row = self.rows[i];
            let ghost kept_before = kept@;
            let ghost keys_before = self.quarantined@;
            assert(rows.take(i + 1) =~= rows.take(i as int).push(row));
            if row.expires_at_ms > now_ms {
                proof {
                    assert forall|j: int| 0 <= j < kept@.len() implies kept@[j].flow != row.flow by {
                        let k = choose|k: int| 0 <= k < i && rows.take(i as int)[k] == kept@[j];
                        assert(rows[k].flow != rows[i as int].flow);
                    }
                }
                kept.push(row);
                proof {
                    assert(kept@.last() == row);
                    assert(kept@.contains(row));
                    assert forall|j: int|
                        0 <= j < i + 1 && (#[trigger] rows[j]).expires_at_ms > now_ms implies kept@.contains(
                        rows[j],
                    ) by {
                        if j < i {
                            let k = choose|k: int|
                                0 <= k < kept_before.len() && kept_before[k] == rows[j];
                            assert(kept@[k] == rows[j]);
                        }
                    }
                    assert forall|j: int| 0 <= j < kept@.len() implies (#[trigger] kept@[j]).expires_at_ms
                        > now_ms && rows.take(i + 1).contains(kept@[j]) by {
                        if j < kept_before.len() {
                            assert(kept@[j] == kept_before[j]);
                            let k = choose|k: int|
                                0 <= k < i && rows.take(i as int)[k] == kept_before[j];
                            assert(rows.take(i + 1)[k] == kept@[j]);
                        } else {
                            assert(rows.take(i + 1)[i as int] == kept@[j]);
                        }
                    }
                }
            } else {
                let entry = QuarantinedKeys { flow: row.flow, reflected: row.reflected };
                proof {
                    lemma_row(rows, i as int);
                    assert forall|j: int| 0 <= j < keys_before.len() implies keys_before[j].flow
                        != row.flow by {
                        if j < keys.len() {
                            assert(keys_before.take(keys.len() as int)[j] == keys[j]);
                            if keys[j].flow == row.flow {
                                assert(before.quarantined_original.contains(row.flow));
                            }
                        } else {
                            assert(quarantined_from(rows, i as int, now_ms, keys_before[j]));
                            let k = choose|k: int|
                                0 <= k < i && (#[trigger] rows[k]).flow == keys_before[j].flow
                                    && rows[k].reflected == keys_before[j].reflected
                                    && rows[k].expires_at_ms <= now_ms;
                            assert(rows[k].flow != rows[i as int].flow);
                        }
                    }
                }
                self.quarantined.push(entry);
                proof {
                    assert(self.quarantined@.last() == entry);
                    assert(self.quarantined@.contains(entry));
                    assert(self.quarantined@.take(keys.len() as int) =~= keys);
                    assert(rows[i as int] == row);
                    assert forall|j: int|
                        keys.len() <= j < self.quarantined@.len() implies quarantined_from(
                        rows,
                        i + 1,
                        now_ms,
                        #[trigger] self.quarantined@[j],
                    ) by {
                        if j < keys_before.len() {
                            assert(quarantined_from(rows, i as int, now_ms, keys_before[j]));
                        }
                    }
                    assert forall|j: int|
                        0 <= j < i + 1 && (#[trigger] rows[j]).expires_at_ms
                            <= now_ms implies self.quarantined@.contains(
                        QuarantinedKeys { flow: rows[j].flow, reflected: rows[j].reflected },
                    ) by {
                        if j < i {
                            let key = QuarantinedKeys {
                                flow: rows[j].flow,
                                reflected: rows[j].reflected,
                            };
                            let k = choose|k: int|
                                0 <= k < keys_before.len() && keys_before[k] == key;
                            assert(self.quarantined@[k] == key);
                        }
                    }
                }
            }
            i += 1;
        }
        self.rows = kept;
        proof {
            let after = before.expired(now_ms);
            assert(rows.take(i as int) =~= rows);
            lemma_expired_views(rows, keys, kept@, self.quarantined@, now_ms);
            assert(self@.active =~= after.active) by {
                assert forall|f: OriginalFlow| before.elapsed(f, now_ms) == (active_map(
                    rows,
                ).dom().contains(f) && active_map(rows)[f].expires_at_ms <= now_ms) by {}
            }
            assert(self@.quarantined_original =~= after.quarantined_original);
            assert(self@.quarantined_reflected =~= after.quarantined_reflected) by {
                assert forall|r: ReflectedTuple| self@.quarantined_reflected.contains(
                    r,
                ) == after.quarantined_reflected.contains(r) by {
                    if exists|f: OriginalFlow|
                        elapsed_in(rows, f, now_ms) && active_map(rows)[f].reflected == r {
                        let f = choose|f: OriginalFlow|
                            elapsed_in(rows, f, now_ms) && active_map(rows)[f].reflected == r;
                        assert(before.elapsed(f, now_ms));
                    }
                    if exists|f: OriginalFlow| #[trigger]
                        before.elapsed(f, now_ms) && before.active[f].reflected == r {
                        let f = choose|f: OriginalFlow| #[trigger]
                            before.elapsed(f, now_ms) && before.active[f].reflected == r;
                        assert(elapsed_in(rows, f, now_ms));
                    }
                }
            }
            assert(self@ =~= after);
            expiry_keeps_state_valid(before, now_ms);
        }
    }
}

spec fn elapsed_in(rows: Seq<Row>, flow: OriginalFlow, now_ms: u64) -> bool {
    active_map(rows).dom().contains(flow) && active_map(rows)[flow].expires_at_ms <= now_ms
}

/// Whether `key` belongs to one of the first `upto` rows, elapsed.
spec fn quarantined_from(rows: Seq<Row>, upto: int, now_ms: u64, key: QuarantinedKeys) -> bool {
    exists|k: int|
        0 <= k < upto && (#[trigger] rows[k]).flow == key.flow && rows[k].reflected == key.reflected
            && rows[k].expires_at_ms <= now_ms
}

proof fn lemma_expired_views(
    rows: Seq<Row>,
    keys: Seq<QuarantinedKeys>,
    kept: Seq<Row>,
    grown: Seq<QuarantinedKeys>,
    now_ms: u64,
)
    requires
        distinct_rows(rows),
        distinct_rows(kept),
        keys.len() <= grown.len(),
        grown.take(keys.len() as int) == keys,
        forall|j: int|
            0 <= j < kept.len() ==> (#[trigger] kept[j]).expires_at_ms > now_ms && rows.contains(
                kept[j],
            ),
        forall|j: int|
            0 <= j < rows.len() && (#[trigger] rows[j]).expires_at_ms > now_ms ==> kept.contains(
                rows[j],
            ),
        forall|j: int|
            keys.len() <= j < grown.len() ==> quarantined_from(
                rows,
                rows.len() as int,
                now_ms,
                #[trigger] grown[j],
            ),
        forall|j: int|
            0 <= j < rows.len() && (#[trigger] rows[j]).expires_at_ms <= now_ms ==> grown.contains(
                QuarantinedKeys { flow: rows[j].flow, reflected: rows[j].reflected },
            ),
    ensures
        forall|f: OriginalFlow| #[trigger]
            active_map(kept).dom().contains(f) <==> active_map(rows).dom().contains(f)
                && !elapsed_in(rows, f, now_ms),
        forall|f: OriginalFlow|
            active_map(kept).dom().contains(f) ==> #[trigger] active_map(kept)[f] == active_map(
                rows,
            )[f],
        forall|f: OriginalFlow| #[trigger]
            flows_in(grown).contains(f) <==> flows_in(keys).contains(f) || elapsed_in(
                rows,
                f,
                now_ms,
            ),
        forall|r: ReflectedTuple| #[trigger]
            tuples_in(grown).contains(r) <==> tuples_in(keys).contains(r) || exists|f: OriginalFlow|
                elapsed_in(rows, f, now_ms) && active_map(rows)[f].reflected == r,
{
    assert forall|f: OriginalFlow| #[trigger] active_map(kept).dom().contains(f) implies {
        &&& active_map(rows).dom().contains(f)
        &&& !elapsed_in(rows, f, now_ms)
        &&& active_map(kept)[f] == active_map(rows)[f]
    } by {
        let j = choose|j: int| row_at(kept, f, j);
        let k = choose|k: int| 0 <= k < rows.len() && rows[k] == kept[j];
        lemma_row(rows, k);
        lemma_row(kept, j);
    }
    assert forall|f: OriginalFlow|
        #![trigger active_map(kept).dom().contains(f)]
        active_map(rows).dom().contains(f) && !elapsed_in(rows, f, now_ms) implies active_map(
        kept,
    ).dom().contains(f) by {
        let k = choose|k: int| row_at(rows, f, k);
        lemma_row(rows, k);
        assert(kept.contains(rows[k]));
        let j = choose|j: int| 0 <= j < kept.len() && kept[j] == rows[k];
        assert(row_at(kept, f, j));
    }
    assert forall|f: OriginalFlow| flows_in(grown).contains(f) implies flows_in(keys).contains(f)
        || elapsed_in(rows, f, now_ms) by {
        let j = choose|j: int| 0 <= j < grown.len() && (#[trigger] grown[j]).flow == f;
        if j < keys.len() {
            assert(grown.take(keys.len() as int)[j] == keys[j]);
        } else {
            assert(quarantined_from(rows, rows.len() as int, now_ms, grown[j]));
            let k = choose|k: int|
                0 <= k < rows.len() && (#[trigger] rows[k]).flow == grown[j].flow
                    && rows[k].reflected == grown[j].reflected && rows[k].expires_at_ms <= now_ms;
            lemma_row(rows, k);
        }
    }
    assert forall|f: OriginalFlow|
        flows_in(keys).contains(f) || elapsed_in(rows, f, now_ms) implies flows_in(grown).contains(
        f,
    ) by {
        if flows_in(keys).contains(f) {
            let j = choose|j: int| 0 <= j < keys.len() && (#[trigger] keys[j]).flow == f;
            assert(grown.take(keys.len() as int)[j] == keys[j]);
            assert(grown[j].flow == f);
        } else {
            let k = choose|k: int| row_at(rows, f, k);
            lemma_row(rows, k);
            let key = QuarantinedKeys { flow: rows[k].flow, reflected: rows[k].reflected };
            assert(grown.contains(key));
            let j = choose|j: int| 0 <= j < grown.len() && grown[j] == key;
            assert(grown[j].flow == f);
        }
    }
    assert forall|r: ReflectedTuple| tuples_in(grown).contains(r) implies tuples_in(keys).contains(
        r,
    ) || exists|f: OriginalFlow| elapsed_in(rows, f, now_ms) && active_map(rows)[f].reflected == r by {
        let j = choose|j: int| 0 <= j < grown.len() && (#[trigger] grown[j]).reflected == r;
        if j < keys.len() {
            assert(grown.take(keys.len() as int)[j] == keys[j]);
        } else {
            assert(quarantined_from(rows, rows.len() as int, now_ms, grown[j]));
            let k = choose|k: int|
                0 <= k < rows.len() && (#[trigger] rows[k]).flow == grown[j].flow
                    && rows[k].reflected == grown[j].reflected && rows[k].expires_at_ms <= now_ms;
            lemma_row(rows, k);
            assert(elapsed_in(rows, rows[k].flow, now_ms));
        }
    }
    assert forall|r: ReflectedTuple|
        tuples_in(keys).contains(r) || (exists|f: OriginalFlow|
            elapsed_in(rows, f, now_ms) && active_map(rows)[f].reflected == r) implies tuples_in(
        grown,
    ).contains(r) by {
        if tuples_in(keys).contains(r) {
            let j = choose|j: int| 0 <= j < keys.len() && (#[trigger] keys[j]).reflected == r;
            assert(grown.take(keys.len() as int)[j] == keys[j]);
            assert(grown[j].reflected == r);
        } else {
            let f = choose|f: OriginalFlow|
                elapsed_in(rows, f, now_ms) && active_map(rows)[f].reflected == r;
            let k = choose|k: int| row_at(rows, f, k);
            lemma_row(rows, k);
            let key = QuarantinedKeys { flow: rows[k].flow, reflected: rows[k].reflected };
            assert(grown.contains(key));
            let j = choose|j: int| 0 <= j < grown.len() && grown[j] == key;
            assert(grown[j].reflected == r);
        }
    }
}

/// The outcome of a reflection as a mathematical value.
pub open spec fn outcome_view(outcome: Result<ReflectedPacket, FlowError>) -> Result<
    (Seq<u8>, OriginalFlow),
    FlowError,
> {
    match outcome {
        Ok(reflected) => Ok((reflected.packet@, reflected.original_flow)),
        Err(error) => Err(error),
    }
}

impl FlowRegistry {
    /// Reflects a request `C:c -> R:53` to `R:c -> C:proxy_port`.
    ///
    /// A retry of an active flow reuses its row. A retry with another proxy port
    /// is refused, so that it never leaves through a different tuple.
    pub fn reflect_request(
        &mut self,
        packet: &[u8],
        interface: Interface,
        proxy_port: u16,
        now_ms: u64,
    ) -> (result: Result<ReflectedPacket, FlowError>)
        requires
            old(self).wf(),
        ensures
            final(self).wf(),
            final(self)@ == old(self)@.requested(packet@, interface, proxy_port, now_ms).0,
            outcome_view(result) == old(self)@.requested(
                packet@,
                interface,
                proxy_port,
                now_ms,
            ).1,
    {
        proof {
            request_keeps_state_valid(self@, packet@, interface, proxy_port, now_ms);
        }
        let info = match decode(packet) {
            Ok(info) => info,
            Err(error) => return Err(FlowError::Packet(error)),
        };
        let ghost layout = layout_of(packet@)->Ok_0;
        match validate_request_ports(&info, proxy_port) {
            Ok(()) => {},
            Err(error) => return Err(error),
        }
        self.expire(now_ms);
        let ghost live = self@;
        let original_flow = OriginalFlow {
            client: info.source,
            resolver: info.destination,
            protocol: info.protocol,
            interface,
        };
        let reflected = reflected_tuple_for_request(&info, proxy_port);
        let closing = has_tcp_close_flag(packet);
        if let Some(at) = self.find_flow(&original_flow) {
            proof {
                lemma_row(self.rows@, at as int);
            }
            if self.rows[at].reflected.destination.port() != proxy_port {
                return Err(FlowError::ProxyPortMismatch);
            }
            let row = self.rows[at];
            let reflected_packet = match rewrite(
                packet,
                row.reflected.source,
                row.reflected.destination,
            ) {
                Ok(bytes) => bytes,
                Err(error) => return Err(FlowError::Packet(error)),
            };
            if closing {
                self.shorten_for_tcp_close(&original_flow, now_ms);
            }
            return Ok(ReflectedPacket { packet: reflected_packet, original_flow });
        }
        if self.is_flow_quarantined(&original_flow) {
            return Err(FlowError::KeyQuarantined);
        }
        if self.is_tuple_quarantined(&reflected) {
            return Err(FlowError::KeyQuarantined);
        }
        if self.find_reflected(&reflected).is_some() {
            return Err(FlowError::ReflectedCollision);
        }
        if self.allocated >= self.capacity {
            return Err(FlowError::AtCapacity);
        }
        let reflected_packet = match rewrite(packet, reflected.source, reflected.destination) {
            Ok(bytes) => bytes,
            Err(error) => return Err(FlowError::Packet(error)),
        };
        let row = Row {
            flow: original_flow,
            reflected,
            expires_at_ms: deadline(now_ms, self.ttl_ms),
        };
        let ghost rows = self.rows@;
        self.rows.push(row);
        self.allocated = self.allocated + 1;
        proof {
            lemma_admitted(live, original_flow, proxy_port, now_ms);
            assert(distinct_rows(self.rows@)) by {
                assert forall|i: int| 0 <= i < rows.len() implies rows[i].flow != original_flow by {
                    lemma_row(rows, i);
                }
            }
            let after = live.admitted(original_flow, reflected, now_ms);
            assert forall|f: OriginalFlow| #[trigger] self@.active.dom().contains(
                f,
            ) == after.active.dom().contains(f) by {
                if live.active.dom().contains(f) {
                    let k = choose|k: int| row_at(rows, f, k);
                    assert(row_at(self.rows@, f, k));
                }
                if self@.active.dom().contains(f) && f != original_flow {
                    let k = choose|k: int| row_at(self.rows@, f, k);
                    assert(row_at(rows, f, k));
                }
                if f == original_flow {
                    assert(row_at(self.rows@, f, rows.len() as int));
                }
            }
            assert forall|f: OriginalFlow| #[trigger]
                after.active.dom().contains(f) implies self@.active[f] == after.active[f] by {
                let k = choose|k: int| row_at(self.rows@, f, k);
                assert(self@.active.dom().contains(f));
                lemma_row(self.rows@, k);
                if f != original_flow {
                    lemma_row(rows, k);
                } else {
                    assert(self.rows@[rows.len() as int].flow == f);
                }
            }
            assert(self@.active =~= after.active);
            assert(self@ =~= after);
        }
        if closing {
            self.shorten_for_tcp_close(&original_flow, now_ms);
        }
        Ok(ReflectedPacket { packet: reflected_packet, original_flow })
    }

    /// Turns an exact reply `C:proxy_port -> R:c` to a registered request into
    /// `R:53 -> C:c`. The interface of the reply plays no part: routing can
    /// deliver it on another one, and the flow says which to use.
    pub fn reflect_reply(&mut self, packet: &[u8], now_ms: u64) -> (result: Result<
        ReflectedPacket,
        FlowError,
    >)
        requires
            old(self).wf(),
        ensures
            final(self).wf(),
            final(self)@ == old(self)@.replied(packet@, now_ms).0,
            outcome_view(result) == old(self)@.replied(packet@, now_ms).1,
    {
        let info = match decode(packet) {
            Ok(info) => info,
            Err(error) => return Err(FlowError::Packet(error)),
        };
        let ghost layout = layout_of(packet@)->Ok_0;
        self.expire(now_ms);
        let reflected = reflected_tuple_for_reply(&info);
        let original_flow = match self.find_reflected(&reflected) {
            None => return Err(FlowError::UnknownFlow),
            Some(at) => {
                proof {
                    lemma_row(self.rows@, at as int);
                    assert(self@.owns(self.rows@[at as int].flow, reflected));
                    owner_is_unique(self@, self.rows@[at as int].flow, reflected);
                    assert(self@.active[self.rows@[at as int].flow].reflected == reflected);
                }
                self.rows[at].flow
            },
        };
        let restored_packet = match rewrite(packet, original_flow.resolver, original_flow.client) {
            Ok(bytes) => bytes,
            Err(error) => return Err(FlowError::Packet(error)),
        };
        if has_tcp_close_flag(packet) {
            self.shorten_for_tcp_close(&original_flow, now_ms);
        }
        Ok(ReflectedPacket { packet: restored_packet, original_flow })
    }

    /// Notes a TCP FIN or RST and shortens the deadline of its flow. The row stays
    /// active through the grace, so that what is left of the exchange passes.
    pub fn observe_tcp_close(
        &mut self,
        packet: &[u8],
        interface: Interface,
        now_ms: u64,
    ) -> (result: Result<(), FlowError>)
        requires
            old(self).wf(),
        ensures
            final(self).wf(),
            final(self)@ == old(self)@.observed(packet@, interface, now_ms).0,
            result == old(self)@.observed(packet@, interface, now_ms).1,
    {
        let info = match decode(packet) {
            Ok(info) => info,
            Err(error) => return Err(FlowError::Packet(error)),
        };
        if info.protocol != Protocol::Tcp {
            return Err(FlowError::NotTcp);
        }
        self.expire(now_ms);
        if !has_tcp_close_flag(packet) {
            return Ok(());
        }
        if info.destination.port() == 53 {
            let original_flow = OriginalFlow {
                client: info.source,
                resolver: info.destination,
                protocol: info.protocol,
                interface,
            };
            if self.find_flow(&original_flow).is_some() {
                self.shorten_for_tcp_close(&original_flow, now_ms);
                return Ok(());
            }
        }
        let reflected = reflected_tuple_for_reply(&info);
        match self.find_reflected(&reflected) {
            None => Err(FlowError::UnknownFlow),
            Some(at) => {
                let original_flow = self.rows[at].flow;
                proof {
                    lemma_row(self.rows@, at as int);
                    assert(self@.owns(original_flow, reflected));
                    owner_is_unique(self@, original_flow, reflected);
                }
                self.shorten_for_tcp_close(&original_flow, now_ms);
                Ok(())
            },
        }
    }

    /// The number of active flows.
    pub fn active_len(&self) -> (result: usize)
        requires
            self.wf(),
        ensures
            result == self@.active.dom().len(),
    {
        proof {
            lemma_dom_len(self.rows@);
        }
        self.rows.len()
    }

    /// The number of flows in quarantine.
    pub fn quarantined_len(&self) -> (result: usize)
        requires
            self.wf(),
        ensures
            result == self@.quarantined_original.len(),
    {
        proof {
            lemma_keys_len(self.quarantined@);
        }
        self.quarantined.len()
    }

    /// The number of flows ever registered.
    pub fn allocated_len(&self) -> (result: usize)
        ensures
            result == self@.allocated,
    {
        self.allocated
    }

    /// The number of flows that may ever be registered.
    pub fn capacity(&self) -> (result: usize)
        ensures
            result == self@.capacity,
    {
        self.capacity
    }

    fn find_flow(&self, flow: &OriginalFlow) -> (result: Option<usize>)
        requires
            self.wf(),
        ensures
            result is Some <==> self@.active.dom().contains(*flow),
            result matches Some(at) ==> row_at(self.rows@, *flow, at as int),
    {
        let mut i: usize = 0;
        while i < self.rows.len()
            invariant
                i <= self.rows.len(),
                forall|j: int| 0 <= j < i ==> (#[trigger] self.rows@[j]).flow != *flow,
            decreases self.rows.len() - i,
        {
            if self.rows[i].flow == *flow {
                assert(row_at(self.rows@, *flow, i as int));
                return Some(i);
            }
            i += 1;
        }
        None
    }

    fn find_reflected(&self, reflected: &ReflectedTuple) -> (result: Option<usize>)
        requires
            self.wf(),
        ensures
            result is Some <==> self@.owner(*reflected) is Some,
            result matches Some(at) ==> at < self.rows@.len() && self.rows@[at as int].reflected
                == *reflected,
    {
        let mut i: usize = 0;
        while i < self.rows.len()
            invariant
                i <= self.rows.len(),
                self.wf(),
                forall|j: int| 0 <= j < i ==> (#[trigger] self.rows@[j]).reflected != *reflected,
            decreases self.rows.len() - i,
        {
            if self.rows[i].reflected == *reflected {
                proof {
                    lemma_row(self.rows@, i as int);
                    assert(self@.owns(self.rows@[i as int].flow, *reflected));
                }
                return Some(i);
            }
            i += 1;
        }
        proof {
            assert forall|f: OriginalFlow| !self@.owns(f, *reflected) by {
                if self@.owns(f, *reflected) {
                    let k = choose|k: int| row_at(self.rows@, f, k);
                    lemma_row(self.rows@, k);
                }
            }
        }
        None
    }

    fn is_flow_quarantined(&self, flow: &OriginalFlow) -> (result: bool)
        ensures
            result == self@.quarantined_original.contains(*flow),
    {
        let mut i: usize = 0;
        while i < self.quarantined.len()
            invariant
                i <= self.quarantined.len(),
                forall|j: int| 0 <= j < i ==> (#[trigger] self.quarantined@[j]).flow != *flow,
            decreases self.quarantined.len() - i,
        {
            if self.quarantined[i].flow == *flow {
                assert(self.quarantined@[i as int].flow == *flow);
                return true;
            }
            i += 1;
        }
        false
    }

    fn is_tuple_quarantined(&self, reflected: &ReflectedTuple) -> (result: bool)
        ensures
            result == self@.quarantined_reflected.contains(*reflected),
    {
        let mut i: usize = 0;
        while i < self.quarantined.len()
            invariant
                i <= self.quarantined.len(),
                forall|j: int|
                    0 <= j < i ==> (#[trigger] self.quarantined@[j]).reflected != *reflected,
            decreases self.quarantined.len() - i,
        {
            if self.quarantined[i].reflected == *reflected {
                assert(self.quarantined@[i as int].reflected == *reflected);
                return true;
            }
            i += 1;
        }
        false
    }

    fn shorten_for_tcp_close(&mut self, original_flow: &OriginalFlow, now_ms: u64)
        requires
            old(self).wf(),
        ensures
            final(self).wf(),
            final(self)@ == old(self)@.closed(*original_flow, true, now_ms),
    {
        let ghost before = self@;
        let ghost rows = self.rows@;
        if let Some(at) = self.find_flow(original_flow) {
            let grace: u64 = deadline(now_ms, self.tcp_close_grace_ms);
            let mut row = self.rows[at];
            if grace < row.expires_at_ms {
                row.expires_at_ms = grace;
            }
            self.rows.set(at, row);
            proof {
                let after = before.closed(*original_flow, true, now_ms);
                lemma_row(rows, at as int);
                assert(distinct_rows(self.rows@)) by {
                    assert forall|i: int| 0 <= i < rows.len() implies self.rows@[i].flow
                        == rows[i].flow by {}
                }
                assert forall|f: OriginalFlow| #[trigger] self@.active.dom().contains(
                    f,
                ) == after.active.dom().contains(f) by {
                    if before.active.dom().contains(f) {
                        let k = choose|k: int| row_at(rows, f, k);
                        assert(row_at(self.rows@, f, k));
                    }
                    if self@.active.dom().contains(f) {
                        let k = choose|k: int| row_at(self.rows@, f, k);
                        assert(row_at(rows, f, k));
                    }
                }
                assert forall|f: OriginalFlow| #[trigger]
                    after.active.dom().contains(f) implies self@.active[f] == after.active[f] by {
                    assert(self@.active.dom().contains(f));
                    let k = choose|k: int| row_at(self.rows@, f, k);
                    lemma_row(self.rows@, k);
                    lemma_row(rows, k);
                }
                assert(self@.active =~= after.active);
                assert(self@ =~= after);
                lemma_closed(before, *original_flow, true, now_ms);
            }
        } else {
            assert(self@ =~= before.closed(*original_flow, true, now_ms));
        }
    }
}

fn validate_request_ports(info: &PacketInfo, proxy_port: u16) -> (result: Result<(), FlowError>)
    ensures
        result is Ok <==> port_fault(*info, proxy_port) is None,
        result matches Err(error) ==> port_fault(*info, proxy_port) == Some(error),
{
    if info.source.port() == 0 {
        return Err(FlowError::InvalidClientPort);
    }
    if info.destination.port() != 53 {
        return Err(FlowError::InvalidResolverPort);
    }
    if proxy_port == 0 || proxy_port == 53 || proxy_port == info.source.port() {
        return Err(FlowError::InvalidProxyPort);
    }
    Ok(())
}

fn reflected_tuple_for_request(info: &PacketInfo, proxy_port: u16) -> (result: ReflectedTuple)
    ensures
        forall|interface: Interface|
            result == #[trigger] reflection(flow_of(*info, interface), proxy_port),
{
    ReflectedTuple {
        source: SocketAddr::new(info.destination.ip(), info.source.port()),
        destination: SocketAddr::new(info.source.ip(), proxy_port),
        protocol: info.protocol,
    }
}

fn reflected_tuple_for_reply(info: &PacketInfo) -> (result: ReflectedTuple)
    ensures
        result == answered(*info),
{
    ReflectedTuple { source: info.destination, destination: info.source, protocol: info.protocol }
}

fn deadline(now_ms: u64, duration_ms: u64) -> (result: u64)
    ensures
        result == deadline_of(now_ms, duration_ms),
{
    now_ms.saturating_add(duration_ms)
}

fn has_tcp_close_flag(packet: &[u8]) -> (result: bool)
    requires
        layout_of(packet@) is Ok,
    ensures
        result == closes(packet@, layout_of(packet@)->Ok_0),
{
    match parse_layout(packet) {
        Ok(layout) => {
            if layout.protocol != Protocol::Tcp {
                return false;
            }
            proof {
                crate::dns_packet::lemma_layout_bounds(packet@);
            }
            let flags: u8 = packet[layout.offset + 13];
            flags % 2 == 1 || flags / 4 % 2 == 1
        },
        Err(_) => false,
    }
}

} // verus!
