//! Bounded construction of the capture filter of transparent DNS.
//!
//! A session owns a set of source ports before its filter is installed. The
//! request clauses exempt exactly those source addresses and ports, each for its
//! own transport: an owned UDP port exempts neither TCP traffic nor another local
//! address.

use crate::dns_packet::{host_and_port, Protocol};
use crate::net::{IpAddr, SocketAddr};
use crate::text::{byte_len, decimal, decimal_text, join, join3, join4, join5};
use vstd::prelude::*;
use vstd::string::*;

verus! {

/// The largest number of local source addresses of a session.
pub const MAX_LOCAL_IPS: usize = 16;

/// The number of owned source endpoints for each transport and address.
pub const MAX_OWNED_SLOTS_PER_IP: usize = 8;

/// The largest filter that is handed to the driver.
pub const MAX_FILTER_BYTES: usize = 32768;

/// The largest number of addresses in one filter. The driver's budget of compiled
/// instructions is tighter than its bound on the text.
pub const MAX_FILTER_IPS: usize = 4;

/// The addresses of one transparent interception session. The upstreams are the
/// bound local source endpoints that forward requests to their resolvers. Every
/// endpoint uses an address of `local_ips`.
#[derive(Clone, Debug, PartialEq, Eq)]
pub struct DnsFilterConfig {
    pub local_ips: Vec<IpAddr>,
    pub udp_proxy_listeners: Vec<SocketAddr>,
    pub tcp_proxy_listeners: Vec<SocketAddr>,
    pub udp_upstreams: Vec<SocketAddr>,
    pub tcp_upstreams: Vec<SocketAddr>,
}

/// The interface that an endpoint names.
pub open spec fn scope_of(endpoint: SocketAddr) -> Option<u32> {
    if endpoint.spec_scope() != 0 {
        Some(endpoint.spec_scope())
    } else {
        None
    }
}

/// Where `x` belongs in an ascending list of addresses.
pub open spec fn ip_place(ascending: Seq<IpAddr>, x: IpAddr) -> int
    decreases ascending.len(),
{
    if ascending.len() > 0 && ascending[0].before(x) {
        1 + ip_place(ascending.drop_first(), x)
    } else {
        0
    }
}

/// The addresses in ascending order.
pub open spec fn sorted_ips(ips: Seq<IpAddr>) -> Seq<IpAddr>
    decreases ips.len(),
{
    if ips.len() == 0 {
        Seq::empty()
    } else {
        let rest = sorted_ips(ips.drop_last());
        rest.insert(ip_place(rest, ips.last()), ips.last())
    }
}

/// Where `x` belongs in an ascending list of ports.
pub open spec fn port_place(ascending: Seq<u16>, x: u16) -> int
    decreases ascending.len(),
{
    if ascending.len() > 0 && ascending[0] < x {
        1 + port_place(ascending.drop_first(), x)
    } else {
        0
    }
}

/// The ports of the endpoints at `ip`, in ascending order.
pub open spec fn ports_at(endpoints: Seq<SocketAddr>, ip: IpAddr) -> Seq<u16>
    decreases endpoints.len(),
{
    if endpoints.len() == 0 {
        Seq::empty()
    } else {
        let rest = ports_at(endpoints.drop_last(), ip);
        let last = endpoints.last();
        if last.spec_ip() == ip {
            rest.insert(port_place(rest, last.spec_port()), last.spec_port())
        } else {
            rest
        }
    }
}

/// The interface of the first endpoint at `ip`.
pub open spec fn scope_at(endpoints: Seq<SocketAddr>, ip: IpAddr) -> Option<u32>
    decreases endpoints.len(),
{
    if endpoints.len() == 0 {
        None
    } else if endpoints[0].spec_ip() == ip {
        scope_of(endpoints[0])
    } else {
        scope_at(endpoints.drop_first(), ip)
    }
}

/// The number of endpoints at `ip`.
pub open spec fn count_at(endpoints: Seq<SocketAddr>, ip: IpAddr) -> nat
    decreases endpoints.len(),
{
    if endpoints.len() == 0 {
        0
    } else {
        count_at(endpoints.drop_last(), ip) + if endpoints.last().spec_ip() == ip {
            1nat
        } else {
            0nat
        }
    }
}

/// Whether an address is of no use as a source: unspecified, multicast or mapped.
pub open spec fn unusable(ip: IpAddr) -> bool {
    ip.unspecified() || ip.multicast() || (ip matches IpAddr::V6(v6) && v6.mapped())
}

/// What is said of an address that is of no use.
pub open spec fn unusable_message(kind: Seq<char>, ip: IpAddr) -> Seq<char> {
    kind + " "@ + ip.spec_text() + " is unspecified, multicast, or mapped"@
}

/// Whether an earlier endpoint has the address and port of endpoint `i`, and with
/// `same_scope` also its interface.
pub open spec fn repeats(endpoints: Seq<SocketAddr>, i: int, same_scope: bool) -> bool {
    exists|j: int|
        0 <= j < i && (#[trigger] endpoints[j]).spec_ip() == endpoints[i].spec_ip()
            && endpoints[j].spec_port() == endpoints[i].spec_port() && (same_scope ==> scope_of(
            endpoints[j],
        ) == scope_of(endpoints[i]))
}

/// What is wrong with endpoint `i` of a list, given those before it.
pub open spec fn endpoint_fault(
    kind: Seq<char>,
    endpoints: Seq<SocketAddr>,
    i: int,
    local_ips: Seq<IpAddr>,
) -> Option<Seq<char>> {
    let endpoint = endpoints[i];
    let ip = endpoint.spec_ip();
    let port = endpoint.spec_port();
    if unusable(ip) {
        Some(unusable_message(kind, ip))
    } else if port == 0 {
        Some(kind + " "@ + endpoint.spec_text() + " has port zero"@)
    } else if port == 53 {
        Some(kind + " "@ + endpoint.spec_text() + " may not use port 53"@)
    } else if ip.link_local_v6() && endpoint.spec_scope() == 0 {
        Some(kind + " "@ + endpoint.spec_text() + " needs a numeric IPv6 scope id"@)
    } else if !local_ips.contains(ip) {
        Some(kind + " "@ + endpoint.spec_text() + " uses an IP that is not in local_ips"@)
    } else if repeats(endpoints, i, true) {
        Some("duplicate "@ + kind + " "@ + endpoint.spec_text())
    } else if repeats(endpoints, i, false) {
        Some(
            "overlapping "@ + kind + " endpoint "@ + (ip.spec_text() + ":"@ + decimal(port as nat)),
        )
    } else if count_at(endpoints.take(i + 1), ip) > 8 {
        Some(kind + " has more than "@ + decimal(8) + " endpoints for "@ + ip.spec_text())
    } else {
        None
    }
}

/// The first fault of a list of endpoints from `i` on.
pub open spec fn endpoints_fault(
    kind: Seq<char>,
    endpoints: Seq<SocketAddr>,
    i: int,
    local_ips: Seq<IpAddr>,
) -> Option<Seq<char>>
    decreases endpoints.len() - i,
{
    if i < 0 || i >= endpoints.len() {
        None
    } else {
        match endpoint_fault(kind, endpoints, i, local_ips) {
            Some(message) => Some(message),
            None => endpoints_fault(kind, endpoints, i + 1, local_ips),
        }
    }
}

/// The first fault of the local addresses from `i` on.
pub open spec fn local_fault(ips: Seq<IpAddr>, i: int) -> Option<Seq<char>>
    decreases ips.len() - i,
{
    if i < 0 || i >= ips.len() {
        None
    } else if unusable(ips[i]) {
        Some(unusable_message("local IP"@, ips[i]))
    } else if ips.take(i).contains(ips[i]) {
        Some("duplicate local IP "@ + ips[i].spec_text())
    } else {
        local_fault(ips, i + 1)
    }
}

/// Whether two endpoints at `ip` name different interfaces.
pub open spec fn ambiguous(endpoints: Seq<SocketAddr>, ip: IpAddr) -> bool {
    exists|i: int, j: int|
        0 <= i < endpoints.len() && 0 <= j < endpoints.len() && (#[trigger] endpoints[i]).spec_ip()
            == ip && (#[trigger] endpoints[j]).spec_ip() == ip && scope_of(endpoints[i])
            != scope_of(endpoints[j])
}

/// The first fault of the interfaces, by address in ascending order.
pub open spec fn scopes_fault(endpoints: Seq<SocketAddr>, ips: Seq<IpAddr>) -> Option<Seq<char>>
    decreases ips.len(),
{
    if ips.len() == 0 {
        None
    } else if ambiguous(endpoints, ips[0]) {
        Some(
            "IPv6 scope for "@ + ips[0].spec_text()
                + " is ambiguous across configured endpoints"@,
        )
    } else {
        scopes_fault(endpoints, ips.drop_first())
    }
}

/// What is wrong with the number of endpoints at `ip`.
pub open spec fn count_fault(
    kind: Seq<char>,
    endpoints: Seq<SocketAddr>,
    expected: nat,
    ip: IpAddr,
) -> Option<Seq<char>> {
    let actual = count_at(endpoints, ip);
    if actual != expected {
        Some(
            kind + " requires exactly "@ + decimal(expected) + " endpoint(s) for "@ + ip.spec_text()
                + (", found "@ + decimal(actual)),
        )
    } else {
        None
    }
}

/// The first fault in the number of endpoints, by address in ascending order.
pub open spec fn layout_fault(config: FilterView, ips: Seq<IpAddr>) -> Option<Seq<char>>
    decreases ips.len(),
{
    if ips.len() == 0 {
        None
    } else {
        let ip = ips[0];
        match count_fault("UDP proxy listener"@, config.udp_listeners, 1, ip) {
            Some(message) => Some(message),
            None => match count_fault("TCP proxy listener"@, config.tcp_listeners, 1, ip) {
                Some(message) => Some(message),
                None => match count_fault("UDP reserved upstream"@, config.udp_upstreams, 8, ip) {
                    Some(message) => Some(message),
                    None => match count_fault(
                        "TCP reserved upstream"@,
                        config.tcp_upstreams,
                        8,
                        ip,
                    ) {
                        Some(message) => Some(message),
                        None => layout_fault(config, ips.drop_first()),
                    },
                },
            },
        }
    }
}

/// Whether a listener has the address and port of `endpoint`.
pub open spec fn listens(listeners: Seq<SocketAddr>, endpoint: SocketAddr) -> bool {
    exists|j: int|
        0 <= j < listeners.len() && (#[trigger] listeners[j]).spec_ip() == endpoint.spec_ip()
            && listeners[j].spec_port() == endpoint.spec_port()
}

/// The first upstream from `i` on that is a listener too.
pub open spec fn overlap_fault(
    protocol: Seq<char>,
    listeners: Seq<SocketAddr>,
    upstreams: Seq<SocketAddr>,
    i: int,
) -> Option<Seq<char>>
    decreases upstreams.len() - i,
{
    if i < 0 || i >= upstreams.len() {
        None
    } else if listens(listeners, upstreams[i]) {
        Some(
            protocol + " proxy listener and reserved upstream overlap at "@ + (
            upstreams[i].spec_ip().spec_text() + ":"@ + decimal(upstreams[i].spec_port() as nat)),
        )
    } else {
        overlap_fault(protocol, listeners, upstreams, i + 1)
    }
}

/// A configuration as mathematical values.
pub ghost struct FilterView {
    pub local_ips: Seq<IpAddr>,
    pub udp_listeners: Seq<SocketAddr>,
    pub tcp_listeners: Seq<SocketAddr>,
    pub udp_upstreams: Seq<SocketAddr>,
    pub tcp_upstreams: Seq<SocketAddr>,
}

impl DnsFilterConfig {
    pub open spec fn view(&self) -> FilterView {
        FilterView {
            local_ips: self.local_ips@,
            udp_listeners: self.udp_proxy_listeners@,
            tcp_listeners: self.tcp_proxy_listeners@,
            udp_upstreams: self.udp_upstreams@,
            tcp_upstreams: self.tcp_upstreams@,
        }
    }
}

impl FilterView {
    /// All endpoints of the session.
    pub open spec fn endpoints(self) -> Seq<SocketAddr> {
        self.udp_listeners + self.tcp_listeners + self.udp_upstreams + self.tcp_upstreams
    }

    /// The first fault of the configuration.
    pub open spec fn fault(self) -> Option<Seq<char>> {
        let ips = self.local_ips;
        let sorted = sorted_ips(ips);
        if ips.len() == 0 {
            Some("DNS filter requires at least one local IP"@)
        } else if ips.len() > 16 {
            Some("DNS filter supports at most "@ + decimal(16) + " local IPs"@)
        } else if local_fault(ips, 0) is Some {
            local_fault(ips, 0)
        } else if endpoints_fault("UDP proxy listener"@, self.udp_listeners, 0, ips) is Some {
            endpoints_fault("UDP proxy listener"@, self.udp_listeners, 0, ips)
        } else if endpoints_fault("TCP proxy listener"@, self.tcp_listeners, 0, ips) is Some {
            endpoints_fault("TCP proxy listener"@, self.tcp_listeners, 0, ips)
        } else if endpoints_fault("UDP reserved upstream"@, self.udp_upstreams, 0, ips) is Some {
            endpoints_fault("UDP reserved upstream"@, self.udp_upstreams, 0, ips)
        } else if endpoints_fault("TCP reserved upstream"@, self.tcp_upstreams, 0, ips) is Some {
            endpoints_fault("TCP reserved upstream"@, self.tcp_upstreams, 0, ips)
        } else if scopes_fault(self.endpoints(), sorted) is Some {
            scopes_fault(self.endpoints(), sorted)
        } else if layout_fault(self, sorted) is Some {
            layout_fault(self, sorted)
        } else if overlap_fault("UDP"@, self.udp_listeners, self.udp_upstreams, 0) is Some {
            overlap_fault("UDP"@, self.udp_listeners, self.udp_upstreams, 0)
        } else {
            overlap_fault("TCP"@, self.tcp_listeners, self.tcp_upstreams, 0)
        }
    }

    /// The listeners of a transport.
    pub open spec fn listeners(self, protocol: Protocol) -> Seq<SocketAddr> {
        match protocol {
            Protocol::Udp => self.udp_listeners,
            Protocol::Tcp => self.tcp_listeners,
        }
    }

    /// The owned source endpoints of a transport.
    pub open spec fn upstreams(self, protocol: Protocol) -> Seq<SocketAddr> {
        match protocol {
            Protocol::Udp => self.udp_upstreams,
            Protocol::Tcp => self.tcp_upstreams,
        }
    }
}

/// One alternative of a filter.
pub ghost enum Clause {
    /// Requests to port 53 from an address, but for the excluded source ports.
    Request { protocol: Protocol, ip: IpAddr, scope: Option<u32>, excluded: Seq<u16> },
    /// What a proxy listener sends.
    Listener { protocol: Protocol, ip: IpAddr, scope: Option<u32>, port: u16 },
}

/// The name of a transport in a filter.
pub open spec fn protocol_name(protocol: Protocol) -> Seq<char> {
    match protocol {
        Protocol::Udp => "udp"@,
        Protocol::Tcp => "tcp"@,
    }
}

/// The test for a source address and its interface. An IPv6 address stands there
/// without an interface; that is tested by its number.
pub open spec fn source_test(ip: IpAddr, scope: Option<u32>) -> Seq<char> {
    let family = match ip {
        IpAddr::V4(_) => "ip"@,
        IpAddr::V6(_) => "ipv6"@,
    };
    let test = family + " and "@ + family + ".SrcAddr == "@ + ip.spec_text();
    match scope {
        Some(index) => test + " and ifIdx == "@ + decimal(index as nat),
        None => test,
    }
}

/// The exclusions of a request clause.
pub open spec fn exclusions(protocol: Protocol, ports: Seq<u16>) -> Seq<char>
    decreases ports.len(),
{
    if ports.len() == 0 {
        Seq::empty()
    } else {
        exclusions(protocol, ports.drop_last()) + " and "@ + protocol_name(protocol)
            + ".SrcPort != "@ + decimal(ports.last() as nat)
    }
}

impl Clause {
    /// The clause in the language of the driver.
    pub open spec fn text(self) -> Seq<char> {
        match self {
            Clause::Request { protocol, ip, scope, excluded } => {
                "("@ + protocol_name(protocol) + " and "@ + source_test(ip, scope) + " and "@
                    + protocol_name(protocol) + ".DstPort == 53"@ + exclusions(protocol, excluded)
                    + ")"@
            },
            Clause::Listener { protocol, ip, scope, port } => {
                "("@ + protocol_name(protocol) + " and "@ + source_test(ip, scope) + " and "@
                    + protocol_name(protocol) + ".SrcPort == "@ + decimal(port as nat) + ")"@
            },
        }
    }
}

/// The request clause of an address.
pub open spec fn request_clause(config: FilterView, protocol: Protocol, ip: IpAddr) -> Clause {
    let owned = config.upstreams(protocol);
    Clause::Request {
        protocol,
        ip,
        scope: scope_at(owned, ip),
        excluded: ports_at(owned, ip),
    }
}

/// The clause of the listener at an address.
pub open spec fn listener_clause(config: FilterView, protocol: Protocol, ip: IpAddr) -> Clause {
    let listeners = config.listeners(protocol);
    Clause::Listener {
        protocol,
        ip,
        scope: scope_at(listeners, ip),
        port: ports_at(listeners, ip)[0],
    }
}

/// The clauses for a group of addresses: requests over UDP, then over TCP, then
/// the UDP and the TCP listeners.
pub open spec fn clauses_for(config: FilterView, ips: Seq<IpAddr>) -> Seq<Clause> {
    ips.map_values(|ip: IpAddr| request_clause(config, Protocol::Udp, ip)) + ips.map_values(
        |ip: IpAddr| request_clause(config, Protocol::Tcp, ip),
    ) + ips.map_values(|ip: IpAddr| listener_clause(config, Protocol::Udp, ip)) + ips.map_values(
        |ip: IpAddr| listener_clause(config, Protocol::Tcp, ip),
    )
}

/// The alternatives, joined.
pub open spec fn alternatives(clauses: Seq<Clause>) -> Seq<char>
    decreases clauses.len(),
{
    if clauses.len() == 0 {
        Seq::empty()
    } else if clauses.len() == 1 {
        clauses[0].text()
    } else {
        alternatives(clauses.drop_last()) + " or "@ + clauses.last().text()
    }
}

/// The filter for a group of addresses.
pub open spec fn filter_text(config: FilterView, ips: Seq<IpAddr>) -> Seq<char> {
    "outbound and ("@ + alternatives(clauses_for(config, ips)) + ")"@
}

/// What is said of a filter that is too large.
pub open spec fn oversize_message() -> Seq<char> {
    "DNS interception filter exceeds "@ + decimal(32768) + " bytes"@
}

/// The filter for a group of addresses, within the bound on its size.
pub open spec fn bounded_filter(config: FilterView, ips: Seq<IpAddr>) -> Result<
    Seq<char>,
    Seq<char>,
> {
    if byte_len(filter_text(config, ips)) > 32768 {
        Err(oversize_message())
    } else {
        Ok(filter_text(config, ips))
    }
}

/// The `k`-th group of at most four addresses.
pub open spec fn group(ips: Seq<IpAddr>, k: int) -> Seq<IpAddr> {
    ips.subrange(
        4 * k,
        if 4 * k + 4 < ips.len() {
            4 * k + 4
        } else {
            ips.len() as int
        },
    )
}

/// The number of groups.
pub open spec fn group_count(ips: Seq<IpAddr>) -> int {
    (ips.len() as int + 3) / 4
}

/// Traffic as a filter sees it.
pub ghost struct Traffic {
    pub outbound: bool,
    pub protocol: Protocol,
    pub source: IpAddr,
    pub source_port: u16,
    pub destination_port: u16,
    pub interface: u32,
}

/// Whether a clause matches outbound traffic.
pub open spec fn clause_matches(clause: Clause, traffic: Traffic) -> bool {
    match clause {
        Clause::Request { protocol, ip, scope, excluded } => {
            &&& traffic.protocol == protocol
            &&& traffic.source == ip
            &&& scope matches Some(index) ==> traffic.interface == index
            &&& traffic.destination_port == 53
            &&& !excluded.contains(traffic.source_port)
        },
        Clause::Listener { protocol, ip, scope, port } => {
            &&& traffic.protocol == protocol
            &&& traffic.source == ip
            &&& scope matches Some(index) ==> traffic.interface == index
            &&& traffic.source_port == port
        },
    }
}

/// Whether the filter for a group of addresses captures the traffic.
pub open spec fn captures(config: FilterView, ips: Seq<IpAddr>, traffic: Traffic) -> bool {
    traffic.outbound && exists|i: int|
        0 <= i < clauses_for(config, ips).len() && clause_matches(
            #[trigger] clauses_for(config, ips)[i],
            traffic,
        )
}

/// Whether one of the endpoints is the source of the traffic.
pub open spec fn sends(endpoints: Seq<SocketAddr>, traffic: Traffic) -> bool {
    exists|j: int|
        0 <= j < endpoints.len() && (#[trigger] endpoints[j]).spec_ip() == traffic.source
            && endpoints[j].spec_port() == traffic.source_port
}

/// Whether the traffic leaves on the interface that the session names for its
/// source address, where it names one.
pub open spec fn on_interface(config: FilterView, traffic: Traffic) -> bool {
    forall|j: int|
        #![trigger config.endpoints()[j]]
        0 <= j < config.endpoints().len() && config.endpoints()[j].spec_ip() == traffic.source ==> (
        scope_of(config.endpoints()[j]) matches Some(index) ==> traffic.interface == index)
}

fn find_ip_place(ascending: &[IpAddr], x: IpAddr) -> (result: usize)
    ensures
        result == ip_place(ascending@, x),
        result <= ascending.len(),
{
    let mut i: usize = 0;
    assert(ascending@.skip(0) =~= ascending@);
    while i < ascending.len() && ascending[i].comes_before(&x)
        invariant
            i <= ascending.len(),
            ip_place(ascending@, x) == i + ip_place(ascending@.skip(i as int), x),
        decreases ascending.len() - i,
    {
        assert(ascending@.skip(i as int).drop_first() =~= ascending@.skip(i + 1));
        i += 1;
    }
    i
}

/// Sorts addresses.
pub(crate) fn sort_ips(ips: &[IpAddr]) -> (result: Vec<IpAddr>)
    ensures
        result@ == sorted_ips(ips@),
{
    let mut result: Vec<IpAddr> = Vec::new();
    let mut i: usize = 0;
    while i < ips.len()
        invariant
            i <= ips.len(),
            result@ == sorted_ips(ips@.take(i as int)),
        decreases ips.len() - i,
    {
        assert(ips@.take(i + 1).drop_last() =~= ips@.take(i as int));
        let at = find_ip_place(&result, ips[i]);
        result.insert(at, ips[i]);
        i += 1;
    }
    assert(ips@.take(i as int) =~= ips@);
    result
}

fn find_port_place(ascending: &[u16], x: u16) -> (result: usize)
    ensures
        result == port_place(ascending@, x),
        result <= ascending.len(),
{
    let mut i: usize = 0;
    assert(ascending@.skip(0) =~= ascending@);
    while i < ascending.len() && ascending[i] < x
        invariant
            i <= ascending.len(),
            port_place(ascending@, x) == i + port_place(ascending@.skip(i as int), x),
        decreases ascending.len() - i,
    {
        assert(ascending@.skip(i as int).drop_first() =~= ascending@.skip(i + 1));
        i += 1;
    }
    i
}

fn collect_ports(endpoints: &[SocketAddr], ip: IpAddr) -> (result: Vec<u16>)
    ensures
        result@ == ports_at(endpoints@, ip),
{
    let mut result: Vec<u16> = Vec::new();
    let mut i: usize = 0;
    while i < endpoints.len()
        invariant
            i <= endpoints.len(),
            result@ == ports_at(endpoints@.take(i as int), ip),
        decreases endpoints.len() - i,
    {
        assert(endpoints@.take(i + 1).drop_last() =~= endpoints@.take(i as int));
        let endpoint = endpoints[i];
        if endpoint.ip() == ip {
            let at = find_port_place(&result, endpoint.port());
            result.insert(at, endpoint.port());
        }
        i += 1;
    }
    assert(endpoints@.take(i as int) =~= endpoints@);
    result
}

fn endpoint_scope(endpoint: SocketAddr) -> (result: Option<u32>)
    ensures
        result == scope_of(endpoint),
{
    let scope: u32 = endpoint.scope();
    if scope != 0 {
        Some(scope)
    } else {
        None
    }
}

fn single_scope(endpoints: &[SocketAddr], ip: IpAddr) -> (result: Option<u32>)
    ensures
        result == scope_at(endpoints@, ip),
{
    let mut i: usize = 0;
    assert(endpoints@.skip(0) =~= endpoints@);
    while i < endpoints.len()
        invariant
            i <= endpoints.len(),
            scope_at(endpoints@, ip) == scope_at(endpoints@.skip(i as int), ip),
        decreases endpoints.len() - i,
    {
        if endpoints[i].ip() == ip {
            return endpoint_scope(endpoints[i]);
        }
        assert(endpoints@.skip(i as int).drop_first() =~= endpoints@.skip(i + 1));
        i += 1;
    }
    None
}

fn count_endpoints(endpoints: &[SocketAddr], upto: usize, ip: IpAddr) -> (result: usize)
    requires
        upto <= endpoints.len(),
    ensures
        result == count_at(endpoints@.take(upto as int), ip),
        result <= upto,
{
    let mut count: usize = 0;
    let mut i: usize = 0;
    while i < upto
        invariant
            i <= upto <= endpoints.len(),
            count == count_at(endpoints@.take(i as int), ip),
            count <= i,
        decreases upto - i,
    {
        assert(endpoints@.take(i + 1).drop_last() =~= endpoints@.take(i as int));
        if endpoints[i].ip() == ip {
            count += 1;
        }
        i += 1;
    }
    count
}

fn has_ip(ips: &[IpAddr], upto: usize, ip: IpAddr) -> (result: bool)
    requires
        upto <= ips.len(),
    ensures
        result == ips@.take(upto as int).contains(ip),
{
    let mut i: usize = 0;
    while i < upto
        invariant
            i <= upto <= ips.len(),
            forall|j: int| 0 <= j < i ==> ips@[j] != ip,
        decreases upto - i,
    {
        if ips[i] == ip {
            assert(ips@.take(upto as int)[i as int] == ip);
            return true;
        }
        i += 1;
    }
    false
}

fn is_unusable(ip: IpAddr) -> (result: bool)
    ensures
        result == unusable(ip),
{
    ip.is_unspecified() || ip.is_multicast() || match ip {
        IpAddr::V4(_) => false,
        IpAddr::V6(v6) => v6.is_mapped(),
    }
}

fn validate_ip(ip: IpAddr, kind: &str) -> (result: Result<(), String>)
    ensures
        result is Ok <==> !unusable(ip),
        result matches Err(message) ==> message@ == unusable_message(kind@, ip),
{
    if is_unusable(ip) {
        return Err(
            join4(kind, " ", ip.text().as_str(), " is unspecified, multicast, or mapped"),
        );
    }
    Ok(())
}

fn has_repeat(endpoints: &[SocketAddr], at: usize, same_scope: bool) -> (result: bool)
    requires
        at < endpoints.len(),
    ensures
        result == repeats(endpoints@, at as int, same_scope),
{
    let endpoint = endpoints[at];
    let mut i: usize = 0;
    while i < at
        invariant
            i <= at < endpoints.len(),
            endpoint == endpoints@[at as int],
            forall|j: int|
                0 <= j < i ==> !((#[trigger] endpoints@[j]).spec_ip() == endpoint.spec_ip()
                    && endpoints@[j].spec_port() == endpoint.spec_port() && (same_scope
                    ==> scope_of(endpoints@[j]) == scope_of(endpoint))),
        decreases at - i,
    {
        let other = endpoints[i];
        if other.ip() == endpoint.ip() && other.port() == endpoint.port() && (!same_scope
            || endpoint_scope(other) == endpoint_scope(endpoint)) {
            assert(endpoints@[i as int] == other);
            return true;
        }
        i += 1;
    }
    false
}

fn endpoint_text(ip: IpAddr, port: u16) -> (result: String)
    ensures
        result@ == ip.spec_text() + ":"@ + decimal(port as nat),
{
    join3(ip.text().as_str(), ":", decimal_text(port as u64).as_str())
}

fn validate_endpoint(kind: &str, endpoints: &[SocketAddr], at: usize, local_ips: &[IpAddr]) -> (result:
    Result<(), String>)
    requires
        at < endpoints.len(),
    ensures
        result is Ok <==> endpoint_fault(kind@, endpoints@, at as int, local_ips@) is None,
        result matches Err(message) ==> endpoint_fault(kind@, endpoints@, at as int, local_ips@)
            == Some(message@),
{
    let endpoint = endpoints[at];
    let ip = endpoint.ip();
    match validate_ip(ip, kind) {
        Ok(()) => {},
        Err(message) => return Err(message),
    }
    let text = endpoint.text();
    if endpoint.port() == 0 {
        return Err(join4(kind, " ", text.as_str(), " has port zero"));
    }
    if endpoint.port() == 53 {
        return Err(join4(kind, " ", text.as_str(), " may not use port 53"));
    }
    if ip.is_link_local_v6() && endpoint.scope() == 0 {
        return Err(join4(kind, " ", text.as_str(), " needs a numeric IPv6 scope id"));
    }
    assert(local_ips@.take(local_ips@.len() as int) =~= local_ips@);
    if !has_ip(local_ips, local_ips.len(), ip) {
        return Err(join4(kind, " ", text.as_str(), " uses an IP that is not in local_ips"));
    }
    if has_repeat(endpoints, at, true) {
        return Err(join4("duplicate ", kind, " ", text.as_str()));
    }
    if has_repeat(endpoints, at, false) {
        return Err(
            join4("overlapping ", kind, " endpoint ", endpoint_text(ip, endpoint.port()).as_str()),
        );
    }
    if count_endpoints(endpoints, at + 1, ip) > MAX_OWNED_SLOTS_PER_IP {
        return Err(
            join5(
                kind,
                " has more than ",
                decimal_text(8).as_str(),
                " endpoints for ",
                ip.text().as_str(),
            ),
        );
    }
    Ok(())
}

fn validate_endpoints(kind: &str, endpoints: &[SocketAddr], local_ips: &[IpAddr]) -> (result:
    Result<(), String>)
    ensures
        result is Ok <==> endpoints_fault(kind@, endpoints@, 0, local_ips@) is None,
        result matches Err(message) ==> endpoints_fault(kind@, endpoints@, 0, local_ips@) == Some(
            message@,
        ),
{
    let mut i: usize = 0;
    while i < endpoints.len()
        invariant
            i <= endpoints.len(),
            endpoints_fault(kind@, endpoints@, 0, local_ips@) == endpoints_fault(
                kind@,
                endpoints@,
                i as int,
                local_ips@,
            ),
        decreases endpoints.len() - i,
    {
        match validate_endpoint(kind, endpoints, i, local_ips) {
            Ok(()) => {},
            Err(message) => return Err(message),
        }
        i += 1;
    }
    Ok(())
}

fn validate_local_ips(ips: &[IpAddr]) -> (result: Result<(), String>)
    ensures
        result is Ok <==> local_fault(ips@, 0) is None,
        result matches Err(message) ==> local_fault(ips@, 0) == Some(message@),
{
    let mut i: usize = 0;
    while i < ips.len()
        invariant
            i <= ips.len(),
            local_fault(ips@, 0) == local_fault(ips@, i as int),
        decreases ips.len() - i,
    {
        let ip = ips[i];
        match validate_ip(ip, "local IP") {
            Ok(()) => {},
            Err(message) => return Err(message),
        }
        if has_ip(ips, i, ip) {
            return Err(join("duplicate local IP ", ip.text().as_str()));
        }
        i += 1;
    }
    Ok(())
}

fn is_ambiguous(endpoints: &[SocketAddr], ip: IpAddr) -> (result: bool)
    ensures
        result == ambiguous(endpoints@, ip),
{
    let mut i: usize = 0;
    while i < endpoints.len()
        invariant
            i <= endpoints.len(),
            forall|a: int, b: int|
                0 <= a < i && 0 <= b < endpoints.len() && (#[trigger] endpoints@[a]).spec_ip() == ip
                    && (#[trigger] endpoints@[b]).spec_ip() == ip ==> scope_of(endpoints@[a])
                    == scope_of(endpoints@[b]),
        decreases endpoints.len() - i,
    {
        let left = endpoints[i];
        if left.ip() == ip {
            let mut j: usize = 0;
            while j < endpoints.len()
                invariant
                    i < endpoints.len(),
                    j <= endpoints.len(),
                    left == endpoints@[i as int],
                    left.spec_ip() == ip,
                    forall|b: int|
                        0 <= b < j && (#[trigger] endpoints@[b]).spec_ip() == ip ==> scope_of(left)
                            == scope_of(endpoints@[b]),
                decreases endpoints.len() - j,
            {
                let right = endpoints[j];
                if right.ip() == ip && endpoint_scope(left) != endpoint_scope(right) {
                    assert(endpoints@[i as int] == left && endpoints@[j as int] == right);
                    return true;
                }
                j += 1;
            }
        }
        i += 1;
    }
    false
}

fn reject_ambiguous_scopes(endpoints: &[SocketAddr], ips: &[IpAddr]) -> (result: Result<(), String>)
    ensures
        result is Ok <==> scopes_fault(endpoints@, ips@) is None,
        result matches Err(message) ==> scopes_fault(endpoints@, ips@) == Some(message@),
{
    let mut i: usize = 0;
    assert(ips@.skip(0) =~= ips@);
    while i < ips.len()
        invariant
            i <= ips.len(),
            scopes_fault(endpoints@, ips@) == scopes_fault(endpoints@, ips@.skip(i as int)),
        decreases ips.len() - i,
    {
        if is_ambiguous(endpoints, ips[i]) {
            return Err(
                join3(
                    "IPv6 scope for ",
                    ips[i].text().as_str(),
                    " is ambiguous across configured endpoints",
                ),
            );
        }
        assert(ips@.skip(i as int).drop_first() =~= ips@.skip(i + 1));
        i += 1;
    }
    Ok(())
}

fn validate_count(kind: &str, endpoints: &[SocketAddr], expected: usize, ip: IpAddr) -> (result:
    Result<(), String>)
    ensures
        result is Ok <==> count_fault(kind@, endpoints@, expected as nat, ip) is None,
        result matches Err(message) ==> count_fault(kind@, endpoints@, expected as nat, ip) == Some(
            message@,
        ),
{
    let actual: usize = count_endpoints(endpoints, endpoints.len(), ip);
    assert(endpoints@.take(endpoints@.len() as int) =~= endpoints@);
    if actual != expected {
        let found = join(", found ", decimal_text(actual as u64).as_str());
        let mut message = join5(
            kind,
            " requires exactly ",
            decimal_text(expected as u64).as_str(),
            " endpoint(s) for ",
            ip.text().as_str(),
        );
        message.append(found.as_str());
        return Err(message);
    }
    Ok(())
}

fn validate_complete_layout(config: &DnsFilterConfig, ips: &[IpAddr]) -> (result: Result<
    (),
    String,
>)
    ensures
        result is Ok <==> layout_fault(config@, ips@) is None,
        result matches Err(message) ==> layout_fault(config@, ips@) == Some(message@),
{
    let mut i: usize = 0;
    assert(ips@.skip(0) =~= ips@);
    while i < ips.len()
        invariant
            i <= ips.len(),
            layout_fault(config@, ips@) == layout_fault(config@, ips@.skip(i as int)),
        decreases ips.len() - i,
    {
        let ip = ips[i];
        assert(ips@.skip(i as int).drop_first() =~= ips@.skip(i + 1));
        assert(ips@.skip(i as int)[0] == ip);
        match validate_count("UDP proxy listener", &config.udp_proxy_listeners, 1, ip) {
            Ok(()) => {},
            Err(message) => return Err(message),
        }
        match validate_count("TCP proxy listener", &config.tcp_proxy_listeners, 1, ip) {
            Ok(()) => {},
            Err(message) => return Err(message),
        }
        match validate_count(
            "UDP reserved upstream",
            &config.udp_upstreams,
            MAX_OWNED_SLOTS_PER_IP,
            ip,
        ) {
            Ok(()) => {},
            Err(message) => return Err(message),
        }
        match validate_count(
            "TCP reserved upstream",
            &config.tcp_upstreams,
            MAX_OWNED_SLOTS_PER_IP,
            ip,
        ) {
            Ok(()) => {},
            Err(message) => return Err(message),
        }
        i += 1;
    }
    Ok(())
}

fn has_listener(listeners: &[SocketAddr], endpoint: SocketAddr) -> (result: bool)
    ensures
        result == listens(listeners@, endpoint),
{
    let mut i: usize = 0;
    while i < listeners.len()
        invariant
            i <= listeners.len(),
            forall|j: int|
                0 <= j < i ==> !((#[trigger] listeners@[j]).spec_ip() == endpoint.spec_ip()
                    && listeners@[j].spec_port() == endpoint.spec_port()),
        decreases listeners.len() - i,
    {
        if listeners[i].ip() == endpoint.ip() && listeners[i].port() == endpoint.port() {
            assert(listeners@[i as int].spec_ip() == endpoint.spec_ip());
            return true;
        }
        i += 1;
    }
    false
}

fn reject_same_protocol_overlap(
    protocol: &str,
    listeners: &[SocketAddr],
    upstreams: &[SocketAddr],
) -> (result: Result<(), String>)
    ensures
        result is Ok <==> overlap_fault(protocol@, listeners@, upstreams@, 0) is None,
        result matches Err(message) ==> overlap_fault(protocol@, listeners@, upstreams@, 0) == Some(
            message@,
        ),
{
    let mut i: usize = 0;
    while i < upstreams.len()
        invariant
            i <= upstreams.len(),
            overlap_fault(protocol@, listeners@, upstreams@, 0) == overlap_fault(
                protocol@,
                listeners@,
                upstreams@,
                i as int,
            ),
        decreases upstreams.len() - i,
    {
        let endpoint = upstreams[i];
        if has_listener(listeners, endpoint) {
            return Err(
                join3(
                    protocol,
                    " proxy listener and reserved upstream overlap at ",
                    endpoint_text(endpoint.ip(), endpoint.port()).as_str(),
                ),
            );
        }
        i += 1;
    }
    Ok(())
}

fn push_endpoints(all: &mut Vec<SocketAddr>, more: &[SocketAddr])
    ensures
        final(all)@ == old(all)@ + more@,
{
    let ghost before = all@;
    let mut i: usize = 0;
    assert(before + more@.take(0) =~= before);
    while i < more.len()
        invariant
            i <= more.len(),
            all@ == before + more@.take(i as int),
        decreases more.len() - i,
    {
        all.push(more[i]);
        i += 1;
        assert(before + more@.take(i as int) =~= (before + more@.take(i - 1)).push(more@[i - 1]));
    }
    assert(more@.take(i as int) =~= more@);
}

/// Checks a configuration and gives its addresses in ascending order.
fn validate_config(config: &DnsFilterConfig) -> (result: Result<Vec<IpAddr>, String>)
    ensures
        result is Ok <==> config@.fault() is None,
        result matches Ok(ips) ==> ips@ == sorted_ips(config@.local_ips),
        result matches Err(message) ==> config@.fault() == Some(message@),
{
    if config.local_ips.len() == 0 {
        return Err("DNS filter requires at least one local IP".to_owned());
    }
    if config.local_ips.len() > MAX_LOCAL_IPS {
        return Err(
            join3("DNS filter supports at most ", decimal_text(16).as_str(), " local IPs"),
        );
    }
    match validate_local_ips(&config.local_ips) {
        Ok(()) => {},
        Err(message) => return Err(message),
    }
    match validate_endpoints("UDP proxy listener", &config.udp_proxy_listeners, &config.local_ips) {
        Ok(()) => {},
        Err(message) => return Err(message),
    }
    match validate_endpoints("TCP proxy listener", &config.tcp_proxy_listeners, &config.local_ips) {
        Ok(()) => {},
        Err(message) => return Err(message),
    }
    match validate_endpoints("UDP reserved upstream", &config.udp_upstreams, &config.local_ips) {
        Ok(()) => {},
        Err(message) => return Err(message),
    }
    match validate_endpoints("TCP reserved upstream", &config.tcp_upstreams, &config.local_ips) {
        Ok(()) => {},
        Err(message) => return Err(message),
    }
    let ips = sort_ips(&config.local_ips);
    let mut endpoints: Vec<SocketAddr> = Vec::new();
    push_endpoints(&mut endpoints, &config.udp_proxy_listeners);
    push_endpoints(&mut endpoints, &config.tcp_proxy_listeners);
    push_endpoints(&mut endpoints, &config.udp_upstreams);
    push_endpoints(&mut endpoints, &config.tcp_upstreams);
    assert(endpoints@ =~= config@.endpoints());
    match reject_ambiguous_scopes(&endpoints, &ips) {
        Ok(()) => {},
        Err(message) => return Err(message),
    }
    match validate_complete_layout(config, &ips) {
        Ok(()) => {},
        Err(message) => return Err(message),
    }
    match reject_same_protocol_overlap("UDP", &config.udp_proxy_listeners, &config.udp_upstreams) {
        Ok(()) => {},
        Err(message) => return Err(message),
    }
    match reject_same_protocol_overlap("TCP", &config.tcp_proxy_listeners, &config.tcp_upstreams) {
        Ok(()) => {},
        Err(message) => return Err(message),
    }
    Ok(ips)
}

fn name_of(protocol: Protocol) -> (result: &'static str)
    ensures
        result@ == protocol_name(protocol),
{
    match protocol {
        Protocol::Udp => "udp",
        Protocol::Tcp => "tcp",
    }
}

fn address_test(ip: IpAddr, scope: Option<u32>) -> (result: String)
    ensures
        result@ == source_test(ip, scope),
{
    let family = match ip {
        IpAddr::V4(_) => "ip",
        IpAddr::V6(_) => "ipv6",
    };
    let mut test = join5(family, " and ", family, ".SrcAddr == ", ip.text().as_str());
    if let Some(index) = scope {
        test.append(" and ifIdx == ");
        test.append(decimal_text(index as u64).as_str());
    }
    test
}

fn request_text(protocol: Protocol, ip: IpAddr, scope: Option<u32>, excluded: &[u16]) -> (result:
    String)
    ensures
        result@ == (Clause::Request { protocol, ip, scope, excluded: excluded@ }).text(),
{
    let name = name_of(protocol);
    let mut ports = String::new();
    let mut i: usize = 0;
    while i < excluded.len()
        invariant
            i <= excluded.len(),
            name@ == protocol_name(protocol),
            ports@ == exclusions(protocol, excluded@.take(i as int)),
        decreases excluded.len() - i,
    {
        assert(excluded@.take(i + 1).drop_last() =~= excluded@.take(i as int));
        ports.append(" and ");
        ports.append(name);
        ports.append(".SrcPort != ");
        ports.append(decimal_text(excluded[i] as u64).as_str());
        i += 1;
    }
    assert(excluded@.take(i as int) =~= excluded@);
    let mut clause = join5("(", name, " and ", address_test(ip, scope).as_str(), " and ");
    clause.append(name);
    clause.append(".DstPort == 53");
    clause.append(ports.as_str());
    clause.append(")");
    clause
}

fn listener_text(protocol: Protocol, ip: IpAddr, scope: Option<u32>, port: u16) -> (result: String)
    ensures
        result@ == (Clause::Listener { protocol, ip, scope, port }).text(),
{
    let name = name_of(protocol);
    let mut clause = join5("(", name, " and ", address_test(ip, scope).as_str(), " and ");
    clause.append(name);
    clause.append(".SrcPort == ");
    clause.append(decimal_text(port as u64).as_str());
    clause.append(")");
    clause
}

fn clause_text(
    config: &DnsFilterConfig,
    protocol: Protocol,
    listener: bool,
    ip: IpAddr,
) -> (result: String)
    requires
        listener ==> ports_at(config@.listeners(protocol), ip).len() > 0,
    ensures
        !listener ==> result@ == request_clause(config@, protocol, ip).text(),
        listener ==> result@ == listener_clause(config@, protocol, ip).text(),
{
    if listener {
        let listeners = match protocol {
            Protocol::Udp => &config.udp_proxy_listeners,
            Protocol::Tcp => &config.tcp_proxy_listeners,
        };
        let ports = collect_ports(listeners, ip);
        listener_text(protocol, ip, single_scope(listeners, ip), ports[0])
    } else {
        let owned = match protocol {
            Protocol::Udp => &config.udp_upstreams,
            Protocol::Tcp => &config.tcp_upstreams,
        };
        let ports = collect_ports(owned, ip);
        request_text(protocol, ip, single_scope(owned, ip), &ports)
    }
}

fn build_filter_for_ips(config: &DnsFilterConfig, ips: &[IpAddr], from: usize, to: usize) -> (result:
    Result<String, String>)
    requires
        from < to <= ips.len(),
        to - from <= 4,
        forall|i: int|
            0 <= i < ips@.len() ==> ports_at(config@.udp_listeners, #[trigger] ips@[i]).len() > 0
                && ports_at(config@.tcp_listeners, ips@[i]).len() > 0,
    ensures
        result is Ok <==> bounded_filter(config@, ips@.subrange(from as int, to as int)) is Ok,
        result matches Ok(text) ==> bounded_filter(config@, ips@.subrange(from as int, to as int))
            == Ok::<Seq<char>, Seq<char>>(text@),
        result matches Err(message) ==> message@ == oversize_message(),
{
    let ghost part = ips@.subrange(from as int, to as int);
    let ghost clauses = clauses_for(config@, part);
    let count: usize = to - from;
    let mut body = String::new();
    let mut i: usize = 0;
    while i < 4 * count
        invariant
            from < to <= ips.len(),
            count == to - from,
            count <= 4,
            i <= 4 * count,
            part == ips@.subrange(from as int, to as int),
            clauses == clauses_for(config@, part),
            clauses.len() == 4 * count,
            forall|i: int|
                0 <= i < ips@.len() ==> ports_at(config@.udp_listeners, #[trigger] ips@[i]).len()
                    > 0 && ports_at(config@.tcp_listeners, ips@[i]).len() > 0,
            body@ == alternatives(clauses.take(i as int)),
        decreases 4 * count - i,
    {
        let (protocol, listener, index): (Protocol, bool, usize) = if i < count {
            (Protocol::Udp, false, i)
        } else if i < 2 * count {
            (Protocol::Tcp, false, i - count)
        } else if i < 3 * count {
            (Protocol::Udp, true, i - 2 * count)
        } else {
            (Protocol::Tcp, true, i - 3 * count)
        };
        let ip = ips[from + index];
        assert(part[index as int] == ip);
        let clause = clause_text(config, protocol, listener, ip);
        assert(clause@ == clauses[i as int].text());
        if i > 0 {
            body.append(" or ");
        }
        body.append(clause.as_str());
        proof {
            let now = clauses.take(i + 1);
            assert(now.drop_last() =~= clauses.take(i as int));
            assert(now.last() == clauses[i as int]);
            if i == 0 {
                assert(body@ =~= clause@);
            }
        }
        i += 1;
    }
    assert(clauses.take(i as int) =~= clauses);
    let filter = join3("outbound and (", body.as_str(), ")");
    if filter.as_str().as_bytes().len() > MAX_FILTER_BYTES {
        return Err(
            join3("DNS interception filter exceeds ", decimal_text(32768).as_str(), " bytes"),
        );
    }
    Ok(filter)
}

/// What is said of a configuration that needs several filters.
pub open spec fn too_many_message() -> Seq<char> {
    "one DNS filter supports at most "@ + decimal(4) + " local IPs; use build_dns_filters"@
}

/// Builds the filter of a session with few addresses.
///
/// It captures outbound requests to port 53 from a local address, except from the
/// owned source ports of the same transport, and what a proxy listener sends.
pub fn build_dns_filter(config: &DnsFilterConfig) -> (result: Result<String, String>)
    ensures
        result is Ok <==> config@.fault() is None && config@.local_ips.len() <= 4
            && byte_len(filter_text(config@, sorted_ips(config@.local_ips))) <= 32768,
        result matches Ok(text) ==> text@ == filter_text(config@, sorted_ips(config@.local_ips)),
        result matches Err(message) ==> message@ == (if config@.fault() is Some {
            config@.fault()->0
        } else if config@.local_ips.len() > 4 {
            too_many_message()
        } else {
            oversize_message()
        }),
{
    let ips = match validate_config(config) {
        Ok(ips) => ips,
        Err(message) => return Err(message),
    };
    proof {
        lemma_sorted_ips(config@.local_ips);
        lemma_listeners_present(config@);
    }
    if ips.len() > MAX_FILTER_IPS {
        return Err(
            join3(
                "one DNS filter supports at most ",
                decimal_text(4).as_str(),
                " local IPs; use build_dns_filters",
            ),
        );
    }
    assert(ips@.subrange(0, ips@.len() as int) =~= ips@);
    build_filter_for_ips(config, &ips, 0, ips.len())
}

/// Builds one filter for each group of at most four addresses, in ascending order.
/// Every local address has its clauses in exactly one of them.
pub fn build_dns_filters(config: &DnsFilterConfig) -> (result: Result<Vec<String>, String>)
    ensures
        ({
            let sorted = sorted_ips(config@.local_ips);
            let count = group_count(sorted);
            &&& result is Ok <==> config@.fault() is None && forall|k: int|
                0 <= k < count ==> byte_len(#[trigger] filter_text(config@, group(sorted, k)))
                    <= 32768
            &&& result matches Ok(filters) ==> filters@.len() == count && forall|k: int|
                0 <= k < count ==> (#[trigger] filters@[k])@ == filter_text(
                    config@,
                    group(sorted, k),
                )
            &&& result matches Err(message) ==> message@ == (if config@.fault() is Some {
                config@.fault()->0
            } else {
                oversize_message()
            })
        }),
{
    let ips = match validate_config(config) {
        Ok(ips) => ips,
        Err(message) => return Err(message),
    };
    let ghost sorted = sorted_ips(config@.local_ips);
    proof {
        lemma_sorted_ips(config@.local_ips);
        lemma_listeners_present(config@);
    }
    let mut filters: Vec<String> = Vec::new();
    let mut from: usize = 0;
    while from < ips.len()
        invariant
            ips@ == sorted,
            sorted == sorted_ips(config@.local_ips),
            config@.fault() is None,
            ips.len() <= 16,
            from == 4 * filters.len() || (from == ips.len() && filters.len() == group_count(
                sorted,
            )),
            from <= ips.len(),
            filters.len() <= group_count(sorted),
            forall|i: int|
                0 <= i < ips@.len() ==> ports_at(config@.udp_listeners, #[trigger] ips@[i]).len()
                    > 0 && ports_at(config@.tcp_listeners, ips@[i]).len() > 0,
            forall|k: int|
                0 <= k < filters@.len() ==> (#[trigger] filters@[k])@ == filter_text(
                    config@,
                    group(sorted, k),
                ) && byte_len(filter_text(config@, group(sorted, k))) <= 32768,
        decreases ips.len() - from,
    {
        let to: usize = if from + 4 < ips.len() {
            from + 4
        } else {
            ips.len()
        };
        let ghost k = filters@.len() as int;
        assert(ips@.subrange(from as int, to as int) == group(sorted, k));
        match build_filter_for_ips(config, &ips, from, to) {
            Ok(filter) => {
                let ghost seen = filters@;
                assert(filter@ == filter_text(config@, group(sorted, k)));
                filters.push(filter);
                assert forall|j: int| 0 <= j < filters@.len() implies (#[trigger] filters@[j])@
                    == filter_text(config@, group(sorted, j)) && byte_len(
                    filter_text(config@, group(sorted, j)),
                ) <= 32768 by {
                    if j < k {
                        assert(filters@[j] == seen[j]);
                    }
                }
            },
            Err(message) => {
                assert(byte_len(filter_text(config@, group(sorted, k))) > 32768);
                return Err(message);
            },
        }
        from = to;
    }
    assert(filters@.len() == group_count(sorted));
    assert forall|k: int| 0 <= k < group_count(sorted) implies byte_len(
        #[trigger] filter_text(config@, group(sorted, k)),
    ) <= 32768 by {
        assert(filters@[k]@ == filter_text(config@, group(sorted, k)));
    }
    Ok(filters)
}

/// Sorting keeps every address and their number.
pub proof fn lemma_sorted_ips(ips: Seq<IpAddr>)
    ensures
        sorted_ips(ips).len() == ips.len(),
        forall|ip: IpAddr| #[trigger] sorted_ips(ips).contains(ip) <==> ips.contains(ip),
    decreases ips.len(),
{
    if ips.len() > 0 {
        let rest = sorted_ips(ips.drop_last());
        let at = ip_place(rest, ips.last());
        lemma_sorted_ips(ips.drop_last());
        lemma_ip_place(rest, ips.last());
        let whole = rest.insert(at, ips.last());
        assert forall|ip: IpAddr| #[trigger] whole.contains(ip) <==> ips.contains(ip) by {
            if whole.contains(ip) {
                let i = choose|i: int| 0 <= i < whole.len() && whole[i] == ip;
                if i == at {
                    assert(ips[ips.len() - 1] == ip);
                } else {
                    assert(rest.contains(ip)) by {
                        if i < at {
                            assert(rest[i] == ip);
                        } else {
                            assert(rest[i - 1] == ip);
                        }
                    }
                    let k = choose|k: int|
                        0 <= k < ips.drop_last().len() && ips.drop_last()[k] == ip;
                    assert(ips[k] == ip);
                }
            }
            if ips.contains(ip) {
                let k = choose|k: int| 0 <= k < ips.len() && ips[k] == ip;
                if k == ips.len() - 1 {
                    assert(whole[at] == ip);
                } else {
                    assert(ips.drop_last()[k] == ip);
                    assert(rest.contains(ip));
                    let i = choose|i: int| 0 <= i < rest.len() && rest[i] == ip;
                    if i < at {
                        assert(whole[i] == ip);
                    } else {
                        assert(whole[i + 1] == ip);
                    }
                }
            }
        }
    }
}

proof fn lemma_ip_place(ascending: Seq<IpAddr>, x: IpAddr)
    ensures
        0 <= ip_place(ascending, x) <= ascending.len(),
        forall|i: int|
            0 <= i < ip_place(ascending, x) ==> (#[trigger] ascending[i]).before(x),
        ip_place(ascending, x) < ascending.len() ==> !ascending[ip_place(ascending, x)].before(x),
    decreases ascending.len(),
{
    if ascending.len() > 0 && ascending[0].before(x) {
        let rest = ascending.drop_first();
        lemma_ip_place(rest, x);
        assert forall|i: int| 0 <= i < ip_place(ascending, x) implies (#[trigger] ascending[i]).before(
            x,
        ) by {
            if i > 0 {
                assert(rest[i - 1] == ascending[i]);
            }
        }
    }
}

proof fn lemma_port_place(ascending: Seq<u16>, x: u16)
    ensures
        0 <= port_place(ascending, x) <= ascending.len(),
    decreases ascending.len(),
{
    if ascending.len() > 0 && ascending[0] < x {
        lemma_port_place(ascending.drop_first(), x);
    }
}

/// The sorted ports are those of the endpoints at the address.
proof fn lemma_ports_at(endpoints: Seq<SocketAddr>, ip: IpAddr)
    ensures
        ports_at(endpoints, ip).len() == count_at(endpoints, ip),
        forall|port: u16|
            #![trigger ports_at(endpoints, ip).contains(port)]
            ports_at(endpoints, ip).contains(port) <==> exists|j: int|
                0 <= j < endpoints.len() && (#[trigger] endpoints[j]).spec_ip() == ip
                    && endpoints[j].spec_port() == port,
    decreases endpoints.len(),
{
    if endpoints.len() > 0 {
        let front = endpoints.drop_last();
        let last = endpoints.last();
        let rest = ports_at(front, ip);
        let whole = ports_at(endpoints, ip);
        lemma_ports_at(front, ip);
        let at = port_place(rest, last.spec_port());
        lemma_port_place(rest, last.spec_port());
        assert forall|port: u16| #[trigger] whole.contains(port) <==> exists|j: int|
            0 <= j < endpoints.len() && (#[trigger] endpoints[j]).spec_ip() == ip
                && endpoints[j].spec_port() == port by {
            if whole.contains(port) {
                let i = choose|i: int| 0 <= i < whole.len() && whole[i] == port;
                if last.spec_ip() == ip && i == at {
                    assert(endpoints[endpoints.len() - 1].spec_port() == port);
                } else {
                    assert(rest.contains(port)) by {
                        if last.spec_ip() != ip || i < at {
                            assert(rest[i] == port);
                        } else {
                            assert(rest[i - 1] == port);
                        }
                    }
                    let j = choose|j: int|
                        0 <= j < front.len() && (#[trigger] front[j]).spec_ip() == ip
                            && front[j].spec_port() == port;
                    assert(endpoints[j] == front[j]);
                }
            }
            if exists|j: int|
                0 <= j < endpoints.len() && (#[trigger] endpoints[j]).spec_ip() == ip
                    && endpoints[j].spec_port() == port {
                let j = choose|j: int|
                    0 <= j < endpoints.len() && (#[trigger] endpoints[j]).spec_ip() == ip
                        && endpoints[j].spec_port() == port;
                if j == endpoints.len() - 1 {
                    assert(whole[at] == port);
                } else {
                    assert(front[j] == endpoints[j]);
                    assert(rest.contains(port));
                    let i = choose|i: int| 0 <= i < rest.len() && rest[i] == port;
                    if last.spec_ip() != ip || i < at {
                        assert(whole[i] == port);
                    } else {
                        assert(whole[i + 1] == port);
                    }
                }
            }
        }
    }
}

proof fn lemma_scope_at(endpoints: Seq<SocketAddr>, ip: IpAddr)
    requires
        count_at(endpoints, ip) > 0,
    ensures
        exists|j: int|
            0 <= j < endpoints.len() && (#[trigger] endpoints[j]).spec_ip() == ip && scope_of(
                endpoints[j],
            ) == scope_at(endpoints, ip),
    decreases endpoints.len(),
{
    if endpoints[0].spec_ip() != ip {
        let rest = endpoints.drop_first();
        lemma_count_drop_first(endpoints, ip);
        lemma_scope_at(rest, ip);
        let j = choose|j: int|
            0 <= j < rest.len() && (#[trigger] rest[j]).spec_ip() == ip && scope_of(rest[j])
                == scope_at(rest, ip);
        assert(endpoints[j + 1] == rest[j]);
    }
}

proof fn lemma_count_drop_first(endpoints: Seq<SocketAddr>, ip: IpAddr)
    requires
        endpoints.len() > 0,
        endpoints[0].spec_ip() != ip,
    ensures
        count_at(endpoints.drop_first(), ip) == count_at(endpoints, ip),
    decreases endpoints.len(),
{
    if endpoints.len() > 1 {
        lemma_count_drop_first(endpoints.drop_last(), ip);
        assert(endpoints.drop_last().drop_first() =~= endpoints.drop_first().drop_last());
        assert(endpoints.drop_first().last() == endpoints.last());
    } else {
        assert(endpoints.drop_first() =~= Seq::empty());
        assert(endpoints.drop_last() =~= Seq::empty());
    }
}

proof fn lemma_layout_counts(config: FilterView, ips: Seq<IpAddr>, i: int)
    requires
        layout_fault(config, ips) is None,
        0 <= i < ips.len(),
    ensures
        count_at(config.udp_listeners, ips[i]) == 1,
        count_at(config.tcp_listeners, ips[i]) == 1,
        count_at(config.udp_upstreams, ips[i]) == 8,
        count_at(config.tcp_upstreams, ips[i]) == 8,
    decreases i,
{
    if i > 0 {
        lemma_layout_counts(config, ips.drop_first(), i - 1);
    }
}

proof fn lemma_scopes_agree(endpoints: Seq<SocketAddr>, ips: Seq<IpAddr>, i: int)
    requires
        scopes_fault(endpoints, ips) is None,
        0 <= i < ips.len(),
    ensures
        !ambiguous(endpoints, ips[i]),
    decreases i,
{
    if i > 0 {
        lemma_scopes_agree(endpoints, ips.drop_first(), i - 1);
    }
}

proof fn lemma_listeners_present(config: FilterView)
    requires
        config.fault() is None,
    ensures
        ({
            let sorted = sorted_ips(config.local_ips);
            forall|i: int|
                0 <= i < sorted.len() ==> ports_at(config.udp_listeners, #[trigger] sorted[i]).len()
                    > 0 && ports_at(config.tcp_listeners, sorted[i]).len() > 0
        }),
{
    let sorted = sorted_ips(config.local_ips);
    assert forall|i: int| 0 <= i < sorted.len() implies ports_at(
        config.udp_listeners,
        #[trigger] sorted[i],
    ).len() > 0 && ports_at(config.tcp_listeners, sorted[i]).len() > 0 by {
        lemma_layout_counts(config, sorted, i);
        lemma_ports_at(config.udp_listeners, sorted[i]);
        lemma_ports_at(config.tcp_listeners, sorted[i]);
    }
}

/// Where a list of endpoints starts among all of them.
spec fn list_start(config: FilterView, protocol: Protocol, listeners: bool) -> int {
    match (protocol, listeners) {
        (Protocol::Udp, true) => 0,
        (Protocol::Tcp, true) => config.udp_listeners.len() as int,
        (Protocol::Udp, false) => (config.udp_listeners.len() + config.tcp_listeners.len()) as int,
        (Protocol::Tcp, false) => (config.udp_listeners.len() + config.tcp_listeners.len()
            + config.udp_upstreams.len()) as int,
    }
}

/// All endpoints at a local address name the interface of the first one of any
/// list that has one.
proof fn lemma_on_interface(
    config: FilterView,
    protocol: Protocol,
    listeners: bool,
    traffic: Traffic,
)
    requires
        ({
            let list = if listeners {
                config.listeners(protocol)
            } else {
                config.upstreams(protocol)
            };
            count_at(list, traffic.source) > 0
        }),
        !ambiguous(config.endpoints(), traffic.source),
    ensures
        ({
            let list = if listeners {
                config.listeners(protocol)
            } else {
                config.upstreams(protocol)
            };
            on_interface(config, traffic) <==> (scope_at(list, traffic.source) matches Some(index)
                ==> traffic.interface == index)
        }),
{
    let list = if listeners {
        config.listeners(protocol)
    } else {
        config.upstreams(protocol)
    };
    let ip = traffic.source;
    let all = config.endpoints();
    lemma_scope_at(list, ip);
    let j = choose|j: int|
        0 <= j < list.len() && (#[trigger] list[j]).spec_ip() == ip && scope_of(list[j])
            == scope_at(list, ip);
    let at = list_start(config, protocol, listeners) + j;
    assert(all[at] == list[j]);
    assert forall|k: int| 0 <= k < all.len() && (#[trigger] all[k]).spec_ip() == ip implies scope_of(
        all[k],
    ) == scope_at(list, ip) by {
        assert(all[at].spec_ip() == ip);
    }
}

/// What a validated configuration keeps at each of its addresses.
proof fn lemma_validated(config: FilterView, ip: IpAddr)
    requires
        config.fault() is None,
        config.local_ips.contains(ip),
    ensures
        count_at(config.udp_listeners, ip) == 1,
        count_at(config.tcp_listeners, ip) == 1,
        count_at(config.udp_upstreams, ip) == 8,
        count_at(config.tcp_upstreams, ip) == 8,
        !ambiguous(config.endpoints(), ip),
{
    let sorted = sorted_ips(config.local_ips);
    lemma_sorted_ips(config.local_ips);
    assert(sorted.contains(ip));
    let i = choose|i: int| 0 <= i < sorted.len() && sorted[i] == ip;
    lemma_layout_counts(config, sorted, i);
    lemma_scopes_agree(config.endpoints(), sorted, i);
}

/// The endpoints at an address of a validated configuration name one interface.
pub(crate) proof fn scopes_are_unambiguous(config: FilterView, ip: IpAddr)
    requires
        config.fault() is None,
        config.local_ips.contains(ip),
    ensures
        !ambiguous(config.endpoints(), ip),
{
    lemma_validated(config, ip);
}

/// A listener of a validated configuration listens at a local address, on a port other
/// than zero and that of requests.
pub(crate) proof fn listeners_are_in_order(config: FilterView, protocol: Protocol, at: int)
    requires
        config.fault() is None,
        0 <= at < config.listeners(protocol).len(),
    ensures
        config.local_ips.contains(config.listeners(protocol)[at].spec_ip()),
        config.listeners(protocol)[at].spec_port() != 0,
        config.listeners(protocol)[at].spec_port() != 53,
        config.endpoints().contains(config.listeners(protocol)[at]),
{
    match protocol {
        Protocol::Udp => {
            lemma_endpoints_in_order(
                "UDP proxy listener"@,
                config.udp_listeners,
                0,
                config.local_ips,
            );
            assert(usable_endpoint(config.udp_listeners[at], config.local_ips));
        },
        Protocol::Tcp => {
            lemma_endpoints_in_order(
                "TCP proxy listener"@,
                config.tcp_listeners,
                0,
                config.local_ips,
            );
            assert(usable_endpoint(config.tcp_listeners[at], config.local_ips));
        },
    }
    let start = list_start(config, protocol, true);
    assert(config.endpoints()[start + at] == config.listeners(protocol)[at]);
}

/// A local address of a validated configuration has an owned source endpoint.
pub(crate) proof fn upstreams_share_the_host(config: FilterView, ip: IpAddr) -> (at: int)
    requires
        config.fault() is None,
        config.local_ips.contains(ip),
    ensures
        0 <= at < config.udp_upstreams.len(),
        config.udp_upstreams[at].spec_ip() == ip,
        config.endpoints().contains(config.udp_upstreams[at]),
{
    lemma_validated(config, ip);
    lemma_scope_at(config.udp_upstreams, ip);
    let at = choose|at: int|
        0 <= at < config.udp_upstreams.len() && (#[trigger] config.udp_upstreams[at]).spec_ip()
            == ip && scope_of(config.udp_upstreams[at]) == scope_at(config.udp_upstreams, ip);
    let start = list_start(config, Protocol::Udp, false);
    assert(config.endpoints()[start + at] == config.udp_upstreams[at]);
    at
}

/// Whether the session is to capture the traffic: outbound requests to port 53
/// from a local address and not from an owned source endpoint of the same
/// transport, and whatever a proxy listener sends.
pub open spec fn wanted(config: FilterView, traffic: Traffic) -> bool {
    &&& traffic.outbound
    &&& config.local_ips.contains(traffic.source)
    &&& on_interface(config, traffic)
    &&& (traffic.destination_port == 53 && !sends(config.upstreams(traffic.protocol), traffic))
        || sends(config.listeners(traffic.protocol), traffic)
}

proof fn lemma_request_clause(config: FilterView, protocol: Protocol, traffic: Traffic)
    requires
        config.fault() is None,
        config.local_ips.contains(traffic.source),
    ensures
        clause_matches(request_clause(config, protocol, traffic.source), traffic) <==> {
            &&& traffic.protocol == protocol
            &&& on_interface(config, traffic)
            &&& traffic.destination_port == 53
            &&& !sends(config.upstreams(protocol), traffic)
        },
{
    lemma_validated(config, traffic.source);
    lemma_on_interface(config, protocol, false, traffic);
    lemma_ports_at(config.upstreams(protocol), traffic.source);
    assert(ports_at(config.upstreams(protocol), traffic.source).contains(traffic.source_port)
        <==> sends(config.upstreams(protocol), traffic));
}

proof fn lemma_listener_clause(config: FilterView, protocol: Protocol, traffic: Traffic)
    requires
        config.fault() is None,
        config.local_ips.contains(traffic.source),
    ensures
        clause_matches(listener_clause(config, protocol, traffic.source), traffic) <==> {
            &&& traffic.protocol == protocol
            &&& on_interface(config, traffic)
            &&& sends(config.listeners(protocol), traffic)
        },
{
    let list = config.listeners(protocol);
    lemma_validated(config, traffic.source);
    lemma_on_interface(config, protocol, true, traffic);
    lemma_ports_at(list, traffic.source);
    let ports = ports_at(list, traffic.source);
    assert(ports.contains(traffic.source_port) <==> sends(list, traffic));
    assert(ports.contains(traffic.source_port) <==> ports[0] == traffic.source_port) by {
        if ports[0] == traffic.source_port {
            assert(ports.contains(traffic.source_port));
        }
    }
}

/// The filter of a group of local addresses captures exactly what the session is
/// to capture of the traffic from those addresses.
pub proof fn filter_captures_exactly(config: FilterView, ips: Seq<IpAddr>, traffic: Traffic)
    requires
        config.fault() is None,
        forall|i: int| 0 <= i < ips.len() ==> config.local_ips.contains(#[trigger] ips[i]),
    ensures
        captures(config, ips, traffic) <==> ips.contains(traffic.source) && wanted(config, traffic),
{
    let clauses = clauses_for(config, ips);
    let n = ips.len() as int;
    if captures(config, ips, traffic) {
        let i = choose|i: int| 0 <= i < clauses.len() && clause_matches(#[trigger] clauses[i], traffic);
        if i < n {
            assert(clauses[i] == request_clause(config, Protocol::Udp, ips[i]));
            assert(traffic.source == ips[i]);
            lemma_request_clause(config, Protocol::Udp, traffic);
        } else if i < 2 * n {
            assert(clauses[i] == request_clause(config, Protocol::Tcp, ips[i - n]));
            assert(traffic.source == ips[i - n]);
            lemma_request_clause(config, Protocol::Tcp, traffic);
        } else if i < 3 * n {
            assert(clauses[i] == listener_clause(config, Protocol::Udp, ips[i - 2 * n]));
            assert(traffic.source == ips[i - 2 * n]);
            lemma_listener_clause(config, Protocol::Udp, traffic);
        } else {
            assert(clauses[i] == listener_clause(config, Protocol::Tcp, ips[i - 3 * n]));
            assert(traffic.source == ips[i - 3 * n]);
            lemma_listener_clause(config, Protocol::Tcp, traffic);
        }
    }
    if ips.contains(traffic.source) && wanted(config, traffic) {
        let i = choose|i: int| 0 <= i < ips.len() && ips[i] == traffic.source;
        lemma_request_clause(config, traffic.protocol, traffic);
        lemma_listener_clause(config, traffic.protocol, traffic);
        match traffic.protocol {
            Protocol::Udp => {
                assert(clauses[i] == request_clause(config, Protocol::Udp, ips[i]));
                assert(clauses[i + 2 * n] == listener_clause(config, Protocol::Udp, ips[i]));
            },
            Protocol::Tcp => {
                assert(clauses[i + n] == request_clause(config, Protocol::Tcp, ips[i]));
                assert(clauses[i + 3 * n] == listener_clause(config, Protocol::Tcp, ips[i]));
            },
        }
    }
}

proof fn lemma_local_distinct(ips: Seq<IpAddr>, from: int)
    requires
        0 <= from,
        local_fault(ips, from) is None,
    ensures
        forall|i: int, j: int| 0 <= i < j && from <= j < ips.len() ==> ips[i] != ips[j],
    decreases ips.len() - from,
{
    if from < ips.len() {
        lemma_local_distinct(ips, from + 1);
        assert forall|i: int, j: int| 0 <= i < j && from <= j < ips.len() implies ips[i] != ips[j] by {
            if j == from {
                assert(ips.take(from)[i] == ips[i]);
            }
        }
    }
}

/// The addresses of a session in ascending order: none comes twice.
pub proof fn sorted_ips_are_ascending(ips: Seq<IpAddr>)
    requires
        forall|i: int, j: int| 0 <= i < j < ips.len() ==> ips[i] != ips[j],
    ensures
        forall|i: int, j: int|
            0 <= i < j < sorted_ips(ips).len() ==> sorted_ips(ips)[i].before(sorted_ips(ips)[j]),
    decreases ips.len(),
{
    if ips.len() > 0 {
        let front = ips.drop_last();
        let last = ips.last();
        let rest = sorted_ips(front);
        sorted_ips_are_ascending(front);
        lemma_sorted_ips(front);
        lemma_ip_place(rest, last);
        let at = ip_place(rest, last);
        let whole = rest.insert(at, last);
        assert(!rest.contains(last)) by {
            if rest.contains(last) {
                let k = choose|k: int| 0 <= k < front.len() && front[k] == last;
                assert(ips[k] == ips[ips.len() - 1]);
            }
        }
        assert forall|i: int, j: int| 0 <= i < j < whole.len() implies whole[i].before(whole[j]) by {
            if i == at {
                let x = rest[j - 1];
                assert(whole[j] == x);
                assert(x != last);
                crate::net::order_is_total(last, rest[at]);
                assert(rest[at] != last);
                assert(last.before(rest[at]));
                if j - 1 > at {
                    assert(rest[at].before(rest[j - 1]));
                    crate::net::order_is_transitive(last, rest[at], x);
                }
            } else if j == at {
                assert(whole[i] == rest[i]);
            } else {
                let a = if i < at { i } else { i - 1 };
                let b = if j < at { j } else { j - 1 };
                assert(whole[i] == rest[a] && whole[j] == rest[b]);
            }
        }
    }
}

/// The filters of a session leave nothing out and never overlap: traffic that the
/// session is to capture is captured by exactly one of them, and other traffic by
/// none.
pub proof fn filters_partition_the_traffic(config: FilterView, traffic: Traffic, j: int, k: int)
    requires
        config.fault() is None,
        0 <= j < group_count(sorted_ips(config.local_ips)),
        0 <= k < group_count(sorted_ips(config.local_ips)),
    ensures
        ({
            let sorted = sorted_ips(config.local_ips);
            &&& captures(config, group(sorted, j), traffic) && captures(
                config,
                group(sorted, k),
                traffic,
            ) ==> j == k
            &&& wanted(config, traffic) <==> exists|g: int|
                0 <= g < group_count(sorted) && captures(
                    config,
                    #[trigger] group(sorted, g),
                    traffic,
                )
        }),
{
    let sorted = sorted_ips(config.local_ips);
    lemma_sorted_ips(config.local_ips);
    lemma_local_distinct(config.local_ips, 0);
    sorted_ips_are_ascending(config.local_ips);
    assert forall|g: int, i: int|
        0 <= g < group_count(sorted) && 0 <= i < group(
            sorted,
            g,
        ).len() implies config.local_ips.contains(#[trigger] group(sorted, g)[i]) by {
        assert(group(sorted, g)[i] == sorted[4 * g + i]);
        assert(sorted.contains(sorted[4 * g + i]));
    }
    filter_captures_exactly(config, group(sorted, j), traffic);
    filter_captures_exactly(config, group(sorted, k), traffic);
    if group(sorted, j).contains(traffic.source) && group(sorted, k).contains(traffic.source) {
        let a = choose|a: int| 0 <= a < group(sorted, j).len() && group(sorted, j)[a] == traffic.source;
        let b = choose|b: int| 0 <= b < group(sorted, k).len() && group(sorted, k)[b] == traffic.source;
        assert(sorted[4 * j + a] == sorted[4 * k + b]);
        crate::net::order_is_total(traffic.source, traffic.source);
        if j != k {
            if 4 * j + a < 4 * k + b {
                assert(sorted[4 * j + a].before(sorted[4 * k + b]));
            } else {
                assert(sorted[4 * k + b].before(sorted[4 * j + a]));
            }
        }
    }
    if wanted(config, traffic) {
        assert(sorted.contains(traffic.source));
        let i = choose|i: int| 0 <= i < sorted.len() && sorted[i] == traffic.source;
        let g = i / 4;
        assert(group(sorted, g)[i - 4 * g] == traffic.source);
        assert(group(sorted, g).contains(traffic.source));
        filter_captures_exactly(config, group(sorted, g), traffic);
    }
    if exists|g: int|
        0 <= g < group_count(sorted) && captures(config, #[trigger] group(sorted, g), traffic) {
        let g = choose|g: int|
            0 <= g < group_count(sorted) && captures(config, #[trigger] group(sorted, g), traffic);
        filter_captures_exactly(config, group(sorted, g), traffic);
    }
}

/// Whether two lists hold the same elements as often, in whatever order.
pub open spec fn reordered<T>(first: Seq<T>, second: Seq<T>) -> bool {
    first.to_multiset() == second.to_multiset()
}

/// Whether two configurations differ in the order of their lists at most.
pub open spec fn reordered_lists(first: FilterView, second: FilterView) -> bool {
    &&& reordered(first.local_ips, second.local_ips)
    &&& reordered(first.udp_listeners, second.udp_listeners)
    &&& reordered(first.tcp_listeners, second.tcp_listeners)
    &&& reordered(first.udp_upstreams, second.udp_upstreams)
    &&& reordered(first.tcp_upstreams, second.tcp_upstreams)
}

proof fn lemma_reordered<T>(first: Seq<T>, second: Seq<T>)
    requires
        reordered(first, second),
    ensures
        first.len() == second.len(),
        forall|x: T| #[trigger] first.contains(x) <==> second.contains(x),
        first.no_duplicates() ==> second.no_duplicates(),
{
    first.to_multiset_ensures();
    second.to_multiset_ensures();
    assert forall|x: T| #[trigger] first.contains(x) <==> second.contains(x) by {
        assert(first.contains(x) <==> first.to_multiset().count(x) > 0);
        assert(second.contains(x) <==> second.to_multiset().count(x) > 0);
    }
    if first.no_duplicates() {
        assert(first.to_set() =~= second.to_set()) by {
            assert forall|x: T| first.to_set().contains(x) <==> second.to_set().contains(x) by {
                assert(first.contains(x) <==> second.contains(x));
            }
        }
        first.unique_seq_to_set();
        second.lemma_no_dup_set_cardinality();
    }
}

/// Whether an endpoint is in order by itself.
spec fn usable_endpoint(endpoint: SocketAddr, ips: Seq<IpAddr>) -> bool {
    &&& !unusable(endpoint.spec_ip())
    &&& endpoint.spec_port() != 0 && endpoint.spec_port() != 53
    &&& !(endpoint.spec_ip().link_local_v6() && endpoint.spec_scope() == 0)
    &&& ips.contains(endpoint.spec_ip())
}

/// Whether no two endpoints have the same address and port.
spec fn distinct_endpoints(endpoints: Seq<SocketAddr>) -> bool {
    forall|i: int, j: int|
        0 <= i < j < endpoints.len() ==> (#[trigger] endpoints[i]).spec_ip() != (
        #[trigger] endpoints[j]).spec_ip() || endpoints[i].spec_port() != endpoints[j].spec_port()
}

proof fn lemma_endpoints_in_order(
    kind: Seq<char>,
    endpoints: Seq<SocketAddr>,
    from: int,
    ips: Seq<IpAddr>,
)
    requires
        0 <= from,
        endpoints_fault(kind, endpoints, from, ips) is None,
    ensures
        forall|i: int| from <= i < endpoints.len() ==> usable_endpoint(#[trigger] endpoints[i], ips),
        forall|i: int, j: int|
            0 <= i < j && from <= j < endpoints.len() ==> (#[trigger] endpoints[i]).spec_ip() != (
            #[trigger] endpoints[j]).spec_ip() || endpoints[i].spec_port()
                != endpoints[j].spec_port(),
    decreases endpoints.len() - from,
{
    if from < endpoints.len() {
        lemma_endpoints_in_order(kind, endpoints, from + 1, ips);
        assert(!repeats(endpoints, from, false));
    }
}

proof fn lemma_count_prefix(endpoints: Seq<SocketAddr>, n: int, ip: IpAddr)
    requires
        0 <= n <= endpoints.len(),
    ensures
        count_at(endpoints.take(n), ip) <= count_at(endpoints, ip),
    decreases endpoints.len(),
{
    if n < endpoints.len() {
        lemma_count_prefix(endpoints.drop_last(), n, ip);
        assert(endpoints.drop_last().take(n) =~= endpoints.take(n));
    } else {
        assert(endpoints.take(n) =~= endpoints);
    }
}

proof fn lemma_endpoints_faultless(
    kind: Seq<char>,
    endpoints: Seq<SocketAddr>,
    from: int,
    ips: Seq<IpAddr>,
)
    requires
        0 <= from,
        forall|i: int| 0 <= i < endpoints.len() ==> usable_endpoint(#[trigger] endpoints[i], ips),
        distinct_endpoints(endpoints),
        forall|ip: IpAddr| ips.contains(ip) ==> #[trigger] count_at(endpoints, ip) <= 8,
    ensures
        endpoints_fault(kind, endpoints, from, ips) is None,
    decreases endpoints.len() - from,
{
    if from < endpoints.len() {
        let endpoint = endpoints[from];
        assert(usable_endpoint(endpoint, ips));
        lemma_count_prefix(endpoints, from + 1, endpoint.spec_ip());
        assert(!repeats(endpoints, from, false));
        assert(!repeats(endpoints, from, true));
        lemma_endpoints_faultless(kind, endpoints, from + 1, ips);
    }
}

proof fn lemma_local_in_order(ips: Seq<IpAddr>, from: int)
    requires
        0 <= from,
        local_fault(ips, from) is None,
    ensures
        forall|i: int| from <= i < ips.len() ==> !unusable(#[trigger] ips[i]),
    decreases ips.len() - from,
{
    if from < ips.len() {
        lemma_local_in_order(ips, from + 1);
    }
}

proof fn lemma_local_faultless(ips: Seq<IpAddr>, from: int)
    requires
        0 <= from,
        ips.no_duplicates(),
        forall|i: int| 0 <= i < ips.len() ==> !unusable(#[trigger] ips[i]),
    ensures
        local_fault(ips, from) is None,
    decreases ips.len() - from,
{
    if from < ips.len() {
        assert(!ips.take(from).contains(ips[from])) by {
            if ips.take(from).contains(ips[from]) {
                let k = choose|k: int| 0 <= k < from && ips.take(from)[k] == ips[from];
                assert(ips[k] == ips[from]);
            }
        }
        lemma_local_faultless(ips, from + 1);
    }
}

proof fn lemma_overlap_absent(
    protocol: Seq<char>,
    listeners: Seq<SocketAddr>,
    upstreams: Seq<SocketAddr>,
    from: int,
)
    requires
        0 <= from,
        overlap_fault(protocol, listeners, upstreams, from) is None,
    ensures
        forall|i: int| from <= i < upstreams.len() ==> !listens(listeners, #[trigger] upstreams[i]),
    decreases upstreams.len() - from,
{
    if from < upstreams.len() {
        lemma_overlap_absent(protocol, listeners, upstreams, from + 1);
    }
}

proof fn lemma_overlap_faultless(
    protocol: Seq<char>,
    listeners: Seq<SocketAddr>,
    upstreams: Seq<SocketAddr>,
    from: int,
)
    requires
        0 <= from,
        forall|i: int| 0 <= i < upstreams.len() ==> !listens(listeners, #[trigger] upstreams[i]),
    ensures
        overlap_fault(protocol, listeners, upstreams, from) is None,
    decreases upstreams.len() - from,
{
    if from < upstreams.len() {
        lemma_overlap_faultless(protocol, listeners, upstreams, from + 1);
    }
}

proof fn lemma_overlap_reordered(
    protocol: Seq<char>,
    listeners: Seq<SocketAddr>,
    upstreams: Seq<SocketAddr>,
    other_listeners: Seq<SocketAddr>,
    other_upstreams: Seq<SocketAddr>,
)
    requires
        reordered(listeners, other_listeners),
        reordered(upstreams, other_upstreams),
        overlap_fault(protocol, listeners, upstreams, 0) is None,
    ensures
        overlap_fault(protocol, other_listeners, other_upstreams, 0) is None,
{
    lemma_reordered(listeners, other_listeners);
    lemma_reordered(upstreams, other_upstreams);
    lemma_overlap_absent(protocol, listeners, upstreams, 0);
    assert forall|i: int| 0 <= i < other_upstreams.len() implies !listens(
        other_listeners,
        #[trigger] other_upstreams[i],
    ) by {
        let upstream = other_upstreams[i];
        assert(other_upstreams.contains(upstream));
        assert(upstreams.contains(upstream));
        let k = choose|k: int| 0 <= k < upstreams.len() && upstreams[k] == upstream;
        assert(!listens(listeners, upstreams[k]));
        if listens(other_listeners, upstream) {
            let j = choose|j: int|
                0 <= j < other_listeners.len() && (#[trigger] other_listeners[j]).spec_ip()
                    == upstream.spec_ip() && other_listeners[j].spec_port() == upstream.spec_port();
            assert(other_listeners.contains(other_listeners[j]));
            assert(listeners.contains(other_listeners[j]));
        }
    }
    lemma_overlap_faultless(protocol, other_listeners, other_upstreams, 0);
}

spec fn ascending_ports(ports: Seq<u16>) -> bool {
    forall|i: int, j: int| 0 <= i < j < ports.len() ==> ports[i] < ports[j]
}

proof fn lemma_port_place_order(ascending: Seq<u16>, x: u16)
    ensures
        0 <= port_place(ascending, x) <= ascending.len(),
        forall|i: int| 0 <= i < port_place(ascending, x) ==> #[trigger] ascending[i] < x,
        port_place(ascending, x) < ascending.len() ==> ascending[port_place(ascending, x)] >= x,
    decreases ascending.len(),
{
    if ascending.len() > 0 && ascending[0] < x {
        let rest = ascending.drop_first();
        lemma_port_place_order(rest, x);
        assert forall|i: int| 0 <= i < port_place(ascending, x) implies #[trigger] ascending[i]
            < x by {
            if i > 0 {
                assert(rest[i - 1] == ascending[i]);
            }
        }
    }
}

proof fn lemma_ports_ascending(endpoints: Seq<SocketAddr>, ip: IpAddr)
    requires
        distinct_endpoints(endpoints),
    ensures
        ascending_ports(ports_at(endpoints, ip)),
    decreases endpoints.len(),
{
    if endpoints.len() > 0 {
        let front = endpoints.drop_last();
        let last = endpoints.last();
        let rest = ports_at(front, ip);
        assert(distinct_endpoints(front)) by {
            assert forall|i: int, j: int| 0 <= i < j < front.len() implies (
            #[trigger] front[i]).spec_ip() != (#[trigger] front[j]).spec_ip()
                || front[i].spec_port() != front[j].spec_port() by {
                assert(front[i] == endpoints[i] && front[j] == endpoints[j]);
            }
        }
        lemma_ports_ascending(front, ip);
        if last.spec_ip() == ip {
            let port = last.spec_port();
            let at = port_place(rest, port);
            lemma_port_place_order(rest, port);
            lemma_ports_at(front, ip);
            assert(!rest.contains(port)) by {
                if rest.contains(port) {
                    let j = choose|j: int|
                        0 <= j < front.len() && (#[trigger] front[j]).spec_ip() == ip
                            && front[j].spec_port() == port;
                    assert(endpoints[j] == front[j]);
                    assert(endpoints[endpoints.len() - 1] == last);
                }
            }
            let whole = rest.insert(at, port);
            assert forall|i: int, j: int| 0 <= i < j < whole.len() implies whole[i] < whole[j] by {
                if i == at {
                    assert(whole[j] == rest[j - 1]);
                    assert(rest[at] != port);
                } else if j == at {
                    assert(whole[i] == rest[i]);
                } else {
                    let a = if i < at { i } else { i - 1 };
                    let b = if j < at { j } else { j - 1 };
                    assert(whole[i] == rest[a] && whole[j] == rest[b]);
                }
            }
        }
    }
}

proof fn lemma_ascending_agree(first: Seq<u16>, second: Seq<u16>)
    requires
        ascending_ports(first),
        ascending_ports(second),
        forall|port: u16| #[trigger] first.contains(port) <==> second.contains(port),
    ensures
        first == second,
    decreases first.len(),
{
    if first.len() == 0 {
        if second.len() > 0 {
            assert(second.contains(second[0]));
            assert(first.contains(second[0]));
        }
        assert(first =~= second);
    } else {
        assert(first.contains(first.last()));
        assert(second.contains(first.last()));
        assert(second.contains(second.last()));
        assert(first.contains(second.last()));
        let k = choose|k: int| 0 <= k < second.len() && second[k] == first.last();
        let m = choose|m: int| 0 <= m < first.len() && first[m] == second.last();
        assert(first.last() == second.last());
        let a = first.drop_last();
        let b = second.drop_last();
        assert forall|port: u16| #[trigger] a.contains(port) <==> b.contains(port) by {
            if a.contains(port) {
                let i = choose|i: int| 0 <= i < a.len() && a[i] == port;
                assert(first[i] == port);
                assert(first.contains(port));
                assert(second.contains(port));
                let j = choose|j: int| 0 <= j < second.len() && second[j] == port;
                assert(b[j] == port);
            }
            if b.contains(port) {
                let i = choose|i: int| 0 <= i < b.len() && b[i] == port;
                assert(second[i] == port);
                assert(second.contains(port));
                assert(first.contains(port));
                let j = choose|j: int| 0 <= j < first.len() && first[j] == port;
                assert(a[j] == port);
            }
        }
        lemma_ascending_agree(a, b);
        assert(first =~= a.push(first.last()));
        assert(second =~= b.push(second.last()));
    }
}

/// What a list of endpoints in another order keeps.
proof fn lemma_list_reordered(
    kind: Seq<char>,
    list: Seq<SocketAddr>,
    other: Seq<SocketAddr>,
    ips: Seq<IpAddr>,
    other_ips: Seq<IpAddr>,
)
    requires
        reordered(list, other),
        reordered(ips, other_ips),
        endpoints_fault(kind, list, 0, ips) is None,
    ensures
        forall|ip: IpAddr| #[trigger] ports_at(list, ip) == ports_at(other, ip),
        forall|ip: IpAddr| #[trigger] count_at(list, ip) == count_at(other, ip),
        forall|i: int|
            0 <= i < other.len() ==> usable_endpoint(#[trigger] other[i], other_ips),
        distinct_endpoints(other),
{
    lemma_reordered(list, other);
    lemma_reordered(ips, other_ips);
    lemma_endpoints_in_order(kind, list, 0, ips);
    assert(list.no_duplicates());
    assert forall|i: int| 0 <= i < other.len() implies usable_endpoint(
        #[trigger] other[i],
        other_ips,
    ) by {
        assert(other.contains(other[i]));
        assert(list.contains(other[i]));
        let k = choose|k: int| 0 <= k < list.len() && list[k] == other[i];
        assert(usable_endpoint(list[k], ips));
    }
    assert forall|i: int, j: int| 0 <= i < j < other.len() implies (#[trigger] other[i]).spec_ip()
        != (#[trigger] other[j]).spec_ip() || other[i].spec_port() != other[j].spec_port() by {
        assert(other.contains(other[i]) && other.contains(other[j]));
        assert(list.contains(other[i]) && list.contains(other[j]));
        let a = choose|a: int| 0 <= a < list.len() && list[a] == other[i];
        let b = choose|b: int| 0 <= b < list.len() && list[b] == other[j];
        assert(other[i] != other[j]);
        if a < b {
            assert(list[a].spec_ip() != list[b].spec_ip() || list[a].spec_port()
                != list[b].spec_port());
        } else {
            assert(list[b].spec_ip() != list[a].spec_ip() || list[b].spec_port()
                != list[a].spec_port());
        }
    }
    assert forall|ip: IpAddr| #[trigger] ports_at(list, ip) == ports_at(other, ip) by {
        lemma_ports_reordered(list, other, ip);
    }
    assert forall|ip: IpAddr| #[trigger] count_at(list, ip) == count_at(other, ip) by {
        lemma_ports_reordered(list, other, ip);
        lemma_ports_at(list, ip);
        lemma_ports_at(other, ip);
    }
}

proof fn lemma_ports_reordered(list: Seq<SocketAddr>, other: Seq<SocketAddr>, ip: IpAddr)
    requires
        reordered(list, other),
        distinct_endpoints(list),
        distinct_endpoints(other),
    ensures
        ports_at(list, ip) == ports_at(other, ip),
{
    lemma_reordered(list, other);
    lemma_ports_ascending(list, ip);
    lemma_ports_ascending(other, ip);
    lemma_ports_at(list, ip);
    lemma_ports_at(other, ip);
    let first = ports_at(list, ip);
    let second = ports_at(other, ip);
    assert forall|port: u16| #[trigger] first.contains(port) <==> second.contains(port) by {
        if first.contains(port) {
            let j = choose|j: int|
                0 <= j < list.len() && (#[trigger] list[j]).spec_ip() == ip && list[j].spec_port()
                    == port;
            assert(list.contains(list[j]));
            assert(other.contains(list[j]));
            let k = choose|k: int| 0 <= k < other.len() && other[k] == list[j];
            assert(other[k].spec_ip() == ip);
        }
        if second.contains(port) {
            let j = choose|j: int|
                0 <= j < other.len() && (#[trigger] other[j]).spec_ip() == ip
                    && other[j].spec_port() == port;
            assert(other.contains(other[j]));
            assert(list.contains(other[j]));
            let k = choose|k: int| 0 <= k < list.len() && list[k] == other[j];
            assert(list[k].spec_ip() == ip);
        }
    }
    lemma_ascending_agree(first, second);
}

proof fn lemma_scopes_reordered(list: Seq<SocketAddr>, other: Seq<SocketAddr>, ip: IpAddr)
    requires
        reordered(list, other),
        count_at(list, ip) > 0,
        count_at(other, ip) > 0,
        !ambiguous(list, ip),
    ensures
        scope_at(list, ip) == scope_at(other, ip),
{
    lemma_reordered(list, other);
    lemma_scope_at(list, ip);
    lemma_scope_at(other, ip);
    let j = choose|j: int|
        0 <= j < list.len() && (#[trigger] list[j]).spec_ip() == ip && scope_of(list[j])
            == scope_at(list, ip);
    let k = choose|k: int|
        0 <= k < other.len() && (#[trigger] other[k]).spec_ip() == ip && scope_of(other[k])
            == scope_at(other, ip);
    assert(other.contains(other[k]));
    assert(list.contains(other[k]));
    let m = choose|m: int| 0 <= m < list.len() && list[m] == other[k];
    assert(list[m].spec_ip() == ip);
}

proof fn lemma_sorted_reordered(first: Seq<IpAddr>, second: Seq<IpAddr>)
    requires
        reordered(first, second),
        first.no_duplicates(),
    ensures
        sorted_ips(first) == sorted_ips(second),
{
    lemma_reordered(first, second);
    lemma_sorted_ips(first);
    lemma_sorted_ips(second);
    sorted_ips_are_ascending(first);
    sorted_ips_are_ascending(second);
    assert forall|ip: IpAddr| #[trigger]
        sorted_ips(first).contains(ip) <==> sorted_ips(second).contains(ip) by {
        assert(first.contains(ip) <==> second.contains(ip));
    }
    lemma_ascending_ips_agree(sorted_ips(first), sorted_ips(second));
}

spec fn ascending_ips(ips: Seq<IpAddr>) -> bool {
    forall|i: int, j: int| 0 <= i < j < ips.len() ==> ips[i].before(ips[j])
}

proof fn lemma_ascending_ips_agree(first: Seq<IpAddr>, second: Seq<IpAddr>)
    requires
        ascending_ips(first),
        ascending_ips(second),
        forall|ip: IpAddr| #[trigger] first.contains(ip) <==> second.contains(ip),
    ensures
        first == second,
    decreases first.len(),
{
    if first.len() == 0 {
        if second.len() > 0 {
            assert(second.contains(second[0]));
            assert(first.contains(second[0]));
        }
        assert(first =~= second);
    } else {
        let x = first.last();
        assert(first.contains(x));
        assert(second.contains(x));
        let y = second.last();
        assert(second.contains(y));
        assert(first.contains(y));
        let k = choose|k: int| 0 <= k < second.len() && second[k] == x;
        let m = choose|m: int| 0 <= m < first.len() && first[m] == y;
        crate::net::order_is_total(x, y);
        crate::net::order_is_total(x, x);
        assert(x == y) by {
            if x != y {
                assert(second[k].before(second[second.len() - 1]));
                assert(first[m].before(first[first.len() - 1]));
            }
        }
        let a = first.drop_last();
        let b = second.drop_last();
        assert forall|ip: IpAddr| #[trigger] a.contains(ip) <==> b.contains(ip) by {
            if a.contains(ip) {
                let i = choose|i: int| 0 <= i < a.len() && a[i] == ip;
                assert(first[i] == ip);
                assert(first[i].before(first[first.len() - 1]));
                assert(first.contains(ip));
                assert(second.contains(ip));
                let j = choose|j: int| 0 <= j < second.len() && second[j] == ip;
                assert(b[j] == ip);
            }
            if b.contains(ip) {
                let i = choose|i: int| 0 <= i < b.len() && b[i] == ip;
                assert(second[i] == ip);
                assert(second[i].before(second[second.len() - 1]));
                assert(second.contains(ip));
                assert(first.contains(ip));
                let j = choose|j: int| 0 <= j < first.len() && first[j] == ip;
                assert(a[j] == ip);
            }
        }
        lemma_ascending_ips_agree(a, b);
        assert(first =~= a.push(x));
        assert(second =~= b.push(y));
    }
}

proof fn lemma_scopes_faultless(endpoints: Seq<SocketAddr>, ips: Seq<IpAddr>)
    requires
        forall|i: int| 0 <= i < ips.len() ==> !ambiguous(endpoints, #[trigger] ips[i]),
    ensures
        scopes_fault(endpoints, ips) is None,
    decreases ips.len(),
{
    if ips.len() > 0 {
        assert(!ambiguous(endpoints, ips[0]));
        let rest = ips.drop_first();
        assert forall|i: int| 0 <= i < rest.len() implies !ambiguous(
            endpoints,
            #[trigger] rest[i],
        ) by {
            assert(rest[i] == ips[i + 1]);
        }
        lemma_scopes_faultless(endpoints, rest);
    }
}

proof fn lemma_layout_reordered(first: FilterView, second: FilterView, ips: Seq<IpAddr>)
    requires
        layout_fault(first, ips) is None,
        forall|ip: IpAddr| #[trigger]
            count_at(first.udp_listeners, ip) == count_at(second.udp_listeners, ip),
        forall|ip: IpAddr| #[trigger]
            count_at(first.tcp_listeners, ip) == count_at(second.tcp_listeners, ip),
        forall|ip: IpAddr| #[trigger]
            count_at(first.udp_upstreams, ip) == count_at(second.udp_upstreams, ip),
        forall|ip: IpAddr| #[trigger]
            count_at(first.tcp_upstreams, ip) == count_at(second.tcp_upstreams, ip),
    ensures
        layout_fault(second, ips) is None,
    decreases ips.len(),
{
    if ips.len() > 0 {
        assert(count_at(first.udp_listeners, ips[0]) == count_at(second.udp_listeners, ips[0]));
        assert(count_at(first.tcp_listeners, ips[0]) == count_at(second.tcp_listeners, ips[0]));
        assert(count_at(first.udp_upstreams, ips[0]) == count_at(second.udp_upstreams, ips[0]));
        assert(count_at(first.tcp_upstreams, ips[0]) == count_at(second.tcp_upstreams, ips[0]));
        lemma_layout_reordered(first, second, ips.drop_first());
    }
}

/// Which of the four lists an endpoint among all of them comes from.
proof fn lemma_endpoint_list(config: FilterView, i: int)
    requires
        0 <= i < config.endpoints().len(),
    ensures
        ({
            let endpoint = config.endpoints()[i];
            ||| config.udp_listeners.contains(endpoint)
            ||| config.tcp_listeners.contains(endpoint)
            ||| config.udp_upstreams.contains(endpoint)
            ||| config.tcp_upstreams.contains(endpoint)
        }),
{
    let a = config.udp_listeners.len() as int;
    let b = a + config.tcp_listeners.len();
    let c = b + config.udp_upstreams.len();
    let endpoint = config.endpoints()[i];
    if i < a {
        assert(config.udp_listeners[i] == endpoint);
    } else if i < b {
        assert(config.tcp_listeners[i - a] == endpoint);
    } else if i < c {
        assert(config.udp_upstreams[i - b] == endpoint);
    } else {
        assert(config.tcp_upstreams[i - c] == endpoint);
    }
}

proof fn lemma_listed_endpoint(config: FilterView, endpoint: SocketAddr)
    requires
        config.udp_listeners.contains(endpoint) || config.tcp_listeners.contains(endpoint)
            || config.udp_upstreams.contains(endpoint) || config.tcp_upstreams.contains(endpoint),
    ensures
        config.endpoints().contains(endpoint),
{
    let a = config.udp_listeners.len() as int;
    let b = a + config.tcp_listeners.len();
    let c = b + config.udp_upstreams.len();
    if config.udp_listeners.contains(endpoint) {
        let i = choose|i: int| 0 <= i < a && config.udp_listeners[i] == endpoint;
        assert(config.endpoints()[i] == endpoint);
    } else if config.tcp_listeners.contains(endpoint) {
        let i = choose|i: int|
            0 <= i < config.tcp_listeners.len() && config.tcp_listeners[i] == endpoint;
        assert(config.endpoints()[a + i] == endpoint);
    } else if config.udp_upstreams.contains(endpoint) {
        let i = choose|i: int|
            0 <= i < config.udp_upstreams.len() && config.udp_upstreams[i] == endpoint;
        assert(config.endpoints()[b + i] == endpoint);
    } else {
        let i = choose|i: int|
            0 <= i < config.tcp_upstreams.len() && config.tcp_upstreams[i] == endpoint;
        assert(config.endpoints()[c + i] == endpoint);
    }
}

proof fn lemma_endpoint_reordered(first: FilterView, second: FilterView, i: int)
    requires
        reordered_lists(first, second),
        0 <= i < second.endpoints().len(),
    ensures
        first.endpoints().contains(second.endpoints()[i]),
{
    lemma_endpoint_list(second, i);
    lemma_reordered(first.udp_listeners, second.udp_listeners);
    lemma_reordered(first.tcp_listeners, second.tcp_listeners);
    lemma_reordered(first.udp_upstreams, second.udp_upstreams);
    lemma_reordered(first.tcp_upstreams, second.tcp_upstreams);
    lemma_listed_endpoint(first, second.endpoints()[i]);
}

proof fn lemma_ambiguity_reordered(first: FilterView, second: FilterView, ip: IpAddr)
    requires
        reordered_lists(first, second),
        !ambiguous(first.endpoints(), ip),
    ensures
        !ambiguous(second.endpoints(), ip),
{
    let all = first.endpoints();
    let other = second.endpoints();
    if ambiguous(other, ip) {
        let (i, j) = choose|i: int, j: int|
            0 <= i < other.len() && 0 <= j < other.len() && (#[trigger] other[i]).spec_ip() == ip
                && (#[trigger] other[j]).spec_ip() == ip && scope_of(other[i]) != scope_of(
                other[j],
            );
        lemma_endpoint_reordered(first, second, i);
        lemma_endpoint_reordered(first, second, j);
        let a = choose|a: int| 0 <= a < all.len() && all[a] == other[i];
        let b = choose|b: int| 0 <= b < all.len() && all[b] == other[j];
        assert(all[a].spec_ip() == ip && all[b].spec_ip() == ip);
    }
}

proof fn lemma_list_unambiguous(
    config: FilterView,
    protocol: Protocol,
    listeners: bool,
    ip: IpAddr,
)
    requires
        !ambiguous(config.endpoints(), ip),
    ensures
        !ambiguous(
            if listeners {
                config.listeners(protocol)
            } else {
                config.upstreams(protocol)
            },
            ip,
        ),
{
    let list = if listeners {
        config.listeners(protocol)
    } else {
        config.upstreams(protocol)
    };
    let all = config.endpoints();
    let start = list_start(config, protocol, listeners);
    if ambiguous(list, ip) {
        let (i, j) = choose|i: int, j: int|
            0 <= i < list.len() && 0 <= j < list.len() && (#[trigger] list[i]).spec_ip() == ip && (
            #[trigger] list[j]).spec_ip() == ip && scope_of(list[i]) != scope_of(list[j]);
        assert(all[start + i] == list[i]);
        assert(all[start + j] == list[j]);
        assert(all[start + i].spec_ip() == ip && all[start + j].spec_ip() == ip);
    }
}

proof fn lemma_lists_agree(first: FilterView, second: FilterView)
    requires
        first.fault() is None,
        reordered_lists(first, second),
    ensures
        second.fault() is None,
        sorted_ips(first.local_ips) == sorted_ips(second.local_ips),
        forall|protocol: Protocol, ip: IpAddr| #[trigger]
            ports_at(first.listeners(protocol), ip) == ports_at(second.listeners(protocol), ip),
        forall|protocol: Protocol, ip: IpAddr| #[trigger]
            ports_at(first.upstreams(protocol), ip) == ports_at(second.upstreams(protocol), ip),
        forall|protocol: Protocol, ip: IpAddr| #[trigger]
            count_at(first.listeners(protocol), ip) == count_at(second.listeners(protocol), ip),
        forall|protocol: Protocol, ip: IpAddr| #[trigger]
            count_at(first.upstreams(protocol), ip) == count_at(second.upstreams(protocol), ip),
{
    let ips = first.local_ips;
    let other_ips = second.local_ips;
    lemma_reordered(ips, other_ips);
    lemma_local_distinct(ips, 0);
    lemma_local_in_order(ips, 0);
    assert(ips.no_duplicates());
    lemma_sorted_reordered(ips, other_ips);
    let sorted = sorted_ips(ips);
    assert forall|i: int| 0 <= i < other_ips.len() implies !unusable(#[trigger] other_ips[i]) by {
        assert(other_ips.contains(other_ips[i]));
        assert(ips.contains(other_ips[i]));
    }
    lemma_local_faultless(other_ips, 0);
    let kinds = (
        "UDP proxy listener"@,
        "TCP proxy listener"@,
        "UDP reserved upstream"@,
        "TCP reserved upstream"@,
    );
    lemma_list_reordered(kinds.0, first.udp_listeners, second.udp_listeners, ips, other_ips);
    lemma_list_reordered(kinds.1, first.tcp_listeners, second.tcp_listeners, ips, other_ips);
    lemma_list_reordered(kinds.2, first.udp_upstreams, second.udp_upstreams, ips, other_ips);
    lemma_list_reordered(kinds.3, first.tcp_upstreams, second.tcp_upstreams, ips, other_ips);
    assert forall|ip: IpAddr| other_ips.contains(ip) implies #[trigger] count_at(
        second.udp_listeners,
        ip,
    ) <= 8 by {
        assert(ips.contains(ip));
        lemma_validated(first, ip);
        assert(count_at(first.udp_listeners, ip) == count_at(second.udp_listeners, ip));
    }
    assert forall|ip: IpAddr| other_ips.contains(ip) implies #[trigger] count_at(
        second.tcp_listeners,
        ip,
    ) <= 8 by {
        assert(ips.contains(ip));
        lemma_validated(first, ip);
        assert(count_at(first.tcp_listeners, ip) == count_at(second.tcp_listeners, ip));
    }
    assert forall|ip: IpAddr| other_ips.contains(ip) implies #[trigger] count_at(
        second.udp_upstreams,
        ip,
    ) <= 8 by {
        assert(ips.contains(ip));
        lemma_validated(first, ip);
        assert(count_at(first.udp_upstreams, ip) == count_at(second.udp_upstreams, ip));
    }
    assert forall|ip: IpAddr| other_ips.contains(ip) implies #[trigger] count_at(
        second.tcp_upstreams,
        ip,
    ) <= 8 by {
        assert(ips.contains(ip));
        lemma_validated(first, ip);
        assert(count_at(first.tcp_upstreams, ip) == count_at(second.tcp_upstreams, ip));
    }
    lemma_endpoints_faultless(kinds.0, second.udp_listeners, 0, other_ips);
    lemma_endpoints_faultless(kinds.1, second.tcp_listeners, 0, other_ips);
    lemma_endpoints_faultless(kinds.2, second.udp_upstreams, 0, other_ips);
    lemma_endpoints_faultless(kinds.3, second.tcp_upstreams, 0, other_ips);
    assert forall|i: int| 0 <= i < sorted.len() implies !ambiguous(
        second.endpoints(),
        #[trigger] sorted[i],
    ) by {
        lemma_scopes_agree(first.endpoints(), sorted, i);
        lemma_ambiguity_reordered(first, second, sorted[i]);
    }
    lemma_scopes_faultless(second.endpoints(), sorted);
    lemma_layout_reordered(first, second, sorted);
    lemma_overlap_reordered(
        "UDP"@,
        first.udp_listeners,
        first.udp_upstreams,
        second.udp_listeners,
        second.udp_upstreams,
    );
    lemma_overlap_reordered(
        "TCP"@,
        first.tcp_listeners,
        first.tcp_upstreams,
        second.tcp_listeners,
        second.tcp_upstreams,
    );
    assert forall|protocol: Protocol, ip: IpAddr| #[trigger]
        ports_at(first.listeners(protocol), ip) == ports_at(second.listeners(protocol), ip)
        && count_at(first.listeners(protocol), ip) == count_at(
        second.listeners(protocol),
        ip,
    ) by {
        match protocol {
            Protocol::Udp => {},
            Protocol::Tcp => {},
        }
    }
    assert forall|protocol: Protocol, ip: IpAddr| #[trigger]
        ports_at(first.upstreams(protocol), ip) == ports_at(second.upstreams(protocol), ip)
        && count_at(first.upstreams(protocol), ip) == count_at(
        second.upstreams(protocol),
        ip,
    ) by {
        match protocol {
            Protocol::Udp => {},
            Protocol::Tcp => {},
        }
    }
}

/// Another order of the lists changes nothing: a configuration that is in order stays
/// so, its addresses come out in the same order, and every filter is the same.
pub proof fn reordered_lists_have_the_same_filters(first: FilterView, second: FilterView)
    requires
        first.fault() is None,
        reordered_lists(first, second),
    ensures
        second.fault() is None,
        second.local_ips.len() == first.local_ips.len(),
        sorted_ips(second.local_ips) == sorted_ips(first.local_ips),
        filter_text(second, sorted_ips(first.local_ips)) == filter_text(
            first,
            sorted_ips(first.local_ips),
        ),
        forall|k: int|
            0 <= k < group_count(sorted_ips(first.local_ips)) ==> #[trigger] filter_text(
                second,
                group(sorted_ips(first.local_ips), k),
            ) == filter_text(first, group(sorted_ips(first.local_ips), k)),
{
    let sorted = sorted_ips(first.local_ips);
    lemma_lists_agree(first, second);
    lemma_reordered(first.local_ips, second.local_ips);
    lemma_sorted_ips(first.local_ips);
    assert forall|i: int| 0 <= i < sorted.len() implies first.local_ips.contains(
        #[trigger] sorted[i],
    ) by {
        assert(sorted.contains(sorted[i]));
    }
    lemma_filters_agree(first, second, sorted);
    assert forall|k: int| 0 <= k < group_count(sorted) implies #[trigger] filter_text(
        second,
        group(sorted, k),
    ) == filter_text(first, group(sorted, k)) by {
        assert forall|i: int| 0 <= i < group(sorted, k).len() implies first.local_ips.contains(
            #[trigger] group(sorted, k)[i],
        ) by {
            assert(group(sorted, k)[i] == sorted[4 * k + i]);
        }
        lemma_filters_agree(first, second, group(sorted, k));
    }
}

proof fn lemma_clauses_agree(
    first: FilterView,
    second: FilterView,
    protocol: Protocol,
    ip: IpAddr,
)
    requires
        first.fault() is None,
        reordered_lists(first, second),
        first.local_ips.contains(ip),
    ensures
        request_clause(second, protocol, ip) == request_clause(first, protocol, ip),
        listener_clause(second, protocol, ip) == listener_clause(first, protocol, ip),
{
    lemma_lists_agree(first, second);
    lemma_validated(first, ip);
    lemma_list_unambiguous(first, protocol, true, ip);
    lemma_list_unambiguous(first, protocol, false, ip);
    assert(ports_at(first.listeners(protocol), ip) == ports_at(second.listeners(protocol), ip));
    assert(ports_at(first.upstreams(protocol), ip) == ports_at(second.upstreams(protocol), ip));
    assert(count_at(first.listeners(protocol), ip) == count_at(second.listeners(protocol), ip));
    assert(count_at(first.upstreams(protocol), ip) == count_at(second.upstreams(protocol), ip));
    lemma_scopes_reordered(first.listeners(protocol), second.listeners(protocol), ip);
    lemma_scopes_reordered(first.upstreams(protocol), second.upstreams(protocol), ip);
}

proof fn lemma_filters_agree(first: FilterView, second: FilterView, ips: Seq<IpAddr>)
    requires
        first.fault() is None,
        reordered_lists(first, second),
        forall|i: int| 0 <= i < ips.len() ==> first.local_ips.contains(#[trigger] ips[i]),
    ensures
        filter_text(second, ips) == filter_text(first, ips),
{
    assert forall|i: int| 0 <= i < ips.len() implies request_clause(
        second,
        Protocol::Udp,
        #[trigger] ips[i],
    ) == request_clause(first, Protocol::Udp, ips[i]) && request_clause(
        second,
        Protocol::Tcp,
        ips[i],
    ) == request_clause(first, Protocol::Tcp, ips[i]) && listener_clause(
        second,
        Protocol::Udp,
        ips[i],
    ) == listener_clause(first, Protocol::Udp, ips[i]) && listener_clause(
        second,
        Protocol::Tcp,
        ips[i],
    ) == listener_clause(first, Protocol::Tcp, ips[i]) by {
        lemma_clauses_agree(first, second, Protocol::Udp, ips[i]);
        lemma_clauses_agree(first, second, Protocol::Tcp, ips[i]);
    }
    assert(clauses_for(second, ips) =~= clauses_for(first, ips));
}

/// Whether an address cannot be that of a session: it is 0.0.0.0 or ::, an IPv4 address
/// from 224 to 239 or an IPv6 address from ff00 on, or an IPv4 address inside ::ffff:0:0/96.
pub open spec fn unfit(ip: IpAddr) -> bool {
    match ip {
        IpAddr::V4(v4) => (v4.a == 0 && v4.b == 0 && v4.c == 0 && v4.d == 0) || v4.a / 16 == 14,
        IpAddr::V6(v6) => {
            let zero = v6.s0 == 0 && v6.s1 == 0 && v6.s2 == 0 && v6.s3 == 0 && v6.s4 == 0;
            ||| zero && v6.s5 == 0 && v6.s6 == 0 && v6.s7 == 0
            ||| v6.s0 / 256 == 255
            ||| zero && v6.s5 == 65535
        },
    }
}

/// The interface that an endpoint names, 0 if none.
pub open spec fn named_interface(endpoint: SocketAddr) -> u32 {
    match endpoint {
        SocketAddr::V4(_) => 0,
        SocketAddr::V6(v6) => v6.scope_id,
    }
}

/// How many endpoints are at an address.
pub open spec fn number_at(endpoints: Seq<SocketAddr>, ip: IpAddr) -> nat {
    endpoints.filter(|e: SocketAddr| host_and_port(e).0 == ip).len()
}

/// Whether a list of endpoints is in order: each at a local address that is fit, on a
/// port other than 0 and 53, with an interface where the address is in fe80::/10, and no
/// address and port twice.
pub open spec fn endpoints_in_order(endpoints: Seq<SocketAddr>, ips: Seq<IpAddr>) -> bool {
    &&& forall|i: int|
        0 <= i < endpoints.len() ==> {
            let (ip, port) = host_and_port(#[trigger] endpoints[i]);
            &&& !unfit(ip)
            &&& port != 0 && port != 53
            &&& (ip matches IpAddr::V6(v6) ==> v6.s0 / 64 != 0x3fa || named_interface(endpoints[i])
                != 0)
            &&& ips.contains(ip)
        }
    &&& forall|i: int, j: int|
        0 <= i < j < endpoints.len() ==> host_and_port(#[trigger] endpoints[i]) != host_and_port(
            #[trigger] endpoints[j],
        )
}

proof fn lemma_number_at(endpoints: Seq<SocketAddr>, ip: IpAddr)
    ensures
        number_at(endpoints, ip) == count_at(endpoints, ip),
    decreases endpoints.len(),
{
    reveal(Seq::filter);
    if endpoints.len() > 0 {
        lemma_number_at(endpoints.drop_last(), ip);
    }
}

proof fn lemma_unfit(ip: IpAddr)
    ensures
        unfit(ip) == unusable(ip),
{
    match ip {
        IpAddr::V4(v4) => {
            let octets = v4.octets();
            assert(octets[0] == v4.a && octets[1] == v4.b && octets[2] == v4.c && octets[3] == v4.d);
            assert(v4.a == 0 && v4.b == 0 && v4.c == 0 && v4.d == 0 ==> octets =~= seq![
                0u8,
                0,
                0,
                0,
            ]);
        },
        IpAddr::V6(v6) => {
            let groups = v6.segments();
            assert(groups[0] == v6.s0 && groups[1] == v6.s1 && groups[2] == v6.s2 && groups[3]
                == v6.s3 && groups[4] == v6.s4 && groups[5] == v6.s5 && groups[6] == v6.s6
                && groups[7] == v6.s7);
            assert(v6.s0 == 0 && v6.s1 == 0 && v6.s2 == 0 && v6.s3 == 0 && v6.s4 == 0 && v6.s5 == 0
                && v6.s6 == 0 && v6.s7 == 0 ==> groups =~= seq![0u16, 0, 0, 0, 0, 0, 0, 0]);
        },
    }
}

proof fn lemma_list_in_order(kind: Seq<char>, endpoints: Seq<SocketAddr>, ips: Seq<IpAddr>)
    ensures
        endpoints_fault(kind, endpoints, 0, ips) is None ==> endpoints_in_order(endpoints, ips),
        endpoints_in_order(endpoints, ips) && (forall|ip: IpAddr|
            ips.contains(ip) ==> #[trigger] count_at(endpoints, ip) <= 8) ==> endpoints_fault(
            kind,
            endpoints,
            0,
            ips,
        ) is None,
{
    assert forall|i: int| 0 <= i < endpoints.len() implies unfit(
        (#[trigger] endpoints[i]).spec_ip(),
    ) == unusable(endpoints[i].spec_ip()) by {
        lemma_unfit(endpoints[i].spec_ip());
    }
    if endpoints_fault(kind, endpoints, 0, ips) is None {
        lemma_endpoints_in_order(kind, endpoints, 0, ips);
        assert forall|i: int| 0 <= i < endpoints.len() implies {
            let (ip, port) = host_and_port(#[trigger] endpoints[i]);
            &&& !unfit(ip)
            &&& port != 0 && port != 53
            &&& (ip matches IpAddr::V6(v6) ==> v6.s0 / 64 != 0x3fa || named_interface(endpoints[i])
                != 0)
            &&& ips.contains(ip)
        } by {
            assert(usable_endpoint(endpoints[i], ips));
        }
        assert forall|i: int, j: int| 0 <= i < j < endpoints.len() implies host_and_port(
            #[trigger] endpoints[i],
        ) != host_and_port(#[trigger] endpoints[j]) by {
            assert(endpoints[i].spec_ip() != endpoints[j].spec_ip() || endpoints[i].spec_port()
                != endpoints[j].spec_port());
        }
    }
    if endpoints_in_order(endpoints, ips) && (forall|ip: IpAddr|
        ips.contains(ip) ==> #[trigger] count_at(endpoints, ip) <= 8) {
        assert forall|i: int| 0 <= i < endpoints.len() implies usable_endpoint(
            #[trigger] endpoints[i],
            ips,
        ) by {
            let (ip, port) = host_and_port(endpoints[i]);
            assert(!unfit(ip));
        }
        assert(distinct_endpoints(endpoints)) by {
            assert forall|i: int, j: int| 0 <= i < j < endpoints.len() implies (
            #[trigger] endpoints[i]).spec_ip() != (#[trigger] endpoints[j]).spec_ip()
                || endpoints[i].spec_port() != endpoints[j].spec_port() by {
                assert(host_and_port(endpoints[i]) != host_and_port(endpoints[j]));
            }
        }
        lemma_endpoints_faultless(kind, endpoints, 0, ips);
    }
}

proof fn lemma_layout_faultless(config: FilterView, ips: Seq<IpAddr>)
    requires
        forall|i: int|
            0 <= i < ips.len() ==> count_at(config.udp_listeners, #[trigger] ips[i]) == 1
                && count_at(config.tcp_listeners, ips[i]) == 1 && count_at(
                config.udp_upstreams,
                ips[i],
            ) == 8 && count_at(config.tcp_upstreams, ips[i]) == 8,
    ensures
        layout_fault(config, ips) is None,
    decreases ips.len(),
{
    if ips.len() > 0 {
        let rest = ips.drop_first();
        assert(count_at(config.udp_listeners, ips[0]) == 1);
        assert forall|i: int| 0 <= i < rest.len() implies count_at(
            config.udp_listeners,
            #[trigger] rest[i],
        ) == 1 && count_at(config.tcp_listeners, rest[i]) == 1 && count_at(
            config.udp_upstreams,
            rest[i],
        ) == 8 && count_at(config.tcp_upstreams, rest[i]) == 8 by {
            assert(rest[i] == ips[i + 1]);
        }
        lemma_layout_faultless(config, rest);
    }
}

/// What a session has to have for a filter: from one to sixteen fit addresses, none twice;
/// four lists of endpoints in order; at each address one listener and eight sockets of
/// each transport, all on one interface; and no socket on the port of the listener of its
/// transport.
pub open spec fn complete(config: FilterView) -> bool {
    let ips = config.local_ips;
    let all = config.udp_listeners + config.tcp_listeners + config.udp_upstreams
        + config.tcp_upstreams;
    &&& 1 <= ips.len() <= 16
    &&& forall|i: int| 0 <= i < ips.len() ==> !unfit(#[trigger] ips[i])
    &&& forall|i: int, j: int| 0 <= i < j < ips.len() ==> ips[i] != ips[j]
    &&& endpoints_in_order(config.udp_listeners, ips)
    &&& endpoints_in_order(config.tcp_listeners, ips)
    &&& endpoints_in_order(config.udp_upstreams, ips)
    &&& endpoints_in_order(config.tcp_upstreams, ips)
    &&& forall|i: int, j: int|
        0 <= i < all.len() && 0 <= j < all.len() && host_and_port(#[trigger] all[i]).0
            == host_and_port(#[trigger] all[j]).0 ==> named_interface(all[i]) == named_interface(
            all[j],
        )
    &&& forall|k: int|
        0 <= k < ips.len() ==> number_at(config.udp_listeners, #[trigger] ips[k]) == 1 && number_at(
            config.tcp_listeners,
            ips[k],
        ) == 1 && number_at(config.udp_upstreams, ips[k]) == 8 && number_at(
            config.tcp_upstreams,
            ips[k],
        ) == 8
    &&& forall|i: int, j: int|
        0 <= i < config.udp_listeners.len() && 0 <= j < config.udp_upstreams.len()
            ==> host_and_port(#[trigger] config.udp_listeners[i]) != host_and_port(
            #[trigger] config.udp_upstreams[j],
        )
    &&& forall|i: int, j: int|
        0 <= i < config.tcp_listeners.len() && 0 <= j < config.tcp_upstreams.len()
            ==> host_and_port(#[trigger] config.tcp_listeners[i]) != host_and_port(
            #[trigger] config.tcp_upstreams[j],
        )
}

proof fn lemma_no_overlap(
    protocol: Seq<char>,
    listeners: Seq<SocketAddr>,
    upstreams: Seq<SocketAddr>,
)
    ensures
        overlap_fault(protocol, listeners, upstreams, 0) is None <==> forall|i: int, j: int|
            0 <= i < listeners.len() && 0 <= j < upstreams.len() ==> host_and_port(
                #[trigger] listeners[i],
            ) != host_and_port(#[trigger] upstreams[j]),
{
    if overlap_fault(protocol, listeners, upstreams, 0) is None {
        lemma_overlap_absent(protocol, listeners, upstreams, 0);
        assert forall|i: int, j: int|
            0 <= i < listeners.len() && 0 <= j < upstreams.len() implies host_and_port(
            #[trigger] listeners[i],
        ) != host_and_port(#[trigger] upstreams[j]) by {
            assert(!listens(listeners, upstreams[j]));
        }
    }
    if forall|i: int, j: int|
        0 <= i < listeners.len() && 0 <= j < upstreams.len() ==> host_and_port(
            #[trigger] listeners[i],
        ) != host_and_port(#[trigger] upstreams[j]) {
        assert forall|j: int| 0 <= j < upstreams.len() implies !listens(
            listeners,
            #[trigger] upstreams[j],
        ) by {
            if listens(listeners, upstreams[j]) {
                let i = choose|i: int|
                    0 <= i < listeners.len() && (#[trigger] listeners[i]).spec_ip()
                        == upstreams[j].spec_ip() && listeners[i].spec_port()
                        == upstreams[j].spec_port();
                assert(host_and_port(listeners[i]) == host_and_port(upstreams[j]));
            }
        }
        lemma_overlap_faultless(protocol, listeners, upstreams, 0);
    }
}

proof fn lemma_interfaces_agree(config: FilterView)
    requires
        forall|i: int|
            0 <= i < config.endpoints().len() ==> config.local_ips.contains(
                (#[trigger] config.endpoints()[i]).spec_ip(),
            ),
    ensures
        scopes_fault(config.endpoints(), sorted_ips(config.local_ips)) is None <==> forall|
            i: int,
            j: int,
        |
            0 <= i < config.endpoints().len() && 0 <= j < config.endpoints().len() && host_and_port(
                #[trigger] config.endpoints()[i],
            ).0 == host_and_port(#[trigger] config.endpoints()[j]).0 ==> named_interface(
                config.endpoints()[i],
            ) == named_interface(config.endpoints()[j]),
{
    let all = config.endpoints();
    let sorted = sorted_ips(config.local_ips);
    lemma_sorted_ips(config.local_ips);
    if scopes_fault(all, sorted) is None {
        assert forall|i: int, j: int|
            0 <= i < all.len() && 0 <= j < all.len() && host_and_port(#[trigger] all[i]).0
                == host_and_port(#[trigger] all[j]).0 implies named_interface(all[i])
            == named_interface(all[j]) by {
            let ip = all[i].spec_ip();
            assert(config.local_ips.contains(config.endpoints()[i].spec_ip()));
            assert(sorted.contains(ip));
            let k = sorted.index_of(ip);
            lemma_scopes_agree(all, sorted, k);
            assert(!ambiguous(all, ip));
            assert(scope_of(all[i]) == scope_of(all[j]));
        }
    }
    if forall|i: int, j: int|
        0 <= i < all.len() && 0 <= j < all.len() && host_and_port(#[trigger] all[i]).0
            == host_and_port(#[trigger] all[j]).0 ==> named_interface(all[i]) == named_interface(
            all[j],
        ) {
        assert forall|k: int| 0 <= k < sorted.len() implies !ambiguous(all, #[trigger] sorted[k]) by {
            if ambiguous(all, sorted[k]) {
                let (i, j) = choose|i: int, j: int|
                    0 <= i < all.len() && 0 <= j < all.len() && (#[trigger] all[i]).spec_ip()
                        == sorted[k] && (#[trigger] all[j]).spec_ip() == sorted[k] && scope_of(
                        all[i],
                    ) != scope_of(all[j]);
                assert(host_and_port(all[i]).0 == host_and_port(all[j]).0);
            }
        }
        lemma_scopes_faultless(all, sorted);
    }
}

/// A session gets its filters exactly where it is complete.
pub proof fn complete_sessions_have_filters(config: FilterView)
    ensures
        config.fault() is None <==> complete(config),
{
    let ips = config.local_ips;
    let sorted = sorted_ips(ips);
    let all = config.endpoints();
    lemma_sorted_ips(ips);
    assert forall|i: int| 0 <= i < ips.len() implies unfit(#[trigger] ips[i]) == unusable(
        ips[i],
    ) by {
        lemma_unfit(ips[i]);
    }
    assert forall|ip: IpAddr| #[trigger]
        count_at(config.udp_listeners, ip) == number_at(config.udp_listeners, ip) by {
        lemma_number_at(config.udp_listeners, ip);
    }
    assert forall|ip: IpAddr| #[trigger]
        count_at(config.tcp_listeners, ip) == number_at(config.tcp_listeners, ip) by {
        lemma_number_at(config.tcp_listeners, ip);
    }
    assert forall|ip: IpAddr| #[trigger]
        count_at(config.udp_upstreams, ip) == number_at(config.udp_upstreams, ip) by {
        lemma_number_at(config.udp_upstreams, ip);
    }
    assert forall|ip: IpAddr| #[trigger]
        count_at(config.tcp_upstreams, ip) == number_at(config.tcp_upstreams, ip) by {
        lemma_number_at(config.tcp_upstreams, ip);
    }
    lemma_list_in_order("UDP proxy listener"@, config.udp_listeners, ips);
    lemma_list_in_order("TCP proxy listener"@, config.tcp_listeners, ips);
    lemma_list_in_order("UDP reserved upstream"@, config.udp_upstreams, ips);
    lemma_list_in_order("TCP reserved upstream"@, config.tcp_upstreams, ips);
    lemma_no_overlap("UDP"@, config.udp_listeners, config.udp_upstreams);
    lemma_no_overlap("TCP"@, config.tcp_listeners, config.tcp_upstreams);
    if endpoints_in_order(config.udp_listeners, ips) && endpoints_in_order(
        config.tcp_listeners,
        ips,
    ) && endpoints_in_order(config.udp_upstreams, ips) && endpoints_in_order(
        config.tcp_upstreams,
        ips,
    ) {
        assert forall|i: int| 0 <= i < all.len() implies ips.contains(
            (#[trigger] config.endpoints()[i]).spec_ip(),
        ) by {
            lemma_endpoint_list(config, i);
        }
        lemma_interfaces_agree(config);
    }
    if config.fault() is None {
        lemma_local_in_order(ips, 0);
        lemma_local_distinct(ips, 0);
        assert forall|k: int| 0 <= k < ips.len() implies number_at(
            config.udp_listeners,
            #[trigger] ips[k],
        ) == 1 && number_at(config.tcp_listeners, ips[k]) == 1 && number_at(
            config.udp_upstreams,
            ips[k],
        ) == 8 && number_at(config.tcp_upstreams, ips[k]) == 8 by {
            lemma_validated(config, ips[k]);
            assert(count_at(config.udp_listeners, ips[k]) == 1);
            assert(count_at(config.tcp_listeners, ips[k]) == 1);
            assert(count_at(config.udp_upstreams, ips[k]) == 8);
            assert(count_at(config.tcp_upstreams, ips[k]) == 8);
        }
    }
    if complete(config) {
        assert(ips.no_duplicates());
        lemma_local_faultless(ips, 0);
        assert forall|ip: IpAddr| ips.contains(ip) implies count_at(config.udp_listeners, ip) == 1
            && count_at(config.tcp_listeners, ip) == 1 && count_at(config.udp_upstreams, ip) == 8
            && count_at(config.tcp_upstreams, ip) == 8 by {
            let k = ips.index_of(ip);
            assert(number_at(config.udp_listeners, ips[k]) == 1);
        }
        assert forall|i: int| 0 <= i < sorted.len() implies count_at(
            config.udp_listeners,
            #[trigger] sorted[i],
        ) == 1 && count_at(config.tcp_listeners, sorted[i]) == 1 && count_at(
            config.udp_upstreams,
            sorted[i],
        ) == 8 && count_at(config.tcp_upstreams, sorted[i]) == 8 by {
            assert(sorted.contains(sorted[i]));
            assert(ips.contains(sorted[i]));
        }
        lemma_layout_faultless(config, sorted);
    }
}

/// Addresses are taken in groups of four, in order, the last of which may have fewer.
pub proof fn groups_hold_four_addresses(ips: Seq<IpAddr>, i: int)
    requires
        0 <= i < ips.len(),
    ensures
        0 <= i / 4 < group_count(ips),
        group(ips, i / 4)[i % 4] == ips[i],
        i % 4 < group(ips, i / 4).len() <= 4,
        4 * (group_count(ips) - 1) < ips.len() <= 4 * group_count(ips),
{
}

/// A filter is handed out exactly where it has no more than 32 kibibytes.
pub proof fn filter_texts_are_bounded(config: FilterView, ips: Seq<IpAddr>)
    ensures
        bounded_filter(config, ips) is Ok <==> vstd::utf8::encode_utf8(
            filter_text(config, ips),
        ).len() <= 32 * 1024,
        bounded_filter(config, ips) matches Ok(text) ==> text == filter_text(config, ips),
        bounded_filter(config, ips) is Err ==> bounded_filter(config, ips) == Err::<
            Seq<char>,
            Seq<char>,
        >("DNS interception filter exceeds "@ + decimal(32_768) + " bytes"@),
{
}

} // verus!
