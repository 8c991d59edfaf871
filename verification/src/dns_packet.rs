//! IPv4 and IPv6 DNS packet decoding and tuple rewriting.

use crate::net::{word, word_octets, word_value, IpAddr, Ipv4Addr, Ipv6Addr, SocketAddr};
use crate::text::bytes_of;
use vstd::prelude::*;
use vstd::slice::slice_subrange;

verus! {

/// The transports that carry DNS.
#[derive(Clone, Copy, Debug, Hash, PartialEq, Eq, Structural)]
pub enum Protocol {
    Udp,
    Tcp,
}

/// The tuple of a packet.
#[derive(Clone, Copy, Debug, PartialEq, Eq, Structural)]
pub struct PacketInfo {
    pub source: SocketAddr,
    pub destination: SocketAddr,
    pub protocol: Protocol,
}

/// Why a packet is refused.
#[derive(Clone, Copy, Debug, PartialEq, Eq, Structural)]
pub enum PacketError {
    Truncated,
    InvalidLength,
    UnsupportedVersion,
    UnsupportedProtocol,
    UnsupportedExtension,
    Fragmented,
    FamilyMismatch,
    UnsupportedScope,
}

/// Where the parts of a valid packet stand: the transport starts at `offset` and
/// takes the rest of the packet.
#[derive(Clone, Copy, Debug, PartialEq, Eq, Structural)]
pub struct PacketLayout {
    pub v4: bool,
    pub offset: usize,
    pub protocol: Protocol,
}

impl Protocol {
    /// The number of the protocol in an IP header.
    pub open spec fn spec_number(self) -> u8 {
        match self {
            Protocol::Udp => 17,
            Protocol::Tcp => 6,
        }
    }

    pub fn number(self) -> (result: u8)
        ensures
            result == self.spec_number(),
    {
        match self {
            Protocol::Udp => 17,
            Protocol::Tcp => 6,
        }
    }

    /// Where the checksum stands in the transport header.
    pub open spec fn checksum_at(self) -> int {
        match self {
            Protocol::Udp => 6,
            Protocol::Tcp => 16,
        }
    }
}

/// The protocol with a given number.
pub open spec fn protocol_of(number: u8) -> Option<Protocol> {
    if number == 17 {
        Some(Protocol::Udp)
    } else if number == 6 {
        Some(Protocol::Tcp)
    } else {
        None
    }
}

/// What is wrong with the IPv4 options from `at` up to the end of the header.
///
/// Kind 0 ends the options and zeros must follow; kind 1 is one byte; source
/// routes (131 and 137) are refused; any other kind says its length in the byte
/// behind it.
pub open spec fn options_fault(packet: Seq<u8>, at: int, header: int) -> Option<PacketError>
    decreases header - at,
{
    if at >= header {
        None
    } else if packet[at] == 0 {
        if forall|i: int| at < i < header ==> packet[i] == 0 {
            None
        } else {
            Some(PacketError::InvalidLength)
        }
    } else if packet[at] == 1 {
        options_fault(packet, at + 1, header)
    } else if packet[at] == 131 || packet[at] == 137 {
        Some(PacketError::UnsupportedExtension)
    } else if at + 1 >= header || packet[at + 1] < 2 || at + packet[at + 1] > header {
        Some(PacketError::InvalidLength)
    } else {
        options_fault(packet, at + packet[at + 1], header)
    }
}

/// Whether the transport header at `offset` agrees with the length of the rest
/// of the packet.
pub open spec fn transport_valid(packet: Seq<u8>, offset: int, protocol: Protocol) -> bool {
    let length = packet.len() - offset;
    match protocol {
        Protocol::Udp => length >= 8 && word(packet[offset + 4], packet[offset + 5]) == length,
        Protocol::Tcp => length >= 20 && 20 <= packet[offset + 12] / 16 * 4 <= length,
    }
}

/// What the check of a transport header comes to, given where it begins and how long
/// the transport part is said to be.
pub open spec fn transport_outcome(
    packet: Seq<u8>,
    offset: usize,
    length: usize,
    protocol: Protocol,
) -> Result<(), PacketError> {
    if offset + length > usize::MAX {
        Err(PacketError::InvalidLength)
    } else if offset + length > packet.len() {
        Err(PacketError::Truncated)
    } else if !transport_valid(packet.take(offset + length), offset as int, protocol) {
        Err(PacketError::InvalidLength)
    } else {
        Ok(())
    }
}

/// The length of an IPv4 header.
pub open spec fn v4_header(packet: Seq<u8>) -> int {
    packet[0] % 16 * 4
}

/// The layout of an IPv4 packet, or the first check that it fails.
pub open spec fn layout_v4(packet: Seq<u8>) -> Result<PacketLayout, PacketError> {
    let header = v4_header(packet);
    let flags = word(packet[6], packet[7]);
    if packet.len() < 20 {
        Err(PacketError::Truncated)
    } else if header < 20 {
        Err(PacketError::InvalidLength)
    } else if packet.len() < header {
        Err(PacketError::Truncated)
    } else if options_fault(packet, 20, header) is Some {
        Err(options_fault(packet, 20, header)->0)
    } else if word(packet[2], packet[3]) != packet.len() {
        Err(PacketError::InvalidLength)
    } else if flags != 0 && flags != 0x4000 {
        Err(PacketError::Fragmented)
    } else {
        match protocol_of(packet[9]) {
            None => Err(PacketError::UnsupportedProtocol),
            Some(protocol) => if !transport_valid(packet, header, protocol) {
                Err(PacketError::InvalidLength)
            } else {
                Ok(PacketLayout { v4: true, offset: header as usize, protocol })
            },
        }
    }
}

/// The layout of an IPv6 packet, or the first check that it fails.
pub open spec fn layout_v6(packet: Seq<u8>) -> Result<PacketLayout, PacketError> {
    if packet.len() < 40 {
        Err(PacketError::Truncated)
    } else if word(packet[4], packet[5]) + 40 != packet.len() {
        Err(PacketError::InvalidLength)
    } else {
        match protocol_of(packet[6]) {
            None => Err(PacketError::UnsupportedExtension),
            Some(protocol) => if !transport_valid(packet, 40, protocol) {
                Err(PacketError::InvalidLength)
            } else {
                Ok(PacketLayout { v4: false, offset: 40, protocol })
            },
        }
    }
}

/// The layout of a packet, or the first check that it fails.
pub open spec fn layout_of(packet: Seq<u8>) -> Result<PacketLayout, PacketError> {
    if packet.len() == 0 {
        Err(PacketError::Truncated)
    } else if packet[0] / 16 == 4 {
        layout_v4(packet)
    } else if packet[0] / 16 == 6 {
        layout_v6(packet)
    } else {
        Err(PacketError::UnsupportedVersion)
    }
}

/// The IPv4 address at `at`.
pub open spec fn v4_at(packet: Seq<u8>, at: int) -> Ipv4Addr {
    Ipv4Addr { a: packet[at], b: packet[at + 1], c: packet[at + 2], d: packet[at + 3] }
}

/// The IPv6 address at `at`.
pub open spec fn v6_at(packet: Seq<u8>, at: int) -> Ipv6Addr {
    Ipv6Addr {
        s0: word(packet[at], packet[at + 1]) as u16,
        s1: word(packet[at + 2], packet[at + 3]) as u16,
        s2: word(packet[at + 4], packet[at + 5]) as u16,
        s3: word(packet[at + 6], packet[at + 7]) as u16,
        s4: word(packet[at + 8], packet[at + 9]) as u16,
        s5: word(packet[at + 10], packet[at + 11]) as u16,
        s6: word(packet[at + 12], packet[at + 13]) as u16,
        s7: word(packet[at + 14], packet[at + 15]) as u16,
    }
}

/// An endpoint that names neither a flow nor an interface.
pub open spec fn bare_endpoint(ip: IpAddr, port: u16) -> SocketAddr {
    match ip {
        IpAddr::V4(ip) => SocketAddr::V4(crate::net::SocketAddrV4 { ip, port }),
        IpAddr::V6(ip) => SocketAddr::V6(
            crate::net::SocketAddrV6 { ip, port, flowinfo: 0, scope_id: 0 },
        ),
    }
}

/// An endpoint as a packet carries it: its address and port alone.
pub open spec fn on_wire(endpoint: SocketAddr) -> SocketAddr {
    bare_endpoint(endpoint.spec_ip(), endpoint.spec_port())
}

/// The tuple of a packet with the given layout.
pub open spec fn info_of(packet: Seq<u8>, layout: PacketLayout) -> PacketInfo {
    let offset = layout.offset as int;
    let source_port = word(packet[offset], packet[offset + 1]) as u16;
    let destination_port = word(packet[offset + 2], packet[offset + 3]) as u16;
    if layout.v4 {
        PacketInfo {
            source: bare_endpoint(IpAddr::V4(v4_at(packet, 12)), source_port),
            destination: bare_endpoint(IpAddr::V4(v4_at(packet, 16)), destination_port),
            protocol: layout.protocol,
        }
    } else {
        PacketInfo {
            source: bare_endpoint(IpAddr::V6(v6_at(packet, 8)), source_port),
            destination: bare_endpoint(IpAddr::V6(v6_at(packet, 24)), destination_port),
            protocol: layout.protocol,
        }
    }
}

/// The tuple of a packet, or why it has none.
pub open spec fn decoded(packet: Seq<u8>) -> Result<PacketInfo, PacketError> {
    match layout_of(packet) {
        Ok(layout) => Ok(info_of(packet, layout)),
        Err(error) => Err(error),
    }
}

/// The sum of the big-endian 16-bit words of `bytes`; an odd last byte is the
/// high half of a word.
pub open spec fn word_sum(bytes: Seq<u8>) -> nat
    decreases bytes.len(),
{
    if bytes.len() == 0 {
        0
    } else if bytes.len() == 1 {
        word(bytes[0], 0) as nat
    } else {
        word(bytes[0], bytes[1]) as nat + word_sum(bytes.skip(2))
    }
}

/// A sum in ones' complement: the carries out of 16 bits are added back.
pub open spec fn folded(total: nat) -> nat {
    if total == 0 {
        0
    } else {
        ((total - 1) % 65535 + 1) as nat
    }
}

/// The words of the pseudo-header that a transport checksum covers.
pub open spec fn pseudo_sum(packet: Seq<u8>, layout: PacketLayout) -> nat {
    let length = packet.len() - layout.offset;
    (if layout.v4 {
        word_sum(packet.subrange(12, 20))
    } else {
        word_sum(packet.subrange(8, 40))
    }) + layout.protocol.spec_number() as nat + length as nat
}

/// All that a transport checksum covers.
pub open spec fn transport_sum(packet: Seq<u8>, layout: PacketLayout) -> nat {
    pseudo_sum(packet, layout) + word_sum(packet.skip(layout.offset as int))
}

/// `bytes` with `patch` in place of what stood at `at`.
pub open spec fn put(bytes: Seq<u8>, at: int, patch: Seq<u8>) -> Seq<u8> {
    Seq::new(
        bytes.len(),
        |i: int|
            if at <= i < at + patch.len() {
                patch[i - at]
            } else {
                bytes[i]
            },
    )
}

/// The two octets of a number, most significant first.
pub open spec fn big_endian(value: int) -> Seq<u8> {
    seq![(value / 256) as u8, (value % 256) as u8]
}

/// The octets of an address.
pub open spec fn octets_of(ip: IpAddr) -> Seq<u8> {
    match ip {
        IpAddr::V4(ip) => ip.octets(),
        IpAddr::V6(ip) => ip.octets(),
    }
}

/// `packet` with new addresses and ports.
pub open spec fn retupled(
    packet: Seq<u8>,
    layout: PacketLayout,
    source: SocketAddr,
    destination: SocketAddr,
) -> Seq<u8> {
    let (source_at, destination_at): (int, int) = if layout.v4 {
        (12, 16)
    } else {
        (8, 24)
    };
    let offset = layout.offset as int;
    let addressed = put(
        put(packet, source_at, octets_of(source.spec_ip())),
        destination_at,
        octets_of(destination.spec_ip()),
    );
    put(
        put(addressed, offset, big_endian(source.spec_port() as int)),
        offset + 2,
        big_endian(destination.spec_port() as int),
    )
}

/// `packet` with its IPv4 header checksum computed anew; IPv6 has none.
pub open spec fn header_summed(packet: Seq<u8>, layout: PacketLayout) -> Seq<u8> {
    if layout.v4 {
        let cleared = put(packet, 10, big_endian(0));
        let sum = folded(word_sum(cleared.take(layout.offset as int)));
        put(cleared, 10, big_endian(0xffff - sum))
    } else {
        packet
    }
}

/// The transport checksum for a given sum. UDP writes 0xffff for zero, which
/// would mean that there is no checksum.
pub open spec fn checksum_value(protocol: Protocol, sum: nat) -> int {
    if protocol == Protocol::Udp && folded(sum) == 0xffff {
        0xffff
    } else {
        0xffff - folded(sum)
    }
}

/// `packet` with its transport checksum computed anew.
pub open spec fn transport_summed(packet: Seq<u8>, layout: PacketLayout) -> Seq<u8> {
    let at = layout.offset + layout.protocol.checksum_at();
    let cleared = put(packet, at, big_endian(0));
    put(
        cleared,
        at,
        big_endian(checksum_value(layout.protocol, transport_sum(cleared, layout))),
    )
}

/// `packet` with a new tuple and the checksums that belong to it.
pub open spec fn rewritten(
    packet: Seq<u8>,
    layout: PacketLayout,
    source: SocketAddr,
    destination: SocketAddr,
) -> Seq<u8> {
    transport_summed(
        header_summed(retupled(packet, layout, source, destination), layout),
        layout,
    )
}

/// What a rewrite gives for each input.
pub open spec fn rewrite_outcome(
    packet: Seq<u8>,
    source: SocketAddr,
    destination: SocketAddr,
) -> Result<Seq<u8>, PacketError> {
    match layout_of(packet) {
        Err(error) => Err(error),
        Ok(layout) => if source.spec_scope() != 0 || destination.spec_scope() != 0 {
            Err(PacketError::UnsupportedScope)
        } else if (source is V4) != layout.v4 || (destination is V4) != layout.v4 {
            Err(PacketError::FamilyMismatch)
        } else {
            Ok(rewritten(packet, layout, source, destination))
        },
    }
}

/// Reads the tuple of a packet.
pub fn decode(packet: &[u8]) -> (result: Result<PacketInfo, PacketError>)
    ensures
        result == decoded(packet@),
{
    match parse_layout(packet) {
        Ok(layout) => {
            proof {
                lemma_layout_bounds(packet@);
            }
            Ok(read_info(packet, layout))
        },
        Err(error) => Err(error),
    }
}

/// Whether an endpoint names an interface, which a packet cannot carry.
fn has_nonzero_scope(address: SocketAddr) -> (result: bool)
    ensures
        result == (address.spec_scope() != 0),
{
    address.scope() != 0
}

/// Where a valid packet ends and its transport starts.
pub proof fn lemma_layout_bounds(packet: Seq<u8>)
    ensures
        layout_of(packet) matches Ok(layout) ==> {
            &&& 20 <= layout.offset
            &&& layout.offset + layout.protocol.checksum_at() + 2 <= packet.len()
            &&& packet.len() <= 65575
            &&& packet.len() - layout.offset <= 65535
            &&& layout.offset % 2 == 0
            &&& !layout.v4 ==> layout.offset == 40
            &&& layout.v4 ==> layout.offset == v4_header(packet) && layout.offset <= 60
        },
{
}

pub(crate) fn parse_layout(packet: &[u8]) -> (result: Result<PacketLayout, PacketError>)
    ensures
        result == layout_of(packet@),
{
    if packet.len() == 0 {
        return Err(PacketError::Truncated);
    }
    match packet[0] / 16 {
        4 => parse_ipv4(packet),
        6 => parse_ipv6(packet),
        _ => Err(PacketError::UnsupportedVersion),
    }
}

fn parse_protocol(number: u8) -> (result: Option<Protocol>)
    ensures
        result == protocol_of(number),
{
    match number {
        17 => Some(Protocol::Udp),
        6 => Some(Protocol::Tcp),
        _ => None,
    }
}

fn parse_ipv4(packet: &[u8]) -> (result: Result<PacketLayout, PacketError>)
    requires
        packet.len() > 0,
    ensures
        result == layout_v4(packet@),
{
    if packet.len() < 20 {
        return Err(PacketError::Truncated);
    }
    let header_len: usize = (packet[0] % 16) as usize * 4;
    if header_len < 20 {
        return Err(PacketError::InvalidLength);
    }
    if packet.len() < header_len {
        return Err(PacketError::Truncated);
    }
    match validate_ipv4_options(packet, header_len) {
        Err(error) => return Err(error),
        Ok(()) => {},
    }
    let total_len: usize = word_value(packet[2], packet[3]) as usize;
    if total_len != packet.len() {
        return Err(PacketError::InvalidLength);
    }
    let flags_and_offset: u16 = word_value(packet[6], packet[7]);
    if flags_and_offset != 0 && flags_and_offset != 0x4000 {
        return Err(PacketError::Fragmented);
    }
    assert(packet@.take(packet@.len() as int) =~= packet@);
    match parse_protocol(packet[9]) {
        None => Err(PacketError::UnsupportedProtocol),
        Some(protocol) => match validate_transport(
            packet,
            header_len,
            packet.len() - header_len,
            protocol,
        ) {
            Err(error) => Err(error),
            Ok(()) => Ok(PacketLayout { v4: true, offset: header_len, protocol }),
        },
    }
}

fn validate_ipv4_options(packet: &[u8], header_len: usize) -> (result: Result<(), PacketError>)
    requires
        20 <= header_len <= packet.len(),
        header_len <= 60,
    ensures
        result is Ok <==> options_fault(packet@, 20, header_len as int) is None,
        result matches Err(error) ==> options_fault(packet@, 20, header_len as int) == Some(error),
{
    let mut offset: usize = 20;
    while offset < header_len
        invariant
            20 <= offset <= header_len <= packet.len(),
            header_len <= 60,
            options_fault(packet@, 20, header_len as int) == options_fault(
                packet@,
                offset as int,
                header_len as int,
            ),
        decreases header_len - offset,
    {
        let kind: u8 = packet[offset];
        match kind {
            0 => {
                let mut i: usize = offset + 1;
                while i < header_len
                    invariant
                        offset < i <= header_len <= packet.len(),
                        packet@[offset as int] == 0,
                        options_fault(packet@, 20, header_len as int) == options_fault(
                            packet@,
                            offset as int,
                            header_len as int,
                        ),
                        forall|j: int| offset < j < i ==> packet@[j] == 0,
                    decreases header_len - i,
                {
                    if packet[i] != 0 {
                        return Err(PacketError::InvalidLength);
                    }
                    i += 1;
                }
                return Ok(());
            },
            1 => {
                offset += 1;
            },
            131 | 137 => {
                return Err(PacketError::UnsupportedExtension);
            },
            _ => {
                if offset + 1 >= header_len {
                    return Err(PacketError::InvalidLength);
                }
                let option_len: usize = packet[offset + 1] as usize;
                if option_len < 2 || offset + option_len > header_len {
                    return Err(PacketError::InvalidLength);
                }
                offset += option_len;
            },
        }
    }
    Ok(())
}

fn parse_ipv6(packet: &[u8]) -> (result: Result<PacketLayout, PacketError>)
    requires
        packet.len() > 0,
    ensures
        result == layout_v6(packet@),
{
    if packet.len() < 40 {
        return Err(PacketError::Truncated);
    }
    let payload_len: usize = word_value(packet[4], packet[5]) as usize;
    if payload_len + 40 != packet.len() {
        return Err(PacketError::InvalidLength);
    }
    assert(packet@.take(packet@.len() as int) =~= packet@);
    match parse_protocol(packet[6]) {
        None => Err(PacketError::UnsupportedExtension),
        Some(protocol) => match validate_transport(packet, 40, payload_len, protocol) {
            Err(error) => Err(error),
            Ok(()) => Ok(PacketLayout { v4: false, offset: 40, protocol }),
        },
    }
}

/// Checks that a transport header agrees with the length that is said of its part, and
/// that the part lies within the packet.
pub fn validate_transport(
    packet: &[u8],
    transport_offset: usize,
    transport_len: usize,
    protocol: Protocol,
) -> (result: Result<(), PacketError>)
    ensures
        result == transport_outcome(packet@, transport_offset, transport_len, protocol),
{
    let transport_end: usize = match transport_offset.checked_add(transport_len) {
        Some(transport_end) => transport_end,
        None => {
            return Err(PacketError::InvalidLength);
        },
    };
    if transport_end > packet.len() {
        return Err(PacketError::Truncated);
    }
    let agrees = match protocol {
        Protocol::Udp => transport_len >= 8 && word_value(
            packet[transport_offset + 4],
            packet[transport_offset + 5],
        ) as usize == transport_len,
        Protocol::Tcp => {
            if transport_len < 20 {
                false
            } else {
                let data_offset: usize = (packet[transport_offset + 12] / 16) as usize * 4;
                20 <= data_offset && data_offset <= transport_len
            }
        },
    };
    if agrees {
        Ok(())
    } else {
        Err(PacketError::InvalidLength)
    }
}

fn read_v4(packet: &[u8], at: usize) -> (result: Ipv4Addr)
    requires
        at + 4 <= packet.len(),
    ensures
        result == v4_at(packet@, at as int),
{
    Ipv4Addr { a: packet[at], b: packet[at + 1], c: packet[at + 2], d: packet[at + 3] }
}

fn read_v6(packet: &[u8], at: usize) -> (result: Ipv6Addr)
    requires
        at + 16 <= packet.len(),
    ensures
        result == v6_at(packet@, at as int),
{
    Ipv6Addr {
        s0: word_value(packet[at], packet[at + 1]),
        s1: word_value(packet[at + 2], packet[at + 3]),
        s2: word_value(packet[at + 4], packet[at + 5]),
        s3: word_value(packet[at + 6], packet[at + 7]),
        s4: word_value(packet[at + 8], packet[at + 9]),
        s5: word_value(packet[at + 10], packet[at + 11]),
        s6: word_value(packet[at + 12], packet[at + 13]),
        s7: word_value(packet[at + 14], packet[at + 15]),
    }
}

fn read_info(packet: &[u8], layout: PacketLayout) -> (result: PacketInfo)
    requires
        20 <= layout.offset,
        !layout.v4 ==> layout.offset == 40,
        layout.offset + 4 <= packet.len(),
    ensures
        result == info_of(packet@, layout),
{
    let at: usize = layout.offset;
    let source_port: u16 = word_value(packet[at], packet[at + 1]);
    let destination_port: u16 = word_value(packet[at + 2], packet[at + 3]);
    if layout.v4 {
        PacketInfo {
            source: SocketAddr::new(IpAddr::V4(read_v4(packet, 12)), source_port),
            destination: SocketAddr::new(IpAddr::V4(read_v4(packet, 16)), destination_port),
            protocol: layout.protocol,
        }
    } else {
        PacketInfo {
            source: SocketAddr::new(IpAddr::V6(read_v6(packet, 8)), source_port),
            destination: SocketAddr::new(IpAddr::V6(read_v6(packet, 24)), destination_port),
            protocol: layout.protocol,
        }
    }
}

/// Writes a new tuple into a packet and computes its checksums.
pub fn rewrite(packet: &[u8], source: SocketAddr, destination: SocketAddr) -> (result: Result<
    Vec<u8>,
    PacketError,
>)
    ensures
        result is Ok <==> rewrite_outcome(packet@, source, destination) is Ok,
        result matches Ok(bytes) ==> rewrite_outcome(packet@, source, destination) == Ok::<
            Seq<u8>,
            PacketError,
        >(bytes@),
        result matches Err(error) ==> rewrite_outcome(packet@, source, destination) == Err::<
            Seq<u8>,
            PacketError,
        >(error),
{
    let layout = match parse_layout(packet) {
        Ok(layout) => layout,
        Err(error) => return Err(error),
    };
    proof {
        lemma_layout_bounds(packet@);
    }
    if has_nonzero_scope(source) || has_nonzero_scope(destination) {
        return Err(PacketError::UnsupportedScope);
    }
    if source.ip().is_ipv4() != layout.v4 || destination.ip().is_ipv4() != layout.v4 {
        return Err(PacketError::FamilyMismatch);
    }
    let mut bytes = bytes_of(packet);
    let (source_at, destination_at): (usize, usize) = if layout.v4 {
        (12, 16)
    } else {
        (8, 24)
    };
    write_ip(&mut bytes, source_at, source.ip());
    write_ip(&mut bytes, destination_at, destination.ip());
    write_word(&mut bytes, layout.offset, source.port());
    write_word(&mut bytes, layout.offset + 2, destination.port());
    if layout.v4 {
        write_word(&mut bytes, 10, 0);
        let checksum: u16 = internet_checksum(slice_subrange(bytes.as_slice(), 0, layout.offset));
        proof {
            assert(bytes@.subrange(0, layout.offset as int) =~= bytes@.take(layout.offset as int));
        }
        write_word(&mut bytes, 10, checksum);
    }
    let checksum_at: usize = match layout.protocol {
        Protocol::Udp => layout.offset + 6,
        Protocol::Tcp => layout.offset + 16,
    };
    write_word(&mut bytes, checksum_at, 0);
    let checksum: u16 = transport_checksum(bytes.as_slice(), layout);
    if layout.protocol == Protocol::Udp && checksum == 0 {
        write_word(&mut bytes, checksum_at, 0xffff);
    } else {
        write_word(&mut bytes, checksum_at, checksum);
    }
    Ok(bytes)
}

fn write_word(bytes: &mut Vec<u8>, at: usize, value: u16)
    requires
        at + 2 <= old(bytes).len(),
    ensures
        final(bytes)@ == put(old(bytes)@, at as int, big_endian(value as int)),
{
    let (high, low) = word_octets(value);
    bytes.set(at, high);
    bytes.set(at + 1, low);
    proof {
        assert(bytes@ =~= put(old(bytes)@, at as int, big_endian(value as int)));
    }
}

fn write_ip(bytes: &mut Vec<u8>, at: usize, ip: IpAddr)
    requires
        at + octets_of(ip).len() <= old(bytes).len(),
    ensures
        final(bytes)@ == put(old(bytes)@, at as int, octets_of(ip)),
{
    match ip {
        IpAddr::V4(ip) => {
            bytes.set(at, ip.a);
            bytes.set(at + 1, ip.b);
            bytes.set(at + 2, ip.c);
            bytes.set(at + 3, ip.d);
            assert(bytes@ =~= put(old(bytes)@, at as int, ip.octets()));
        },
        IpAddr::V6(ip) => {
            let segments = ip.to_segments();
            let ghost before = bytes@;
            let mut i: usize = 0;
            while i < 8
                invariant
                    i <= 8,
                    segments@ == ip.segments(),
                    at + 16 <= bytes.len(),
                    bytes@.len() == before.len(),
                    forall|j: int|
                        0 <= j < before.len() ==> #[trigger] bytes@[j] == (if at <= j < at + 2 * i {
                            ip.octets()[j - at]
                        } else {
                            before[j]
                        }),
                decreases 8 - i,
            {
                let (high, low) = word_octets(segments[i]);
                assert(high == ip.octets()[2 * i as int] && low == ip.octets()[2 * i + 1]);
                bytes.set(at + 2 * i, high);
                bytes.set(at + 2 * i + 1, low);
                i += 1;
            }
            assert(bytes@ =~= put(before, at as int, ip.octets()));
        },
    }
}

fn transport_checksum(packet: &[u8], layout: PacketLayout) -> (result: u16)
    requires
        20 <= layout.offset <= packet.len(),
        !layout.v4 ==> layout.offset == 40,
        packet.len() - layout.offset <= 65535,
    ensures
        result == 0xffff - folded(transport_sum(packet@, layout)),
{
    let covered = if layout.v4 {
        slice_subrange(packet, 12, 20)
    } else {
        slice_subrange(packet, 8, 40)
    };
    let transport_len: usize = packet.len() - layout.offset;
    let ghost addresses = word_sum(covered@);
    let ghost number = layout.protocol.spec_number() as nat;
    let mut sum: u32 = add_checksum_words(0, covered);
    proof {
        lemma_folded_sum(addresses, number);
        lemma_folded_sum(addresses + number, transport_len as nat);
    }
    sum = fold_once(sum + layout.protocol.number() as u32);
    sum = fold_once(sum + transport_len as u32);
    let rest = slice_subrange(packet, layout.offset, packet.len());
    proof {
        assert(rest@ =~= packet@.skip(layout.offset as int));
        lemma_folded_sum(addresses + number + transport_len as nat, word_sum(rest@));
    }
    sum = add_checksum_words(sum, rest);
    0xffff - fold_checksum_sum_value(sum)
}

fn internet_checksum(bytes: &[u8]) -> (result: u16)
    ensures
        result == 0xffff - folded(word_sum(bytes@)),
{
    0xffff - fold_checksum_sum(bytes)
}

fn fold_checksum_sum(bytes: &[u8]) -> (result: u16)
    ensures
        result == folded(word_sum(bytes@)),
{
    let sum: u32 = add_checksum_words(0, bytes);
    fold_checksum_sum_value(sum)
}

/// Adds the carry out of 16 bits back once.
fn fold_once(sum: u32) -> (result: u32)
    ensures
        folded(result as nat) == folded(sum as nat),
        sum >= 65536 ==> result < sum,
        sum <= 0x1fffe ==> result <= 0xffff && result == folded(sum as nat),
{
    sum % 65536 + sum / 65536
}

fn add_checksum_words(sum: u32, bytes: &[u8]) -> (result: u32)
    requires
        sum <= 0xffff,
    ensures
        result <= 0xffff,
        result == folded(sum as nat + word_sum(bytes@)),
{
    let mut total: u32 = sum;
    let mut i: usize = 0;
    assert(bytes@.skip(0) =~= bytes@);
    while i < bytes.len()
        invariant
            i <= bytes.len(),
            total <= 0xffff,
            folded(total as nat + word_sum(bytes@.skip(i as int))) == folded(
                sum as nat + word_sum(bytes@),
            ),
        decreases bytes.len() - i,
    {
        let ghost rest = bytes@.skip(i as int);
        let high: u8 = bytes[i];
        let low: u8 = if i + 1 < bytes.len() {
            bytes[i + 1]
        } else {
            0
        };
        let value: u16 = word_value(high, low);
        let next: u32 = fold_once(total + value as u32);
        if i + 1 < bytes.len() {
            proof {
                assert(rest.skip(2) =~= bytes@.skip(i + 2));
                lemma_folded_sum((total + value) as nat, word_sum(bytes@.skip(i + 2)));
            }
            i += 2;
        } else {
            proof {
                assert(bytes@.skip(i + 1) =~= Seq::empty());
                assert(word_sum(rest) == value);
            }
            i += 1;
        }
        total = next;
    }
    assert(bytes@.skip(i as int) =~= Seq::empty());
    total
}

fn fold_checksum_sum_value(sum: u32) -> (result: u16)
    ensures
        result == folded(sum as nat),
{
    let mut folding: u32 = sum;
    while folding >= 65536
        invariant
            folded(folding as nat) == folded(sum as nat),
        decreases folding,
    {
        folding = fold_once(folding);
    }
    folding as u16
}

/// Folding a part of a sum first changes nothing.
proof fn lemma_folded_sum(first: nat, second: nat)
    ensures
        folded(folded(first) + second) == folded(first + second),
        folded(first) <= 0xffff,
{
}

/// Filling a cleared word of a sum adds its value.
proof fn lemma_word_sum_put(bytes: Seq<u8>, at: int, value: int)
    requires
        0 <= at,
        at + 2 <= bytes.len(),
        at % 2 == 0,
        bytes[at] == 0,
        bytes[at + 1] == 0,
        0 <= value <= 0xffff,
    ensures
        word_sum(put(bytes, at, big_endian(value))) == word_sum(bytes) + value,
    decreases at,
{
    let filled = put(bytes, at, big_endian(value));
    if at == 0 {
        assert(filled.skip(2) =~= bytes.skip(2));
        assert(word(filled[0], filled[1]) == value);
    } else {
        assert(filled.skip(2) =~= put(bytes.skip(2), at - 2, big_endian(value)));
        lemma_word_sum_put(bytes.skip(2), at - 2, value);
    }
}

/// The options depend on the bytes of the header alone.
proof fn lemma_options_agree(left: Seq<u8>, right: Seq<u8>, at: int, header: int)
    requires
        forall|i: int| at <= i < header ==> left[i] == right[i],
    ensures
        options_fault(left, at, header) == options_fault(right, at, header),
    decreases header - at,
{
    if at < header {
        assert(left[at] == right[at]);
        if at + 1 < header {
            assert(left[at + 1] == right[at + 1]);
        }
        if left[at] == 0 {
            assert((forall|i: int| at < i < header ==> left[i] == 0) <==> (forall|i: int|
                at < i < header ==> right[i] == 0));
        } else if left[at] == 1 {
            lemma_options_agree(left, right, at + 1, header);
        } else if left[at] != 131 && left[at] != 137 && at + 1 < header && left[at + 1] >= 2 && at
            + left[at + 1] <= header {
            lemma_options_agree(left, right, at + left[at + 1], header);
        }
    }
}

/// Whether a rewrite may change the byte at `i`: addresses, ports and checksums.
pub open spec fn rewritable(layout: PacketLayout, i: int) -> bool {
    let offset = layout.offset as int;
    let checksum = offset + layout.protocol.checksum_at();
    ||| (layout.v4 && 10 <= i < 20)
    ||| (!layout.v4 && 8 <= i < 40)
    ||| offset <= i < offset + 4
    ||| checksum <= i < checksum + 2
}

/// A rewrite keeps the length of the packet and every byte that is part of
/// neither the tuple nor a checksum.
pub proof fn rewrite_preserves_other_bytes(
    packet: Seq<u8>,
    layout: PacketLayout,
    source: SocketAddr,
    destination: SocketAddr,
)
    requires
        layout_of(packet) == Ok::<PacketLayout, PacketError>(layout),
        (source is V4) == layout.v4,
        (destination is V4) == layout.v4,
    ensures
        rewritten(packet, layout, source, destination).len() == packet.len(),
        forall|i: int|
            0 <= i < packet.len() && !rewritable(layout, i) ==> #[trigger] rewritten(
                packet,
                layout,
                source,
                destination,
            )[i] == packet[i],
{
    lemma_layout_bounds(packet);
}

/// The bytes of a rewritten tuple.
proof fn lemma_rewritten_tuple(
    packet: Seq<u8>,
    layout: PacketLayout,
    source: SocketAddr,
    destination: SocketAddr,
)
    requires
        layout_of(packet) == Ok::<PacketLayout, PacketError>(layout),
        (source is V4) == layout.v4,
        (destination is V4) == layout.v4,
    ensures
        info_of(rewritten(packet, layout, source, destination), layout) == (PacketInfo {
            source: on_wire(source),
            destination: on_wire(destination),
            protocol: layout.protocol,
        }),
{
    lemma_layout_bounds(packet);
    let result = rewritten(packet, layout, source, destination);
    let offset = layout.offset as int;
    assert(word(result[offset], result[offset + 1]) == source.spec_port());
    assert(word(result[offset + 2], result[offset + 3]) == destination.spec_port());
    if layout.v4 {
        let s = source->V4_0.ip;
        let d = destination->V4_0.ip;
        assert(v4_at(result, 12) == s);
        assert(v4_at(result, 16) == d);
    } else {
        let s = source->V6_0.ip;
        let d = destination->V6_0.ip;
        assert forall|k: int| 0 <= k < 16 implies result[8 + k] == #[trigger] s.octets()[k] by {}
        assert forall|k: int| 0 <= k < 16 implies result[24 + k] == #[trigger] d.octets()[k] by {}
        let so = s.octets();
        let dd = d.octets();
        assert(word(so[0], so[1]) == s.s0);
        assert(word(so[2], so[3]) == s.s1);
        assert(word(so[4], so[5]) == s.s2);
        assert(word(so[6], so[7]) == s.s3);
        assert(word(so[8], so[9]) == s.s4);
        assert(word(so[10], so[11]) == s.s5);
        assert(word(so[12], so[13]) == s.s6);
        assert(word(so[14], so[15]) == s.s7);
        assert(word(dd[0], dd[1]) == d.s0);
        assert(word(dd[2], dd[3]) == d.s1);
        assert(word(dd[4], dd[5]) == d.s2);
        assert(word(dd[6], dd[7]) == d.s3);
        assert(word(dd[8], dd[9]) == d.s4);
        assert(word(dd[10], dd[11]) == d.s5);
        assert(word(dd[12], dd[13]) == d.s6);
        assert(word(dd[14], dd[15]) == d.s7);
        assert(v6_at(result, 8) == s);
        assert(v6_at(result, 24) == d);
    }
}

/// A rewritten packet is valid again, with the same layout, and decodes to the
/// new tuple.
pub proof fn rewrite_then_decode(
    packet: Seq<u8>,
    layout: PacketLayout,
    source: SocketAddr,
    destination: SocketAddr,
)
    requires
        layout_of(packet) == Ok::<PacketLayout, PacketError>(layout),
        (source is V4) == layout.v4,
        (destination is V4) == layout.v4,
    ensures
        layout_of(rewritten(packet, layout, source, destination)) == Ok::<
            PacketLayout,
            PacketError,
        >(layout),
        decoded(rewritten(packet, layout, source, destination)) == Ok::<PacketInfo, PacketError>(
            PacketInfo {
                source: on_wire(source),
                destination: on_wire(destination),
                protocol: layout.protocol,
            },
        ),
{
    let result = rewritten(packet, layout, source, destination);
    lemma_layout_bounds(packet);
    rewrite_preserves_other_bytes(packet, layout, source, destination);
    lemma_rewritten_tuple(packet, layout, source, destination);
    let offset = layout.offset as int;
    assert(result[0] == packet[0]);
    if layout.v4 {
        assert(result[2] == packet[2] && result[3] == packet[3]);
        assert(result[6] == packet[6] && result[7] == packet[7]);
        assert(result[9] == packet[9]);
        lemma_options_agree(packet, result, 20, offset);
    } else {
        assert(result[4] == packet[4] && result[5] == packet[5] && result[6] == packet[6]);
    }
    match layout.protocol {
        Protocol::Udp => {
            assert(result[offset + 4] == packet[offset + 4]);
            assert(result[offset + 5] == packet[offset + 5]);
        },
        Protocol::Tcp => {
            assert(result[offset + 12] == packet[offset + 12]);
        },
    }
}

/// Rewriting a rewritten packet with the tuple that the packet had at first
/// restores that tuple and every byte outside the checksums.
pub proof fn inverse_rewrite_restores(
    packet: Seq<u8>,
    layout: PacketLayout,
    source: SocketAddr,
    destination: SocketAddr,
)
    requires
        layout_of(packet) == Ok::<PacketLayout, PacketError>(layout),
        (source is V4) == layout.v4,
        (destination is V4) == layout.v4,
    ensures
        ({
            let info = info_of(packet, layout);
            let changed = rewritten(packet, layout, source, destination);
            let restored = rewritten(changed, layout, info.source, info.destination);
            &&& layout_of(changed) == Ok::<PacketLayout, PacketError>(layout)
            &&& decoded(restored) == Ok::<PacketInfo, PacketError>(info)
            &&& restored.len() == packet.len()
            &&& forall|i: int|
                0 <= i < packet.len() && !rewritable(layout, i) ==> #[trigger] restored[i]
                    == packet[i]
        }),
{
    let info = info_of(packet, layout);
    let changed = rewritten(packet, layout, source, destination);
    let restored = rewritten(changed, layout, info.source, info.destination);
    rewrite_then_decode(packet, layout, source, destination);
    rewrite_preserves_other_bytes(packet, layout, source, destination);
    rewrite_then_decode(changed, layout, info.source, info.destination);
    rewrite_preserves_other_bytes(changed, layout, info.source, info.destination);
    assert forall|i: int| 0 <= i < packet.len() && !rewritable(layout, i) implies #[trigger] restored[i]
        == packet[i] by {
        assert(restored[i] == changed[i]);
        assert(changed[i] == packet[i]);
    }
}

/// The checksums of a rewritten packet are valid: the IPv4 header, and the
/// transport with its pseudo-header, each sum to 0xffff. A UDP checksum is
/// never zero.
pub proof fn rewritten_checksums_are_valid(
    packet: Seq<u8>,
    layout: PacketLayout,
    source: SocketAddr,
    destination: SocketAddr,
)
    requires
        layout_of(packet) == Ok::<PacketLayout, PacketError>(layout),
        (source is V4) == layout.v4,
        (destination is V4) == layout.v4,
    ensures
        ({
            let result = rewritten(packet, layout, source, destination);
            let at = layout.offset + layout.protocol.checksum_at();
            &&& layout.v4 ==> folded(word_sum(result.take(layout.offset as int))) == 0xffff
            &&& folded(transport_sum(result, layout)) == 0xffff
            &&& layout.protocol == Protocol::Udp ==> word(result[at], result[at + 1]) != 0
        }),
{
    lemma_layout_bounds(packet);
    let offset = layout.offset as int;
    let tupled = retupled(packet, layout, source, destination);
    let headed = header_summed(tupled, layout);
    let result = transport_summed(headed, layout);
    let at = offset + layout.protocol.checksum_at();
    let cleared = put(headed, at, big_endian(0));
    let value = checksum_value(layout.protocol, transport_sum(cleared, layout));
    if layout.v4 {
        let blank = put(tupled, 10, big_endian(0));
        let sum = folded(word_sum(blank.take(offset)));
        lemma_word_sum_put(blank.take(offset), 10, 0xffff - sum);
        assert(headed.take(offset) =~= put(blank.take(offset), 10, big_endian(0xffff - sum)));
        assert(result.take(offset) =~= headed.take(offset));
        assert(result.subrange(12, 20) =~= cleared.subrange(12, 20));
    } else {
        assert(result.subrange(8, 40) =~= cleared.subrange(8, 40));
    }
    assert(result.skip(offset) =~= put(cleared.skip(offset), at - offset, big_endian(value)));
    lemma_word_sum_put(cleared.skip(offset), at - offset, value);
    assert(transport_sum(result, layout) == transport_sum(cleared, layout) + value);
    assert(word(result[at], result[at + 1]) == value);
}

/// No proper prefix of a valid packet is valid.
pub proof fn prefixes_are_rejected(packet: Seq<u8>, length: int)
    requires
        decoded(packet) is Ok,
        0 <= length < packet.len(),
    ensures
        decoded(packet.take(length)) is Err,
{
    lemma_layout_bounds(packet);
}

/// A valid packet with bytes behind it is not valid.
pub proof fn trailing_bytes_are_rejected(packet: Seq<u8>, tail: Seq<u8>)
    requires
        decoded(packet) is Ok,
        tail.len() > 0,
    ensures
        decoded(packet + tail) is Err,
{
    lemma_layout_bounds(packet);
    let longer = packet + tail;
    assert(longer[0] == packet[0] && longer[2] == packet[2] && longer[3] == packet[3] && longer[4]
        == packet[4] && longer[5] == packet[5]);
}

/// The octets of a text added up as the Internet checksum weighs them: those at even
/// places, counted from zero, are the high halves of words and those at odd places the
/// low halves.
pub open spec fn octet_sum(bytes: Seq<u8>) -> nat
    decreases bytes.len(),
{
    if bytes.len() == 0 {
        0
    } else {
        octet_sum(bytes.drop_last()) + bytes.last() as nat * (if bytes.len() % 2 == 1 {
            256nat
        } else {
            1nat
        })
    }
}

proof fn lemma_octet_sum_front(bytes: Seq<u8>)
    requires
        bytes.len() >= 2,
    ensures
        octet_sum(bytes) == bytes[0] as nat * 256 + bytes[1] as nat + octet_sum(bytes.skip(2)),
    decreases bytes.len(),
{
    if bytes.len() == 2 {
        reveal_with_fuel(octet_sum, 3);
        assert(bytes.drop_last().drop_last() =~= Seq::empty());
        assert(bytes.skip(2) =~= Seq::empty());
    } else {
        lemma_octet_sum_front(bytes.drop_last());
        assert(bytes.drop_last().skip(2) =~= bytes.skip(2).drop_last());
        assert(bytes.skip(2).last() == bytes.last());
    }
}

/// The sum that a checksum covers weighs every octet by its place: an odd last octet is
/// the high half of a word whose low half is zero.
pub proof fn checksums_weigh_octets_by_place(bytes: Seq<u8>)
    ensures
        word_sum(bytes) == octet_sum(bytes),
        bytes.len() % 2 == 1 ==> word_sum(bytes) == word_sum(bytes.push(0)),
    decreases bytes.len(),
{
    if bytes.len() == 1 {
        reveal_with_fuel(octet_sum, 2);
        assert(bytes.drop_last() =~= Seq::empty());
        assert(bytes.push(0).skip(2) =~= Seq::empty());
        assert(word_sum(bytes.push(0)) == word(bytes[0], 0) as nat + word_sum(Seq::<u8>::empty()));
    } else if bytes.len() >= 2 {
        lemma_octet_sum_front(bytes);
        checksums_weigh_octets_by_place(bytes.skip(2));
        assert(bytes.push(0).skip(2) =~= bytes.skip(2).push(0));
    }
}

/// Where the transport of a packet starts, by its first octet.
pub open spec fn transport_start(packet: Seq<u8>) -> int {
    if packet[0] / 16 == 4 {
        packet[0] % 16 * 4
    } else {
        40
    }
}

/// The number of the transport of a packet.
pub open spec fn transport_number(packet: Seq<u8>) -> u8 {
    if packet[0] / 16 == 4 {
        packet[9]
    } else {
        packet[6]
    }
}

/// Where the checksum of the transport stands: UDP is 17, anything else TCP.
pub open spec fn checksum_start(packet: Seq<u8>) -> int {
    transport_start(packet) + if transport_number(packet) == 17 {
        6int
    } else {
        16int
    }
}

/// Whether octets spell an address, the most significant first.
pub open spec fn spells(octets: Seq<u8>, ip: IpAddr) -> bool {
    match ip {
        IpAddr::V4(v4) => octets == seq![v4.a, v4.b, v4.c, v4.d],
        IpAddr::V6(v6) => {
            &&& octets.len() == 16
            &&& octets[0] * 256 + octets[1] == v6.s0
            &&& octets[2] * 256 + octets[3] == v6.s1
            &&& octets[4] * 256 + octets[5] == v6.s2
            &&& octets[6] * 256 + octets[7] == v6.s3
            &&& octets[8] * 256 + octets[9] == v6.s4
            &&& octets[10] * 256 + octets[11] == v6.s5
            &&& octets[12] * 256 + octets[13] == v6.s6
            &&& octets[14] * 256 + octets[15] == v6.s7
        },
    }
}

/// The address and the port of an endpoint.
pub open spec fn host_and_port(endpoint: SocketAddr) -> (IpAddr, u16) {
    match endpoint {
        SocketAddr::V4(v4) => (IpAddr::V4(v4.ip), v4.port),
        SocketAddr::V6(v6) => (IpAddr::V6(v6.ip), v6.port),
    }
}

/// Whether a packet has a tuple on the wire: the addresses and ports of its headers.
pub open spec fn bears(packet: Seq<u8>, source: SocketAddr, destination: SocketAddr) -> bool {
    let at = transport_start(packet);
    let (from, from_port) = host_and_port(source);
    let (to, to_port) = host_and_port(destination);
    &&& packet[0] / 16 == 4 ==> spells(packet.subrange(12, 16), from) && spells(
        packet.subrange(16, 20),
        to,
    )
    &&& packet[0] / 16 == 6 ==> spells(packet.subrange(8, 24), from) && spells(
        packet.subrange(24, 40),
        to,
    )
    &&& packet[at] * 256 + packet[at + 1] == from_port
    &&& packet[at + 2] * 256 + packet[at + 3] == to_port
}

/// Whether the checksums of a packet are those that its receiver expects: its IPv4 header,
/// and its transport together with its addresses, the number of the transport and its
/// length, add up to a multiple of 65535 that is not zero. Of the two values that do so,
/// UDP never has 0, and the others never have 65535.
pub open spec fn sums_up(packet: Seq<u8>) -> bool {
    let at = transport_start(packet);
    let sum = checksum_start(packet);
    let addresses = if packet[0] / 16 == 4 {
        packet.subrange(12, 20)
    } else {
        packet.subrange(8, 40)
    };
    let total = octet_sum(addresses) + transport_number(packet) as int + (packet.len() - at)
        + octet_sum(packet.skip(at));
    &&& packet[0] / 16 == 4 ==> {
        &&& octet_sum(packet.take(at)) > 0
        &&& octet_sum(packet.take(at)) as int % 65535 == 0
        &&& packet[10] * 256 + packet[11] != 65535
    }
    &&& total > 0
    &&& total % 65535 == 0
    &&& transport_number(packet) == 17 ==> packet[sum] * 256 + packet[sum + 1] != 0
    &&& transport_number(packet) == 6 ==> packet[sum] * 256 + packet[sum + 1] != 65535
}

/// What is read of a packet stands in its headers: the addresses, the ports and the
/// number of the transport. It has a whole header of its version, lengths that are its
/// own, and is no fragment.
pub proof fn tuples_are_read_from_the_headers(packet: Seq<u8>)
    requires
        decoded(packet) is Ok,
    ensures
        ({
            let info = decoded(packet)->Ok_0;
            let at = transport_start(packet);
            let rest = packet.len() - at;
            &&& bears(packet, info.source, info.destination)
            &&& info.protocol == (if transport_number(packet) == 17 {
                Protocol::Udp
            } else {
                Protocol::Tcp
            })
            &&& transport_number(packet) == 17 || transport_number(packet) == 6
            &&& info.source matches SocketAddr::V6(v6) ==> v6.scope_id == 0 && v6.flowinfo == 0
            &&& info.destination matches SocketAddr::V6(v6) ==> v6.scope_id == 0 && v6.flowinfo
                == 0
            &&& packet[0] / 16 == 4 || packet[0] / 16 == 6
            &&& (packet[0] / 16 == 4) == (info.source is V4)
            &&& (packet[0] / 16 == 4) == (info.destination is V4)
            &&& packet[0] / 16 == 4 ==> {
                &&& packet[0] % 16 >= 5
                &&& packet[2] * 256 + packet[3] == packet.len()
                &&& packet[6] == 0 || packet[6] == 64
                &&& packet[7] == 0
            }
            &&& packet[0] / 16 == 6 ==> packet[4] * 256 + packet[5] == packet.len() - 40
            &&& transport_number(packet) == 17 ==> rest >= 8 && packet[at + 4] * 256 + packet[at
                + 5] == rest
            &&& transport_number(packet) == 6 ==> 20 <= packet[at + 12] / 16 * 4 <= rest
        }),
{
    lemma_layout_bounds(packet);
    let layout = layout_of(packet)->Ok_0;
    let info = info_of(packet, layout);
    if layout.v4 {
        let from = v4_at(packet, 12);
        let to = v4_at(packet, 16);
        assert(packet.subrange(12, 16) =~= seq![from.a, from.b, from.c, from.d]);
        assert(packet.subrange(16, 20) =~= seq![to.a, to.b, to.c, to.d]);
    } else {
        let from = packet.subrange(8, 24);
        let to = packet.subrange(24, 40);
        assert forall|k: int| 0 <= k < 16 implies #[trigger] from[k] == packet[8 + k] && to[k]
            == packet[24 + k] by {}
        assert(spells(from, IpAddr::V6(v6_at(packet, 8))));
        assert(to[0] == packet[24] && to[1] == packet[25] && to[2] == packet[26] && to[3]
            == packet[27] && to[4] == packet[28] && to[5] == packet[29] && to[6] == packet[30]
            && to[7] == packet[31] && to[8] == packet[32] && to[9] == packet[33] && to[10]
            == packet[34] && to[11] == packet[35] && to[12] == packet[36] && to[13] == packet[37]
            && to[14] == packet[38] && to[15] == packet[39]);
        assert(spells(to, IpAddr::V6(v6_at(packet, 24))));
    }
    assert(bears(packet, info.source, info.destination));
}

/// Whether IPv4 options can be cut from place to place up to the end of the header: an
/// option is one octet 1, or an octet other than 0, 1 and the source routes 131 and 137
/// with its own length behind it; from an octet 0 on there are only zeros.
pub open spec fn options_cut(packet: Seq<u8>, cuts: Seq<int>, header: int) -> bool {
    &&& cuts.len() > 0
    &&& forall|k: int|
        0 <= k < cuts.len() - 1 ==> cuts[k] < header && {
            ||| packet[#[trigger] cuts[k]] == 1 && cuts[k + 1] == cuts[k] + 1
            ||| {
                &&& packet[cuts[k]] != 0 && packet[cuts[k]] != 1
                &&& packet[cuts[k]] != 131 && packet[cuts[k]] != 137
                &&& cuts[k] + 1 < header && packet[cuts[k] + 1] >= 2
                &&& cuts[k + 1] == cuts[k] + packet[cuts[k] + 1] && cuts[k + 1] <= header
            }
        }
    &&& cuts.last() <= header
    &&& forall|i: int| cuts.last() <= i < header ==> packet[i] == 0
}

proof fn lemma_cut_options(packet: Seq<u8>, at: int, header: int) -> (cuts: Seq<int>)
    requires
        at <= header,
        options_fault(packet, at, header) is None,
    ensures
        options_cut(packet, cuts, header),
        cuts[0] == at,
    decreases header - at,
{
    if at >= header || packet[at] == 0 {
        assert(forall|i: int| at < i < header ==> packet[i] == 0);
        seq![at]
    } else {
        let next = if packet[at] == 1 {
            at + 1
        } else {
            at + packet[at + 1]
        };
        let rest = lemma_cut_options(packet, next, header);
        let cuts = seq![at] + rest;
        assert forall|k: int| 0 <= k < cuts.len() - 1 implies cuts[k] < header && {
            ||| packet[#[trigger] cuts[k]] == 1 && cuts[k + 1] == cuts[k] + 1
            ||| {
                &&& packet[cuts[k]] != 0 && packet[cuts[k]] != 1
                &&& packet[cuts[k]] != 131 && packet[cuts[k]] != 137
                &&& cuts[k] + 1 < header && packet[cuts[k] + 1] >= 2
                &&& cuts[k + 1] == cuts[k] + packet[cuts[k] + 1] && cuts[k + 1] <= header
            }
        } by {
            if k > 0 {
                assert(cuts[k] == rest[k - 1]);
                assert(cuts[k + 1] == rest[k]);
            }
        }
        assert(cuts.last() == rest.last());
        cuts
    }
}

proof fn lemma_cut_options_are_valid(packet: Seq<u8>, cuts: Seq<int>, header: int)
    requires
        options_cut(packet, cuts, header),
    ensures
        options_fault(packet, cuts[0], header) is None,
    decreases cuts.len(),
{
    if cuts.len() == 1 {
        if cuts[0] < header {
            assert(packet[cuts[0]] == 0);
        }
    } else {
        let rest = cuts.drop_first();
        assert(packet[cuts[0]] == 1 || packet[cuts[0]] != 1);
        assert forall|k: int| 0 <= k < rest.len() - 1 implies rest[k] < header && {
            ||| packet[#[trigger] rest[k]] == 1 && rest[k + 1] == rest[k] + 1
            ||| {
                &&& packet[rest[k]] != 0 && packet[rest[k]] != 1
                &&& packet[rest[k]] != 131 && packet[rest[k]] != 137
                &&& rest[k] + 1 < header && packet[rest[k] + 1] >= 2
                &&& rest[k + 1] == rest[k] + packet[rest[k] + 1] && rest[k + 1] <= header
            }
        } by {
            assert(cuts[k + 1] == rest[k]);
            assert(cuts[k + 2] == rest[k + 1]);
        }
        assert(cuts.last() == rest.last());
        lemma_cut_options_are_valid(packet, rest, header);
        assert(rest[0] == cuts[1]);
    }
}

/// A packet is read exactly where it is a whole, unfragmented IPv4 or IPv6 packet with a
/// UDP or TCP transport right behind its header, and every length in it is right. An IPv4
/// header may have options, but no source route.
pub proof fn whole_packets_are_read(packet: Seq<u8>)
    ensures
        decoded(packet) is Ok <==> {
            let at = transport_start(packet);
            let rest = packet.len() - at;
            let udp = rest >= 8 && packet[at + 4] * 256 + packet[at + 5] == rest;
            let tcp = rest >= 20 && packet[at + 12] / 16 >= 5 && packet[at + 12] / 16 * 4 <= rest;
            &&& packet.len() > 0
            &&& {
                ||| {
                    &&& packet[0] / 16 == 4
                    &&& packet[0] % 16 >= 5
                    &&& packet.len() >= at
                    &&& exists|cuts: Seq<int>| #[trigger]
                        options_cut(packet, cuts, at) && cuts[0] == 20
                    &&& packet[2] * 256 + packet[3] == packet.len()
                    &&& packet[6] == 0 || packet[6] == 64
                    &&& packet[7] == 0
                    &&& packet[9] == 17 && udp || packet[9] == 6 && tcp
                }
                ||| {
                    &&& packet[0] / 16 == 6
                    &&& packet.len() >= 40
                    &&& packet[4] * 256 + packet[5] + 40 == packet.len()
                    &&& packet[6] == 17 && udp || packet[6] == 6 && tcp
                }
            }
        },
{
    if packet.len() > 0 && packet[0] / 16 == 4 && packet[0] % 16 >= 5 {
        let at = transport_start(packet);
        if options_fault(packet, 20, at) is None {
            let cuts = lemma_cut_options(packet, 20, at);
            assert(options_cut(packet, cuts, at) && cuts[0] == 20);
        }
        if exists|cuts: Seq<int>| #[trigger] options_cut(packet, cuts, at) && cuts[0] == 20 {
            let cuts = choose|cuts: Seq<int>| #[trigger]
                options_cut(packet, cuts, at) && cuts[0] == 20;
            lemma_cut_options_are_valid(packet, cuts, at);
        }
    }
}

proof fn lemma_folded_multiple(total: nat)
    ensures
        folded(total) == 0xffff <==> total > 0 && total % 65535 == 0,
        folded(total) == 0 <==> total == 0,
        folded(total) <= 0xffff,
{
}

/// Whether a rewrite has to change the octet at a place: one of an address, a port or a
/// checksum.
pub open spec fn in_tuple_or_checksum(packet: Seq<u8>, i: int) -> bool {
    let at = transport_start(packet);
    let sum = checksum_start(packet);
    ||| packet[0] / 16 == 4 && (10 <= i < 12 || 12 <= i < 20)
    ||| packet[0] / 16 == 6 && 8 <= i < 40
    ||| at <= i < at + 4
    ||| sum <= i < sum + 2
}

/// A rewritten packet bears its new tuple and the checksums that its receiver expects, and
/// has every other octet of the packet that it was made of.
pub proof fn rewritten_packets_bear_their_tuple(
    packet: Seq<u8>,
    source: SocketAddr,
    destination: SocketAddr,
)
    requires
        rewrite_outcome(packet, source, destination) is Ok,
    ensures
        ({
            let result = rewrite_outcome(packet, source, destination)->Ok_0;
            &&& result.len() == packet.len()
            &&& bears(result, source, destination)
            &&& sums_up(result)
            &&& forall|i: int|
                0 <= i < packet.len() && !in_tuple_or_checksum(packet, i) ==> #[trigger] result[i]
                    == packet[i]
        }),
{
    let layout = layout_of(packet)->Ok_0;
    let result = rewritten(packet, layout, source, destination);
    lemma_layout_bounds(packet);
    rewrite_preserves_other_bytes(packet, layout, source, destination);
    rewrite_then_decode(packet, layout, source, destination);
    tuples_are_read_from_the_headers(result);
    rewritten_checksums_are_valid(packet, layout, source, destination);
    assert(result[0] == packet[0]);
    let at = layout.offset as int;
    let addresses = if layout.v4 {
        result.subrange(12, 20)
    } else {
        result.subrange(8, 40)
    };
    checksums_weigh_octets_by_place(result.take(at));
    checksums_weigh_octets_by_place(result.skip(at));
    checksums_weigh_octets_by_place(addresses);
    lemma_folded_multiple(word_sum(result.take(at)));
    lemma_folded_multiple(transport_sum(result, layout));
    lemma_checksum_values(packet, layout, source, destination);
    if layout.v4 {
        assert(result[9] == packet[9]);
    } else {
        assert(result[6] == packet[6]);
    }
}

/// A header or TCP checksum is never 65535: something that it covers is not zero.
proof fn lemma_checksum_values(
    packet: Seq<u8>,
    layout: PacketLayout,
    source: SocketAddr,
    destination: SocketAddr,
)
    requires
        layout_of(packet) == Ok::<PacketLayout, PacketError>(layout),
        (source is V4) == layout.v4,
        (destination is V4) == layout.v4,
    ensures
        ({
            let result = rewritten(packet, layout, source, destination);
            let at = layout.offset + layout.protocol.checksum_at();
            &&& layout.v4 ==> word(result[10], result[11]) != 0xffff
            &&& layout.protocol == Protocol::Tcp ==> word(result[at], result[at + 1]) != 0xffff
        }),
{
    lemma_layout_bounds(packet);
    let offset = layout.offset as int;
    let tupled = retupled(packet, layout, source, destination);
    let headed = header_summed(tupled, layout);
    let result = transport_summed(headed, layout);
    let at = offset + layout.protocol.checksum_at();
    let cleared = put(headed, at, big_endian(0));
    lemma_folded_multiple(transport_sum(cleared, layout));
    assert(word(result[at], result[at + 1]) == checksum_value(
        layout.protocol,
        transport_sum(cleared, layout),
    ));
    if layout.v4 {
        let blank = put(tupled, 10, big_endian(0)).take(offset);
        assert(blank[0] == packet[0]);
        assert(word_sum(blank) == word(blank[0], blank[1]) as nat + word_sum(blank.skip(2)));
        lemma_folded_multiple(word_sum(blank));
        assert(word(result[10], result[11]) == 0xffff - folded(word_sum(blank)));
    }
}

/// A packet is rewritten exactly where it can be read, neither endpoint names an
/// interface and both are of the version of the packet; a packet that cannot be read is
/// refused for what is wrong with it, whatever the endpoints.
pub proof fn rewrites_need_a_readable_packet_of_their_family(
    packet: Seq<u8>,
    source: SocketAddr,
    destination: SocketAddr,
)
    ensures
        ({
            let outcome = rewrite_outcome(packet, source, destination);
            let scoped = (source matches SocketAddr::V6(v6) && v6.scope_id != 0) || (destination
                matches SocketAddr::V6(v6) && v6.scope_id != 0);
            let four = packet[0] / 16 == 4;
            &&& decoded(packet) matches Err(error) ==> outcome == Err::<Seq<u8>, PacketError>(error)
            &&& decoded(packet) is Ok && scoped ==> outcome == Err::<Seq<u8>, PacketError>(
                PacketError::UnsupportedScope,
            )
            &&& decoded(packet) is Ok && !scoped && ((source is V4) != four || (destination is V4)
                != four) ==> outcome == Err::<Seq<u8>, PacketError>(PacketError::FamilyMismatch)
            &&& decoded(packet) is Ok && !scoped && (source is V4) == four && (destination is V4)
                == four ==> outcome is Ok
        }),
{
}

/// Which fault of a packet is told: first that it is cut short of its header or has
/// another version; then a length that does not agree; then, over IPv4, a fragment and
/// another protocol, or, over IPv6, another next header; and in the end a transport
/// header that does not agree with what is left.
pub proof fn faults_are_told_in_order(packet: Seq<u8>)
    ensures
        ({
            let told = decoded(packet);
            let version = packet[0] / 16;
            let fault = |error: PacketError| told == Err::<PacketInfo, PacketError>(error);
            &&& packet.len() == 0 ==> fault(PacketError::Truncated)
            &&& packet.len() > 0 && version != 4 && version != 6 ==> fault(
                PacketError::UnsupportedVersion,
            )
            &&& packet.len() > 0 && version == 4 ==> {
                let header = packet[0] % 16 * 4;
                let agrees = packet[2] * 256 + packet[3] == packet.len();
                let whole = (packet[6] == 0 || packet[6] == 64) && packet[7] == 0;
                let known = packet[9] == 6 || packet[9] == 17;
                &&& packet.len() < 20 ==> fault(PacketError::Truncated)
                &&& packet.len() >= 20 && header < 20 ==> fault(PacketError::InvalidLength)
                &&& 20 <= header && 20 <= packet.len() && packet.len() < header ==> fault(
                    PacketError::Truncated,
                )
                &&& header == 20 && packet.len() >= 20 ==> {
                    &&& !agrees ==> fault(PacketError::InvalidLength)
                    &&& agrees && !whole ==> fault(PacketError::Fragmented)
                    &&& agrees && whole && !known ==> fault(PacketError::UnsupportedProtocol)
                    &&& agrees && whole && known && told is Err ==> fault(
                        PacketError::InvalidLength,
                    )
                }
                &&& fault(PacketError::UnsupportedExtension) ==> exists|i: int|
                    20 <= i < header && (#[trigger] packet[i] == 131 || packet[i] == 137)
            }
            &&& packet.len() > 0 && version == 6 ==> {
                let agrees = packet[4] * 256 + packet[5] + 40 == packet.len();
                let known = packet[6] == 6 || packet[6] == 17;
                &&& packet.len() < 40 ==> fault(PacketError::Truncated)
                &&& packet.len() >= 40 && !agrees ==> fault(PacketError::InvalidLength)
                &&& packet.len() >= 40 && agrees && !known ==> fault(
                    PacketError::UnsupportedExtension,
                )
                &&& packet.len() >= 40 && agrees && known && told is Err ==> fault(
                    PacketError::InvalidLength,
                )
            }
        }),
{
    if packet.len() >= 20 && packet[0] / 16 == 4 {
        lemma_refused_options(packet, 20, packet[0] % 16 * 4);
    }
}

proof fn lemma_refused_options(packet: Seq<u8>, at: int, header: int)
    ensures
        options_fault(packet, at, header) == Some(PacketError::UnsupportedExtension) ==> exists|i:
            int|
            at <= i < header && (#[trigger] packet[i] == 131 || packet[i] == 137),
    decreases header - at,
{
    if at < header && packet[at] != 0 {
        if packet[at] == 1 {
            lemma_refused_options(packet, at + 1, header);
        } else if packet[at] != 131 && packet[at] != 137 && packet[at + 1] >= 2 && at + packet[at
            + 1] <= header {
            lemma_refused_options(packet, at + packet[at + 1], header);
        } else {
            assert(packet[at] == packet[at]);
        }
    }
}

/// A transport header that is checked by itself is told as cut short where the packet ends
/// before it, and is accepted where UDP has its eight octets and tells their number, or
/// TCP has a header from twenty octets up to what is left.
pub proof fn transport_headers_agree_with_their_length(
    packet: Seq<u8>,
    offset: usize,
    length: usize,
    protocol: Protocol,
)
    requires
        offset + length <= usize::MAX,
    ensures
        ({
            let told = transport_outcome(packet, offset, length, protocol);
            let agrees = match protocol {
                Protocol::Udp => length >= 8 && packet[offset + 4] * 256 + packet[offset + 5]
                    == length,
                Protocol::Tcp => length >= 20 && packet[offset + 12] / 16 >= 5 && packet[offset + 12]
                    / 16 * 4 <= length,
            };
            &&& offset + length > packet.len() ==> told == Err::<(), PacketError>(
                PacketError::Truncated,
            )
            &&& offset + length <= packet.len() && agrees ==> told is Ok
            &&& offset + length <= packet.len() && !agrees ==> told == Err::<(), PacketError>(
                PacketError::InvalidLength,
            )
        }),
{
}

} // verus!
