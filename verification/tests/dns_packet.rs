//! Decoding and rewriting packets.

use vapour_protection::dns_packet::{
    decode, rewrite, validate_transport, PacketError, Protocol,
};
use vapour_protection::net::{IpAddr, Ipv4Addr, Ipv6Addr, SocketAddr, SocketAddrV6};

fn scoped_address(ip: Ipv6Addr, port: u16, flowinfo: u32, scope_id: u32) -> SocketAddrV6 {
    SocketAddrV6 {
        ip,
        port,
        flowinfo,
        scope_id,
    }
}

fn octets(address: Ipv6Addr) -> [u8; 16] {
    let mut octets = [0u8; 16];
    for (index, segment) in address.to_segments().iter().enumerate() {
        octets[2 * index..2 * index + 2].copy_from_slice(&segment.to_be_bytes());
    }
    octets
}

fn v4_source() -> SocketAddr {
    SocketAddr::new(IpAddr::V4(Ipv4Addr::new(192, 0, 2, 10)), 53000)
}

fn v4_destination() -> SocketAddr {
    SocketAddr::new(IpAddr::V4(Ipv4Addr::new(198, 51, 100, 53)), 53)
}

fn v4_rewritten_source() -> SocketAddr {
    SocketAddr::new(IpAddr::V4(Ipv4Addr::new(192, 0, 2, 22)), 43001)
}

fn v4_rewritten_destination() -> SocketAddr {
    SocketAddr::new(IpAddr::V4(Ipv4Addr::new(198, 51, 100, 99)), 5353)
}

fn v6_source() -> SocketAddr {
    SocketAddr::new(
    IpAddr::V6(Ipv6Addr::new(0x2001, 0xdb8, 0, 1, 0, 0, 0, 10)),
    53000,
)
}

fn v6_destination() -> SocketAddr {
    SocketAddr::new(
    IpAddr::V6(Ipv6Addr::new(0x2001, 0xdb8, 0, 2, 0, 0, 0, 53)),
    53,
)
}

fn v6_rewritten_source() -> SocketAddr {
    SocketAddr::new(
    IpAddr::V6(Ipv6Addr::new(0x2001, 0xdb8, 0, 1, 0, 0, 0, 22)),
    43001,
)
}

fn v6_rewritten_destination() -> SocketAddr {
    SocketAddr::new(
    IpAddr::V6(Ipv6Addr::new(0x2001, 0xdb8, 0, 3, 0, 0, 0, 99)),
    5353,
)
}

#[test]
fn decodes_and_rewrites_all_four_family_protocol_combinations() {
    for (packet, source, destination, protocol, payload_offset) in [
        (
            valid_ipv4_udp(),
            v4_source(),
            v4_destination(),
            Protocol::Udp,
            32,
        ),
        (
            valid_ipv4_tcp(),
            v4_source(),
            v4_destination(),
            Protocol::Tcp,
            48,
        ),
        (
            valid_ipv6_udp(),
            v6_source(),
            v6_destination(),
            Protocol::Udp,
            48,
        ),
        (
            valid_ipv6_tcp(),
            v6_source(),
            v6_destination(),
            Protocol::Tcp,
            64,
        ),
    ] {
        let decoded = decode(&packet).expect("valid DNS transport packet");
        assert_eq!(decoded.source, source);
        assert_eq!(decoded.destination, destination);
        assert_eq!(decoded.protocol, protocol);

        let (rewritten_source, rewritten_destination) = if source.ip().is_ipv4() {
            (v4_rewritten_source(), v4_rewritten_destination())
        } else {
            (v6_rewritten_source(), v6_rewritten_destination())
        };
        let rewritten = rewrite(&packet, rewritten_source, rewritten_destination)
            .expect("same-family tuple rewrite");
        let rewritten_info = decode(&rewritten).expect("rewritten packet remains valid");
        assert_eq!(rewritten_info.source, rewritten_source);
        assert_eq!(rewritten_info.destination, rewritten_destination);
        assert_eq!(rewritten_info.protocol, protocol);
        assert_eq!(&packet[payload_offset..], &rewritten[payload_offset..]);
        assert_non_tuple_bytes_preserved(&packet, &rewritten, protocol);
        assert_checksums_independently(&rewritten);

        let restored = rewrite(&rewritten, source, destination).expect("inverse rewrite");
        let restored_info = decode(&restored).expect("inverse packet remains valid");
        assert_eq!(restored_info.source, source);
        assert_eq!(restored_info.destination, destination);
        assert_eq!(restored_info.protocol, protocol);
        assert_eq!(&packet[payload_offset..], &restored[payload_offset..]);
        assert_checksums_independently(&restored);
    }
}

#[test]
fn rewritten_packets_have_valid_checksums_independent_of_codec_helpers() {
    for packet in [
        valid_ipv4_udp(),
        valid_ipv4_tcp(),
        valid_ipv6_udp(),
        valid_ipv6_tcp(),
    ] {
        let (source, destination) = if packet[0] >> 4 == 4 {
            (v4_rewritten_source(), v4_rewritten_destination())
        } else {
            (v6_rewritten_source(), v6_rewritten_destination())
        };
        let rewritten = rewrite(&packet, source, destination).unwrap();
        assert_checksums_independently(&rewritten);
    }
}

#[test]
fn zero_udp_checksum_is_materialized_as_a_real_checksum() {
    let mut packet = valid_ipv4_udp();
    packet[30..32].fill(0);
    let rewritten = rewrite(&packet, v4_source(), v4_destination()).unwrap();
    assert_ne!(&rewritten[30..32], &[0, 0]);
    assert_checksums_independently(&rewritten);
}

#[test]
fn zero_calculated_udp_checksum_is_encoded_as_ffff() {
    let mut packet = valid_ipv4_udp();
    packet.truncate(34);
    packet[2..4].copy_from_slice(&34u16.to_be_bytes());
    packet[28..30].copy_from_slice(&10u16.to_be_bytes());
    packet[32..34].copy_from_slice(&0x4429u16.to_be_bytes());

    let rewritten = rewrite(&packet, v4_source(), v4_destination()).unwrap();
    assert_eq!(&rewritten[30..32], &[0xff, 0xff]);
    assert_checksums_independently(&rewritten);
}

#[test]
fn truncating_any_valid_packet_prefix_is_rejected() {
    for packet in [
        valid_ipv4_udp(),
        valid_ipv4_tcp(),
        valid_ipv6_udp(),
        valid_ipv6_tcp(),
    ] {
        for length in 0..packet.len() {
            assert!(
                decode(&packet[..length]).is_err(),
                "accepted prefix of {length}"
            );
        }
    }
}

#[test]
fn bytes_after_the_declared_ip_length_are_rejected() {
    for mut packet in [
        valid_ipv4_udp(),
        valid_ipv4_tcp(),
        valid_ipv6_udp(),
        valid_ipv6_tcp(),
    ] {
        packet.push(0);
        assert!(decode(&packet).is_err());
    }
}

#[test]
fn malformed_ip_and_transport_lengths_are_rejected() {
    let mut ipv4_total_short = valid_ipv4_udp();
    ipv4_total_short[2..4].copy_from_slice(&20u16.to_be_bytes());
    assert!(decode(&ipv4_total_short).is_err());

    let mut ipv4_total_long = valid_ipv4_udp();
    let ipv4_total_long_len = ipv4_total_long.len() as u16 + 1;
    ipv4_total_long[2..4].copy_from_slice(&ipv4_total_long_len.to_be_bytes());
    assert!(decode(&ipv4_total_long).is_err());

    let mut udp_short = valid_ipv4_udp();
    udp_short[28..30].copy_from_slice(&7u16.to_be_bytes());
    assert!(decode(&udp_short).is_err());

    let mut udp_mismatch = valid_ipv6_udp();
    udp_mismatch[44..46].copy_from_slice(&8u16.to_be_bytes());
    assert!(decode(&udp_mismatch).is_err());

    let mut ipv6_payload_short = valid_ipv6_tcp();
    ipv6_payload_short[4..6].copy_from_slice(&1u16.to_be_bytes());
    assert!(decode(&ipv6_payload_short).is_err());

    let mut ipv6_payload_long = valid_ipv6_tcp();
    let ipv6_payload_long_len = (ipv6_payload_long.len() - 40 + 1) as u16;
    ipv6_payload_long[4..6].copy_from_slice(&ipv6_payload_long_len.to_be_bytes());
    assert!(decode(&ipv6_payload_long).is_err());
}

#[test]
fn malformed_tcp_offsets_are_rejected() {
    let mut short_offset = valid_ipv4_tcp();
    short_offset[36] = 0x40;
    assert!(decode(&short_offset).is_err());

    let mut beyond_segment = valid_ipv6_tcp();
    beyond_segment[52] = 0xf0;
    assert!(decode(&beyond_segment).is_err());
}

#[test]
fn fragments_reserved_flags_and_extensions_are_rejected() {
    let mut reserved = valid_ipv4_udp();
    reserved[6..8].copy_from_slice(&0x8000u16.to_be_bytes());
    assert!(decode(&reserved).is_err());

    let mut more_fragments = valid_ipv4_udp();
    more_fragments[6..8].copy_from_slice(&0x2000u16.to_be_bytes());
    assert!(decode(&more_fragments).is_err());

    let mut offset = valid_ipv4_udp();
    offset[6..8].copy_from_slice(&1u16.to_be_bytes());
    assert!(decode(&offset).is_err());

    let mut ipv6_fragment = valid_ipv6_udp();
    ipv6_fragment[6] = 44;
    assert!(decode(&ipv6_fragment).is_err());

    let mut ipv6_extension = valid_ipv6_udp();
    ipv6_extension[6] = 0;
    assert!(decode(&ipv6_extension).is_err());
}

#[test]
fn ipv4_options_are_bounded_and_source_routes_are_rejected() {
    let mut malformed_length = valid_ipv4_udp();
    malformed_length[20..24].copy_from_slice(&[2, 5, 0, 0]);
    assert!(decode(&malformed_length).is_err());

    let mut malformed_trailing_eol = valid_ipv4_udp();
    malformed_trailing_eol[20..24].copy_from_slice(&[0, 0, 1, 0]);
    assert!(decode(&malformed_trailing_eol).is_err());

    for source_route_kind in [131, 137] {
        let mut source_route = valid_ipv4_udp();
        source_route[20..24].copy_from_slice(&[source_route_kind, 3, 0, 0]);
        assert!(decode(&source_route).is_err());
    }
}

#[test]
fn unsupported_versions_protocols_and_families_are_rejected() {
    let mut version = valid_ipv4_udp();
    version[0] = 0x55;
    assert!(decode(&version).is_err());

    let mut protocol = valid_ipv4_udp();
    protocol[9] = 1;
    assert!(decode(&protocol).is_err());

    assert!(rewrite(
        &valid_ipv4_udp(),
        v6_rewritten_source(),
        v6_rewritten_destination()
    )
    .is_err());
    assert!(rewrite(
        &valid_ipv6_udp(),
        v4_rewritten_source(),
        v4_rewritten_destination()
    )
    .is_err());
    assert!(rewrite(
        &valid_ipv4_udp(),
        v4_rewritten_source(),
        v6_rewritten_destination()
    )
    .is_err());

    let scoped_source = SocketAddr::V6(scoped_address(
        match v6_rewritten_source().ip() {
            IpAddr::V6(address) => address,
            IpAddr::V4(_) => unreachable!(),
        },
        v6_rewritten_source().port(),
        0,
        1,
    ));
    assert!(rewrite(&valid_ipv6_udp(), scoped_source, v6_rewritten_destination()).is_err());
}

fn valid_ipv4_udp() -> Vec<u8> {
    let payload = b"dns-v4-udp";
    let header_len = 24;
    let transport_len = 8 + payload.len();
    let mut packet = vec![0; header_len + transport_len];
    packet[0] = 0x46;
    let total_len = packet.len() as u16;
    packet[2..4].copy_from_slice(&total_len.to_be_bytes());
    packet[6..8].copy_from_slice(&0x4000u16.to_be_bytes());
    packet[8] = 64;
    packet[9] = 17;
    packet[12..16].copy_from_slice(&[192, 0, 2, 10]);
    packet[16..20].copy_from_slice(&[198, 51, 100, 53]);
    packet[20..24].copy_from_slice(&[1, 1, 0, 0]);
    packet[24..26].copy_from_slice(&53000u16.to_be_bytes());
    packet[26..28].copy_from_slice(&53u16.to_be_bytes());
    packet[28..30].copy_from_slice(&(transport_len as u16).to_be_bytes());
    packet[32..].copy_from_slice(payload);
    packet
}

fn valid_ipv4_tcp() -> Vec<u8> {
    let payload = b"dns-v4-tcp";
    let header_len = 24;
    let tcp_header_len = 24;
    let mut packet = vec![0; header_len + tcp_header_len + payload.len()];
    packet[0] = 0x46;
    let total_len = packet.len() as u16;
    packet[2..4].copy_from_slice(&total_len.to_be_bytes());
    packet[6..8].copy_from_slice(&0x4000u16.to_be_bytes());
    packet[8] = 64;
    packet[9] = 6;
    packet[12..16].copy_from_slice(&[192, 0, 2, 10]);
    packet[16..20].copy_from_slice(&[198, 51, 100, 53]);
    packet[20..24].copy_from_slice(&[1, 1, 0, 0]);
    packet[24..26].copy_from_slice(&53000u16.to_be_bytes());
    packet[26..28].copy_from_slice(&53u16.to_be_bytes());
    packet[28..32].copy_from_slice(&0x11223344u32.to_be_bytes());
    packet[32..36].copy_from_slice(&0x55667788u32.to_be_bytes());
    packet[36] = 0x60;
    packet[37] = 0x18;
    packet[38..40].copy_from_slice(&4096u16.to_be_bytes());
    packet[44..48].copy_from_slice(&[2, 4, 5, 180]);
    packet[48..].copy_from_slice(payload);
    packet
}

fn valid_ipv6_udp() -> Vec<u8> {
    let payload = b"dns-v6-udp";
    let transport_len = 8 + payload.len();
    let mut packet = vec![0; 40 + transport_len];
    packet[0] = 0x60;
    packet[4..6].copy_from_slice(&(transport_len as u16).to_be_bytes());
    packet[6] = 17;
    packet[8..24].copy_from_slice(&match v6_source().ip() {
        IpAddr::V6(address) => octets(address),
        IpAddr::V4(_) => unreachable!(),
    });
    packet[24..40].copy_from_slice(&match v6_destination().ip() {
        IpAddr::V6(address) => octets(address),
        IpAddr::V4(_) => unreachable!(),
    });
    packet[40..42].copy_from_slice(&53000u16.to_be_bytes());
    packet[42..44].copy_from_slice(&53u16.to_be_bytes());
    packet[44..46].copy_from_slice(&(transport_len as u16).to_be_bytes());
    packet[48..].copy_from_slice(payload);
    packet
}

fn valid_ipv6_tcp() -> Vec<u8> {
    let payload = b"dns-v6-tcp";
    let tcp_header_len = 24;
    let payload_len = tcp_header_len + payload.len();
    let mut packet = vec![0; 40 + payload_len];
    packet[0] = 0x60;
    packet[4..6].copy_from_slice(&(payload_len as u16).to_be_bytes());
    packet[6] = 6;
    packet[8..24].copy_from_slice(&match v6_source().ip() {
        IpAddr::V6(address) => octets(address),
        IpAddr::V4(_) => unreachable!(),
    });
    packet[24..40].copy_from_slice(&match v6_destination().ip() {
        IpAddr::V6(address) => octets(address),
        IpAddr::V4(_) => unreachable!(),
    });
    packet[40..42].copy_from_slice(&53000u16.to_be_bytes());
    packet[42..44].copy_from_slice(&53u16.to_be_bytes());
    packet[44..48].copy_from_slice(&0x11223344u32.to_be_bytes());
    packet[48..52].copy_from_slice(&0x55667788u32.to_be_bytes());
    packet[52] = 0x60;
    packet[53] = 0x18;
    packet[54..56].copy_from_slice(&4096u16.to_be_bytes());
    packet[60..64].copy_from_slice(&[2, 4, 5, 180]);
    packet[64..].copy_from_slice(payload);
    packet
}

fn assert_checksums_independently(packet: &[u8]) {
    let version = packet[0] >> 4;
    let (source, destination, protocol, transport_start, total_len) = match version {
        4 => {
            let header_len = (packet[0] as usize & 0x0f) * 4;
            let source = &packet[12..16];
            let destination = &packet[16..20];
            (
                source.to_vec(),
                destination.to_vec(),
                packet[9],
                header_len,
                u16::from_be_bytes([packet[2], packet[3]]) as usize,
            )
        }
        6 => (
            packet[8..24].to_vec(),
            packet[24..40].to_vec(),
            packet[6],
            40,
            40 + u16::from_be_bytes([packet[4], packet[5]]) as usize,
        ),
        _ => panic!("unsupported fixture version"),
    };
    if version == 4 {
        assert_eq!(ones_complement_sum(&packet[..transport_start]), 0xffff);
    }
    let transport = &packet[transport_start..total_len];
    let mut pseudo = Vec::new();
    pseudo.extend(source);
    pseudo.extend(destination);
    if version == 4 {
        pseudo.extend([0, protocol]);
        pseudo.extend((transport.len() as u16).to_be_bytes());
    } else {
        pseudo.extend((transport.len() as u32).to_be_bytes());
        pseudo.extend([0, 0, 0, protocol]);
    }
    pseudo.extend(transport);
    assert_eq!(ones_complement_sum(&pseudo), 0xffff);
}

fn assert_non_tuple_bytes_preserved(before: &[u8], after: &[u8], protocol: Protocol) {
    let version = before[0] >> 4;
    let transport_start = if version == 4 {
        usize::from(before[0] & 0x0f) * 4
    } else {
        40
    };
    if version == 4 {
        assert_eq!(&before[20..transport_start], &after[20..transport_start]);
    }
    let checksum_offset = match protocol {
        Protocol::Udp => 6,
        Protocol::Tcp => 16,
    };
    assert_eq!(
        &before[transport_start + 4..transport_start + checksum_offset],
        &after[transport_start + 4..transport_start + checksum_offset]
    );
    assert_eq!(
        &before[transport_start + checksum_offset + 2..],
        &after[transport_start + checksum_offset + 2..]
    );
}

fn ones_complement_sum(bytes: &[u8]) -> u16 {
    let mut sum = 0u32;
    for pair in bytes.chunks(2) {
        let value = u16::from_be_bytes([pair[0], *pair.get(1).unwrap_or(&0)]);
        sum += u32::from(value);
        sum = (sum & 0xffff) + (sum >> 16);
    }
    while sum >> 16 != 0 {
        sum = (sum & 0xffff) + (sum >> 16);
    }
    sum as u16
}

#[test]
fn each_rejection_names_its_reason() {
    let udp = valid_ipv4_udp();
    assert_eq!(decode(&[]), Err(PacketError::Truncated));

    let mut version = udp.clone();
    version[0] = 0x56;
    assert_eq!(decode(&version), Err(PacketError::UnsupportedVersion));

    let mut total = udp.clone();
    total[2..4].copy_from_slice(&10u16.to_be_bytes());
    assert_eq!(decode(&total), Err(PacketError::InvalidLength));

    let mut fragment = udp.clone();
    fragment[6..8].copy_from_slice(&0x2000u16.to_be_bytes());
    assert_eq!(decode(&fragment), Err(PacketError::Fragmented));

    let mut protocol = udp.clone();
    protocol[9] = 1;
    assert_eq!(decode(&protocol), Err(PacketError::UnsupportedProtocol));

    let mut extension = valid_ipv6_udp();
    extension[6] = 0;
    assert_eq!(decode(&extension), Err(PacketError::UnsupportedExtension));

    assert_eq!(
        rewrite(&udp, v6_source(), v6_destination()),
        Err(PacketError::FamilyMismatch)
    );
    let scoped = match v6_source().ip() {
        IpAddr::V6(address) => SocketAddr::V6(scoped_address(address, 53000, 0, 4)),
        IpAddr::V4(_) => unreachable!(),
    };
    assert_eq!(
        rewrite(&valid_ipv6_udp(), scoped, v6_destination()),
        Err(PacketError::UnsupportedScope)
    );
}

#[test]
fn rewriting_back_gives_the_same_packet() {
    for packet in [
        valid_ipv4_udp(),
        valid_ipv4_tcp(),
        valid_ipv6_udp(),
        valid_ipv6_tcp(),
    ] {
        let info = decode(&packet).unwrap();
        let (source, destination) = if packet[0] >> 4 == 4 {
            (v4_rewritten_source(), v4_rewritten_destination())
        } else {
            (v6_rewritten_source(), v6_rewritten_destination())
        };
        let settled = rewrite(&packet, info.source, info.destination).unwrap();
        let away = rewrite(&settled, source, destination).unwrap();
        assert_ne!(away, settled);
        assert_eq!(
            rewrite(&away, info.source, info.destination).unwrap(),
            settled
        );
    }
}

#[test]
fn protocols_have_their_numbers() {
    assert_eq!(Protocol::Udp.number(), 17);
    assert_eq!(Protocol::Tcp.number(), 6);
}

#[test]
fn transport_headers_agree_with_the_length_of_their_part() {
    let mut packet = vec![0u8; 40];
    packet[4..6].copy_from_slice(&12u16.to_be_bytes());
    packet[12] = 0x50;
    let udp = |offset, length| validate_transport(&packet, offset, length, Protocol::Udp);
    let tcp = |offset, length| validate_transport(&packet, offset, length, Protocol::Tcp);
    assert_eq!(udp(0, 12), Ok(()));
    assert_eq!(udp(0, 13), Err(PacketError::InvalidLength));
    assert_eq!(udp(0, 7), Err(PacketError::InvalidLength));
    assert_eq!(tcp(0, 20), Ok(()));
    assert_eq!(tcp(0, 40), Ok(()));
    assert_eq!(tcp(0, 19), Err(PacketError::InvalidLength));
    assert_eq!(tcp(0, 41), Err(PacketError::Truncated));
    assert_eq!(udp(40, 1), Err(PacketError::Truncated));
    assert_eq!(udp(usize::MAX, 1), Err(PacketError::InvalidLength));
}
