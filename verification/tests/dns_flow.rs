//! Reflecting requests to the proxy and its replies back.

use vapour_protection::dns_flow::{FlowError, FlowRegistry, Interface};
use vapour_protection::dns_packet::{decode, rewrite, Protocol};
use vapour_protection::net::{IpAddr, Ipv4Addr, Ipv6Addr, SocketAddr};

fn octets(address: Ipv6Addr) -> [u8; 16] {
    let mut octets = [0u8; 16];
    for (index, segment) in address.to_segments().iter().enumerate() {
        octets[2 * index..2 * index + 2].copy_from_slice(&segment.to_be_bytes());
    }
    octets
}

fn iface_a() -> Interface {
    Interface {
    index: 7,
    sub_index: 0,
}
}

fn iface_b() -> Interface {
    Interface {
    index: 8,
    sub_index: 0,
}
}

fn v4_client() -> SocketAddr {
    SocketAddr::new(IpAddr::V4(Ipv4Addr::new(192, 0, 2, 10)), 53000)
}

fn v4_resolver() -> SocketAddr {
    SocketAddr::new(IpAddr::V4(Ipv4Addr::new(198, 51, 100, 53)), 53)
}

fn v6_client() -> SocketAddr {
    SocketAddr::new(
    IpAddr::V6(Ipv6Addr::new(0x2001, 0xdb8, 0, 1, 0, 0, 0, 10)),
    53000,
)
}

fn v6_resolver() -> SocketAddr {
    SocketAddr::new(
    IpAddr::V6(Ipv6Addr::new(0x2001, 0xdb8, 0, 2, 0, 0, 0, 53)),
    53,
)
}

#[test]
fn reflects_all_family_protocol_combinations_and_exact_inverse_replies() {
    for (client, resolver, protocol) in [
        (v4_client(), v4_resolver(), Protocol::Udp),
        (v4_client(), v4_resolver(), Protocol::Tcp),
        (v6_client(), v6_resolver(), Protocol::Udp),
        (v6_client(), v6_resolver(), Protocol::Tcp),
    ] {
        let packet = packet(client, resolver, protocol);
        let mut registry = FlowRegistry::new(8, 1000);
        let reflected = registry
            .reflect_request(&packet, iface_a(), 40000, 10)
            .expect("request should reflect");
        let reflected_info = decode(&reflected.packet).unwrap();
        assert_eq!(
            reflected_info.source,
            SocketAddr::new(resolver.ip(), client.port())
        );
        assert_eq!(
            reflected_info.destination,
            SocketAddr::new(client.ip(), 40000)
        );
        assert_eq!(reflected_info.protocol, protocol);

        let restored = registry
            .reflect_reply(&inverse(&reflected.packet), 20)
            .expect("only the registered inverse should be admitted");
        let restored_info = decode(&restored.packet).unwrap();
        assert_eq!(restored_info.source, resolver);
        assert_eq!(restored_info.destination, client);
        assert_eq!(restored_info.protocol, protocol);
        assert_eq!(restored.original_flow.interface, iface_a());
    }
}

#[test]
fn retries_reuse_rows_wrong_replies_do_not_remove_them_and_collisions_are_global() {
    let first_packet = packet(v4_client(), v4_resolver(), Protocol::Udp);
    let mut registry = FlowRegistry::new(4, 1000);
    let first = registry
        .reflect_request(&first_packet, iface_a(), 40000, 0)
        .expect("first request should register");
    assert_eq!(
        registry
            .reflect_request(&first_packet, iface_a(), 40000, 1)
            .unwrap(),
        first
    );

    let mut wrong = inverse(&first.packet);
    wrong[20..22].copy_from_slice(&40001u16.to_be_bytes());
    assert_eq!(
        registry.reflect_reply(&wrong, 2),
        Err(FlowError::UnknownFlow)
    );
    registry
        .reflect_reply(&inverse(&first.packet), 3)
        .expect("wrong reply must not remove the row");

    assert_eq!(
        registry
            .reflect_request(&first_packet, iface_b(), 40000, 4)
            .unwrap_err(),
        FlowError::ReflectedCollision
    );
}

#[test]
fn expiry_quarantines_keys_and_consumes_lifetime_capacity() {
    let first_packet = packet(v4_client(), v4_resolver(), Protocol::Udp);
    let mut registry = FlowRegistry::new(1, 100);
    let first = registry
        .reflect_request(&first_packet, iface_a(), 40000, 0)
        .expect("first mapping should fit");
    registry.expire(100);
    assert_eq!(registry.active_len(), 0);
    assert_eq!(registry.quarantined_len(), 1);
    assert_eq!(
        registry.reflect_reply(&inverse(&first.packet), 101),
        Err(FlowError::UnknownFlow)
    );
    assert_eq!(
        registry.reflect_request(&first_packet, iface_a(), 40000, 102),
        Err(FlowError::KeyQuarantined)
    );
    let other = packet(
        v4_client(),
        SocketAddr::new(IpAddr::V4(Ipv4Addr::new(203, 0, 113, 53)), 53),
        Protocol::Udp,
    );
    assert_eq!(
        registry.reflect_request(&other, iface_a(), 40001, 103),
        Err(FlowError::AtCapacity)
    );
}

#[test]
fn tcp_close_keeps_fin_tails_alive_only_through_close_grace() {
    let packet = packet(v4_client(), v4_resolver(), Protocol::Tcp);
    let mut registry = FlowRegistry::with_tcp_close_grace(2, 1000, 50);
    let reflected = registry
        .reflect_request(&packet, iface_a(), 40000, 100)
        .expect("TCP request should register");
    let mut fin = packet.clone();
    fin[33] |= 0x01;
    registry
        .observe_tcp_close(&fin, iface_a(), 200)
        .expect("FIN should shorten the deadline");
    registry
        .reflect_reply(&inverse(&reflected.packet), 249)
        .expect("FIN tail should remain alive through close grace");
    registry.expire(250);
    assert_eq!(
        registry.reflect_reply(&inverse(&reflected.packet), 251),
        Err(FlowError::UnknownFlow)
    );
}

#[test]
fn malformed_requests_and_replies_are_rejected_by_the_codec() {
    let mut registry = FlowRegistry::new(2, 1000);
    assert!(matches!(
        registry.reflect_request(&[0], iface_a(), 40000, 0),
        Err(FlowError::Packet(_))
    ));
    assert!(matches!(
        registry.reflect_reply(&[0], 0),
        Err(FlowError::Packet(_))
    ));

    let mut truncated = packet(v4_client(), v4_resolver(), Protocol::Udp);
    truncated.truncate(20);
    assert!(matches!(
        registry.reflect_request(&truncated, iface_a(), 40000, 0),
        Err(FlowError::Packet(_))
    ));
}

#[test]
fn reply_protocol_must_match_the_registered_request() {
    let mut registry = FlowRegistry::new(2, 1000);
    let request = packet(v4_client(), v4_resolver(), Protocol::Udp);
    let reflected = registry
        .reflect_request(&request, iface_a(), 40000, 0)
        .expect("UDP request should register");
    let mismatched = packet(
        SocketAddr::new(v4_client().ip(), 40000),
        SocketAddr::new(v4_resolver().ip(), v4_client().port()),
        Protocol::Tcp,
    );
    assert_eq!(
        registry.reflect_reply(&mismatched, 1),
        Err(FlowError::UnknownFlow)
    );
    registry
        .reflect_reply(&inverse(&reflected.packet), 2)
        .expect("matching UDP reply should remain admitted");
}

#[test]
fn same_client_port_can_target_multiple_resolvers() {
    let resolver_two = SocketAddr::new(IpAddr::V4(Ipv4Addr::new(203, 0, 113, 53)), 53);
    let mut registry = FlowRegistry::new(3, 1000);
    let first = registry
        .reflect_request(
            &packet(v4_client(), v4_resolver(), Protocol::Udp),
            iface_a(),
            40000,
            0,
        )
        .expect("first resolver should register");
    let second = registry
        .reflect_request(
            &packet(v4_client(), resolver_two, Protocol::Udp),
            iface_a(),
            40000,
            1,
        )
        .expect("second resolver should register");
    assert_eq!(registry.active_len(), 2);
    assert_ne!(
        decode(&first.packet).unwrap().source,
        decode(&second.packet).unwrap().source
    );
}

#[test]
fn retry_does_not_extend_the_original_fixed_expiry() {
    let request = packet(v4_client(), v4_resolver(), Protocol::Udp);
    let mut registry = FlowRegistry::new(2, 100);
    let first = registry
        .reflect_request(&request, iface_a(), 40000, 0)
        .expect("request should register");
    assert_eq!(
        registry.reflect_request(&request, iface_a(), 40000, 50),
        Ok(first.clone())
    );
    assert_eq!(registry.active_len(), 1);
    registry.expire(99);
    assert_eq!(registry.active_len(), 1);
    registry.expire(100);
    assert_eq!(registry.active_len(), 0);
    assert_eq!(
        registry.reflect_reply(&inverse(&first.packet), 101),
        Err(FlowError::UnknownFlow)
    );
    assert_eq!(
        registry.reflect_request(&request, iface_a(), 40000, 102),
        Err(FlowError::KeyQuarantined)
    );
}

#[test]
fn zero_reserved_and_client_colliding_proxy_ports_are_rejected() {
    let request = packet(v4_client(), v4_resolver(), Protocol::Udp);
    let mut registry = FlowRegistry::new(8, 1000);
    for proxy_port in [0, 53, v4_client().port()] {
        assert_eq!(
            registry.reflect_request(&request, iface_a(), proxy_port, 0),
            Err(FlowError::InvalidProxyPort)
        );
    }
    let zero_client = packet(
        SocketAddr::new(v4_client().ip(), 0),
        v4_resolver(),
        Protocol::Udp,
    );
    assert_eq!(
        registry.reflect_request(&zero_client, iface_a(), 40000, 0),
        Err(FlowError::InvalidClientPort)
    );
    let wrong_resolver_port = packet(
        v4_client(),
        SocketAddr::new(v4_resolver().ip(), 54),
        Protocol::Udp,
    );
    assert_eq!(
        registry.reflect_request(&wrong_resolver_port, iface_a(), 40000, 0),
        Err(FlowError::InvalidResolverPort)
    );

    registry
        .reflect_request(&request, iface_a(), 40000, 0)
        .expect("valid proxy port should register");
    assert_eq!(
        registry.reflect_request(&request, iface_b(), 40000, 1),
        Err(FlowError::ReflectedCollision)
    );
}

#[test]
fn zero_capacity_and_saturated_monotonic_timestamps_stay_bounded() {
    let request = packet(v4_client(), v4_resolver(), Protocol::Udp);
    let mut zero = FlowRegistry::new(0, 1000);
    assert_eq!(
        zero.reflect_request(&request, iface_a(), 40000, 0),
        Err(FlowError::AtCapacity)
    );

    let mut saturated = FlowRegistry::new(1, 20);
    let first = saturated
        .reflect_request(&request, iface_a(), 40000, u64::MAX - 10)
        .expect("saturating deadline should not reject the request");
    saturated
        .reflect_reply(&inverse(&first.packet), u64::MAX - 1)
        .expect("the saturated deadline remains active before MAX");
    saturated.expire(u64::MAX);
    assert_eq!(saturated.active_len(), 0);
    assert_eq!(saturated.quarantined_len(), 1);
    assert_eq!(
        saturated.reflect_request(&request, iface_a(), 40001, u64::MAX),
        Err(FlowError::KeyQuarantined)
    );
}

#[test]
fn fin_on_request_and_rst_on_reply_shorten_deadlines_automatically() {
    let request = packet(v4_client(), v4_resolver(), Protocol::Tcp);
    let mut fin_registry = FlowRegistry::with_tcp_close_grace(2, 1000, 50);
    let mut fin_request = request.clone();
    set_tcp_flags(&mut fin_request, 0x01);
    let fin_reflected = fin_registry
        .reflect_request(&fin_request, iface_a(), 40000, 100)
        .expect("FIN request should register");
    fin_registry
        .reflect_reply(&inverse(&fin_reflected.packet), 149)
        .expect("FIN tail should remain active through grace");
    fin_registry.expire(150);
    assert_eq!(
        fin_registry.reflect_reply(&inverse(&fin_reflected.packet), 151),
        Err(FlowError::UnknownFlow)
    );

    let mut rst_registry = FlowRegistry::with_tcp_close_grace(2, 1000, 50);
    let rst_reflected = rst_registry
        .reflect_request(&request, iface_a(), 40000, 100)
        .expect("RST flow request should register");
    let mut rst_reply = inverse(&rst_reflected.packet);
    set_tcp_flags(&mut rst_reply, 0x04);
    rst_registry
        .reflect_reply(&rst_reply, 200)
        .expect("RST reply should be admitted and shorten the deadline");
    rst_registry
        .reflect_reply(&inverse(&rst_reflected.packet), 249)
        .expect("reply tail should remain active through RST grace");
    rst_registry.expire(250);
    assert_eq!(
        rst_registry.reflect_reply(&inverse(&rst_reflected.packet), 251),
        Err(FlowError::UnknownFlow)
    );
}

fn inverse(reflected: &[u8]) -> Vec<u8> {
    let info = decode(reflected).unwrap();
    rewrite(
        reflected,
        SocketAddr::new(info.destination.ip(), info.destination.port()),
        SocketAddr::new(info.source.ip(), info.source.port()),
    )
    .unwrap()
}

fn set_tcp_flags(packet: &mut [u8], flags: u8) {
    let transport_offset = if packet[0] >> 4 == 4 { 20 } else { 40 };
    packet[transport_offset + 13] = flags;
}

fn packet(source: SocketAddr, destination: SocketAddr, protocol: Protocol) -> Vec<u8> {
    let payload = b"dns";
    let (header_len, transport_len) = match protocol {
        Protocol::Udp => (if source.ip().is_ipv4() { 20 } else { 40 }, 8 + payload.len()),
        Protocol::Tcp => (if source.ip().is_ipv4() { 20 } else { 40 }, 20 + payload.len()),
    };
    let mut packet = vec![0; header_len + transport_len];
    if source.ip().is_ipv4() {
        packet[0] = 0x45;
        let total_len = packet.len() as u16;
        packet[2..4].copy_from_slice(&total_len.to_be_bytes());
        packet[6..8].copy_from_slice(&0x4000u16.to_be_bytes());
        packet[8] = 64;
        packet[9] = protocol_number(protocol);
        packet[12..16].copy_from_slice(&ipv4_bytes(source));
        packet[16..20].copy_from_slice(&ipv4_bytes(destination));
    } else {
        packet[0] = 0x60;
        packet[4..6].copy_from_slice(&(transport_len as u16).to_be_bytes());
        packet[6] = protocol_number(protocol);
        packet[8..24].copy_from_slice(&ipv6_bytes(source));
        packet[24..40].copy_from_slice(&ipv6_bytes(destination));
    }
    let transport = header_len;
    packet[transport..transport + 2].copy_from_slice(&source.port().to_be_bytes());
    packet[transport + 2..transport + 4].copy_from_slice(&destination.port().to_be_bytes());
    match protocol {
        Protocol::Udp => packet[transport + 4..transport + 6]
            .copy_from_slice(&(transport_len as u16).to_be_bytes()),
        Protocol::Tcp => packet[transport + 12] = 0x50,
    }
    packet[transport + transport_len - payload.len()..].copy_from_slice(payload);
    packet
}

fn protocol_number(protocol: Protocol) -> u8 {
    match protocol {
        Protocol::Udp => 17,
        Protocol::Tcp => 6,
    }
}

fn ipv4_bytes(address: SocketAddr) -> [u8; 4] {
    match address.ip() {
        IpAddr::V4(address) => [address.a, address.b, address.c, address.d],
        IpAddr::V6(_) => panic!("expected IPv4 address"),
    }
}

fn ipv6_bytes(address: SocketAddr) -> [u8; 16] {
    match address.ip() {
        IpAddr::V6(address) => octets(address),
        IpAddr::V4(_) => panic!("expected IPv6 address"),
    }
}

#[test]
fn a_request_keeps_the_proxy_port_it_was_given() {
    let request = packet(v4_client(), v4_resolver(), Protocol::Udp);
    let mut registry = FlowRegistry::new(4, 1000);
    registry
        .reflect_request(&request, iface_a(), 40000, 0)
        .unwrap();
    assert_eq!(
        registry.reflect_request(&request, iface_a(), 40001, 1),
        Err(FlowError::ProxyPortMismatch)
    );
    assert_eq!(registry.active_len(), 1);
    assert_eq!(registry.allocated_len(), 1);
    assert_eq!(registry.capacity(), 4);
}

#[test]
fn only_known_tcp_flows_can_close() {
    let mut registry = FlowRegistry::new(4, 1000);
    let udp = packet(v4_client(), v4_resolver(), Protocol::Udp);
    assert_eq!(
        registry.observe_tcp_close(&udp, iface_a(), 0),
        Err(FlowError::NotTcp)
    );
    let mut tcp = packet(v4_client(), v4_resolver(), Protocol::Tcp);
    assert_eq!(registry.observe_tcp_close(&tcp, iface_a(), 0), Ok(()));
    set_tcp_flags(&mut tcp, 0x01);
    assert_eq!(
        registry.observe_tcp_close(&tcp, iface_a(), 0),
        Err(FlowError::UnknownFlow)
    );
    assert_eq!(registry.allocated_len(), 0);
}

#[test]
fn interfaces_hold_what_they_are_made_of() {
    let interface = Interface::new(3, 9);
    assert_eq!(interface.index, 3);
    assert_eq!(interface.sub_index, 9);
}
