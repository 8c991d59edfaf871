//! Routing captured packets.

use vapour_protection::dns_flow::Interface;
use vapour_protection::dns_packet::{decode, rewrite, Protocol};
use vapour_protection::dns_process::{DnsProcessStatus, UpstreamSlot};
use vapour_protection::dns_router::{PacketRouter, RouteError, RouteStep, RoutedPacket};
use vapour_protection::net::{socket_from_text, SocketAddr};

fn iface() -> Interface {
    Interface::new(7, 0)
}

fn ready(ip: &str) -> DnsProcessStatus {
    let endpoint = |port| {
        socket_from_text(&format!("{ip}:{port}"))
            .unwrap()
            .text()
    };
    DnsProcessStatus {
        udp_addr: endpoint(40000),
        tcp_addr: endpoint(40001),
        udp_addrs: vec![endpoint(40000)],
        tcp_addrs: vec![endpoint(40001)],
        rules_count: 1,
        slots: (0..8)
            .map(|id| UpstreamSlot {
                id,
                udp_addr: endpoint(41000 + id),
                tcp_addr: endpoint(42000 + id),
            })
            .collect(),
    }
}

fn packet(client: &str, resolver: &str, protocol: Protocol) -> Vec<u8> {
    let client: SocketAddr = socket_from_text(client).unwrap();
    let resolver: SocketAddr = socket_from_text(resolver).unwrap();
    let header = if client.ip().is_ipv4() { 20 } else { 40 };
    let transport = if protocol == Protocol::Udp { 8 } else { 20 };
    let length = header + transport;
    let mut packet = vec![0; length];
    let proto = if protocol == Protocol::Udp { 17 } else { 6 };
    if client.ip().is_ipv4() {
        packet[0] = 0x45;
        packet[2..4].copy_from_slice(&(length as u16).to_be_bytes());
        packet[8] = 64;
        packet[9] = proto;
    } else {
        packet[0] = 0x60;
        packet[4..6].copy_from_slice(&(transport as u16).to_be_bytes());
        packet[6] = proto;
        packet[7] = 64;
    }
    if protocol == Protocol::Udp {
        packet[header + 4..header + 6].copy_from_slice(&8u16.to_be_bytes());
    } else {
        packet[header + 12] = 0x50;
        packet[header + 13] = 2;
    }
    rewrite(&packet, client, resolver).unwrap()
}

fn injected(action: RoutedPacket) -> Vec<u8> {
    match action {
        RoutedPacket::Inbound { packet, .. } => packet,
        other => panic!("expected injection: {other:?}"),
    }
}

#[test]
fn authorizes_once_before_reflection_and_restores_all_transports() {
    for (local, client, resolver) in [
        ("[::1]", "[::1]:53000", "[::1]:53"),
        ("192.0.2.10", "192.0.2.10:53000", "198.51.100.53:53"),
        (
            "[2001:db8::10]",
            "[2001:db8::10]:53000",
            "[2001:db8::53]:53",
        ),
    ] {
        for proto in [Protocol::Udp, Protocol::Tcp] {
            let mut router = PacketRouter::new(&ready(local)).unwrap();
            assert_eq!(router.filters().len(), 1);
            let request = packet(client, resolver, proto);
            let mut registrations = Vec::new();
            let reflected = injected(
                router
                    .route(&request, iface(), 0, |flow| {
                        registrations.push(flow);
                        Ok(())
                    })
                    .unwrap(),
            );
            assert_eq!(registrations.len(), 1);
            let info = decode(&reflected).unwrap();
            let flow = &registrations[0];
            assert_eq!(flow.local, info.destination.text());
            assert_eq!(flow.peer, info.source.text());
            assert_eq!(flow.resolver, resolver);
            assert_eq!(flow.lifetime_ms, 120_000);
            router
                .route(&request, iface(), 1, |_| panic!("retry must not reauthorize"))
                .unwrap();
            let reply = rewrite(&reflected, info.destination, info.source).unwrap();
            let action = router
                .route(&reply, iface(), 2, |_| panic!("reply cannot register"))
                .unwrap();
            assert!(
                matches!(&action, RoutedPacket::Inbound { interface, .. } if *interface == iface())
            );
            let restored = decode(&injected(action)).unwrap();
            assert_eq!(restored.source, socket_from_text(resolver).unwrap());
            assert_eq!(restored.destination, socket_from_text(client).unwrap());
        }
    }
}

#[test]
fn failed_authorization_freezes_requests_and_cannot_admit_reply() {
    let mut router = PacketRouter::new(&ready("192.0.2.10")).unwrap();
    let request = packet("192.0.2.10:53000", "198.51.100.53:53", Protocol::Udp);
    assert_eq!(
        router.route(&request, iface(), 0, |_| Err("lost ack".into())),
        Err(RouteError::Companion("lost ack".into()))
    );
    assert_eq!(
        router.route(&request, iface(), 1, |_| panic!()),
        Err(RouteError::Stopped)
    );
    let reply = packet("192.0.2.10:40000", "198.51.100.53:53000", Protocol::Udp);
    assert_eq!(
        router.route(&reply, iface(), 2, |_| panic!()).unwrap(),
        RoutedPacket::Discard
    );
}

#[test]
fn reservations_and_unknown_traffic_never_create_reflections() {
    let mut router = PacketRouter::new(&ready("192.0.2.10")).unwrap();
    for (source, dest, proto) in [
        ("192.0.2.10:41000", "198.51.100.53:53", Protocol::Udp),
        ("192.0.2.10:42000", "198.51.100.53:53", Protocol::Tcp),
        ("192.0.2.11:53000", "198.51.100.53:53", Protocol::Udp),
        ("192.0.2.10:53000", "198.51.100.53:443", Protocol::Tcp),
    ] {
        assert_eq!(
            router
                .route(&packet(source, dest, proto), iface(), 0, |_| panic!())
                .unwrap(),
            RoutedPacket::Unchanged
        );
    }
    for proto in [Protocol::Udp, Protocol::Tcp] {
        let port = if proto == Protocol::Udp { 40000 } else { 40001 };
        let reply = packet(&format!("192.0.2.10:{port}"), "198.51.100.53:53", proto);
        assert_eq!(
            router.route(&reply, iface(), 0, |_| panic!()).unwrap(),
            RoutedPacket::Discard
        );
    }
}

#[test]
fn slots_are_fixed_by_resolver_and_transport_with_bounded_rollover() {
    let mut router = PacketRouter::new(&ready("192.0.2.10")).unwrap();
    for id in 0..8 {
        let request = packet(
            &format!("192.0.2.10:{}", 53000 + id),
            &format!("198.51.100.{}:53", id + 1),
            Protocol::Udp,
        );
        router
            .route(&request, iface(), 0, |flow| {
                assert_eq!(flow.slot, id);
                Ok(())
            })
            .unwrap();
    }
    let same_resolver = packet("192.0.2.10:54000", "198.51.100.1:53", Protocol::Udp);
    router
        .route(&same_resolver, iface(), 1, |flow| {
            assert_eq!(flow.slot, 0);
            Ok(())
        })
        .unwrap();
    let tcp = packet("192.0.2.10:54001", "198.51.100.1:53", Protocol::Tcp);
    assert_eq!(
        router.route(&tcp, iface(), 2, |_| panic!()),
        Err(RouteError::RolloverRequired)
    );
    assert_eq!(
        router.route(&same_resolver, iface(), 120_001, |_| panic!()),
        Err(RouteError::RolloverRequired)
    );
}

#[test]
fn scopes_follow_capture_interface_without_appearing_on_wire() {
    let mut router = PacketRouter::new(&ready("[fe80::10%7]")).unwrap();
    let request = packet("[fe80::10]:53000", "[fe80::53]:53", Protocol::Udp);
    assert_eq!(
        router
            .route(&request, Interface::new(8, 0), 0, |_| panic!())
            .unwrap(),
        RoutedPacket::Unchanged
    );
    router
        .route(&request, iface(), 1, |flow| {
            assert_eq!(flow.peer, "[fe80::53%7]:53000");
            assert_eq!(flow.local, "[fe80::10%7]:40000");
            assert_eq!(flow.resolver, "[fe80::53%7]:53");
            Ok(())
        })
        .unwrap();
    assert_eq!(
        router.route(&request, Interface::new(0, 0), 2, |_| panic!()),
        Err(RouteError::InvalidInterface)
    );
}

#[test]
fn draining_restores_known_replies_and_never_registers() {
    let mut router = PacketRouter::new(&ready("192.0.2.10")).unwrap();
    let request = packet("192.0.2.10:53000", "198.51.100.53:53", Protocol::Udp);
    let reflected = injected(router.route(&request, iface(), 0, |_| Ok(())).unwrap());
    let info = decode(&reflected).unwrap();
    let reply = rewrite(&reflected, info.destination, info.source).unwrap();
    assert_eq!(
        router.drain(&request, iface(), 1).unwrap(),
        RoutedPacket::Unchanged
    );
    assert!(matches!(
        router.drain(&reply, iface(), 2).unwrap(),
        RoutedPacket::Inbound { .. }
    ));
    assert_eq!(
        router.route(&request, iface(), 1, |_| panic!()),
        Err(RouteError::ClockReversed)
    );
}

#[test]
fn reservations_are_protocol_specific_and_bad_readiness_is_rejected() {
    let mut router = PacketRouter::new(&ready("192.0.2.10")).unwrap();
    let request = packet("192.0.2.10:41000", "198.51.100.53:53", Protocol::Tcp);
    let mut called = false;
    assert!(matches!(
        router
            .route(&request, iface(), 0, |_| {
                called = true;
                Ok(())
            })
            .unwrap(),
        RoutedPacket::Inbound { .. }
    ));
    assert!(called, "a UDP reservation must not exempt TCP");
    let mut bad = ready("192.0.2.10");
    bad.slots[1].id = bad.slots[0].id;
    assert!(PacketRouter::new(&bad).is_err());
    let mut bad = ready("192.0.2.10");
    bad.slots.pop();
    assert!(PacketRouter::new(&bad).is_err());
    assert!(PacketRouter::new(&ready("[::ffff:192.0.2.10]")).is_err());
    assert_eq!(
        router.route(&[0x45], iface(), 1, |_| panic!()),
        Err(RouteError::InvalidPacket)
    );
}

#[test]
fn a_registration_is_answered_in_two_steps() {
    let mut router = PacketRouter::new(&ready("192.0.2.10")).unwrap();
    let request = packet("192.0.2.10:53000", "198.51.100.53:53", Protocol::Udp);
    let pending = match router.begin_route(&request, iface(), 0) {
        RouteStep::Register {
            registration,
            pending,
        } => {
            assert_eq!(registration.protocol, "udp");
            assert_eq!(registration.local, "192.0.2.10:40000");
            assert_eq!(registration.peer, "198.51.100.53:53000");
            assert_eq!(registration.slot, 0);
            pending
        }
        RouteStep::Done(result) => panic!("expected a registration: {result:?}"),
    };
    let reflected = injected(router.finish_route(pending, Ok(())).unwrap());
    assert_eq!(
        decode(&reflected).unwrap().destination,
        socket_from_text("192.0.2.10:40000").unwrap()
    );
    assert!(matches!(
        router.begin_route(&request, iface(), 1),
        RouteStep::Done(Ok(RoutedPacket::Inbound { .. }))
    ));
}

#[test]
fn a_router_that_stops_admission_registers_nothing() {
    let mut router = PacketRouter::new(&ready("192.0.2.10")).unwrap();
    router.stop_admission();
    let request = packet("192.0.2.10:53000", "198.51.100.53:53", Protocol::Udp);
    assert_eq!(
        router.route(&request, iface(), 0, |_| panic!()),
        Err(RouteError::Stopped)
    );
}
