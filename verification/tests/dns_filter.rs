//! The filters that capture requests and replies.

use vapour_protection::dns_filter::{
    build_dns_filter, build_dns_filters, DnsFilterConfig, MAX_FILTER_BYTES, MAX_OWNED_SLOTS_PER_IP,
};
use vapour_protection::net::{IpAddr, Ipv4Addr, Ipv6Addr, SocketAddr, SocketAddrV6};

fn scoped_address(ip: Ipv6Addr, port: u16, flowinfo: u32, scope_id: u32) -> SocketAddrV6 {
    SocketAddrV6 {
        ip,
        port,
        flowinfo,
        scope_id,
    }
}

fn v4(value: [u8; 4], port: u16) -> SocketAddr {
    SocketAddr::new(
        IpAddr::V4(Ipv4Addr::new(value[0], value[1], value[2], value[3])),
        port,
    )
}

fn base_config() -> DnsFilterConfig {
    let mut config = DnsFilterConfig {
        local_ips: vec![IpAddr::V4(Ipv4Addr::new(127, 0, 0, 1))],
        udp_proxy_listeners: vec![v4([127, 0, 0, 1], 5301)],
        tcp_proxy_listeners: vec![v4([127, 0, 0, 1], 5302)],
        udp_upstreams: Vec::new(),
        tcp_upstreams: Vec::new(),
    };
    for slot in 0..MAX_OWNED_SLOTS_PER_IP as u16 {
        config.udp_upstreams.push(v4([127, 0, 0, 1], 41001 + slot));
        config.tcp_upstreams.push(v4([127, 0, 0, 1], 42001 + slot));
    }
    config
}

#[test]
fn requests_are_source_address_and_protocol_specific() {
    let filter = build_dns_filter(&base_config()).unwrap();
    assert!(filter.starts_with("outbound and ("));
    assert!(filter.contains("udp and ip and ip.SrcAddr == 127.0.0.1 and udp.DstPort == 53"));
    assert!(filter.contains("udp.SrcPort != 41001"));
    assert!(filter.contains("tcp and ip and ip.SrcAddr == 127.0.0.1 and tcp.DstPort == 53"));
    assert!(filter.contains("tcp.SrcPort != 42001"));
    assert!(filter.contains("udp and ip and ip.SrcAddr == 127.0.0.1 and udp.SrcPort == 5301"));
    assert!(filter.contains("tcp and ip and ip.SrcAddr == 127.0.0.1 and tcp.SrcPort == 5302"));
}

#[test]
fn same_numeric_port_is_not_cross_protocol_exempted() {
    let mut config = base_config();
    config.udp_upstreams[0] = v4([127, 0, 0, 1], 42000);
    config.tcp_upstreams[0] = v4([127, 0, 0, 1], 42000);
    let filter = build_dns_filter(&config).unwrap();
    assert!(filter.contains("udp.SrcPort != 42000"));
    assert!(filter.contains("tcp.SrcPort != 42000"));
    assert!(!filter.contains("not ("));
}

#[test]
fn same_owned_port_on_another_local_ip_is_not_exempted() {
    let mut config = base_config();
    config
        .local_ips
        .push(IpAddr::V4(Ipv4Addr::new(127, 0, 0, 2)));
    config.udp_proxy_listeners.push(v4([127, 0, 0, 2], 5303));
    config.tcp_proxy_listeners.push(v4([127, 0, 0, 2], 5304));
    for slot in 0..MAX_OWNED_SLOTS_PER_IP as u16 {
        config.udp_upstreams.push(v4([127, 0, 0, 2], 43001 + slot));
        config.tcp_upstreams.push(v4([127, 0, 0, 2], 44001 + slot));
    }
    let filter = build_dns_filter(&config).unwrap();
    let second_udp = filter
        .split(" or ")
        .find(|clause| {
            clause.contains("udp and ip and ip.SrcAddr == 127.0.0.2")
                && clause.contains("udp.DstPort == 53")
        })
        .expect("second local UDP request clause");
    assert!(!second_udp.contains("41001"));
}

#[test]
fn max_local_ips_and_owned_slots_remain_bounded() {
    let mut config = DnsFilterConfig {
        local_ips: Vec::new(),
        udp_proxy_listeners: Vec::new(),
        tcp_proxy_listeners: Vec::new(),
        udp_upstreams: Vec::new(),
        tcp_upstreams: Vec::new(),
    };
    for octet in 1..=16u8 {
        let ip = IpAddr::V4(Ipv4Addr::new(10, 0, 0, octet));
        config.local_ips.push(ip);
        config
            .udp_proxy_listeners
            .push(SocketAddr::new(ip, 30000 + u16::from(octet)));
        config
            .tcp_proxy_listeners
            .push(SocketAddr::new(ip, 30100 + u16::from(octet)));
        for slot in 0..MAX_OWNED_SLOTS_PER_IP as u16 {
            config
                .udp_upstreams
                .push(SocketAddr::new(ip, 31000 + u16::from(octet) * 8 + slot));
            config
                .tcp_upstreams
                .push(SocketAddr::new(ip, 32000 + u16::from(octet) * 8 + slot));
        }
    }
    assert!(build_dns_filter(&config).is_err());
    let filters = build_dns_filters(&config).unwrap();
    assert_eq!(filters.len(), 4);
    assert!(filters.iter().all(|filter| filter.len() < MAX_FILTER_BYTES));
    let combined = filters.join("\n");
    assert!(combined.contains("10.0.0.16"));
    assert!(combined.contains("udp.SrcPort != 31135"));
    assert!(combined.contains("tcp.SrcPort != 32135"));
}

#[test]
fn scoped_ipv6_uses_numeric_ifidx_without_zone_literal() {
    let ip = Ipv6Addr::new(0xfe80, 0, 0, 0, 0x1234, 0, 0, 1);
    let mut config = DnsFilterConfig {
        local_ips: vec![IpAddr::V6(ip)],
        udp_proxy_listeners: vec![SocketAddr::V6(scoped_address(ip, 5301, 0, 7))],
        tcp_proxy_listeners: vec![SocketAddr::V6(scoped_address(ip, 5302, 0, 7))],
        udp_upstreams: Vec::new(),
        tcp_upstreams: Vec::new(),
    };
    for slot in 0..MAX_OWNED_SLOTS_PER_IP as u16 {
        config
            .udp_upstreams
            .push(SocketAddr::V6(scoped_address(ip, 41001 + slot, 0, 7)));
        config
            .tcp_upstreams
            .push(SocketAddr::V6(scoped_address(ip, 42001 + slot, 0, 7)));
    }
    let filter = build_dns_filter(&config).unwrap();
    assert!(filter.contains("ipv6.SrcAddr == fe80::1234:0:0:1"));
    assert!(filter.contains("ifIdx == 7"));
    assert!(!filter.contains('%'));
    config.udp_proxy_listeners[0] = SocketAddr::V6(scoped_address(ip, 5301, 0, 0));
    assert!(build_dns_filter(&config).is_err());
}

#[test]
fn malformed_and_overlapping_inputs_are_rejected() {
    let mut config = base_config();
    config
        .local_ips
        .push(IpAddr::V4(Ipv4Addr::new(127, 0, 0, 1)));
    assert!(build_dns_filter(&config).is_err());

    let mut config = base_config();
    config.udp_upstreams[0] = v4([127, 0, 0, 1], 53);
    assert!(build_dns_filter(&config).is_err());

    let mut config = base_config();
    config.tcp_upstreams[0] = v4([127, 0, 0, 2], 41002);
    assert!(build_dns_filter(&config).is_err());

    let mut config = base_config();
    config.udp_upstreams[0] = config.udp_proxy_listeners[0];
    assert!(build_dns_filter(&config).is_err());

    let mut config = base_config();
    config.local_ips = vec![IpAddr::V4(Ipv4Addr::new(0, 0, 0, 0))];
    assert!(build_dns_filter(&config).is_err());

    let mut config = base_config();
    config.local_ips = vec![IpAddr::V6(Ipv6Addr::new(0, 0, 0, 0, 0, 0, 0, 1))];
    assert!(build_dns_filter(&config).is_err());
}

#[test]
fn one_address_has_four_clauses() {
    let config = base_config();
    let filter = build_dns_filter(&config).unwrap();
    assert_eq!(
        filter,
        "outbound and (\
         (udp and ip and ip.SrcAddr == 127.0.0.1 and udp.DstPort == 53 \
         and udp.SrcPort != 41001 and udp.SrcPort != 41002 and udp.SrcPort != 41003 \
         and udp.SrcPort != 41004 and udp.SrcPort != 41005 and udp.SrcPort != 41006 \
         and udp.SrcPort != 41007 and udp.SrcPort != 41008) or \
         (tcp and ip and ip.SrcAddr == 127.0.0.1 and tcp.DstPort == 53 \
         and tcp.SrcPort != 42001 and tcp.SrcPort != 42002 and tcp.SrcPort != 42003 \
         and tcp.SrcPort != 42004 and tcp.SrcPort != 42005 and tcp.SrcPort != 42006 \
         and tcp.SrcPort != 42007 and tcp.SrcPort != 42008) or \
         (udp and ip and ip.SrcAddr == 127.0.0.1 and udp.SrcPort == 5301) or \
         (tcp and ip and ip.SrcAddr == 127.0.0.1 and tcp.SrcPort == 5302))"
    );
    assert_eq!(build_dns_filters(&config).unwrap(), vec![filter]);
}

#[test]
fn another_order_of_the_lists_gives_the_same_filters() {
    let mut config = base_config();
    for host in 2..=6u8 {
        let ip = [127, 0, 0, host];
        config.local_ips.push(v4(ip, 0).ip());
        config.udp_proxy_listeners.push(v4(ip, 5301));
        config.tcp_proxy_listeners.push(v4(ip, 5302));
        for slot in 0..MAX_OWNED_SLOTS_PER_IP as u16 {
            config.udp_upstreams.push(v4(ip, 41001 + slot));
            config.tcp_upstreams.push(v4(ip, 42001 + slot));
        }
    }
    let filters = build_dns_filters(&config).unwrap();
    assert_eq!(filters.len(), 2);
    let mut other = config.clone();
    other.local_ips.reverse();
    other.udp_proxy_listeners.rotate_left(2);
    other.tcp_proxy_listeners.swap(0, 5);
    other.udp_upstreams.reverse();
    other.tcp_upstreams.rotate_right(11);
    assert_eq!(build_dns_filters(&other).unwrap(), filters);
}
