//! Addresses and texts.

use vapour_protection::net::{
    ip_from_text, socket_from_text, word_octets, word_value, IpAddr, Ipv4Addr, Ipv6Addr,
    SocketAddr,
};
use vapour_protection::text_order::{comes_before, sort_and_dedup};

#[test]
fn addresses_are_read_and_written() {
    for text in [
        "127.0.0.1",
        "0.0.0.0",
        "::",
        "::1",
        "2001:db8::53",
        "2001:db8:0:1:1:1:1:1",
        "::ffff:192.0.2.1",
        "fe80::1234:0:0:1",
    ] {
        assert_eq!(ip_from_text(text).unwrap().text(), text);
    }
    assert_eq!(
        ip_from_text("2001:0DB8:0:0:0:0:0:53").unwrap().text(),
        "2001:db8::53"
    );
    for text in ["", "1.2.3", "1.2.3.256", "01.2.3.4", ":::", "1::2::3", "12345::", "::1%3"] {
        assert_eq!(ip_from_text(text), None, "{text}");
    }
}

#[test]
fn endpoints_are_read_and_written() {
    for text in ["127.0.0.1:53", "[::1]:53", "[fe80::1%3]:53"] {
        assert_eq!(socket_from_text(text).unwrap().text(), text);
    }
    for text in ["127.0.0.1", "::1:53", "[::1]", "127.0.0.1:65536", "localhost:53"] {
        assert_eq!(socket_from_text(text), None, "{text}");
    }
    let endpoint = socket_from_text("[fe80::1%3]:53").unwrap();
    assert_eq!(endpoint.port(), 53);
    assert_eq!(endpoint.scope(), 3);
    assert_eq!(
        SocketAddr::new(endpoint.ip(), 7).text(),
        "[fe80::1]:7"
    );
}

#[test]
fn addresses_have_kinds() {
    assert!(ip_from_text("127.9.9.9").unwrap().is_loopback());
    assert!(ip_from_text("::1").unwrap().is_loopback());
    assert!(ip_from_text("::").unwrap().is_unspecified());
    assert!(ip_from_text("224.0.0.1").unwrap().is_multicast());
    assert!(ip_from_text("ff02::1").unwrap().is_multicast());
    assert!(ip_from_text("fe80::1").unwrap().is_link_local_v6());
    let mapped = Ipv6Addr::new(0, 0, 0, 0, 0, 0xffff, 0xc000, 0x0201);
    assert!(mapped.is_mapped());
    assert_eq!(mapped.embedded_v4(), Ipv4Addr::new(192, 0, 2, 1));
    assert_eq!(
        IpAddr::V6(mapped).to_canonical(),
        ip_from_text("192.0.2.1").unwrap()
    );
}

#[test]
fn addresses_are_ordered() {
    let before = |left: &str, right: &str| {
        ip_from_text(left)
            .unwrap()
            .comes_before(&ip_from_text(right).unwrap())
    };
    assert!(before("9.0.0.1", "10.0.0.1"));
    assert!(before("255.255.255.255", "::"));
    assert!(before("::1", "::2"));
    assert!(!before("::1", "::1"));
}

#[test]
fn words_have_two_octets() {
    assert_eq!(word_octets(0x1234), (0x12, 0x34));
    assert_eq!(word_value(0x12, 0x34), 0x1234);
}

#[test]
fn texts_are_sorted_by_their_bytes() {
    let texts: Vec<String> = ["b", "a", "ab", "", "é", "b"]
        .iter()
        .map(|text| text.to_string())
        .collect();
    assert_eq!(sort_and_dedup(&texts), ["", "a", "ab", "b", "é"]);
    assert!(comes_before("a", "ab"));
    assert!(!comes_before("ab", "a"));
}
