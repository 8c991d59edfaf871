//! What the system says of the DNS settings of an interface.

use vapour_protection::dns_configuration::{
    loopback_ipv4, DnsConfigurationError, DnsFamily, DnsSetting, DnsUnavailableReason,
};
use vapour_protection::dns_registry::{
    decode_settings, get_stack, parse_server_list, registry_key, registry_opened, registry_read,
    registry_sized, set_setting, setting_written, snapshot_counted, snapshot_includes,
    snapshot_setting, QueryError, MAX_NATIVE_STRING_CHARS,
};
use vapour_protection::guid::{parse_guid, GuidParts};
use vapour_protection::net::{ip_from_text, IpAddr};

fn ip(text: &str) -> IpAddr {
    ip_from_text(text).unwrap()
}

fn guid() -> GuidParts {
    parse_guid("11111111-2222-3333-4455-66778899AABB").unwrap()
}

fn units(text: &str) -> Vec<u16> {
    text.encode_utf16().collect()
}

fn bytes(text: &str) -> Vec<u8> {
    text.encode_utf16()
        .flat_map(|unit| unit.to_le_bytes())
        .collect()
}

#[test]
fn server_lists_are_read() {
    assert_eq!(
        parse_server_list("192.0.2.53, 192.0.2.54\t192.0.2.55", DnsFamily::Ipv4),
        Ok(vec![ip("192.0.2.53"), ip("192.0.2.54"), ip("192.0.2.55")])
    );
    assert_eq!(
        parse_server_list("::1", DnsFamily::Ipv4),
        Err(QueryError::InvalidData)
    );
    assert_eq!(
        parse_server_list("nonsense", DnsFamily::Ipv4),
        Err(QueryError::InvalidData)
    );
}

#[test]
fn settings_are_decoded() {
    assert_eq!(
        decode_settings(None, DnsFamily::Ipv4),
        Ok(DnsSetting::Automatic)
    );
    assert_eq!(
        decode_settings(Some(units("")), DnsFamily::Ipv4),
        Ok(DnsSetting::Automatic)
    );
    assert_eq!(
        decode_settings(Some(units("127.0.0.1")), DnsFamily::Ipv4),
        Ok(DnsSetting::Static {
            servers: vec![loopback_ipv4()]
        })
    );
    assert_eq!(
        decode_settings(Some(vec![0xd800]), DnsFamily::Ipv4),
        Err(QueryError::InvalidData)
    );
    assert!(MAX_NATIVE_STRING_CHARS > 0);
}

#[test]
fn registry_values_are_read() {
    assert_eq!(
        registry_key(guid()),
        "SYSTEM\\CurrentControlSet\\Services\\Tcpip6\\Parameters\\Interfaces\\{11111111-2222-3333-4455-66778899AABB}"
    );
    assert_eq!(registry_opened(0, true), Ok(()));
    assert!(registry_opened(5, false).is_err());
    let text = bytes("::1\0");
    assert_eq!(
        registry_sized(0, 1, text.len() as u32),
        Ok(Some(text.len() as u32))
    );
    assert_eq!(
        registry_read(0, 1, text.len() as u32, &text),
        Ok(DnsSetting::Static {
            servers: vec![ip("::1")]
        })
    );
    assert_eq!(registry_sized(2, 0, 0), Ok(None));
    assert!(registry_sized(0, 4, 4).is_err());
    assert!(registry_read(0, 1, 3, &text[..3]).is_err());
}

#[test]
fn failed_queries_are_no_automatic_settings() {
    assert_eq!(
        snapshot_setting(Err(QueryError::Code(5))),
        DnsSetting::Unavailable {
            reason: DnsUnavailableReason::QueryFailed { code: 5 }
        }
    );
    assert_eq!(
        snapshot_setting(Err(QueryError::InvalidData)),
        DnsSetting::Unavailable {
            reason: DnsUnavailableReason::InvalidData
        }
    );
    assert_eq!(
        QueryError::Code(127).unavailable_reason(),
        DnsUnavailableReason::Unsupported
    );
    assert_eq!(
        get_stack(Ok(DnsSetting::Automatic), guid(), DnsFamily::Ipv4),
        Ok(DnsSetting::Automatic)
    );
    assert_eq!(
        get_stack(Err(QueryError::Code(5)), guid(), DnsFamily::Ipv4),
        Err(DnsConfigurationError::NativeQuery {
            interface_guid: "11111111-2222-3333-4455-66778899AABB".to_owned(),
            family: DnsFamily::Ipv4,
            code: 5
        })
    );
    assert!(matches!(
        get_stack(Err(QueryError::InvalidData), guid(), DnsFamily::Ipv4),
        Err(DnsConfigurationError::InvalidSnapshot(_))
    ));
}

#[test]
fn settings_are_written_as_text() {
    assert_eq!(
        set_setting(&DnsSetting::Automatic, DnsFamily::Ipv4),
        Ok(String::new())
    );
    assert_eq!(
        set_setting(
            &DnsSetting::Static {
                servers: vec![ip("192.0.2.53"), ip("192.0.2.54")]
            },
            DnsFamily::Ipv4
        ),
        Ok("192.0.2.53 192.0.2.54".to_owned())
    );
    assert!(set_setting(
        &DnsSetting::Static {
            servers: vec![ip("::1")]
        },
        DnsFamily::Ipv4
    )
    .is_err());
    assert!(set_setting(
        &DnsSetting::Unavailable {
            reason: DnsUnavailableReason::InvalidData
        },
        DnsFamily::Ipv4
    )
    .is_err());
    assert_eq!(setting_written(0, guid(), DnsFamily::Ipv4), Ok(()));
    assert!(matches!(
        setting_written(5, guid(), DnsFamily::Ipv4),
        Err(DnsConfigurationError::NativeSet { code: 5, .. })
    ));
}

#[test]
fn interface_tables_are_bounded() {
    assert_eq!(snapshot_counted(0, true, 512), Ok(()));
    assert!(snapshot_counted(0, true, 513).is_err());
    assert!(snapshot_counted(0, false, 0).is_err());
    assert_eq!(
        snapshot_counted(5, false, 0),
        Err(DnsConfigurationError::NativeSnapshot { code: 5 })
    );
    assert!(snapshot_includes(guid(), 1));
    assert!(!snapshot_includes(guid(), 0));
}

#[test]
fn written_settings_come_back_as_they_were_meant() {
    let v4 = vec!["127.0.0.1", "192.0.2.53", "0.0.0.0", "255.255.255.255"];
    let v6 = vec![
        "::1",
        "::",
        "2001:db8::53",
        "1:0:0:2::3",
        "1:2:3:4:5:6:7:8",
        "::ffff:192.0.2.1",
        "1:0:2:0:3:0:4:0",
    ];
    for (texts, family) in [(v4, DnsFamily::Ipv4), (v6, DnsFamily::Ipv6)] {
        let setting = DnsSetting::Static {
            servers: texts.iter().map(|text| ip(text)).collect(),
        };
        let written = set_setting(&setting, family).unwrap();
        assert_eq!(written, texts.join(" "));
        assert_eq!(decode_settings(Some(units(&written)), family), Ok(setting));
    }
    let written = set_setting(&DnsSetting::Automatic, DnsFamily::Ipv4).unwrap();
    assert_eq!(
        decode_settings(Some(units(&written)), DnsFamily::Ipv4),
        Ok(DnsSetting::Automatic)
    );
    // A list without servers can not be told from an automatic setting.
    let none = DnsSetting::Static { servers: vec![] };
    assert_eq!(set_setting(&none, DnsFamily::Ipv4).unwrap(), "");
}
