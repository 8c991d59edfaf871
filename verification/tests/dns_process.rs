//! The companion: its commands, its answers and its life.

use vapour_protection::dns_manager::{
    encode_quiesce_command, encode_stop_command, engine_file_name, validation_config,
    verify_engine, wait_command_ack, wait_ready, wait_reload, write_pipe_bounded, Arrival,
    ChildState, CommandStep, ControlWrite, DnsProcessManager, LineStep, PipeStep, PipeWrite,
    ReadyStep, StartSpec, StatusLineReader, StopPhase, StopPlan, StopProgress,
    TransparentReloadError,
};
use vapour_protection::dns_process::{
    encode_flow_command, encode_reload_command, encode_start_command,
    encode_transparent_start_command, parse_scoped_ip, parse_scoped_socket_addr, ready_status, validate_config, validate_empty_status,
    validate_error_status, validate_listeners, validate_ready_status, validate_transparent_config,
    validate_transparent_listeners, validate_updated_status, wire_error, DnsProcessConfig,
    DnsProcessStatus, ScopedIp, ScopedSocketAddr, TransparentDnsConfig,
    TransparentFlowRegistration, UpstreamSlot, WireStatus, MAX_RULE_TEXT_BYTES,
    MAX_STATUS_LINE_BYTES,
};
use vapour_protection::net::ip_from_text;

fn wire(status: &str) -> WireStatus {
    WireStatus {
        status: status.to_owned(),
        error: None,
        udp_addr: None,
        tcp_addr: None,
        udp_addrs: None,
        tcp_addrs: None,
        rules_count: None,
        slots: None,
    }
}

#[test]
fn listener_readiness_requires_complete_requested_bindings() {
    let mut wire = wire("ready");
    wire.udp_addr = Some("127.0.0.1:5300".to_owned());
    wire.tcp_addr = Some("127.0.0.1:5300".to_owned());
    wire.udp_addrs = Some(vec!["127.0.0.1:5300".to_owned(), "[::1]:5300".to_owned()]);
    wire.tcp_addrs = Some(vec!["127.0.0.1:5300".to_owned(), "[::1]:5300".to_owned()]);
    wire.rules_count = Some(1);
    let status = ready_status(wire.clone()).unwrap();
    assert!(validate_listeners(&status, "127.0.0.1", 5300, true, "192.0.2.53:53").is_ok());
    assert!(validate_listeners(&status, "127.0.0.1", 53, true, "192.0.2.53:53").is_err());
    assert!(validate_listeners(&status, "127.0.0.1", 5300, true, "[::1]:5300").is_err());
    assert!(
        validate_listeners(&status, "127.0.0.1", 5300, true, "[::ffff:127.0.0.1]:5300").is_err()
    );
    let mut missing = status.clone();
    missing.tcp_addrs.pop();
    assert!(validate_listeners(&missing, "127.0.0.1", 5300, true, "192.0.2.53:53").is_err());
    let mut duplicate = status;
    duplicate.udp_addrs[1] = duplicate.udp_addrs[0].clone();
    assert!(validate_listeners(&duplicate, "127.0.0.1", 5300, true, "192.0.2.53:53").is_err());
    let mut wrong_primary = wire;
    wrong_primary.udp_addr = Some("127.0.0.1:5301".to_owned());
    assert!(ready_status(wrong_primary).is_err());
}

#[test]
fn legacy_single_listener_readiness_cannot_claim_dual_stack() {
    let mut wire = wire("ready");
    wire.udp_addr = Some("127.0.0.1:5300".to_owned());
    wire.tcp_addr = Some("127.0.0.1:5301".to_owned());
    let status = ready_status(wire).unwrap();
    assert!(validate_listeners(&status, "", 0, false, "192.0.2.53:53").is_ok());
    assert!(validate_listeners(&status, "", 0, true, "192.0.2.53:53").is_err());
}

#[test]
fn rejects_hostname_upstream_before_creating_appdata() {
    let result = StartSpec::Legacy(DnsProcessConfig {
        upstream: "resolver.example.test:53".to_owned(),
        listen_address: "127.0.0.1".to_owned(),
        listen_port: 0,
        dual_stack: false,
        rules: String::new(),
    })
    .launch();
    assert!(result
        .expect_err("hostname upstream must be rejected")
        .contains("explicit IP"));
}

#[test]
fn reload_command_is_bounded_before_state_access() {
    let command = encode_reload_command("||ads.example^").expect("small reload command");
    assert!(command.ends_with(b"\n"));
    assert!(serde_json::from_slice::<serde_json::Value>(&command[..command.len() - 1]).is_ok());
    assert!(encode_reload_command(&"x".repeat(MAX_RULE_TEXT_BYTES + 1)).is_err());
}

#[test]
fn transparent_start_and_flow_commands_preserve_scoped_wire_shape() {
    let config = TransparentDnsConfig {
        listen_addresses: vec!["127.0.0.1".to_owned(), "fe80::1%3".to_owned()],
        listen_port: 0,
        rules: "||ads.example^".to_owned(),
    };
    validate_transparent_config(&config).expect("valid transparent config");
    let start = encode_transparent_start_command(&config).expect("encode transparent start");
    let start: serde_json::Value = serde_json::from_slice(&start[..start.len() - 1]).unwrap();
    assert_eq!(start["op"], "start");
    assert_eq!(start["config"]["transparent"], true);
    assert_eq!(start["config"]["listen_addresses"][1], "fe80::1%3");

    let flow = TransparentFlowRegistration {
        protocol: "udp".to_owned(),
        peer: "192.0.2.10:53000".to_owned(),
        local: "127.0.0.1:5300".to_owned(),
        resolver: "192.0.2.53:53".to_owned(),
        slot: 7,
        lifetime_ms: 120_000,
    };
    let command = encode_flow_command("register", &flow).expect("encode flow command");
    let command: serde_json::Value =
        serde_json::from_slice(&command[..command.len() - 1]).unwrap();
    assert_eq!(command["op"], "register");
    assert_eq!(command["flow"]["slot"], 7);
    assert_eq!(command["flow"]["lifetime_ms"], 120_000u64);
}

#[test]
fn command_ack_shapes_reject_unexpected_known_fields() {
    let empty = |status: &str| WireStatus {
        status: status.to_owned(),
        error: None,
        udp_addr: None,
        tcp_addr: None,
        udp_addrs: None,
        tcp_addrs: None,
        rules_count: None,
        slots: None,
    };

    let mut registered = empty("registered");
    validate_empty_status(&registered, "register").expect("bare register ack");
    registered.rules_count = Some(1);
    assert!(validate_empty_status(&registered, "register").is_err());

    let mut rejected = empty("error");
    rejected.error = Some("flow is not registered".to_owned());
    validate_error_status(&rejected, "release").expect("bare error ack");
    rejected.slots = Some(Vec::new());
    assert!(validate_error_status(&rejected, "release").is_err());

    let mut updated = empty("updated");
    updated.rules_count = Some(2);
    validate_updated_status(&updated).expect("rules-only reload ack");
    updated.tcp_addr = Some("127.0.0.1:53".to_owned());
    assert!(validate_updated_status(&updated).is_err());
}

#[test]
fn transparent_readiness_requires_exact_zones_and_eight_distinct_slots() {
    let config = TransparentDnsConfig {
        listen_addresses: vec!["fe80::1%3".to_owned()],
        listen_port: 5300,
        rules: String::new(),
    };
    let slots = (0..8)
        .map(|id| UpstreamSlot {
            id,
            udp_addr: format!("[fe80::1%3]:{}", 42000 + id),
            tcp_addr: format!("[fe80::1%3]:{}", 43000 + id),
        })
        .collect();
    let status = DnsProcessStatus {
        udp_addr: "[fe80::1%3]:5300".to_owned(),
        tcp_addr: "[fe80::1%3]:5300".to_owned(),
        udp_addrs: vec!["[fe80::1%3]:5300".to_owned()],
        tcp_addrs: vec!["[fe80::1%3]:5300".to_owned()],
        rules_count: 0,
        slots,
    };
    validate_transparent_listeners(&status, &config).expect("exact scoped readiness");

    let mut wrong_zone = status.clone();
    wrong_zone.udp_addrs[0] = "[fe80::1%4]:5300".to_owned();
    assert!(validate_transparent_listeners(&wrong_zone, &config).is_err());

    let mut missing_slot = status.clone();
    missing_slot.slots.pop();
    assert!(validate_transparent_listeners(&missing_slot, &config).is_err());

    let mut overlapping = status;
    overlapping.slots[0].udp_addr = "[fe80::1%3]:5300".to_owned();
    assert!(validate_transparent_listeners(&overlapping, &config).is_err());
}

#[test]
fn transparent_config_rejects_wildcards_bad_zones_and_reserved_port() {
    for config in [
        TransparentDnsConfig {
            listen_addresses: vec!["0.0.0.0".to_owned()],
            listen_port: 0,
            rules: String::new(),
        },
        TransparentDnsConfig {
            listen_addresses: vec!["127.0.0.1%3".to_owned()],
            listen_port: 0,
            rules: String::new(),
        },
        TransparentDnsConfig {
            listen_addresses: vec!["::1%3".to_owned()],
            listen_port: 0,
            rules: String::new(),
        },
        TransparentDnsConfig {
            listen_addresses: vec!["::ffff:127.0.0.1".to_owned()],
            listen_port: 0,
            rules: String::new(),
        },
        TransparentDnsConfig {
            listen_addresses: vec!["fe80::1".to_owned()],
            listen_port: 0,
            rules: String::new(),
        },
        TransparentDnsConfig {
            listen_addresses: vec!["fe80::1%0".to_owned()],
            listen_port: 0,
            rules: String::new(),
        },
        TransparentDnsConfig {
            listen_addresses: vec!["fe80::1%Ethernet".to_owned()],
            listen_port: 0,
            rules: String::new(),
        },
        TransparentDnsConfig {
            listen_addresses: vec!["127.0.0.1".to_owned()],
            listen_port: 53,
            rules: String::new(),
        },
    ] {
        assert!(validate_transparent_config(&config).is_err());
    }
}

fn transparent_config() -> TransparentDnsConfig {
    TransparentDnsConfig {
        listen_addresses: vec!["127.0.0.1".to_owned()],
        listen_port: 0,
        rules: String::new(),
    }
}

fn transparent_status() -> DnsProcessStatus {
    DnsProcessStatus {
        udp_addr: "127.0.0.1:5300".to_owned(),
        tcp_addr: "127.0.0.1:5300".to_owned(),
        udp_addrs: vec!["127.0.0.1:5300".to_owned()],
        tcp_addrs: vec!["127.0.0.1:5300".to_owned()],
        rules_count: 4,
        slots: (0..8)
            .map(|id| UpstreamSlot {
                id,
                udp_addr: format!("127.0.0.1:{}", 42000 + id),
                tcp_addr: format!("127.0.0.1:{}", 43000 + id),
            })
            .collect(),
    }
}

fn legacy_status() -> DnsProcessStatus {
    let mut status = transparent_status();
    status.slots = Vec::new();
    status
}

fn flow() -> TransparentFlowRegistration {
    TransparentFlowRegistration {
        protocol: "udp".to_owned(),
        peer: "192.0.2.10:53000".to_owned(),
        local: "127.0.0.1:5300".to_owned(),
        resolver: "192.0.2.53:53".to_owned(),
        slot: 0,
        lifetime_ms: 120_000,
    }
}

fn line(status: WireStatus) -> Arrival {
    Arrival::Line {
        length: 40,
        status: Ok(status),
    }
}

#[test]
fn commands_are_one_line_of_json() {
    let start = encode_start_command(&DnsProcessConfig {
        upstream: "192.0.2.53:53".to_owned(),
        listen_address: "127.0.0.1".to_owned(),
        listen_port: 5300,
        dual_stack: true,
        rules: "a\n\"b\"".to_owned(),
    })
    .unwrap();
    assert_eq!(start[start.len() - 1], b'\n');
    let start: serde_json::Value = serde_json::from_slice(&start[..start.len() - 1]).unwrap();
    assert_eq!(start["op"], "start");
    assert_eq!(start["config"]["upstream"], "192.0.2.53:53");
    assert_eq!(start["config"]["listen_port"], 5300);
    assert_eq!(start["config"]["dual_stack"], true);
    assert_eq!(start["config"]["rules"], "a\n\"b\"");

    let reload = encode_reload_command("tab\there\u{1}").unwrap();
    let reload: serde_json::Value = serde_json::from_slice(&reload[..reload.len() - 1]).unwrap();
    assert_eq!(reload["op"], "reload");
    assert_eq!(reload["rules"], "tab\there\u{1}");

    let quoted = encode_reload_command("a\"b\\c\n\r\t\u{8}\u{c}\u{1}é/").unwrap();
    assert_eq!(
        String::from_utf8(quoted).unwrap(),
        "{\"op\":\"reload\",\"rules\":\"a\\\"b\\\\c\\n\\r\\t\\b\\f\\u0001é/\"}\n"
    );

    assert_eq!(encode_quiesce_command(), b"{\"op\":\"quiesce\"}\n".to_vec());
    assert_eq!(encode_stop_command(), b"{\"op\":\"stop\"}\n".to_vec());
}

#[test]
fn addresses_are_written_with_their_zone() {
    let ip = ip_from_text("fe80::1").unwrap();
    assert_eq!(ScopedIp { ip, zone: 3 }.canonical_text(), "fe80::1%3");
    assert_eq!(ScopedIp { ip, zone: 0 }.canonical_text(), "fe80::1");
    let endpoint = ScopedSocketAddr {
        ip: ScopedIp { ip, zone: 3 },
        port: 53,
    };
    assert_eq!(endpoint.canonical_text(), "[fe80::1%3]:53");
}

#[test]
fn configurations_are_checked_before_they_are_used() {
    let config = DnsProcessConfig {
        upstream: "192.0.2.53:53".to_owned(),
        listen_address: "127.0.0.1".to_owned(),
        listen_port: 0,
        dual_stack: false,
        rules: String::new(),
    };
    assert!(validate_config(&config).is_ok());
    let mut remote = config.clone();
    remote.listen_address = "192.0.2.1".to_owned();
    assert!(validate_config(&remote).is_err());
    let mut large = config;
    large.rules = "x".repeat(MAX_RULE_TEXT_BYTES + 1);
    assert!(validate_config(&large).is_err());
    assert!(validation_config(&large.rules).is_err());
    assert_eq!(validation_config("||ads.example^").unwrap().rules, "||ads.example^");
}

#[test]
fn a_companion_becomes_ready_or_says_why_not() {
    let mut ready = wire("ready");
    ready.udp_addr = Some("127.0.0.1:5300".to_owned());
    ready.tcp_addr = Some("127.0.0.1:5300".to_owned());
    assert!(validate_ready_status(&ready).is_ok());
    match wait_ready(line(ready.clone())) {
        ReadyStep::Ready(status) => assert_eq!(status.udp_addrs, vec!["127.0.0.1:5300"]),
        other => panic!("expected readiness: {other:?}"),
    }
    ready.error = Some("but".to_owned());
    assert!(matches!(wait_ready(line(ready)), ReadyStep::Failed(_)));

    let mut failed = wire("error");
    failed.error = Some("no port".to_owned());
    assert_eq!(wire_error(&failed), "no port");
    assert!(matches!(
        wait_ready(line(failed)),
        ReadyStep::Failed(message) if message.contains("no port")
    ));
    assert_eq!(
        wait_ready(line(wire("stopped"))),
        ReadyStep::Failed("DNS proxy stopped before becoming ready".to_owned())
    );
    assert_eq!(
        wait_ready(line(wire("odd"))),
        ReadyStep::Failed("DNS proxy reported unsupported status \"odd\"".to_owned())
    );
    assert_eq!(
        wait_ready(Arrival::Line {
            length: 7,
            status: Err("bad".to_owned())
        }),
        ReadyStep::Failed("invalid DNS proxy status JSON (7 bytes): bad".to_owned())
    );
    assert_eq!(wait_ready(Arrival::Quiet(ChildState::Running)), ReadyStep::Wait);
    assert_eq!(
        wait_ready(Arrival::Quiet(ChildState::Exited(3))),
        ReadyStep::Failed("DNS proxy exited before becoming ready (3)".to_owned())
    );
    assert_eq!(
        wait_ready(Arrival::TimedOut),
        ReadyStep::Failed("DNS proxy did not become ready within 10 seconds".to_owned())
    );
}

#[test]
fn a_reload_changes_only_the_number_of_rules() {
    let mut updated = wire("updated");
    updated.rules_count = Some(9);
    match wait_reload(&Some(transparent_status()), line(updated.clone())) {
        CommandStep::Updated(status) => {
            let mut expected = transparent_status();
            expected.rules_count = 9;
            assert_eq!(status, expected);
        }
        other => panic!("expected an update: {other:?}"),
    }
    assert_eq!(
        wait_reload(&None, line(updated)),
        CommandStep::Uncertain("DNS proxy reload succeeded before a ready status".to_owned())
    );
    let mut rejected = wire("error");
    rejected.error = Some("bad rule".to_owned());
    assert_eq!(
        wait_reload(&Some(transparent_status()), line(rejected)),
        CommandStep::Rejected("DNS proxy rejected rule reload: bad rule".to_owned())
    );
    assert_eq!(
        wait_reload(&Some(transparent_status()), Arrival::TimedOut),
        CommandStep::Uncertain("DNS proxy reload did not respond within 10 seconds".to_owned())
    );
}

#[test]
fn a_flow_command_is_acknowledged_by_its_own_status() {
    assert_eq!(
        wait_command_ack("register", "registered", 2, line(wire("registered"))),
        CommandStep::Acknowledged
    );
    assert_eq!(
        wait_command_ack("register", "registered", 2, line(wire("released"))),
        CommandStep::Uncertain(
            "DNS proxy reported unsupported register flow status \"released\"".to_owned()
        )
    );
    let mut rejected = wire("error");
    rejected.error = Some("full".to_owned());
    assert_eq!(
        wait_command_ack("register", "registered", 2, line(rejected)),
        CommandStep::Rejected("DNS proxy rejected register flow: full".to_owned())
    );
    assert_eq!(
        wait_command_ack("register", "registered", 2, Arrival::TimedOut),
        CommandStep::Uncertain(
            "DNS proxy register command did not respond within 2 seconds".to_owned()
        )
    );
}

#[test]
fn an_uncertain_owner_is_kept_and_not_asked_again() {
    let mut manager = DnsProcessManager::new();
    assert_eq!(manager.start(ChildState::Running), Ok(false));
    manager.started(transparent_status());
    let command = manager.flow_command("register", &flow()).unwrap();
    assert!(command.transparent);
    assert_eq!(command.bytes, encode_flow_command("register", &flow()).unwrap());

    let mut malformed = wire("registered");
    malformed.rules_count = Some(1);
    let step = wait_command_ack("register", "registered", 2, line(malformed));
    let settled = manager.settle(step);
    assert!(settled.failure.is_some());
    assert!(!settled.terminate);

    let retry = manager.flow_command("register", &flow()).unwrap_err();
    assert!(retry.contains("uncertain"), "{retry}");
    assert!(matches!(
        manager.reload_transparent("||ads.example^"),
        Err(TransparentReloadError::Uncertain(_))
    ));
    assert!(manager.start(ChildState::Running).is_err());
    assert_eq!(
        manager.status(ChildState::Running),
        Ok(Some(transparent_status()))
    );
    assert_eq!(manager.stop(), StopPlan::Terminate);
    assert_eq!(manager.stop(), StopPlan::Nothing);
}

#[test]
fn rejected_rules_leave_the_companion_usable() {
    let mut manager = DnsProcessManager::new();
    manager.started(transparent_status());
    assert!(matches!(
        manager.reload_transparent(&"x".repeat(MAX_RULE_TEXT_BYTES + 1)),
        Err(TransparentReloadError::Rejected(_))
    ));
    let settled = manager.settle(CommandStep::Rejected("bad rule".to_owned()));
    assert_eq!(settled.failure, Some("bad rule".to_owned()));
    assert!(manager.reload_transparent("||ads.example^").is_ok());
    assert_eq!(manager.current(), Some(transparent_status()));
    assert_eq!(manager.stop(), StopPlan::Ask);
}

#[test]
fn an_uncertain_companion_without_slots_is_ended() {
    let mut manager = DnsProcessManager::new();
    manager.started(legacy_status());
    assert!(!manager.reload("||ads.example^").unwrap().transparent);
    assert!(matches!(
        manager.reload_transparent("||ads.example^"),
        Err(TransparentReloadError::Uncertain(_))
    ));
    assert_eq!(
        manager.quiesce(),
        Err("quiesce requires a transparent DNS companion".to_owned())
    );
    let settled = manager.settle(CommandStep::Uncertain("lost".to_owned()));
    assert!(settled.terminate);
    assert_eq!(manager.current(), None);
}

#[test]
fn quiescence_is_doubtful_until_it_is_acknowledged() {
    let mut manager = DnsProcessManager::new();
    assert_eq!(manager.quiesce(), Err("DNS proxy is not running".to_owned()));
    manager.started(transparent_status());
    assert_eq!(manager.quiesce(), Ok(true));
    assert!(manager.quiesce().unwrap_err().contains("uncertain"));
    assert_eq!(manager.quiesced(CommandStep::Acknowledged), Ok(()));
    assert_eq!(manager.quiesce(), Ok(false));
    assert!(manager.flow_command("register", &flow()).is_err());
    assert_eq!(manager.stop(), StopPlan::Ask);

    manager.started(transparent_status());
    assert_eq!(manager.quiesce(), Ok(true));
    assert_eq!(
        manager.quiesced(CommandStep::Uncertain("lost".to_owned())),
        Err("lost".to_owned())
    );
    assert_eq!(manager.stop(), StopPlan::Terminate);
}

#[test]
fn a_dead_transparent_companion_needs_an_explicit_stop() {
    let mut manager = DnsProcessManager::new();
    manager.started(transparent_status());
    assert_eq!(
        manager.status(ChildState::Exited(5)),
        Err("DNS proxy stopped unexpectedly (5)".to_owned())
    );
    assert!(manager.start(ChildState::Exited(5)).is_err());
    assert_eq!(manager.stop(), StopPlan::Terminate);
    assert_eq!(manager.start(ChildState::Running), Ok(false));

    manager.started(legacy_status());
    assert_eq!(manager.start(ChildState::Exited(5)), Ok(true));
}

#[test]
fn a_control_writer_is_never_doubled() {
    let mut manager = DnsProcessManager::new();
    manager.started(transparent_status());
    assert_eq!(manager.begin_control_write(), Ok(()));
    assert_eq!(
        manager.end_control_write("quiesce", ControlWrite::TimedOut),
        Err("quiesce is uncertain: writer deadline expired".to_owned())
    );
    assert_eq!(
        manager.begin_control_write(),
        Err("DNS proxy control writer is already pending".to_owned())
    );
    assert_eq!(manager.stop(), StopPlan::Terminate);
}

#[test]
fn a_stop_succeeds_only_once_the_process_is_gone() {
    let mut stop = StopProgress::begin(Ok(()));
    assert_eq!(stop.phase(), StopPhase::Listening);
    stop.arrive(line(wire("stopped")));
    assert_eq!(stop.phase(), StopPhase::Exiting);
    stop.poll(ChildState::Running, false);
    assert_eq!(stop.phase(), StopPhase::Exiting);
    stop.poll(ChildState::Exited(0), false);
    assert_eq!(stop.phase(), StopPhase::Finished);
    assert_eq!(stop.finish(), (false, Ok(())));

    let mut late = StopProgress::begin(Ok(()));
    late.arrive(line(wire("stopped")));
    late.poll(ChildState::Running, true);
    let (terminate, result) = late.finish();
    assert!(terminate);
    assert!(result.is_err());
}

#[test]
fn status_lines_are_bounded() {
    let mut reader = StatusLineReader::new();
    assert_eq!(reader.read(None), LineStep::End);
    for byte in b"{}" {
        assert_eq!(reader.read(Some(*byte)), LineStep::More);
    }
    assert_eq!(reader.read(Some(b'\n')), LineStep::Line(b"{}".to_vec()));
    assert_eq!(reader.read(Some(b'x')), LineStep::More);
    assert_eq!(reader.read(None), LineStep::Unterminated);

    let mut long = StatusLineReader::new();
    let mut last = LineStep::More;
    for _ in 0..MAX_STATUS_LINE_BYTES + 1 {
        last = long.read(Some(b'x'));
        if last != LineStep::More {
            break;
        }
    }
    assert_eq!(last, LineStep::TooLong);
}

#[test]
fn bounded_writes_say_whether_to_end_the_process() {
    assert_eq!(write_pipe_bounded("write", PipeWrite::Written), PipeStep::Written);
    assert_eq!(
        write_pipe_bounded("write", PipeWrite::Quiet(ChildState::Running)),
        PipeStep::Wait
    );
    assert_eq!(
        write_pipe_bounded("write", PipeWrite::TimedOut),
        PipeStep::Failed {
            message: "write exceeded its deadline".to_owned(),
            terminate: true
        }
    );
}

#[test]
fn start_specs_check_what_they_get() {
    let spec = StartSpec::Transparent(transparent_config());
    assert_eq!(
        spec.launch(),
        encode_transparent_start_command(&transparent_config())
    );
    assert_eq!(spec.validate_ready(&transparent_status()), Ok(()));
    assert!(spec.validate_ready(&legacy_status()).is_err());
}

#[test]
fn the_engine_is_named_and_known_by_its_digest() {
    assert_eq!(
        engine_file_name(b"abc"),
        "vapour-dnsproxy-ba7816bf8f01cfea414140de5dae2223b00361a396177a9cb410ff61f20015ad.exe"
    );
    assert_eq!(verify_engine(b"abc", 3, b"abc"), Ok(()));
    assert!(verify_engine(b"abc", 3, b"abd").is_err());
    assert!(verify_engine(b"abc", 4, b"abc").is_err());
}

#[test]
fn canonical_texts_are_read_back_with_their_interface() {
    for (address, zone, text) in [
        ("192.0.2.10", 0, "192.0.2.10"),
        ("fe80::1", 12, "fe80::1%12"),
        ("fe80::1", u32::MAX, "fe80::1%4294967295"),
        ("2001:db8::53", 0, "2001:db8::53"),
    ] {
        let ip = ScopedIp {
            ip: ip_from_text(address).unwrap(),
            zone,
        };
        assert_eq!(ip.canonical_text(), text);
        assert_eq!(parse_scoped_ip(text), Ok(ip));
        for port in [0, 53, u16::MAX] {
            let endpoint = ScopedSocketAddr { ip, port };
            let written = endpoint.canonical_text();
            assert_eq!(parse_scoped_socket_addr(&written), Ok(endpoint));
        }
    }
    assert!(parse_scoped_ip("::ffff:192.0.2.1").is_err());
    assert!(parse_scoped_ip("fe80::1%0").is_err());
    assert!(parse_scoped_socket_addr("fe80::1:53").is_err());
}

#[test]
fn every_command_is_one_line() {
    let odd = "||ads.example^\n\r\n\u{2028}\"\\\u{0}".to_owned();
    let config = DnsProcessConfig {
        upstream: odd.clone(),
        listen_address: odd.clone(),
        listen_port: 0,
        dual_stack: true,
        rules: odd.clone(),
    };
    let transparent = TransparentDnsConfig {
        listen_addresses: vec![odd.clone(), odd.clone()],
        listen_port: 5353,
        rules: odd.clone(),
    };
    let flow = TransparentFlowRegistration {
        protocol: odd.clone(),
        peer: odd.clone(),
        local: odd.clone(),
        resolver: odd.clone(),
        slot: 3,
        lifetime_ms: 120_000,
    };
    for bytes in [
        encode_start_command(&config).unwrap(),
        encode_transparent_start_command(&transparent).unwrap(),
        encode_reload_command(&odd).unwrap(),
        encode_flow_command("register", &flow).unwrap(),
        encode_quiesce_command(),
        encode_stop_command(),
    ] {
        assert_eq!(bytes.iter().filter(|byte| **byte == b'\n').count(), 1);
        assert_eq!(bytes.last(), Some(&b'\n'));
    }
}
