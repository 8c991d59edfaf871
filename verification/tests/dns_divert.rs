//! What the capture driver is asked, and what it answers.

use vapour_protection::dns_divert::{
    check_receive_buffer, filter_compiled, handle_opened, native_error, queue_parameters, receive,
    validate_filter, Address, Injection, InjectionAction, InjectionEvent, Opening, OpeningAction,
    OpeningEvent, MAX_FILTER_BYTES,
};
use vapour_protection::dns_session::MAX_PACKET_BYTES;

/// A driver that counts what it is told to do.
#[derive(Default)]
struct Driver {
    sends: usize,
    short_send: bool,
    checksum_failure: bool,
    fail_param: Option<i32>,
    parameters: Vec<(i32, u64)>,
    opens: usize,
    closes: usize,
}

impl Driver {
    fn open(&mut self, accepted: bool, handle: usize) -> Result<(), String> {
        let (mut opening, mut action) = Opening::open();
        loop {
            let event = match action {
                OpeningAction::CompileFilter => OpeningEvent::Compiled {
                    accepted,
                    position: 9,
                    message: None,
                },
                OpeningAction::Open => {
                    self.opens += 1;
                    OpeningEvent::Opened { handle, code: 5 }
                }
                OpeningAction::Configure { parameter, value } => {
                    self.parameters.push((parameter, value));
                    OpeningEvent::Configured(if self.fail_param == Some(parameter) {
                        Err(87)
                    } else {
                        Ok(())
                    })
                }
                OpeningAction::Close => {
                    self.closes += 1;
                    OpeningEvent::Closed
                }
                OpeningAction::Finish => return opening.outcome(),
            };
            action = opening.step(event);
        }
    }

    fn inject(
        &mut self,
        (mut injection, mut action): (Injection, InjectionAction),
        packet: &[u8],
        address: Address,
    ) -> Result<(), String> {
        loop {
            let event = match action {
                InjectionAction::ComputeChecksums => InjectionEvent::Checksums {
                    computed: !self.checksum_failure,
                    address,
                },
                InjectionAction::Inject => {
                    self.sends += 1;
                    InjectionEvent::Injected {
                        accepted: true,
                        code: 0,
                        sent: packet.len() as u32 - u32::from(self.short_send),
                    }
                }
                InjectionAction::Finish => return injection.outcome(),
            };
            action = injection.step(event);
        }
    }

    fn reinject(&mut self, packet: &[u8], address: &Address) -> Result<(), String> {
        self.inject(Injection::reinject(packet.len(), address), packet, *address)
    }

    fn send_modified(&mut self, packet: &[u8], address: &Address) -> Result<(), String> {
        self.inject(Injection::send_modified(packet, address), packet, *address)
    }
}

#[test]
fn malformed_receive_short_send_and_checksum_failure_are_not_success() {
    assert!(validate_filter("udp").is_ok());
    let mut driver = Driver::default();
    let address = Address::default();
    assert!(check_receive_buffer(10).is_err());
    assert!(check_receive_buffer(MAX_PACKET_BYTES).is_ok());
    assert!(receive(true, 0, MAX_PACKET_BYTES as u32 + 1, &address).is_err());
    assert!(receive(true, 0, 0, &address).is_err());
    assert_eq!(receive(true, 0, 28, &address).unwrap().unwrap(), 28);
    assert!(driver.reinject(&[], &address).is_err());
    driver.short_send = true;
    assert!(driver.reinject(&[1, 2], &address).is_err());
    driver.short_send = false;
    let mut packet = vec![0; 28];
    packet[0] = 0x45;
    packet[2..4].copy_from_slice(&28u16.to_be_bytes());
    packet[9] = 17;
    packet[24..26].copy_from_slice(&8u16.to_be_bytes());
    driver.checksum_failure = true;
    assert!(driver.send_modified(&packet, &address).is_err());
    assert_eq!(driver.sends, 1);
    driver.checksum_failure = false;
    driver.send_modified(&packet, &address).unwrap();
    assert_eq!(driver.sends, 2);
}

#[test]
fn nothing_is_sent_without_checksums_or_on_another_layer() {
    let mut driver = Driver::default();
    let address = Address::default();
    assert_eq!(
        driver.send_modified(&[0x45], &address),
        Err("Invalid modified DNS packet".to_owned())
    );
    let mut packet = vec![0; 28];
    packet[0] = 0x45;
    packet[2..4].copy_from_slice(&28u16.to_be_bytes());
    packet[9] = 17;
    packet[24..26].copy_from_slice(&8u16.to_be_bytes());
    let mut other = address;
    other.bits = 1;
    assert_eq!(
        driver.send_modified(&packet, &other),
        Err("Invalid DNS injection layer".to_owned())
    );
    assert_eq!(
        driver.reinject(&packet, &other),
        Err("Invalid DNS packet for injection".to_owned())
    );
    driver.checksum_failure = true;
    assert_eq!(
        driver.send_modified(&packet, &address),
        Err("DNS packet checksum calculation failed".to_owned())
    );
    assert_eq!(driver.sends, 0);
    driver.checksum_failure = false;
    driver.short_send = true;
    assert_eq!(
        driver.send_modified(&packet, &address),
        Err("Incomplete DNS packet injection".to_owned())
    );
    assert_eq!(driver.sends, 1);

    let (mut injection, action) = Injection::send_modified(&packet, &address);
    assert_eq!(action, InjectionAction::ComputeChecksums);
    assert_eq!(
        injection.step(InjectionEvent::Checksums {
            computed: true,
            address: other
        }),
        InjectionAction::Finish
    );
    assert_eq!(
        injection.outcome(),
        Err("Invalid DNS packet for injection".to_owned())
    );

    let (mut refused, action) = Injection::reinject(2, &address);
    assert_eq!(action, InjectionAction::Inject);
    assert_eq!(
        refused.step(InjectionEvent::Injected {
            accepted: false,
            code: 5,
            sent: 0
        }),
        InjectionAction::Finish
    );
    assert_eq!(
        refused.outcome(),
        Err("Could not inject DNS packet (5)".to_owned())
    );
}

#[test]
fn a_handle_that_is_not_configured_is_closed() {
    let mut driver = Driver::default();
    assert_eq!(driver.open(true, 8), Ok(()));
    assert_eq!(
        driver.parameters,
        [(0, 4096), (1, 2000), (2, 4 * 1024 * 1024)]
    );
    assert_eq!((driver.opens, driver.closes), (1, 0));
    let mut failing = Driver {
        fail_param: Some(1),
        ..Driver::default()
    };
    assert_eq!(
        failing.open(true, 8),
        Err("Could not configure DNS interception queue (87)".to_owned())
    );
    assert_eq!(failing.parameters.len(), 2);
    assert_eq!((failing.opens, failing.closes), (1, 1));
    let mut refused = Driver::default();
    assert!(refused.open(false, 8).is_err());
    assert_eq!((refused.opens, refused.closes), (0, 0));
    assert_eq!(
        refused.open(true, usize::MAX),
        Err("Could not open DNS interception (5)".to_owned())
    );
    assert_eq!((refused.opens, refused.closes), (1, 0));
}

#[test]
fn address_reversal_preserves_interface_and_driver_metadata() {
    let mut address = Address::default();
    address.bits = (1 << 17) | (1 << 19) | (1 << 20);
    address.data[..4].copy_from_slice(&7u32.to_ne_bytes());
    address.data[4..8].copy_from_slice(&3u32.to_ne_bytes());
    assert_eq!(std::mem::size_of::<Address>(), 80);
    assert!(address.outbound());
    address.set_outbound(false);
    assert!(!address.outbound());
    assert_eq!(address.interface(), (7, 3));
    assert_eq!(address.bits, (1 << 19) | (1 << 20));
    address.set_interface(11, 2);
    assert_eq!(address.interface(), (11, 2));
    assert_eq!(address.bits, (1 << 19) | (1 << 20));
}

#[test]
fn filter_input_rejects_empty_overlong_or_nul_before_loading_driver() {
    for filter in ["", "  ", "udp\0or tcp", &"x".repeat(MAX_FILTER_BYTES + 1)] {
        assert!(validate_filter(filter).is_err());
    }
    assert!(validate_filter("outbound and udp.DstPort == 53001").is_ok());
}

#[test]
fn the_driver_is_quoted() {
    assert_eq!(filter_compiled(true, 0, None), Ok(()));
    assert_eq!(
        filter_compiled(false, 9, Some("bad token".to_owned())),
        Err("Invalid DNS interception filter at 9: bad token".to_owned())
    );
    assert_eq!(
        filter_compiled(false, 9, None),
        Err("Invalid DNS interception filter at 9: unknown filter error".to_owned())
    );
    assert_eq!(
        native_error("open DNS interception", 5),
        "Could not open DNS interception (5)"
    );
    assert_eq!(handle_opened(8, 0), Ok(()));
    assert!(handle_opened(0, 5).is_err());
    assert!(handle_opened(usize::MAX, 5).is_err());
    assert_eq!(
        queue_parameters(),
        [(0, 4096), (1, 2000), (2, 4 * 1024 * 1024)]
    );
}

#[test]
fn an_ended_capture_has_no_more_packets() {
    let address = Address::default();
    assert_eq!(receive(false, 232, 0, &address), Ok(None));
    assert_eq!(
        receive(false, 5, 0, &address),
        Err("DNS interception receive failed (5)".to_owned())
    );
    let mut other = address;
    other.bits = 1;
    assert!(!other.is_network_packet());
    assert!(receive(true, 0, 28, &other).is_err());
}
