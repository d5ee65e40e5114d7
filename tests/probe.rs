use energymon::error::MeterError;
use energymon::probe::{
    baud_ack, baud_rate_from_char, check_identification, init_sequence, parse_baud_char,
    serial_parameters, usb_candidates, BaudSwitch, Parity, ProbeOutcome, ProbeStep, Prober,
};

#[test]
fn baud_rate_char_mapping() {
    assert_eq!(baud_rate_from_char('0'), Some(300));
    assert_eq!(baud_rate_from_char('1'), Some(600));
    assert_eq!(baud_rate_from_char('2'), Some(1200));
    assert_eq!(baud_rate_from_char('3'), Some(2400));
    assert_eq!(baud_rate_from_char('4'), Some(4800));
    assert_eq!(baud_rate_from_char('5'), Some(9600));
    assert_eq!(baud_rate_from_char('6'), Some(19200));
    assert_eq!(baud_rate_from_char('7'), None);
    assert_eq!(baud_rate_from_char('A'), None);
}

#[test]
fn parse_baud_char_from_identification() {
    // ISk5MT174-0001: vendor=ISk, baud char=5 (9600)
    assert_eq!(parse_baud_char("/ISk5MT174-0001"), Some('5'));
    assert_eq!(parse_baud_char("ISk5MT174-0001"), Some('5'));
}

#[test]
fn parse_baud_char_different_rates() {
    assert_eq!(parse_baud_char("/ABC0Model"), Some('0'));
    assert_eq!(parse_baud_char("/XYZ6Model"), Some('6'));
}

#[test]
fn parse_baud_char_too_short() {
    assert_eq!(parse_baud_char("/AB"), None);
    assert_eq!(parse_baud_char(""), None);
}

#[test]
fn identification_negotiates_higher_rate() {
    let id = check_identification("/ISk5MT174-0001\r\n", "ISk5MT174").unwrap();
    assert_eq!(id.device_id, "ISk5MT174-0001");
    assert_eq!(id.switch, Some(BaudSwitch { baud_char: '5', rate: 9600 }));
}

#[test]
fn identification_at_starting_rate_skips_negotiation() {
    let id = check_identification("/ABC0Model", "ABC").unwrap();
    assert_eq!(id.device_id, "ABC0Model");
    assert_eq!(id.switch, None);
}

#[test]
fn identification_with_unmapped_char_skips_negotiation() {
    let id = check_identification("/ABC9Model", "Model").unwrap();
    assert_eq!(id.switch, None);
    let id = check_identification("/ABCxModel", "Model").unwrap();
    assert_eq!(id.switch, None);
}

#[test]
fn identification_of_other_device_rejected() {
    let r = check_identification("/XYZ5OTHER-1\r\n", "ISk5MT174");
    assert!(matches!(r, Err(MeterError::HandshakeRejected)));
}

#[test]
fn wire_bytes() {
    assert_eq!(init_sequence(), vec![0x2F, 0x3F, 0x21, 0x0D, 0x0A]);
    assert_eq!(baud_ack('5'), vec![0x06, b'0', b'5', b'0', b'\r', b'\n']);
}

#[test]
fn serial_parameters_are_fixed() {
    let p = serial_parameters(3000);
    assert_eq!(p.baud_rate, 300);
    assert_eq!(p.data_bits, 7);
    assert_eq!(p.parity, Parity::Even);
    assert_eq!(p.stop_bits, 1);
    assert_eq!(p.timeout_millis, 3000);
}

#[test]
fn usb_candidates_keep_order() {
    let names = vec![
        "/dev/ttyS0".to_string(),
        "/dev/ttyUSB1".to_string(),
        "/dev/ttyACM0".to_string(),
        "/dev/ttyUSB0".to_string(),
    ];
    let c = usb_candidates(&names).unwrap();
    assert_eq!(c, vec!["/dev/ttyUSB1".to_string(), "/dev/ttyUSB0".to_string()]);
}

#[test]
fn no_usb_ports_is_no_candidates() {
    let names = vec!["/dev/ttyS0".to_string()];
    assert!(matches!(usb_candidates(&names), Err(MeterError::NoCandidatePorts)));
    assert!(matches!(Prober::new(&Vec::new()), Err(MeterError::NoCandidatePorts)));
}

#[test]
fn prober_tries_each_candidate_then_gives_up() {
    let names = vec!["/dev/ttyUSB0".to_string(), "/dev/ttyS1".to_string(), "/dev/ttyUSB3".to_string()];
    let mut p = Prober::new(&names).unwrap();
    assert_eq!(p.next_candidate().unwrap(), "/dev/ttyUSB0");
    assert_eq!(p.next_candidate().unwrap(), "/dev/ttyUSB3");
    assert!(matches!(p.next_candidate(), Err(MeterError::DeviceNotFound { attempted: 2 })));
}

#[test]
fn prober_stops_at_first_confirmed() {
    let names = vec!["/dev/ttyUSB0".to_string(), "/dev/ttyUSB1".to_string(), "/dev/ttyUSB2".to_string()];
    let mut p = Prober::new(&names).unwrap();
    assert!(matches!(p.start(), ProbeStep::Try { ref name } if name == "/dev/ttyUSB0"));
    assert!(matches!(p.after(ProbeOutcome::Failed), ProbeStep::Try { ref name } if name == "/dev/ttyUSB1"));
    assert!(matches!(p.after(ProbeOutcome::Confirmed), ProbeStep::Found));
}

#[test]
fn prober_gives_up_with_count() {
    let names = vec!["/dev/ttyUSB0".to_string()];
    let mut p = Prober::new(&names).unwrap();
    assert!(matches!(p.start(), ProbeStep::Try { .. }));
    assert!(matches!(
        p.after(ProbeOutcome::Rejected),
        ProbeStep::GiveUp { error: MeterError::DeviceNotFound { attempted: 1 } }
    ));
}
