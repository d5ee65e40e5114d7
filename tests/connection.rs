use energymon::config::Config;
use energymon::decimal::Decimal;
use energymon::error::MeterError;
use energymon::protocol::{Action, Command, ConnPhase, Event, MeterConnection};

const AT: &str = "2024-05-01 12:00:00.000001";

fn line(s: &str) -> Event {
    Event::Line { text: s.to_string(), at: AT.to_string() }
}

fn expect_command(a: Action) -> Command {
    match a {
        Action::Perform { command } => command,
        other => panic!("expected a command, got {:?}", other),
    }
}

#[test]
fn full_cycle_with_baud_negotiation() {
    let mut c = MeterConnection::open("ISk5MT174");
    assert!(matches!(expect_command(c.step(Event::Begin)), Command::Sleep { millis: 1000 }));
    assert!(matches!(expect_command(c.step(Event::Done)), Command::ClearInput));
    match expect_command(c.step(Event::Done)) {
        Command::Write { bytes } => assert_eq!(bytes, vec![0x2F, 0x3F, 0x21, 0x0D, 0x0A]),
        other => panic!("unexpected {:?}", other),
    }
    assert!(matches!(expect_command(c.step(Event::Done)), Command::Sleep { millis: 500 }));
    assert!(matches!(expect_command(c.step(Event::Done)), Command::ReadLine));
    match expect_command(c.step(line("/ISk5MT174-0001\r\n"))) {
        Command::Write { bytes } => assert_eq!(bytes, vec![0x06, b'0', b'5', b'0', b'\r', b'\n']),
        other => panic!("unexpected {:?}", other),
    }
    assert!(matches!(expect_command(c.step(Event::Done)), Command::Sleep { millis: 300 }));
    assert!(matches!(expect_command(c.step(Event::Done)), Command::SetBaudRate { rate: 9600 }));
    assert!(matches!(expect_command(c.step(Event::Done)), Command::ReadLine));
    // a new cycle cannot start while this one reads
    assert!(matches!(c.step(Event::Begin), Action::Nothing));
    assert!(matches!(expect_command(c.step(line("1-0:32.7.0*255(231.3*V)\r\n"))), Command::ReadLine));
    assert!(matches!(expect_command(c.step(line("1-0:31.7.0*255(0.98*A)\r\n"))), Command::ReadLine));
    match c.step(line("!\r\n")) {
        Action::Deliver { reading } => {
            assert_eq!(reading.device_id, "ISk5MT174-0001");
            assert_eq!(reading.phase1_power, Some(Decimal { mantissa: 22667, scale: 2 }));
            assert_eq!(reading.timestamp, AT);
        },
        other => panic!("unexpected {:?}", other),
    }
    assert_eq!(c.phase, ConnPhase::Idle);
    assert_eq!(c.baud, 9600);
    // the next cycle goes back to 300 baud first
    assert!(matches!(expect_command(c.step(Event::Begin)), Command::Sleep { millis: 1000 }));
    assert!(matches!(expect_command(c.step(Event::Done)), Command::SetBaudRate { rate: 300 }));
    assert!(matches!(expect_command(c.step(Event::Done)), Command::ClearInput));
    assert_eq!(c.baud, 300);
}

#[test]
fn primed_connection_reads_at_once() {
    let mut c = MeterConnection::from_probe("ISk5MT174-0001", 9600);
    assert!(matches!(expect_command(c.step(Event::Begin)), Command::ReadLine));
    assert!(matches!(expect_command(c.step(line("1-0:14.7.0(50.03*Hz)"))), Command::ReadLine));
    match c.step(line("!")) {
        Action::Deliver { reading } => {
            assert_eq!(reading.device_id, "ISk5MT174-0001");
            assert_eq!(reading.frequency, Some(Decimal { mantissa: 5003, scale: 2 }));
        },
        other => panic!("unexpected {:?}", other),
    }
}

fn to_identification(c: &mut MeterConnection) {
    assert!(matches!(expect_command(c.step(Event::Begin)), Command::Sleep { .. }));
    assert!(matches!(expect_command(c.step(Event::Done)), Command::ClearInput));
    assert!(matches!(expect_command(c.step(Event::Done)), Command::Write { .. }));
    assert!(matches!(expect_command(c.step(Event::Done)), Command::Sleep { .. }));
    assert!(matches!(expect_command(c.step(Event::Done)), Command::ReadLine));
}

#[test]
fn cycle_errors_leave_connection_open() {
    let mut c = MeterConnection::open("ISk5MT174");
    to_identification(&mut c);
    assert!(matches!(c.step(line("/XYZ5OTHER")), Action::Report { error: MeterError::HandshakeRejected }));
    assert_eq!(c.phase, ConnPhase::Idle);
    to_identification(&mut c);
    assert!(matches!(c.step(Event::TimedOut), Action::Report { error: MeterError::ReadTimeout }));
    to_identification(&mut c);
    assert!(matches!(expect_command(c.step(line("/ABC0ISk5MT174"))), Command::ReadLine));
    assert!(matches!(c.step(Event::Eof), Action::Report { error: MeterError::IncompleteTelegram }));
    to_identification(&mut c);
    assert!(matches!(c.step(Event::Failed), Action::Report { error: MeterError::ReadFailed }));
    to_identification(&mut c);
    assert!(matches!(expect_command(c.step(line("/ABC0ISk5MT174"))), Command::ReadLine));
    assert!(matches!(c.step(Event::Failed), Action::Report { error: MeterError::ReadFailed }));
    assert!(!c.is_closed());
}

#[test]
fn write_and_clear_failures_are_reported() {
    let mut c = MeterConnection::open("ISk5MT174");
    assert!(matches!(expect_command(c.step(Event::Begin)), Command::Sleep { .. }));
    assert!(matches!(expect_command(c.step(Event::Done)), Command::ClearInput));
    assert!(matches!(c.step(Event::Failed), Action::Report { error: MeterError::ClearFailed }));
    assert!(matches!(expect_command(c.step(Event::Begin)), Command::Sleep { .. }));
    assert!(matches!(expect_command(c.step(Event::Done)), Command::ClearInput));
    assert!(matches!(expect_command(c.step(Event::Done)), Command::Write { .. }));
    assert!(matches!(c.step(Event::Failed), Action::Report { error: MeterError::WriteFailed }));
    assert!(!c.is_closed());
}

#[test]
fn baud_change_failure_closes_connection() {
    let mut c = MeterConnection::open("ISk5MT174");
    to_identification(&mut c);
    assert!(matches!(expect_command(c.step(line("/ISk5MT174-0001"))), Command::Write { .. }));
    assert!(matches!(expect_command(c.step(Event::Done)), Command::Sleep { .. }));
    assert!(matches!(expect_command(c.step(Event::Done)), Command::SetBaudRate { rate: 9600 }));
    assert!(matches!(c.step(Event::Failed), Action::Report { error: MeterError::BaudChangeFailed }));
    assert!(c.is_closed());
    assert!(matches!(c.step(Event::Begin), Action::Nothing));
}

#[test]
fn config_timeout_in_millis() {
    let mut cfg = Config {
        mqtt_host: "127.0.0.1".to_string(),
        mqtt_port: 1883,
        mqtt_client_id: "ISK5MT174-DATA".to_string(),
        mqtt_topic: "tele/ISK5MT174".to_string(),
        device_id: "ISk5MT174".to_string(),
        port: None,
        timeout_secs: 10,
    };
    assert_eq!(cfg.timeout_millis(), 10_000);
    cfg.timeout_secs = u64::MAX;
    assert_eq!(cfg.timeout_millis(), u64::MAX);
}

#[test]
fn error_descriptions() {
    assert_eq!(MeterError::IncompleteTelegram.describe(), "end of input before the end of the telegram");
    assert_eq!(MeterError::DeviceNotFound { attempted: 3 }.describe(), "device not found on any candidate port");
    assert_eq!(MeterError::ReadFailed.describe(), "serial read failed");
}
