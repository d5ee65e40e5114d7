use energymon::decimal::Decimal;
use energymon::error::MeterError;
use energymon::telegram::read_telegram;

fn value(d: Option<Decimal>) -> f64 {
    match d {
        Some(d) => d.mantissa as f64 / 10f64.powi(d.scale as i32),
        None => 0.0,
    }
}

const AT: &str = "2024-05-01 12:00:00.000001";

fn lines_of(text: &str) -> Vec<String> {
    text.split_inclusive('\n').map(String::from).collect()
}

#[test]
fn read_full_telegram() {
    // Expected per-phase power: V × I × PF
    // L1: 231.3 × 0.98 × 1.0 = 226.67W
    // L2: 233.2 × 0.10 × 1.0 = 23.32W
    // L3: 231.4 × 0.64 × 1.0 = 148.10W
    // Total: 398.09W
    let telegram = "\
/ISk5MT174-0001\r\n\
\r\n\
1-0:0.0.0*255(88381140)\r\n\
1-0:1.8.0*255(0002686.675*kWh)\r\n\
1-0:1.8.2*255(0002686.675*kWh)\r\n\
1-0:2.8.0*255(0009354.299*kWh)\r\n\
1-0:2.8.2*255(0009354.299*kWh)\r\n\
1-0:32.7.0*255(231.3*V)\r\n\
1-0:52.7.0*255(233.2*V)\r\n\
1-0:72.7.0*255(231.4*V)\r\n\
1-0:31.7.0*255(0.98*A)\r\n\
1-0:51.7.0*255(0.10*A)\r\n\
1-0:71.7.0*255(0.64*A)\r\n\
1-0:14.7.0*255(50.03*Hz)\r\n\
1-0:33.7.0*255(1.000)\r\n\
1-0:53.7.0*255(1.000)\r\n\
1-0:73.7.0*255(1.000)\r\n\
!\r\n";
    let reading = read_telegram(&lines_of(telegram), "ISk5MT174", false, AT).unwrap();
    assert_eq!(reading.device_id, "ISk5MT174-0001");
    assert!((value(reading.consumption_total_kwh) - 2686.675).abs() < 0.001);
    assert!((value(reading.production_total_kwh) - 9354.299).abs() < 0.001);
    assert!((value(reading.phase1_voltage) - 231.3).abs() < 0.01);
    assert!((value(reading.phase1_current) - 0.98).abs() < 0.001);
    assert!((value(reading.frequency) - 50.03).abs() < 0.001);
    assert!((value(reading.phase1_power) - 226.67).abs() < 0.1);
    assert!((value(reading.phase2_power) - 23.32).abs() < 0.1);
    assert!((value(reading.phase3_power) - 148.10).abs() < 0.1);
    assert!((value(Some(reading.total_power)) - 398.09).abs() < 0.1);
}

#[test]
fn telegram_powers_are_exact() {
    let telegram = "/ISk5MT174-0001\r\n1-0:32.7.0(231.3*V)\r\n1-0:52.7.0(233.2*V)\r\n\
1-0:72.7.0(231.4*V)\r\n1-0:31.7.0(0.98*A)\r\n1-0:51.7.0(0.10*A)\r\n1-0:71.7.0(0.64*A)\r\n\
1-0:33.7.0(1.0)\r\n1-0:53.7.0(1.0)\r\n1-0:73.7.0(1.0)\r\n!\r\n";
    let reading = read_telegram(&lines_of(telegram), "ISk5MT174", false, AT).unwrap();
    assert_eq!(reading.device_id, "ISk5MT174-0001");
    assert_eq!(reading.phase1_power, Some(Decimal { mantissa: 22667, scale: 2 }));
    assert_eq!(reading.phase2_power, Some(Decimal { mantissa: 2332, scale: 2 }));
    assert_eq!(reading.phase3_power, Some(Decimal { mantissa: 14810, scale: 2 }));
    assert_eq!(reading.total_power, Decimal { mantissa: 39809, scale: 2 });
    assert_eq!(reading.total_power.to_text(), "398.09");
}

#[test]
fn missing_power_factor_counts_as_one() {
    let telegram = "/ISk5MT174-0001\r\n1-0:32.7.0(231.3*V)\r\n1-0:31.7.0(0.98*A)\r\n!\r\n";
    let reading = read_telegram(&lines_of(telegram), "ISk5MT174", false, AT).unwrap();
    assert_eq!(reading.phase1_power, Some(Decimal { mantissa: 22667, scale: 2 }));
    assert_eq!(reading.phase2_power, None);
    assert_eq!(reading.total_power, Decimal { mantissa: 22667, scale: 2 });
}

#[test]
fn reading_is_stamped() {
    let telegram = "/ISk5MT174-0001\r\n!\r\n";
    let reading = read_telegram(&lines_of(telegram), "ISk5MT174", false, AT).unwrap();
    assert_eq!(reading.timestamp, AT);
}

#[test]
fn foreign_identification_rejected() {
    let telegram = "/XYZ5OTHER-0001\r\n1-0:32.7.0(231.3*V)\r\n!\r\n";
    let r = read_telegram(&lines_of(telegram), "ISk5MT174", false, AT);
    assert!(matches!(r, Err(MeterError::HandshakeRejected)));
}

#[test]
fn eof_before_terminator_is_incomplete() {
    let telegram = "/ISk5MT174-0001\r\n1-0:32.7.0(231.3*V)\r\n";
    let r = read_telegram(&lines_of(telegram), "ISk5MT174", false, AT);
    assert!(matches!(r, Err(MeterError::IncompleteTelegram)));
    let r = read_telegram(&Vec::new(), "ISk5MT174", true, AT);
    assert!(matches!(r, Err(MeterError::IncompleteTelegram)));
}

#[test]
fn telegram_without_identification_is_missing_it() {
    let telegram = "1-0:32.7.0(231.3*V)\r\n!\r\n";
    let r = read_telegram(&lines_of(telegram), "ISk5MT174", false, AT);
    assert!(matches!(r, Err(MeterError::MissingIdentification)));
}

#[test]
fn consumed_identification_ignores_echoes() {
    let telegram = "/XYZ5OTHER-0001\r\n1-0:14.7.0(50.03*Hz)\r\n!\r\n";
    let reading = read_telegram(&lines_of(telegram), "ISk5MT174-0001", true, AT).unwrap();
    assert_eq!(reading.device_id, "ISk5MT174-0001");
    assert_eq!(reading.frequency, Some(Decimal { mantissa: 5003, scale: 2 }));
}
