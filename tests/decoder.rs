use energymon::decimal::{parse_decimal, Decimal};
use energymon::meter::MeterReading;
use energymon::obis::parse_obis_line;

fn value(d: Option<Decimal>) -> f64 {
    match d {
        Some(d) => d.mantissa as f64 / 10f64.powi(d.scale as i32),
        None => 0.0,
    }
}

fn dec(s: &str) -> Option<Decimal> {
    let v: Vec<char> = s.chars().collect();
    parse_decimal(&v)
}

#[test]
fn parse_consumption_total() {
    let mut r = MeterReading::default();
    parse_obis_line("1-0:1.8.0*255(0002686.675*kWh)", &mut r);
    assert!((value(r.consumption_total_kwh) - 2686.675).abs() < 0.001);
}

#[test]
fn parse_consumption_t1() {
    let mut r = MeterReading::default();
    parse_obis_line("1-0:1.8.1*255(0001200.000*kWh)", &mut r);
    assert!((value(r.consumption_t1_kwh) - 1200.0).abs() < 0.001);
}

#[test]
fn parse_consumption_t2() {
    let mut r = MeterReading::default();
    parse_obis_line("1-0:1.8.2*255(0002686.675*kWh)", &mut r);
    assert!((value(r.consumption_t2_kwh) - 2686.675).abs() < 0.001);
}

#[test]
fn parse_production_total() {
    let mut r = MeterReading::default();
    parse_obis_line("1-0:2.8.0*255(0009354.299*kWh)", &mut r);
    assert!((value(r.production_total_kwh) - 9354.299).abs() < 0.001);
}

#[test]
fn parse_production_t1() {
    let mut r = MeterReading::default();
    parse_obis_line("1-0:2.8.1*255(0004000.000*kWh)", &mut r);
    assert!((value(r.production_t1_kwh) - 4000.0).abs() < 0.001);
}

#[test]
fn parse_production_t2() {
    let mut r = MeterReading::default();
    parse_obis_line("1-0:2.8.2*255(0009354.299*kWh)", &mut r);
    assert!((value(r.production_t2_kwh) - 9354.299).abs() < 0.001);
}

#[test]
fn parse_voltage() {
    let mut r = MeterReading::default();
    parse_obis_line("1-0:32.7.0*255(231.3*V)", &mut r);
    parse_obis_line("1-0:52.7.0*255(233.2*V)", &mut r);
    parse_obis_line("1-0:72.7.0*255(231.4*V)", &mut r);
    assert!((value(r.phase1_voltage) - 231.3).abs() < 0.01);
    assert!((value(r.phase2_voltage) - 233.2).abs() < 0.01);
    assert!((value(r.phase3_voltage) - 231.4).abs() < 0.01);
}

#[test]
fn parse_current() {
    let mut r = MeterReading::default();
    parse_obis_line("1-0:31.7.0*255(0.98*A)", &mut r);
    parse_obis_line("1-0:51.7.0*255(0.10*A)", &mut r);
    parse_obis_line("1-0:71.7.0*255(0.64*A)", &mut r);
    assert!((value(r.phase1_current) - 0.98).abs() < 0.001);
    assert!((value(r.phase2_current) - 0.10).abs() < 0.001);
    assert!((value(r.phase3_current) - 0.64).abs() < 0.001);
}

#[test]
fn parse_frequency() {
    let mut r = MeterReading::default();
    parse_obis_line("1-0:14.7.0*255(50.03*Hz)", &mut r);
    assert!((value(r.frequency) - 50.03).abs() < 0.001);
}

#[test]
fn parse_without_star_suffix() {
    let mut r = MeterReading::default();
    parse_obis_line("1-0:1.8.0(0011404.409*kWh)", &mut r);
    assert!((value(r.consumption_total_kwh) - 11404.409).abs() < 0.001);
}

#[test]
fn parse_power_factor() {
    let mut r = MeterReading::default();
    parse_obis_line("1-0:33.7.0*255(0.950)", &mut r);
    parse_obis_line("1-0:53.7.0*255(0.800)", &mut r);
    parse_obis_line("1-0:73.7.0*255(0.750)", &mut r);
    assert!((value(r.phase1_pf) - 0.950).abs() < 0.001);
    assert!((value(r.phase2_pf) - 0.800).abs() < 0.001);
    assert!((value(r.phase3_pf) - 0.750).abs() < 0.001);
}

#[test]
fn unknown_code_ignored() {
    let mut r = MeterReading::default();
    parse_obis_line("0-0:C.1.6*255(FDF5)", &mut r);
    assert_eq!(value(r.consumption_total_kwh), 0.0);
}

#[test]
fn malformed_line_ignored() {
    let mut r = MeterReading::default();
    parse_obis_line("garbage without parens", &mut r);
    assert_eq!(value(r.consumption_total_kwh), 0.0);
}

#[test]
fn decoded_value_is_exact_and_reencodes() {
    let mut r = MeterReading::default();
    parse_obis_line("1-0:32.7.0(230.1*V)", &mut r);
    assert_eq!(r.phase1_voltage, Some(Decimal { mantissa: 2301, scale: 1 }));
    assert_eq!(r.phase1_voltage.unwrap().to_text(), "230.1");
    parse_obis_line("1-0:1.8.0*255(0002686.675*kWh)", &mut r);
    assert_eq!(r.consumption_total_kwh.unwrap().to_text(), "2686.675");
}

#[test]
fn malformed_lines_change_nothing() {
    let mut r = MeterReading::default();
    parse_obis_line("1-0:32.7.0*255(231.3*V)", &mut r);
    for line in [
        "1-0:32.7.0*255 231.3*V",
        "1-0:32.7.0*255(231.3*V",
        "1-0:32.7.0*255)231.3*V(",
        "1-0:99.7.0*255(231.3*V)",
        "1-0:32.7.0*255(abc*V)",
        "1-0:32.7.0*255(1.2.3*V)",
        "1-0:32.7.0*255()",
        "",
    ] {
        parse_obis_line(line, &mut r);
    }
    assert_eq!(r.phase1_voltage, Some(Decimal { mantissa: 2313, scale: 1 }));
    assert_eq!(r.phase2_voltage, None);
    assert_eq!(r.consumption_total_kwh, None);
    assert_eq!(r.meter_time, "");
    assert_eq!(r.meter_date, "");
}

#[test]
fn time_and_date_codes() {
    let mut r = MeterReading::default();
    parse_obis_line("0.8.1(120054)", &mut r);
    parse_obis_line("0.8.2(1200703)", &mut r);
    assert_eq!(r.meter_time, "12:00:54");
    assert_eq!(r.meter_date, "20-07-03");
}

#[test]
fn short_time_and_date_leave_field_untouched() {
    let mut r = MeterReading::default();
    parse_obis_line("0.8.1(12005)", &mut r);
    parse_obis_line("0.8.2(120070)", &mut r);
    assert_eq!(r.meter_time, "");
    assert_eq!(r.meter_date, "");
    parse_obis_line("0.8.1(120054)", &mut r);
    parse_obis_line("0.8.1(1200)", &mut r);
    assert_eq!(r.meter_time, "12:00:54");
}

#[test]
fn decimal_parsing() {
    assert_eq!(dec("0002686.675"), Some(Decimal { mantissa: 2686675, scale: 3 }));
    assert_eq!(dec("-1.5"), Some(Decimal { mantissa: -15, scale: 1 }));
    assert_eq!(dec("+7"), Some(Decimal { mantissa: 7, scale: 0 }));
    assert_eq!(dec(".5"), Some(Decimal { mantissa: 5, scale: 1 }));
    assert_eq!(dec("5."), Some(Decimal { mantissa: 5, scale: 0 }));
    assert_eq!(dec("9999999999"), Some(Decimal { mantissa: 9999999999, scale: 0 }));
    assert_eq!(dec("0.000001"), Some(Decimal { mantissa: 1, scale: 6 }));
    assert_eq!(dec("10000000000"), Some(Decimal { mantissa: 10000000000, scale: 0 }));
    assert_eq!(
        dec("999999999999999999999999"),
        Some(Decimal { mantissa: 999999999999999999999999, scale: 0 })
    );
    assert_eq!(dec("1000000000000000000000000"), None);
    assert_eq!(dec("0000000000000000000000000000012.5"), Some(Decimal { mantissa: 125, scale: 1 }));
    assert_eq!(dec("."), None);
    assert_eq!(dec(""), None);
    assert_eq!(dec("-"), None);
    assert_eq!(dec("1e5"), None);
    assert_eq!(dec("FDF5"), None);
}

#[test]
fn decimal_text() {
    assert_eq!(Decimal { mantissa: 2301, scale: 1 }.to_text(), "230.1");
    assert_eq!(Decimal { mantissa: -5, scale: 3 }.to_text(), "-0.005");
    assert_eq!(Decimal { mantissa: 14810, scale: 2 }.to_text(), "148.10");
    assert_eq!(Decimal { mantissa: 0, scale: 0 }.to_text(), "0");
    assert_eq!(Decimal { mantissa: 42, scale: 0 }.to_text(), "42");
}

#[test]
fn derived_power_rounds_half_away_from_zero() {
    let mut r = MeterReading::default();
    parse_obis_line("1-0:32.7.0(0.5*V)", &mut r);
    parse_obis_line("1-0:31.7.0(0.01*A)", &mut r);
    parse_obis_line("1-0:52.7.0(0.5*V)", &mut r);
    parse_obis_line("1-0:51.7.0(0.01*A)", &mut r);
    parse_obis_line("1-0:53.7.0(-1)", &mut r);
    r.calculate_power();
    assert_eq!(r.phase1_power, Some(Decimal { mantissa: 1, scale: 2 }));
    assert_eq!(r.phase2_power, Some(Decimal { mantissa: -1, scale: 2 }));
    assert_eq!(r.phase3_power, None);
    assert_eq!(r.total_power, Decimal { mantissa: 0, scale: 2 });
}

#[test]
fn reported_power_is_kept_and_summed() {
    let mut r = MeterReading::default();
    parse_obis_line("1-0:21.7.0*255(0.125*kW)", &mut r);
    parse_obis_line("1-0:41.7.0*255(1.5*kW)", &mut r);
    r.calculate_power();
    assert_eq!(r.phase1_power, Some(Decimal { mantissa: 125, scale: 3 }));
    assert_eq!(r.phase2_power, Some(Decimal { mantissa: 15, scale: 1 }));
    assert_eq!(r.phase3_power, None);
    assert_eq!(r.total_power, Decimal { mantissa: 163, scale: 2 });
}

#[test]
fn long_fractions_round_half_away_from_zero() {
    assert_eq!(dec("0.0000001"), Some(Decimal { mantissa: 0, scale: 6 }));
    assert_eq!(dec("0.00000049999"), Some(Decimal { mantissa: 0, scale: 6 }));
    assert_eq!(dec("0.0000005"), Some(Decimal { mantissa: 1, scale: 6 }));
    assert_eq!(dec("-0.0000005"), Some(Decimal { mantissa: -1, scale: 6 }));
    assert_eq!(dec("2.9999995"), Some(Decimal { mantissa: 3000000, scale: 6 }));
    assert_eq!(dec("1.23456789"), Some(Decimal { mantissa: 1234568, scale: 6 }));
}

#[test]
fn every_number_is_stored() {
    let mut r = MeterReading::default();
    parse_obis_line("1-0:1.8.0(0.0000001)", &mut r);
    assert_eq!(r.consumption_total_kwh, Some(Decimal { mantissa: 0, scale: 6 }));
    parse_obis_line("1-0:2.8.0*255(123456789012.345678*kWh)", &mut r);
    assert_eq!(r.production_total_kwh, Some(Decimal { mantissa: 123456789012345678, scale: 6 }));
    parse_obis_line("1-0:14.7.0(50.0000004*Hz)", &mut r);
    assert_eq!(r.frequency, Some(Decimal { mantissa: 50000000, scale: 6 }));
}

#[test]
fn large_voltages_are_stored() {
    let mut r = MeterReading::default();
    parse_obis_line("1-0:32.7.0(2000000)", &mut r);
    assert_eq!(r.phase1_voltage, Some(Decimal { mantissa: 2000000, scale: 0 }));
    parse_obis_line("1-0:52.7.0(999999.999999*V)", &mut r);
    assert_eq!(r.phase2_voltage, Some(Decimal { mantissa: 999999999999, scale: 6 }));
}

#[test]
fn power_is_not_derived_from_factors_beyond_range() {
    let mut r = MeterReading::default();
    parse_obis_line("1-0:32.7.0(2000000)", &mut r);
    parse_obis_line("1-0:31.7.0(1)", &mut r);
    parse_obis_line("1-0:21.7.0(0.5*kW)", &mut r);
    parse_obis_line("1-0:52.7.0(999999)", &mut r);
    parse_obis_line("1-0:51.7.0(2)", &mut r);
    r.calculate_power();
    assert_eq!(r.phase1_power, Some(Decimal { mantissa: 5, scale: 1 }));
    assert_eq!(r.phase2_power, Some(Decimal { mantissa: 199999800, scale: 2 }));
    assert_eq!(r.total_power, Decimal { mantissa: 199999850, scale: 2 });
}

#[test]
fn billing_channel_is_stripped() {
    let mut r = MeterReading::default();
    parse_obis_line("1-0:14.7.0*17(49.98*Hz)", &mut r);
    assert_eq!(r.frequency, Some(Decimal { mantissa: 4998, scale: 2 }));
}
