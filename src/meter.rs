//! The reading assembled from one telegram.
use vstd::prelude::*;
use crate::decimal::{
    is_bounded, is_factor, is_factor_exec, is_parsed, lemma_cents_are_bounded, lemma_parsed_is_bounded,
    product_cents, product_cents_exec, sum_cents, sum_cents_exec, Decimal,
};

verus! {

/// A numeric quantity of a reading.
#[derive(Clone, Copy, Debug, PartialEq, Eq, Structural)]
pub enum Field {
    /// Positive active energy, total (kWh), OBIS 1-0:1.8.0.
    ConsumptionTotal,
    /// Positive active energy, tariff 1 (kWh), OBIS 1-0:1.8.1.
    ConsumptionT1,
    /// Positive active energy, tariff 2 (kWh), OBIS 1-0:1.8.2.
    ConsumptionT2,
    /// Negative active energy, total (kWh), OBIS 1-0:2.8.0.
    ProductionTotal,
    /// Negative active energy, tariff 1 (kWh), OBIS 1-0:2.8.1.
    ProductionT1,
    /// Negative active energy, tariff 2 (kWh), OBIS 1-0:2.8.2.
    ProductionT2,
    /// Phase 1 voltage (V), OBIS 1-0:32.7.0.
    Phase1Voltage,
    /// Phase 2 voltage (V), OBIS 1-0:52.7.0.
    Phase2Voltage,
    /// Phase 3 voltage (V), OBIS 1-0:72.7.0.
    Phase3Voltage,
    /// Phase 1 current (A), OBIS 1-0:31.7.0.
    Phase1Current,
    /// Phase 2 current (A), OBIS 1-0:51.7.0.
    Phase2Current,
    /// Phase 3 current (A), OBIS 1-0:71.7.0.
    Phase3Current,
    /// Grid frequency (Hz), OBIS 1-0:14.7.0.
    Frequency,
    /// Phase 1 power factor, OBIS 1-0:33.7.0.
    Phase1PowerFactor,
    /// Phase 2 power factor, OBIS 1-0:53.7.0.
    Phase2PowerFactor,
    /// Phase 3 power factor, OBIS 1-0:73.7.0.
    Phase3PowerFactor,
    /// Phase 1 real power (W): reported under OBIS 1-0:21.7.0, or derived.
    Phase1Power,
    /// Phase 2 real power (W): reported under OBIS 1-0:41.7.0, or derived.
    Phase2Power,
    /// Phase 3 real power (W): reported under OBIS 1-0:61.7.0, or derived.
    Phase3Power,
}

impl Field {
    /// The per-phase real powers, which may also be derived.
    pub open spec fn is_power(self) -> bool {
        self is Phase1Power || self is Phase2Power || self is Phase3Power
    }

    /// The quantities that power is derived from: voltages, currents and
    /// power factors.
    pub open spec fn is_factor(self) -> bool {
        self is Phase1Voltage || self is Phase2Voltage || self is Phase3Voltage
            || self is Phase1Current || self is Phase2Current || self is Phase3Current
            || self is Phase1PowerFactor || self is Phase2PowerFactor || self is Phase3PowerFactor
    }
}

/// One reading of the meter.
///
/// A numeric quantity is `None` until its OBIS code has been decoded; an
/// absent quantity counts as zero.  Time and date stay empty until decoded.
#[derive(Debug)]
pub struct MeterReading {
    /// The identification the meter sent, without its leading `/`.
    pub device_id: String,
    /// Positive active energy, total (kWh), OBIS 1-0:1.8.0.
    pub consumption_total_kwh: Option<Decimal>,
    /// Positive active energy, tariff 1 (kWh), OBIS 1-0:1.8.1.
    pub consumption_t1_kwh: Option<Decimal>,
    /// Positive active energy, tariff 2 (kWh), OBIS 1-0:1.8.2.
    pub consumption_t2_kwh: Option<Decimal>,
    /// Negative active energy, total (kWh), OBIS 1-0:2.8.0.
    pub production_total_kwh: Option<Decimal>,
    /// Negative active energy, tariff 1 (kWh), OBIS 1-0:2.8.1.
    pub production_t1_kwh: Option<Decimal>,
    /// Negative active energy, tariff 2 (kWh), OBIS 1-0:2.8.2.
    pub production_t2_kwh: Option<Decimal>,
    /// Phase 1 voltage (V), OBIS 1-0:32.7.0.
    pub phase1_voltage: Option<Decimal>,
    /// Phase 2 voltage (V), OBIS 1-0:52.7.0.
    pub phase2_voltage: Option<Decimal>,
    /// Phase 3 voltage (V), OBIS 1-0:72.7.0.
    pub phase3_voltage: Option<Decimal>,
    /// Phase 1 current (A), OBIS 1-0:31.7.0.
    pub phase1_current: Option<Decimal>,
    /// Phase 2 current (A), OBIS 1-0:51.7.0.
    pub phase2_current: Option<Decimal>,
    /// Phase 3 current (A), OBIS 1-0:71.7.0.
    pub phase3_current: Option<Decimal>,
    /// Grid frequency (Hz), OBIS 1-0:14.7.0.
    pub frequency: Option<Decimal>,
    /// Phase 1 power factor, OBIS 1-0:33.7.0.
    pub phase1_pf: Option<Decimal>,
    /// Phase 2 power factor, OBIS 1-0:53.7.0.
    pub phase2_pf: Option<Decimal>,
    /// Phase 3 power factor, OBIS 1-0:73.7.0.
    pub phase3_pf: Option<Decimal>,
    /// Phase 1 real power (W): reported under OBIS 1-0:21.7.0, or derived.
    pub phase1_power: Option<Decimal>,
    /// Phase 2 real power (W): reported under OBIS 1-0:41.7.0, or derived.
    pub phase2_power: Option<Decimal>,
    /// Phase 3 real power (W): reported under OBIS 1-0:61.7.0, or derived.
    pub phase3_power: Option<Decimal>,
    /// Sum of the three phase powers (W), in hundredths.
    pub total_power: Decimal,
    /// The meter's clock, `HH:MM:SS`, OBIS 0.8.1.
    pub meter_time: String,
    /// The meter's calendar date, `YY-MM-DD`, OBIS 0.8.2.
    pub meter_date: String,
    /// When the reading was taken, local time, `YYYY-MM-DD HH:MM:SS.ffffff`.
    pub timestamp: String,
}

/// What a `MeterReading` holds, with its texts as character sequences.
pub struct ReadingModel {
    pub device_id: Seq<char>,
    pub consumption_total_kwh: Option<Decimal>,
    pub consumption_t1_kwh: Option<Decimal>,
    pub consumption_t2_kwh: Option<Decimal>,
    pub production_total_kwh: Option<Decimal>,
    pub production_t1_kwh: Option<Decimal>,
    pub production_t2_kwh: Option<Decimal>,
    pub phase1_voltage: Option<Decimal>,
    pub phase2_voltage: Option<Decimal>,
    pub phase3_voltage: Option<Decimal>,
    pub phase1_current: Option<Decimal>,
    pub phase2_current: Option<Decimal>,
    pub phase3_current: Option<Decimal>,
    pub frequency: Option<Decimal>,
    pub phase1_pf: Option<Decimal>,
    pub phase2_pf: Option<Decimal>,
    pub phase3_pf: Option<Decimal>,
    pub phase1_power: Option<Decimal>,
    pub phase2_power: Option<Decimal>,
    pub phase3_power: Option<Decimal>,
    pub total_power: Decimal,
    pub meter_time: Seq<char>,
    pub meter_date: Seq<char>,
    pub timestamp: Seq<char>,
}

pub open spec fn zero() -> Decimal {
    Decimal { mantissa: 0, scale: 0 }
}

pub open spec fn or_zero(o: Option<Decimal>) -> Decimal {
    match o {
        Some(d) => d,
        None => zero(),
    }
}

/// An unreported power factor counts as 1.
pub open spec fn or_one(o: Option<Decimal>) -> Decimal {
    match o {
        Some(d) => d,
        None => Decimal { mantissa: 1, scale: 0 },
    }
}

/// A phase's power: derived as `round2(v * i * pf)` where voltage and
/// current were reported, else as the meter reported it, if it did.
///
/// The derivation needs each factor below `10^6` in magnitude, so that the
/// exact product fits in 128-bit integers: a machine limit.  Where a factor
/// is larger, the reported power, if any, is kept.
pub open spec fn phase_power(
    v: Option<Decimal>,
    i: Option<Decimal>,
    pf: Option<Decimal>,
    reported: Option<Decimal>,
) -> Option<Decimal> {
    match (v, i) {
        (Some(v), Some(i)) => if is_factor(v) && is_factor(i) && is_factor(or_one(pf)) {
            Some(Decimal { mantissa: product_cents(v, i, or_one(pf)) as i128, scale: 2 })
        } else {
            reported
        },
        _ => reported,
    }
}

/// A value that quantity `f` can hold: one that decoding stores, or for a
/// phase power, also a derived one.
pub open spec fn value_ok(f: Field, o: Option<Decimal>) -> bool {
    match o {
        Some(d) => if f.is_power() {
            is_bounded(d)
        } else {
            is_parsed(d)
        },
        None => true,
    }
}

impl ReadingModel {
    /// The reading that nothing has been decoded into.
    pub open spec fn empty() -> ReadingModel {
        ReadingModel {
            device_id: Seq::empty(),
                consumption_total_kwh: None,
                consumption_t1_kwh: None,
                consumption_t2_kwh: None,
                production_total_kwh: None,
                production_t1_kwh: None,
                production_t2_kwh: None,
                phase1_voltage: None,
                phase2_voltage: None,
                phase3_voltage: None,
                phase1_current: None,
                phase2_current: None,
                phase3_current: None,
                frequency: None,
                phase1_pf: None,
                phase2_pf: None,
                phase3_pf: None,
                phase1_power: None,
                phase2_power: None,
                phase3_power: None,
                total_power: zero(),
            meter_time: Seq::empty(),
            meter_date: Seq::empty(),
            timestamp: Seq::empty(),
        }
    }

    pub open spec fn get(self, f: Field) -> Option<Decimal> {
        match f {
            Field::ConsumptionTotal => self.consumption_total_kwh,
            Field::ConsumptionT1 => self.consumption_t1_kwh,
            Field::ConsumptionT2 => self.consumption_t2_kwh,
            Field::ProductionTotal => self.production_total_kwh,
            Field::ProductionT1 => self.production_t1_kwh,
            Field::ProductionT2 => self.production_t2_kwh,
            Field::Phase1Voltage => self.phase1_voltage,
            Field::Phase2Voltage => self.phase2_voltage,
            Field::Phase3Voltage => self.phase3_voltage,
            Field::Phase1Current => self.phase1_current,
            Field::Phase2Current => self.phase2_current,
            Field::Phase3Current => self.phase3_current,
            Field::Frequency => self.frequency,
            Field::Phase1PowerFactor => self.phase1_pf,
            Field::Phase2PowerFactor => self.phase2_pf,
            Field::Phase3PowerFactor => self.phase3_pf,
            Field::Phase1Power => self.phase1_power,
            Field::Phase2Power => self.phase2_power,
            Field::Phase3Power => self.phase3_power,
        }
    }

    pub open spec fn set(self, f: Field, o: Option<Decimal>) -> ReadingModel {
        match f {
            Field::ConsumptionTotal => ReadingModel { consumption_total_kwh: o, ..self },
            Field::ConsumptionT1 => ReadingModel { consumption_t1_kwh: o, ..self },
            Field::ConsumptionT2 => ReadingModel { consumption_t2_kwh: o, ..self },
            Field::ProductionTotal => ReadingModel { production_total_kwh: o, ..self },
            Field::ProductionT1 => ReadingModel { production_t1_kwh: o, ..self },
            Field::ProductionT2 => ReadingModel { production_t2_kwh: o, ..self },
            Field::Phase1Voltage => ReadingModel { phase1_voltage: o, ..self },
            Field::Phase2Voltage => ReadingModel { phase2_voltage: o, ..self },
            Field::Phase3Voltage => ReadingModel { phase3_voltage: o, ..self },
            Field::Phase1Current => ReadingModel { phase1_current: o, ..self },
            Field::Phase2Current => ReadingModel { phase2_current: o, ..self },
            Field::Phase3Current => ReadingModel { phase3_current: o, ..self },
            Field::Frequency => ReadingModel { frequency: o, ..self },
            Field::Phase1PowerFactor => ReadingModel { phase1_pf: o, ..self },
            Field::Phase2PowerFactor => ReadingModel { phase2_pf: o, ..self },
            Field::Phase3PowerFactor => ReadingModel { phase3_pf: o, ..self },
            Field::Phase1Power => ReadingModel { phase1_power: o, ..self },
            Field::Phase2Power => ReadingModel { phase2_power: o, ..self },
            Field::Phase3Power => ReadingModel { phase3_power: o, ..self },
        }
    }

    /// Every value is one that decoding produces; a phase power may also be
    /// a derived one.
    pub open spec fn wf(self) -> bool {
        forall|f: Field| #[trigger] value_ok(f, self.get(f))
    }

    /// The phase powers derived where they can be, and their sum.
    pub open spec fn with_power(self) -> ReadingModel {
        let p1 = phase_power(self.phase1_voltage, self.phase1_current, self.phase1_pf, self.phase1_power);
        let p2 = phase_power(self.phase2_voltage, self.phase2_current, self.phase2_pf, self.phase2_power);
        let p3 = phase_power(self.phase3_voltage, self.phase3_current, self.phase3_pf, self.phase3_power);
        ReadingModel {
            phase1_power: p1,
            phase2_power: p2,
            phase3_power: p3,
            total_power: Decimal {
                mantissa: sum_cents(or_zero(p1), or_zero(p2), or_zero(p3)) as i128,
                scale: 2,
            },
            ..self
        }
    }
}

/// `a` and `b` hold the same numeric values.
pub open spec fn same_values(a: ReadingModel, b: ReadingModel) -> bool {
    &&& a.consumption_total_kwh == b.consumption_total_kwh
    &&& a.consumption_t1_kwh == b.consumption_t1_kwh
    &&& a.consumption_t2_kwh == b.consumption_t2_kwh
    &&& a.production_total_kwh == b.production_total_kwh
    &&& a.production_t1_kwh == b.production_t1_kwh
    &&& a.production_t2_kwh == b.production_t2_kwh
    &&& a.phase1_voltage == b.phase1_voltage
    &&& a.phase2_voltage == b.phase2_voltage
    &&& a.phase3_voltage == b.phase3_voltage
    &&& a.phase1_current == b.phase1_current
    &&& a.phase2_current == b.phase2_current
    &&& a.phase3_current == b.phase3_current
    &&& a.frequency == b.frequency
    &&& a.phase1_pf == b.phase1_pf
    &&& a.phase2_pf == b.phase2_pf
    &&& a.phase3_pf == b.phase3_pf
    &&& a.phase1_power == b.phase1_power
    &&& a.phase2_power == b.phase2_power
    &&& a.phase3_power == b.phase3_power
}

pub proof fn lemma_set_wf(a: ReadingModel, f: Field, d: Decimal)
    requires
        a.wf(),
        is_parsed(d),
    ensures
        a.set(f, Some(d)).wf(),
{
    lemma_parsed_is_bounded(d);
    let b = a.set(f, Some(d));
    assert forall|g: Field| #[trigger] value_ok(g, b.get(g)) by {
        assert(value_ok(g, a.get(g)));
    }
}

pub proof fn lemma_same_values_wf(a: ReadingModel, b: ReadingModel)
    requires
        a.wf(),
        same_values(a, b),
    ensures
        b.wf(),
{
    assert forall|f: Field| #[trigger] value_ok(f, b.get(f)) by {
        assert(value_ok(f, a.get(f)));
    }
}

impl View for MeterReading {
    type V = ReadingModel;

    open spec fn view(&self) -> ReadingModel {
        ReadingModel {
            device_id: self.device_id@,
            consumption_total_kwh: self.consumption_total_kwh,
            consumption_t1_kwh: self.consumption_t1_kwh,
            consumption_t2_kwh: self.consumption_t2_kwh,
            production_total_kwh: self.production_total_kwh,
            production_t1_kwh: self.production_t1_kwh,
            production_t2_kwh: self.production_t2_kwh,
            phase1_voltage: self.phase1_voltage,
            phase2_voltage: self.phase2_voltage,
            phase3_voltage: self.phase3_voltage,
            phase1_current: self.phase1_current,
            phase2_current: self.phase2_current,
            phase3_current: self.phase3_current,
            frequency: self.frequency,
            phase1_pf: self.phase1_pf,
            phase2_pf: self.phase2_pf,
            phase3_pf: self.phase3_pf,
            phase1_power: self.phase1_power,
            phase2_power: self.phase2_power,
            phase3_power: self.phase3_power,
            total_power: self.total_power,
            meter_time: self.meter_time@,
            meter_date: self.meter_date@,
            timestamp: self.timestamp@,
        }
    }
}

impl Default for MeterReading {
    fn default() -> (r: MeterReading)
        ensures
            r@ == ReadingModel::empty(),
    {
        MeterReading::new()
    }
}

impl MeterReading {
    /// A reading that nothing has been decoded into.
    pub fn new() -> (r: MeterReading)
        ensures
            r@ == ReadingModel::empty(),
            r@.wf(),
    {
        MeterReading {
            device_id: String::new(),
            consumption_total_kwh: None,
            consumption_t1_kwh: None,
            consumption_t2_kwh: None,
            production_total_kwh: None,
            production_t1_kwh: None,
            production_t2_kwh: None,
            phase1_voltage: None,
            phase2_voltage: None,
            phase3_voltage: None,
            phase1_current: None,
            phase2_current: None,
            phase3_current: None,
            frequency: None,
            phase1_pf: None,
            phase2_pf: None,
            phase3_pf: None,
            phase1_power: None,
            phase2_power: None,
            phase3_power: None,
            total_power: Decimal { mantissa: 0, scale: 0 },
            meter_time: String::new(),
            meter_date: String::new(),
            timestamp: String::new(),
        }
    }

    /// The value of quantity `f`, if it was decoded.
    pub fn get(&self, f: Field) -> (r: Option<Decimal>)
        ensures
            r == self@.get(f),
    {
        match f {
            Field::ConsumptionTotal => self.consumption_total_kwh,
            Field::ConsumptionT1 => self.consumption_t1_kwh,
            Field::ConsumptionT2 => self.consumption_t2_kwh,
            Field::ProductionTotal => self.production_total_kwh,
            Field::ProductionT1 => self.production_t1_kwh,
            Field::ProductionT2 => self.production_t2_kwh,
            Field::Phase1Voltage => self.phase1_voltage,
            Field::Phase2Voltage => self.phase2_voltage,
            Field::Phase3Voltage => self.phase3_voltage,
            Field::Phase1Current => self.phase1_current,
            Field::Phase2Current => self.phase2_current,
            Field::Phase3Current => self.phase3_current,
            Field::Frequency => self.frequency,
            Field::Phase1PowerFactor => self.phase1_pf,
            Field::Phase2PowerFactor => self.phase2_pf,
            Field::Phase3PowerFactor => self.phase3_pf,
            Field::Phase1Power => self.phase1_power,
            Field::Phase2Power => self.phase2_power,
            Field::Phase3Power => self.phase3_power,
        }
    }

    /// The value of quantity `f`, zero where it was not decoded.
    pub fn value_or_zero(&self, f: Field) -> (r: Decimal)
        ensures
            r == or_zero(self@.get(f)),
    {
        match self.get(f) {
            Some(d) => d,
            None => Decimal { mantissa: 0, scale: 0 },
        }
    }

    /// Records `o` as the value of quantity `f`.
    pub fn set(&mut self, f: Field, o: Option<Decimal>)
        ensures
            final(self)@ == old(self)@.set(f, o),
    {
        match f {
            Field::ConsumptionTotal => self.consumption_total_kwh = o,
            Field::ConsumptionT1 => self.consumption_t1_kwh = o,
            Field::ConsumptionT2 => self.consumption_t2_kwh = o,
            Field::ProductionTotal => self.production_total_kwh = o,
            Field::ProductionT1 => self.production_t1_kwh = o,
            Field::ProductionT2 => self.production_t2_kwh = o,
            Field::Phase1Voltage => self.phase1_voltage = o,
            Field::Phase2Voltage => self.phase2_voltage = o,
            Field::Phase3Voltage => self.phase3_voltage = o,
            Field::Phase1Current => self.phase1_current = o,
            Field::Phase2Current => self.phase2_current = o,
            Field::Phase3Current => self.phase3_current = o,
            Field::Frequency => self.frequency = o,
            Field::Phase1PowerFactor => self.phase1_pf = o,
            Field::Phase2PowerFactor => self.phase2_pf = o,
            Field::Phase3PowerFactor => self.phase3_pf = o,
            Field::Phase1Power => self.phase1_power = o,
            Field::Phase2Power => self.phase2_power = o,
            Field::Phase3Power => self.phase3_power = o,
        }
    }

    /// Derives each phase's power from its voltage, current and power factor
    /// where voltage and current were reported (power factor 1 where it was
    /// not), keeps a directly reported power otherwise, and sets the total to
    /// the sum of the three, each rounded half away from zero to hundredths.
    /// A factor of magnitude `10^6` or more is beyond what the exact product
    /// can hold (a machine limit); that phase keeps its reported power.
    #[verifier::rlimit(40)]
    pub fn calculate_power(&mut self)
        requires
            old(self)@.wf(),
        ensures
            final(self)@ == old(self)@.with_power(),
            final(self)@.wf(),
    {
        proof {
            assert(value_ok(Field::Phase1Voltage, self@.get(Field::Phase1Voltage)));
            assert(value_ok(Field::Phase2Voltage, self@.get(Field::Phase2Voltage)));
            assert(value_ok(Field::Phase3Voltage, self@.get(Field::Phase3Voltage)));
            assert(value_ok(Field::Phase1Current, self@.get(Field::Phase1Current)));
            assert(value_ok(Field::Phase2Current, self@.get(Field::Phase2Current)));
            assert(value_ok(Field::Phase3Current, self@.get(Field::Phase3Current)));
            assert(value_ok(Field::Phase1PowerFactor, self@.get(Field::Phase1PowerFactor)));
            assert(value_ok(Field::Phase2PowerFactor, self@.get(Field::Phase2PowerFactor)));
            assert(value_ok(Field::Phase3PowerFactor, self@.get(Field::Phase3PowerFactor)));
            assert(value_ok(Field::Phase1Power, self@.get(Field::Phase1Power)));
            assert(value_ok(Field::Phase2Power, self@.get(Field::Phase2Power)));
            assert(value_ok(Field::Phase3Power, self@.get(Field::Phase3Power)));
        }
        let p1 = phase_power_exec(self.phase1_voltage, self.phase1_current, self.phase1_pf, self.phase1_power);
        let p2 = phase_power_exec(self.phase2_voltage, self.phase2_current, self.phase2_pf, self.phase2_power);
        let p3 = phase_power_exec(self.phase3_voltage, self.phase3_current, self.phase3_pf, self.phase3_power);
        let total = sum_cents_exec(or_zero_exec(p1), or_zero_exec(p2), or_zero_exec(p3));
        self.phase1_power = p1;
        self.phase2_power = p2;
        self.phase3_power = p3;
        self.total_power = Decimal { mantissa: total, scale: 2 };
        proof {
            let m = self@;
            assert forall|f: Field| #[trigger] value_ok(f, m.get(f)) by {
                assert(value_ok(f, old(self)@.get(f)));
            }
        }
    }
}

fn or_zero_exec(o: Option<Decimal>) -> (r: Decimal)
    requires
        o matches Some(d) ==> is_bounded(d),
    ensures
        r == or_zero(o),
        is_bounded(r),
{
    match o {
        Some(d) => d,
        None => {
            let z = Decimal { mantissa: 0, scale: 0 };
            proof {
                lemma_parsed_is_bounded(z);
            }
            z
        },
    }
}

fn phase_power_exec(
    v: Option<Decimal>,
    i: Option<Decimal>,
    pf: Option<Decimal>,
    reported: Option<Decimal>,
) -> (r: Option<Decimal>)
    requires
        v matches Some(d) ==> is_parsed(d),
        i matches Some(d) ==> is_parsed(d),
        pf matches Some(d) ==> is_parsed(d),
        reported matches Some(d) ==> is_bounded(d),
    ensures
        r == phase_power(v, i, pf, reported),
        r matches Some(d) ==> is_bounded(d),
{
    match (v, i) {
        (Some(v), Some(i)) => {
            let f = match pf {
                Some(d) => d,
                None => {
                    proof {
                        crate::decimal::lemma_pow10_36();
                    }
                    Decimal { mantissa: 1, scale: 0 }
                },
            };
            if !(is_factor_exec(v) && is_factor_exec(i) && is_factor_exec(f)) {
                return reported;
            }
            let c = product_cents_exec(v, i, f);
            proof {
                lemma_cents_are_bounded(c as int);
            }
            Some(Decimal { mantissa: c, scale: 2 })
        },
        _ => reported,
    }
}

} // verus!
