//! Decoding of one telegram data line, `code(value)`, into a reading.
use vstd::prelude::*;
use crate::decimal::{
    all_digits, decimal_of, decimal_text, is_digit, lemma_decimal_of_parsed, lemma_number_chars, lemma_text_round_trip,
    parse_decimal, signed_value, Decimal,
};
use crate::meter::{
    lemma_same_values_wf, lemma_set_wf, Field, MeterReading, ReadingModel,
};
use crate::text::{
    ends_with, find_char, first_index, lemma_first_index, lemma_trim_end, lemma_trim_start,
    same_text, slice_chars, string_of, to_chars, trim, trim_chars,
};

verus! {

/// Where the value of an OBIS code goes.
#[derive(Clone, Copy, Debug, PartialEq, Eq, Structural)]
pub enum Quantity {
    /// A numeric quantity.
    Value(Field),
    /// The meter's clock, sent as `HHMMSS`.
    TimeOfDay,
    /// The meter's date, sent as `DYYMMDD`.
    Date,
}

/// The registry: the quantity that an OBIS code (without its billing
/// channel) stands for.
pub open spec fn quantity_of(code: Seq<char>) -> Option<Quantity> {
    if code == "1-0:1.8.0"@ {
        Some(Quantity::Value(Field::ConsumptionTotal))
    } else if code == "1-0:1.8.1"@ {
        Some(Quantity::Value(Field::ConsumptionT1))
    } else if code == "1-0:1.8.2"@ {
        Some(Quantity::Value(Field::ConsumptionT2))
    } else if code == "1-0:2.8.0"@ {
        Some(Quantity::Value(Field::ProductionTotal))
    } else if code == "1-0:2.8.1"@ {
        Some(Quantity::Value(Field::ProductionT1))
    } else if code == "1-0:2.8.2"@ {
        Some(Quantity::Value(Field::ProductionT2))
    } else if code == "1-0:32.7.0"@ {
        Some(Quantity::Value(Field::Phase1Voltage))
    } else if code == "1-0:52.7.0"@ {
        Some(Quantity::Value(Field::Phase2Voltage))
    } else if code == "1-0:72.7.0"@ {
        Some(Quantity::Value(Field::Phase3Voltage))
    } else if code == "1-0:31.7.0"@ {
        Some(Quantity::Value(Field::Phase1Current))
    } else if code == "1-0:51.7.0"@ {
        Some(Quantity::Value(Field::Phase2Current))
    } else if code == "1-0:71.7.0"@ {
        Some(Quantity::Value(Field::Phase3Current))
    } else if code == "1-0:14.7.0"@ {
        Some(Quantity::Value(Field::Frequency))
    } else if code == "1-0:33.7.0"@ {
        Some(Quantity::Value(Field::Phase1PowerFactor))
    } else if code == "1-0:53.7.0"@ {
        Some(Quantity::Value(Field::Phase2PowerFactor))
    } else if code == "1-0:73.7.0"@ {
        Some(Quantity::Value(Field::Phase3PowerFactor))
    } else if code == "1-0:21.7.0"@ {
        Some(Quantity::Value(Field::Phase1Power))
    } else if code == "1-0:41.7.0"@ {
        Some(Quantity::Value(Field::Phase2Power))
    } else if code == "1-0:61.7.0"@ {
        Some(Quantity::Value(Field::Phase3Power))
    } else if code == "0.8.1"@ {
        Some(Quantity::TimeOfDay)
    } else if code == "0.8.2"@ {
        Some(Quantity::Date)
    } else {
        None
    }
}

/// The registry, looked up.
pub fn lookup_code(code: &[char]) -> (r: Option<Quantity>)
    ensures
        r == quantity_of(code@),
{
    if same_text(code, "1-0:1.8.0") {
        Some(Quantity::Value(Field::ConsumptionTotal))
    } else if same_text(code, "1-0:1.8.1") {
        Some(Quantity::Value(Field::ConsumptionT1))
    } else if same_text(code, "1-0:1.8.2") {
        Some(Quantity::Value(Field::ConsumptionT2))
    } else if same_text(code, "1-0:2.8.0") {
        Some(Quantity::Value(Field::ProductionTotal))
    } else if same_text(code, "1-0:2.8.1") {
        Some(Quantity::Value(Field::ProductionT1))
    } else if same_text(code, "1-0:2.8.2") {
        Some(Quantity::Value(Field::ProductionT2))
    } else if same_text(code, "1-0:32.7.0") {
        Some(Quantity::Value(Field::Phase1Voltage))
    } else if same_text(code, "1-0:52.7.0") {
        Some(Quantity::Value(Field::Phase2Voltage))
    } else if same_text(code, "1-0:72.7.0") {
        Some(Quantity::Value(Field::Phase3Voltage))
    } else if same_text(code, "1-0:31.7.0") {
        Some(Quantity::Value(Field::Phase1Current))
    } else if same_text(code, "1-0:51.7.0") {
        Some(Quantity::Value(Field::Phase2Current))
    } else if same_text(code, "1-0:71.7.0") {
        Some(Quantity::Value(Field::Phase3Current))
    } else if same_text(code, "1-0:14.7.0") {
        Some(Quantity::Value(Field::Frequency))
    } else if same_text(code, "1-0:33.7.0") {
        Some(Quantity::Value(Field::Phase1PowerFactor))
    } else if same_text(code, "1-0:53.7.0") {
        Some(Quantity::Value(Field::Phase2PowerFactor))
    } else if same_text(code, "1-0:73.7.0") {
        Some(Quantity::Value(Field::Phase3PowerFactor))
    } else if same_text(code, "1-0:21.7.0") {
        Some(Quantity::Value(Field::Phase1Power))
    } else if same_text(code, "1-0:41.7.0") {
        Some(Quantity::Value(Field::Phase2Power))
    } else if same_text(code, "1-0:61.7.0") {
        Some(Quantity::Value(Field::Phase3Power))
    } else if same_text(code, "0.8.1") {
        Some(Quantity::TimeOfDay)
    } else if same_text(code, "0.8.2") {
        Some(Quantity::Date)
    } else {
        None
    }
}

/// The code and the value text of a line `code(value)`: what stands before
/// the first `(`, and between it and the first `)`, which must follow it.
pub open spec fn record_of(line: Seq<char>) -> Option<(Seq<char>, Seq<char>)> {
    match (first_index(line, '('), first_index(line, ')')) {
        (Some(o), Some(c)) => if o < c {
            Some((line.take(o as int), line.subrange(o as int + 1, c as int)))
        } else {
            None
        },
        _ => None,
    }
}

/// A code without its billing channel: what stands before the first `*`.
pub open spec fn base_code(code: Seq<char>) -> Seq<char> {
    match first_index(code, '*') {
        Some(k) => code.take(k as int),
        None => code,
    }
}

pub open spec fn drop_suffix(v: Seq<char>, u: Seq<char>) -> Seq<char> {
    v.take(v.len() - u.len())
}

/// A value without its unit suffix, one of `*kWh`, `*kW`, `*V`, `*A`, `*Hz`.
pub open spec fn strip_unit(v: Seq<char>) -> Seq<char> {
    if ends_with(v, "*kWh"@) {
        drop_suffix(v, "*kWh"@)
    } else if ends_with(v, "*kW"@) {
        drop_suffix(v, "*kW"@)
    } else if ends_with(v, "*V"@) {
        drop_suffix(v, "*V"@)
    } else if ends_with(v, "*A"@) {
        drop_suffix(v, "*A"@)
    } else if ends_with(v, "*Hz"@) {
        drop_suffix(v, "*Hz"@)
    } else {
        v
    }
}

/// The text that is read as the value: without unit and outer blanks.
pub open spec fn value_text(raw: Seq<char>) -> Seq<char> {
    trim(strip_unit(raw))
}

/// `HHMMSS...` as `HH:MM:SS`.
pub open spec fn time_text(v: Seq<char>) -> Seq<char> {
    seq![v[0], v[1], ':', v[2], v[3], ':', v[4], v[5]]
}

/// `DYYMMDD...` as `YY-MM-DD`: the leading digit is dropped.
pub open spec fn date_text(v: Seq<char>) -> Seq<char> {
    seq![v[1], v[2], '-', v[3], v[4], '-', v[5], v[6]]
}

/// `r` with the parsed value `o` stored in quantity `f`, where there is one.
pub open spec fn store(f: Field, o: Option<Decimal>, r: ReadingModel) -> ReadingModel {
    match o {
        Some(d) => r.set(f, Some(d)),
        None => r,
    }
}

/// The reading `r` after the line `line` is decoded into it.  A line that is
/// not `code(value)`, has a code out of the registry, or a value that does
/// not read as a number (or is too short for a time or date) leaves it as
/// it is.
pub open spec fn decode(line: Seq<char>, r: ReadingModel) -> ReadingModel {
    match record_of(line) {
        Some((code, raw)) => {
            let v = value_text(raw);
            match quantity_of(base_code(code)) {
                Some(Quantity::Value(f)) => store(f, decimal_of(v), r),
                Some(Quantity::TimeOfDay) => if v.len() >= 6 {
                    ReadingModel { meter_time: time_text(v), ..r }
                } else {
                    r
                },
                Some(Quantity::Date) => if v.len() >= 7 {
                    ReadingModel { meter_date: date_text(v), ..r }
                } else {
                    r
                },
                None => r,
            }
        },
        None => r,
    }
}

/// Whether `v` ends with the characters of `lit`.
fn ends_with_text(v: &[char], lit: &str) -> (r: bool)
    ensures
        r == ends_with(v@, lit@),
{
    let u = to_chars(lit);
    if u.len() > v.len() {
        return false;
    }
    let off = v.len() - u.len();
    let mut j: usize = 0;
    while j < u.len()
        invariant
            off + u.len() == v.len(),
            u@ == lit@,
            j <= u.len(),
            forall|k: int| 0 <= k < j ==> v@[off + k] == u@[k],
        decreases u.len() - j,
    {
        if v[off + j] != u[j] {
            assert(v@.subrange(off as int, v@.len() as int)[j as int] != u@[j as int]);
            return false;
        }
        j = j + 1;
    }
    assert(v@.subrange(off as int, v@.len() as int) =~= u@);
    true
}

/// `v` without its unit suffix.
pub fn strip_unit_chars(v: &[char]) -> (r: Vec<char>)
    ensures
        r@ == strip_unit(v@),
{
    if ends_with_text(v, "*kWh") {
        let n = to_chars("*kWh").len();
        slice_chars(v, 0, v.len() - n)
    } else if ends_with_text(v, "*kW") {
        let n = to_chars("*kW").len();
        slice_chars(v, 0, v.len() - n)
    } else if ends_with_text(v, "*V") {
        let n = to_chars("*V").len();
        slice_chars(v, 0, v.len() - n)
    } else if ends_with_text(v, "*A") {
        let n = to_chars("*A").len();
        slice_chars(v, 0, v.len() - n)
    } else if ends_with_text(v, "*Hz") {
        let n = to_chars("*Hz").len();
        slice_chars(v, 0, v.len() - n)
    } else {
        slice_chars(v, 0, v.len())
    }
}

/// `code` without its billing channel.
pub fn base_code_chars(code: &[char]) -> (r: Vec<char>)
    ensures
        r@ == base_code(code@),
{
    match find_char(code, '*') {
        Some(k) => slice_chars(code, 0, k),
        None => slice_chars(code, 0, code.len()),
    }
}

/// The code and the raw value of a line `code(value)`.
pub fn record_chars(line: &[char]) -> (r: Option<(Vec<char>, Vec<char>)>)
    ensures
        match r {
            Some((code, raw)) => record_of(line@) == Some((code@, raw@)),
            None => record_of(line@) is None,
        },
{
    proof {
        crate::text::lemma_first_index_found(line@, '(');
        crate::text::lemma_first_index_found(line@, ')');
    }
    match (find_char(line, '('), find_char(line, ')')) {
        (Some(o), Some(c)) => {
            if o < c {
                Some((slice_chars(line, 0, o), slice_chars(line, o + 1, c)))
            } else {
                None
            }
        },
        _ => None,
    }
}

/// Decodes the line `line` (as characters) into `reading`.
pub fn decode_chars(line: &[char], reading: &mut MeterReading)
    ensures
        final(reading)@ == decode(line@, old(reading)@),
        old(reading)@.wf() ==> final(reading)@.wf(),
{
    let (raw_code, raw) = match record_chars(line) {
        Some(p) => p,
        None => return ,
    };
    let code = base_code_chars(&raw_code);
    let v = trim_chars(&strip_unit_chars(&raw));
    match lookup_code(&code) {
        Some(Quantity::Value(f)) => {
            match parse_decimal(&v) {
                Some(d) => {
                    let ghost before = reading@;
                    reading.set(f, Some(d));
                    proof {
                        if before.wf() {
                            lemma_set_wf(before, f, d);
                        }
                    }
                },
                None => {},
            }
        },
        Some(Quantity::TimeOfDay) => {
            if v.len() >= 6 {
                let t = vec![v[0], v[1], ':', v[2], v[3], ':', v[4], v[5]];
                proof {
                    assert(t@ =~= time_text(v@));
                }
                reading.meter_time = string_of(&t);
                proof {
                    if old(reading)@.wf() {
                        lemma_same_values_wf(old(reading)@, reading@);
                    }
                }
            }
        },
        Some(Quantity::Date) => {
            if v.len() >= 7 {
                let t = vec![v[1], v[2], '-', v[3], v[4], '-', v[5], v[6]];
                proof {
                    assert(t@ =~= date_text(v@));
                }
                reading.meter_date = string_of(&t);
                proof {
                    if old(reading)@.wf() {
                        lemma_same_values_wf(old(reading)@, reading@);
                    }
                }
            }
        },
        None => {},
    }
}

/// Decodes one telegram data line `code(value)` into `reading`: the value of
/// a registered code goes to its quantity; anything else is ignored.
pub fn parse_obis_line(line: &str, reading: &mut MeterReading)
    ensures
        final(reading)@ == decode(line@, old(reading)@),
        old(reading)@.wf() ==> final(reading)@.wf(),
{
    let v = to_chars(line);
    decode_chars(&v, reading);
}

/// The unit suffixes a value may carry, or none.
pub open spec fn is_unit(u: Seq<char>) -> bool {
    u.len() == 0 || u == "*kWh"@ || u == "*kW"@ || u == "*V"@ || u == "*A"@ || u == "*Hz"@
}

/// A character that separates the parts of a data line.
pub open spec fn is_separator(c: char) -> bool {
    c == '(' || c == ')' || c == '*'
}

proof fn lemma_registered_code_chars(code: Seq<char>)
    requires
        quantity_of(code) is Some,
    ensures
        forall|i: int| 0 <= i < code.len() ==> !is_separator(#[trigger] code[i]),
{
    reveal_strlit("1-0:1.8.0");
    reveal_strlit("1-0:1.8.1");
    reveal_strlit("1-0:1.8.2");
    reveal_strlit("1-0:2.8.0");
    reveal_strlit("1-0:2.8.1");
    reveal_strlit("1-0:2.8.2");
    reveal_strlit("1-0:32.7.0");
    reveal_strlit("1-0:52.7.0");
    reveal_strlit("1-0:72.7.0");
    reveal_strlit("1-0:31.7.0");
    reveal_strlit("1-0:51.7.0");
    reveal_strlit("1-0:71.7.0");
    reveal_strlit("1-0:14.7.0");
    reveal_strlit("1-0:33.7.0");
    reveal_strlit("1-0:53.7.0");
    reveal_strlit("1-0:73.7.0");
    reveal_strlit("1-0:21.7.0");
    reveal_strlit("1-0:41.7.0");
    reveal_strlit("1-0:61.7.0");
    reveal_strlit("0.8.1");
    reveal_strlit("0.8.2");
}

proof fn lemma_unit_chars(u: Seq<char>)
    requires
        is_unit(u),
    ensures
        forall|i: int| 0 <= i < u.len() ==> #[trigger] u[i] != '(' && u[i] != ')',
        u.len() > 0 ==> u[0] == '*',
        u.len() <= 4,
{
    reveal_strlit("*kWh");
    reveal_strlit("*kW");
    reveal_strlit("*V");
    reveal_strlit("*A");
    reveal_strlit("*Hz");
}

/// Where decoding stops: the line carries no `code(value)` record, its code
/// is not in the registry, or its value does not read as a number.
pub open spec fn is_malformed(line: Seq<char>) -> bool {
    match record_of(line) {
        None => true,
        Some((code, raw)) => match quantity_of(base_code(code)) {
            None => true,
            Some(Quantity::Value(f)) => decimal_of(value_text(raw)) is None,
            Some(Quantity::TimeOfDay) => value_text(raw).len() < 6,
            Some(Quantity::Date) => value_text(raw).len() < 7,
        },
    }
}

/// A malformed line changes nothing: without both parentheses in order, with
/// an unregistered code, or with a value that does not read as a number (or
/// is a time or date that is too short),
/// the reading stays as it was.
pub proof fn lemma_malformed_line_ignored(line: Seq<char>, r: ReadingModel)
    requires
        is_malformed(line),
    ensures
        decode(line, r) == r,
{
}

/// A line missing either parenthesis, or holding `)` before `(`, is
/// malformed.
pub proof fn lemma_missing_parentheses(line: Seq<char>)
    requires
        first_index(line, '(') is None || first_index(line, ')') is None || first_index(line, ')')
            .unwrap() < first_index(line, '(').unwrap(),
    ensures
        is_malformed(line),
{
}

/// A billing channel after a code: nothing, or `*` and digits.
pub open spec fn is_channel(c: Seq<char>) -> bool {
    c.len() == 0 || (c[0] == '*' && all_digits(c.skip(1)))
}

/// Decoding a line `code*channel(value)`, with a registered numeric code, an
/// optional billing channel, and a value written as a decimal number with
/// any of the unit suffixes, stores that number as parsing keeps it in the
/// code's quantity; writing the stored value back out and reading it again
/// gives the same value.
pub proof fn lemma_decode_round_trip(
    code: Seq<char>,
    channel: Seq<char>,
    f: Field,
    n: Seq<char>,
    unit: Seq<char>,
    r: ReadingModel,
)
    requires
        quantity_of(code) == Some(Quantity::Value(f)),
        is_channel(channel),
        signed_value(n) is Some,
        is_unit(unit),
    ensures
        ({
            let line = code + channel + seq!['('] + n + unit + seq![')'];
            &&& decode(line, r) == store(f, decimal_of(n), r)
            &&& decimal_of(n) matches Some(d) ==> decimal_of(decimal_text(d)) == Some(d)
        }),
{
    let t = n;
    let v = t + unit;
    let cc = code + channel;
    let line = cc + seq!['('] + v + seq![')'];
    assert(line =~= code + channel + seq!['('] + n + unit + seq![')']);
    lemma_registered_code_chars(code);
    lemma_unit_chars(unit);
    lemma_number_chars(n);
    let n = cc.len() as int;
    let cl = code.len() as int;
    assert forall|j: int| 0 <= j < n implies cc[j] != '(' && cc[j] != ')' by {
        if j < cl {
            assert(cc[j] == code[j]);
            assert(!is_separator(code[j]));
        } else {
            assert(cc[j] == channel[j - cl]);
            if j > cl {
                assert(channel.skip(1)[j - cl - 1] == channel[j - cl]);
                assert(is_digit(channel.skip(1)[j - cl - 1]));
            }
        }
    }
    // the record's parentheses
    assert forall|j: int| 0 <= j < n implies line[j] != '(' && line[j] != ')' by {
        assert(line[j] == cc[j]);
    }
    assert(line[n] == '(');
    lemma_first_index(line, '(', n);
    assert forall|j: int| 0 <= j < n + 1 + v.len() implies line[j] != ')' by {
        if j > n {
            assert(line[j] == v[j - n - 1]);
            if j - n - 1 < t.len() {
                assert(v[j - n - 1] == t[j - n - 1]);
                let c = t[j - n - 1];
                assert(is_digit(c) || c == '-' || c == '+' || c == '.');
            } else {
                assert(v[j - n - 1] == unit[j - n - 1 - t.len()]);
            }
        }
    }
    assert(line[n + 1 + v.len()] == ')');
    lemma_first_index(line, ')', n + 1 + v.len());
    assert(line.take(n) =~= cc);
    assert(line.subrange(n + 1, n + 1 + v.len()) =~= v);
    assert(record_of(line) == Some((cc, v)));
    // the billing channel goes
    assert forall|j: int| 0 <= j < cl implies cc[j] != '*' by {
        assert(cc[j] == code[j]);
        assert(!is_separator(code[j]));
    }
    if channel.len() == 0 {
        assert(cc =~= code);
        lemma_first_index(cc, '*', cl);
    } else {
        assert(cc[cl] == '*');
        lemma_first_index(cc, '*', cl);
        assert(cc.take(cl) =~= code);
    }
    assert(base_code(cc) == code);
    // the unit goes, and nothing else
    assert(strip_unit(v) == t) by {
        reveal_strlit("*kWh");
        reveal_strlit("*kW");
        reveal_strlit("*V");
        reveal_strlit("*A");
        reveal_strlit("*Hz");
        let k = v.len();
        if unit.len() == 0 {
            assert(v =~= t);
            assert(is_digit(v.last()) || v.last() == '.');
            assert(!ends_with(v, "*kWh"@)) by {
                if ends_with(v, "*kWh"@) {
                    assert(v.subrange(k - 4, k as int)[3] == v.last());
                }
            }
            assert(!ends_with(v, "*kW"@)) by {
                if ends_with(v, "*kW"@) {
                    assert(v.subrange(k - 3, k as int)[2] == v.last());
                }
            }
            assert(!ends_with(v, "*V"@)) by {
                if ends_with(v, "*V"@) {
                    assert(v.subrange(k - 2, k as int)[1] == v.last());
                }
            }
            assert(!ends_with(v, "*A"@)) by {
                if ends_with(v, "*A"@) {
                    assert(v.subrange(k - 2, k as int)[1] == v.last());
                }
            }
            assert(!ends_with(v, "*Hz"@)) by {
                if ends_with(v, "*Hz"@) {
                    assert(v.subrange(k - 3, k as int)[2] == v.last());
                }
            }
        } else {
            let m = unit.len() as int;
            assert(v.subrange(k - m, k as int) =~= unit);
            assert(v.take(k - m) =~= t);
            assert(v.last() == unit.last());
            if unit != "*kWh"@ {
                assert(!ends_with(v, "*kWh"@)) by {
                    if ends_with(v, "*kWh"@) {
                        assert(v.subrange(k - 4, k as int)[3] == v.last());
                        assert(unit == "*kW"@ ==> v.subrange(k - 4, k as int)[2] == unit[2]);
                    }
                }
            }
            if unit != "*kWh"@ && unit != "*kW"@ {
                assert(!ends_with(v, "*kW"@)) by {
                    if ends_with(v, "*kW"@) {
                        assert(v.subrange(k - 3, k as int)[2] == v.last());
                    }
                }
            }
            if unit == "*A"@ || unit == "*Hz"@ {
                assert(!ends_with(v, "*V"@)) by {
                    if ends_with(v, "*V"@) {
                        assert(v.subrange(k - 2, k as int)[1] == v.last());
                    }
                }
            }
            if unit == "*Hz"@ {
                assert(!ends_with(v, "*A"@)) by {
                    if ends_with(v, "*A"@) {
                        assert(v.subrange(k - 2, k as int)[1] == v.last());
                    }
                }
            }
        }
    }
    // no blanks at either end
    lemma_trim_start(t, 0);
    assert(t.skip(0) =~= t);
    lemma_trim_end(t, t.len() as int);
    assert(t.take(t.len() as int) =~= t);
    lemma_decimal_of_parsed(t);
    if let Some(d) = decimal_of(t) {
        lemma_text_round_trip(d);
    }
}

} // verus!
