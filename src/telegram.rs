//! Framing of the telegram that follows the handshake into data lines, and
//! assembly of the reading from them.
use vstd::prelude::*;
use crate::error::MeterError;
use crate::meter::{lemma_same_values_wf, MeterReading, ReadingModel};
use crate::obis::{decode, decode_chars};
use crate::text::{
    contains, contains_chars, string_of, strip_slashes, strip_slashes_chars, to_chars, trim,
    trim_chars,
};

verus! {

/// What a line meant to the telegram reader.
#[derive(Clone, Copy, Debug, PartialEq, Eq, Structural)]
pub enum LineOutcome {
    /// Read on.
    More,
    /// The `!` line: the telegram is complete.
    Complete,
    /// An identification line that names another device.
    Rejected,
}

/// The state of a telegram being read.
pub struct FramerModel {
    /// The device-identifier text that the identification must contain.
    pub expected: Seq<char>,
    /// Whether an identification line has been confirmed.
    pub identified: bool,
    pub reading: ReadingModel,
}

/// The reader's state after the line `line`, and what the line meant.
///
/// An identification line (`/...`) is confirmed if it contains the expected
/// text, and rejected if not; once one is confirmed, later ones are echoes
/// and ignored.  A line starting with `!` completes the telegram, blank lines
/// are skipped, and every other line is decoded as a data record.
pub open spec fn feed(st: FramerModel, line: Seq<char>) -> (FramerModel, LineOutcome) {
    let t = trim(line);
    if t.len() > 0 && t[0] == '/' {
        if st.identified {
            (st, LineOutcome::More)
        } else if contains(t, st.expected) {
            (
                FramerModel {
                    identified: true,
                    reading: ReadingModel { device_id: strip_slashes(t), ..st.reading },
                    ..st
                },
                LineOutcome::More,
            )
        } else {
            (st, LineOutcome::Rejected)
        }
    } else if t.len() > 0 && t[0] == '!' {
        (st, LineOutcome::Complete)
    } else if t.len() == 0 {
        (st, LineOutcome::More)
    } else {
        (FramerModel { reading: decode(t, st.reading), ..st }, LineOutcome::More)
    }
}

/// The reading once the telegram is complete: powers derived, or an error
/// where no identification was confirmed.
pub open spec fn finish(st: FramerModel) -> Result<ReadingModel, MeterError> {
    if st.identified {
        Ok(st.reading.with_power())
    } else {
        Err(MeterError::MissingIdentification)
    }
}

/// The outcome of reading the lines `lines`, after which the input ends.
pub open spec fn run(st: FramerModel, lines: Seq<Seq<char>>) -> Result<ReadingModel, MeterError>
    decreases lines.len(),
{
    if lines.len() == 0 {
        Err(MeterError::IncompleteTelegram)
    } else {
        let (next, o) = feed(st, lines[0]);
        match o {
            LineOutcome::Complete => finish(next),
            LineOutcome::Rejected => Err(MeterError::HandshakeRejected),
            LineOutcome::More => run(next, lines.skip(1)),
        }
    }
}

/// The state in which a telegram starts: where the identification was
/// already read during the handshake, `device_id` is that identification.
pub open spec fn start(device_id: Seq<char>, device_id_consumed: bool) -> FramerModel {
    FramerModel {
        expected: device_id,
        identified: device_id_consumed,
        reading: if device_id_consumed {
            ReadingModel { device_id: device_id, ..ReadingModel::empty() }
        } else {
            ReadingModel::empty()
        },
    }
}

/// The reading `m` stamped with the time `t`.
pub open spec fn stamped(m: ReadingModel, t: Seq<char>) -> ReadingModel {
    ReadingModel { timestamp: t, ..m }
}

/// `r` is the outcome `spec`, its reading stamped with the time `t`.
pub open spec fn outcome_is(
    r: Result<MeterReading, MeterError>,
    spec: Result<ReadingModel, MeterError>,
    t: Seq<char>,
) -> bool {
    match (r, spec) {
        (Ok(x), Ok(m)) => x@ == stamped(m, t),
        (Err(e), Err(f)) => e == f,
        _ => false,
    }
}

/// The reader once its reading has been handed out.
pub open spec fn spent(st: FramerModel) -> FramerModel {
    FramerModel { reading: ReadingModel::empty(), ..st }
}

/// The lines' texts.
pub open spec fn texts(lines: Seq<String>) -> Seq<Seq<char>> {
    lines.map_values(|s: String| s@)
}

/// A telegram being read.
pub struct TelegramReader {
    pub expected: Vec<char>,
    pub identified: bool,
    pub reading: MeterReading,
}

impl View for TelegramReader {
    type V = FramerModel;

    open spec fn view(&self) -> FramerModel {
        FramerModel {
            expected: self.expected@,
            identified: self.identified,
            reading: self.reading@,
        }
    }
}

impl TelegramReader {
    /// A reader for a telegram from the device `device_id`; where
    /// `device_id_consumed`, the identification `device_id` was already read.
    pub fn new(device_id: &str, device_id_consumed: bool) -> (r: TelegramReader)
        ensures
            r@ == start(device_id@, device_id_consumed),
            r@.reading.wf(),
    {
        let mut reading = MeterReading::new();
        if device_id_consumed {
            reading.device_id = string_of(&to_chars(device_id));
        }
        TelegramReader { expected: to_chars(device_id), identified: device_id_consumed, reading }
    }

    /// Takes in one line of the telegram.
    pub fn feed(&mut self, line: &str) -> (o: LineOutcome)
        requires
            old(self)@.reading.wf(),
        ensures
            (final(self)@, o) == feed(old(self)@, line@),
            final(self)@.reading.wf(),
    {
        let raw = to_chars(line);
        let t = trim_chars(&raw);
        if t.len() > 0 && t[0] == '/' {
            if self.identified {
                return LineOutcome::More;
            }
            if contains_chars(&t, &self.expected) {
                self.identified = true;
                self.reading.device_id = string_of(&strip_slashes_chars(&t));
                proof {
                    lemma_same_values_wf(old(self)@.reading, self@.reading);
                }
                return LineOutcome::More;
            }
            return LineOutcome::Rejected;
        }
        if t.len() > 0 && t[0] == '!' {
            return LineOutcome::Complete;
        }
        if t.len() == 0 {
            return LineOutcome::More;
        }
        decode_chars(&t, &mut self.reading);
        LineOutcome::More
    }

    /// The reading of a complete telegram, stamped with `timestamp`; the
    /// reader keeps an empty reading.
    pub fn complete(&mut self, timestamp: String) -> (r: Result<MeterReading, MeterError>)
        requires
            old(self)@.reading.wf(),
        ensures
            match finish(old(self)@) {
                Ok(m) => r matches Ok(x) && x@ == stamped(m, timestamp@),
                Err(e) => r == Err::<MeterReading, MeterError>(e),
            },
            final(self)@ == spent(old(self)@),
            final(self)@.reading.wf(),
    {
        let mut reading = MeterReading::new();
        std::mem::swap(&mut reading, &mut self.reading);
        if !self.identified {
            return Err(MeterError::MissingIdentification);
        }
        reading.calculate_power();
        reading.timestamp = timestamp;
        Ok(reading)
    }
}

/// Reads a telegram from `lines`, the lines that the port delivered before
/// its input ended, and assembles the reading, stamped with `timestamp`, the
/// time at which the telegram ended.
/// Where `device_id_consumed`, the identification was read during the
/// handshake and `device_id` is that identification; else the telegram's
/// identification line must contain `device_id`.
pub fn read_telegram(
    lines: &Vec<String>,
    device_id: &str,
    device_id_consumed: bool,
    timestamp: &str,
) -> (r: Result<MeterReading, MeterError>)
    ensures
        outcome_is(r, run(start(device_id@, device_id_consumed), texts(lines@)), timestamp@),
{
    let ghost all = texts(lines@);
    let mut reader = TelegramReader::new(device_id, device_id_consumed);
    let mut i: usize = 0;
    assert(all.skip(0) =~= all);
    while i < lines.len()
        invariant
            i <= lines.len(),
            all == texts(lines@),
            reader@.reading.wf(),
            run(start(device_id@, device_id_consumed), all) == run(reader@, all.skip(i as int)),
        decreases lines.len() - i,
    {
        proof {
            assert(all.skip(i as int)[0] == lines@[i as int]@);
            assert(all.skip(i as int).skip(1) =~= all.skip(i + 1));
        }
        let o = reader.feed(lines[i].as_str());
        match o {
            LineOutcome::Complete => {
                return reader.complete(timestamp.to_owned());
            },
            LineOutcome::Rejected => {
                return Err(MeterError::HandshakeRejected);
            },
            LineOutcome::More => {},
        }
        i = i + 1;
    }
    Err(MeterError::IncompleteTelegram)
}

/// An identification line: its text starts with `/`.
pub open spec fn is_ident_line(line: Seq<char>) -> bool {
    trim(line).len() > 0 && trim(line)[0] == '/'
}

/// The terminator line: its text starts with `!`.
pub open spec fn is_end_line(line: Seq<char>) -> bool {
    trim(line).len() > 0 && trim(line)[0] == '!'
}

/// A telegram whose identification line does not contain the expected
/// device text fails with `HandshakeRejected`, whatever data lines came
/// before it, and yields no reading.
pub proof fn lemma_foreign_identification_rejected(st: FramerModel, lines: Seq<Seq<char>>, k: int)
    requires
        !st.identified,
        0 <= k < lines.len(),
        forall|j: int| 0 <= j < k ==> !is_ident_line(#[trigger] lines[j]) && !is_end_line(lines[j]),
        is_ident_line(lines[k]),
        !contains(trim(lines[k]), st.expected),
    ensures
        run(st, lines) == Err::<ReadingModel, MeterError>(MeterError::HandshakeRejected),
    decreases k,
{
    if k > 0 {
        let (next, o) = feed(st, lines[0]);
        assert(!is_ident_line(lines[0]) && !is_end_line(lines[0]));
        assert(o == LineOutcome::More);
        assert forall|j: int| 0 <= j < k - 1 implies !is_ident_line(#[trigger] lines.skip(1)[j])
            && !is_end_line(lines.skip(1)[j]) by {
            assert(lines.skip(1)[j] == lines[j + 1]);
        }
        lemma_foreign_identification_rejected(next, lines.skip(1), k - 1);
    }
}

/// A telegram whose input ends before any `!` line yields no reading: it
/// fails with `IncompleteTelegram`, or with `HandshakeRejected` where an
/// identification line named another device; once the identification is
/// confirmed, it is `IncompleteTelegram`.
pub proof fn lemma_truncated_telegram(st: FramerModel, lines: Seq<Seq<char>>)
    requires
        forall|j: int| 0 <= j < lines.len() ==> !is_end_line(#[trigger] lines[j]),
    ensures
        run(st, lines) == Err::<ReadingModel, MeterError>(MeterError::IncompleteTelegram) || run(
            st,
            lines,
        ) == Err::<ReadingModel, MeterError>(MeterError::HandshakeRejected),
        st.identified ==> run(st, lines) == Err::<ReadingModel, MeterError>(
            MeterError::IncompleteTelegram,
        ),
    decreases lines.len(),
{
    if lines.len() > 0 {
        let (next, o) = feed(st, lines[0]);
        assert(!is_end_line(lines[0]));
        assert(st.identified ==> next.identified && o == LineOutcome::More);
        assert forall|j: int| 0 <= j < lines.len() - 1 implies !is_end_line(
            #[trigger] lines.skip(1)[j],
        ) by {
            assert(lines.skip(1)[j] == lines[j + 1]);
        }
        lemma_truncated_telegram(next, lines.skip(1));
    }
}

} // verus!
