//! The wake-up handshake's rules: wire bytes, identification check, baud-rate
//! negotiation, serial parameters, and the choice of candidate ports.
use vstd::prelude::*;
use crate::error::MeterError;
use crate::text::{
    contains, contains_chars, string_of, strip_slashes, strip_slashes_chars, to_chars, trim,
    trim_chars,
};

verus! {

/// The baud rate at which every exchange starts.
pub const BAUD_RATE: u32 = 300;

/// Data bits per character.
pub const DATA_BITS: u8 = 7;

/// Stop bits per character.
pub const STOP_BITS: u8 = 1;

/// Delay after the wake-up sequence, before the identification is read.
pub const INIT_SETTLE_MILLIS: u64 = 500;

/// Delay after the acknowledgement, before the local baud rate changes.
pub const SWITCH_SETTLE_MILLIS: u64 = 300;

/// Delay before each poll after the first, letting the optical head idle.
pub const POLL_SETTLE_MILLIS: u64 = 1000;

/// Parity of each character.
#[derive(Clone, Copy, Debug, PartialEq, Eq, Structural)]
pub enum Parity {
    Even,
}

/// The physical parameters of the optical link.
#[derive(Clone, Copy, Debug, PartialEq, Eq, Structural)]
pub struct SerialParameters {
    pub baud_rate: u32,
    pub data_bits: u8,
    pub parity: Parity,
    pub stop_bits: u8,
    pub timeout_millis: u64,
}

/// The parameters a port is opened with: 7 data bits, even parity, 1 stop
/// bit, 300 baud, and the given read timeout.
pub fn serial_parameters(timeout_millis: u64) -> (r: SerialParameters)
    ensures
        r == (SerialParameters {
            baud_rate: BAUD_RATE,
            data_bits: DATA_BITS,
            parity: Parity::Even,
            stop_bits: STOP_BITS,
            timeout_millis,
        }),
{
    SerialParameters {
        baud_rate: BAUD_RATE,
        data_bits: DATA_BITS,
        parity: Parity::Even,
        stop_bits: STOP_BITS,
        timeout_millis,
    }
}

/// The wake-up sequence `/?!` CR LF.
pub open spec fn init_bytes() -> Seq<u8> {
    seq![0x2Fu8, 0x3Fu8, 0x21u8, 0x0Du8, 0x0Au8]
}

/// The wake-up sequence, as bytes to send.
pub fn init_sequence() -> (r: Vec<u8>)
    ensures
        r@ == init_bytes(),
{
    let r: Vec<u8> = vec![0x2F, 0x3F, 0x21, 0x0D, 0x0A];
    assert(r@ =~= init_bytes());
    r
}

/// The baud rate that an identification character advertises.
pub open spec fn baud_of(c: char) -> Option<u32> {
    if c == '0' {
        Some(300)
    } else if c == '1' {
        Some(600)
    } else if c == '2' {
        Some(1200)
    } else if c == '3' {
        Some(2400)
    } else if c == '4' {
        Some(4800)
    } else if c == '5' {
        Some(9600)
    } else if c == '6' {
        Some(19200)
    } else {
        None
    }
}

/// Maps the baud-rate character of an identification to its baud rate.
pub fn baud_rate_from_char(c: char) -> (r: Option<u32>)
    ensures
        r == baud_of(c),
{
    match c {
        '0' => Some(300),
        '1' => Some(600),
        '2' => Some(1200),
        '3' => Some(2400),
        '4' => Some(4800),
        '5' => Some(9600),
        '6' => Some(19200),
        _ => None,
    }
}

/// The baud-rate character of an identification: the fourth character after
/// the leading `/`s, after the three-letter vendor code.
pub open spec fn baud_char_of(identification: Seq<char>) -> Option<char> {
    let id = strip_slashes(identification);
    if id.len() > 3 {
        Some(id[3])
    } else {
        None
    }
}

/// Extracts the baud-rate character from an identification line such as
/// `/ISk5MT174-0001`.
pub fn parse_baud_char(identification: &str) -> (r: Option<char>)
    ensures
        r == baud_char_of(identification@),
{
    let id = strip_slashes_chars(&to_chars(identification));
    if id.len() > 3 {
        Some(id[3])
    } else {
        None
    }
}

/// A baud-rate change that the meter offered: its character and the rate.
#[derive(Clone, Copy, Debug, PartialEq, Eq, Structural)]
pub struct BaudSwitch {
    pub baud_char: char,
    pub rate: u32,
}

/// The change that an identification line offers: only a mapped rate above
/// the starting rate is taken.
pub open spec fn negotiation(line: Seq<char>) -> Option<BaudSwitch> {
    match baud_char_of(trim(line)) {
        Some(c) => match baud_of(c) {
            Some(rate) => if rate > BAUD_RATE {
                Some(BaudSwitch { baud_char: c, rate })
            } else {
                None
            },
            None => None,
        },
        None => None,
    }
}

/// The acknowledgement that selects the offered rate: ACK, `0`, the rate's
/// character, `0`, CR LF.
pub open spec fn ack_bytes(c: char) -> Seq<u8> {
    seq![0x06u8, 0x30u8, c as u8, 0x30u8, 0x0Du8, 0x0Au8]
}

/// The acknowledgement for the baud-rate character `c`.
pub fn baud_ack(c: char) -> (r: Vec<u8>)
    requires
        baud_of(c) is Some,
    ensures
        r@ == ack_bytes(c),
{
    let b = (c as u32) as u8;
    let r: Vec<u8> = vec![0x06, 0x30, b, 0x30, 0x0D, 0x0A];
    assert(r@ =~= ack_bytes(c));
    r
}

/// What a confirmed identification line says.
#[derive(Debug)]
pub struct Identification {
    /// The identification without blanks and its leading `/`.
    pub device_id: String,
    /// The baud-rate change to make, if any.
    pub switch: Option<BaudSwitch>,
}

/// Checks the identification line `line` against the expected device text:
/// it is confirmed where its text contains `device_id`, and rejected else.
pub fn check_identification(line: &str, device_id: &str) -> (r: Result<Identification, MeterError>)
    ensures
        match r {
            Ok(id) => {
                &&& contains(trim(line@), device_id@)
                &&& id.device_id@ == strip_slashes(trim(line@))
                &&& id.switch == negotiation(line@)
            },
            Err(e) => !contains(trim(line@), device_id@) && e == MeterError::HandshakeRejected,
        },
{
    let t = trim_chars(&to_chars(line));
    if !contains_chars(&t, &to_chars(device_id)) {
        return Err(MeterError::HandshakeRejected);
    }
    let id = strip_slashes_chars(&t);
    let switch = if id.len() > 3 {
        let c = id[3];
        match baud_rate_from_char(c) {
            Some(rate) => if rate > BAUD_RATE {
                Some(BaudSwitch { baud_char: c, rate })
            } else {
                None
            },
            None => None,
        }
    } else {
        None
    };
    Ok(Identification { device_id: string_of(&id), switch })
}

/// What a probe of one port gave: the device's identification and the baud
/// rate the port was left at.
#[derive(Debug)]
pub struct ProbeResult {
    pub device_id: String,
    pub negotiated_baud: u32,
}

/// Whether a port name follows the USB-serial naming convention.
pub open spec fn is_usb_serial(name: Seq<char>) -> bool {
    contains(name, "ttyUSB"@)
}

/// The USB-serial names among `names`, in order.
pub open spec fn usb_only(names: Seq<Seq<char>>) -> Seq<Seq<char>>
    decreases names.len(),
{
    if names.len() == 0 {
        Seq::empty()
    } else if is_usb_serial(names.last()) {
        usb_only(names.drop_last()).push(names.last())
    } else {
        usb_only(names.drop_last())
    }
}

pub open spec fn names_of(v: Seq<String>) -> Seq<Seq<char>> {
    v.map_values(|s: String| s@)
}

/// The candidate ports among the serial ports `names`, in order: those that
/// follow the USB-serial naming convention; `NoCandidatePorts` where none
/// does.
pub fn usb_candidates(names: &Vec<String>) -> (r: Result<Vec<String>, MeterError>)
    ensures
        match r {
            Ok(v) => names_of(v@) == usb_only(names_of(names@)) && v@.len() > 0,
            Err(e) => usb_only(names_of(names@)).len() == 0 && e == MeterError::NoCandidatePorts,
        },
{
    let usb = to_chars("ttyUSB");
    let mut out: Vec<String> = Vec::new();
    let mut i: usize = 0;
    while i < names.len()
        invariant
            i <= names.len(),
            usb@ == "ttyUSB"@,
            names_of(out@) == usb_only(names_of(names@).take(i as int)),
        decreases names.len() - i,
    {
        let ghost before = out@;
        let n = to_chars(names[i].as_str());
        proof {
            let all = names_of(names@);
            assert(all.take(i + 1).drop_last() =~= all.take(i as int));
            assert(all.take(i + 1).last() == names@[i as int]@);
        }
        if contains_chars(&n, &usb) {
            out.push(names[i].clone());
            proof {
                assert(names_of(out@) =~= names_of(before).push(names@[i as int]@));
            }
        }
        i = i + 1;
    }
    proof {
        assert(names_of(names@).take(names.len() as int) =~= names_of(names@));
    }
    if out.len() == 0 {
        return Err(MeterError::NoCandidatePorts);
    }
    Ok(out)
}

/// What came of probing one candidate port.
#[derive(Clone, Copy, Debug, PartialEq, Eq, Structural)]
pub enum ProbeOutcome {
    /// The port answered as the expected device.
    Confirmed,
    /// Another device answered.
    Rejected,
    /// The port could not be opened or talked to.
    Failed,
}

/// What the search does next.
#[derive(Debug)]
pub enum ProbeStep {
    /// Probe this port.
    Try { name: String },
    /// The last port probed is the meter's: keep it.
    Found,
    /// Every candidate failed.
    GiveUp { error: MeterError },
}

/// The search for the meter among the candidate ports: each is tried in
/// order until one answers as the expected device.
pub struct Prober {
    pub candidates: Vec<String>,
    pub tried: usize,
}

impl Prober {
    /// A search over the USB-serial ports among the serial ports `names`;
    /// `NoCandidatePorts` where there is none.
    pub fn new(names: &Vec<String>) -> (r: Result<Prober, MeterError>)
        ensures
            match r {
                Ok(p) => {
                    &&& names_of(p.candidates@) == usb_only(names_of(names@))
                    &&& p.candidates@.len() > 0
                    &&& p.tried == 0
                },
                Err(e) => usb_only(names_of(names@)).len() == 0 && e == MeterError::NoCandidatePorts,
            },
    {
        match usb_candidates(names) {
            Ok(candidates) => Ok(Prober { candidates, tried: 0 }),
            Err(e) => Err(e),
        }
    }

    /// The next port to try, in order; once every candidate has been tried
    /// without success, `DeviceNotFound` with the number tried.
    pub fn next_candidate(&mut self) -> (r: Result<String, MeterError>)
        ensures
            final(self).candidates == old(self).candidates,
            old(self).tried < old(self).candidates@.len() ==> {
                &&& r matches Ok(name) && name@ == old(self).candidates@[old(self).tried as int]@
                &&& final(self).tried == old(self).tried + 1
            },
            old(self).tried >= old(self).candidates@.len() ==> {
                &&& r == Err::<String, MeterError>(
                    MeterError::DeviceNotFound { attempted: old(self).candidates@.len() as usize },
                )
                &&& final(self).tried == old(self).tried
            },
    {
        if self.tried < self.candidates.len() {
            let name = self.candidates[self.tried].clone();
            self.tried = self.tried + 1;
            Ok(name)
        } else {
            Err(MeterError::DeviceNotFound { attempted: self.candidates.len() })
        }
    }

    /// The first step of the search: try the first candidate.
    pub fn start(&mut self) -> (r: ProbeStep)
        ensures
            final(self).candidates == old(self).candidates,
            old(self).tried < old(self).candidates@.len() ==> {
                &&& r matches ProbeStep::Try { name } && name@ == old(
                    self,
                ).candidates@[old(self).tried as int]@
                &&& final(self).tried == old(self).tried + 1
            },
            old(self).tried >= old(self).candidates@.len() ==> {
                &&& r matches ProbeStep::GiveUp { error } && error == (MeterError::DeviceNotFound {
                    attempted: old(self).candidates@.len() as usize,
                })
                &&& final(self).tried == old(self).tried
            },
    {
        match self.next_candidate() {
            Ok(name) => ProbeStep::Try { name },
            Err(error) => ProbeStep::GiveUp { error },
        }
    }

    /// The step after probing the last candidate handed out: stop at the
    /// first that answered as the device; else try the next candidate in
    /// order, or give up once none is left.
    pub fn after(&mut self, outcome: ProbeOutcome) -> (r: ProbeStep)
        ensures
            final(self).candidates == old(self).candidates,
            outcome == ProbeOutcome::Confirmed ==> r is Found && final(self).tried == old(
                self,
            ).tried,
            outcome != ProbeOutcome::Confirmed && old(self).tried < old(self).candidates@.len() ==> {
                &&& r matches ProbeStep::Try { name } && name@ == old(
                    self,
                ).candidates@[old(self).tried as int]@
                &&& final(self).tried == old(self).tried + 1
            },
            outcome != ProbeOutcome::Confirmed && old(self).tried >= old(self).candidates@.len() ==> {
                &&& r matches ProbeStep::GiveUp { error } && error == (MeterError::DeviceNotFound {
                    attempted: old(self).candidates@.len() as usize,
                })
                &&& final(self).tried == old(self).tried
            },
    {
        if outcome == ProbeOutcome::Confirmed {
            return ProbeStep::Found;
        }
        self.start()
    }
}

/// Only the characters `0` to `6` advertise a baud rate.
pub proof fn lemma_baud_chars(c: char)
    ensures
        baud_of(c) is Some <==> '0' <= c <= '6',
{
}

/// The link stays at the starting rate unless the identification's
/// baud-rate character is one of `1` to `6`: `0` advertises the starting
/// rate itself, and any other character advertises none.
pub proof fn lemma_no_negotiation(line: Seq<char>)
    requires
        !(baud_char_of(trim(line)) matches Some(c) && '1' <= c <= '6'),
    ensures
        negotiation(line) is None,
{
}

} // verus!
