//! The poll cycle over one serial connection, as a state machine.
//!
//! The machine performs no I/O itself: each step takes the outcome of the
//! command it issued before (an `Event`) and says what to do next (an
//! `Action`).  The caller performs the command on the port and reports back.
use vstd::prelude::*;
use crate::error::MeterError;
use crate::meter::{MeterReading, ReadingModel};
use crate::probe::{
    baud_char_of, lemma_no_negotiation, ack_bytes, baud_ack, check_identification, init_bytes, init_sequence, negotiation, BaudSwitch,
    BAUD_RATE, INIT_SETTLE_MILLIS, POLL_SETTLE_MILLIS, SWITCH_SETTLE_MILLIS,
};
use crate::telegram::{
    feed, finish, spent, stamped, start, FramerModel, LineOutcome, TelegramReader,
};
use crate::text::{contains, strip_slashes, trim};

verus! {

/// An I/O command for the caller to perform on the port.
#[derive(Debug)]
pub enum Command {
    /// Wait this long.
    Sleep { millis: u64 },
    /// Change the local baud rate.
    SetBaudRate { rate: u32 },
    /// Discard buffered input.
    ClearInput,
    /// Write these bytes and flush.
    Write { bytes: Vec<u8> },
    /// Read one line.
    ReadLine,
}

pub enum CommandModel {
    Sleep(u64),
    SetBaudRate(u32),
    ClearInput,
    Write(Seq<u8>),
    ReadLine,
}

impl View for Command {
    type V = CommandModel;

    open spec fn view(&self) -> CommandModel {
        match self {
            Command::Sleep { millis } => CommandModel::Sleep(*millis),
            Command::SetBaudRate { rate } => CommandModel::SetBaudRate(*rate),
            Command::ClearInput => CommandModel::ClearInput,
            Command::Write { bytes } => CommandModel::Write(bytes@),
            Command::ReadLine => CommandModel::ReadLine,
        }
    }
}

/// The outcome of the last command, or the start of a poll.
#[derive(Debug)]
pub enum Event {
    /// Start a poll cycle.
    Begin,
    /// The command completed.
    Done,
    /// The command failed; for a read, with an error other than a timeout.
    Failed,
    /// A line was read, at the local time `at`
    /// (`YYYY-MM-DD HH:MM:SS.ffffff`), which stamps a reading that it
    /// completes.
    Line { text: String, at: String },
    /// The read returned nothing: the input ended.
    Eof,
    /// The read timed out.
    TimedOut,
}

/// The progress of one wake-up handshake.
#[derive(Clone, Copy, Debug, PartialEq, Eq, Structural)]
pub enum HandshakePhase {
    SendingInit,
    InitSettling,
    AwaitingIdent,
    SendingAck(BaudSwitch),
    AckSettling(BaudSwitch),
    SwitchingBaud(BaudSwitch),
    Finished,
}

pub struct HandshakeModel {
    pub device_id: Seq<char>,
    pub phase: HandshakePhase,
    pub ident: Seq<char>,
}

/// What a handshake step asks for or concludes.
pub enum HandshakeStep {
    Act(CommandModel),
    Confirmed(Seq<char>, Option<u32>),
    Failed(MeterError),
    Ignored,
}

/// A handshake that has just sent its wake-up sequence.
pub open spec fn hs_start(device_id: Seq<char>) -> HandshakeModel {
    HandshakeModel { device_id, phase: HandshakePhase::SendingInit, ident: Seq::empty() }
}

/// One step of the handshake: wake-up sequence, settle delay, identification
/// line, then, where a higher rate is offered, acknowledgement, switch delay
/// and local baud-rate change.  An event that does not answer the pending
/// command is ignored.
pub open spec fn hs_next(h: HandshakeModel, e: Event) -> (HandshakeModel, HandshakeStep) {
    let finished = HandshakeModel { phase: HandshakePhase::Finished, ..h };
    match (h.phase, e) {
        (HandshakePhase::SendingInit, Event::Done) => (
            HandshakeModel { phase: HandshakePhase::InitSettling, ..h },
            HandshakeStep::Act(CommandModel::Sleep(INIT_SETTLE_MILLIS)),
        ),
        (HandshakePhase::SendingInit, Event::Failed) => (
            finished,
            HandshakeStep::Failed(MeterError::WriteFailed),
        ),
        (HandshakePhase::InitSettling, Event::Done) => (
            HandshakeModel { phase: HandshakePhase::AwaitingIdent, ..h },
            HandshakeStep::Act(CommandModel::ReadLine),
        ),
        (HandshakePhase::AwaitingIdent, Event::Line { text, .. }) => {
            let t = trim(text@);
            if contains(t, h.device_id) {
                let ident = strip_slashes(t);
                match negotiation(text@) {
                    Some(sw) => (
                        HandshakeModel { phase: HandshakePhase::SendingAck(sw), ident, ..h },
                        HandshakeStep::Act(CommandModel::Write(ack_bytes(sw.baud_char))),
                    ),
                    None => (
                        HandshakeModel { phase: HandshakePhase::Finished, ident, ..h },
                        HandshakeStep::Confirmed(ident, None),
                    ),
                }
            } else {
                (finished, HandshakeStep::Failed(MeterError::HandshakeRejected))
            }
        },
        (HandshakePhase::AwaitingIdent, Event::Eof) => (
            finished,
            HandshakeStep::Failed(MeterError::HandshakeRejected),
        ),
        (HandshakePhase::AwaitingIdent, Event::TimedOut) => (
            finished,
            HandshakeStep::Failed(MeterError::ReadTimeout),
        ),
        (HandshakePhase::AwaitingIdent, Event::Failed) => (
            finished,
            HandshakeStep::Failed(MeterError::ReadFailed),
        ),
        (HandshakePhase::SendingAck(sw), Event::Done) => (
            HandshakeModel { phase: HandshakePhase::AckSettling(sw), ..h },
            HandshakeStep::Act(CommandModel::Sleep(SWITCH_SETTLE_MILLIS)),
        ),
        (HandshakePhase::SendingAck(sw), Event::Failed) => (
            finished,
            HandshakeStep::Failed(MeterError::WriteFailed),
        ),
        (HandshakePhase::AckSettling(sw), Event::Done) => (
            HandshakeModel { phase: HandshakePhase::SwitchingBaud(sw), ..h },
            HandshakeStep::Act(CommandModel::SetBaudRate(sw.rate)),
        ),
        (HandshakePhase::SwitchingBaud(sw), Event::Done) => (
            finished,
            HandshakeStep::Confirmed(h.ident, Some(sw.rate)),
        ),
        (HandshakePhase::SwitchingBaud(sw), Event::Failed) => (
            finished,
            HandshakeStep::Failed(MeterError::BaudChangeFailed),
        ),
        _ => (h, HandshakeStep::Ignored),
    }
}

/// What a handshake step asks for or concludes.
#[derive(Debug)]
pub enum HandshakeOutcome {
    /// Perform this command and report back.
    Act(Command),
    /// The device answered: its identification, and the new baud rate where
    /// one was negotiated.
    Confirmed { device_id: String, rate: Option<u32> },
    /// The handshake failed.
    Failed(MeterError),
    /// The event did not answer the pending command.
    Ignored,
}

pub open spec fn hs_outcome_is(o: HandshakeOutcome, s: HandshakeStep) -> bool {
    match (o, s) {
        (HandshakeOutcome::Act(c), HandshakeStep::Act(m)) => c@ == m,
        (HandshakeOutcome::Confirmed { device_id, rate }, HandshakeStep::Confirmed(i, r)) => device_id@
            == i && rate == r,
        (HandshakeOutcome::Failed(e), HandshakeStep::Failed(f)) => e == f,
        (HandshakeOutcome::Ignored, HandshakeStep::Ignored) => true,
        _ => false,
    }
}

/// One wake-up handshake with a meter.
pub struct Handshake {
    pub device_id: String,
    pub phase: HandshakePhase,
    pub ident: String,
}

impl View for Handshake {
    type V = HandshakeModel;

    open spec fn view(&self) -> HandshakeModel {
        HandshakeModel { device_id: self.device_id@, phase: self.phase, ident: self.ident@ }
    }
}

impl Handshake {
    /// A handshake with the device whose identification contains
    /// `device_id`, and its first command: send the wake-up sequence.
    pub fn new(device_id: &str) -> (r: (Handshake, Command))
        ensures
            r.0@ == hs_start(device_id@),
            r.1@ == CommandModel::Write(init_bytes()),
    {
        (
            Handshake {
                device_id: device_id.to_owned(),
                phase: HandshakePhase::SendingInit,
                ident: String::new(),
            },
            Command::Write { bytes: init_sequence() },
        )
    }

    /// Takes the outcome of the last command.
    pub fn step(&mut self, e: Event) -> (r: HandshakeOutcome)
        ensures
            final(self)@ == hs_next(old(self)@, e).0,
            hs_outcome_is(r, hs_next(old(self)@, e).1),
    {
        match self.phase {
            HandshakePhase::SendingInit => match e {
                Event::Done => {
                    self.phase = HandshakePhase::InitSettling;
                    HandshakeOutcome::Act(Command::Sleep { millis: INIT_SETTLE_MILLIS })
                },
                Event::Failed => {
                    self.phase = HandshakePhase::Finished;
                    HandshakeOutcome::Failed(MeterError::WriteFailed)
                },
                _ => HandshakeOutcome::Ignored,
            },
            HandshakePhase::InitSettling => match e {
                Event::Done => {
                    self.phase = HandshakePhase::AwaitingIdent;
                    HandshakeOutcome::Act(Command::ReadLine)
                },
                _ => HandshakeOutcome::Ignored,
            },
            HandshakePhase::AwaitingIdent => match e {
                Event::Line { text, .. } => {
                    match check_identification(text.as_str(), self.device_id.as_str()) {
                        Ok(id) => {
                            match id.switch {
                                Some(sw) => {
                                    self.phase = HandshakePhase::SendingAck(sw);
                                    self.ident = id.device_id;
                                    HandshakeOutcome::Act(
                                        Command::Write { bytes: baud_ack(sw.baud_char) },
                                    )
                                },
                                None => {
                                    self.phase = HandshakePhase::Finished;
                                    self.ident = id.device_id.clone();
                                    HandshakeOutcome::Confirmed { device_id: id.device_id, rate: None }
                                },
                            }
                        },
                        Err(err) => {
                            self.phase = HandshakePhase::Finished;
                            HandshakeOutcome::Failed(err)
                        },
                    }
                },
                Event::Eof => {
                    self.phase = HandshakePhase::Finished;
                    HandshakeOutcome::Failed(MeterError::HandshakeRejected)
                },
                Event::TimedOut => {
                    self.phase = HandshakePhase::Finished;
                    HandshakeOutcome::Failed(MeterError::ReadTimeout)
                },
                Event::Failed => {
                    self.phase = HandshakePhase::Finished;
                    HandshakeOutcome::Failed(MeterError::ReadFailed)
                },
                _ => HandshakeOutcome::Ignored,
            },
            HandshakePhase::SendingAck(sw) => match e {
                Event::Done => {
                    self.phase = HandshakePhase::AckSettling(sw);
                    HandshakeOutcome::Act(Command::Sleep { millis: SWITCH_SETTLE_MILLIS })
                },
                Event::Failed => {
                    self.phase = HandshakePhase::Finished;
                    HandshakeOutcome::Failed(MeterError::WriteFailed)
                },
                _ => HandshakeOutcome::Ignored,
            },
            HandshakePhase::AckSettling(sw) => match e {
                Event::Done => {
                    self.phase = HandshakePhase::SwitchingBaud(sw);
                    HandshakeOutcome::Act(Command::SetBaudRate { rate: sw.rate })
                },
                _ => HandshakeOutcome::Ignored,
            },
            HandshakePhase::SwitchingBaud(sw) => match e {
                Event::Done => {
                    self.phase = HandshakePhase::Finished;
                    HandshakeOutcome::Confirmed { device_id: self.ident.clone(), rate: Some(sw.rate) }
                },
                Event::Failed => {
                    self.phase = HandshakePhase::Finished;
                    HandshakeOutcome::Failed(MeterError::BaudChangeFailed)
                },
                _ => HandshakeOutcome::Ignored,
            },
            HandshakePhase::Finished => HandshakeOutcome::Ignored,
        }
    }
}

/// Where a connection stands in its poll cycle.
#[derive(Clone, Copy, Debug, PartialEq, Eq, Structural)]
pub enum ConnPhase {
    /// A baud-rate change failed: the connection is unusable.
    Closed,
    /// Between cycles.
    Idle,
    /// Between cycles, with the first telegram already under way.
    Primed,
    /// Waiting before a new handshake.
    Settling,
    /// Going back to the starting baud rate.
    ResettingBaud,
    /// Discarding stray input.
    Clearing,
    /// In the wake-up handshake.
    Handshaking,
    /// Reading the telegram.
    Reading,
}

/// What the connection asks the caller to do.
#[derive(Debug)]
pub enum Action {
    /// Perform this command and report its outcome.
    Perform { command: Command },
    /// The cycle produced this reading.
    Deliver { reading: MeterReading },
    /// The cycle failed with this error.
    Report { error: MeterError },
    /// Nothing: the event did not answer a pending command.
    Nothing,
}

pub enum ActionModel {
    Perform(CommandModel),
    Deliver(ReadingModel),
    Report(MeterError),
    Nothing,
}

/// `a` is the action `m`.
pub open spec fn action_is(a: Action, m: ActionModel) -> bool {
    match (a, m) {
        (Action::Perform { command }, ActionModel::Perform(c)) => command@ == c,
        (Action::Deliver { reading }, ActionModel::Deliver(r)) => reading@ == r,
        (Action::Report { error }, ActionModel::Report(e)) => error == e,
        (Action::Nothing, ActionModel::Nothing) => true,
        _ => false,
    }
}

pub struct ConnModel {
    pub device_id: Seq<char>,
    pub baud: u32,
    pub phase: ConnPhase,
    pub handshake: HandshakeModel,
    pub reader: FramerModel,
}

impl ConnModel {
    /// The handshake looks for the connection's own device text, and the
    /// reading under way holds values that decoding produces.
    pub open spec fn wf(self) -> bool {
        &&& self.handshake.device_id == self.device_id
        &&& self.reader.reading.wf()
    }
}

/// A cycle is under way.
pub open spec fn in_cycle(p: ConnPhase) -> bool {
    !(p is Closed || p is Idle || p is Primed)
}

/// A line has been asked for and not yet delivered.
pub open spec fn awaits_line(m: ConnModel) -> bool {
    m.phase is Reading || (m.phase is Handshaking && m.handshake.phase is AwaitingIdent)
}

/// One step of the connection.
///
/// A cycle after the first waits, returns to the starting baud rate where it
/// had been raised, discards stray input, runs the handshake and then reads
/// the telegram.  A primed connection reads its first telegram at once.  A
/// failed baud-rate change closes the connection; any other failure ends the
/// cycle only.  An event that does not answer the pending command is ignored.
pub open spec fn next(m: ConnModel, e: Event) -> (ConnModel, ActionModel) {
    let idle = ConnModel { phase: ConnPhase::Idle, ..m };
    match (m.phase, e) {
        (ConnPhase::Idle, Event::Begin) => (
            ConnModel { phase: ConnPhase::Settling, ..m },
            ActionModel::Perform(CommandModel::Sleep(POLL_SETTLE_MILLIS)),
        ),
        (ConnPhase::Primed, Event::Begin) => (
            ConnModel { phase: ConnPhase::Reading, ..m },
            ActionModel::Perform(CommandModel::ReadLine),
        ),
        (ConnPhase::Settling, Event::Done) => if m.baud != BAUD_RATE {
            (
                ConnModel { phase: ConnPhase::ResettingBaud, ..m },
                ActionModel::Perform(CommandModel::SetBaudRate(BAUD_RATE)),
            )
        } else {
            (
                ConnModel { phase: ConnPhase::Clearing, ..m },
                ActionModel::Perform(CommandModel::ClearInput),
            )
        },
        (ConnPhase::ResettingBaud, Event::Done) => (
            ConnModel { phase: ConnPhase::Clearing, baud: BAUD_RATE, ..m },
            ActionModel::Perform(CommandModel::ClearInput),
        ),
        (ConnPhase::ResettingBaud, Event::Failed) => (
            ConnModel { phase: ConnPhase::Closed, ..m },
            ActionModel::Report(MeterError::BaudChangeFailed),
        ),
        (ConnPhase::Clearing, Event::Done) => (
            ConnModel { phase: ConnPhase::Handshaking, handshake: hs_start(m.device_id), ..m },
            ActionModel::Perform(CommandModel::Write(init_bytes())),
        ),
        (ConnPhase::Clearing, Event::Failed) => (idle, ActionModel::Report(MeterError::ClearFailed)),
        (ConnPhase::Handshaking, _) => {
            let (h, s) = hs_next(m.handshake, e);
            match s {
                HandshakeStep::Act(c) => (
                    ConnModel { handshake: h, ..m },
                    ActionModel::Perform(c),
                ),
                HandshakeStep::Confirmed(ident, rate) => (
                    ConnModel {
                        phase: ConnPhase::Reading,
                        handshake: h,
                        baud: match rate {
                            Some(r) => r,
                            None => m.baud,
                        },
                        reader: start(ident, true),
                        ..m
                    },
                    ActionModel::Perform(CommandModel::ReadLine),
                ),
                HandshakeStep::Failed(err) => (
                    ConnModel {
                        phase: if err == MeterError::BaudChangeFailed {
                            ConnPhase::Closed
                        } else {
                            ConnPhase::Idle
                        },
                        handshake: h,
                        ..m
                    },
                    ActionModel::Report(err),
                ),
                HandshakeStep::Ignored => (m, ActionModel::Nothing),
            }
        },
        (ConnPhase::Reading, Event::Line { text, at }) => {
            let (r, o) = feed(m.reader, text@);
            match o {
                LineOutcome::More => (
                    ConnModel { reader: r, ..m },
                    ActionModel::Perform(CommandModel::ReadLine),
                ),
                LineOutcome::Complete => (
                    ConnModel { phase: ConnPhase::Idle, reader: spent(r), ..m },
                    match finish(r) {
                        Ok(x) => ActionModel::Deliver(stamped(x, at@)),
                        Err(err) => ActionModel::Report(err),
                    },
                ),
                LineOutcome::Rejected => (
                    ConnModel { phase: ConnPhase::Idle, reader: r, ..m },
                    ActionModel::Report(MeterError::HandshakeRejected),
                ),
            }
        },
        (ConnPhase::Reading, Event::Eof) => (idle, ActionModel::Report(MeterError::IncompleteTelegram)),
        (ConnPhase::Reading, Event::TimedOut) => (idle, ActionModel::Report(MeterError::ReadTimeout)),
        (ConnPhase::Reading, Event::Failed) => (idle, ActionModel::Report(MeterError::ReadFailed)),
        _ => (m, ActionModel::Nothing),
    }
}

/// One physical connection to a meter, polled repeatedly.
pub struct MeterConnection {
    pub device_id: String,
    pub baud: u32,
    pub phase: ConnPhase,
    pub handshake: Handshake,
    pub reader: TelegramReader,
}

impl View for MeterConnection {
    type V = ConnModel;

    open spec fn view(&self) -> ConnModel {
        ConnModel {
            device_id: self.device_id@,
            baud: self.baud,
            phase: self.phase,
            handshake: self.handshake@,
            reader: self.reader@,
        }
    }
}

impl MeterConnection {
    pub open spec fn wf(&self) -> bool {
        self@.wf()
    }

    /// A connection to the device whose identification contains
    /// `device_id`, on a port just opened at the starting baud rate: each
    /// cycle, the first included, runs the whole handshake.
    pub fn open(device_id: &str) -> (r: MeterConnection)
        ensures
            r@.device_id == device_id@,
            r@.baud == BAUD_RATE,
            r@.phase == ConnPhase::Idle,
            r.wf(),
    {
        let (handshake, _) = Handshake::new(device_id);
        MeterConnection {
            device_id: device_id.to_owned(),
            baud: BAUD_RATE,
            phase: ConnPhase::Idle,
            handshake,
            reader: TelegramReader::new(device_id, false),
        }
    }

    /// A connection on a port that a probe left mid-exchange: the meter
    /// `device_id` has been identified, the baud rate is `negotiated_baud`,
    /// and the first cycle reads the telegram at once.
    pub fn from_probe(device_id: &str, negotiated_baud: u32) -> (r: MeterConnection)
        ensures
            r@.device_id == device_id@,
            r@.baud == negotiated_baud,
            r@.phase == ConnPhase::Primed,
            r@.reader == start(device_id@, true),
            r.wf(),
    {
        let (handshake, _) = Handshake::new(device_id);
        MeterConnection {
            device_id: device_id.to_owned(),
            baud: negotiated_baud,
            phase: ConnPhase::Primed,
            handshake,
            reader: TelegramReader::new(device_id, true),
        }
    }

    /// Whether a failed baud-rate change has made the connection unusable.
    pub fn is_closed(&self) -> (r: bool)
        ensures
            r == (self@.phase == ConnPhase::Closed),
    {
        self.phase == ConnPhase::Closed
    }

    /// Takes the outcome of the last command, or `Begin` to start a cycle,
    /// and says what to do next.
    pub fn step(&mut self, e: Event) -> (r: Action)
        requires
            old(self).wf(),
        ensures
            final(self)@ == next(old(self)@, e).0,
            action_is(r, next(old(self)@, e).1),
            final(self).wf(),
    {
        match self.phase {
            ConnPhase::Idle => match e {
                Event::Begin => {
                    self.phase = ConnPhase::Settling;
                    Action::Perform { command: Command::Sleep { millis: POLL_SETTLE_MILLIS } }
                },
                _ => Action::Nothing,
            },
            ConnPhase::Primed => match e {
                Event::Begin => {
                    self.phase = ConnPhase::Reading;
                    Action::Perform { command: Command::ReadLine }
                },
                _ => Action::Nothing,
            },
            ConnPhase::Settling => match e {
                Event::Done => {
                    if self.baud != BAUD_RATE {
                        self.phase = ConnPhase::ResettingBaud;
                        Action::Perform { command: Command::SetBaudRate { rate: BAUD_RATE } }
                    } else {
                        self.phase = ConnPhase::Clearing;
                        Action::Perform { command: Command::ClearInput }
                    }
                },
                _ => Action::Nothing,
            },
            ConnPhase::ResettingBaud => match e {
                Event::Done => {
                    self.phase = ConnPhase::Clearing;
                    self.baud = BAUD_RATE;
                    Action::Perform { command: Command::ClearInput }
                },
                Event::Failed => {
                    self.phase = ConnPhase::Closed;
                    Action::Report { error: MeterError::BaudChangeFailed }
                },
                _ => Action::Nothing,
            },
            ConnPhase::Clearing => match e {
                Event::Done => {
                    let (h, c) = Handshake::new(self.device_id.as_str());
                    self.handshake = h;
                    self.phase = ConnPhase::Handshaking;
                    Action::Perform { command: c }
                },
                Event::Failed => {
                    self.phase = ConnPhase::Idle;
                    Action::Report { error: MeterError::ClearFailed }
                },
                _ => Action::Nothing,
            },
            ConnPhase::Handshaking => {
                match self.handshake.step(e) {
                    HandshakeOutcome::Act(c) => Action::Perform { command: c },
                    HandshakeOutcome::Confirmed { device_id, rate } => {
                        self.phase = ConnPhase::Reading;
                        match rate {
                            Some(r) => {
                                self.baud = r;
                            },
                            None => {},
                        }
                        self.reader = TelegramReader::new(device_id.as_str(), true);
                        Action::Perform { command: Command::ReadLine }
                    },
                    HandshakeOutcome::Failed(err) => {
                        if err == MeterError::BaudChangeFailed {
                            self.phase = ConnPhase::Closed;
                        } else {
                            self.phase = ConnPhase::Idle;
                        }
                        Action::Report { error: err }
                    },
                    HandshakeOutcome::Ignored => Action::Nothing,
                }
            },
            ConnPhase::Reading => match e {
                Event::Line { text, at } => {
                    match self.reader.feed(text.as_str()) {
                        LineOutcome::More => Action::Perform { command: Command::ReadLine },
                        LineOutcome::Complete => {
                            self.phase = ConnPhase::Idle;
                            match self.reader.complete(at) {
                                Ok(reading) => Action::Deliver { reading },
                                Err(error) => Action::Report { error },
                            }
                        },
                        LineOutcome::Rejected => {
                            self.phase = ConnPhase::Idle;
                            Action::Report { error: MeterError::HandshakeRejected }
                        },
                    }
                },
                Event::Eof => {
                    self.phase = ConnPhase::Idle;
                    Action::Report { error: MeterError::IncompleteTelegram }
                },
                Event::TimedOut => {
                    self.phase = ConnPhase::Idle;
                    Action::Report { error: MeterError::ReadTimeout }
                },
                Event::Failed => {
                    self.phase = ConnPhase::Idle;
                    Action::Report { error: MeterError::ReadFailed }
                },
                _ => Action::Nothing,
            },
            ConnPhase::Closed => Action::Nothing,
        }
    }
}

/// Poll cycles on one connection never overlap: a cycle starts only between
/// cycles, a cycle that ends leaves the connection between cycles, and while
/// a line is awaited nothing but the read's outcome moves the connection.
pub proof fn lemma_cycles_do_not_overlap(m: ConnModel, e: Event)
    ensures
        in_cycle(m.phase) && e is Begin ==> next(m, e) == (m, ActionModel::Nothing),
        (next(m, e).1 is Deliver || next(m, e).1 is Report) ==> !in_cycle(next(m, e).0.phase),
        awaits_line(m) && !(e is Line || e is Eof || e is TimedOut || e is Failed) ==> next(m, e) == (
            m,
            ActionModel::Nothing,
        ),
        next(m, e).1 == ActionModel::Perform(CommandModel::ReadLine) ==> awaits_line(next(m, e).0),
{
}

/// In a cycle after the first, an identification line that does not contain
/// the connection's device text ends the cycle with `HandshakeRejected`; the
/// connection stays open, ready for the next cycle.
pub proof fn lemma_foreign_identification_reported(m: ConnModel, text: String, at: String)
    requires
        m.wf(),
        m.phase == ConnPhase::Handshaking,
        m.handshake.phase == HandshakePhase::AwaitingIdent,
        !contains(trim(text@), m.device_id),
    ensures
        next(m, Event::Line { text, at }).1 == ActionModel::Report(MeterError::HandshakeRejected),
        next(m, Event::Line { text, at }).0.phase == ConnPhase::Idle,
        next(m, Event::Line { text, at }).0.wf(),
        next(next(m, Event::Line { text, at }).0, Event::Begin) == (
            ConnModel { phase: ConnPhase::Settling, ..next(m, Event::Line { text, at }).0 },
            ActionModel::Perform(CommandModel::Sleep(POLL_SETTLE_MILLIS)),
        ),
{
}

/// End of input while the telegram is read ends the cycle with
/// `IncompleteTelegram` and no reading; the connection stays open, and the
/// next cycle runs in full, from the settle delay on.
pub proof fn lemma_eof_ends_cycle(m: ConnModel)
    requires
        m.phase == ConnPhase::Reading,
    ensures
        next(m, Event::Eof).1 == ActionModel::Report(MeterError::IncompleteTelegram),
        next(m, Event::Eof).0.phase == ConnPhase::Idle,
        next(next(m, Event::Eof).0, Event::Begin) == (
            ConnModel { phase: ConnPhase::Settling, ..next(m, Event::Eof).0 },
            ActionModel::Perform(CommandModel::Sleep(POLL_SETTLE_MILLIS)),
        ),
{
}

/// An identification of the expected device whose baud-rate character is not
/// one of `1` to `6` confirms it at once: no acknowledgement is written, the
/// baud rate is not changed, and the telegram is read at the current rate.
pub proof fn lemma_identification_without_switch(m: ConnModel, text: String, at: String)
    requires
        m.wf(),
        m.phase == ConnPhase::Handshaking,
        m.handshake.phase == HandshakePhase::AwaitingIdent,
        contains(trim(text@), m.device_id),
        !(baud_char_of(trim(text@)) matches Some(c) && '1' <= c <= '6'),
    ensures
        hs_next(m.handshake, Event::Line { text, at }).1 == HandshakeStep::Confirmed(
            strip_slashes(trim(text@)),
            None,
        ),
        next(m, Event::Line { text, at }).1 == ActionModel::Perform(CommandModel::ReadLine),
        next(m, Event::Line { text, at }).0.phase == ConnPhase::Reading,
        next(m, Event::Line { text, at }).0.baud == m.baud,
{
    lemma_no_negotiation(text@);
}

} // verus!
