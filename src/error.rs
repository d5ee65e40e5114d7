//! What can go wrong while talking to a meter.
use vstd::prelude::*;

verus! {

#[derive(Clone, Copy, Debug, PartialEq, Eq, Structural)]
pub enum MeterError {
    /// The serial device could not be opened.
    PortUnavailable,
    /// No serial device matched the USB-serial naming convention.
    NoCandidatePorts,
    /// None of the candidate ports answered as the expected device.
    DeviceNotFound { attempted: usize },
    /// The identification line did not name the expected device.
    HandshakeRejected,
    /// The local baud rate could not be changed.
    BaudChangeFailed,
    /// Bytes could not be written to the port.
    WriteFailed,
    /// The port's input buffer could not be cleared.
    ClearFailed,
    /// The port reached its end before the telegram's `!` line.
    IncompleteTelegram,
    /// A read timed out.
    ReadTimeout,
    /// A read failed otherwise.
    ReadFailed,
    /// The telegram ended without a confirmed identification line.
    MissingIdentification,
}

/// The description of each error.
pub open spec fn description(e: MeterError) -> Seq<char> {
    match e {
        MeterError::PortUnavailable => "serial port unavailable"@,
        MeterError::NoCandidatePorts => "no USB serial ports found"@,
        MeterError::DeviceNotFound { .. } => "device not found on any candidate port"@,
        MeterError::HandshakeRejected => "identification names another device"@,
        MeterError::BaudChangeFailed => "could not change the baud rate"@,
        MeterError::WriteFailed => "could not write to the serial port"@,
        MeterError::ClearFailed => "could not clear the serial input buffer"@,
        MeterError::IncompleteTelegram => "end of input before the end of the telegram"@,
        MeterError::ReadTimeout => "serial read timed out"@,
        MeterError::ReadFailed => "serial read failed"@,
        MeterError::MissingIdentification => "no identification line received"@,
    }
}

impl MeterError {
    /// A short description of the error.
    pub fn describe(&self) -> (r: &'static str)
        ensures
            r@ == description(*self),
    {
        match self {
            MeterError::PortUnavailable => "serial port unavailable",
            MeterError::NoCandidatePorts => "no USB serial ports found",
            MeterError::DeviceNotFound { .. } => "device not found on any candidate port",
            MeterError::HandshakeRejected => "identification names another device",
            MeterError::BaudChangeFailed => "could not change the baud rate",
            MeterError::WriteFailed => "could not write to the serial port",
            MeterError::ClearFailed => "could not clear the serial input buffer",
            MeterError::IncompleteTelegram => "end of input before the end of the telegram",
            MeterError::ReadTimeout => "serial read timed out",
            MeterError::ReadFailed => "serial read failed",
            MeterError::MissingIdentification => "no identification line received",
        }
    }
}

} // verus!
