//! Reader for electricity meters that speak the IEC 62056-21 "mode C"
//! readout protocol over an infrared optical head.
//!
//! The library holds the protocol logic: identification and baud-rate
//! negotiation, telegram framing, OBIS record decoding into exact
//! fixed-point values, the derived power figures, and the state machine
//! that drives repeated polls over one serial connection.  Performing the
//! serial I/O and publishing readings is left to the caller.
pub mod config;
pub mod decimal;
pub mod error;
pub mod meter;
pub mod obis;
pub mod probe;
pub mod protocol;
pub mod telegram;
pub mod text;
