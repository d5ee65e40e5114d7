//! What the command line configures.
use vstd::prelude::*;

verus! {

/// The settings of one run: where readings go, which device to talk to,
/// and how long a serial read may block.
#[derive(Debug)]
pub struct Config {
    /// MQTT broker host name.
    pub mqtt_host: String,
    /// MQTT broker port.
    pub mqtt_port: u16,
    /// MQTT client identifier.
    pub mqtt_client_id: String,
    /// MQTT topic that readings are published to.
    pub mqtt_topic: String,
    /// Text that the meter's identification line must contain.
    pub device_id: String,
    /// Serial port path; without one, the USB-serial ports are probed.
    pub port: Option<String>,
    /// Serial read timeout, in seconds.
    pub timeout_secs: u64,
}

impl Config {
    /// The serial read timeout in milliseconds, saturating at the largest
    /// representable value.
    pub fn timeout_millis(&self) -> (r: u64)
        ensures
            r == if self.timeout_secs * 1000 <= u64::MAX {
                self.timeout_secs * 1000
            } else {
                u64::MAX as int
            },
    {
        if self.timeout_secs <= u64::MAX / 1000 {
            self.timeout_secs * 1000
        } else {
            u64::MAX
        }
    }
}

} // verus!
