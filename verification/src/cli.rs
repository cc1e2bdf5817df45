//! The command line: its options, and how they become the proxy's
//! configuration.

use vstd::prelude::*;

use crate::multiplexer::{BackendType, CoreConfig, LogLevel};
use crate::text::str_eq;

verus! {

/// The options the proxy is started with.
pub struct Cli {
    /// Serial port path (e.g., /dev/ttyUSB0).
    pub serial: Option<String>,
    /// Serial baud rate.
    pub baud: u32,
    /// BLE device address (MAC or UUID).
    pub ble: Option<String>,
    /// BLE pairing PIN.
    pub ble_pin: String,
    /// TCP backend host (a remote radio or proxy).
    pub tcp_backend_host: Option<String>,
    /// TCP backend port.
    pub tcp_backend_port: u16,
    /// TCP frontend bind address.
    pub tcp_frontend_host: String,
    /// TCP frontend port.
    pub tcp_frontend_port: u16,
    /// Data directory for the state database.
    pub data_dir: std::path::PathBuf,
    /// Log level: off, error, warn, info, debug, verbose.
    pub log_level: String,
    /// JSON event logging.
    pub json: bool,
    /// Record every raw radio frame in the store.
    pub record_radio_rx: bool,
}

/// The backend the options choose: serial when a serial port is given,
/// else BLE when a BLE address is given, else TCP when a TCP backend host
/// is given, else serial.
pub open spec fn chosen_backend(serial: bool, ble: bool, tcp: bool) -> BackendType {
    if serial {
        BackendType::Serial
    } else if ble {
        BackendType::Ble
    } else if tcp {
        BackendType::Tcp
    } else {
        BackendType::Serial
    }
}

/// The event log level a `--log-level` value gives: `off` turns it off,
/// `verbose` makes it verbose, anything else gives the summary.
pub open spec fn event_level_of(s: Seq<char>) -> LogLevel {
    if s == "off"@ {
        LogLevel::Off
    } else if s == "verbose"@ {
        LogLevel::Verbose
    } else {
        LogLevel::Summary
    }
}

impl Cli {
    /// The configuration these options give.
    pub fn into_config(self) -> (c: CoreConfig)
        ensures
            c.backend_type == chosen_backend(
                self.serial is Some,
                self.ble is Some,
                self.tcp_backend_host is Some,
            ),
            c.event_log_level == event_level_of(self.log_level@),
            c.serial_port == self.serial,
            c.serial_baud == self.baud,
            c.ble_address == self.ble,
            c.ble_pin == self.ble_pin,
            c.tcp_backend_host == self.tcp_backend_host,
            c.tcp_backend_port == self.tcp_backend_port,
            c.tcp_frontend_host == self.tcp_frontend_host,
            c.tcp_frontend_port == self.tcp_frontend_port,
            c.data_dir == self.data_dir,
            c.event_log_json == self.json,
            c.record_radio_rx == self.record_radio_rx,
    {
        let backend_type = if self.serial.is_some() {
            BackendType::Serial
        } else if self.ble.is_some() {
            BackendType::Ble
        } else if self.tcp_backend_host.is_some() {
            BackendType::Tcp
        } else {
            BackendType::Serial
        };
        let event_log_level = if str_eq(self.log_level.as_str(), "off") {
            LogLevel::Off
        } else if str_eq(self.log_level.as_str(), "verbose") {
            LogLevel::Verbose
        } else {
            LogLevel::Summary
        };
        CoreConfig {
            backend_type,
            serial_port: self.serial,
            serial_baud: self.baud,
            ble_address: self.ble,
            ble_pin: self.ble_pin,
            tcp_backend_host: self.tcp_backend_host,
            tcp_backend_port: self.tcp_backend_port,
            tcp_frontend_host: self.tcp_frontend_host,
            tcp_frontend_port: self.tcp_frontend_port,
            data_dir: self.data_dir,
            event_log_level,
            event_log_json: self.json,
            record_radio_rx: self.record_radio_rx,
        }
    }
}

} // verus!
