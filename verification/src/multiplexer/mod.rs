//! The multiplexer core: its configuration, and the router that decides
//! what each client command and each radio frame leads to.

use vstd::prelude::*;

pub mod codes;
pub mod event;
pub mod laws;
pub mod reachable;
pub mod pacing;
pub mod reply;
pub mod router;

verus! {

/// `std::path::PathBuf`, carried through opaquely.
#[verifier::external_type_specification]
#[verifier::external_body]
pub struct ExPathBuf(std::path::PathBuf);

/// How the proxy reaches the physical radio.
#[derive(Debug, Clone, Copy, PartialEq, Eq, Structural)]
pub enum BackendType {
    Serial,
    Ble,
    Tcp,
}

/// How much the event log says about each frame.
#[derive(Debug, Clone, Copy, PartialEq, Eq, Structural)]
pub enum LogLevel {
    Off,
    Summary,
    Verbose,
}

/// Everything the proxy is started with.
pub struct CoreConfig {
    pub backend_type: BackendType,
    pub serial_port: Option<String>,
    pub serial_baud: u32,
    pub ble_address: Option<String>,
    pub ble_pin: String,
    pub tcp_backend_host: Option<String>,
    pub tcp_backend_port: u16,
    pub tcp_frontend_host: String,
    pub tcp_frontend_port: u16,
    pub data_dir: std::path::PathBuf,
    pub event_log_level: LogLevel,
    pub event_log_json: bool,
    pub record_radio_rx: bool,
}

/// The radio link the configuration names, with what connecting needs.
#[derive(Debug)]
pub enum RadioLink {
    Serial { port: String, baud: u32 },
    Ble { address: String, pin: String },
    Tcp { host: String, port: u16 },
}

/// Why the configuration names no usable radio link: the chosen backend
/// misses its address.
#[derive(Debug, Clone, Copy, PartialEq, Eq, Structural)]
pub enum LinkError {
    SerialPortMissing,
    BleAddressMissing,
    TcpHostMissing,
}

/// The message of a link error.
pub open spec fn link_error_text(e: LinkError) -> Seq<char> {
    match e {
        LinkError::SerialPortMissing => "serial port not specified"@,
        LinkError::BleAddressMissing => "BLE address not specified"@,
        LinkError::TcpHostMissing => "TCP backend host not specified"@,
    }
}

impl LinkError {
    /// The message of this error.
    pub fn message(&self) -> (m: &'static str)
        ensures
            m@ == link_error_text(*self),
    {
        match self {
            LinkError::SerialPortMissing => "serial port not specified",
            LinkError::BleAddressMissing => "BLE address not specified",
            LinkError::TcpHostMissing => "TCP backend host not specified",
        }
    }
}

impl CoreConfig {
    /// The radio link of the chosen backend: the serial port and baud rate,
    /// the BLE address and PIN, or the TCP host and port. It fails, naming
    /// what is missing, when the chosen backend has no port, address or host.
    pub fn radio_link(&self) -> (r: Result<RadioLink, LinkError>)
        ensures
            self.backend_type == BackendType::Serial ==> match self.serial_port {
                Some(p) => r matches Ok(RadioLink::Serial { port, baud }) && port == p && baud
                    == self.serial_baud,
                None => r == Err::<RadioLink, LinkError>(LinkError::SerialPortMissing),
            },
            self.backend_type == BackendType::Ble ==> match self.ble_address {
                Some(a) => r matches Ok(RadioLink::Ble { address, pin }) && address == a && pin
                    == self.ble_pin,
                None => r == Err::<RadioLink, LinkError>(LinkError::BleAddressMissing),
            },
            self.backend_type == BackendType::Tcp ==> match self.tcp_backend_host {
                Some(h) => r matches Ok(RadioLink::Tcp { host, port }) && host == h && port
                    == self.tcp_backend_port,
                None => r == Err::<RadioLink, LinkError>(LinkError::TcpHostMissing),
            },
    {
        match self.backend_type {
            BackendType::Serial => match &self.serial_port {
                Some(p) => Ok(RadioLink::Serial { port: p.clone(), baud: self.serial_baud }),
                None => Err(LinkError::SerialPortMissing),
            },
            BackendType::Ble => match &self.ble_address {
                Some(a) => Ok(RadioLink::Ble { address: a.clone(), pin: self.ble_pin.clone() }),
                None => Err(LinkError::BleAddressMissing),
            },
            BackendType::Tcp => match &self.tcp_backend_host {
                Some(h) => Ok(RadioLink::Tcp { host: h.clone(), port: self.tcp_backend_port }),
                None => Err(LinkError::TcpHostMissing),
            },
        }
    }
}

/// Whether a response code is a spontaneous push from the radio
/// (ADVERTISEMENT, PATH_UPDATE, MESSAGES_WAITING, LOG_DATA, NEW_ADVERT):
/// such a frame never completes a request and goes to every client.
pub open spec fn push_event(code: u8) -> bool {
    code == 0x80 || code == 0x81 || code == 0x83 || code == 0x88 || code == 0x8A
}

/// Whether `code` is a push event.
pub fn is_push_event(code: u8) -> (r: bool)
    ensures
        r == push_event(code),
{
    code == 0x80 || code == 0x81 || code == 0x83 || code == 0x88 || code == 0x8A
}

/// What the request in flight waits for, as contracts see it.
pub enum AwaitingView {
    Any,
    Stream { frame_codes: Seq<u8>, terminator_code: u8 },
}

/// What the request in flight waits for before the radio is free again.
#[derive(Debug, Clone)]
pub enum Awaiting {
    /// Any one frame that is no push event answers the request.
    Any,
    /// Frames with a code in `frame_codes` belong to the answer; the frame
    /// with `terminator_code` ends it.
    Stream { frame_codes: Vec<u8>, terminator_code: u8 },
}

impl View for Awaiting {
    type V = AwaitingView;

    open spec fn view(&self) -> AwaitingView {
        match self {
            Awaiting::Any => AwaitingView::Any,
            Awaiting::Stream { frame_codes, terminator_code } => AwaitingView::Stream {
                frame_codes: frame_codes@,
                terminator_code: *terminator_code,
            },
        }
    }
}

/// The shape of the radio's reply to a command: GET_CONTACTS is answered by
/// CONTACT_START, the contacts and CONTACT_END; every other command by one
/// frame.
pub open spec fn awaiting_spec(cmd_code: u8) -> AwaitingView {
    if cmd_code == 0x04 {
        AwaitingView::Stream { frame_codes: seq![0x02u8, 0x03u8], terminator_code: 0x04 }
    } else {
        AwaitingView::Any
    }
}

/// The shape of the radio's reply to command `cmd_code`.
pub fn awaiting_for(cmd_code: u8) -> (a: Awaiting)
    ensures
        a@ == awaiting_spec(cmd_code),
{
    if cmd_code == 0x04 {
        let mut codes: Vec<u8> = Vec::new();
        codes.push(0x02);
        codes.push(0x03);
        assert(codes@ =~= seq![0x02u8, 0x03u8]);
        Awaiting::Stream { frame_codes: codes, terminator_code: 0x04 }
    } else {
        Awaiting::Any
    }
}

/// The longest wait between two attempts to reach the radio, in seconds.
pub const MAX_RECONNECT_DELAY_SECS: u64 = 60;

/// The wait before the next attempt to reach the radio after one that
/// waited `secs` seconds: twice as long, but at most a minute.
pub fn next_reconnect_delay(secs: u64) -> (r: u64)
    ensures
        r == if 2 * secs < MAX_RECONNECT_DELAY_SECS {
            2 * secs
        } else {
            MAX_RECONNECT_DELAY_SECS as int
        },
{
    if secs < MAX_RECONNECT_DELAY_SECS / 2 {
        2 * secs
    } else {
        MAX_RECONNECT_DELAY_SECS
    }
}

/// The APP_START command the proxy opens a radio session with: command 1,
/// protocol version 1, then the name `coresplitter`.
pub open spec fn appstart_spec() -> Seq<u8> {
    seq![0x01u8, 1u8, 99u8, 111u8, 114u8, 101u8, 115u8, 112u8, 108u8, 105u8, 116u8, 116u8, 101u8, 114u8]
}

/// Builds the APP_START command.
pub fn build_appstart() -> (payload: Vec<u8>)
    ensures
        payload@ == appstart_spec(),
{
    let app_name: [u8; 12] = [99, 111, 114, 101, 115, 112, 108, 105, 116, 116, 101, 114];
    let mut payload: Vec<u8> = Vec::with_capacity(3 + 12);
    payload.push(0x01);
    payload.push(1);
    payload.extend_from_slice(&app_name);
    assert(payload@ =~= appstart_spec());
    payload
}

} // verus!
