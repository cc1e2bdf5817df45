use std::path::PathBuf;

use coresplitter::cli::Cli;
use coresplitter::multiplexer::event::{build_event_msg, sanitize};
use coresplitter::multiplexer::{
    awaiting_for, build_appstart, is_push_event, Awaiting, BackendType, LinkError, LogLevel, RadioLink,
};

fn cli() -> Cli {
    Cli {
        serial: None,
        baud: 115200,
        ble: None,
        ble_pin: "123456".to_string(),
        tcp_backend_host: None,
        tcp_backend_port: 5000,
        tcp_frontend_host: "0.0.0.0".to_string(),
        tcp_frontend_port: 5000,
        data_dir: PathBuf::from("./data"),
        log_level: "info".to_string(),
        json: false,
        record_radio_rx: false,
    }
}

#[test]
fn default_options_choose_serial_and_summary() {
    let c = cli().into_config();
    assert_eq!(c.backend_type, BackendType::Serial);
    assert_eq!(c.event_log_level, LogLevel::Summary);
    assert_eq!(c.serial_baud, 115200);
    assert_eq!(c.ble_pin, "123456");
    assert_eq!(c.tcp_frontend_host, "0.0.0.0");
    assert_eq!(c.data_dir, PathBuf::from("./data"));
    assert!(!c.event_log_json);
}

#[test]
fn serial_wins_over_ble_and_tcp() {
    let mut o = cli();
    o.serial = Some("/dev/ttyUSB0".to_string());
    o.ble = Some("AA:BB".to_string());
    o.tcp_backend_host = Some("radio".to_string());
    let c = o.into_config();
    assert_eq!(c.backend_type, BackendType::Serial);
    assert_eq!(c.serial_port, Some("/dev/ttyUSB0".to_string()));
}

#[test]
fn ble_wins_over_tcp() {
    let mut o = cli();
    o.ble = Some("AA:BB".to_string());
    o.tcp_backend_host = Some("radio".to_string());
    assert_eq!(o.into_config().backend_type, BackendType::Ble);
    let mut o = cli();
    o.tcp_backend_host = Some("radio".to_string());
    o.tcp_backend_port = 4403;
    let c = o.into_config();
    assert_eq!(c.backend_type, BackendType::Tcp);
    assert_eq!(c.tcp_backend_port, 4403);
}

#[test]
fn log_levels() {
    for (given, level) in [
        ("off", LogLevel::Off),
        ("verbose", LogLevel::Verbose),
        ("debug", LogLevel::Summary),
        ("OFF", LogLevel::Summary),
    ] {
        let mut o = cli();
        o.log_level = given.to_string();
        o.json = true;
        o.record_radio_rx = true;
        let c = o.into_config();
        assert_eq!(c.event_log_level, level);
        assert!(c.event_log_json);
        assert!(c.record_radio_rx);
    }
}

#[test]
fn sanitize_keeps_printable_ascii_and_spaces() {
    assert_eq!(sanitize("a b\tc\n\u{1b}[31md é~"), "a bc[31md ~");
    assert_eq!(sanitize(""), "");
}

#[test]
fn event_line_in_summary_and_verbose() {
    let m = build_event_msg("->", "CMD_APP_START", Some("app=mccli, version=3"), &[1, 3], LogLevel::Summary);
    assert_eq!(m, "-> CMD_APP_START: app=mccli, version=3");
    let m = build_event_msg("<-", "RESP_OK", Some(""), &[0x00, 0xab], LogLevel::Verbose);
    assert_eq!(m, "<- RESP_OK [2 bytes]: 00ab");
    let m = build_event_msg("<-", "RESP_X", None, &[0u8; 12], LogLevel::Verbose);
    assert_eq!(m, format!("<- RESP_X [12 bytes]: {}", "00".repeat(12)));
    let m = build_event_msg("->", "CMD", Some("text=a\u{7}b\u{e9}"), &[], LogLevel::Summary);
    assert_eq!(m, "-> CMD: text=ab");
}

#[test]
fn appstart_names_the_proxy() {
    let mut expected = vec![0x01, 0x01];
    expected.extend_from_slice(b"coresplitter");
    assert_eq!(build_appstart(), expected);
}

#[test]
fn contact_listing_waits_for_its_end() {
    match awaiting_for(0x04) {
        Awaiting::Stream { frame_codes, terminator_code } => {
            assert_eq!(frame_codes, vec![0x02, 0x03]);
            assert_eq!(terminator_code, 0x04);
        }
        other => panic!("{:?}", other),
    }
    assert!(matches!(awaiting_for(0x01), Awaiting::Any));
}

#[test]
fn push_event_codes() {
    for code in [0x80u8, 0x81, 0x83, 0x88, 0x8a] {
        assert!(is_push_event(code));
    }
    for code in [0x82u8, 0x00, 0x84, 0x85] {
        assert!(!is_push_event(code));
    }
}

#[test]
fn radio_link_names_what_is_missing() {
    let c = cli().into_config();
    assert_eq!(c.radio_link().unwrap_err(), LinkError::SerialPortMissing);
    assert_eq!(LinkError::SerialPortMissing.message(), "serial port not specified");
    let mut o = cli();
    o.serial = Some("/dev/ttyACM0".to_string());
    o.baud = 9600;
    match o.into_config().radio_link() {
        Ok(RadioLink::Serial { port, baud }) => {
            assert_eq!(port, "/dev/ttyACM0");
            assert_eq!(baud, 9600);
        }
        other => panic!("{:?}", other),
    }
    let mut o = cli();
    o.tcp_backend_host = Some("10.0.0.2".to_string());
    o.tcp_backend_port = 5050;
    match o.into_config().radio_link() {
        Ok(RadioLink::Tcp { host, port }) => {
            assert_eq!(host, "10.0.0.2");
            assert_eq!(port, 5050);
        }
        other => panic!("{:?}", other),
    }
    let mut o = cli();
    o.ble = Some("AA:BB:CC".to_string());
    match o.into_config().radio_link() {
        Ok(RadioLink::Ble { address, pin }) => {
            assert_eq!(address, "AA:BB:CC");
            assert_eq!(pin, "123456");
        }
        other => panic!("{:?}", other),
    }
    assert_eq!(LinkError::TcpHostMissing.message(), "TCP backend host not specified");
    assert_eq!(LinkError::BleAddressMissing.message(), "BLE address not specified");
}
