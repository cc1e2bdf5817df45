use coresplitter::protocol::wire::{push_u32_le, read_i32_le, read_u16_le, read_u32_le};
use coresplitter::protocol::decode::{
    command_is_decodable, decode_command_payload, decode_response_payload, find_zero_in,
    is_zero_fraction, response_is_decodable, DecodedMap, DecodedValue, FieldKey,
};

fn text(m: &DecodedMap, k: FieldKey) -> String {
    match m.get(k) {
        Some(DecodedValue::String(s)) => s.clone(),
        other => panic!("{:?} is no text: {:?}", k, other),
    }
}

fn integer(m: &DecodedMap, k: FieldKey) -> i64 {
    match m.get(k) {
        Some(DecodedValue::Integer(i)) => *i,
        other => panic!("{:?} is no integer: {:?}", k, other),
    }
}

fn fraction(m: &DecodedMap, k: FieldKey) -> (i64, u32) {
    match m.get(k) {
        Some(DecodedValue::Float { raw, scale }) => (*raw, *scale),
        other => panic!("{:?} is no fraction: {:?}", k, other),
    }
}

#[test]
fn empty_payload_decodes_to_nothing() {
    assert!(decode_command_payload(0x01, &[]).is_none());
    assert!(decode_response_payload(0x00, &[]).is_none());
}

#[test]
fn app_start_gives_version_and_trimmed_app_name() {
    let mut p = vec![0x01, 0x03];
    p.extend_from_slice(b"mccli\0\0\0");
    let m = decode_command_payload(0x01, &p).unwrap();
    assert_eq!(integer(&m, FieldKey::Version), 3);
    assert_eq!(text(&m, FieldKey::App), "mccli");
    assert_eq!(m.display_keys(), vec![FieldKey::App, FieldKey::Version]);
}

#[test]
fn send_message_fields() {
    let mut p = vec![0x02, 0x00, 0x01, 0x78, 0x56, 0x34, 0x12, 0xaa, 0xbb, 0xcc, 0xdd, 0xee, 0xff];
    p.extend_from_slice(b"hi there");
    let m = decode_command_payload(0x02, &p).unwrap();
    assert_eq!(integer(&m, FieldKey::Type), 0);
    assert_eq!(integer(&m, FieldKey::Attempt), 1);
    assert_eq!(integer(&m, FieldKey::Timestamp), 0x12345678);
    assert_eq!(text(&m, FieldKey::To), "aabbccddeeff");
    assert_eq!(text(&m, FieldKey::Text), "hi there");
}

#[test]
fn short_send_message_has_empty_destination_and_text() {
    let p = [0x02, 0x00, 0x00, 1, 0, 0, 0];
    let m = decode_command_payload(0x02, &p).unwrap();
    assert_eq!(text(&m, FieldKey::To), "");
    assert_eq!(text(&m, FieldKey::Text), "");
}

#[test]
fn set_coords_are_millionths_of_a_degree() {
    let lat: i32 = -33_865_143;
    let lon: i32 = 151_209_900;
    let mut p = vec![0x0e];
    p.extend_from_slice(&lat.to_le_bytes());
    p.extend_from_slice(&lon.to_le_bytes());
    let m = decode_command_payload(0x0e, &p).unwrap();
    assert_eq!(fraction(&m, FieldKey::Lat), (-33_865_143, 1_000_000));
    assert_eq!(fraction(&m, FieldKey::Lon), (151_209_900, 1_000_000));
}

#[test]
fn radio_params_are_thousandths() {
    let mut p = vec![0x0b];
    p.extend_from_slice(&869_525u32.to_le_bytes());
    p.extend_from_slice(&250_000u32.to_le_bytes());
    p.extend_from_slice(&[11, 5]);
    let m = decode_command_payload(0x0b, &p).unwrap();
    assert_eq!(fraction(&m, FieldKey::FreqMhz), (869_525, 1000));
    assert_eq!(fraction(&m, FieldKey::BwKhz), (250_000, 1000));
    assert_eq!(integer(&m, FieldKey::Sf), 11);
    assert_eq!(integer(&m, FieldKey::Cr), 5);
}

#[test]
fn device_query_and_battery_query() {
    let m = decode_command_payload(0x16, &[0x16, 0x03]).unwrap();
    assert_eq!(text(&m, FieldKey::Query), "device_info");
    assert!(decode_command_payload(0x14, &[0x14]).is_none());
}

#[test]
fn login_hides_the_password() {
    let mut p = vec![0x1a];
    p.extend_from_slice(&[0x11; 32]);
    p.extend_from_slice(b"secret");
    let m = decode_command_payload(0x1a, &p).unwrap();
    assert_eq!(text(&m, FieldKey::Password), "***");
    assert_eq!(text(&m, FieldKey::To), "11".repeat(32));
}

#[test]
fn reset_path_target_is_self_when_short() {
    let m = decode_command_payload(0x27, &[0x27, 0, 0]).unwrap();
    assert_eq!(text(&m, FieldKey::Target), "self");
    let m = decode_command_payload(0x27, &[0x27, 0, 0, 0, 0xab, 0xcd]).unwrap();
    assert_eq!(text(&m, FieldKey::Target), "abcd");
}

#[test]
fn stats_type_names() {
    let m = decode_command_payload(0x38, &[0x38, 2]).unwrap();
    assert_eq!(text(&m, FieldKey::StatsType), "packets");
    let m = decode_command_payload(0x38, &[0x38, 9]).unwrap();
    assert_eq!(text(&m, FieldKey::StatsType), "unknown");
}

#[test]
fn unknown_command_decodes_to_nothing() {
    assert!(decode_command_payload(0x77, &[0x77, 1, 2, 3]).is_none());
}

#[test]
fn ok_response_with_value() {
    let m = decode_response_payload(0x00, &[0x00, 0x10, 0x00, 0x00, 0x00]).unwrap();
    assert_eq!(text(&m, FieldKey::Status), "OK");
    assert_eq!(integer(&m, FieldKey::Value), 16);
    let m = decode_response_payload(0x00, &[0x00, 0x10]).unwrap();
    assert!(m.get(FieldKey::Value).is_none());
}

#[test]
fn error_response_with_code() {
    let m = decode_response_payload(0x01, &[0x01, 0x03]).unwrap();
    assert_eq!(text(&m, FieldKey::Status), "ERROR");
    assert_eq!(integer(&m, FieldKey::ErrorCode), 3);
}

#[test]
fn msg_sent_names_the_expected_ack() {
    let p = [0x06, 0x01, 0xde, 0xad, 0xbe, 0xef, 0x88, 0x13, 0x00, 0x00];
    let m = decode_response_payload(0x06, &p).unwrap();
    assert_eq!(integer(&m, FieldKey::MsgType), 1);
    assert_eq!(text(&m, FieldKey::ExpectedAck), "deadbeef");
    assert_eq!(integer(&m, FieldKey::TimeoutMs), 5000);
}

#[test]
fn contact_message_text_is_decoded_leniently() {
    let mut p = vec![0x07, 1, 2, 3, 4, 5, 6, 0xff, 0x00, 0x01, 0x00, 0x00, 0x00];
    p.extend_from_slice(&[b'o', b'k', 0xff, b'!']);
    let m = decode_response_payload(0x07, &p).unwrap();
    assert_eq!(text(&m, FieldKey::From), "010203040506");
    assert_eq!(integer(&m, FieldKey::PathLen), 255);
    assert_eq!(integer(&m, FieldKey::Timestamp), 1);
    assert_eq!(text(&m, FieldKey::Text), "ok\u{fffd}!");
    assert_eq!(text(&m, FieldKey::Type), "text");
}

#[test]
fn channel_message_fields() {
    let mut p = vec![0x08, 2, 0, 1, 0x10, 0x00, 0x00, 0x00];
    p.extend_from_slice(b"yo");
    let m = decode_response_payload(0x08, &p).unwrap();
    assert_eq!(integer(&m, FieldKey::Channel), 2);
    assert_eq!(integer(&m, FieldKey::Timestamp), 16);
    assert_eq!(text(&m, FieldKey::Text), "yo");
    assert_eq!(text(&m, FieldKey::Type), "command");
}

#[test]
fn battery_with_storage() {
    let p = [0x0c, 0x10, 0x0e, 0x05, 0, 0, 0, 0x00, 0x01, 0, 0];
    let m = decode_response_payload(0x0c, &p).unwrap();
    assert_eq!(integer(&m, FieldKey::LevelMv), 3600);
    assert_eq!(integer(&m, FieldKey::UsedKb), 5);
    assert_eq!(integer(&m, FieldKey::TotalKb), 256);
}

#[test]
fn device_info_with_limits_and_model() {
    let mut p = vec![0u8; 61];
    p[0] = 0x0d;
    p[1] = 8;
    p[2] = 175;
    p[3] = 8;
    p[8..14].copy_from_slice(b"v1.2.3");
    p[20..27].copy_from_slice(b"Heltec3");
    let m = decode_response_payload(0x0d, &p).unwrap();
    assert_eq!(integer(&m, FieldKey::FwVersion), 8);
    assert_eq!(integer(&m, FieldKey::MaxContacts), 350);
    assert_eq!(integer(&m, FieldKey::MaxChannels), 8);
    assert_eq!(text(&m, FieldKey::FwBuild), "v1.2.3");
    assert_eq!(text(&m, FieldKey::Model), "Heltec3");
    let short = decode_response_payload(0x0d, &[0x0d, 8]).unwrap();
    assert!(short.get(FieldKey::MaxChannels).is_none());
}

#[test]
fn self_info_fields() {
    let mut p = vec![0u8; 60];
    p[0] = 0x05;
    p[1] = 1;
    p[2] = 22;
    for i in 4..36 {
        p[i] = (i - 4) as u8;
    }
    p[48..52].copy_from_slice(&869_525u32.to_le_bytes());
    p[56..60].copy_from_slice(b"node");
    let m = decode_response_payload(0x05, &p).unwrap();
    assert_eq!(text(&m, FieldKey::Name), "node");
    assert_eq!(text(&m, FieldKey::Type), "client");
    assert_eq!(text(&m, FieldKey::PublicKey), "000102030405...");
    assert_eq!(integer(&m, FieldKey::TxPower), 22);
    assert_eq!(fraction(&m, FieldKey::FreqMhz), (869_525, 1000));
    assert_eq!(fraction(&m, FieldKey::BwKhz), (0, 1000));
    assert!(m.get(FieldKey::Lat).is_none());
    // name first, zero fractions left out, the rest alphabetically
    assert_eq!(
        m.display_keys(),
        vec![FieldKey::Name, FieldKey::FreqMhz, FieldKey::PublicKey, FieldKey::TxPower, FieldKey::Type]
    );
}

#[test]
fn contact_record_fields() {
    let mut p = vec![0u8; 148];
    p[0] = 0x03;
    for i in 1..33 {
        p[i] = 0xab;
    }
    p[33] = 1;
    p[35] = 2;
    p[100..105].copy_from_slice(b"alice");
    p[132..136].copy_from_slice(&1_700_000_000u32.to_le_bytes());
    p[136..140].copy_from_slice(&52_520_000i32.to_le_bytes());
    let m = decode_response_payload(0x03, &p).unwrap();
    assert_eq!(text(&m, FieldKey::Name), "alice");
    assert_eq!(text(&m, FieldKey::PublicKey), "abababababab...");
    assert_eq!(text(&m, FieldKey::Type), "repeater");
    assert_eq!(integer(&m, FieldKey::PathLen), 2);
    assert_eq!(integer(&m, FieldKey::LastAdvert), 1_700_000_000);
    assert_eq!(fraction(&m, FieldKey::Lat), (52_520_000, 1_000_000));
    assert!(m.get(FieldKey::Lon).is_none());
}

#[test]
fn channel_info_name_stops_at_zero() {
    let mut p = vec![0u8; 50];
    p[0] = 0x12;
    p[1] = 3;
    p[2..8].copy_from_slice(b"public");
    let m = decode_response_payload(0x12, &p).unwrap();
    assert_eq!(integer(&m, FieldKey::ChannelIdx), 3);
    assert_eq!(text(&m, FieldKey::Name), "public");
}

#[test]
fn delivery_ack_with_and_without_code() {
    let m = decode_response_payload(0x82, &[0x82, 1, 2, 3, 4]).unwrap();
    assert_eq!(text(&m, FieldKey::AckCode), "01020304");
    let m = decode_response_payload(0x82, &[0x82]).unwrap();
    assert!(matches!(m.get(FieldKey::Ack), Some(DecodedValue::Bool(true))));
}

#[test]
fn push_and_login_responses() {
    let m = decode_response_payload(0x83, &[0x83]).unwrap();
    assert!(matches!(m.get(FieldKey::MessagesWaiting), Some(DecodedValue::Bool(true))));
    let m = decode_response_payload(0x0a, &[0x0a]).unwrap();
    assert!(matches!(m.get(FieldKey::MessagesAvailable), Some(DecodedValue::Bool(false))));
    let m = decode_response_payload(0x86, &[0x86]).unwrap();
    assert_eq!(text(&m, FieldKey::Login), "failed");
    assert!(decode_response_payload(0x55, &[0x55, 1]).is_none());
}

#[test]
fn payloads_that_would_read_past_their_end() {
    assert!(!command_is_decodable(0x04, 3));
    assert!(command_is_decodable(0x04, 5));
    assert!(command_is_decodable(0x04, 1));
    assert!(!response_is_decodable(0x06, 9));
    assert!(response_is_decodable(0x06, 10));
    assert!(!response_is_decodable(0x12, 20));
    assert!(response_is_decodable(0x12, 2));
}

#[test]
fn zero_search_and_zero_fraction() {
    assert_eq!(find_zero_in(&[1, 2, 0, 4, 0], 0, 5), Some(2));
    assert_eq!(find_zero_in(&[1, 2, 0, 4, 0], 3, 5), Some(1));
    assert_eq!(find_zero_in(&[1, 2, 3], 0, 3), None);
    assert!(is_zero_fraction(&DecodedValue::Float { raw: 0, scale: 1000 }));
    assert!(!is_zero_fraction(&DecodedValue::Float { raw: 1, scale: 1000 }));
    assert!(!is_zero_fraction(&DecodedValue::Integer(0)));
}

#[test]
fn little_endian_numbers_round_trip() {
    let mut buf = vec![0xaa];
    push_u32_le(&mut buf, 0xdead_beef);
    assert_eq!(buf, vec![0xaa, 0xef, 0xbe, 0xad, 0xde]);
    assert_eq!(read_u32_le(&buf, 1), 0xdead_beef);
    assert_eq!(read_i32_le(&buf, 1), 0xdead_beef_u32 as i32);
    assert_eq!(read_u16_le(&buf, 1), 0xbeef);
}
