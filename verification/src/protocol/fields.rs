//! Where the decoded fields sit in a payload, written out byte by byte for
//! the layouts the router and the log rely on.

use vstd::prelude::*;

use super::decode::{
    decode_command_spec, decode_response_spec, FieldKey, ValueView,
};
use crate::text::{hex_lower, lenient_text, trim_trailing_nul};

verus! {

/// The unsigned little-endian number in the four bytes from `p[i]` on.
pub open spec fn bytes_le32(p: Seq<u8>, i: int) -> int {
    p[i] + 256 * p[i + 1] + 65536 * p[i + 2] + 16777216 * p[i + 3]
}

/// The two's complement number in the four bytes from `p[i]` on.
pub open spec fn bytes_le32_signed(p: Seq<u8>, i: int) -> int {
    if p[i + 3] >= 128 {
        bytes_le32(p, i) - 4294967296
    } else {
        bytes_le32(p, i)
    }
}

/// Decoded text.
pub open spec fn text_value(s: Seq<char>) -> ValueView {
    ValueView::String(s)
}

/// A SEND_CHAN_MSG (`[0x03, text type, channel, timestamp(4), text...]`)
/// decodes to its channel (the third byte), its timestamp and its text.
pub proof fn lemma_send_channel_msg_fields(p: Seq<u8>)
    requires
        p.len() >= 7,
    ensures
        decode_command_spec(0x03, p) == Some(
            map![
                FieldKey::Channel => ValueView::Integer(p[2] as int),
                FieldKey::Timestamp => ValueView::Integer(bytes_le32(p, 3)),
                FieldKey::Text => text_value(
                    if p.len() > 7 { lenient_text(p.subrange(7, p.len() as int)) } else { Seq::empty() },
                ),
            ],
        ),
{
}

/// A SEND_MSG (`[0x02, text type, attempt, timestamp(4), key prefix(6),
/// text...]`) decodes to its type, attempt, timestamp, destination and text.
pub proof fn lemma_send_msg_fields(p: Seq<u8>)
    requires
        p.len() >= 13,
    ensures
        decode_command_spec(0x02, p) == Some(
            map![
                FieldKey::Type => ValueView::Integer(p[1] as int),
                FieldKey::Attempt => ValueView::Integer(p[2] as int),
                FieldKey::Timestamp => ValueView::Integer(bytes_le32(p, 3)),
                FieldKey::To => text_value(hex_lower(p.subrange(7, 13))),
                FieldKey::Text => text_value(
                    if p.len() > 13 { lenient_text(p.subrange(13, p.len() as int)) } else { Seq::empty() },
                ),
            ],
        ),
{
}

/// SET_ADVERT_LATLON (`[0x0E, lat(4), lon(4)]`) decodes to latitude then
/// longitude, each in millionths of a degree.
pub proof fn lemma_set_coords_fields(p: Seq<u8>)
    requires
        p.len() >= 9,
    ensures
        decode_command_spec(0x0E, p) == Some(
            map![
                FieldKey::Lat => ValueView::Float { raw: bytes_le32_signed(p, 1), scale: 1_000_000 },
                FieldKey::Lon => ValueView::Float { raw: bytes_le32_signed(p, 5), scale: 1_000_000 },
            ],
        ),
{
}

/// SET_RADIO_PARAMS (`[0x0B, freq(4), bw(4), sf, cr]`) decodes to the
/// frequency and bandwidth in thousandths, and the spreading factor and
/// coding rate.
pub proof fn lemma_radio_params_fields(p: Seq<u8>)
    requires
        p.len() >= 11,
    ensures
        decode_command_spec(0x0B, p) == Some(
            map![
                FieldKey::FreqMhz => ValueView::Float { raw: bytes_le32(p, 1), scale: 1000 },
                FieldKey::BwKhz => ValueView::Float { raw: bytes_le32(p, 5), scale: 1000 },
                FieldKey::Sf => ValueView::Integer(p[9] as int),
                FieldKey::Cr => ValueView::Integer(p[10] as int),
            ],
        ),
{
}

/// SELF_INFO (`[0x05, advert type, tx power, max power, key(32), lat(4),
/// lon(4), ..., freq(4) at 48, ...]`): the latitude is the signed number at
/// bytes 36 to 39 and the longitude the one at 40 to 43, in millionths of a
/// degree, each shown only when it is not zero; the transmit power is the
/// third byte and the frequency the number at 48, in thousandths.
pub proof fn lemma_self_info_fields(p: Seq<u8>)
    requires
        p.len() >= 52,
    ensures
        decode_response_spec(0x05, p) matches Some(m) && {
            &&& m.contains_key(FieldKey::Lat) == (bytes_le32_signed(p, 36) != 0)
            &&& m.contains_key(FieldKey::Lat) ==> m[FieldKey::Lat] == (ValueView::Float {
                raw: bytes_le32_signed(p, 36),
                scale: 1_000_000,
            })
            &&& m.contains_key(FieldKey::Lon) == (bytes_le32_signed(p, 40) != 0)
            &&& m.contains_key(FieldKey::Lon) ==> m[FieldKey::Lon] == (ValueView::Float {
                raw: bytes_le32_signed(p, 40),
                scale: 1_000_000,
            })
            &&& m[FieldKey::TxPower] == ValueView::Integer(p[2] as int)
            &&& m[FieldKey::FreqMhz] == (ValueView::Float { raw: bytes_le32(p, 48), scale: 1000 })
        },
{
}

/// CONTACT (`[0x03, key(32), type, flags, path length, path(64), name(32),
/// last advert(4), lat(4), lon(4), ...]`): the path length is byte 35, the
/// last advert the number at 132, the latitude the signed number at 136 and
/// the longitude the one at 140, each coordinate shown only when not zero.
pub proof fn lemma_contact_fields(p: Seq<u8>)
    requires
        p.len() >= 148,
    ensures
        decode_response_spec(0x03, p) matches Some(m) && {
            &&& m[FieldKey::PathLen] == ValueView::Integer(p[35] as int)
            &&& m[FieldKey::LastAdvert] == ValueView::Integer(bytes_le32(p, 132))
            &&& m.contains_key(FieldKey::Lat) == (bytes_le32_signed(p, 136) != 0)
            &&& m.contains_key(FieldKey::Lat) ==> m[FieldKey::Lat] == (ValueView::Float {
                raw: bytes_le32_signed(p, 136),
                scale: 1_000_000,
            })
            &&& m.contains_key(FieldKey::Lon) == (bytes_le32_signed(p, 140) != 0)
            &&& m.contains_key(FieldKey::Lon) ==> m[FieldKey::Lon] == (ValueView::Float {
                raw: bytes_le32_signed(p, 140),
                scale: 1_000_000,
            })
        },
{
}

/// CONTACT_MSG_RECV (`[0x07, key prefix(6), path length, text type,
/// timestamp(4), text...]`) decodes to the sender's key prefix, path
/// length, timestamp and text.
pub proof fn lemma_contact_msg_fields(p: Seq<u8>)
    requires
        p.len() >= 13,
    ensures
        decode_response_spec(0x07, p) matches Some(m) && {
            &&& m[FieldKey::From] == text_value(hex_lower(p.subrange(1, 7)))
            &&& m[FieldKey::PathLen] == ValueView::Integer(p[7] as int)
            &&& m[FieldKey::Timestamp] == ValueView::Integer(bytes_le32(p, 9))
            &&& m[FieldKey::Text] == text_value(lenient_text(p.subrange(13, p.len() as int)))
        },
{
}

/// CHANNEL_MSG_RECV (`[0x08, channel, path length, text type,
/// timestamp(4), text...]`) decodes to the channel (the second byte), path
/// length, timestamp and text.
pub proof fn lemma_channel_msg_fields(p: Seq<u8>)
    requires
        p.len() >= 9,
    ensures
        decode_response_spec(0x08, p) matches Some(m) && {
            &&& m[FieldKey::Channel] == ValueView::Integer(p[1] as int)
            &&& m[FieldKey::PathLen] == ValueView::Integer(p[2] as int)
            &&& m[FieldKey::Timestamp] == ValueView::Integer(bytes_le32(p, 4))
            &&& m[FieldKey::Text] == text_value(lenient_text(p.subrange(8, p.len() as int)))
        },
{
}

/// MSG_SENT (`[0x06, type, expected ACK(4), timeout(4)]`) decodes to the
/// type, the ACK in hex and the timeout.
pub proof fn lemma_msg_sent_fields(p: Seq<u8>)
    requires
        p.len() >= 10,
    ensures
        decode_response_spec(0x06, p) == Some(
            map![
                FieldKey::MsgType => ValueView::Integer(p[1] as int),
                FieldKey::ExpectedAck => text_value(hex_lower(p.subrange(2, 6))),
                FieldKey::TimeoutMs => ValueView::Integer(bytes_le32(p, 6)),
            ],
        ),
{
}

/// DEVICE_INFO with its limits (`[0x0D, firmware, max contacts / 2, max
/// channels, ...]`, over 60 bytes) decodes to the firmware version, twice
/// the second byte as the contact limit, and the channel count (the third
/// byte).
pub proof fn lemma_device_info_fields(p: Seq<u8>)
    requires
        p.len() > 60,
    ensures
        decode_response_spec(0x0D, p) matches Some(m) && {
            &&& m[FieldKey::FwVersion] == ValueView::Integer(p[1] as int)
            &&& m[FieldKey::MaxContacts] == ValueView::Integer(2 * p[2])
            &&& m[FieldKey::MaxChannels] == ValueView::Integer(p[3] as int)
        },
{
}

/// APP_START (`[0x01, version, app name...]`) decodes to the version and
/// the name without its trailing zeros.
pub proof fn lemma_app_start_fields(p: Seq<u8>)
    requires
        p.len() >= 3,
    ensures
        decode_command_spec(0x01, p) == Some(
            map![
                FieldKey::Version => ValueView::Integer(p[1] as int),
                FieldKey::App => text_value(trim_trailing_nul(lenient_text(p.subrange(2, p.len() as int)))),
            ],
        ),
{
}

/// SET_ADVERT_NAME (`[0x08, name...]`) decodes to the name without its
/// trailing zeros.
pub proof fn lemma_set_name_fields(p: Seq<u8>)
    requires
        p.len() >= 1,
    ensures
        decode_command_spec(0x08, p) == Some(
            map![
                FieldKey::Name => text_value(trim_trailing_nul(lenient_text(p.subrange(1, p.len() as int)))),
            ],
        ),
{
}

/// SET_CHANNEL (`[0x20, index, name(32), secret(16)]`) decodes to the
/// index, the name without trailing zeros and the secret in hex.
pub proof fn lemma_set_channel_fields(p: Seq<u8>)
    requires
        p.len() > 49,
    ensures
        decode_command_spec(0x20, p) == Some(
            map![
                FieldKey::ChannelIdx => ValueView::Integer(p[1] as int),
                FieldKey::Name => text_value(trim_trailing_nul(lenient_text(p.subrange(2, 34)))),
                FieldKey::Psk => text_value(hex_lower(p.subrange(34, 50))),
            ],
        ),
{
}

/// GET_CHANNEL (`[0x1F, index]`) decodes to the index; SET_TX_POWER
/// (`[0x0C, power(4)]`) to the power; SET_DEVICE_PIN (`[0x25, pin(4)]`) to
/// the PIN; SET_DEVICE_TIME (`[0x06, time(4)]`) to the time.
pub proof fn lemma_short_command_fields(p: Seq<u8>)
    requires
        p.len() >= 5,
    ensures
        decode_command_spec(0x1F, p) == Some(map![FieldKey::ChannelIdx => ValueView::Integer(p[1] as int)]),
        decode_command_spec(0x0C, p) == Some(map![FieldKey::TxPower => ValueView::Integer(bytes_le32(p, 1))]),
        decode_command_spec(0x25, p) == Some(map![FieldKey::Pin => ValueView::Integer(bytes_le32(p, 1))]),
        decode_command_spec(0x06, p) == Some(map![FieldKey::Time => ValueView::Integer(bytes_le32(p, 1))]),
{
}

/// OK (`[0x00]`, or `[0x00, value(4)]`) and ERROR (`[0x01, code]`) decode
/// to their status, and the value or the error code.
pub proof fn lemma_status_fields(p: Seq<u8>)
    requires
        p.len() >= 1,
    ensures
        decode_response_spec(0x00, p) == Some(
            if p.len() == 5 {
                map![
                    FieldKey::Status => text_value("OK"@),
                    FieldKey::Value => ValueView::Integer(bytes_le32(p, 1)),
                ]
            } else {
                map![FieldKey::Status => text_value("OK"@)]
            },
        ),
        decode_response_spec(0x01, p) == Some(
            if p.len() > 1 {
                map![
                    FieldKey::Status => text_value("ERROR"@),
                    FieldKey::ErrorCode => ValueView::Integer(p[1] as int),
                ]
            } else {
                map![FieldKey::Status => text_value("ERROR"@)]
            },
        ),
{
    if p.len() == 5 {
        assert(map![FieldKey::Status => text_value("OK"@)].insert(
            FieldKey::Value,
            ValueView::Integer(bytes_le32(p, 1)),
        ) =~= map![
            FieldKey::Status => text_value("OK"@),
            FieldKey::Value => ValueView::Integer(bytes_le32(p, 1)),
        ]);
    }
    if p.len() > 1 {
        assert(map![FieldKey::Status => text_value("ERROR"@)].insert(
            FieldKey::ErrorCode,
            ValueView::Integer(p[1] as int),
        ) =~= map![
            FieldKey::Status => text_value("ERROR"@),
            FieldKey::ErrorCode => ValueView::Integer(p[1] as int),
        ]);
    }
}

/// BATTERY (`[0x0C, millivolts(2), used(4), total(4)]`) decodes to the
/// level, and the storage used and total when the frame has them.
pub proof fn lemma_battery_fields(p: Seq<u8>)
    requires
        p.len() >= 3,
    ensures
        decode_response_spec(0x0C, p) matches Some(m) && {
            &&& m[FieldKey::LevelMv] == ValueView::Integer(p[1] + 256 * p[2])
            &&& m.contains_key(FieldKey::UsedKb) == (p.len() >= 11)
            &&& p.len() >= 11 ==> m[FieldKey::UsedKb] == ValueView::Integer(bytes_le32(p, 3))
                && m[FieldKey::TotalKb] == ValueView::Integer(bytes_le32(p, 7))
        },
{
}

/// A delivery ACK (`[0x82, code(4)]`) decodes to its code in hex.
pub proof fn lemma_ack_fields(p: Seq<u8>)
    requires
        p.len() >= 5,
    ensures
        decode_response_spec(0x82, p) == Some(map![FieldKey::AckCode => text_value(hex_lower(p.subrange(1, 5)))]),
{
}

/// CHANNEL_INFO (`[0x12, index, name(32), secret(16)]`) decodes to the index.
pub proof fn lemma_channel_info_fields(p: Seq<u8>)
    requires
        p.len() >= 34,
    ensures
        decode_response_spec(0x12, p) matches Some(m) && m[FieldKey::ChannelIdx] == ValueView::Integer(
            p[1] as int,
        ),
{
}

} // verus!
