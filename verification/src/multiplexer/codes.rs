//! What each protocol code makes the router do, with the codes written out:
//! which answers fan out, which commands empty the cache, which frames go
//! to everyone, what the ERROR reply is, what is echoed and what is stored.

use vstd::prelude::*;
use vstd::utf8::{decode_utf8_encode_utf8, valid_utf8};

use super::router::{
    ack_key, ack_kept, advance_spec, cache_response_spec, client_command_spec, core_wf,
    dispatch_spec, record_ack, route_spec,
    timeout_spec, ActionView, CoreView, KvKey, LookupView, IN_FLIGHT_TIMEOUT_MS,
};
use super::AwaitingView;
use crate::frontend::ClientId;
use crate::node::state::{ContactView, MessageKind, MessageView};
use crate::protocol::fields::{bytes_le32, bytes_le32_signed};
use crate::text::lenient_text;

verus! {

/// Taking queued commands never starts with a frame to the other clients:
/// it starts with a command to the radio or an ERROR to one client.
proof fn lemma_advance_starts_plainly(s: CoreView, live: Seq<ClientId>, now: u64, up: bool)
    requires
        core_wf(s),
    ensures
        advance_spec(s, live, now, up).actions.len() > 0 ==> !(advance_spec(
            s,
            live,
            now,
            up,
        ).actions[0] is ToOthers),
    decreases s.queue.len(),
{
    if s.queue.len() > 0 {
        let s1 = CoreView { queue: s.queue.drop_first(), ..s };
        assert(core_wf(s1)) by {
            assert forall|i: int| 0 <= i < s1.queue.len() implies #[trigger] s1.queue[i].payload.len()
                > 0 by {
                assert(s1.queue[i] == s.queue[i + 1]);
            }
        }
        lemma_advance_starts_plainly(s1, live, now, up);
        assert(s.queue[0].payload.len() > 0);
    }
}

/// While GET_MSG (0x0A) is in flight, the frame that answers it goes to the
/// client that polled; a received message (CONTACT_MSG_RECV 0x07,
/// CHANNEL_MSG_RECV 0x08, or their V3 forms 0x10 and 0x11) also goes to
/// every other client, and no other answer does.
pub proof fn lemma_get_msg_fans_out_exactly_messages(
    s: CoreView,
    code: u8,
    p: Seq<u8>,
    now: u64,
    live: Seq<ClientId>,
    up: bool,
)
    requires
        core_wf(s),
        s.in_flight matches Some(f) && f.cmd_code == 0x0A && f.awaiting == AwaitingView::Any,
        code != 0x80 && code != 0x81 && code != 0x83 && code != 0x88 && code != 0x8A && code
            != 0x82,
    ensures
        ({
            let asker = s.in_flight->0.client;
            let acts = route_spec(s, code, p, now, live, up).actions;
            &&& acts[0] == (ActionView::ToClient { client: asker, payload: p })
            &&& (code == 0x07 || code == 0x08 || code == 0x10 || code == 0x11) ==> acts[1] == (
            ActionView::ToOthers { sender: asker, payload: p })
            &&& !(code == 0x07 || code == 0x08 || code == 0x10 || code == 0x11) ==> (acts.len() <= 1
                || !(acts[1] is ToOthers))
        }),
{
    let f = s.in_flight->0;
    let s1 = if code == 0x06 && p.len() >= 6 {
        CoreView {
            pending_acks: record_ack(s.pending_acks.filter(ack_kept(now)), ack_key(p, 2), f.client, now),
            ..s
        }
    } else {
        s
    };
    let s2 = CoreView { in_flight: None, ..s1 };
    assert(core_wf(s2));
    lemma_advance_starts_plainly(s2, live, now, up);
    let a = advance_spec(s2, live, now, up).actions;
    let r = route_spec(s, code, p, now, live, up).actions;
    if !(code == 0x07 || code == 0x08 || code == 0x10 || code == 0x11) {
        assert(r =~= seq![ActionView::ToClient { client: f.client, payload: p }] + a);
        if r.len() > 1 {
            assert(r[1] == a[0]);
        }
    }
}

/// Sending one of the commands that change what SELF_INFO, DEVICE_INFO or
/// BATTERY report (0x08, 0x0B, 0x0C, 0x0E, 0x15, 0x25, 0x26, 0x33) to a
/// free radio that is up sends it and empties those three caches; sending
/// any other command keeps them.
pub proof fn lemma_setter_codes(
    s: CoreView,
    client: ClientId,
    p: Seq<u8>,
    lookup: LookupView,
    now: u64,
    unix_now: i64,
)
    requires
        s.in_flight is None,
        p.len() > 0,
        p[0] != 0x01 && p[0] != 0x16 && p[0] != 0x14 && p[0] != 0x04 && p[0] != 0x1F,
    ensures
        ({
            let st = client_command_spec(s, client, p, lookup, now, unix_now, true);
            let code = p[0];
            &&& st.actions[0] == (ActionView::ToRadio { payload: p })
            &&& (code == 0x08 || code == 0x0B || code == 0x0C || code == 0x0E || code == 0x15 || code
                == 0x25 || code == 0x26 || code == 0x33) ==> st.state.self_info is None
                && st.state.device_info is None && st.state.battery_info is None
            &&& !(code == 0x08 || code == 0x0B || code == 0x0C || code == 0x0E || code == 0x15
                || code == 0x25 || code == 0x26 || code == 0x33) ==> st.state.self_info
                == s.self_info && st.state.device_info == s.device_info && st.state.battery_info
                == s.battery_info
        }),
{
}

/// The commands the cache answers are SELF_INFO (0x01), DEVICE_QUERY (0x16)
/// and GET_BATTERY (0x14) from the blobs, GET_CONTACTS (0x04) and
/// GET_CHANNEL (0x1F) from the store. Any other command, when the radio is
/// free but not reachable, is answered with ERROR, the two bytes `[1, 1]`,
/// and changes nothing.
pub proof fn lemma_error_reply_bytes(
    s: CoreView,
    client: ClientId,
    p: Seq<u8>,
    lookup: LookupView,
    now: u64,
    unix_now: i64,
)
    requires
        s.in_flight is None,
        p.len() > 0,
        p[0] != 0x01 && p[0] != 0x16 && p[0] != 0x14 && p[0] != 0x04 && p[0] != 0x1F,
    ensures
        client_command_spec(s, client, p, lookup, now, unix_now, false).state == s,
        client_command_spec(s, client, p, lookup, now, unix_now, false).actions == seq![
            ActionView::ToClient { client, payload: seq![0x01u8, 0x01u8] },
        ],
{
}

/// A request that waited 5000 ms or more is answered with ERROR, `[1, 1]`;
/// one that waited less is left alone.
pub proof fn lemma_timeout_bytes(s: CoreView, now: u64, live: Seq<ClientId>, up: bool)
    requires
        s.in_flight is Some,
    ensures
        ({
            let f = s.in_flight->0;
            let st = timeout_spec(s, now, live, up);
            &&& IN_FLIGHT_TIMEOUT_MS == 5000
            &&& now >= f.sent_at + 5000 ==> st.actions[0] == (ActionView::ToClient {
                client: f.client,
                payload: seq![0x01u8, 0x01u8],
            })
            &&& (now < f.sent_at + 5000) ==> st.state == s && st.actions.len() == 0
        }),
{
}

/// The radio's spontaneous frames, ADVERTISEMENT (0x80), PATH_UPDATE
/// (0x81), MESSAGES_WAITING (0x83), LOG_DATA (0x88) and NEW_ADVERT (0x8A),
/// go to every client and change nothing, whatever is in flight.
pub proof fn lemma_push_codes(
    s: CoreView,
    code: u8,
    p: Seq<u8>,
    now: u64,
    live: Seq<ClientId>,
    up: bool,
)
    requires
        code == 0x80 || code == 0x81 || code == 0x83 || code == 0x88 || code == 0x8A,
    ensures
        route_spec(s, code, p, now, live, up).state == s,
        route_spec(s, code, p, now, live, up).actions == seq![ActionView::Broadcast { payload: p }],
{
}

/// A SEND_CHAN_MSG of 8 bytes or more (`[0x03, type, channel, timestamp(4),
/// text...]`) sent while the radio's key is known reaches the other clients
/// as the CHANNEL_MSG_RECV `[0x08, channel, 0, 0, timestamp(4), text...]`;
/// a SEND_MSG of 14 bytes or more (`[0x02, type, attempt, timestamp(4),
/// key prefix(6), text...]`) as the CONTACT_MSG_RECV `[0x07, first six
/// bytes of the radio's key, 0, type, timestamp(4), text...]`. This is for
/// text that is valid UTF-8; shorter sends are not echoed.
pub proof fn lemma_echo_bytes(s: CoreView, client: ClientId, p: Seq<u8>, lookup: LookupView, now: u64, unix_now: i64)
    requires
        core_wf(s),
        s.in_flight is None,
        s.radio_pubkey is Some,
        p.len() > 0,
        p[0] == 0x02 || p[0] == 0x03,
    ensures
        ({
            let st = client_command_spec(s, client, p, lookup, now, unix_now, true);
            let pk = s.radio_pubkey->0;
            &&& st.actions[0] == (ActionView::ToRadio { payload: p })
            &&& (p[0] == 0x03 && p.len() >= 8 && valid_utf8(p.subrange(7, p.len() as int)))
                ==> st.actions[1] == (ActionView::ToOthers {
                sender: client,
                payload: seq![0x08u8, p[2], 0u8, 0u8] + p.subrange(3, p.len() as int),
            })
            &&& (p[0] == 0x02 && p.len() >= 14 && valid_utf8(p.subrange(13, p.len() as int)))
                ==> st.actions[1] == (ActionView::ToOthers {
                sender: client,
                payload: seq![0x07u8] + pk.take(6) + seq![0u8, p[1]] + p.subrange(3, 7)
                    + p.subrange(13, p.len() as int),
            })
            &&& (p[0] == 0x02 && p.len() < 14 || p[0] == 0x03 && p.len() < 8) ==> st.actions
                == seq![ActionView::ToRadio { payload: p }]
        }),
{
    let st = client_command_spec(s, client, p, lookup, now, unix_now, true);
    let n = p.len() as int;
    if p[0] == 0x03 && p.len() >= 8 && valid_utf8(p.subrange(7, n)) {
        decode_utf8_encode_utf8(p.subrange(7, n));
        assert(p.subrange(3, 7) + p.subrange(7, n) =~= p.subrange(3, n));
        assert(seq![0x08u8, p[2], 0u8, 0u8] + p.subrange(3, 7) + p.subrange(7, n) =~= seq![
            0x08u8,
            p[2],
            0u8,
            0u8,
        ] + p.subrange(3, n));
    }
    if p[0] == 0x02 && p.len() >= 14 && valid_utf8(p.subrange(13, n)) {
        decode_utf8_encode_utf8(p.subrange(13, n));
    }
    if p[0] == 0x02 && p.len() < 14 || p[0] == 0x03 && p.len() < 8 {
        assert(st.actions =~= seq![ActionView::ToRadio { payload: p }]);
    }
}

/// A CHANNEL_MSG_RECV of 9 bytes or more (`[0x08, channel, path length,
/// type, timestamp(4), text...]`) is stored as a channel message of the
/// channel in its second byte, with its timestamp and text, and nothing
/// else changes.
pub proof fn lemma_channel_msg_stored(s: CoreView, p: Seq<u8>, unix_now: i64)
    requires
        p.len() >= 9,
    ensures
        cache_response_spec(s, 0x08, p, unix_now).state == s,
        cache_response_spec(s, 0x08, p, unix_now).actions == seq![
            ActionView::StoreMessage(
                MessageView {
                    kind: MessageKind::Channel,
                    from_key: None,
                    channel_idx: Some(p[1] as i64),
                    text: lenient_text(p.subrange(8, p.len() as int)),
                    timestamp: bytes_le32(p, 4) as i64,
                },
            ),
        ],
{
}

/// A CONTACT_MSG_RECV of 13 bytes or more (`[0x07, key prefix(6), path
/// length, type, timestamp(4), text...]`) is stored as a contact message
/// from that key prefix, with its timestamp and text.
pub proof fn lemma_contact_msg_stored(s: CoreView, p: Seq<u8>, unix_now: i64)
    requires
        p.len() >= 13,
    ensures
        cache_response_spec(s, 0x07, p, unix_now).state == s,
        cache_response_spec(s, 0x07, p, unix_now).actions == seq![
            ActionView::StoreMessage(
                MessageView {
                    kind: MessageKind::Contact,
                    from_key: Some(p.subrange(1, 7)),
                    channel_idx: None,
                    text: lenient_text(p.subrange(13, p.len() as int)),
                    timestamp: bytes_le32(p, 9) as i64,
                },
            ),
        ],
{
}

/// The V3 message frames are stored too: a contact message (0x11 is the
/// channel form) `[0x10, snr, 0, 0, key prefix(6), path length, type,
/// timestamp(4), (signature(4) when type is 2), text...]` from its key
/// prefix; a channel message `[0x11, snr, 0, 0, channel, path length, type,
/// timestamp(4), text...]` of the channel in its fifth byte.
pub proof fn lemma_v3_msgs_stored(s: CoreView, p: Seq<u8>, unix_now: i64)
    requires
        p.len() >= 16,
    ensures
        cache_response_spec(s, 0x10, p, unix_now).actions == seq![
            ActionView::StoreMessage(
                MessageView {
                    kind: MessageKind::Contact,
                    from_key: Some(p.subrange(4, 10)),
                    channel_idx: None,
                    text: if p[11] == 2 {
                        if p.len() > 20 { lenient_text(p.subrange(20, p.len() as int)) } else { Seq::empty() }
                    } else {
                        if p.len() > 16 { lenient_text(p.subrange(16, p.len() as int)) } else { Seq::empty() }
                    },
                    timestamp: bytes_le32(p, 12) as i64,
                },
            ),
        ],
        cache_response_spec(s, 0x11, p, unix_now).actions == seq![
            ActionView::StoreMessage(
                MessageView {
                    kind: MessageKind::Channel,
                    from_key: None,
                    channel_idx: Some(p[4] as i64),
                    text: lenient_text(p.subrange(11, p.len() as int)),
                    timestamp: bytes_le32(p, 7) as i64,
                },
            ),
        ],
{
}

/// A SELF_INFO frame of 36 bytes or more is kept, and saved, as the cached
/// SELF_INFO, and teaches the router the radio's key: bytes 4 to 35.
pub proof fn lemma_self_info_kept(s: CoreView, p: Seq<u8>, unix_now: i64)
    requires
        p.len() >= 36,
    ensures
        cache_response_spec(s, 0x05, p, unix_now).state.self_info == Some(p),
        cache_response_spec(s, 0x05, p, unix_now).state.radio_pubkey == Some(p.subrange(4, 36)),
        cache_response_spec(s, 0x05, p, unix_now).actions == seq![
            ActionView::KvSet { key: KvKey::SelfInfo, value: p },
        ],
{
}

/// A DEVICE_INFO frame of more than 60 bytes whose fourth byte is not zero
/// sets the radio's channel count to that byte.
pub proof fn lemma_device_info_channels(s: CoreView, p: Seq<u8>, unix_now: i64)
    requires
        p.len() > 60,
        p[3] != 0,
    ensures
        cache_response_spec(s, 0x0D, p, unix_now).state.max_channels == p[3],
        cache_response_spec(s, 0x0D, p, unix_now).state.device_info == Some(p),
{
}

/// A CONTACT frame of 148 bytes or more is stored as a contact: the key in
/// bytes 1 to 32, the type in byte 33, the last advert the number at 132,
/// and the coordinates the signed numbers at 136 and 140 (none when zero).
pub proof fn lemma_contact_stored(s: CoreView, p: Seq<u8>, unix_now: i64)
    requires
        p.len() >= 148,
    ensures
        cache_response_spec(s, 0x03, p, unix_now).state == s,
        cache_response_spec(s, 0x03, p, unix_now).actions.len() == 1,
        cache_response_spec(s, 0x03, p, unix_now).actions[0] matches ActionView::StoreContact(c) && {
            &&& c.public_key == p.subrange(1, 33)
            &&& c.contact_type == p[33] as i64
            &&& c.last_advert == Some(bytes_le32(p, 132) as i64)
            &&& c.lat == (if bytes_le32_signed(p, 136) != 0 {
                Some(bytes_le32_signed(p, 136) as i32)
            } else {
                None::<i32>
            })
            &&& c.lon == (if bytes_le32_signed(p, 140) != 0 {
                Some(bytes_le32_signed(p, 140) as i32)
            } else {
                None::<i32>
            })
        },
{
}

/// GET_CONTACTS (0x04) is answered by a stream: once it is in flight,
/// CONTACT_START (0x02) and CONTACT (0x03) frames go to the client that
/// asked and keep the radio busy; CONTACT_END (0x04) goes to that client
/// and frees the radio; any other frame that is no ACK goes to everyone.
pub proof fn lemma_contact_listing_streams(
    s: CoreView,
    client: ClientId,
    p: Seq<u8>,
    code: u8,
    frame: Seq<u8>,
    now: u64,
    unix_now: i64,
    live: Seq<ClientId>,
)
    requires
        core_wf(s),
        s.in_flight is None,
        s.queue.len() == 0,
        p.len() > 0,
        p[0] == 0x04,
        code != 0x82,
    ensures
        ({
            let s1 = client_command_spec(s, client, p, LookupView::Unavailable, now, unix_now, true).state;
            let r = route_spec(s1, code, frame, now, live, true);
            &&& s1.in_flight is Some
            &&& (code == 0x02 || code == 0x03) ==> r.actions == seq![
                ActionView::ToClient { client, payload: frame },
            ] && r.state.in_flight == s1.in_flight
            &&& code == 0x04 ==> r.actions == seq![ActionView::ToClient { client, payload: frame }]
                && r.state.in_flight is None
            &&& !(code == 0x02 || code == 0x03 || code == 0x04) ==> r.actions == seq![
                ActionView::Broadcast { payload: frame },
            ] && r.state == s1
        }),
{
    let s1 = client_command_spec(s, client, p, LookupView::Unavailable, now, unix_now, true).state;
    let s2 = CoreView { in_flight: None, ..s1 };
    assert(s2.queue.len() == 0);
    assert(advance_spec(s2, live, now, true).actions =~= Seq::<ActionView>::empty());
}

/// The four little-endian bytes of `v`, written out.
pub open spec fn le_bytes4(v: int) -> Seq<u8> {
    seq![(v % 256) as u8, (v / 256 % 256) as u8, (v / 65536 % 256) as u8, (v / 16777216 % 256) as u8]
}

/// GET_CONTACTS served from the store: CONTACT_START `[0x02, count(4)]`,
/// one frame per contact, then CONTACT_END `[0x04, time(4)]`, all to the
/// client that asked, without the radio.
pub proof fn lemma_contacts_from_store(
    s: CoreView,
    client: ClientId,
    p: Seq<u8>,
    cs: Seq<ContactView>,
    now: u64,
    unix_now: i64,
    up: bool,
)
    requires
        p.len() > 0,
        p[0] == 0x04,
        cs.len() > 0,
        cs.len() < 0x1_0000_0000,
    ensures
        ({
            let st = client_command_spec(s, client, p, LookupView::Contacts(cs), now, unix_now, up);
            &&& st.state == s
            &&& st.actions.len() == cs.len() + 2
            &&& st.actions[0] == (ActionView::ToClient {
                client,
                payload: seq![0x02u8] + le_bytes4(cs.len() as int),
            })
            &&& st.actions[cs.len() + 1int] == (ActionView::ToClient {
                client,
                payload: seq![0x04u8] + le_bytes4((unix_now as u32) as int),
            })
            &&& forall|i: int| 1 <= i <= cs.len() ==> #[trigger] st.actions[i] is ToClient
        }),
{
    let st = client_command_spec(s, client, p, LookupView::Contacts(cs), now, unix_now, up);
    assert forall|i: int| 1 <= i <= cs.len() implies #[trigger] st.actions[i] is ToClient by {}
}

} // verus!
