//! The router: the decisions of the multiplexer, from client commands,
//! radio frames and clock ticks to replies, radio commands and cache writes.
//!
//! The radio answers one command at a time. The router keeps at most one
//! request in flight and queues the rest in arrival order; it serves cache
//! reads without the radio; it routes each answer to the client that asked,
//! late delivery ACKs to the client that sent the message, and everything
//! else to every client.

use std::collections::VecDeque;
use vstd::prelude::*;
use vstd::slice::{slice_subrange, slice_to_vec};

use super::reply::{
    channel_echo, channel_echo_bytes, channel_record, channel_record_bytes, contact_echo,
    contact_echo_bytes, contact_record, contact_record_bytes, contacts_end, contacts_end_bytes,
    contacts_start, contacts_start_bytes,
};
use super::{awaiting_for, awaiting_spec, is_push_event, push_event, Awaiting, AwaitingView};
use crate::frontend::{ClientCommand, ClientId};
use crate::node::state::{
    CachedChannel, CachedContact, ChannelView, ContactView, MessageKind, MessageRecord, MessageView,
};
use crate::protocol::decode::{
    channel_name_len, contact_name_len, decode_response_payload, decode_response_spec,
    DecodedValue, FieldKey, ValueView,
};
use crate::protocol::wire::{i32_le_at, read_i32_le, read_u32_le, u32_le_at};
use crate::text::{lenient_text, utf8_lossy};

verus! {

/// How long the router waits for the radio to answer a request.
pub const IN_FLIGHT_TIMEOUT_MS: u64 = 5000;

/// How long a MSG_SENT's expected ACK is remembered.
pub const PENDING_ACK_TTL_MS: u64 = 300_000;

/// The radio channels the router assumes until the radio reports its own.
pub const DEFAULT_MAX_CHANNELS: u8 = 40;

/// The request the radio is working on.
#[derive(Debug)]
pub struct InFlight {
    pub client_id: ClientId,
    pub cmd_code: u8,
    /// When it went to the radio, in milliseconds of the router's clock.
    pub sent_at: u64,
    pub awaiting: Awaiting,
}

/// The request in flight, as contracts see it.
pub struct InFlightView {
    pub client: ClientId,
    pub cmd_code: u8,
    pub sent_at: u64,
    pub awaiting: AwaitingView,
}

impl View for InFlight {
    type V = InFlightView;

    open spec fn view(&self) -> InFlightView {
        InFlightView {
            client: self.client_id,
            cmd_code: self.cmd_code,
            sent_at: self.sent_at,
            awaiting: self.awaiting@,
        }
    }
}

/// A command waiting for the radio.
#[derive(Debug)]
pub struct Queued {
    pub client_id: ClientId,
    pub payload: Vec<u8>,
}

/// A waiting command, as contracts see it.
pub struct QueuedView {
    pub client: ClientId,
    pub payload: Seq<u8>,
}

impl View for Queued {
    type V = QueuedView;

    open spec fn view(&self) -> QueuedView {
        QueuedView { client: self.client_id, payload: self.payload@ }
    }
}

/// A delivery ACK the radio promised: its four bytes (read as a
/// little-endian number), the client whose message it belongs to, and when
/// the promise came.
#[derive(Debug, Clone, Copy, PartialEq, Eq, Structural)]
pub struct PendingAck {
    pub ack: u32,
    pub client_id: ClientId,
    pub inserted_at: u64,
}

/// A blob the key-value store keeps across restarts.
#[derive(Debug, Clone, Copy, PartialEq, Eq, Structural)]
pub enum KvKey {
    SelfInfo,
    DeviceInfo,
    BatteryInfo,
}

/// The key the store files a blob under.
pub open spec fn kv_key_name(k: KvKey) -> Seq<char> {
    match k {
        KvKey::SelfInfo => "self_info_raw"@,
        KvKey::DeviceInfo => "device_info_raw"@,
        KvKey::BatteryInfo => "battery_info_raw"@,
    }
}

impl KvKey {
    /// The key the store files this blob under.
    pub fn as_str(&self) -> (s: &'static str)
        ensures
            s@ == kv_key_name(*self),
    {
        match self {
            KvKey::SelfInfo => "self_info_raw",
            KvKey::DeviceInfo => "device_info_raw",
            KvKey::BatteryInfo => "battery_info_raw",
        }
    }
}

/// What the store must be asked before a command is handled.
#[derive(Debug, Clone, Copy, PartialEq, Eq, Structural)]
pub enum CacheQuery {
    Contacts,
    Channels,
    Nothing,
}

/// What the store had when it was asked: the contacts or the channels, or
/// nothing usable (no question, or the store failed).
#[derive(Debug)]
pub enum CacheLookup {
    Contacts(Vec<CachedContact>),
    Channels(Vec<CachedChannel>),
    Unavailable,
}

/// What the store had, as contracts see it.
pub enum LookupView {
    Contacts(Seq<ContactView>),
    Channels(Seq<ChannelView>),
    Unavailable,
}

impl View for CacheLookup {
    type V = LookupView;

    open spec fn view(&self) -> LookupView {
        match self {
            CacheLookup::Contacts(cs) => LookupView::Contacts(cs@.map_values(|c: CachedContact| c@)),
            CacheLookup::Channels(chs) => LookupView::Channels(
                chs@.map_values(|c: CachedChannel| c@),
            ),
            CacheLookup::Unavailable => LookupView::Unavailable,
        }
    }
}

/// Something the router asks the rest of the program to do.
#[derive(Debug)]
pub enum Action {
    /// Send a frame to one client.
    SendToClient { client: ClientId, payload: Vec<u8> },
    /// Send a frame to every connected client but `sender`.
    SendToOthers { sender: ClientId, payload: Vec<u8> },
    /// Send a frame to every client.
    Broadcast { payload: Vec<u8> },
    /// Send a command to the radio.
    SendToRadio { payload: Vec<u8> },
    StoreContact(CachedContact),
    StoreChannel(CachedChannel),
    DeleteChannel { idx: i64 },
    StoreMessage(MessageRecord),
    KvSet { key: KvKey, value: Vec<u8> },
    /// Record a raw radio frame.
    RecordRawRx { code: u8, payload: Vec<u8> },
}

/// An action, as contracts see it.
pub enum ActionView {
    ToClient { client: ClientId, payload: Seq<u8> },
    ToOthers { sender: ClientId, payload: Seq<u8> },
    Broadcast { payload: Seq<u8> },
    ToRadio { payload: Seq<u8> },
    StoreContact(ContactView),
    StoreChannel(ChannelView),
    DeleteChannel { idx: i64 },
    StoreMessage(MessageView),
    KvSet { key: KvKey, value: Seq<u8> },
    RecordRawRx { code: u8, payload: Seq<u8> },
}

impl View for Action {
    type V = ActionView;

    open spec fn view(&self) -> ActionView {
        match self {
            Action::SendToClient { client, payload } => ActionView::ToClient {
                client: *client,
                payload: payload@,
            },
            Action::SendToOthers { sender, payload } => ActionView::ToOthers {
                sender: *sender,
                payload: payload@,
            },
            Action::Broadcast { payload } => ActionView::Broadcast { payload: payload@ },
            Action::SendToRadio { payload } => ActionView::ToRadio { payload: payload@ },
            Action::StoreContact(c) => ActionView::StoreContact(c@),
            Action::StoreChannel(c) => ActionView::StoreChannel(c@),
            Action::DeleteChannel { idx } => ActionView::DeleteChannel { idx: *idx },
            Action::StoreMessage(m) => ActionView::StoreMessage(m@),
            Action::KvSet { key, value } => ActionView::KvSet { key: *key, value: value@ },
            Action::RecordRawRx { code, payload } => ActionView::RecordRawRx {
                code: *code,
                payload: payload@,
            },
        }
    }
}

/// The views of a list of actions.
pub open spec fn actions_view(a: Seq<Action>) -> Seq<ActionView> {
    a.map_values(|x: Action| x@)
}

/// What the router holds, as contracts see it.
pub struct CoreView {
    pub self_info: Option<Seq<u8>>,
    pub device_info: Option<Seq<u8>>,
    pub battery_info: Option<Seq<u8>>,
    pub radio_pubkey: Option<Seq<u8>>,
    pub radio_name: Option<Seq<char>>,
    pub max_channels: u8,
    pub in_flight: Option<InFlightView>,
    pub queue: Seq<QueuedView>,
    pub pending_acks: Seq<PendingAck>,
    pub record_radio_rx: bool,
}

/// A state the router can be in: every queued command has a code byte, and
/// a known radio key has 32 bytes.
pub open spec fn core_wf(s: CoreView) -> bool {
    &&& forall|i: int| 0 <= i < s.queue.len() ==> #[trigger] s.queue[i].payload.len() > 0
    &&& s.radio_pubkey matches Some(pk) ==> pk.len() == 32
}

/// The outcome of one decision: the next state and the actions, in order.
pub struct Step {
    pub state: CoreView,
    pub actions: Seq<ActionView>,
}

/// The router before anything happened.
pub open spec fn initial_core(record_radio_rx: bool) -> CoreView {
    CoreView {
        self_info: None,
        device_info: None,
        battery_info: None,
        radio_pubkey: None,
        radio_name: None,
        max_channels: DEFAULT_MAX_CHANNELS,
        in_flight: None,
        queue: Seq::empty(),
        pending_acks: Seq::empty(),
        record_radio_rx,
    }
}

/// The ERROR reply the router sends for a request the radio did not take
/// or did not answer in time.
pub open spec fn error_reply() -> Seq<u8> {
    seq![0x01u8, 0x01u8]
}

/// Commands that change what SELF_INFO, DEVICE_INFO or BATTERY report.
pub open spec fn is_setter(code: u8) -> bool {
    code == 0x08 || code == 0x0B || code == 0x0C || code == 0x0E || code == 0x15 || code == 0x25
        || code == 0x26 || code == 0x33
}

/// Whether a command is a message that other clients see echoed:
/// SEND_MSG with text, or SEND_CHAN_MSG.
pub open spec fn is_echoed(p: Seq<u8>) -> bool {
    (p[0] == 0x02 && p.len() >= 14) || (p[0] == 0x03 && p.len() >= 8)
}

/// The echo of a sent message to the other clients and its record in the
/// store; nothing while the radio's key is unknown.
pub open spec fn echo_actions(s: CoreView, sender: ClientId, p: Seq<u8>) -> Seq<ActionView> {
    match s.radio_pubkey {
        None => Seq::empty(),
        Some(pk) => {
            let from = pk.take(6);
            let stamp = p.subrange(3, 7);
            let ts = u32_le_at(p, 3) as i64;
            if p[0] == 0x02 {
                let text = lenient_text(p.subrange(13, p.len() as int));
                seq![
                    ActionView::ToOthers { sender, payload: contact_echo(from, p[1], stamp, text) },
                    ActionView::StoreMessage(
                        MessageView {
                            kind: MessageKind::Contact,
                            from_key: Some(from),
                            channel_idx: None,
                            text,
                            timestamp: ts,
                        },
                    ),
                ]
            } else {
                let text = lenient_text(p.subrange(7, p.len() as int));
                seq![
                    ActionView::ToOthers { sender, payload: channel_echo(p[2], stamp, text) },
                    ActionView::StoreMessage(
                        MessageView {
                            kind: MessageKind::Channel,
                            from_key: Some(from),
                            channel_idx: Some(p[2] as i64),
                            text,
                            timestamp: ts,
                        },
                    ),
                ]
            }
        },
    }
}

/// Sending command `p` of `client` to the radio. When the radio is down the
/// client gets ERROR and nothing else changes. Otherwise the command goes
/// out; then a sent message is echoed to the other clients, a removed
/// channel leaves the cache, a setter empties the cached SELF_INFO,
/// DEVICE_INFO and BATTERY; and the command is in flight.
pub open spec fn dispatch_spec(s: CoreView, client: ClientId, p: Seq<u8>, now: u64, radio_up: bool) -> Step {
    if !radio_up {
        Step { state: s, actions: seq![ActionView::ToClient { client, payload: error_reply() }] }
    } else {
        let code = p[0];
        let side = if is_echoed(p) {
            echo_actions(s, client, p)
        } else if code == 0x20 && p.len() > 1 {
            seq![ActionView::DeleteChannel { idx: p[1] as i64 }]
        } else {
            Seq::empty()
        };
        let s1 = if is_setter(code) {
            CoreView { self_info: None, device_info: None, battery_info: None, ..s }
        } else {
            s
        };
        Step {
            state: CoreView {
                in_flight: Some(
                    InFlightView {
                        client,
                        cmd_code: code,
                        sent_at: now,
                        awaiting: awaiting_spec(code),
                    },
                ),
                ..s1
            },
            actions: seq![ActionView::ToRadio { payload: p }] + side,
        }
    }
}

/// Taking queued commands in order once the radio is free: a command of a
/// client that is gone is dropped; one the radio does not take gets ERROR
/// and the next is tried; the first it takes is in flight.
pub open spec fn advance_spec(s: CoreView, live: Seq<ClientId>, now: u64, radio_up: bool) -> Step
    decreases s.queue.len(),
{
    if s.queue.len() == 0 {
        Step { state: s, actions: Seq::empty() }
    } else {
        let next = s.queue[0];
        let s1 = CoreView { queue: s.queue.drop_first(), ..s };
        if !live.contains(next.client) {
            advance_spec(s1, live, now, radio_up)
        } else if !radio_up {
            let r = advance_spec(s1, live, now, radio_up);
            Step {
                state: r.state,
                actions: seq![ActionView::ToClient { client: next.client, payload: error_reply() }]
                    + r.actions,
            }
        } else {
            dispatch_spec(s1, next.client, next.payload, now, true)
        }
    }
}

/// The channel a GET_CHANNEL asks for (`-1` when it names none).
pub open spec fn requested_channel(p: Seq<u8>) -> int {
    if p.len() > 1 {
        p[1] as int
    } else {
        -1
    }
}

/// The first cached channel with index `idx`.
pub open spec fn channel_position(chs: Seq<ChannelView>, idx: int) -> Option<int>
    decreases chs.len(),
{
    if chs.len() == 0 {
        None
    } else if chs[0].idx == idx {
        Some(0)
    } else {
        match channel_position(chs.drop_first(), idx) {
            Some(i) => Some(i + 1),
            None => None,
        }
    }
}

/// The replies to GET_CONTACTS from the cache: CONTACT_START, one CONTACT
/// per cached contact, CONTACT_END.
pub open spec fn contacts_reply(client: ClientId, cs: Seq<ContactView>, now: u32) -> Seq<ActionView> {
    seq![ActionView::ToClient { client, payload: contacts_start(cs.len() as u32) }] + Seq::new(
        cs.len(),
        |i: int| ActionView::ToClient { client, payload: contact_record(cs[i], now) },
    ) + seq![ActionView::ToClient { client, payload: contacts_end(now) }]
}

/// The replies that serve a command from the cache, if the cache can:
/// SELF_INFO (1), DEVICE_QUERY (0x16) and GET_BATTERY (0x14) from the
/// blobs the radio last sent, GET_CONTACTS (4) from a nonempty contact list,
/// GET_CHANNEL (0x1F) from the cached channel of that index.
pub open spec fn cached_reply(
    s: CoreView,
    client: ClientId,
    p: Seq<u8>,
    lookup: LookupView,
    unix_now: i64,
) -> Option<Seq<ActionView>> {
    let code = p[0];
    if code == 0x01 {
        match s.self_info {
            Some(b) => Some(seq![ActionView::ToClient { client, payload: b }]),
            None => None,
        }
    } else if code == 0x16 {
        match s.device_info {
            Some(b) => Some(seq![ActionView::ToClient { client, payload: b }]),
            None => None,
        }
    } else if code == 0x14 {
        match s.battery_info {
            Some(b) => Some(seq![ActionView::ToClient { client, payload: b }]),
            None => None,
        }
    } else if code == 0x04 {
        match lookup {
            LookupView::Contacts(cs) => if cs.len() > 0 {
                Some(contacts_reply(client, cs, unix_now as u32))
            } else {
                None
            },
            _ => None,
        }
    } else if code == 0x1F {
        match lookup {
            LookupView::Channels(chs) => match channel_position(chs, requested_channel(p)) {
                Some(i) => Some(seq![ActionView::ToClient { client, payload: channel_record(chs[i]) }]),
                None => None,
            },
            _ => None,
        }
    } else {
        None
    }
}

/// A command from `client`: ignored when empty; served from the cache when
/// it can be; otherwise sent to the radio when no request is in flight, and
/// queued behind the others when one is.
pub open spec fn client_command_spec(
    s: CoreView,
    client: ClientId,
    p: Seq<u8>,
    lookup: LookupView,
    now: u64,
    unix_now: i64,
    radio_up: bool,
) -> Step {
    if p.len() == 0 {
        Step { state: s, actions: Seq::empty() }
    } else {
        match cached_reply(s, client, p, lookup, unix_now) {
            Some(a) => Step { state: s, actions: a },
            None => if s.in_flight is None {
                dispatch_spec(s, client, p, now, radio_up)
            } else {
                Step {
                    state: CoreView { queue: s.queue.push(QueuedView { client, payload: p }), ..s },
                    actions: Seq::empty(),
                }
            },
        }
    }
}

/// Milliseconds from `t` to `now`, zero when `now` is earlier.
pub open spec fn age(now: u64, t: u64) -> int {
    if now >= t {
        now - t
    } else {
        0
    }
}

/// Whether an ACK promise is young enough to keep at `now`.
pub open spec fn ack_kept(now: u64) -> spec_fn(PendingAck) -> bool {
    |a: PendingAck| age(now, a.inserted_at) < PENDING_ACK_TTL_MS
}

/// The position of the ACK promise for `key`.
pub open spec fn ack_position(v: Seq<PendingAck>, key: u32) -> Option<int>
    decreases v.len(),
{
    if v.len() == 0 {
        None
    } else if v[0].ack == key {
        Some(0)
    } else {
        match ack_position(v.drop_first(), key) {
            Some(i) => Some(i + 1),
            None => None,
        }
    }
}

/// `v` with the promise of `key` given to `client` at `now` (replacing an
/// earlier promise of the same key).
pub open spec fn record_ack(v: Seq<PendingAck>, key: u32, client: ClientId, now: u64) -> Seq<PendingAck> {
    let a = PendingAck { ack: key, client_id: client, inserted_at: now };
    match ack_position(v, key) {
        Some(i) => v.update(i, a),
        None => v.push(a),
    }
}

/// The four bytes at `p[i..i + 4]` as an ACK key.
pub open spec fn ack_key(p: Seq<u8>, i: int) -> u32 {
    u32_le_at(p, i) as u32
}

/// Whether a frame answers (is part of the reply to) the request in flight.
/// Push events never do, and neither does a delivery ACK (0x82), which has
/// a routing of its own.
pub open spec fn answers(f: InFlightView, code: u8) -> bool {
    !push_event(code) && code != 0x82 && match f.awaiting {
        AwaitingView::Any => true,
        AwaitingView::Stream { frame_codes, terminator_code } => frame_codes.contains(code) || code
            == terminator_code,
    }
}

/// Whether a frame that answers the request in flight completes it.
pub open spec fn completes(f: InFlightView, code: u8) -> bool {
    match f.awaiting {
        AwaitingView::Any => true,
        AwaitingView::Stream { terminator_code, .. } => code == terminator_code,
    }
}

/// Whether a frame is a received message (contact or channel, either
/// format).
pub open spec fn is_received_message(code: u8) -> bool {
    code == 0x07 || code == 0x08 || code == 0x10 || code == 0x11
}

/// Routing a radio frame to the request in flight, if it answers it: the
/// asking client gets it; a MSG_SENT remembers its expected ACK for that
/// client (after forgetting promises older than the TTL); a message fetched
/// by GET_MSG (0x0A) also goes to every other client; a completing frame
/// frees the radio for the next queued command.
pub open spec fn in_flight_route(
    s: CoreView,
    code: u8,
    p: Seq<u8>,
    now: u64,
    live: Seq<ClientId>,
    radio_up: bool,
) -> Option<Step> {
    match s.in_flight {
        None => None,
        Some(f) => if !answers(f, code) {
            None
        } else {
            let s1 = if code == 0x06 && p.len() >= 6 {
                CoreView {
                    pending_acks: record_ack(
                        s.pending_acks.filter(ack_kept(now)),
                        ack_key(p, 2),
                        f.client,
                        now,
                    ),
                    ..s
                }
            } else {
                s
            };
            let acts = seq![ActionView::ToClient { client: f.client, payload: p }] + (
            if f.cmd_code == 0x0A && is_received_message(code) {
                seq![ActionView::ToOthers { sender: f.client, payload: p }]
            } else {
                Seq::empty()
            });
            if completes(f, code) {
                let a = advance_spec(CoreView { in_flight: None, ..s1 }, live, now, radio_up);
                Some(Step { state: a.state, actions: acts + a.actions })
            } else {
                Some(Step { state: s1, actions: acts })
            }
        },
    }
}

/// Routing a delivery ACK (0x82) to the client whose message it belongs to,
/// once; `None` when no promise matches.
pub open spec fn ack_route(s: CoreView, code: u8, p: Seq<u8>) -> Option<Step> {
    if code != 0x82 || p.len() < 5 {
        None
    } else {
        match ack_position(s.pending_acks, ack_key(p, 1)) {
            None => None,
            Some(i) => Some(
                Step {
                    state: CoreView { pending_acks: s.pending_acks.remove(i), ..s },
                    actions: seq![
                        ActionView::ToClient { client: s.pending_acks[i].client_id, payload: p },
                    ],
                },
            ),
        }
    }
}

/// Routing a radio frame: to the request in flight, else as a late ACK,
/// else to every client.
pub open spec fn route_spec(
    s: CoreView,
    code: u8,
    p: Seq<u8>,
    now: u64,
    live: Seq<ClientId>,
    radio_up: bool,
) -> Step {
    match in_flight_route(s, code, p, now, live, radio_up) {
        Some(st) => st,
        None => match ack_route(s, code, p) {
            Some(st) => st,
            None => Step { state: s, actions: seq![ActionView::Broadcast { payload: p }] },
        },
    }
}

/// The contact a CONTACT frame describes.
pub open spec fn contact_of(p: Seq<u8>) -> ContactView {
    let lat = i32_le_at(p, 136);
    let lon = i32_le_at(p, 140);
    ContactView {
        public_key: p.subrange(1, 33),
        name: lenient_text(p.subrange(100, 100 + contact_name_len(p))),
        contact_type: p[33] as i64,
        last_advert: Some(u32_le_at(p, 132) as i64),
        lat: if lat != 0 {
            Some(lat as i32)
        } else {
            None
        },
        lon: if lon != 0 {
            Some(lon as i32)
        } else {
            None
        },
    }
}

/// The channel a CHANNEL_INFO frame describes.
pub open spec fn channel_of(p: Seq<u8>) -> ChannelView {
    ChannelView {
        idx: p[1] as i64,
        name: lenient_text(p.subrange(2, 2 + channel_name_len(p))),
        config: Some(p.subrange(34, 50)),
    }
}

/// The text of a decoded field, empty when it is missing or no text.
pub open spec fn text_field(m: Map<FieldKey, ValueView>, k: FieldKey) -> Seq<char> {
    if m.contains_key(k) {
        match m[k] {
            ValueView::String(t) => t,
            _ => Seq::empty(),
        }
    } else {
        Seq::empty()
    }
}

/// The number of a decoded field, `default` when it is missing or no number.
pub open spec fn int_field_or(m: Map<FieldKey, ValueView>, k: FieldKey, default: int) -> int {
    if m.contains_key(k) {
        match m[k] {
            ValueView::Integer(i) => i,
            _ => default,
        }
    } else {
        default
    }
}

/// `s` after learning the radio's key and name from a SELF_INFO blob.
pub open spec fn with_identity(s: CoreView, p: Seq<u8>) -> CoreView {
    let s1 = if p.len() >= 36 {
        CoreView { radio_pubkey: Some(p.subrange(4, 36)), ..s }
    } else {
        s
    };
    match decode_response_spec(0x05, p) {
        Some(m) => if m.contains_key(FieldKey::Name) {
            match m[FieldKey::Name] {
                ValueView::String(n) => CoreView { radio_name: Some(n), ..s1 },
                _ => s1,
            }
        } else {
            s1
        },
        None => s1,
    }
}

/// `s` after learning the radio's channel count from a DEVICE_INFO blob
/// (a count of zero is ignored; larger counts are capped at 255).
pub open spec fn with_max_channels(s: CoreView, p: Seq<u8>) -> CoreView {
    match decode_response_spec(0x0D, p) {
        Some(m) => if m.contains_key(FieldKey::MaxChannels) {
            match m[FieldKey::MaxChannels] {
                ValueView::Integer(n) => {
                    let mx = (if n < 255 {
                        n
                    } else {
                        255
                    }) as u8;
                    if mx > 0 {
                        CoreView { max_channels: mx, ..s }
                    } else {
                        s
                    }
                },
                _ => s,
            }
        } else {
            s
        },
        None => s,
    }
}

/// Whether the router can take a radio frame: a V3 contact message
/// (0x10) of 13 to 15 bytes is cut inside its timestamp.
pub open spec fn radio_frame_ok(p: Seq<u8>) -> bool {
    !(p.len() > 0 && p[0] == 0x10 && 13 <= p.len() < 16)
}

/// What caching a radio frame does: a CONTACT is stored; SELF_INFO,
/// BATTERY and DEVICE_INFO blobs are kept (and stored) and teach the
/// router the radio's key, name and channel count; received messages
/// (0x07, 0x08 and their V3 forms 0x10, 0x11) are stored; a CHANNEL_INFO
/// is stored.
pub open spec fn cache_response_spec(s: CoreView, code: u8, p: Seq<u8>, unix_now: i64) -> Step {
    let n = p.len() as int;
    if code == 0x03 && n >= 148 {
        Step { state: s, actions: seq![ActionView::StoreContact(contact_of(p))] }
    } else if code == 0x05 {
        Step {
            state: CoreView { self_info: Some(p), ..with_identity(s, p) },
            actions: seq![ActionView::KvSet { key: KvKey::SelfInfo, value: p }],
        }
    } else if code == 0x0C {
        Step {
            state: CoreView { battery_info: Some(p), ..s },
            actions: seq![ActionView::KvSet { key: KvKey::BatteryInfo, value: p }],
        }
    } else if code == 0x0D {
        Step {
            state: CoreView { device_info: Some(p), ..with_max_channels(s, p) },
            actions: seq![ActionView::KvSet { key: KvKey::DeviceInfo, value: p }],
        }
    } else if code == 0x07 {
        match decode_response_spec(0x07, p) {
            Some(m) => Step {
                state: s,
                actions: seq![
                    ActionView::StoreMessage(
                        MessageView {
                            kind: MessageKind::Contact,
                            from_key: if n >= 7 {
                                Some(p.subrange(1, 7))
                            } else {
                                None
                            },
                            channel_idx: None,
                            text: text_field(m, FieldKey::Text),
                            timestamp: int_field_or(m, FieldKey::Timestamp, unix_now as int) as i64,
                        },
                    ),
                ],
            },
            None => Step { state: s, actions: Seq::empty() },
        }
    } else if code == 0x08 {
        match decode_response_spec(0x08, p) {
            Some(m) => Step {
                state: s,
                actions: seq![
                    ActionView::StoreMessage(
                        MessageView {
                            kind: MessageKind::Channel,
                            from_key: None,
                            channel_idx: if m.contains_key(FieldKey::Channel) {
                                Some(int_field_or(m, FieldKey::Channel, 0) as i64)
                            } else {
                                None
                            },
                            text: text_field(m, FieldKey::Text),
                            timestamp: int_field_or(m, FieldKey::Timestamp, unix_now as int) as i64,
                        },
                    ),
                ],
            },
            None => Step { state: s, actions: Seq::empty() },
        }
    } else if code == 0x10 && n >= 13 {
        let offset = if p[11] == 2 {
            20
        } else {
            16
        };
        Step {
            state: s,
            actions: seq![
                ActionView::StoreMessage(
                    MessageView {
                        kind: MessageKind::Contact,
                        from_key: Some(p.subrange(4, 10)),
                        channel_idx: None,
                        text: if n > offset {
                            lenient_text(p.subrange(offset, n))
                        } else {
                            Seq::empty()
                        },
                        timestamp: u32_le_at(p, 12) as i64,
                    },
                ),
            ],
        }
    } else if code == 0x11 && n >= 11 {
        Step {
            state: s,
            actions: seq![
                ActionView::StoreMessage(
                    MessageView {
                        kind: MessageKind::Channel,
                        from_key: None,
                        channel_idx: Some(p[4] as i64),
                        text: if n > 11 {
                            lenient_text(p.subrange(11, n))
                        } else {
                            Seq::empty()
                        },
                        timestamp: u32_le_at(p, 7) as i64,
                    },
                ),
            ],
        }
    } else if code == 0x12 && n >= 50 {
        Step {
            state: s,
            actions: seq![
                ActionView::StoreChannel(channel_of(p)),
            ],
        }
    } else {
        Step { state: s, actions: Seq::empty() }
    }
}

/// A frame from the radio: ignored when empty; otherwise cached, recorded
/// raw when the proxy records, and routed.
pub open spec fn radio_rx_spec(
    s: CoreView,
    p: Seq<u8>,
    now: u64,
    unix_now: i64,
    live: Seq<ClientId>,
    radio_up: bool,
) -> Step {
    if p.len() == 0 {
        Step { state: s, actions: Seq::empty() }
    } else {
        let code = p[0];
        let c = cache_response_spec(s, code, p, unix_now);
        let rec = if s.record_radio_rx {
            seq![ActionView::RecordRawRx { code, payload: p }]
        } else {
            Seq::empty()
        };
        let r = route_spec(c.state, code, p, now, live, radio_up);
        Step { state: r.state, actions: c.actions + rec + r.actions }
    }
}

/// A clock tick: a request in flight for the timeout or longer is failed
/// with ERROR and the radio goes to the next queued command.
pub open spec fn timeout_spec(s: CoreView, now: u64, live: Seq<ClientId>, radio_up: bool) -> Step {
    match s.in_flight {
        Some(f) => if age(now, f.sent_at) >= IN_FLIGHT_TIMEOUT_MS {
            let a = advance_spec(CoreView { in_flight: None, ..s }, live, now, radio_up);
            Step {
                state: a.state,
                actions: seq![ActionView::ToClient { client: f.client, payload: error_reply() }]
                    + a.actions,
            }
        } else {
            Step { state: s, actions: Seq::empty() }
        },
        None => Step { state: s, actions: Seq::empty() },
    }
}

/// The radio connection is lost: the request in flight and every queued
/// command fail with ERROR at once.
pub open spec fn radio_lost_spec(s: CoreView) -> Step {
    let in_flight = match s.in_flight {
        Some(f) => seq![ActionView::ToClient { client: f.client, payload: error_reply() }],
        None => Seq::empty(),
    };
    Step {
        state: CoreView { in_flight: None, queue: Seq::empty(), ..s },
        actions: in_flight + Seq::new(
            s.queue.len(),
            |i: int| ActionView::ToClient { client: s.queue[i].client, payload: error_reply() },
        ),
    }
}

/// What the store must be asked before command `p` is handled: the contacts
/// for GET_CONTACTS, the channels for GET_CHANNEL.
pub open spec fn cache_query_spec(p: Seq<u8>) -> CacheQuery {
    if p.len() == 0 {
        CacheQuery::Nothing
    } else if p[0] == 0x04 {
        CacheQuery::Contacts
    } else if p[0] == 0x1F {
        CacheQuery::Channels
    } else {
        CacheQuery::Nothing
    }
}

/// The commands that fill the cache from the radio: GET_CONTACTS, then
/// GET_CHANNEL for every channel index below the radio's channel count.
pub open spec fn sync_requests_spec(s: CoreView) -> Seq<Seq<u8>> {
    seq![seq![0x04u8]] + Seq::new(s.max_channels as nat, |i: int| seq![0x1Fu8, i as u8])
}

/// Commands `reqs` of `owner`, handled one after the other as client
/// commands with nothing from the store: the final state and all actions in
/// order.
pub open spec fn commands_spec(
    s: CoreView,
    owner: ClientId,
    reqs: Seq<Seq<u8>>,
    now: u64,
    unix_now: i64,
    radio_up: bool,
) -> Step
    decreases reqs.len(),
{
    if reqs.len() == 0 {
        Step { state: s, actions: Seq::empty() }
    } else {
        let before = commands_spec(s, owner, reqs.drop_last(), now, unix_now, radio_up);
        let last = client_command_spec(
            before.state,
            owner,
            reqs.last(),
            LookupView::Unavailable,
            now,
            unix_now,
            radio_up,
        );
        Step { state: last.state, actions: before.actions + last.actions }
    }
}

/// `s` after restoring the blobs the store kept, each only where the radio
/// has not sent a fresher one.
pub open spec fn restore_spec(
    s: CoreView,
    self_info: Option<Seq<u8>>,
    device_info: Option<Seq<u8>>,
    battery_info: Option<Seq<u8>>,
) -> CoreView {
    let s1 = match self_info {
        Some(b) => if s.self_info is None {
            CoreView { self_info: Some(b), ..with_identity(s, b) }
        } else {
            s
        },
        None => s,
    };
    let s2 = match device_info {
        Some(b) => if s1.device_info is None {
            CoreView { device_info: Some(b), ..with_max_channels(s1, b) }
        } else {
            s1
        },
        None => s1,
    };
    match battery_info {
        Some(b) => if s2.battery_info is None {
            CoreView { battery_info: Some(b), ..s2 }
        } else {
            s2
        },
        None => s2,
    }
}

/// What the store must be asked before `payload` is handled.
pub fn cache_query(payload: &[u8]) -> (q: CacheQuery)
    ensures
        q == cache_query_spec(payload@),
{
    if payload.len() == 0 {
        CacheQuery::Nothing
    } else if payload[0] == 0x04 {
        CacheQuery::Contacts
    } else if payload[0] == 0x1F {
        CacheQuery::Channels
    } else {
        CacheQuery::Nothing
    }
}

/// Whether the router can take radio frame `payload` (see `radio_frame_ok`).
pub fn is_radio_frame_ok(payload: &[u8]) -> (r: bool)
    ensures
        r == radio_frame_ok(payload@),
{
    !(payload.len() > 0 && payload[0] == 0x10 && 13 <= payload.len() && payload.len() < 16)
}

/// The router: the cached blobs and radio identity, the request in flight,
/// the queue behind it and the ACKs the radio promised.
#[derive(Debug)]
pub struct CoreState {
    self_info_raw: Option<Vec<u8>>,
    device_info_raw: Option<Vec<u8>>,
    battery_info_raw: Option<Vec<u8>>,
    radio_pubkey: Option<Vec<u8>>,
    radio_name: Option<String>,
    max_channels: u8,
    in_flight: Option<InFlight>,
    pending_queue: VecDeque<Queued>,
    /// The ACK promises, with distinct keys (see `reachable`). They are kept
    /// in a vector rather than a `HashMap`: promises older than the TTL are
    /// dropped with a `retain`, which vstd does not specify for `HashMap`.
    pending_acks: Vec<PendingAck>,
    record_radio_rx: bool,
}

/// The view of an optional byte vector.
pub open spec fn opt_bytes(o: Option<Vec<u8>>) -> Option<Seq<u8>> {
    match o {
        Some(v) => Some(v@),
        None => None,
    }
}

impl View for CoreState {
    type V = CoreView;

    closed spec fn view(&self) -> CoreView {
        CoreView {
            self_info: opt_bytes(self.self_info_raw),
            device_info: opt_bytes(self.device_info_raw),
            battery_info: opt_bytes(self.battery_info_raw),
            radio_pubkey: opt_bytes(self.radio_pubkey),
            radio_name: match &self.radio_name {
                Some(n) => Some(n@),
                None => None,
            },
            max_channels: self.max_channels,
            in_flight: match &self.in_flight {
                Some(f) => Some(f@),
                None => None,
            },
            queue: self.pending_queue@.map_values(|q: Queued| q@),
            pending_acks: self.pending_acks@,
            record_radio_rx: self.record_radio_rx,
        }
    }
}

/// The ERROR reply.
fn error_vec() -> (v: Vec<u8>)
    ensures
        v@ == error_reply(),
{
    let mut v: Vec<u8> = Vec::new();
    v.push(0x01);
    v.push(0x01);
    assert(v@ =~= error_reply());
    v
}

/// Appends action `a`.
fn emit(acts: &mut Vec<Action>, a: Action)
    ensures
        actions_view(final(acts)@) == actions_view(old(acts)@).push(a@),
{
    let ghost before = acts@;
    acts.push(a);
    assert(actions_view(acts@) =~= actions_view(before).push(a@));
}

/// A copy of `v`.
fn copy_bytes(v: &Vec<u8>) -> (r: Vec<u8>)
    ensures
        r@ == v@,
{
    slice_to_vec(v.as_slice())
}

/// Whether `client` is among `live`.
fn is_alive(live: &[ClientId], client: ClientId) -> (r: bool)
    ensures
        r == live@.contains(client),
{
    let mut i: usize = 0;
    while i < live.len()
        invariant
            i <= live@.len(),
            forall|t: int| 0 <= t < i ==> live@[t] != client,
        decreases live@.len() - i,
    {
        if live[i] == client {
            assert(live@[i as int] == client);
            return true;
        }
        i = i + 1;
    }
    false
}

/// With no channel `idx` before `j`, the first is at `j` when `chs[j]` is
/// one, and there is none when `j` is the end.
proof fn lemma_channel_position(chs: Seq<ChannelView>, idx: int, j: int)
    requires
        0 <= j <= chs.len(),
        forall|t: int| 0 <= t < j ==> #[trigger] chs[t].idx != idx,
    ensures
        j < chs.len() && chs[j].idx == idx ==> channel_position(chs, idx) == Some(j),
        j == chs.len() ==> channel_position(chs, idx) is None,
    decreases j,
{
    if j > 0 {
        assert forall|t: int| 0 <= t < j - 1 implies #[trigger] chs.drop_first()[t].idx != idx by {
            assert(chs.drop_first()[t] == chs[t + 1]);
        }
        lemma_channel_position(chs.drop_first(), idx, j - 1);
    }
}

/// The position of the first cached channel with index `idx`.
fn find_channel(chs: &Vec<CachedChannel>, idx: i64) -> (r: Option<usize>)
    ensures
        match r {
            Some(i) => i < chs@.len() && channel_position(
                chs@.map_values(|c: CachedChannel| c@),
                idx as int,
            ) == Some(i as int),
            None => channel_position(chs@.map_values(|c: CachedChannel| c@), idx as int) is None,
        },
{
    let ghost v = chs@.map_values(|c: CachedChannel| c@);
    let mut i: usize = 0;
    while i < chs.len()
        invariant
            i <= chs@.len(),
            v == chs@.map_values(|c: CachedChannel| c@),
            forall|t: int| 0 <= t < i ==> #[trigger] v[t].idx != idx,
        decreases chs@.len() - i,
    {
        if chs[i].idx == idx {
            proof {
                lemma_channel_position(v, idx as int, i as int);
            }
            return Some(i);
        }
        i = i + 1;
    }
    proof {
        lemma_channel_position(v, idx as int, i as int);
    }
    None
}

/// Appends the replies that serve GET_CONTACTS from `cs`.
fn respond_contacts(client: ClientId, cs: &Vec<CachedContact>, unix_now: i64, acts: &mut Vec<Action>)
    ensures
        actions_view(final(acts)@) == actions_view(old(acts)@) + contacts_reply(
            client,
            cs@.map_values(|c: CachedContact| c@),
            unix_now as u32,
        ),
{
    let ghost a0 = actions_view(acts@);
    let ghost v = cs@.map_values(|c: CachedContact| c@);
    let count = cs.len() as u32;
    let now = unix_now as u32;
    emit(acts, Action::SendToClient { client, payload: contacts_start_bytes(count) });
    let ghost a1 = actions_view(acts@);
    let mut i: usize = 0;
    while i < cs.len()
        invariant
            i <= cs@.len(),
            v == cs@.map_values(|c: CachedContact| c@),
            actions_view(acts@) == a1 + Seq::new(
                i as nat,
                |j: int| ActionView::ToClient { client, payload: contact_record(v[j], now) },
            ),
        decreases cs@.len() - i,
    {
        emit(acts, Action::SendToClient { client, payload: contact_record_bytes(&cs[i], now) });
        i = i + 1;
        assert(actions_view(acts@) =~= a1 + Seq::new(
            i as nat,
            |j: int| ActionView::ToClient { client, payload: contact_record(v[j], now) },
        ));
    }
    emit(acts, Action::SendToClient { client, payload: contacts_end_bytes(now) });
    assert(actions_view(acts@) =~= a0 + contacts_reply(client, v, now));
}

/// With no promise for `key` before `j`, the first is at `j` when `v[j]` is
/// one, and there is none when `j` is the end.
pub(crate) proof fn lemma_ack_position(v: Seq<PendingAck>, key: u32, j: int)
    requires
        0 <= j <= v.len(),
        forall|t: int| 0 <= t < j ==> #[trigger] v[t].ack != key,
    ensures
        j < v.len() && v[j].ack == key ==> ack_position(v, key) == Some(j),
        j == v.len() ==> ack_position(v, key) is None,
    decreases j,
{
    if j > 0 {
        assert forall|t: int| 0 <= t < j - 1 implies #[trigger] v.drop_first()[t].ack != key by {
            assert(v.drop_first()[t] == v[t + 1]);
        }
        lemma_ack_position(v.drop_first(), key, j - 1);
    }
}

/// The position of the ACK promise for `key`.
fn find_ack(acks: &Vec<PendingAck>, key: u32) -> (r: Option<usize>)
    ensures
        match r {
            Some(i) => i < acks@.len() && ack_position(acks@, key) == Some(i as int),
            None => ack_position(acks@, key) is None,
        },
{
    let mut i: usize = 0;
    while i < acks.len()
        invariant
            i <= acks@.len(),
            forall|t: int| 0 <= t < i ==> #[trigger] acks@[t].ack != key,
        decreases acks@.len() - i,
    {
        if acks[i].ack == key {
            proof {
                lemma_ack_position(acks@, key, i as int);
            }
            return Some(i);
        }
        i = i + 1;
    }
    proof {
        lemma_ack_position(acks@, key, i as int);
    }
    None
}

/// Milliseconds from `t` to `now`, zero when `now` is earlier.
fn age_of(now: u64, t: u64) -> (a: u64)
    ensures
        a as int == age(now, t),
{
    if now >= t {
        now - t
    } else {
        0
    }
}

/// The ACK promises young enough to keep at `now`.
fn kept_acks(acks: &Vec<PendingAck>, now: u64) -> (r: Vec<PendingAck>)
    ensures
        r@ == acks@.filter(ack_kept(now)),
{
    let ghost pred = ack_kept(now);
    let mut kept: Vec<PendingAck> = Vec::new();
    for i in 0..acks.len()
        invariant
            pred == ack_kept(now),
            kept@ == acks@.take(i as int).filter(pred),
    {
        reveal_with_fuel(Seq::<_>::filter, 1);
        let a = acks[i];
        let ghost before = kept@;
        let ghost t = acks@.take(i + 1);
        assert(t.last() == a);
        assert(t.drop_last() =~= acks@.take(i as int));
        if age_of(now, a.inserted_at) < PENDING_ACK_TTL_MS {
            kept.push(a);
        }
        assert(t.filter(pred) == (if pred(a) {
            before.push(a)
        } else {
            before
        }));
    }
    assert(acks@.take(acks@.len() as int) =~= acks@);
    kept
}

/// Whether `v` holds `b`.
fn holds_byte(v: &Vec<u8>, b: u8) -> (r: bool)
    ensures
        r == v@.contains(b),
{
    let mut i: usize = 0;
    while i < v.len()
        invariant
            i <= v@.len(),
            forall|t: int| 0 <= t < i ==> v@[t] != b,
        decreases v@.len() - i,
    {
        if v[i] == b {
            assert(v@[i as int] == b);
            return true;
        }
        i = i + 1;
    }
    false
}

impl CoreState {
    /// A router that knows nothing yet; `record_radio_rx` says whether raw
    /// radio frames are to be recorded.
    pub fn new(record_radio_rx: bool) -> (c: Self)
        ensures
            c@ == initial_core(record_radio_rx),
            core_wf(c@),
    {
        let c = CoreState {
            self_info_raw: None,
            device_info_raw: None,
            battery_info_raw: None,
            radio_pubkey: None,
            radio_name: None,
            max_channels: DEFAULT_MAX_CHANNELS,
            in_flight: None,
            pending_queue: VecDeque::new(),
            pending_acks: Vec::new(),
            record_radio_rx,
        };
        assert(c@.queue =~= Seq::<QueuedView>::empty());
        c
    }

    /// Appends the echo of message `payload` of `sender` (see `echo_actions`).
    fn echo_message(&self, sender: ClientId, payload: &[u8], acts: &mut Vec<Action>)
        requires
            core_wf(self@),
            is_echoed(payload@),
        ensures
            actions_view(final(acts)@) == actions_view(old(acts)@) + echo_actions(
                self@,
                sender,
                payload@,
            ),
    {
        let ghost a0 = actions_view(acts@);
        match &self.radio_pubkey {
            None => {
                assert(actions_view(acts@) =~= a0 + Seq::<ActionView>::empty());
            },
            Some(pk) => {
                let n = payload.len();
                let from = slice_subrange(pk.as_slice(), 0, 6);
                assert(from@ =~= pk@.take(6));
                let stamp = slice_subrange(payload, 3, 7);
                let ts = read_u32_le(payload, 3) as i64;
                if payload[0] == 0x02 {
                    let text = utf8_lossy(slice_subrange(payload, 13, n));
                    let fake = contact_echo_bytes(from, payload[1], stamp, text.as_str());
                    emit(acts, Action::SendToOthers { sender, payload: fake });
                    emit(
                        acts,
                        Action::StoreMessage(
                            MessageRecord {
                                kind: MessageKind::Contact,
                                from_key: Some(slice_to_vec(from)),
                                channel_idx: None,
                                text,
                                timestamp: ts,
                            },
                        ),
                    );
                } else {
                    let text = utf8_lossy(slice_subrange(payload, 7, n));
                    let fake = channel_echo_bytes(payload[2], stamp, text.as_str());
                    emit(acts, Action::SendToOthers { sender, payload: fake });
                    emit(
                        acts,
                        Action::StoreMessage(
                            MessageRecord {
                                kind: MessageKind::Channel,
                                from_key: Some(slice_to_vec(from)),
                                channel_idx: Some(payload[2] as i64),
                                text,
                                timestamp: ts,
                            },
                        ),
                    );
                }
                assert(actions_view(acts@) =~= a0 + echo_actions(self@, sender, payload@));
            },
        }
    }

    /// Appends the replies that serve `payload` from the cache, if it can be
    /// (see `cached_reply`); says whether it was.
    fn try_serve_from_cache(
        &self,
        client: ClientId,
        payload: &[u8],
        lookup: &CacheLookup,
        unix_now: i64,
        acts: &mut Vec<Action>,
    ) -> (served: bool)
        requires
            payload@.len() > 0,
        ensures
            served == cached_reply(self@, client, payload@, lookup@, unix_now) is Some,
            served ==> actions_view(final(acts)@) == actions_view(old(acts)@) + cached_reply(
                self@,
                client,
                payload@,
                lookup@,
                unix_now,
            )->0,
            !served ==> final(acts)@ == old(acts)@,
    {
        let ghost a0 = actions_view(acts@);
        let code = payload[0];
        if code == 0x01 {
            if let Some(b) = &self.self_info_raw {
                emit(acts, Action::SendToClient { client, payload: copy_bytes(b) });
                assert(actions_view(acts@) =~= a0 + cached_reply(self@, client, payload@, lookup@, unix_now)->0);
                return true;
            }
        } else if code == 0x16 {
            if let Some(b) = &self.device_info_raw {
                emit(acts, Action::SendToClient { client, payload: copy_bytes(b) });
                assert(actions_view(acts@) =~= a0 + cached_reply(self@, client, payload@, lookup@, unix_now)->0);
                return true;
            }
        } else if code == 0x14 {
            if let Some(b) = &self.battery_info_raw {
                emit(acts, Action::SendToClient { client, payload: copy_bytes(b) });
                assert(actions_view(acts@) =~= a0 + cached_reply(self@, client, payload@, lookup@, unix_now)->0);
                return true;
            }
        } else if code == 0x04 {
            if let CacheLookup::Contacts(cs) = lookup {
                if cs.len() > 0 {
                    respond_contacts(client, cs, unix_now, acts);
                    return true;
                }
            }
        } else if code == 0x1F {
            let requested: i64 = if payload.len() > 1 {
                payload[1] as i64
            } else {
                -1
            };
            if let CacheLookup::Channels(chs) = lookup {
                if let Some(i) = find_channel(chs, requested) {
                    emit(acts, Action::SendToClient { client, payload: channel_record_bytes(&chs[i]) });
                    assert(actions_view(acts@) =~= a0 + cached_reply(self@, client, payload@, lookup@, unix_now)->0);
                    return true;
                }
            }
        }
        false
    }

    /// Handles a command from a client (see `client_command_spec`).
    /// `lookup` holds what the store had for it (see `cache_query`), `now`
    /// is the router's clock in milliseconds, `unix_now` the time of day in
    /// seconds, and `radio_up` whether the radio takes commands.
    pub fn handle_client_command(
        &mut self,
        cmd: ClientCommand,
        lookup: &CacheLookup,
        now: u64,
        unix_now: i64,
        radio_up: bool,
    ) -> (acts: Vec<Action>)
        requires
            core_wf(old(self)@),
        ensures
            final(self)@ == client_command_spec(
                old(self)@,
                cmd.client_id,
                cmd.payload@,
                lookup@,
                now,
                unix_now,
                radio_up,
            ).state,
            actions_view(acts@) == client_command_spec(
                old(self)@,
                cmd.client_id,
                cmd.payload@,
                lookup@,
                now,
                unix_now,
                radio_up,
            ).actions,
            core_wf(final(self)@),
    {
        let mut acts: Vec<Action> = Vec::new();
        assert(actions_view(acts@) =~= Seq::<ActionView>::empty());
        if cmd.payload.len() == 0 {
            return acts;
        }
        if self.try_serve_from_cache(cmd.client_id, cmd.payload.as_slice(), lookup, unix_now, &mut acts) {
            return acts;
        }
        if self.in_flight.is_none() {
            self.dispatch_to_radio(cmd.client_id, cmd.payload, now, radio_up, &mut acts);
            assert(actions_view(acts@) =~= Seq::<ActionView>::empty() + dispatch_spec(
                old(self)@,
                cmd.client_id,
                cmd.payload@,
                now,
                radio_up,
            ).actions);
        } else {
            let ghost q = QueuedView { client: cmd.client_id, payload: cmd.payload@ };
            self.pending_queue.push_back(Queued { client_id: cmd.client_id, payload: cmd.payload });
            assert(self@.queue =~= old(self)@.queue.push(q));
        }
        acts
    }

    /// Routes a radio frame to the request in flight, if it answers it (see
    /// `in_flight_route`); says whether it did.
    fn try_route_to_in_flight(
        &mut self,
        code: u8,
        payload: &[u8],
        now: u64,
        live: &[ClientId],
        radio_up: bool,
        acts: &mut Vec<Action>,
    ) -> (routed: bool)
        requires
            core_wf(old(self)@),
        ensures
            routed == in_flight_route(old(self)@, code, payload@, now, live@, radio_up) is Some,
            routed ==> final(self)@ == in_flight_route(old(self)@, code, payload@, now, live@, radio_up)->0.state,
            routed ==> actions_view(final(acts)@) == actions_view(old(acts)@) + in_flight_route(
                old(self)@,
                code,
                payload@,
                now,
                live@,
                radio_up,
            )->0.actions,
            !routed ==> final(self)@ == old(self)@ && final(acts)@ == old(acts)@,
            core_wf(final(self)@),
    {
        let ghost s0 = self@;
        let ghost a0 = actions_view(acts@);
        let (client, cmd_code, matched, terminator) = match &self.in_flight {
            None => {
                return false;
            },
            Some(f) => {
                if is_push_event(code) || code == 0x82 {
                    return false;
                }
                let (m, t) = match &f.awaiting {
                    Awaiting::Any => (true, true),
                    Awaiting::Stream { frame_codes, terminator_code } => {
                        let in_stream = holds_byte(frame_codes, code) || code == *terminator_code;
                        (in_stream, code == *terminator_code)
                    },
                };
                (f.client_id, f.cmd_code, m, t)
            },
        };
        if !matched {
            return false;
        }
        if code == 0x06 && payload.len() >= 6 {
            let ack = read_u32_le(payload, 2);
            let kept = kept_acks(&self.pending_acks, now);
            self.pending_acks = kept;
            let entry = PendingAck { ack, client_id: client, inserted_at: now };
            match find_ack(&self.pending_acks, ack) {
                Some(i) => self.pending_acks.set(i, entry),
                None => self.pending_acks.push(entry),
            }
        }
        let ghost s1 = self@;
        emit(acts, Action::SendToClient { client, payload: slice_to_vec(payload) });
        if cmd_code == 0x0A && (code == 0x07 || code == 0x08 || code == 0x10 || code == 0x11) {
            emit(acts, Action::SendToOthers { sender: client, payload: slice_to_vec(payload) });
        }
        let ghost a1 = actions_view(acts@);
        if terminator {
            self.in_flight = None;
            let ghost s2 = self@;
            assert(s2 == CoreView { in_flight: None, ..s1 });
            self.advance_queue(live, now, radio_up, acts);
            assert(actions_view(acts@) =~= a0 + in_flight_route(s0, code, payload@, now, live@, radio_up)->0.actions);
        } else {
            assert(actions_view(acts@) =~= a0 + in_flight_route(s0, code, payload@, now, live@, radio_up)->0.actions);
        }
        true
    }

    /// Routes a delivery ACK to the client whose message it belongs to (see
    /// `ack_route`); says whether it did.
    fn try_route_ack(&mut self, code: u8, payload: &[u8], acts: &mut Vec<Action>) -> (routed: bool)
        requires
            core_wf(old(self)@),
        ensures
            routed == ack_route(old(self)@, code, payload@) is Some,
            routed ==> final(self)@ == ack_route(old(self)@, code, payload@)->0.state,
            routed ==> actions_view(final(acts)@) == actions_view(old(acts)@) + ack_route(
                old(self)@,
                code,
                payload@,
            )->0.actions,
            !routed ==> final(self)@ == old(self)@ && final(acts)@ == old(acts)@,
            core_wf(final(self)@),
    {
        let ghost a0 = actions_view(acts@);
        if code != 0x82 || payload.len() < 5 {
            return false;
        }
        let ack = read_u32_le(payload, 1);
        match find_ack(&self.pending_acks, ack) {
            None => false,
            Some(i) => {
                let entry = self.pending_acks.remove(i);
                emit(acts, Action::SendToClient { client: entry.client_id, payload: slice_to_vec(payload) });
                assert(actions_view(acts@) =~= a0 + ack_route(old(self)@, code, payload@)->0.actions);
                true
            },
        }
    }

    /// Learns the radio's key and name from a SELF_INFO blob.
    fn extract_radio_identity(&mut self, blob: &[u8])
        requires
            core_wf(old(self)@),
        ensures
            final(self)@ == with_identity(old(self)@, blob@),
            core_wf(final(self)@),
    {
        if blob.len() >= 36 {
            self.radio_pubkey = Some(slice_to_vec(slice_subrange(blob, 4, 36)));
        }
        if let Some(decoded) = decode_response_payload(0x05, blob) {
            if let Some(DecodedValue::String(name)) = decoded.get(FieldKey::Name) {
                self.radio_name = Some(name.clone());
            }
        }
    }

    /// Learns the radio's channel count from a DEVICE_INFO blob.
    fn extract_max_channels(&mut self, blob: &[u8])
        requires
            core_wf(old(self)@),
        ensures
            final(self)@ == with_max_channels(old(self)@, blob@),
            core_wf(final(self)@),
    {
        if let Some(decoded) = decode_response_payload(0x0D, blob) {
            if let Some(DecodedValue::Integer(n)) = decoded.get(FieldKey::MaxChannels) {
                let max = (if *n < 255 {
                    *n
                } else {
                    255
                }) as u8;
                if max > 0 {
                    self.max_channels = max;
                }
            }
        }
    }

    /// Caches a radio frame, appending the store actions (see
    /// `cache_response_spec`).
    fn cache_response_into(&mut self, code: u8, payload: &[u8], unix_now: i64, acts: &mut Vec<Action>)
        requires
            core_wf(old(self)@),
            !(code == 0x10 && 13 <= payload@.len() < 16),
        ensures
            final(self)@ == cache_response_spec(old(self)@, code, payload@, unix_now).state,
            actions_view(final(acts)@) == actions_view(old(acts)@) + cache_response_spec(
                old(self)@,
                code,
                payload@,
                unix_now,
            ).actions,
            core_wf(final(self)@),
    {
        let ghost a0 = actions_view(acts@);
        let ghost s0 = self@;
        let n = payload.len();
        if code == 0x03 && n >= 148 {
            let name_len = match crate::protocol::decode::find_zero_in(payload, 100, n) {
                Some(i) => i,
                None => 32,
            };
            let lat = read_i32_le(payload, 136);
            let lon = read_i32_le(payload, 140);
            let contact = CachedContact {
                public_key: slice_to_vec(slice_subrange(payload, 1, 33)),
                name: utf8_lossy(slice_subrange(payload, 100, 100 + name_len)),
                contact_type: payload[33] as i64,
                last_advert: Some(read_u32_le(payload, 132) as i64),
                lat: if lat != 0 {
                    Some(lat)
                } else {
                    None
                },
                lon: if lon != 0 {
                    Some(lon)
                } else {
                    None
                },
            };
            emit(acts, Action::StoreContact(contact));
        } else if code == 0x05 {
            let blob = slice_to_vec(payload);
            emit(acts, Action::KvSet { key: KvKey::SelfInfo, value: copy_bytes(&blob) });
            self.extract_radio_identity(blob.as_slice());
            self.self_info_raw = Some(blob);
        } else if code == 0x0C {
            let blob = slice_to_vec(payload);
            emit(acts, Action::KvSet { key: KvKey::BatteryInfo, value: copy_bytes(&blob) });
            self.battery_info_raw = Some(blob);
        } else if code == 0x0D {
            let blob = slice_to_vec(payload);
            emit(acts, Action::KvSet { key: KvKey::DeviceInfo, value: copy_bytes(&blob) });
            self.extract_max_channels(blob.as_slice());
            self.device_info_raw = Some(blob);
        } else if code == 0x07 {
            if let Some(decoded) = decode_response_payload(code, payload) {
                let text = match decoded.get(FieldKey::Text) {
                    Some(DecodedValue::String(t)) => t.clone(),
                    _ => String::new(),
                };
                let from_key = if n >= 7 {
                    Some(slice_to_vec(slice_subrange(payload, 1, 7)))
                } else {
                    None
                };
                let ts = match decoded.get(FieldKey::Timestamp) {
                    Some(DecodedValue::Integer(i)) => *i,
                    _ => unix_now,
                };
                emit(
                    acts,
                    Action::StoreMessage(
                        MessageRecord {
                            kind: MessageKind::Contact,
                            from_key,
                            channel_idx: None,
                            text,
                            timestamp: ts,
                        },
                    ),
                );
            }
        } else if code == 0x08 {
            if let Some(decoded) = decode_response_payload(code, payload) {
                let text = match decoded.get(FieldKey::Text) {
                    Some(DecodedValue::String(t)) => t.clone(),
                    _ => String::new(),
                };
                let channel_idx = match decoded.get(FieldKey::Channel) {
                    Some(DecodedValue::Integer(i)) => Some(*i),
                    Some(_) => Some(0),
                    None => None,
                };
                let ts = match decoded.get(FieldKey::Timestamp) {
                    Some(DecodedValue::Integer(i)) => *i,
                    _ => unix_now,
                };
                emit(
                    acts,
                    Action::StoreMessage(
                        MessageRecord {
                            kind: MessageKind::Channel,
                            from_key: None,
                            channel_idx,
                            text,
                            timestamp: ts,
                        },
                    ),
                );
            }
        } else if code == 0x10 && n >= 13 {
            let txt_type = payload[11];
            let ts = read_u32_le(payload, 12) as i64;
            let text_offset: usize = if txt_type == 2 {
                20
            } else {
                16
            };
            let text = if n > text_offset {
                utf8_lossy(slice_subrange(payload, text_offset, n))
            } else {
                String::new()
            };
            emit(
                acts,
                Action::StoreMessage(
                    MessageRecord {
                        kind: MessageKind::Contact,
                        from_key: Some(slice_to_vec(slice_subrange(payload, 4, 10))),
                        channel_idx: None,
                        text,
                        timestamp: ts,
                    },
                ),
            );
        } else if code == 0x11 && n >= 11 {
            let channel_idx = payload[4] as i64;
            let ts = read_u32_le(payload, 7) as i64;
            let text = if n > 11 {
                utf8_lossy(slice_subrange(payload, 11, n))
            } else {
                String::new()
            };
            emit(
                acts,
                Action::StoreMessage(
                    MessageRecord {
                        kind: MessageKind::Channel,
                        from_key: None,
                        channel_idx: Some(channel_idx),
                        text,
                        timestamp: ts,
                    },
                ),
            );
        } else if code == 0x12 && n >= 50 {
            let name_end = match crate::protocol::decode::find_zero_in(payload, 2, 34) {
                Some(i) => i,
                None => 32,
            };
            let channel = CachedChannel {
                idx: payload[1] as i64,
                name: utf8_lossy(slice_subrange(payload, 2, 2 + name_end)),
                config: Some(slice_to_vec(slice_subrange(payload, 34, 50))),
            };
            emit(acts, Action::StoreChannel(channel));
        }
        assert(actions_view(acts@) =~= a0 + cache_response_spec(s0, code, payload@, unix_now).actions);
    }

    /// What caching a radio frame does (see `cache_response_spec`); the
    /// proxy calls it directly while it waits for SELF_INFO and
    /// DEVICE_INFO during start-up. `unix_now` is the time of day, used for
    /// a message that carries no timestamp.
    pub fn cache_response(&mut self, code: u8, payload: &[u8], unix_now: i64) -> (acts: Vec<Action>)
        requires
            core_wf(old(self)@),
            !(code == 0x10 && 13 <= payload@.len() < 16),
        ensures
            final(self)@ == cache_response_spec(old(self)@, code, payload@, unix_now).state,
            actions_view(acts@) == cache_response_spec(old(self)@, code, payload@, unix_now).actions,
            core_wf(final(self)@),
    {
        let mut acts: Vec<Action> = Vec::new();
        assert(actions_view(acts@) =~= Seq::<ActionView>::empty());
        self.cache_response_into(code, payload, unix_now, &mut acts);
        assert(actions_view(acts@) =~= cache_response_spec(old(self)@, code, payload@, unix_now).actions);
        acts
    }

    /// Handles a frame from the radio (see `radio_rx_spec`). `live` are the
    /// clients connected now.
    pub fn handle_radio_rx(
        &mut self,
        payload: Vec<u8>,
        now: u64,
        unix_now: i64,
        live: &[ClientId],
        radio_up: bool,
    ) -> (acts: Vec<Action>)
        requires
            core_wf(old(self)@),
            radio_frame_ok(payload@),
        ensures
            final(self)@ == radio_rx_spec(old(self)@, payload@, now, unix_now, live@, radio_up).state,
            actions_view(acts@) == radio_rx_spec(
                old(self)@,
                payload@,
                now,
                unix_now,
                live@,
                radio_up,
            ).actions,
            core_wf(final(self)@),
    {
        let mut acts: Vec<Action> = Vec::new();
        assert(actions_view(acts@) =~= Seq::<ActionView>::empty());
        if payload.len() == 0 {
            return acts;
        }
        let ghost s0 = self@;
        let code = payload[0];
        self.cache_response_into(code, payload.as_slice(), unix_now, &mut acts);
        let ghost c = cache_response_spec(s0, code, payload@, unix_now);
        let ghost a1 = actions_view(acts@);
        if self.record_radio_rx {
            emit(&mut acts, Action::RecordRawRx { code, payload: copy_bytes(&payload) });
        }
        let ghost a2 = actions_view(acts@);
        let ghost s1 = self@;
        if self.try_route_to_in_flight(code, payload.as_slice(), now, live, radio_up, &mut acts) {
        } else if self.try_route_ack(code, payload.as_slice(), &mut acts) {
        } else {
            emit(&mut acts, Action::Broadcast { payload });
        }
        proof {
            let r = route_spec(s1, code, payload@, now, live@, radio_up);
            assert(self@ == r.state);
            assert(actions_view(acts@) =~= a2 + r.actions);
        }
        assert(actions_view(acts@) =~= radio_rx_spec(s0, payload@, now, unix_now, live@, radio_up).actions);
        acts
    }

    /// Fails the request in flight if it has waited for the timeout or
    /// longer (see `timeout_spec`).
    pub fn check_in_flight_timeout(&mut self, now: u64, live: &[ClientId], radio_up: bool) -> (acts: Vec<Action>)
        requires
            core_wf(old(self)@),
        ensures
            final(self)@ == timeout_spec(old(self)@, now, live@, radio_up).state,
            actions_view(acts@) == timeout_spec(old(self)@, now, live@, radio_up).actions,
            core_wf(final(self)@),
    {
        let mut acts: Vec<Action> = Vec::new();
        assert(actions_view(acts@) =~= Seq::<ActionView>::empty());
        let client = match &self.in_flight {
            Some(f) => {
                if age_of(now, f.sent_at) < IN_FLIGHT_TIMEOUT_MS {
                    return acts;
                }
                f.client_id
            },
            None => {
                return acts;
            },
        };
        self.in_flight = None;
        emit(&mut acts, Action::SendToClient { client, payload: error_vec() });
        self.advance_queue(live, now, radio_up, &mut acts);
        assert(actions_view(acts@) =~= timeout_spec(old(self)@, now, live@, radio_up).actions);
        acts
    }

    /// Fails the request in flight and every queued command because the
    /// radio connection is lost (see `radio_lost_spec`).
    pub fn radio_lost(&mut self) -> (acts: Vec<Action>)
        requires
            core_wf(old(self)@),
        ensures
            final(self)@ == radio_lost_spec(old(self)@).state,
            actions_view(acts@) == radio_lost_spec(old(self)@).actions,
            core_wf(final(self)@),
    {
        let ghost s0 = self@;
        let mut acts: Vec<Action> = Vec::new();
        assert(actions_view(acts@) =~= Seq::<ActionView>::empty());
        if let Some(f) = &self.in_flight {
            emit(&mut acts, Action::SendToClient { client: f.client_id, payload: error_vec() });
        }
        self.in_flight = None;
        let ghost a1 = actions_view(acts@);
        let ghost q = s0.queue;
        let mut i: usize = 0;
        while i < self.pending_queue.len()
            invariant
                q == self@.queue,
                i <= q.len(),
                actions_view(acts@) == a1 + Seq::new(
                    i as nat,
                    |j: int| ActionView::ToClient { client: q[j].client, payload: error_reply() },
                ),
            decreases q.len() - i,
        {
            let client = self.pending_queue[i].client_id;
            emit(&mut acts, Action::SendToClient { client, payload: error_vec() });
            i = i + 1;
            assert(actions_view(acts@) =~= a1 + Seq::new(
                i as nat,
                |j: int| ActionView::ToClient { client: q[j].client, payload: error_reply() },
            ));
        }
        self.pending_queue = VecDeque::new();
        assert(self@.queue =~= Seq::<QueuedView>::empty());
        assert(actions_view(acts@) =~= radio_lost_spec(s0).actions);
        acts
    }

    /// The commands that fill the cache from the radio after it connects.
    pub fn sync_requests(&self) -> (reqs: Vec<Vec<u8>>)
        ensures
            reqs.deep_view() == sync_requests_spec(self@),
    {
        let mut reqs: Vec<Vec<u8>> = Vec::new();
        let mut first: Vec<u8> = Vec::new();
        first.push(0x04);
        assert(first.deep_view() =~= seq![0x04u8]);
        reqs.push(first);
        assert(reqs.deep_view() =~= seq![seq![0x04u8]] + Seq::new(0, |i: int| seq![0x1Fu8, i as u8]));
        let mut idx: u8 = 0;
        while idx < self.max_channels
            invariant
                idx <= self.max_channels,
                reqs.deep_view() =~= seq![seq![0x04u8]] + Seq::new(
                    idx as nat,
                    |i: int| seq![0x1Fu8, i as u8],
                ),
            decreases self.max_channels - idx,
        {
            let mut r: Vec<u8> = Vec::new();
            r.push(0x1F);
            r.push(idx);
            let ghost before = reqs.deep_view();
            reqs.push(r);
            assert(r.deep_view() =~= seq![0x1Fu8, idx]);
            assert(reqs.deep_view() =~= before.push(seq![0x1Fu8, idx]));
            idx = idx + 1;
        }
        reqs
    }

    /// Takes a frame that arrives while the proxy waits for the radio's
    /// SELF_INFO after APP_START. A SELF_INFO is cached (as
    /// `cache_response` does) and ends the wait: the result is `true` with
    /// the caching actions. Any other frame is dropped: nothing changes and
    /// the wait goes on.
    pub fn take_startup_self_info(&mut self, payload: &[u8], unix_now: i64) -> (r: (bool, Vec<Action>))
        requires
            core_wf(old(self)@),
        ensures
            r.0 == (payload@.len() > 0 && payload@[0] == 0x05),
            r.0 ==> final(self)@ == cache_response_spec(old(self)@, 0x05, payload@, unix_now).state
                && actions_view(r.1@) == cache_response_spec(old(self)@, 0x05, payload@, unix_now).actions
                && final(self)@.self_info is Some,
            !r.0 ==> final(self)@ == old(self)@ && r.1@.len() == 0,
            core_wf(final(self)@),
    {
        if payload.len() > 0 && payload[0] == 0x05 {
            let acts = self.cache_response(0x05, payload, unix_now);
            (true, acts)
        } else {
            (false, Vec::new())
        }
    }

    /// Takes a frame that arrives while the proxy waits for the radio's
    /// DEVICE_INFO. A DEVICE_INFO is cached and ends the wait; an ERROR ends
    /// it too, leaving the default channel count; any other frame is
    /// dropped and the wait goes on.
    pub fn take_startup_device_info(&mut self, payload: &[u8], unix_now: i64) -> (r: (bool, Vec<Action>))
        requires
            core_wf(old(self)@),
        ensures
            r.0 == (payload@.len() > 0 && (payload@[0] == 0x0D || payload@[0] == 0x01)),
            payload@.len() > 0 && payload@[0] == 0x0D ==> final(self)@ == cache_response_spec(
                old(self)@,
                0x0D,
                payload@,
                unix_now,
            ).state && actions_view(r.1@) == cache_response_spec(
                old(self)@,
                0x0D,
                payload@,
                unix_now,
            ).actions,
            !(payload@.len() > 0 && payload@[0] == 0x0D) ==> final(self)@ == old(self)@ && r.1@.len()
                == 0,
            core_wf(final(self)@),
    {
        if payload.len() > 0 && payload[0] == 0x0D {
            let acts = self.cache_response(0x0D, payload, unix_now);
            (true, acts)
        } else {
            (payload.len() > 0 && payload[0] == 0x01, Vec::new())
        }
    }

    /// Fills the cache from the radio: the commands of `sync_requests`, owned
    /// by the proxy itself, go through the same queue as the clients'
    /// commands, so their answers never mix with a client's.
    pub fn sync_from_radio(&mut self, now: u64, unix_now: i64, radio_up: bool) -> (acts: Vec<Action>)
        requires
            core_wf(old(self)@),
        ensures
            final(self)@ == commands_spec(
                old(self)@,
                ClientId(0),
                sync_requests_spec(old(self)@),
                now,
                unix_now,
                radio_up,
            ).state,
            actions_view(acts@) == commands_spec(
                old(self)@,
                ClientId(0),
                sync_requests_spec(old(self)@),
                now,
                unix_now,
                radio_up,
            ).actions,
            core_wf(final(self)@),
    {
        let ghost s0 = self@;
        let reqs = self.sync_requests();
        let ghost all = reqs.deep_view();
        let owner = ClientId::proxy();
        let mut acts: Vec<Action> = Vec::new();
        let lookup = CacheLookup::Unavailable;
        assert(all.take(0) =~= Seq::<Seq<u8>>::empty());
        assert(actions_view(acts@) =~= Seq::<ActionView>::empty());
        let mut i: usize = 0;
        while i < reqs.len()
            invariant
                i <= reqs@.len(),
                all == reqs.deep_view(),
                all == sync_requests_spec(s0),
                owner == ClientId(0),
                lookup@ == LookupView::Unavailable,
                core_wf(self@),
                self@ == commands_spec(s0, owner, all.take(i as int), now, unix_now, radio_up).state,
                actions_view(acts@) == commands_spec(
                    s0,
                    owner,
                    all.take(i as int),
                    now,
                    unix_now,
                    radio_up,
                ).actions,
            decreases reqs@.len() - i,
        {
            let ghost before = actions_view(acts@);
            let payload = copy_bytes(&reqs[i]);
            assert(payload@ == all[i as int]);
            let step = self.handle_client_command(
                ClientCommand { client_id: owner, payload },
                &lookup,
                now,
                unix_now,
                radio_up,
            );
            let ghost got = actions_view(step@);
            let mut step = step;
            acts.append(&mut step);
            assert(actions_view(acts@) =~= before + got);
            assert(all.take(i + 1).drop_last() =~= all.take(i as int));
            assert(all.take(i + 1).last() == all[i as int]);
            i = i + 1;
        }
        assert(all.take(reqs@.len() as int) =~= all);
        acts
    }

    /// Restores the blobs the store kept across restarts (see
    /// `restore_spec`).
    pub fn restore_from_store(
        &mut self,
        self_info: Option<Vec<u8>>,
        device_info: Option<Vec<u8>>,
        battery_info: Option<Vec<u8>>,
    )
        requires
            core_wf(old(self)@),
        ensures
            final(self)@ == restore_spec(
                old(self)@,
                opt_bytes(self_info),
                opt_bytes(device_info),
                opt_bytes(battery_info),
            ),
            core_wf(final(self)@),
    {
        if self.self_info_raw.is_none() {
            if let Some(blob) = self_info {
                self.extract_radio_identity(blob.as_slice());
                self.self_info_raw = Some(blob);
            }
        }
        if self.device_info_raw.is_none() {
            if let Some(blob) = device_info {
                self.extract_max_channels(blob.as_slice());
                self.device_info_raw = Some(blob);
            }
        }
        if self.battery_info_raw.is_none() {
            if let Some(blob) = battery_info {
                self.battery_info_raw = Some(blob);
            }
        }
    }

    /// Whether the router holds a SELF_INFO blob.
    pub fn has_self_info(&self) -> (r: bool)
        ensures
            r == self@.self_info is Some,
    {
        self.self_info_raw.is_some()
    }

    /// The number of channels the radio has (as far as the router knows).
    pub fn max_channels(&self) -> (n: u8)
        ensures
            n == self@.max_channels,
    {
        self.max_channels
    }

    /// The radio's name, if it reported one.
    pub fn radio_name(&self) -> (n: Option<String>)
        ensures
            match n {
                Some(v) => self@.radio_name == Some(v@),
                None => self@.radio_name is None,
            },
    {
        match &self.radio_name {
            Some(v) => Some(v.clone()),
            None => None,
        }
    }

    /// The radio's public key, if it reported one.
    pub fn radio_pubkey(&self) -> (k: Option<Vec<u8>>)
        ensures
            opt_bytes(k) == self@.radio_pubkey,
    {
        match &self.radio_pubkey {
            Some(v) => Some(copy_bytes(v)),
            None => None,
        }
    }

    /// Sends `payload` of `client` to the radio (see `dispatch_spec`).
    fn dispatch_to_radio(
        &mut self,
        client: ClientId,
        payload: Vec<u8>,
        now: u64,
        radio_up: bool,
        acts: &mut Vec<Action>,
    )
        requires
            core_wf(old(self)@),
            payload@.len() > 0,
        ensures
            final(self)@ == dispatch_spec(old(self)@, client, payload@, now, radio_up).state,
            actions_view(final(acts)@) == actions_view(old(acts)@) + dispatch_spec(
                old(self)@,
                client,
                payload@,
                now,
                radio_up,
            ).actions,
            core_wf(final(self)@),
    {
        let ghost a0 = actions_view(acts@);
        let ghost s0 = self@;
        if !radio_up {
            emit(acts, Action::SendToClient { client, payload: error_vec() });
            assert(actions_view(acts@) =~= a0 + seq![ActionView::ToClient { client, payload: error_reply() }]);
            return;
        }
        let cmd_code = payload[0];
        let n = payload.len();
        emit(acts, Action::SendToRadio { payload: copy_bytes(&payload) });
        let ghost a1 = actions_view(acts@);
        if (cmd_code == 0x02 && n >= 14) || (cmd_code == 0x03 && n >= 8) {
            self.echo_message(client, payload.as_slice(), acts);
        } else if cmd_code == 0x20 && n > 1 {
            emit(acts, Action::DeleteChannel { idx: payload[1] as i64 });
        } else if cmd_code == 0x08 || cmd_code == 0x0B || cmd_code == 0x0C || cmd_code == 0x0E
            || cmd_code == 0x15 || cmd_code == 0x25 || cmd_code == 0x26 || cmd_code == 0x33 {
            self.self_info_raw = None;
            self.device_info_raw = None;
            self.battery_info_raw = None;
        }
        self.in_flight = Some(
            InFlight {
                client_id: client,
                cmd_code,
                sent_at: now,
                awaiting: awaiting_for(cmd_code),
            },
        );
        proof {
            let d = dispatch_spec(s0, client, payload@, now, radio_up);
            assert(actions_view(acts@) =~= a0 + d.actions);
            assert(self@.queue =~= d.state.queue);
        }
    }

    /// Takes queued commands once the radio is free (see `advance_spec`).
    fn advance_queue(&mut self, live: &[ClientId], now: u64, radio_up: bool, acts: &mut Vec<Action>)
        requires
            core_wf(old(self)@),
            old(self)@.in_flight is None,
        ensures
            final(self)@ == advance_spec(old(self)@, live@, now, radio_up).state,
            actions_view(final(acts)@) == actions_view(old(acts)@) + advance_spec(
                old(self)@,
                live@,
                now,
                radio_up,
            ).actions,
            core_wf(final(self)@),
    {
        let ghost s0 = self@;
        let ghost a0 = actions_view(acts@);
        loop
            invariant
                s0 == old(self)@,
                a0 == actions_view(old(acts)@),
                core_wf(self@),
                self@.in_flight is None,
                advance_spec(self@, live@, now, radio_up).state == advance_spec(
                    s0,
                    live@,
                    now,
                    radio_up,
                ).state,
                actions_view(acts@) + advance_spec(self@, live@, now, radio_up).actions == a0
                    + advance_spec(s0, live@, now, radio_up).actions,
            ensures
                self@ == advance_spec(s0, live@, now, radio_up).state,
                actions_view(acts@) == a0 + advance_spec(s0, live@, now, radio_up).actions,
                core_wf(self@),
            decreases self@.queue.len(),
        {
            let ghost s = self@;
            let ghost a = actions_view(acts@);
            match self.pending_queue.pop_front() {
                None => {
                    assert(s.queue.len() == 0);
                    assert(a + Seq::<ActionView>::empty() =~= a);
                    break;
                },
                Some(next) => {
                    assert(s.queue[0] == next@);
                    assert(self@.queue =~= s.queue.drop_first());
                    if !is_alive(live, next.client_id) {
                        continue;
                    }
                    let ghost s1 = self@;
                    assert(s1 == CoreView { queue: s.queue.drop_first(), ..s });
                    let ghost np = next.payload@;
                    self.dispatch_to_radio(next.client_id, next.payload, now, radio_up, acts);
                    if self.in_flight.is_some() {
                        assert(radio_up);
                        assert(advance_spec(s, live@, now, radio_up) == dispatch_spec(
                            s1,
                            next.client_id,
                            np,
                            now,
                            true,
                        ));
                        assert(a + advance_spec(s, live@, now, radio_up).actions =~= actions_view(acts@));
                        return;
                    }
                    assert(self@ == s1);
                    assert(actions_view(acts@) + advance_spec(self@, live@, now, radio_up).actions
                        =~= a + advance_spec(s, live@, now, radio_up).actions);
                },
            }
        }
    }
}

} // verus!
