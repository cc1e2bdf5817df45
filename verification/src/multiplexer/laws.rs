//! What the router promises across its decisions.

use vstd::prelude::*;
use vstd::utf8::{decode_utf8_encode_utf8, encode_utf8, valid_utf8};

use super::reply::{
    channel_echo, channel_record, contact_echo, contact_record, i32_le_bytes, padded, zeros,
};
use super::router::{
    ack_key, ack_kept, ack_position, advance_spec, age, answers, cache_response_spec, cached_reply,
    channel_of, client_command_spec, commands_spec, completes, contact_of, sync_requests_spec, lemma_ack_position, core_wf, dispatch_spec, echo_actions, error_reply, is_echoed,
    is_received_message, is_setter, record_ack, route_spec, timeout_spec, ActionView, CoreView,
    InFlightView, LookupView, PendingAck, QueuedView, Step, IN_FLIGHT_TIMEOUT_MS,
};
use super::{push_event, AwaitingView};
use crate::frontend::ClientId;
use crate::protocol::decode::{channel_name_len, contact_name_len, lemma_first_zero_found};
use crate::protocol::wire::{lemma_u32_le_bytes_at, u32_le_at};
use crate::text::lenient_text;

verus! {

/// Whether no action in `a` is a broadcast to every client.
pub open spec fn no_broadcast(a: Seq<ActionView>) -> bool {
    forall|i: int| 0 <= i < a.len() ==> !(#[trigger] a[i] is Broadcast)
}

/// While a request is in flight, a command the cache cannot serve waits at
/// the back of the queue: nothing goes to the radio or to anyone, and the
/// request in flight stays.
pub proof fn lemma_busy_radio_queues(
    s: CoreView,
    client: ClientId,
    p: Seq<u8>,
    lookup: LookupView,
    now: u64,
    unix_now: i64,
    radio_up: bool,
)
    requires
        s.in_flight is Some,
        p.len() > 0,
        cached_reply(s, client, p, lookup, unix_now) is None,
    ensures
        client_command_spec(s, client, p, lookup, now, unix_now, radio_up).state == (CoreView {
            queue: s.queue.push(QueuedView { client, payload: p }),
            ..s
        }),
        client_command_spec(s, client, p, lookup, now, unix_now, radio_up).actions
            == Seq::<ActionView>::empty(),
{
}

/// When the radio is free and takes commands, the first queued command of
/// a connected client goes to it next, and is then the request in flight.
pub proof fn lemma_queue_is_first_in_first_out(s: CoreView, live: Seq<ClientId>, now: u64)
    requires
        core_wf(s),
        s.queue.len() > 0,
        live.contains(s.queue[0].client),
    ensures
        advance_spec(s, live, now, true).actions[0] == (ActionView::ToRadio {
            payload: s.queue[0].payload,
        }),
        advance_spec(s, live, now, true).state.in_flight == Some(
            InFlightView {
                client: s.queue[0].client,
                cmd_code: s.queue[0].payload[0],
                sent_at: now,
                awaiting: super::awaiting_spec(s.queue[0].payload[0]),
            },
        ),
        advance_spec(s, live, now, true).state.queue == s.queue.drop_first(),
{
    assert(s.queue[0].payload.len() > 0);
}

/// Sending a command to the radio broadcasts nothing and keeps the ACK
/// promises.
proof fn lemma_dispatch_no_broadcast(s: CoreView, client: ClientId, p: Seq<u8>, now: u64, up: bool)
    requires
        p.len() > 0,
    ensures
        no_broadcast(dispatch_spec(s, client, p, now, up).actions),
        dispatch_spec(s, client, p, now, up).state.pending_acks == s.pending_acks,
{
    let d = dispatch_spec(s, client, p, now, up);
    assert forall|i: int| 0 <= i < d.actions.len() implies !(#[trigger] d.actions[i] is Broadcast) by {
        if up && i > 0 {
            if is_echoed(p) {
                assert(d.actions[i] == echo_actions(s, client, p)[i - 1]);
            }
        }
    }
}

/// Taking queued commands never broadcasts and keeps the ACK promises.
pub proof fn lemma_advance_no_broadcast(s: CoreView, live: Seq<ClientId>, now: u64, up: bool)
    requires
        core_wf(s),
    ensures
        no_broadcast(advance_spec(s, live, now, up).actions),
        advance_spec(s, live, now, up).state.pending_acks == s.pending_acks,
    decreases s.queue.len(),
{
    if s.queue.len() > 0 {
        let s1 = CoreView { queue: s.queue.drop_first(), ..s };
        assert(core_wf(s1)) by {
            assert forall|i: int| 0 <= i < s1.queue.len() implies #[trigger] s1.queue[i].payload.len()
                > 0 by {
                assert(s1.queue[i] == s.queue[i + 1]);
            }
        }
        lemma_advance_no_broadcast(s1, live, now, up);
        if live.contains(s.queue[0].client) {
            if up {
                assert(s.queue[0].payload.len() > 0);
                lemma_dispatch_no_broadcast(s1, s.queue[0].client, s.queue[0].payload, now, true);
            } else {
                let r = advance_spec(s1, live, now, up);
                let a = advance_spec(s, live, now, up).actions;
                assert forall|i: int| 0 <= i < a.len() implies !(#[trigger] a[i] is Broadcast) by {
                    if i > 0 {
                        assert(a[i] == r.actions[i - 1]);
                    }
                }
            }
        }
    }
}

/// A frame that answers the request in flight goes to the client that
/// asked, and is not broadcast.
pub proof fn lemma_answer_goes_to_asker(
    s: CoreView,
    code: u8,
    p: Seq<u8>,
    now: u64,
    live: Seq<ClientId>,
    radio_up: bool,
)
    requires
        core_wf(s),
        s.in_flight matches Some(f) && answers(f, code),
    ensures
        route_spec(s, code, p, now, live, radio_up).actions[0] == (ActionView::ToClient {
            client: s.in_flight->0.client,
            payload: p,
        }),
        no_broadcast(route_spec(s, code, p, now, live, radio_up).actions),
{
    let f = s.in_flight->0;
    let s1 = if code == 0x06 && p.len() >= 6 {
        CoreView {
            pending_acks: record_ack(s.pending_acks.filter(ack_kept(now)), ack_key(p, 2), f.client, now),
            ..s
        }
    } else {
        s
    };
    let acts = seq![ActionView::ToClient { client: f.client, payload: p }] + (
    if f.cmd_code == 0x0A && is_received_message(code) {
        seq![ActionView::ToOthers { sender: f.client, payload: p }]
    } else {
        Seq::empty()
    });
    let r = route_spec(s, code, p, now, live, radio_up);
    if completes(f, code) {
        let s2 = CoreView { in_flight: None, ..s1 };
        assert(core_wf(s2));
        lemma_advance_no_broadcast(s2, live, now, radio_up);
        let a = advance_spec(s2, live, now, radio_up);
        assert(r.actions == acts + a.actions);
        assert forall|i: int| 0 <= i < r.actions.len() implies !(#[trigger] r.actions[i] is Broadcast) by {
            if i >= acts.len() {
                assert(r.actions[i] == a.actions[i - acts.len()]);
            }
        }
    }
}

/// A push event (advert, path update, messages waiting, log data, new
/// advert) goes to every client and changes nothing.
pub proof fn lemma_push_events_go_to_everyone(
    s: CoreView,
    code: u8,
    p: Seq<u8>,
    now: u64,
    live: Seq<ClientId>,
    radio_up: bool,
)
    requires
        push_event(code),
    ensures
        route_spec(s, code, p, now, live, radio_up).state == s,
        route_spec(s, code, p, now, live, radio_up).actions == seq![
            ActionView::Broadcast { payload: p },
        ],
{
}

/// A message fetched with GET_MSG goes to the client that polled and to
/// every other client.
pub proof fn lemma_fetched_message_fans_out(
    s: CoreView,
    code: u8,
    p: Seq<u8>,
    now: u64,
    live: Seq<ClientId>,
    radio_up: bool,
)
    requires
        core_wf(s),
        s.in_flight matches Some(f) && f.cmd_code == 0x0A && f.awaiting == AwaitingView::Any,
        is_received_message(code),
    ensures
        route_spec(s, code, p, now, live, radio_up).actions.take(2) == seq![
            ActionView::ToClient { client: s.in_flight->0.client, payload: p },
            ActionView::ToOthers { sender: s.in_flight->0.client, payload: p },
        ],
{
    let f = s.in_flight->0;
    let s2 = CoreView { in_flight: None, ..s };
    let a = advance_spec(s2, live, now, radio_up);
    let r = route_spec(s, code, p, now, live, radio_up);
    assert(r.actions.take(2) =~= seq![
        ActionView::ToClient { client: f.client, payload: p },
        ActionView::ToOthers { sender: f.client, payload: p },
    ]);
}

/// `ack_position` finds the first promise for `key`, and `None` means there
/// is none.
pub(crate) proof fn lemma_ack_position_found(v: Seq<PendingAck>, key: u32)
    ensures
        ack_position(v, key) matches Some(i) ==> 0 <= i < v.len() && v[i].ack == key && forall|t: int|
            0 <= t < i ==> #[trigger] v[t].ack != key,
        ack_position(v, key) is None ==> forall|t: int| 0 <= t < v.len() ==> #[trigger] v[t].ack != key,
    decreases v.len(),
{
    if v.len() > 0 {
        let w = v.drop_first();
        lemma_ack_position_found(w, key);
        if v[0].ack != key {
            match ack_position(w, key) {
                Some(i) => {
                    assert(v[i + 1] == w[i]);
                    assert forall|t: int| 0 <= t < i + 1 implies #[trigger] v[t].ack != key by {
                        if t > 0 {
                            assert(v[t] == w[t - 1]);
                        }
                    }
                },
                None => {
                    assert forall|t: int| 0 <= t < v.len() implies #[trigger] v[t].ack != key by {
                        if t > 0 {
                            assert(v[t] == w[t - 1]);
                        }
                    }
                },
            }
        }
    }
}

/// After the promise of `key` is given to `client`, looking `key` up finds
/// that client.
pub proof fn lemma_recorded_ack_is_found(v: Seq<PendingAck>, key: u32, client: ClientId, now: u64)
    ensures
        ack_position(record_ack(v, key, client, now), key) matches Some(i) && record_ack(
            v,
            key,
            client,
            now,
        )[i].client_id == client,
{
    lemma_ack_position_found(v, key);
    let w = record_ack(v, key, client, now);
    let a = PendingAck { ack: key, client_id: client, inserted_at: now };
    match ack_position(v, key) {
        Some(i) => {
            assert forall|t: int| 0 <= t < i implies #[trigger] w[t].ack != key by {
                assert(w[t] == v[t]);
            }
            lemma_ack_position(w, key, i);
        },
        None => {
            assert forall|t: int| 0 <= t < v.len() implies #[trigger] w[t].ack != key by {
                assert(w[t] == v[t]);
            }
            lemma_ack_position(w, key, v.len() as int);
        },
    }
}

/// A late delivery ACK goes back to the client whose message it confirms:
/// after the MSG_SENT reply to `client`'s request names the expected ACK,
/// the ACK frame with those four bytes is sent to that client alone,
/// whatever is in flight by then.
pub proof fn lemma_late_ack_returns_to_sender(
    s: CoreView,
    sent: Seq<u8>,
    ack: Seq<u8>,
    t1: u64,
    t2: u64,
    live: Seq<ClientId>,
    radio_up: bool,
)
    requires
        core_wf(s),
        s.in_flight matches Some(f) && answers(f, 0x06),
        sent.len() >= 6,
        sent[0] == 0x06,
        ack.len() >= 5,
        ack[0] == 0x82,
        ack.subrange(1, 5) == sent.subrange(2, 6),
    ensures
        ({
            let after = route_spec(s, 0x06, sent, t1, live, radio_up).state;
            &&& route_spec(after, 0x82, ack, t2, live, radio_up).actions == seq![
                ActionView::ToClient { client: s.in_flight->0.client, payload: ack },
            ]
        }),
{
    let f = s.in_flight->0;
    let key = ack_key(sent, 2);
    assert(ack_key(ack, 1) == key) by {
        let a = ack.subrange(1, 5);
        let b = sent.subrange(2, 6);
        assert(a[0] == ack[1] && a[1] == ack[2] && a[2] == ack[3] && a[3] == ack[4]);
        assert(b[0] == sent[2] && b[1] == sent[3] && b[2] == sent[4] && b[3] == sent[5]);
    }
    let v = record_ack(s.pending_acks.filter(ack_kept(t1)), key, f.client, t1);
    lemma_recorded_ack_is_found(s.pending_acks.filter(ack_kept(t1)), key, f.client, t1);
    let s1 = CoreView { pending_acks: v, ..s };
    let after = route_spec(s, 0x06, sent, t1, live, radio_up).state;
    if completes(f, 0x06) {
        let s2 = CoreView { in_flight: None, ..s1 };
        assert(core_wf(s2));
        lemma_advance_no_broadcast(s2, live, t1, radio_up);
    }
    assert(after.pending_acks == v);
    assert(match after.in_flight {
        Some(g) => !answers(g, 0x82),
        None => true,
    });
}

/// A SELF_INFO, BATTERY or DEVICE_INFO blob from the radio is what the
/// cache answers the matching query with afterwards, without the radio.
pub proof fn lemma_cache_serves_what_radio_sent(
    s: CoreView,
    blob: Seq<u8>,
    unix_now: i64,
    client: ClientId,
    query: Seq<u8>,
    lookup: LookupView,
    now: u64,
    radio_up: bool,
)
    requires
        blob.len() > 0,
        query.len() > 0,
        (blob[0] == 0x05 && query[0] == 0x01) || (blob[0] == 0x0C && query[0] == 0x14) || (blob[0]
            == 0x0D && query[0] == 0x16),
    ensures
        ({
            let cached = cache_response_spec(s, blob[0], blob, unix_now).state;
            let step = client_command_spec(cached, client, query, lookup, now, unix_now, radio_up);
            &&& step.state == cached
            &&& step.actions == seq![ActionView::ToClient { client, payload: blob }]
        }),
{
}

/// A command that changes what SELF_INFO, DEVICE_INFO or BATTERY report
/// empties those caches once the radio takes it, so the next query goes
/// to the radio.
pub proof fn lemma_setter_empties_cache(s: CoreView, client: ClientId, p: Seq<u8>, now: u64)
    requires
        p.len() > 0,
        is_setter(p[0]),
    ensures
        dispatch_spec(s, client, p, now, true).state.self_info is None,
        dispatch_spec(s, client, p, now, true).state.device_info is None,
        dispatch_spec(s, client, p, now, true).state.battery_info is None,
{
}

/// When the radio is unreachable, a command it would take gets ERROR: nothing
/// goes to the radio, nothing is echoed or stored, and nothing changes.
pub proof fn lemma_unreachable_radio_answers_error(
    s: CoreView,
    client: ClientId,
    p: Seq<u8>,
    lookup: LookupView,
    now: u64,
    unix_now: i64,
)
    requires
        s.in_flight is None,
        p.len() > 0,
        cached_reply(s, client, p, lookup, unix_now) is None,
    ensures
        client_command_spec(s, client, p, lookup, now, unix_now, false).state == s,
        client_command_spec(s, client, p, lookup, now, unix_now, false).actions == seq![
            ActionView::ToClient { client, payload: error_reply() },
        ],
{
}

/// A message a client sends is echoed to the other clients as if the
/// radio had received it, once the radio takes it and knows its key. When
/// the text is valid UTF-8 the echo carries the very bytes the sender wrote.
pub proof fn lemma_sent_message_is_echoed(s: CoreView, client: ClientId, p: Seq<u8>, now: u64)
    requires
        core_wf(s),
        p.len() > 0,
        is_echoed(p),
        s.radio_pubkey is Some,
    ensures
        ({
            let pk = s.radio_pubkey->0;
            let d = dispatch_spec(s, client, p, now, true);
            let text_at = if p[0] == 0x02 {
                13
            } else {
                7
            };
            let text = lenient_text(p.subrange(text_at, p.len() as int));
            let echo = if p[0] == 0x02 {
                contact_echo(pk.take(6), p[1], p.subrange(3, 7), text)
            } else {
                channel_echo(p[2], p.subrange(3, 7), text)
            };
            &&& d.actions[0] == (ActionView::ToRadio { payload: p })
            &&& d.actions[1] == (ActionView::ToOthers { sender: client, payload: echo })
            &&& valid_utf8(p.subrange(text_at, p.len() as int)) ==> echo == if p[0] == 0x02 {
                seq![0x07u8] + pk.take(6) + seq![0u8, p[1]] + p.subrange(3, 7) + p.subrange(
                    13,
                    p.len() as int,
                )
            } else {
                seq![0x08u8, p[2], 0u8, 0u8] + p.subrange(3, p.len() as int)
            }
        }),
{
    let text_at = if p[0] == 0x02 {
        13int
    } else {
        7int
    };
    let bytes = p.subrange(text_at, p.len() as int);
    if valid_utf8(bytes) {
        decode_utf8_encode_utf8(bytes);
    }
}

/// A request that waited for the timeout or longer fails with ERROR, and
/// the radio is free for the queue.
pub proof fn lemma_timeout_fails_request(s: CoreView, now: u64, live: Seq<ClientId>, radio_up: bool)
    requires
        s.in_flight matches Some(f) && age(now, f.sent_at) >= IN_FLIGHT_TIMEOUT_MS,
    ensures
        timeout_spec(s, now, live, radio_up).actions[0] == (ActionView::ToClient {
            client: s.in_flight->0.client,
            payload: error_reply(),
        }),
        timeout_spec(s, now, live, radio_up) == ({
            let a = advance_spec(CoreView { in_flight: None, ..s }, live, now, radio_up);
            Step {
                state: a.state,
                actions: seq![
                    ActionView::ToClient { client: s.in_flight->0.client, payload: error_reply() },
                ] + a.actions,
            }
        }),
{
}

/// A contact the radio reports comes back from the cache as the same
/// CONTACT frame, but for what the cache does not keep: the flags, the path
/// length, the path and the last-modified stamp read as zero. This holds
/// when the name is valid UTF-8 and the name field holds nothing after it.
pub proof fn lemma_cached_contact_mirrors_radio(p: Seq<u8>, now: u32)
    requires
        p.len() == 148,
        p[0] == 0x03,
        valid_utf8(p.subrange(100, 100 + contact_name_len(p))),
        forall|i: int| 100 + contact_name_len(p) <= i < 132 ==> p[i] == 0,
    ensures
        contact_record(contact_of(p), now) == p.subrange(0, 34) + zeros(66) + p.subrange(100, 144)
            + zeros(4),
{
    let tail = p.subrange(100, 148);
    lemma_first_zero_found(tail);
    let len = contact_name_len(p);
    assert(0 <= len <= 48);
    let name = p.subrange(100, 100 + len);
    decode_utf8_encode_utf8(name);
    assert(encode_utf8(lenient_text(name)) == name);
    assert(padded(name, 32) =~= p.subrange(100, 132));
    assert(padded(p.subrange(1, 33), 32) =~= p.subrange(1, 33));
    lemma_u32_le_bytes_at(p, 132);
    lemma_u32_le_bytes_at(p, 136);
    lemma_u32_le_bytes_at(p, 140);
    let c = contact_of(p);
    assert(c.last_advert == Some(u32_le_at(p, 132) as i64));
    assert(i32_le_bytes(match c.lat { Some(v) => v as int, None => 0 }) == p.subrange(136, 140));
    assert(i32_le_bytes(match c.lon { Some(v) => v as int, None => 0 }) == p.subrange(140, 144));
    assert(contact_record(c, now) =~= p.subrange(0, 34) + zeros(66) + p.subrange(100, 144) + zeros(4));
}

/// A channel the radio reports comes back from the cache as the same
/// CHANNEL_INFO frame, when its name is valid UTF-8 and the name field
/// holds nothing after it.
pub proof fn lemma_cached_channel_mirrors_radio(p: Seq<u8>)
    requires
        p.len() == 50,
        p[0] == 0x12,
        valid_utf8(p.subrange(2, 2 + channel_name_len(p))),
        forall|i: int| 2 + channel_name_len(p) <= i < 34 ==> p[i] == 0,
    ensures
        channel_record(channel_of(p)) == p,
{
    lemma_first_zero_found(p.subrange(2, 34));
    let name = p.subrange(2, 2 + channel_name_len(p));
    decode_utf8_encode_utf8(name);
    assert(padded(name, 32) =~= p.subrange(2, 34));
    assert(padded(p.subrange(34, 50), 16) =~= p.subrange(34, 50));
    assert(channel_record(channel_of(p)) =~= p);
}

/// Whether every command of `reqs` is a contact listing or a channel query,
/// which the cache serves only from the store.
pub open spec fn store_queries(reqs: Seq<Seq<u8>>) -> bool {
    forall|i: int|
        0 <= i < reqs.len() ==> #[trigger] reqs[i].len() > 0 && (reqs[i][0] == 0x04 || reqs[i][0]
            == 0x1F)
}

/// Store queries handled with nothing from the store, while a request is in
/// flight, wait at the back of the queue in their order.
proof fn lemma_store_queries_wait(
    s: CoreView,
    owner: ClientId,
    reqs: Seq<Seq<u8>>,
    now: u64,
    unix_now: i64,
    radio_up: bool,
)
    requires
        s.in_flight is Some,
        store_queries(reqs),
    ensures
        commands_spec(s, owner, reqs, now, unix_now, radio_up).actions == Seq::<ActionView>::empty(),
        commands_spec(s, owner, reqs, now, unix_now, radio_up).state == (CoreView {
            queue: s.queue + reqs.map_values(|p: Seq<u8>| QueuedView { client: owner, payload: p }),
            ..s
        }),
    decreases reqs.len(),
{
    if reqs.len() > 0 {
        let front = reqs.drop_last();
        assert forall|i: int| 0 <= i < front.len() implies #[trigger] front[i].len() > 0 && (front[i][0]
            == 0x04 || front[i][0] == 0x1F) by {
            assert(front[i] == reqs[i]);
        }
        lemma_store_queries_wait(s, owner, front, now, unix_now, radio_up);
        assert(reqs.last() == reqs[reqs.len() - 1]);
        let f = |p: Seq<u8>| QueuedView { client: owner, payload: p };
        assert(s.queue + reqs.map_values(f) =~= (s.queue + front.map_values(f)).push(f(reqs.last())));
    } else {
        assert(s.queue + reqs.map_values(|p: Seq<u8>| QueuedView { client: owner, payload: p })
            =~= s.queue);
    }
}

/// While a client's request is in flight, the commands that fill the cache
/// wait at the back of the queue behind it: nothing goes to the radio, and
/// their answers cannot mix with the client's.
pub proof fn lemma_sync_waits_in_the_queue(s: CoreView, now: u64, unix_now: i64, radio_up: bool)
    requires
        s.in_flight is Some,
    ensures
        ({
            let st = commands_spec(s, ClientId(0), sync_requests_spec(s), now, unix_now, radio_up);
            &&& st.actions == Seq::<ActionView>::empty()
            &&& st.state == (CoreView {
                queue: s.queue + sync_requests_spec(s).map_values(
                    |p: Seq<u8>| QueuedView { client: ClientId(0), payload: p },
                ),
                ..s
            })
        }),
{
    let reqs = sync_requests_spec(s);
    assert forall|i: int| 0 <= i < reqs.len() implies #[trigger] reqs[i].len() > 0 && (reqs[i][0]
        == 0x04 || reqs[i][0] == 0x1F) by {
        if i > 0 {
            assert(reqs[i] == seq![0x1Fu8, (i - 1) as u8]);
        }
    }
    lemma_store_queries_wait(s, ClientId(0), reqs, now, unix_now, radio_up);
}

} // verus!
