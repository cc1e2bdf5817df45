//! What holds in every state the router reaches: the queue only fills while
//! a request is in flight, and no two ACK promises share a key. From the
//! second it follows that each delivery ACK reaches its sender at most once.

use vstd::prelude::*;

use super::laws::lemma_ack_position_found;
use super::router::{
    ack_key, ack_kept, ack_position, advance_spec, cache_response_spec, client_command_spec,
    commands_spec, completes, core_wf, dispatch_spec, initial_core, radio_lost_spec,
    radio_rx_spec, record_ack, restore_spec, route_spec, timeout_spec, ActionView, CoreView,
    LookupView, PendingAck,
};
use crate::frontend::ClientId;

verus! {

/// Whether no two ACK promises of `v` share a key.
pub open spec fn acks_distinct(v: Seq<PendingAck>) -> bool {
    forall|i: int, j: int|
        0 <= i < v.len() && 0 <= j < v.len() && #[trigger] v[i].ack == #[trigger] v[j].ack ==> i
            == j
}

/// What holds of every state the router reaches: it is well formed,
/// commands wait in the queue only while a request is in flight, and no two
/// ACK promises share a key.
pub open spec fn router_inv(s: CoreView) -> bool {
    &&& core_wf(s)
    &&& s.queue.len() > 0 ==> s.in_flight is Some
    &&& acks_distinct(s.pending_acks)
}

/// The router starts in such a state.
pub proof fn lemma_initial_inv(record_radio_rx: bool)
    ensures
        router_inv(initial_core(record_radio_rx)),
{
}

/// Dropping promises keeps the keys apart.
proof fn lemma_filter_distinct(v: Seq<PendingAck>, keep: spec_fn(PendingAck) -> bool)
    requires
        acks_distinct(v),
    ensures
        acks_distinct(v.filter(keep)),
    decreases v.len(),
{
    reveal_with_fuel(Seq::<_>::filter, 1);
    if v.len() > 0 {
        let front = v.drop_last();
        assert(acks_distinct(front)) by {
            assert forall|i: int, j: int|
                0 <= i < front.len() && 0 <= j < front.len() && #[trigger] front[i].ack
                    == #[trigger] front[j].ack implies i == j by {
                assert(front[i] == v[i] && front[j] == v[j]);
            }
        }
        lemma_filter_distinct(front, keep);
        let sub = front.filter(keep);
        if keep(v.last()) {
            let w = sub.push(v.last());
            assert forall|i: int, j: int|
                0 <= i < w.len() && 0 <= j < w.len() && #[trigger] w[i].ack == #[trigger] w[j].ack implies i
                    == j by {
                if i < sub.len() && j == sub.len() {
                    assert(sub.contains(sub[i]));
                    front.lemma_filter_contains_rev(keep, sub[i]);
                    let m = choose|m: int| 0 <= m < front.len() && front[m] == sub[i];
                    assert(v[m] == front[m] && v[v.len() - 1] == v.last());
                } else if j < sub.len() && i == sub.len() {
                    assert(sub.contains(sub[j]));
                    front.lemma_filter_contains_rev(keep, sub[j]);
                    let m = choose|m: int| 0 <= m < front.len() && front[m] == sub[j];
                    assert(v[m] == front[m] && v[v.len() - 1] == v.last());
                }
            }
            assert(v.filter(keep) == w);
        } else {
            assert(v.filter(keep) == sub);
        }
    }
}

/// Recording a promise keeps the keys apart: it replaces the promise of the
/// same key, if there is one.
proof fn lemma_record_distinct(v: Seq<PendingAck>, key: u32, client: ClientId, now: u64)
    requires
        acks_distinct(v),
    ensures
        acks_distinct(record_ack(v, key, client, now)),
{
    lemma_ack_position_found(v, key);
    let w = record_ack(v, key, client, now);
    match ack_position(v, key) {
        Some(p) => {
            assert forall|i: int, j: int|
                0 <= i < w.len() && 0 <= j < w.len() && #[trigger] w[i].ack == #[trigger] w[j].ack implies i
                    == j by {
                if i != p && j != p {
                    assert(w[i] == v[i] && w[j] == v[j]);
                } else if i == p && j != p {
                    assert(w[j] == v[j]);
                } else if j == p && i != p {
                    assert(w[i] == v[i]);
                }
            }
        },
        None => {
            assert forall|i: int, j: int|
                0 <= i < w.len() && 0 <= j < w.len() && #[trigger] w[i].ack == #[trigger] w[j].ack implies i
                    == j by {
                if i < v.len() && j < v.len() {
                    assert(w[i] == v[i] && w[j] == v[j]);
                } else if i < v.len() {
                    assert(w[i] == v[i]);
                } else if j < v.len() {
                    assert(w[j] == v[j]);
                }
            }
        },
    }
}

/// Removing promise `p` keeps the keys apart, and leaves none for its key.
proof fn lemma_remove_distinct(v: Seq<PendingAck>, p: int)
    requires
        acks_distinct(v),
        0 <= p < v.len(),
    ensures
        acks_distinct(v.remove(p)),
        ack_position(v.remove(p), v[p].ack) is None,
{
    let w = v.remove(p);
    assert forall|i: int, j: int|
        0 <= i < w.len() && 0 <= j < w.len() && #[trigger] w[i].ack == #[trigger] w[j].ack implies i
            == j by {
        let a = if i < p { i } else { i + 1 };
        let b = if j < p { j } else { j + 1 };
        assert(w[i] == v[a] && w[j] == v[b]);
    }
    lemma_ack_position_found(w, v[p].ack);
    if ack_position(w, v[p].ack) is Some {
        let q = ack_position(w, v[p].ack)->0;
        let a = if q < p { q } else { q + 1 };
        assert(w[q] == v[a]);
    }
}

/// Once the radio is free, taking queued commands leaves a request in flight
/// or the queue empty, and keeps the promises.
proof fn lemma_advance_settles(s: CoreView, live: Seq<ClientId>, now: u64, up: bool)
    requires
        core_wf(s),
        s.in_flight is None,
    ensures
        ({
            let r = advance_spec(s, live, now, up).state;
            &&& core_wf(r)
            &&& r.queue.len() > 0 ==> r.in_flight is Some
            &&& r.pending_acks == s.pending_acks
        }),
    decreases s.queue.len(),
{
    if s.queue.len() > 0 {
        let s1 = CoreView { queue: s.queue.drop_first(), ..s };
        assert(core_wf(s1)) by {
            assert forall|i: int| 0 <= i < s1.queue.len() implies #[trigger] s1.queue[i].payload.len()
                > 0 by {
                assert(s1.queue[i] == s.queue[i + 1]);
            }
        }
        lemma_advance_settles(s1, live, now, up);
        if live.contains(s.queue[0].client) && up {
            assert(s.queue[0].payload.len() > 0);
            let d = dispatch_spec(s1, s.queue[0].client, s.queue[0].payload, now, true);
            assert(d.state.queue == s1.queue);
        }
    }
}

/// A command from a client keeps the invariant.
pub proof fn lemma_client_command_inv(
    s: CoreView,
    client: ClientId,
    p: Seq<u8>,
    lookup: LookupView,
    now: u64,
    unix_now: i64,
    up: bool,
)
    requires
        router_inv(s),
    ensures
        router_inv(client_command_spec(s, client, p, lookup, now, unix_now, up).state),
{
    let st = client_command_spec(s, client, p, lookup, now, unix_now, up).state;
    if p.len() > 0 && st != s {
        if s.in_flight is Some {
            assert forall|i: int| 0 <= i < st.queue.len() implies #[trigger] st.queue[i].payload.len()
                > 0 by {
                if i < s.queue.len() {
                    assert(st.queue[i] == s.queue[i]);
                }
            }
        }
    }
}

/// A frame from the radio keeps the invariant.
pub proof fn lemma_route_inv(
    s: CoreView,
    code: u8,
    p: Seq<u8>,
    now: u64,
    live: Seq<ClientId>,
    up: bool,
)
    requires
        router_inv(s),
    ensures
        router_inv(route_spec(s, code, p, now, live, up).state),
{
    let st = route_spec(s, code, p, now, live, up);
    if let Some(f) = s.in_flight {
        if super::router::answers(f, code) {
            let s1 = if code == 0x06 && p.len() >= 6 {
                lemma_filter_distinct(s.pending_acks, ack_kept(now));
                lemma_record_distinct(s.pending_acks.filter(ack_kept(now)), ack_key(p, 2), f.client, now);
                CoreView {
                    pending_acks: record_ack(
                        s.pending_acks.filter(ack_kept(now)),
                        ack_key(p, 2),
                        f.client,
                        now,
                    ),
                    ..s
                }
            } else {
                s
            };
            if completes(f, code) {
                lemma_advance_settles(CoreView { in_flight: None, ..s1 }, live, now, up);
            }
            return;
        }
    }
    if code == 0x82 && p.len() >= 5 {
        lemma_ack_position_found(s.pending_acks, ack_key(p, 1));
        if let Some(i) = ack_position(s.pending_acks, ack_key(p, 1)) {
            lemma_remove_distinct(s.pending_acks, i);
        }
    }
}

/// Caching a radio frame keeps the queue, the request in flight and the
/// promises, and keeps the invariant.
pub proof fn lemma_cache_response_inv(s: CoreView, code: u8, p: Seq<u8>, unix_now: i64)
    requires
        router_inv(s),
    ensures
        router_inv(cache_response_spec(s, code, p, unix_now).state),
{
    let c = cache_response_spec(s, code, p, unix_now).state;
    assert(c.queue == s.queue && c.in_flight == s.in_flight && c.pending_acks == s.pending_acks);
}

/// A frame from the radio, cached and routed, keeps the invariant.
pub proof fn lemma_radio_rx_inv(
    s: CoreView,
    p: Seq<u8>,
    now: u64,
    unix_now: i64,
    live: Seq<ClientId>,
    up: bool,
)
    requires
        router_inv(s),
    ensures
        router_inv(radio_rx_spec(s, p, now, unix_now, live, up).state),
{
    if p.len() > 0 {
        lemma_cache_response_inv(s, p[0], p, unix_now);
        lemma_route_inv(cache_response_spec(s, p[0], p, unix_now).state, p[0], p, now, live, up);
    }
}

/// A clock tick keeps the invariant.
pub proof fn lemma_timeout_inv(s: CoreView, now: u64, live: Seq<ClientId>, up: bool)
    requires
        router_inv(s),
    ensures
        router_inv(timeout_spec(s, now, live, up).state),
{
    if s.in_flight is Some {
        lemma_advance_settles(CoreView { in_flight: None, ..s }, live, now, up);
    }
}

/// Losing the radio keeps the invariant.
pub proof fn lemma_radio_lost_inv(s: CoreView)
    requires
        router_inv(s),
    ensures
        router_inv(radio_lost_spec(s).state),
{
}

/// Restoring kept blobs keeps the invariant.
pub proof fn lemma_restore_inv(
    s: CoreView,
    self_info: Option<Seq<u8>>,
    device_info: Option<Seq<u8>>,
    battery_info: Option<Seq<u8>>,
)
    requires
        router_inv(s),
    ensures
        router_inv(restore_spec(s, self_info, device_info, battery_info)),
{
    let r = restore_spec(s, self_info, device_info, battery_info);
    assert(r.queue == s.queue && r.in_flight == s.in_flight && r.pending_acks == s.pending_acks);
}

/// Commands of one owner, handled in turn, keep the invariant.
pub proof fn lemma_commands_inv(
    s: CoreView,
    owner: ClientId,
    reqs: Seq<Seq<u8>>,
    now: u64,
    unix_now: i64,
    up: bool,
)
    requires
        router_inv(s),
    ensures
        router_inv(commands_spec(s, owner, reqs, now, unix_now, up).state),
    decreases reqs.len(),
{
    if reqs.len() > 0 {
        lemma_commands_inv(s, owner, reqs.drop_last(), now, unix_now, up);
        lemma_client_command_inv(
            commands_spec(s, owner, reqs.drop_last(), now, unix_now, up).state,
            owner,
            reqs.last(),
            LookupView::Unavailable,
            now,
            unix_now,
            up,
        );
    }
}

/// Each delivery ACK reaches its sender at most once: the same ACK frame,
/// arriving again, matches no promise, goes to every client and changes
/// nothing. An ACK that matches no promise is treated so the first time
/// too.
pub proof fn lemma_ack_delivered_at_most_once(
    s: CoreView,
    p: Seq<u8>,
    t1: u64,
    t2: u64,
    live: Seq<ClientId>,
    up: bool,
)
    requires
        router_inv(s),
        p.len() >= 5,
        p[0] == 0x82,
    ensures
        ({
            let first = route_spec(s, 0x82, p, t1, live, up);
            let second = route_spec(first.state, 0x82, p, t2, live, up);
            &&& second.state == first.state
            &&& second.actions == seq![ActionView::Broadcast { payload: p }]
            &&& ack_position(s.pending_acks, ack_key(p, 1)) is None ==> first == second
        }),
{
    let key = ack_key(p, 1);
    if let Some(i) = ack_position(s.pending_acks, key) {
        lemma_ack_position_found(s.pending_acks, key);
        lemma_remove_distinct(s.pending_acks, i);
    }
}

} // verus!
