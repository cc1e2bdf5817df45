//! The radio answers one command at a time, so the router hands it one at a
//! time: no decision sends it more than one command, and the command it
//! sends is then the request in flight.

use vstd::prelude::*;

use super::reply::contact_record;
use super::router::{
    ack_key, ack_kept, ack_route, advance_spec, cache_response_spec, cached_reply,
    client_command_spec, completes, contacts_reply, core_wf, dispatch_spec, echo_actions,
    in_flight_route, is_received_message, radio_rx_spec, record_ack, route_spec, timeout_spec,
    ActionView, CoreView, LookupView, Step,
};
use crate::frontend::ClientId;

verus! {

/// Whether action `i` of `a` sends a command to the radio.
pub open spec fn radio_command_at(a: Seq<ActionView>, i: int) -> bool {
    0 <= i < a.len() && a[i] is ToRadio
}

/// Whether `a` sends the radio any command.
pub open spec fn sends_to_radio(a: Seq<ActionView>) -> bool {
    exists|i: int| radio_command_at(a, i)
}

/// Whether `a` sends the radio at most one command.
pub open spec fn at_most_one_radio_command(a: Seq<ActionView>) -> bool {
    forall|i: int, j: int| radio_command_at(a, i) && radio_command_at(a, j) ==> i == j
}

/// Whether a decision keeps the radio to one command at a time: it sends
/// at most one, and one it sends is in flight afterwards.
pub open spec fn paced(st: Step) -> bool {
    &&& at_most_one_radio_command(st.actions)
    &&& sends_to_radio(st.actions) ==> st.state.in_flight is Some
}

/// Actions that send nothing to the radio, put before paced ones, keep them
/// paced.
proof fn lemma_no_radio_before(a: Seq<ActionView>, b: Seq<ActionView>)
    requires
        !sends_to_radio(a),
        at_most_one_radio_command(b),
    ensures
        at_most_one_radio_command(a + b),
        sends_to_radio(a + b) ==> sends_to_radio(b),
{
    let ab = a + b;
    assert forall|i: int, j: int| radio_command_at(ab, i) && radio_command_at(ab, j) implies i == j by {
        if i < a.len() {
            assert(radio_command_at(a, i));
        }
        if j < a.len() {
            assert(radio_command_at(a, j));
        }
        assert(radio_command_at(b, i - a.len()));
        assert(radio_command_at(b, j - a.len()));
    }
    if sends_to_radio(ab) {
        let i = choose|i: int| radio_command_at(ab, i);
        if i < a.len() {
            assert(radio_command_at(a, i));
        }
        assert(radio_command_at(b, i - a.len()));
    }
}

/// Actions that send nothing to the radio, put after paced ones, keep them
/// paced.
proof fn lemma_no_radio_after(a: Seq<ActionView>, b: Seq<ActionView>)
    requires
        at_most_one_radio_command(a),
        !sends_to_radio(b),
    ensures
        at_most_one_radio_command(a + b),
        sends_to_radio(a + b) ==> sends_to_radio(a),
{
    let ab = a + b;
    assert forall|i: int, j: int| radio_command_at(ab, i) && radio_command_at(ab, j) implies i == j by {
        if i >= a.len() {
            assert(radio_command_at(b, i - a.len()));
        }
        if j >= a.len() {
            assert(radio_command_at(b, j - a.len()));
        }
        assert(radio_command_at(a, i));
        assert(radio_command_at(a, j));
    }
    if sends_to_radio(ab) {
        let i = choose|i: int| radio_command_at(ab, i);
        if i >= a.len() {
            assert(radio_command_at(b, i - a.len()));
        }
        assert(radio_command_at(a, i));
    }
}

/// A single action that is no radio command sends the radio nothing.
proof fn lemma_single_reply(x: ActionView)
    requires
        !(x is ToRadio),
    ensures
        !sends_to_radio(seq![x]),
        at_most_one_radio_command(seq![x]),
{
    if sends_to_radio(seq![x]) {
        let i = choose|i: int| radio_command_at(seq![x], i);
        assert(seq![x][i] == x);
    }
}

/// An echo goes to clients and the store, never to the radio.
proof fn lemma_echo_not_to_radio(s: CoreView, sender: ClientId, p: Seq<u8>)
    ensures
        !sends_to_radio(echo_actions(s, sender, p)),
{
    let e = echo_actions(s, sender, p);
    if sends_to_radio(e) {
        let i = choose|i: int| radio_command_at(e, i);
        assert(e[i] is ToRadio);
    }
}

/// Sending a command to the radio sends exactly that one, and it is in
/// flight afterwards.
proof fn lemma_dispatch_paced(s: CoreView, client: ClientId, p: Seq<u8>, now: u64, up: bool)
    requires
        p.len() > 0,
    ensures
        paced(dispatch_spec(s, client, p, now, up)),
{
    let d = dispatch_spec(s, client, p, now, up);
    if !up {
        lemma_single_reply(d.actions[0]);
        assert(d.actions =~= seq![d.actions[0]]);
    } else {
        let side = d.actions.drop_first();
        assert(d.actions =~= seq![d.actions[0]] + side);
        assert(!sends_to_radio(side)) by {
            if sends_to_radio(side) {
                let i = choose|i: int| radio_command_at(side, i);
                assert(side[i] == d.actions[i + 1]);
                if p[0] == 0x02 && p.len() >= 14 || p[0] == 0x03 && p.len() >= 8 {
                    lemma_echo_not_to_radio(s, client, p);
                    assert(side[i] == echo_actions(s, client, p)[i]);
                }
            }
        }
        assert(at_most_one_radio_command(seq![d.actions[0]])) by {
            assert forall|i: int, j: int|
                radio_command_at(seq![d.actions[0]], i) && radio_command_at(
                    seq![d.actions[0]],
                    j,
                ) implies i == j by {}
        }
        lemma_no_radio_after(seq![d.actions[0]], side);
    }
}

/// Taking queued commands sends the radio at most one, which is then in
/// flight.
pub proof fn lemma_advance_paced(s: CoreView, live: Seq<ClientId>, now: u64, up: bool)
    requires
        core_wf(s),
    ensures
        paced(advance_spec(s, live, now, up)),
    decreases s.queue.len(),
{
    if s.queue.len() == 0 {
        assert(!sends_to_radio(Seq::<ActionView>::empty()));
    } else {
        let s1 = CoreView { queue: s.queue.drop_first(), ..s };
        assert(core_wf(s1)) by {
            assert forall|i: int| 0 <= i < s1.queue.len() implies #[trigger] s1.queue[i].payload.len()
                > 0 by {
                assert(s1.queue[i] == s.queue[i + 1]);
            }
        }
        lemma_advance_paced(s1, live, now, up);
        let next = s.queue[0];
        if live.contains(next.client) {
            if up {
                assert(next.payload.len() > 0);
                lemma_dispatch_paced(s1, next.client, next.payload, now, true);
            } else {
                let r = advance_spec(s1, live, now, up);
                let err = seq![advance_spec(s, live, now, up).actions[0]];
                lemma_single_reply(err[0]);
                assert(advance_spec(s, live, now, up).actions =~= err + r.actions);
                lemma_no_radio_before(err, r.actions);
            }
        }
    }
}

/// A command from a client sends the radio at most one command, and only
/// one that is then in flight: while another request is in flight the
/// command waits or is served from the cache.
pub proof fn lemma_client_command_paced(
    s: CoreView,
    client: ClientId,
    p: Seq<u8>,
    lookup: LookupView,
    now: u64,
    unix_now: i64,
    up: bool,
)
    requires
        core_wf(s),
    ensures
        paced(client_command_spec(s, client, p, lookup, now, unix_now, up)),
        s.in_flight is Some ==> !sends_to_radio(
            client_command_spec(s, client, p, lookup, now, unix_now, up).actions,
        ),
{
    let st = client_command_spec(s, client, p, lookup, now, unix_now, up);
    if p.len() == 0 {
        assert(!sends_to_radio(st.actions));
    } else {
        match cached_reply(s, client, p, lookup, unix_now) {
            Some(a) => {
                assert(!sends_to_radio(a)) by {
                    if sends_to_radio(a) {
                        let i = choose|i: int| radio_command_at(a, i);
                        assert(a[i] is ToClient) by {
                            if p[0] == 0x04 {
                                let cs = lookup->Contacts_0;
                                let r = contacts_reply(client, cs, unix_now as u32);
                                if 1 <= i < 1 + cs.len() {
                                    assert(r[i] == (ActionView::ToClient {
                                        client,
                                        payload: contact_record(cs[i - 1], unix_now as u32),
                                    }));
                                }
                            }
                        }
                    }
                }
            },
            None => {
                if s.in_flight is None {
                    lemma_dispatch_paced(s, client, p, now, up);
                } else {
                    assert(!sends_to_radio(st.actions));
                }
            },
        }
    }
}

/// Actions none of which is a radio command send the radio nothing.
proof fn lemma_replies_not_to_radio(a: Seq<ActionView>)
    requires
        forall|i: int| 0 <= i < a.len() ==> !(#[trigger] a[i] is ToRadio),
    ensures
        !sends_to_radio(a),
        at_most_one_radio_command(a),
{
    if sends_to_radio(a) {
        let i = choose|i: int| radio_command_at(a, i);
        assert(a[i] is ToRadio);
    }
}

/// A frame from the radio sends it at most one command (the next queued
/// one, once the frame completes the request in flight), and that command
/// is then in flight.
pub proof fn lemma_route_paced(
    s: CoreView,
    code: u8,
    p: Seq<u8>,
    now: u64,
    live: Seq<ClientId>,
    up: bool,
)
    requires
        core_wf(s),
    ensures
        paced(route_spec(s, code, p, now, live, up)),
{
    let st = route_spec(s, code, p, now, live, up);
    match in_flight_route(s, code, p, now, live, up) {
        Some(r) => {
            let f = s.in_flight->0;
            let first = seq![ActionView::ToClient { client: f.client, payload: p }];
            let acts = first + (if f.cmd_code == 0x0A && is_received_message(code) {
                seq![ActionView::ToOthers { sender: f.client, payload: p }]
            } else {
                Seq::empty()
            });
            assert forall|i: int| 0 <= i < acts.len() implies !(#[trigger] acts[i] is ToRadio) by {}
            lemma_replies_not_to_radio(acts);
            if completes(f, code) {
                let s1 = if code == 0x06 && p.len() >= 6 {
                    CoreView {
                        pending_acks: record_ack(
                            s.pending_acks.filter(ack_kept(now)),
                            ack_key(p, 2),
                            f.client,
                            now,
                        ),
                        ..s
                    }
                } else {
                    s
                };
                let s2 = CoreView { in_flight: None, ..s1 };
                assert(core_wf(s2));
                lemma_advance_paced(s2, live, now, up);
                lemma_no_radio_before(acts, advance_spec(s2, live, now, up).actions);
            } else {
                assert(r.actions =~= acts);
            }
        },
        None => {
            match ack_route(s, code, p) {
                Some(r) => {
                    lemma_single_reply(r.actions[0]);
                    assert(r.actions =~= seq![r.actions[0]]);
                },
                None => {
                    lemma_single_reply(ActionView::Broadcast { payload: p });
                },
            }
        },
    }
}

/// Caching a radio frame never commands the radio, and keeps the router's
/// state well formed.
pub proof fn lemma_cache_response_quiet(s: CoreView, code: u8, p: Seq<u8>, unix_now: i64)
    requires
        core_wf(s),
    ensures
        !sends_to_radio(cache_response_spec(s, code, p, unix_now).actions),
        core_wf(cache_response_spec(s, code, p, unix_now).state),
        cache_response_spec(s, code, p, unix_now).state.in_flight == s.in_flight,
{
    let c = cache_response_spec(s, code, p, unix_now);
    assert forall|i: int| 0 <= i < c.actions.len() implies !(#[trigger] c.actions[i] is ToRadio) by {}
    lemma_replies_not_to_radio(c.actions);
}

/// Handling a radio frame sends the radio at most one command, which is
/// then in flight.
pub proof fn lemma_radio_rx_paced(
    s: CoreView,
    p: Seq<u8>,
    now: u64,
    unix_now: i64,
    live: Seq<ClientId>,
    up: bool,
)
    requires
        core_wf(s),
    ensures
        paced(radio_rx_spec(s, p, now, unix_now, live, up)),
{
    let st = radio_rx_spec(s, p, now, unix_now, live, up);
    if p.len() == 0 {
        lemma_replies_not_to_radio(st.actions);
    } else {
        let code = p[0];
        let c = cache_response_spec(s, code, p, unix_now);
        lemma_cache_response_quiet(s, code, p, unix_now);
        let rec = if s.record_radio_rx {
            seq![ActionView::RecordRawRx { code, payload: p }]
        } else {
            Seq::empty()
        };
        assert forall|i: int| 0 <= i < rec.len() implies !(#[trigger] rec[i] is ToRadio) by {}
        lemma_replies_not_to_radio(rec);
        let r = route_spec(c.state, code, p, now, live, up);
        lemma_route_paced(c.state, code, p, now, live, up);
        lemma_no_radio_before(rec, r.actions);
        lemma_no_radio_before(c.actions, rec + r.actions);
        assert(st.actions =~= c.actions + (rec + r.actions));
    }
}

/// A clock tick sends the radio at most one command (the next queued one,
/// once the request in flight timed out), which is then in flight.
pub proof fn lemma_timeout_paced(s: CoreView, now: u64, live: Seq<ClientId>, up: bool)
    requires
        core_wf(s),
    ensures
        paced(timeout_spec(s, now, live, up)),
{
    let st = timeout_spec(s, now, live, up);
    match s.in_flight {
        Some(f) => {
            if st.actions.len() > 0 {
                let s2 = CoreView { in_flight: None, ..s };
                assert(core_wf(s2));
                lemma_advance_paced(s2, live, now, up);
                let err = seq![st.actions[0]];
                lemma_single_reply(st.actions[0]);
                assert(st.actions =~= err + advance_spec(s2, live, now, up).actions);
                lemma_no_radio_before(err, advance_spec(s2, live, now, up).actions);
            } else {
                lemma_replies_not_to_radio(st.actions);
            }
        },
        None => {
            lemma_replies_not_to_radio(st.actions);
        },
    }
}

} // verus!
