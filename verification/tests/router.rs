use coresplitter::frontend::{ClientCommand, ClientId};
use coresplitter::multiplexer::router::{cache_query, is_radio_frame_ok, Action, CacheLookup, CacheQuery, CoreState, KvKey};
use coresplitter::node::state::{CachedChannel, CachedContact, MessageKind};

const ERROR: [u8; 2] = [0x01, 0x01];

fn cmd(client: ClientId, payload: &[u8]) -> ClientCommand {
    ClientCommand { client_id: client, payload: payload.to_vec() }
}

fn send(core: &mut CoreState, client: ClientId, payload: &[u8], now: u64) -> Vec<Action> {
    core.handle_client_command(cmd(client, payload), &CacheLookup::Unavailable, now, 1_700_000_000, true)
}

fn to_client(a: &Action) -> (ClientId, Vec<u8>) {
    match a {
        Action::SendToClient { client, payload } => (*client, payload.clone()),
        other => panic!("not a reply to one client: {:?}", other),
    }
}

fn to_radio(a: &Action) -> Vec<u8> {
    match a {
        Action::SendToRadio { payload } => payload.clone(),
        other => panic!("not a radio command: {:?}", other),
    }
}

fn self_info_blob() -> Vec<u8> {
    let mut p = vec![0u8; 60];
    p[0] = 0x05;
    p[1] = 1;
    for i in 4..36 {
        p[i] = (0xa0 + i - 4) as u8;
    }
    p[56..60].copy_from_slice(b"base");
    p
}

#[test]
fn command_goes_to_radio_when_it_is_free() {
    let mut core = CoreState::new(false);
    let a = ClientId::new(1);
    let acts = send(&mut core, a, &[0x06, 1, 2, 3, 4], 0);
    assert_eq!(acts.len(), 1);
    assert_eq!(to_radio(&acts[0]), vec![0x06, 1, 2, 3, 4]);
}

#[test]
fn busy_radio_queues_and_answers_in_order() {
    let mut core = CoreState::new(false);
    let a = ClientId::new(1);
    let b = ClientId::new(2);
    let live = [a, b];
    send(&mut core, a, &[0x09], 0);
    assert!(send(&mut core, b, &[0x18], 1).is_empty());
    assert!(send(&mut core, a, &[0x19], 2).is_empty());

    let acts = core.handle_radio_rx(vec![0x09, 7, 0, 0, 0], 3, 0, &live, true);
    assert_eq!(acts.len(), 2);
    assert_eq!(to_client(&acts[0]), (a, vec![0x09, 7, 0, 0, 0]));
    assert_eq!(to_radio(&acts[1]), vec![0x18]);

    let acts = core.handle_radio_rx(vec![0x00], 4, 0, &live, true);
    assert_eq!(to_client(&acts[0]), (b, vec![0x00]));
    assert_eq!(to_radio(&acts[1]), vec![0x19]);
}

#[test]
fn queued_command_of_a_departed_client_is_dropped() {
    let mut core = CoreState::new(false);
    let a = ClientId::new(1);
    let gone = ClientId::new(2);
    let c = ClientId::new(3);
    send(&mut core, a, &[0x09], 0);
    send(&mut core, gone, &[0x18], 0);
    send(&mut core, c, &[0x19], 0);
    let acts = core.handle_radio_rx(vec![0x00], 5, 0, &[a, c], true);
    assert_eq!(acts.len(), 2);
    assert_eq!(to_client(&acts[0]), (a, vec![0x00]));
    assert_eq!(to_radio(&acts[1]), vec![0x19]);
}

#[test]
fn unreachable_radio_answers_error() {
    let mut core = CoreState::new(false);
    let a = ClientId::new(7);
    let acts = core.handle_client_command(cmd(a, &[0x09]), &CacheLookup::Unavailable, 0, 0, false);
    assert_eq!(acts.len(), 1);
    assert_eq!(to_client(&acts[0]), (a, ERROR.to_vec()));
    // nothing is in flight, so the next command goes straight out
    let acts = send(&mut core, a, &[0x09], 1);
    assert_eq!(to_radio(&acts[0]), vec![0x09]);
}

#[test]
fn empty_command_is_ignored() {
    let mut core = CoreState::new(false);
    assert!(send(&mut core, ClientId::new(1), &[], 0).is_empty());
}

#[test]
fn request_times_out_after_five_seconds() {
    let mut core = CoreState::new(false);
    let a = ClientId::new(1);
    let b = ClientId::new(2);
    send(&mut core, a, &[0x09], 1000);
    send(&mut core, b, &[0x18], 1001);
    assert!(core.check_in_flight_timeout(5999, &[a, b], true).is_empty());
    let acts = core.check_in_flight_timeout(6000, &[a, b], true);
    assert_eq!(acts.len(), 2);
    assert_eq!(to_client(&acts[0]), (a, ERROR.to_vec()));
    assert_eq!(to_radio(&acts[1]), vec![0x18]);
}

#[test]
fn radio_lost_fails_every_waiting_request() {
    let mut core = CoreState::new(false);
    let a = ClientId::new(1);
    let b = ClientId::new(2);
    send(&mut core, a, &[0x09], 0);
    send(&mut core, b, &[0x18], 0);
    send(&mut core, a, &[0x19], 0);
    let acts = core.radio_lost();
    assert_eq!(acts.len(), 3);
    assert_eq!(to_client(&acts[0]), (a, ERROR.to_vec()));
    assert_eq!(to_client(&acts[1]), (b, ERROR.to_vec()));
    assert_eq!(to_client(&acts[2]), (a, ERROR.to_vec()));
    assert!(core.radio_lost().is_empty());
    let acts = send(&mut core, b, &[0x09], 1);
    assert_eq!(to_radio(&acts[0]), vec![0x09]);
}

#[test]
fn self_info_is_cached_and_served_without_the_radio() {
    let mut core = CoreState::new(false);
    let a = ClientId::new(1);
    let blob = self_info_blob();
    let acts = core.handle_radio_rx(blob.clone(), 0, 0, &[a], true);
    assert_eq!(acts.len(), 2);
    match &acts[0] {
        Action::KvSet { key, value } => {
            assert_eq!(*key, KvKey::SelfInfo);
            assert_eq!(value, &blob);
        }
        other => panic!("{:?}", other),
    }
    assert!(matches!(&acts[1], Action::Broadcast { payload } if payload == &blob));
    assert!(core.has_self_info());
    assert_eq!(core.radio_name(), Some("base".to_string()));
    assert_eq!(core.radio_pubkey(), Some(blob[4..36].to_vec()));

    let acts = send(&mut core, a, &[0x01, 0x03, b'x'], 1);
    assert_eq!(acts.len(), 1);
    assert_eq!(to_client(&acts[0]), (a, blob));
}

#[test]
fn setter_empties_the_cache() {
    let mut core = CoreState::new(false);
    let a = ClientId::new(1);
    core.handle_radio_rx(self_info_blob(), 0, 0, &[a], true);
    let acts = send(&mut core, a, &[0x08, b'n', b'e', b'w'], 1);
    assert_eq!(to_radio(&acts[0]), vec![0x08, b'n', b'e', b'w']);
    // the cache is empty now, and the radio is busy: the query waits
    assert!(send(&mut core, a, &[0x01], 2).is_empty());
    assert!(!core.has_self_info());
}

#[test]
fn battery_and_device_info_are_cached() {
    let mut core = CoreState::new(false);
    let a = ClientId::new(1);
    let battery = vec![0x0c, 0x10, 0x0e];
    core.handle_radio_rx(battery.clone(), 0, 0, &[a], true);
    let mut device = vec![0u8; 61];
    device[0] = 0x0d;
    device[3] = 8;
    core.handle_radio_rx(device.clone(), 0, 0, &[a], true);
    assert_eq!(core.max_channels(), 8);
    assert_eq!(to_client(&send(&mut core, a, &[0x14], 1)[0]), (a, battery));
    assert_eq!(to_client(&send(&mut core, a, &[0x16, 3], 1)[0]), (a, device));
}

#[test]
fn delivery_ack_goes_back_to_the_sender() {
    let mut core = CoreState::new(false);
    let a = ClientId::new(1);
    let b = ClientId::new(2);
    let live = [a, b];
    send(&mut core, a, &[0x02, 0, 0, 1, 0, 0, 0, 9, 9, 9, 9, 9, 9], 0);
    let sent = vec![0x06, 0, 0xde, 0xad, 0xbe, 0xef, 0x88, 0x13, 0, 0];
    let acts = core.handle_radio_rx(sent.clone(), 1, 0, &live, true);
    assert_eq!(to_client(&acts[0]), (a, sent));
    send(&mut core, b, &[0x09], 2);
    let ack = vec![0x82, 0xde, 0xad, 0xbe, 0xef];
    let acts = core.handle_radio_rx(ack.clone(), 3, 0, &live, true);
    assert_eq!(acts.len(), 1);
    assert_eq!(to_client(&acts[0]), (a, ack.clone()));
    // the promise is used up: a second copy goes to everyone
    let acts = core.handle_radio_rx(ack.clone(), 4, 0, &live, true);
    assert!(matches!(&acts[0], Action::Broadcast { payload } if payload == &ack));
}

#[test]
fn expired_ack_promise_is_forgotten() {
    let mut core = CoreState::new(false);
    let a = ClientId::new(1);
    let b = ClientId::new(2);
    let live = [a, b];
    send(&mut core, a, &[0x02, 0, 0, 1, 0, 0, 0], 0);
    core.handle_radio_rx(vec![0x06, 0, 1, 2, 3, 4, 0, 0, 0, 0], 0, 0, &live, true);
    send(&mut core, b, &[0x02, 0, 0, 1, 0, 0, 0], 300_000);
    core.handle_radio_rx(vec![0x06, 0, 5, 6, 7, 8, 0, 0, 0, 0], 300_000, 0, &live, true);
    let acts = core.handle_radio_rx(vec![0x82, 1, 2, 3, 4], 300_001, 0, &live, true);
    assert!(matches!(&acts[0], Action::Broadcast { .. }));
    let acts = core.handle_radio_rx(vec![0x82, 5, 6, 7, 8], 300_002, 0, &live, true);
    assert_eq!(to_client(&acts[0]), (b, vec![0x82, 5, 6, 7, 8]));
}

#[test]
fn push_events_go_to_everyone() {
    let mut core = CoreState::new(false);
    let a = ClientId::new(1);
    send(&mut core, a, &[0x09], 0);
    for code in [0x80u8, 0x81, 0x83, 0x88, 0x8a] {
        let acts = core.handle_radio_rx(vec![code, 1, 2], 1, 0, &[a], true);
        assert_eq!(acts.len(), 1);
        assert!(matches!(&acts[0], Action::Broadcast { payload } if payload == &vec![code, 1, 2]));
    }
    // the request is still in flight
    let acts = core.handle_radio_rx(vec![0x09, 0, 0, 0, 0], 2, 0, &[a], true);
    assert_eq!(to_client(&acts[0]).0, a);
}

#[test]
fn fetched_message_goes_to_every_client() {
    let mut core = CoreState::new(false);
    let a = ClientId::new(1);
    let b = ClientId::new(2);
    send(&mut core, a, &[0x0a], 0);
    let mut msg = vec![0x07, 1, 2, 3, 4, 5, 6, 0, 0, 0x10, 0, 0, 0];
    msg.extend_from_slice(b"hello");
    let acts = core.handle_radio_rx(msg.clone(), 1, 0, &[a, b], true);
    assert_eq!(acts.len(), 3);
    match &acts[0] {
        Action::StoreMessage(m) => {
            assert_eq!(m.kind, MessageKind::Contact);
            assert_eq!(m.text, "hello");
            assert_eq!(m.timestamp, 16);
            assert_eq!(m.from_key, Some(vec![1, 2, 3, 4, 5, 6]));
        }
        other => panic!("{:?}", other),
    }
    assert_eq!(to_client(&acts[1]), (a, msg.clone()));
    assert!(matches!(&acts[2], Action::SendToOthers { sender, payload } if *sender == a && payload == &msg));
}

#[test]
fn sent_channel_message_is_echoed_to_the_others() {
    let mut core = CoreState::new(false);
    let a = ClientId::new(1);
    core.handle_radio_rx(self_info_blob(), 0, 0, &[a], true);
    let p = vec![0x03, 0, 2, 0x10, 0x20, 0x30, 0x40, b'h', b'i'];
    let acts = send(&mut core, a, &p, 1);
    assert_eq!(acts.len(), 3);
    assert_eq!(to_radio(&acts[0]), p);
    match &acts[1] {
        Action::SendToOthers { sender, payload } => {
            assert_eq!(*sender, a);
            assert_eq!(payload, &vec![0x08, 2, 0, 0, 0x10, 0x20, 0x30, 0x40, b'h', b'i']);
        }
        other => panic!("{:?}", other),
    }
    match &acts[2] {
        Action::StoreMessage(m) => {
            assert_eq!(m.kind, MessageKind::Channel);
            assert_eq!(m.channel_idx, Some(2));
            assert_eq!(m.text, "hi");
            assert_eq!(m.timestamp, 0x40302010);
        }
        other => panic!("{:?}", other),
    }
}

#[test]
fn sent_contact_message_is_echoed_from_the_radio_key() {
    let mut core = CoreState::new(false);
    let a = ClientId::new(1);
    core.handle_radio_rx(self_info_blob(), 0, 0, &[a], true);
    let mut p = vec![0x02, 0, 0, 1, 0, 0, 0, 9, 9, 9, 9, 9, 9];
    p.extend_from_slice(b"yo");
    let acts = send(&mut core, a, &p, 1);
    let mut echo = vec![0x07, 0xa0, 0xa1, 0xa2, 0xa3, 0xa4, 0xa5, 0, 0, 1, 0, 0, 0];
    echo.extend_from_slice(b"yo");
    assert!(matches!(&acts[1], Action::SendToOthers { payload, .. } if payload == &echo));
}

#[test]
fn message_is_not_echoed_while_the_radio_key_is_unknown() {
    let mut core = CoreState::new(false);
    let a = ClientId::new(1);
    let p = vec![0x03, 0, 2, 0x10, 0x20, 0x30, 0x40, b'h', b'i'];
    let acts = send(&mut core, a, &p, 1);
    assert_eq!(acts.len(), 1);
}

#[test]
fn contacts_are_served_from_the_store() {
    let mut core = CoreState::new(false);
    let a = ClientId::new(1);
    let contact = CachedContact {
        public_key: vec![0x11; 32],
        name: "bob".to_string(),
        contact_type: 1,
        last_advert: Some(1000),
        lat: Some(-5),
        lon: None,
    };
    assert_eq!(cache_query(&[0x04]), CacheQuery::Contacts);
    let acts = core.handle_client_command(cmd(a, &[0x04]), &CacheLookup::Contacts(vec![contact]), 0, 77, true);
    assert_eq!(acts.len(), 3);
    assert_eq!(to_client(&acts[0]), (a, vec![0x02, 1, 0, 0, 0]));
    let (_, record) = to_client(&acts[1]);
    assert_eq!(record.len(), 148);
    assert_eq!(record[0], 0x03);
    assert_eq!(&record[1..33], &[0x11; 32][..]);
    assert_eq!(record[33], 1);
    assert_eq!(&record[100..103], b"bob");
    assert_eq!(record[103], 0);
    assert_eq!(&record[132..136], &1000u32.to_le_bytes());
    assert_eq!(&record[136..140], &(-5i32).to_le_bytes());
    assert_eq!(&record[140..148], &[0u8; 8]);
    assert_eq!(to_client(&acts[2]), (a, vec![0x04, 77, 0, 0, 0]));
}

#[test]
fn empty_contact_list_asks_the_radio() {
    let mut core = CoreState::new(false);
    let a = ClientId::new(1);
    let acts = core.handle_client_command(cmd(a, &[0x04]), &CacheLookup::Contacts(vec![]), 0, 77, true);
    assert_eq!(to_radio(&acts[0]), vec![0x04]);
}

#[test]
fn channel_is_served_from_the_store() {
    let mut core = CoreState::new(false);
    let a = ClientId::new(1);
    let channels = vec![
        CachedChannel { idx: 0, name: "public".to_string(), config: Some(vec![7; 16]) },
        CachedChannel { idx: 3, name: "ops".to_string(), config: None },
    ];
    assert_eq!(cache_query(&[0x1f, 3]), CacheQuery::Channels);
    let acts = core.handle_client_command(cmd(a, &[0x1f, 3]), &CacheLookup::Channels(channels), 0, 0, true);
    assert_eq!(acts.len(), 1);
    let mut expected = vec![0x12, 3, b'o', b'p', b's'];
    expected.extend_from_slice(&[0u8; 29]);
    expected.extend_from_slice(&[0u8; 16]);
    assert_eq!(to_client(&acts[0]), (a, expected));
    let acts = core.handle_client_command(cmd(a, &[0x1f, 5]), &CacheLookup::Channels(vec![]), 0, 0, true);
    assert_eq!(to_radio(&acts[0]), vec![0x1f, 5]);
}

#[test]
fn contact_list_from_the_radio_streams_to_the_asker() {
    let mut core = CoreState::new(false);
    let a = ClientId::new(1);
    let b = ClientId::new(2);
    let live = [a, b];
    send(&mut core, a, &[0x04], 0);
    assert!(send(&mut core, b, &[0x09], 0).is_empty());
    let acts = core.handle_radio_rx(vec![0x02, 1, 0, 0, 0], 1, 0, &live, true);
    assert_eq!(acts.len(), 1);
    assert_eq!(to_client(&acts[0]).0, a);
    let mut contact = vec![0u8; 148];
    contact[0] = 0x03;
    contact[100..103].copy_from_slice(b"eve");
    let acts = core.handle_radio_rx(contact.clone(), 2, 0, &live, true);
    assert_eq!(acts.len(), 2);
    match &acts[0] {
        Action::StoreContact(c) => {
            assert_eq!(c.name, "eve");
            assert_eq!(c.lat, None);
            assert_eq!(c.last_advert, Some(0));
        }
        other => panic!("{:?}", other),
    }
    assert_eq!(to_client(&acts[1]), (a, contact));
    let acts = core.handle_radio_rx(vec![0x04, 9, 0, 0, 0], 3, 0, &live, true);
    assert_eq!(to_client(&acts[0]), (a, vec![0x04, 9, 0, 0, 0]));
    assert_eq!(to_radio(&acts[1]), vec![0x09]);
}

#[test]
fn channel_info_is_stored_and_removed_channel_deleted() {
    let mut core = CoreState::new(false);
    let a = ClientId::new(1);
    let mut info = vec![0u8; 50];
    info[0] = 0x12;
    info[1] = 4;
    info[2..5].copy_from_slice(b"abc");
    info[34..50].copy_from_slice(&[5; 16]);
    let acts = core.handle_radio_rx(info, 0, 0, &[a], true);
    match &acts[0] {
        Action::StoreChannel(ch) => {
            assert_eq!(ch.idx, 4);
            assert_eq!(ch.name, "abc");
            assert_eq!(ch.config, Some(vec![5; 16]));
        }
        other => panic!("{:?}", other),
    }
    let acts = send(&mut core, a, &[0x20, 4], 1);
    assert!(matches!(&acts[1], Action::DeleteChannel { idx: 4 }));
}

#[test]
fn raw_frames_are_recorded_when_asked() {
    let mut core = CoreState::new(true);
    let acts = core.handle_radio_rx(vec![0x80, 1], 0, 0, &[], true);
    assert_eq!(acts.len(), 2);
    assert!(matches!(&acts[0], Action::RecordRawRx { code: 0x80, payload } if payload == &vec![0x80, 1]));
    let mut quiet = CoreState::new(false);
    assert_eq!(quiet.handle_radio_rx(vec![0x80, 1], 0, 0, &[], true).len(), 1);
    assert!(quiet.handle_radio_rx(vec![], 0, 0, &[], true).is_empty());
}

#[test]
fn sync_asks_for_contacts_then_every_channel() {
    let mut core = CoreState::new(false);
    let reqs = core.sync_requests();
    assert_eq!(reqs.len(), 41);
    assert_eq!(reqs[0], vec![0x04]);
    assert_eq!(reqs[1], vec![0x1f, 0]);
    assert_eq!(reqs[40], vec![0x1f, 39]);
    let mut device = vec![0u8; 61];
    device[0] = 0x0d;
    device[3] = 3;
    core.cache_response(0x0d, &device, 0);
    assert_eq!(core.sync_requests(), vec![vec![0x04], vec![0x1f, 0], vec![0x1f, 1], vec![0x1f, 2]]);
}

#[test]
fn restored_blobs_serve_queries() {
    let mut core = CoreState::new(false);
    let a = ClientId::new(1);
    core.restore_from_store(Some(self_info_blob()), None, Some(vec![0x0c, 1, 2]));
    assert!(core.has_self_info());
    assert_eq!(core.radio_name(), Some("base".to_string()));
    assert_eq!(to_client(&send(&mut core, a, &[0x01], 0)[0]), (a, self_info_blob()));
    assert_eq!(to_client(&send(&mut core, a, &[0x14], 0)[0]), (a, vec![0x0c, 1, 2]));
    // a fresher blob from the radio is not overwritten
    core.restore_from_store(None, None, Some(vec![0x0c, 9, 9]));
    assert_eq!(to_client(&send(&mut core, a, &[0x14], 0)[0]), (a, vec![0x0c, 1, 2]));
}

#[test]
fn cache_queries_and_frame_checks() {
    assert_eq!(cache_query(&[]), CacheQuery::Nothing);
    assert_eq!(cache_query(&[0x01]), CacheQuery::Nothing);
    assert!(!is_radio_frame_ok(&[0x10; 14]));
    assert!(is_radio_frame_ok(&[0x10; 16]));
    assert!(is_radio_frame_ok(&[0x10; 12]));
    assert_eq!(KvKey::SelfInfo.as_str(), "self_info_raw");
    assert_eq!(KvKey::DeviceInfo.as_str(), "device_info_raw");
    assert_eq!(KvKey::BatteryInfo.as_str(), "battery_info_raw");
}

#[test]
fn v3_messages_are_stored() {
    let mut core = CoreState::new(false);
    let mut p = vec![0x10, 0, 0, 0, 1, 2, 3, 4, 5, 6, 0, 0, 0x20, 0, 0, 0];
    p.extend_from_slice(b"v3");
    let acts = core.cache_response(0x10, &p, 0);
    match &acts[0] {
        Action::StoreMessage(m) => {
            assert_eq!(m.kind, MessageKind::Contact);
            assert_eq!(m.from_key, Some(vec![1, 2, 3, 4, 5, 6]));
            assert_eq!(m.text, "v3");
            assert_eq!(m.timestamp, 32);
        }
        other => panic!("{:?}", other),
    }
    let mut c = vec![0x11, 0, 0, 0, 7, 0, 0, 0x05, 0, 0, 0];
    c.extend_from_slice(b"ch");
    let acts = core.cache_response(0x11, &c, 0);
    match &acts[0] {
        Action::StoreMessage(m) => {
            assert_eq!(m.kind, MessageKind::Channel);
            assert_eq!(m.channel_idx, Some(7));
            assert_eq!(m.text, "ch");
            assert_eq!(m.timestamp, 5);
        }
        other => panic!("{:?}", other),
    }
}

#[test]
fn cached_channel_comes_back_as_the_radio_sent_it() {
    let mut core = CoreState::new(false);
    let a = ClientId::new(1);
    let mut info = vec![0u8; 50];
    info[0] = 0x12;
    info[1] = 6;
    info[2..9].copy_from_slice("caf\u{e9}!!".as_bytes());
    info[34..50].copy_from_slice(&[0x5a; 16]);
    let stored = match core.cache_response(0x12, &info, 0).remove(0) {
        Action::StoreChannel(ch) => ch,
        other => panic!("{:?}", other),
    };
    let acts = core.handle_client_command(cmd(a, &[0x1f, 6]), &CacheLookup::Channels(vec![stored]), 0, 0, true);
    assert_eq!(to_client(&acts[0]), (a, info));
}

#[test]
fn cached_contact_comes_back_as_the_radio_sent_it() {
    let mut core = CoreState::new(false);
    let a = ClientId::new(1);
    let mut p = vec![0u8; 148];
    p[0] = 0x03;
    for i in 1..33 {
        p[i] = i as u8;
    }
    p[33] = 2;
    p[34] = 0x7;
    p[35] = 3;
    p[36..39].copy_from_slice(&[9, 9, 9]);
    p[100..105].copy_from_slice(b"relay");
    p[132..136].copy_from_slice(&123_456u32.to_le_bytes());
    p[136..140].copy_from_slice(&(-1_234_567i32).to_le_bytes());
    p[140..144].copy_from_slice(&7_654_321i32.to_le_bytes());
    p[144..148].copy_from_slice(&[1, 2, 3, 4]);
    let stored = match core.cache_response(0x03, &p, 0).remove(0) {
        Action::StoreContact(c) => c,
        other => panic!("{:?}", other),
    };
    let acts = core.handle_client_command(cmd(a, &[0x04]), &CacheLookup::Contacts(vec![stored]), 0, 0, true);
    let mut expected = p.clone();
    for b in &mut expected[34..100] {
        *b = 0;
    }
    for b in &mut expected[144..148] {
        *b = 0;
    }
    assert_eq!(to_client(&acts[1]), (a, expected));
}

#[test]
fn cache_fill_goes_through_the_queue() {
    let mut core = CoreState::new(false);
    let mut device = vec![0u8; 61];
    device[0] = 0x0d;
    device[3] = 2;
    core.cache_response(0x0d, &device, 0);
    let proxy = ClientId::proxy();
    let a = ClientId::new(1);
    let live = [proxy, a];

    let acts = core.sync_from_radio(0, 0, true);
    assert_eq!(acts.len(), 1);
    assert_eq!(to_radio(&acts[0]), vec![0x04]);
    // a client command waits behind the cache fill
    assert!(send(&mut core, a, &[0x09], 1).is_empty());

    let acts = core.handle_radio_rx(vec![0x04, 0, 0, 0, 0], 2, 0, &live, true);
    assert_eq!(to_client(&acts[0]), (proxy, vec![0x04, 0, 0, 0, 0]));
    assert_eq!(to_radio(&acts[1]), vec![0x1f, 0]);
    let acts = core.handle_radio_rx(vec![0x01, 0x02], 3, 0, &live, true);
    assert_eq!(to_client(&acts[0]), (proxy, vec![0x01, 0x02]));
    assert_eq!(to_radio(&acts[1]), vec![0x1f, 1]);
    let acts = core.handle_radio_rx(vec![0x01, 0x02], 4, 0, &live, true);
    assert_eq!(to_radio(&acts[1]), vec![0x09]);
    let acts = core.handle_radio_rx(vec![0x00], 5, 0, &live, true);
    assert_eq!(to_client(&acts[0]), (a, vec![0x00]));
}

#[test]
fn cache_fill_waits_behind_a_client_request() {
    let mut core = CoreState::new(false);
    let a = ClientId::new(1);
    send(&mut core, a, &[0x09], 0);
    assert!(core.sync_from_radio(0, 0, true).is_empty());
    let acts = core.handle_radio_rx(vec![0x09, 0, 0, 0, 0], 1, 0, &[ClientId::proxy(), a], true);
    assert_eq!(to_client(&acts[0]), (a, vec![0x09, 0, 0, 0, 0]));
    assert_eq!(to_radio(&acts[1]), vec![0x04]);
}
