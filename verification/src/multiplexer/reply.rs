//! The frames the proxy writes itself: cached contacts and channels served
//! to a client, and the echo of a message a client sent.

use vstd::prelude::*;
use vstd::utf8::encode_utf8;

use crate::node::state::{CachedChannel, CachedContact, ChannelView, ContactView};
use crate::protocol::wire::{push_u32_le, u32_le_bytes};

verus! {

/// `n` zero bytes.
pub open spec fn zeros(n: nat) -> Seq<u8> {
    Seq::new(n, |i: int| 0u8)
}

/// `s` cut or filled with zero bytes to exactly `n` bytes.
pub open spec fn padded(s: Seq<u8>, n: nat) -> Seq<u8> {
    if s.len() >= n {
        s.take(n as int)
    } else {
        s + zeros((n - s.len()) as nat)
    }
}

/// The four little-endian bytes of a signed 32-bit number.
pub open spec fn i32_le_bytes(v: int) -> Seq<u8> {
    u32_le_bytes(
        if v < 0 {
            v + 0x1_0000_0000
        } else {
            v
        },
    )
}

/// A CONTACT frame for a cached contact: code 3, the key in 32 bytes, the
/// type, no flags and no path, the name in 32 bytes, the last advert (or
/// `now` when unknown), the coordinates (zero when unknown) and a zero
/// last-modified stamp: 148 bytes.
pub open spec fn contact_record(c: ContactView, now: u32) -> Seq<u8> {
    let last_advert = match c.last_advert {
        Some(v) => v,
        None => now as i64,
    };
    let lat = match c.lat {
        Some(v) => v as int,
        None => 0,
    };
    let lon = match c.lon {
        Some(v) => v as int,
        None => 0,
    };
    seq![0x03u8] + padded(c.public_key, 32) + seq![c.contact_type as u8, 0u8, 0u8] + zeros(64)
        + padded(encode_utf8(c.name), 32) + u32_le_bytes((last_advert as u32) as int)
        + i32_le_bytes(lat) + i32_le_bytes(lon) + zeros(4)
}

/// The CONTACT_START frame: code 2 and the number of contacts.
pub open spec fn contacts_start(count: u32) -> Seq<u8> {
    seq![0x02u8] + u32_le_bytes(count as int)
}

/// The CONTACT_END frame: code 4 and the time.
pub open spec fn contacts_end(now: u32) -> Seq<u8> {
    seq![0x04u8] + u32_le_bytes(now as int)
}

/// A CHANNEL_INFO frame for a cached channel: code 0x12, the index, the
/// name in 32 bytes and the secret in 16.
pub open spec fn channel_record(ch: ChannelView) -> Seq<u8> {
    let secret = match ch.config {
        Some(c) => c,
        None => Seq::empty(),
    };
    seq![0x12u8, ch.idx as u8] + padded(encode_utf8(ch.name), 32) + padded(secret, 16)
}

/// A CONTACT_MSG_RECV as if the radio had received `text` from the node
/// whose key starts with `from`: code 7, six key bytes, path length 0, the
/// text type, the timestamp bytes, then the text.
pub open spec fn contact_echo(from: Seq<u8>, txt_type: u8, timestamp: Seq<u8>, text: Seq<char>) -> Seq<u8> {
    seq![0x07u8] + from + seq![0u8, txt_type] + timestamp + encode_utf8(text)
}

/// A CHANNEL_MSG_RECV as if the radio had received `text` on `channel`:
/// code 8, the channel, path length 0, plain text, the timestamp bytes,
/// then the text.
pub open spec fn channel_echo(channel: u8, timestamp: Seq<u8>, text: Seq<char>) -> Seq<u8> {
    seq![0x08u8, channel, 0u8, 0u8] + timestamp + encode_utf8(text)
}

/// Appends `s` cut or filled with zero bytes to `n` bytes.
fn push_padded(buf: &mut Vec<u8>, s: &[u8], n: usize)
    ensures
        final(buf)@ == old(buf)@ + padded(s@, n as nat),
{
    let ghost start = buf@;
    let mut i: usize = 0;
    while i < n
        invariant
            i <= n,
            buf@ == start + Seq::new(i as nat, |j: int| if j < s@.len() { s@[j] } else { 0u8 }),
        decreases n - i,
    {
        let b = if i < s.len() {
            s[i]
        } else {
            0
        };
        buf.push(b);
        i = i + 1;
        assert(buf@ =~= start + Seq::new(i as nat, |j: int| if j < s@.len() { s@[j] } else { 0u8 }));
    }
    assert(Seq::new(n as nat, |j: int| if j < s@.len() { s@[j] } else { 0u8 }) =~= padded(s@, n as nat));
}

/// Appends `n` zero bytes.
fn push_zeros(buf: &mut Vec<u8>, n: usize)
    ensures
        final(buf)@ == old(buf)@ + zeros(n as nat),
{
    let empty: Vec<u8> = Vec::new();
    push_padded(buf, empty.as_slice(), n);
    assert(padded(empty@, n as nat) =~= zeros(n as nat));
}

/// Appends the four little-endian bytes of a signed number.
fn push_i32_le(buf: &mut Vec<u8>, v: i32)
    ensures
        final(buf)@ == old(buf)@ + i32_le_bytes(v as int),
{
    let u: u32 = if v < 0 {
        (v as i64 + 0x1_0000_0000i64) as u32
    } else {
        v as u32
    };
    push_u32_le(buf, u);
}

/// The CONTACT frame for a cached contact.
pub fn contact_record_bytes(c: &CachedContact, now: u32) -> (r: Vec<u8>)
    ensures
        r@ == contact_record(c@, now),
{
    let mut r: Vec<u8> = Vec::new();
    r.push(0x03);
    push_padded(&mut r, c.public_key.as_slice(), 32);
    r.push(c.contact_type as u8);
    r.push(0);
    r.push(0);
    push_zeros(&mut r, 64);
    push_padded(&mut r, c.name.as_str().as_bytes(), 32);
    let last_advert = match c.last_advert {
        Some(v) => v,
        None => now as i64,
    };
    push_u32_le(&mut r, last_advert as u32);
    let lat = match c.lat {
        Some(v) => v,
        None => 0,
    };
    let lon = match c.lon {
        Some(v) => v,
        None => 0,
    };
    push_i32_le(&mut r, lat);
    push_i32_le(&mut r, lon);
    push_zeros(&mut r, 4);
    assert(r@ =~= contact_record(c@, now));
    r
}

/// The CONTACT_START frame for `count` contacts.
pub fn contacts_start_bytes(count: u32) -> (r: Vec<u8>)
    ensures
        r@ == contacts_start(count),
{
    let mut r: Vec<u8> = Vec::new();
    r.push(0x02);
    push_u32_le(&mut r, count);
    assert(r@ =~= contacts_start(count));
    r
}

/// The CONTACT_END frame stamped `now`.
pub fn contacts_end_bytes(now: u32) -> (r: Vec<u8>)
    ensures
        r@ == contacts_end(now),
{
    let mut r: Vec<u8> = Vec::new();
    r.push(0x04);
    push_u32_le(&mut r, now);
    assert(r@ =~= contacts_end(now));
    r
}

/// The CHANNEL_INFO frame for a cached channel.
pub fn channel_record_bytes(ch: &CachedChannel) -> (r: Vec<u8>)
    ensures
        r@ == channel_record(ch@),
{
    let mut r: Vec<u8> = Vec::new();
    r.push(0x12);
    r.push(ch.idx as u8);
    push_padded(&mut r, ch.name.as_str().as_bytes(), 32);
    match &ch.config {
        Some(secret) => push_padded(&mut r, secret.as_slice(), 16),
        None => push_zeros(&mut r, 16),
    }
    proof {
        if ch.config is None {
            assert(padded(Seq::<u8>::empty(), 16) =~= zeros(16));
        }
    }
    assert(r@ =~= channel_record(ch@));
    r
}

/// The CONTACT_MSG_RECV echo of a message.
pub fn contact_echo_bytes(from: &[u8], txt_type: u8, timestamp: &[u8], text: &str) -> (r: Vec<u8>)
    ensures
        r@ == contact_echo(from@, txt_type, timestamp@, text@),
{
    let mut r: Vec<u8> = Vec::new();
    r.push(0x07);
    r.extend_from_slice(from);
    r.push(0);
    r.push(txt_type);
    r.extend_from_slice(timestamp);
    r.extend_from_slice(text.as_bytes());
    assert(r@ =~= contact_echo(from@, txt_type, timestamp@, text@));
    r
}

/// The CHANNEL_MSG_RECV echo of a message.
pub fn channel_echo_bytes(channel: u8, timestamp: &[u8], text: &str) -> (r: Vec<u8>)
    ensures
        r@ == channel_echo(channel, timestamp@, text@),
{
    let mut r: Vec<u8> = Vec::new();
    r.push(0x08);
    r.push(channel);
    r.push(0);
    r.push(0);
    r.extend_from_slice(timestamp);
    r.extend_from_slice(text.as_bytes());
    assert(r@ =~= channel_echo(channel, timestamp@, text@));
    r
}

} // verus!
