//! The records that the cache stores: contacts, channels and messages.
//! The store itself (SQLite) lives outside the library; these are the
//! values that pass between it and the router.

use vstd::prelude::*;

verus! {

/// A cached contact. `lat` and `lon` are in millionths of a degree, as the
/// radio sends them.
#[derive(Debug, Clone)]
pub struct CachedContact {
    pub public_key: Vec<u8>,
    pub name: String,
    pub contact_type: i64,
    pub last_advert: Option<i64>,
    pub lat: Option<i32>,
    pub lon: Option<i32>,
}

/// A cached contact, as contracts see it.
pub struct ContactView {
    pub public_key: Seq<u8>,
    pub name: Seq<char>,
    pub contact_type: i64,
    pub last_advert: Option<i64>,
    pub lat: Option<i32>,
    pub lon: Option<i32>,
}

impl View for CachedContact {
    type V = ContactView;

    open spec fn view(&self) -> ContactView {
        ContactView {
            public_key: self.public_key@,
            name: self.name@,
            contact_type: self.contact_type,
            last_advert: self.last_advert,
            lat: self.lat,
            lon: self.lon,
        }
    }
}

/// A cached channel: its index, its name and its secret.
#[derive(Debug, Clone)]
pub struct CachedChannel {
    pub idx: i64,
    pub name: String,
    pub config: Option<Vec<u8>>,
}

/// A cached channel, as contracts see it.
pub struct ChannelView {
    pub idx: i64,
    pub name: Seq<char>,
    pub config: Option<Seq<u8>>,
}

impl View for CachedChannel {
    type V = ChannelView;

    open spec fn view(&self) -> ChannelView {
        ChannelView {
            idx: self.idx,
            name: self.name@,
            config: match &self.config {
                Some(c) => Some(c@),
                None => None,
            },
        }
    }
}

/// Whether a stored message came from a contact or a channel.
#[derive(Debug, Clone, Copy, PartialEq, Eq, Structural)]
pub enum MessageKind {
    Contact,
    Channel,
}

impl MessageKind {
    /// The name the store files the message under.
    pub fn as_str(&self) -> (s: &'static str)
        ensures
            s@ == message_kind_name(*self),
    {
        match self {
            MessageKind::Contact => "contact",
            MessageKind::Channel => "channel",
        }
    }
}

/// The name the store files a message kind under.
pub open spec fn message_kind_name(k: MessageKind) -> Seq<char> {
    match k {
        MessageKind::Contact => "contact"@,
        MessageKind::Channel => "channel"@,
    }
}

/// A message to store.
#[derive(Debug, Clone)]
pub struct MessageRecord {
    pub kind: MessageKind,
    pub from_key: Option<Vec<u8>>,
    pub channel_idx: Option<i64>,
    pub text: String,
    pub timestamp: i64,
}

/// A message to store, as contracts see it.
pub struct MessageView {
    pub kind: MessageKind,
    pub from_key: Option<Seq<u8>>,
    pub channel_idx: Option<i64>,
    pub text: Seq<char>,
    pub timestamp: i64,
}

impl View for MessageRecord {
    type V = MessageView;

    open spec fn view(&self) -> MessageView {
        MessageView {
            kind: self.kind,
            from_key: match &self.from_key {
                Some(k) => Some(k@),
                None => None,
            },
            channel_idx: self.channel_idx,
            text: self.text@,
            timestamp: self.timestamp,
        }
    }
}

} // verus!
