//! Decoding of command and response payloads into named fields, for the
//! event log.
//!
//! A decoded payload is a map from field names to values. Numbers that the
//! log shows as fractions (frequencies, coordinates) are kept exactly, as a
//! numerator over a power of ten.

use vstd::prelude::*;
use vstd::slice::slice_subrange;

use super::wire::{i32_le_at, read_i32_le, read_u16_le, read_u32_le, u16_le_at, u32_le_at};
use crate::text::{
    hex_encode, hex_lower, lemma_hex_lower, lenient_text, trim_nul_end, trim_trailing_nul, utf8_lossy,
};

verus! {

/// The name of a decoded field. The variants stand in the alphabetical
/// order of their names.
#[derive(Clone, Copy, Debug, PartialEq, Eq, Structural)]
pub enum FieldKey {
    Ack,
    AckCode,
    App,
    Attempt,
    BwKhz,
    Channel,
    ChannelIdx,
    ContactCount,
    Cr,
    ErrorCode,
    ExpectedAck,
    FreqMhz,
    From,
    FwBuild,
    FwVersion,
    LastAdvert,
    Lastmod,
    Lat,
    LevelMv,
    Login,
    Lon,
    MaxChannels,
    MaxContacts,
    MessagesAvailable,
    MessagesWaiting,
    Model,
    MsgType,
    Name,
    Password,
    PathLen,
    Pin,
    Psk,
    PublicKey,
    Query,
    Sf,
    StatsType,
    Status,
    Target,
    Text,
    Time,
    TimeoutMs,
    Timestamp,
    To,
    TotalKb,
    TxPower,
    Type,
    UsedKb,
    Value,
    Version,
}

/// The name of `k`, as the decoded map keys it.
pub open spec fn key_name(k: FieldKey) -> Seq<char> {
    match k {
        FieldKey::Ack => "ack"@,
        FieldKey::AckCode => "ack_code"@,
        FieldKey::App => "app"@,
        FieldKey::Attempt => "attempt"@,
        FieldKey::BwKhz => "bw_khz"@,
        FieldKey::Channel => "channel"@,
        FieldKey::ChannelIdx => "channel_idx"@,
        FieldKey::ContactCount => "contact_count"@,
        FieldKey::Cr => "cr"@,
        FieldKey::ErrorCode => "error_code"@,
        FieldKey::ExpectedAck => "expected_ack"@,
        FieldKey::FreqMhz => "freq_mhz"@,
        FieldKey::From => "from"@,
        FieldKey::FwBuild => "fw_build"@,
        FieldKey::FwVersion => "fw_version"@,
        FieldKey::LastAdvert => "last_advert"@,
        FieldKey::Lastmod => "lastmod"@,
        FieldKey::Lat => "lat"@,
        FieldKey::LevelMv => "level_mv"@,
        FieldKey::Login => "login"@,
        FieldKey::Lon => "lon"@,
        FieldKey::MaxChannels => "max_channels"@,
        FieldKey::MaxContacts => "max_contacts"@,
        FieldKey::MessagesAvailable => "messages_available"@,
        FieldKey::MessagesWaiting => "messages_waiting"@,
        FieldKey::Model => "model"@,
        FieldKey::MsgType => "msg_type"@,
        FieldKey::Name => "name"@,
        FieldKey::Password => "password"@,
        FieldKey::PathLen => "path_len"@,
        FieldKey::Pin => "pin"@,
        FieldKey::Psk => "psk"@,
        FieldKey::PublicKey => "public_key"@,
        FieldKey::Query => "query"@,
        FieldKey::Sf => "sf"@,
        FieldKey::StatsType => "stats_type"@,
        FieldKey::Status => "status"@,
        FieldKey::Target => "target"@,
        FieldKey::Text => "text"@,
        FieldKey::Time => "time"@,
        FieldKey::TimeoutMs => "timeout_ms"@,
        FieldKey::Timestamp => "timestamp"@,
        FieldKey::To => "to"@,
        FieldKey::TotalKb => "total_kb"@,
        FieldKey::TxPower => "tx_power"@,
        FieldKey::Type => "type"@,
        FieldKey::UsedKb => "used_kb"@,
        FieldKey::Value => "value"@,
        FieldKey::Version => "version"@,
    }
}

/// The field name of alphabetical rank `r`.
pub open spec fn key_of_rank(r: int) -> FieldKey {
    if r == 0 {
        FieldKey::Ack
    } else if r == 1 {
        FieldKey::AckCode
    } else if r == 2 {
        FieldKey::App
    } else if r == 3 {
        FieldKey::Attempt
    } else if r == 4 {
        FieldKey::BwKhz
    } else if r == 5 {
        FieldKey::Channel
    } else if r == 6 {
        FieldKey::ChannelIdx
    } else if r == 7 {
        FieldKey::ContactCount
    } else if r == 8 {
        FieldKey::Cr
    } else if r == 9 {
        FieldKey::ErrorCode
    } else if r == 10 {
        FieldKey::ExpectedAck
    } else if r == 11 {
        FieldKey::FreqMhz
    } else if r == 12 {
        FieldKey::From
    } else if r == 13 {
        FieldKey::FwBuild
    } else if r == 14 {
        FieldKey::FwVersion
    } else if r == 15 {
        FieldKey::LastAdvert
    } else if r == 16 {
        FieldKey::Lastmod
    } else if r == 17 {
        FieldKey::Lat
    } else if r == 18 {
        FieldKey::LevelMv
    } else if r == 19 {
        FieldKey::Login
    } else if r == 20 {
        FieldKey::Lon
    } else if r == 21 {
        FieldKey::MaxChannels
    } else if r == 22 {
        FieldKey::MaxContacts
    } else if r == 23 {
        FieldKey::MessagesAvailable
    } else if r == 24 {
        FieldKey::MessagesWaiting
    } else if r == 25 {
        FieldKey::Model
    } else if r == 26 {
        FieldKey::MsgType
    } else if r == 27 {
        FieldKey::Name
    } else if r == 28 {
        FieldKey::Password
    } else if r == 29 {
        FieldKey::PathLen
    } else if r == 30 {
        FieldKey::Pin
    } else if r == 31 {
        FieldKey::Psk
    } else if r == 32 {
        FieldKey::PublicKey
    } else if r == 33 {
        FieldKey::Query
    } else if r == 34 {
        FieldKey::Sf
    } else if r == 35 {
        FieldKey::StatsType
    } else if r == 36 {
        FieldKey::Status
    } else if r == 37 {
        FieldKey::Target
    } else if r == 38 {
        FieldKey::Text
    } else if r == 39 {
        FieldKey::Time
    } else if r == 40 {
        FieldKey::TimeoutMs
    } else if r == 41 {
        FieldKey::Timestamp
    } else if r == 42 {
        FieldKey::To
    } else if r == 43 {
        FieldKey::TotalKb
    } else if r == 44 {
        FieldKey::TxPower
    } else if r == 45 {
        FieldKey::Type
    } else if r == 46 {
        FieldKey::UsedKb
    } else if r == 47 {
        FieldKey::Value
    } else {
        FieldKey::Version
    }
}

/// The number of field names.
pub const NUM_FIELD_KEYS: usize = 49;

/// Every field name, in alphabetical order.
pub open spec fn all_keys() -> Seq<FieldKey> {
    Seq::new(NUM_FIELD_KEYS as nat, |r: int| key_of_rank(r))
}

impl FieldKey {
    /// The name of this field.
    pub fn as_str(&self) -> (s: &'static str)
        ensures
            s@ == key_name(*self),
    {
        match self {
            FieldKey::Ack => "ack",
            FieldKey::AckCode => "ack_code",
            FieldKey::App => "app",
            FieldKey::Attempt => "attempt",
            FieldKey::BwKhz => "bw_khz",
            FieldKey::Channel => "channel",
            FieldKey::ChannelIdx => "channel_idx",
            FieldKey::ContactCount => "contact_count",
            FieldKey::Cr => "cr",
            FieldKey::ErrorCode => "error_code",
            FieldKey::ExpectedAck => "expected_ack",
            FieldKey::FreqMhz => "freq_mhz",
            FieldKey::From => "from",
            FieldKey::FwBuild => "fw_build",
            FieldKey::FwVersion => "fw_version",
            FieldKey::LastAdvert => "last_advert",
            FieldKey::Lastmod => "lastmod",
            FieldKey::Lat => "lat",
            FieldKey::LevelMv => "level_mv",
            FieldKey::Login => "login",
            FieldKey::Lon => "lon",
            FieldKey::MaxChannels => "max_channels",
            FieldKey::MaxContacts => "max_contacts",
            FieldKey::MessagesAvailable => "messages_available",
            FieldKey::MessagesWaiting => "messages_waiting",
            FieldKey::Model => "model",
            FieldKey::MsgType => "msg_type",
            FieldKey::Name => "name",
            FieldKey::Password => "password",
            FieldKey::PathLen => "path_len",
            FieldKey::Pin => "pin",
            FieldKey::Psk => "psk",
            FieldKey::PublicKey => "public_key",
            FieldKey::Query => "query",
            FieldKey::Sf => "sf",
            FieldKey::StatsType => "stats_type",
            FieldKey::Status => "status",
            FieldKey::Target => "target",
            FieldKey::Text => "text",
            FieldKey::Time => "time",
            FieldKey::TimeoutMs => "timeout_ms",
            FieldKey::Timestamp => "timestamp",
            FieldKey::To => "to",
            FieldKey::TotalKb => "total_kb",
            FieldKey::TxPower => "tx_power",
            FieldKey::Type => "type",
            FieldKey::UsedKb => "used_kb",
            FieldKey::Value => "value",
            FieldKey::Version => "version",
        }
    }
}

/// The field name of alphabetical rank `r`.
pub fn field_key_of_rank(r: usize) -> (k: FieldKey)
    requires
        r < NUM_FIELD_KEYS,
    ensures
        k == key_of_rank(r as int),
{
    match r {
        0 => FieldKey::Ack,
        1 => FieldKey::AckCode,
        2 => FieldKey::App,
        3 => FieldKey::Attempt,
        4 => FieldKey::BwKhz,
        5 => FieldKey::Channel,
        6 => FieldKey::ChannelIdx,
        7 => FieldKey::ContactCount,
        8 => FieldKey::Cr,
        9 => FieldKey::ErrorCode,
        10 => FieldKey::ExpectedAck,
        11 => FieldKey::FreqMhz,
        12 => FieldKey::From,
        13 => FieldKey::FwBuild,
        14 => FieldKey::FwVersion,
        15 => FieldKey::LastAdvert,
        16 => FieldKey::Lastmod,
        17 => FieldKey::Lat,
        18 => FieldKey::LevelMv,
        19 => FieldKey::Login,
        20 => FieldKey::Lon,
        21 => FieldKey::MaxChannels,
        22 => FieldKey::MaxContacts,
        23 => FieldKey::MessagesAvailable,
        24 => FieldKey::MessagesWaiting,
        25 => FieldKey::Model,
        26 => FieldKey::MsgType,
        27 => FieldKey::Name,
        28 => FieldKey::Password,
        29 => FieldKey::PathLen,
        30 => FieldKey::Pin,
        31 => FieldKey::Psk,
        32 => FieldKey::PublicKey,
        33 => FieldKey::Query,
        34 => FieldKey::Sf,
        35 => FieldKey::StatsType,
        36 => FieldKey::Status,
        37 => FieldKey::Target,
        38 => FieldKey::Text,
        39 => FieldKey::Time,
        40 => FieldKey::TimeoutMs,
        41 => FieldKey::Timestamp,
        42 => FieldKey::To,
        43 => FieldKey::TotalKb,
        44 => FieldKey::TxPower,
        45 => FieldKey::Type,
        46 => FieldKey::UsedKb,
        47 => FieldKey::Value,
        _ => FieldKey::Version,
    }
}

/// A decoded value, as contracts see it.
pub enum ValueView {
    String(Seq<char>),
    Integer(int),
    /// The number `raw / scale`.
    Float { raw: int, scale: nat },
    Bool(bool),
    Bytes(Seq<u8>),
    StringMap(Seq<(Seq<char>, Seq<char>)>),
}

/// A decoded value. `Float` is the fraction `raw / scale`; the log shows it
/// with two decimals.
#[derive(Debug, Clone)]
pub enum DecodedValue {
    String(String),
    Integer(i64),
    Float { raw: i64, scale: u32 },
    Bool(bool),
    Bytes(Vec<u8>),
    StringMap(Vec<(String, String)>),
}

impl View for DecodedValue {
    type V = ValueView;

    open spec fn view(&self) -> ValueView {
        match self {
            DecodedValue::String(s) => ValueView::String(s@),
            DecodedValue::Integer(i) => ValueView::Integer(*i as int),
            DecodedValue::Float { raw, scale } => ValueView::Float {
                raw: *raw as int,
                scale: *scale as nat,
            },
            DecodedValue::Bool(b) => ValueView::Bool(*b),
            DecodedValue::Bytes(b) => ValueView::Bytes(b@),
            DecodedValue::StringMap(m) => ValueView::StringMap(
                m@.map_values(|e: (String, String)| (e.0@, e.1@)),
            ),
        }
    }
}

/// The views of a list of entries.
pub open spec fn entry_views(v: Seq<(FieldKey, DecodedValue)>) -> Seq<(FieldKey, ValueView)> {
    v.map_values(|e: (FieldKey, DecodedValue)| (e.0, e.1@))
}

/// The map that inserting `e` in order into an empty map gives (a later
/// entry for a key replaces an earlier one).
pub open spec fn entries_map(e: Seq<(FieldKey, ValueView)>) -> Map<FieldKey, ValueView>
    decreases e.len(),
{
    if e.len() == 0 {
        Map::empty()
    } else {
        entries_map(e.drop_last()).insert(e.last().0, e.last().1)
    }
}

/// The last entry with key `k`, at `j`, gives the value of `k`.
proof fn lemma_entries_lookup(e: Seq<(FieldKey, ValueView)>, k: FieldKey, j: int)
    requires
        0 <= j < e.len(),
        e[j].0 == k,
        forall|i: int| j < i < e.len() ==> #[trigger] e[i].0 != k,
    ensures
        entries_map(e).contains_key(k),
        entries_map(e)[k] == e[j].1,
    decreases e.len(),
{
    if j < e.len() - 1 {
        assert(e.last() == e[e.len() - 1]);
        lemma_entries_lookup(e.drop_last(), k, j);
    }
}

/// With no entry for `k`, the map has no `k`.
proof fn lemma_entries_absent(e: Seq<(FieldKey, ValueView)>, k: FieldKey)
    requires
        forall|i: int| 0 <= i < e.len() ==> #[trigger] e[i].0 != k,
    ensures
        !entries_map(e).contains_key(k),
    decreases e.len(),
{
    if e.len() > 0 {
        assert(e.last() == e[e.len() - 1]);
        lemma_entries_absent(e.drop_last(), k);
    }
}

/// The fields decoded from one payload.
#[derive(Debug, Clone)]
pub struct DecodedMap {
    entries: Vec<(FieldKey, DecodedValue)>,
}

impl View for DecodedMap {
    type V = Map<FieldKey, ValueView>;

    closed spec fn view(&self) -> Map<FieldKey, ValueView> {
        entries_map(entry_views(self.entries@))
    }
}

impl DecodedMap {
    /// A map with no field.
    pub fn new() -> (m: Self)
        ensures
            m@ == Map::<FieldKey, ValueView>::empty(),
    {
        let m = DecodedMap { entries: Vec::new() };
        assert(entry_views(m.entries@) =~= Seq::<(FieldKey, ValueView)>::empty());
        m
    }

    /// Sets field `k` to `v`.
    pub fn insert(&mut self, k: FieldKey, v: DecodedValue)
        ensures
            final(self)@ == old(self)@.insert(k, v@),
            final(self)@.contains_key(k),
    {
        let ghost before = entry_views(self.entries@);
        self.entries.push((k, v));
        assert(entry_views(self.entries@).drop_last() =~= before);
    }

    /// Whether no field is set.
    pub fn is_empty(&self) -> (r: bool)
        ensures
            r <==> forall|k: FieldKey| !#[trigger] self@.contains_key(k),
    {
        let r = self.entries.len() == 0;
        proof {
            let e = entry_views(self.entries@);
            if !r {
                assert(e.last() == e[e.len() - 1]);
                assert(self@.contains_key(e.last().0));
            }
        }
        r
    }

    /// The value of field `k`, if it is set.
    pub fn get(&self, k: FieldKey) -> (r: Option<&DecodedValue>)
        ensures
            r is Some <==> self@.contains_key(k),
            r matches Some(v) ==> v@ == self@[k],
    {
        let ghost e = entry_views(self.entries@);
        let mut i = self.entries.len();
        while i > 0
            invariant
                i <= self.entries@.len(),
                e == entry_views(self.entries@),
                forall|t: int| i <= t < e.len() ==> #[trigger] e[t].0 != k,
            decreases i,
        {
            i = i - 1;
            if self.entries[i].0 == k {
                proof {
                    lemma_entries_lookup(e, k, i as int);
                }
                return Some(&self.entries[i].1);
            }
        }
        proof {
            lemma_entries_absent(e, k);
        }
        None
    }

    /// The fields to show, in the order the log shows them: `name` first,
    /// then the others in alphabetical order, leaving out fractions that
    /// are zero.
    pub fn display_keys(&self) -> (keys: Vec<FieldKey>)
        ensures
            keys@ == display_keys_of(self@),
    {
        let mut keys: Vec<FieldKey> = Vec::new();
        match self.get(FieldKey::Name) {
            Some(v) => {
                if !is_zero_fraction(v) {
                    keys.push(FieldKey::Name);
                }
            },
            None => {},
        }
        let ghost lead = keys@;
        let ghost pred = shown_after_name(self@);
        for i in 0..NUM_FIELD_KEYS
            invariant
                lead == (if shown(self@, FieldKey::Name) {
                    seq![FieldKey::Name]
                } else {
                    Seq::<FieldKey>::empty()
                }),
                pred == shown_after_name(self@),
                keys@ == lead + all_keys().take(i as int).filter(pred),
        {
            reveal_with_fuel(Seq::<_>::filter, 1);
            let k = field_key_of_rank(i);
            let ghost before = all_keys().take(i as int).filter(pred);
            let ghost t = all_keys().take(i + 1);
            assert(t.last() == k);
            assert(t.drop_last() =~= all_keys().take(i as int));
            assert(t.filter(pred) == (if pred(k) {
                before.push(k)
            } else {
                before
            }));
            if k != FieldKey::Name {
                match self.get(k) {
                    Some(v) => {
                        if !is_zero_fraction(v) {
                            keys.push(k);
                        }
                    },
                    None => {},
                }
            }
            assert(lead + before.push(k) =~= (lead + before).push(k));
        }
        assert(all_keys().take(NUM_FIELD_KEYS as int) =~= all_keys());
        keys
    }
}

/// Whether `v` is a fraction equal to zero.
pub open spec fn is_zero(v: ValueView) -> bool {
    match v {
        ValueView::Float { raw, .. } => raw == 0,
        _ => false,
    }
}

/// Whether the log shows field `k` of `m`.
pub open spec fn shown(m: Map<FieldKey, ValueView>, k: FieldKey) -> bool {
    m.contains_key(k) && !is_zero(m[k])
}

/// The fields of `m` the log shows, in its order: `name` first, then the
/// rest alphabetically.
pub open spec fn display_keys_of(m: Map<FieldKey, ValueView>) -> Seq<FieldKey> {
    (if shown(m, FieldKey::Name) {
        seq![FieldKey::Name]
    } else {
        Seq::<FieldKey>::empty()
    }) + all_keys().filter(shown_after_name(m))
}

/// Whether the log shows field `k` of `m` among the fields after `name`.
pub open spec fn shown_after_name(m: Map<FieldKey, ValueView>) -> spec_fn(FieldKey) -> bool {
    |k: FieldKey| k != FieldKey::Name && shown(m, k)
}

/// Whether `v` is a fraction equal to zero.
pub fn is_zero_fraction(v: &DecodedValue) -> (r: bool)
    ensures
        r == is_zero(v@),
{
    match v {
        DecodedValue::Float { raw, .. } => *raw == 0,
        _ => false,
    }
}

/// The position of the first zero byte of `s`, if there is one.
pub open spec fn first_zero(s: Seq<u8>) -> Option<int>
    decreases s.len(),
{
    if s.len() == 0 {
        None
    } else if s[0] == 0 {
        Some(0)
    } else {
        match first_zero(s.drop_first()) {
            Some(i) => Some(i + 1),
            None => None,
        }
    }
}

/// `first_zero` finds the first zero byte, and `None` means there is none.
pub(crate) proof fn lemma_first_zero_found(s: Seq<u8>)
    ensures
        first_zero(s) matches Some(i) ==> 0 <= i < s.len() && s[i] == 0 && forall|t: int|
            0 <= t < i ==> #[trigger] s[t] != 0,
        first_zero(s) is None ==> forall|t: int| 0 <= t < s.len() ==> #[trigger] s[t] != 0,
    decreases s.len(),
{
    if s.len() > 0 && s[0] != 0 {
        let w = s.drop_first();
        lemma_first_zero_found(w);
        match first_zero(w) {
            Some(i) => {
                assert(s[i + 1] == w[i]);
                assert forall|t: int| 0 <= t < i + 1 implies #[trigger] s[t] != 0 by {
                    if t > 0 {
                        assert(s[t] == w[t - 1]);
                    }
                }
            },
            None => {
                assert forall|t: int| 0 <= t < s.len() implies #[trigger] s[t] != 0 by {
                    if t > 0 {
                        assert(s[t] == w[t - 1]);
                    }
                }
            },
        }
    }
}

/// With no zero before `j`, the first zero is at `j` when `s[j]` is zero,
/// and there is none when `j` is the end.
proof fn lemma_first_zero(s: Seq<u8>, j: int)
    requires
        0 <= j <= s.len(),
        forall|t: int| 0 <= t < j ==> #[trigger] s[t] != 0,
    ensures
        j < s.len() && s[j] == 0 ==> first_zero(s) == Some(j),
        j == s.len() ==> first_zero(s) is None,
    decreases j,
{
    if j > 0 {
        assert forall|t: int| 0 <= t < j - 1 implies #[trigger] s.drop_first()[t] != 0 by {
            assert(s.drop_first()[t] == s[t + 1]);
        }
        lemma_first_zero(s.drop_first(), j - 1);
    }
}

/// The position of the first zero byte of `p[from..to]`, counted from `from`.
pub fn find_zero_in(p: &[u8], from: usize, to: usize) -> (r: Option<usize>)
    requires
        from <= to <= p@.len(),
    ensures
        match r {
            Some(i) => first_zero(p@.subrange(from as int, to as int)) == Some(i as int),
            None => first_zero(p@.subrange(from as int, to as int)) is None,
        },
        r matches Some(i) ==> i < to - from,
{
    let ghost s = p@.subrange(from as int, to as int);
    let mut i = from;
    while i < to
        invariant
            from <= i <= to <= p@.len(),
            s == p@.subrange(from as int, to as int),
            forall|t: int| 0 <= t < i - from ==> #[trigger] s[t] != 0,
        decreases to - i,
    {
        if p[i] == 0 {
            proof {
                lemma_first_zero(s, i - from);
            }
            return Some(i - from);
        }
        i = i + 1;
    }
    proof {
        lemma_first_zero(s, i - from);
    }
    None
}

/// The characters of `p[a..b]`, decoded leniently.
pub open spec fn text_at(p: Seq<u8>, a: int, b: int) -> ValueView {
    ValueView::String(lenient_text(p.subrange(a, b)))
}

/// The characters of `p[a..b]`, decoded leniently, without the `'\0'` at the end.
pub open spec fn trimmed_at(p: Seq<u8>, a: int, b: int) -> ValueView {
    ValueView::String(trim_trailing_nul(lenient_text(p.subrange(a, b))))
}

/// Lowercase hex of `p[a..b]`.
pub open spec fn hex_at(p: Seq<u8>, a: int, b: int) -> ValueView {
    ValueView::String(hex_lower(p.subrange(a, b)))
}

/// The first twelve hex digits of `p[a..b]`, then `...`.
pub open spec fn short_key_at(p: Seq<u8>, a: int, b: int) -> ValueView {
    ValueView::String(hex_lower(p.subrange(a, b)).take(12) + "..."@)
}

/// A number.
pub open spec fn num(i: int) -> ValueView {
    ValueView::Integer(i)
}

/// A fixed piece of text.
pub open spec fn word(s: Seq<char>) -> ValueView {
    ValueView::String(s)
}

/// The fraction `raw / scale`.
pub open spec fn fraction(raw: int, scale: nat) -> ValueView {
    ValueView::Float { raw, scale }
}

/// The characters of `p[from..to]`, decoded leniently.
fn lossy_range(p: &[u8], from: usize, to: usize) -> (s: String)
    requires
        from <= to <= p@.len(),
    ensures
        s@ == lenient_text(p@.subrange(from as int, to as int)),
{
    utf8_lossy(slice_subrange(p, from, to))
}

/// The characters of `p[from..to]`, decoded leniently, without the zeros at
/// the end.
fn trimmed_range(p: &[u8], from: usize, to: usize) -> (s: String)
    requires
        from <= to <= p@.len(),
    ensures
        s@ == trim_trailing_nul(lenient_text(p@.subrange(from as int, to as int))),
{
    let t = lossy_range(p, from, to);
    trim_nul_end(t.as_str())
}

/// The lowercase hex of `p[from..to]`.
fn hex_range(p: &[u8], from: usize, to: usize) -> (s: String)
    requires
        from <= to <= p@.len(),
    ensures
        s@ == hex_lower(p@.subrange(from as int, to as int)),
{
    hex_encode(slice_subrange(p, from, to))
}

/// The first six bytes of a key in hex, then `...`.
fn short_key_range(p: &[u8], from: usize, to: usize) -> (v: DecodedValue)
    requires
        from + 6 <= to <= p@.len(),
    ensures
        v@ == short_key_at(p@, from as int, to as int),
{
    let h = hex_range(p, from, to);
    proof {
        lemma_hex_lower(p@.subrange(from as int, to as int));
    }
    let head = h.as_str().substring_ascii(0, 12);
    DecodedValue::String(String::from_str(head).concat("..."))
}

/// A text value holding `s`.
fn word_value(s: &str) -> (v: DecodedValue)
    ensures
        v@ == word(s@),
{
    DecodedValue::String(String::from_str(s))
}

/// The name of a statistics kind.
pub open spec fn stats_name(b: u8) -> Seq<char> {
    if b == 0 {
        "core"@
    } else if b == 1 {
        "radio"@
    } else if b == 2 {
        "packets"@
    } else {
        "unknown"@
    }
}

/// The name of a contact type.
pub open spec fn contact_type_name(b: u8) -> Seq<char> {
    if b == 0 {
        "node"@
    } else if b == 1 {
        "repeater"@
    } else if b == 2 {
        "room"@
    } else {
        "unknown"@
    }
}

/// The name of an advertisement type.
pub open spec fn advert_type_name(b: u8) -> Seq<char> {
    if b == 0 {
        "node"@
    } else if b == 1 {
        "client"@
    } else if b == 2 {
        "repeater"@
    } else if b == 3 {
        "room"@
    } else {
        "unknown"@
    }
}

/// The name of the text type of a direct message.
pub open spec fn text_type_name(b: u8) -> Seq<char> {
    if b == 0 {
        "text"@
    } else if b == 1 {
        "command"@
    } else if b == 2 {
        "signed"@
    } else {
        "unknown"@
    }
}

/// The name of the text type of a channel message.
pub open spec fn channel_text_type_name(b: u8) -> Seq<char> {
    if b == 0 {
        "text"@
    } else if b == 1 {
        "command"@
    } else {
        "unknown"@
    }
}

/// The name of a statistics kind.
fn stats_name_of(b: u8) -> (s: &'static str)
    ensures
        s@ == stats_name(b),
{
    match b {
        0 => "core",
        1 => "radio",
        2 => "packets",
        _ => "unknown",
    }
}

/// The name of a contact type.
fn contact_type_name_of(b: u8) -> (s: &'static str)
    ensures
        s@ == contact_type_name(b),
{
    match b {
        0 => "node",
        1 => "repeater",
        2 => "room",
        _ => "unknown",
    }
}

/// The name of an advert type.
fn advert_type_name_of(b: u8) -> (s: &'static str)
    ensures
        s@ == advert_type_name(b),
{
    match b {
        0 => "node",
        1 => "client",
        2 => "repeater",
        3 => "room",
        _ => "unknown",
    }
}

/// The name of a text type in a contact message.
fn text_type_name_of(b: u8) -> (s: &'static str)
    ensures
        s@ == text_type_name(b),
{
    match b {
        0 => "text",
        1 => "command",
        2 => "signed",
        _ => "unknown",
    }
}

/// The name of a text type in a channel message.
fn channel_text_type_name_of(b: u8) -> (s: &'static str)
    ensures
        s@ == channel_text_type_name(b),
{
    match b {
        0 => "text",
        1 => "command",
        _ => "unknown",
    }
}

/// The view of what a decoder returns.
pub open spec fn decoded_view(r: Option<DecodedMap>) -> Option<Map<FieldKey, ValueView>> {
    match r {
        Some(m) => Some(m@),
        None => None,
    }
}

/// Whether decoding a command of `code` with a payload of `len` bytes stays
/// within the payload. (A lastmod command of two to four bytes reads past
/// its end.)
pub open spec fn command_decodable(code: u8, len: nat) -> bool {
    !(code == 0x04 && 1 < len < 5)
}

/// Whether decoding a response of `code` with a payload of `len` bytes stays
/// within the payload. (A nine-byte MSG_SENT and a CHANNEL_INFO of three to
/// thirty-three bytes read past their end.)
pub open spec fn response_decodable(code: u8, len: nat) -> bool {
    !(code == 0x06 && len == 9) && !(code == 0x12 && 2 < len < 34)
}

/// Whether `decode_command_payload` can decode a command of `code` with a
/// payload of `len` bytes.
pub fn command_is_decodable(code: u8, len: usize) -> (r: bool)
    ensures
        r == command_decodable(code, len as nat),
{
    !(code == 0x04 && 1 < len && len < 5)
}

/// Whether `decode_response_payload` can decode a response of `code` with a
/// payload of `len` bytes.
pub fn response_is_decodable(code: u8, len: usize) -> (r: bool)
    ensures
        r == response_decodable(code, len as nat),
{
    !(code == 0x06 && len == 9) && !(code == 0x12 && 2 < len && len < 34)
}

/// The fields of a command payload (whose first byte is the command code),
/// or `None` when the payload is empty or yields no field.
pub open spec fn decode_command_spec(code: u8, p: Seq<u8>) -> Option<Map<FieldKey, ValueView>> {
    let n = p.len() as int;
    if n == 0 {
        None
    } else if code == 0x01 && n >= 3 {
        Some(map![FieldKey::Version => num(p[1] as int), FieldKey::App => trimmed_at(p, 2, n)])
    } else if code == 0x02 && n >= 7 {
        let to = if n > 7 {
            hex_at(p, 7, if n < 13 { n } else { 13 })
        } else {
            word(Seq::empty())
        };
        let text = if n > 13 {
            text_at(p, 13, n)
        } else {
            word(Seq::empty())
        };
        Some(
            map![
                FieldKey::Type => num(p[1] as int),
                FieldKey::Attempt => num(p[2] as int),
                FieldKey::Timestamp => num(u32_le_at(p, 3)),
                FieldKey::To => to,
                FieldKey::Text => text,
            ],
        )
    } else if code == 0x03 && n >= 7 {
        let text = if n > 7 {
            text_at(p, 7, n)
        } else {
            word(Seq::empty())
        };
        Some(
            map![
                FieldKey::Channel => num(p[2] as int),
                FieldKey::Timestamp => num(u32_le_at(p, 3)),
                FieldKey::Text => text,
            ],
        )
    } else if code == 0x04 && n > 1 {
        Some(map![FieldKey::Lastmod => num(u32_le_at(p, 1))])
    } else if code == 0x06 && n >= 5 {
        Some(map![FieldKey::Time => num(u32_le_at(p, 1))])
    } else if code == 0x08 {
        Some(map![FieldKey::Name => trimmed_at(p, 1, n)])
    } else if code == 0x0B && n >= 11 {
        Some(
            map![
                FieldKey::FreqMhz => fraction(u32_le_at(p, 1), 1000),
                FieldKey::BwKhz => fraction(u32_le_at(p, 5), 1000),
                FieldKey::Sf => num(p[9] as int),
                FieldKey::Cr => num(p[10] as int),
            ],
        )
    } else if code == 0x0C && n >= 5 {
        Some(map![FieldKey::TxPower => num(u32_le_at(p, 1))])
    } else if code == 0x0E && n >= 9 {
        Some(
            map![
                FieldKey::Lat => fraction(i32_le_at(p, 1), 1_000_000),
                FieldKey::Lon => fraction(i32_le_at(p, 5), 1_000_000),
            ],
        )
    } else if code == 0x16 {
        Some(map![FieldKey::Query => word("device_info"@)])
    } else if code == 0x1A && n > 33 {
        Some(map![FieldKey::To => hex_at(p, 1, 33), FieldKey::Password => word("***"@)])
    } else if code == 0x1F && n > 1 {
        Some(map![FieldKey::ChannelIdx => num(p[1] as int)])
    } else if code == 0x20 && n > 49 {
        Some(
            map![
                FieldKey::ChannelIdx => num(p[1] as int),
                FieldKey::Name => trimmed_at(p, 2, 34),
                FieldKey::Psk => hex_at(p, 34, 50),
            ],
        )
    } else if code == 0x25 && n >= 5 {
        Some(map![FieldKey::Pin => num(u32_le_at(p, 1))])
    } else if code == 0x27 {
        if n > 4 {
            Some(map![FieldKey::Target => hex_at(p, 4, if n < 10 { n } else { 10 })])
        } else {
            Some(map![FieldKey::Target => word("self"@)])
        }
    } else if code == 0x34 && n > 2 {
        Some(map![FieldKey::Target => hex_at(p, 2, if n < 34 { n } else { 34 })])
    } else if code == 0x38 && n > 1 {
        Some(map![FieldKey::StatsType => word(stats_name(p[1]))])
    } else {
        None
    }
}

/// Decodes the fields of a command payload for the event log.
pub fn decode_command_payload(code: u8, payload: &[u8]) -> (r: Option<DecodedMap>)
    requires
        command_decodable(code, payload@.len()),
    ensures
        decoded_view(r) == decode_command_spec(code, payload@),
{
    if payload.len() == 0 {
        return None;
    }
    let n = payload.len();
    let mut map = DecodedMap::new();
    match code {
        0x01 if n >= 3 => {
            map.insert(FieldKey::Version, DecodedValue::Integer(payload[1] as i64));
            map.insert(FieldKey::App, DecodedValue::String(trimmed_range(payload, 2, n)));
        },
        0x02 if n >= 7 => {
            let msg_type = payload[1];
            let attempt = payload[2];
            let timestamp = read_u32_le(payload, 3);
            let dst = if n > 7 {
                hex_range(payload, 7, if n < 13 { n } else { 13 })
            } else {
                String::new()
            };
            let text = if n > 13 {
                lossy_range(payload, 13, n)
            } else {
                String::new()
            };
            map.insert(FieldKey::Type, DecodedValue::Integer(msg_type as i64));
            map.insert(FieldKey::Attempt, DecodedValue::Integer(attempt as i64));
            map.insert(FieldKey::Timestamp, DecodedValue::Integer(timestamp as i64));
            map.insert(FieldKey::To, DecodedValue::String(dst));
            map.insert(FieldKey::Text, DecodedValue::String(text));
        },
        0x03 if n >= 7 => {
            let channel = payload[2];
            let timestamp = read_u32_le(payload, 3);
            let text = if n > 7 {
                lossy_range(payload, 7, n)
            } else {
                String::new()
            };
            map.insert(FieldKey::Channel, DecodedValue::Integer(channel as i64));
            map.insert(FieldKey::Timestamp, DecodedValue::Integer(timestamp as i64));
            map.insert(FieldKey::Text, DecodedValue::String(text));
        },
        0x04 if n > 1 => {
            let lastmod = read_u32_le(payload, 1);
            map.insert(FieldKey::Lastmod, DecodedValue::Integer(lastmod as i64));
        },
        0x06 if n >= 5 => {
            let time = read_u32_le(payload, 1);
            map.insert(FieldKey::Time, DecodedValue::Integer(time as i64));
        },
        0x08 => {
            map.insert(FieldKey::Name, DecodedValue::String(trimmed_range(payload, 1, n)));
        },
        0x0B if n >= 11 => {
            let freq = read_u32_le(payload, 1);
            let bw = read_u32_le(payload, 5);
            map.insert(FieldKey::FreqMhz, DecodedValue::Float { raw: freq as i64, scale: 1000 });
            map.insert(FieldKey::BwKhz, DecodedValue::Float { raw: bw as i64, scale: 1000 });
            map.insert(FieldKey::Sf, DecodedValue::Integer(payload[9] as i64));
            map.insert(FieldKey::Cr, DecodedValue::Integer(payload[10] as i64));
        },
        0x0C if n >= 5 => {
            let power = read_u32_le(payload, 1);
            map.insert(FieldKey::TxPower, DecodedValue::Integer(power as i64));
        },
        0x0E if n >= 9 => {
            let lat = read_i32_le(payload, 1);
            let lon = read_i32_le(payload, 5);
            map.insert(FieldKey::Lat, DecodedValue::Float { raw: lat as i64, scale: 1_000_000 });
            map.insert(FieldKey::Lon, DecodedValue::Float { raw: lon as i64, scale: 1_000_000 });
        },
        0x14 => {},
        0x16 => {
            map.insert(FieldKey::Query, word_value("device_info"));
        },
        0x1A if n > 33 => {
            map.insert(FieldKey::To, DecodedValue::String(hex_range(payload, 1, 33)));
            map.insert(FieldKey::Password, word_value("***"));
        },
        0x1F if n > 1 => {
            map.insert(FieldKey::ChannelIdx, DecodedValue::Integer(payload[1] as i64));
        },
        0x20 if n > 49 => {
            map.insert(FieldKey::ChannelIdx, DecodedValue::Integer(payload[1] as i64));
            map.insert(FieldKey::Name, DecodedValue::String(trimmed_range(payload, 2, 34)));
            map.insert(FieldKey::Psk, DecodedValue::String(hex_range(payload, 34, 50)));
        },
        0x25 if n >= 5 => {
            let pin = read_u32_le(payload, 1);
            map.insert(FieldKey::Pin, DecodedValue::Integer(pin as i64));
        },
        0x27 => {
            if n > 4 {
                let target = hex_range(payload, 4, if n < 10 { n } else { 10 });
                map.insert(FieldKey::Target, DecodedValue::String(target));
            } else {
                map.insert(FieldKey::Target, word_value("self"));
            }
        },
        0x34 if n > 2 => {
            let target = hex_range(payload, 2, if n < 34 { n } else { 34 });
            map.insert(FieldKey::Target, DecodedValue::String(target));
        },
        0x38 if n > 1 => {
            map.insert(FieldKey::StatsType, word_value(stats_name_of(payload[1])));
        },
        _ => {},
    }
    if map.is_empty() {
        None
    } else {
        Some(map)
    }
}

/// Where the name of a contact record ends: at its first zero byte from
/// offset 100 on, or 32 bytes in when there is none.
pub open spec fn contact_name_len(p: Seq<u8>) -> int {
    match first_zero(p.subrange(100, p.len() as int)) {
        Some(i) => i,
        None => 32,
    }
}

/// Where the name of a channel record ends: at its first zero byte within
/// `p[2..34]`, or 32 bytes in when there is none.
pub open spec fn channel_name_len(p: Seq<u8>) -> int {
    match first_zero(p.subrange(2, 34)) {
        Some(i) => i,
        None => 32,
    }
}

/// The fields of a response payload (whose first byte is the response
/// code), or `None` when the payload is empty or yields no field.
pub open spec fn decode_response_spec(code: u8, p: Seq<u8>) -> Option<Map<FieldKey, ValueView>> {
    let n = p.len() as int;
    if n == 0 {
        None
    } else if code == 0x00 {
        let m = map![FieldKey::Status => word("OK"@)];
        Some(
            if n == 5 {
                m.insert(FieldKey::Value, num(u32_le_at(p, 1)))
            } else {
                m
            },
        )
    } else if code == 0x01 {
        let m = map![FieldKey::Status => word("ERROR"@)];
        Some(
            if n > 1 {
                m.insert(FieldKey::ErrorCode, num(p[1] as int))
            } else {
                m
            },
        )
    } else if code == 0x02 && n >= 5 {
        Some(map![FieldKey::ContactCount => num(u32_le_at(p, 1))])
    } else if code == 0x03 && n >= 148 {
        let lat = i32_le_at(p, 136);
        let lon = i32_le_at(p, 140);
        let m = map![
            FieldKey::Name => text_at(p, 100, 100 + contact_name_len(p)),
            FieldKey::PublicKey => short_key_at(p, 1, 33),
            FieldKey::Type => word(contact_type_name(p[33])),
            FieldKey::PathLen => num(p[35] as int),
            FieldKey::LastAdvert => num(u32_le_at(p, 132)),
        ];
        let m = if lat != 0 {
            m.insert(FieldKey::Lat, fraction(lat, 1_000_000))
        } else {
            m
        };
        Some(
            if lon != 0 {
                m.insert(FieldKey::Lon, fraction(lon, 1_000_000))
            } else {
                m
            },
        )
    } else if code == 0x04 && n >= 5 {
        Some(map![FieldKey::Lastmod => num(u32_le_at(p, 1))])
    } else if code == 0x05 && n >= 52 {
        let lat = i32_le_at(p, 36);
        let lon = i32_le_at(p, 40);
        let bw = if n >= 56 {
            u32_le_at(p, 52)
        } else {
            0
        };
        let name = if n > 56 {
            trimmed_at(p, 56, n)
        } else {
            word(Seq::empty())
        };
        let m = map![
            FieldKey::Name => name,
            FieldKey::Type => word(advert_type_name(p[1])),
            FieldKey::PublicKey => short_key_at(p, 4, 36),
            FieldKey::TxPower => num(p[2] as int),
            FieldKey::FreqMhz => fraction(u32_le_at(p, 48), 1000),
            FieldKey::BwKhz => fraction(bw, 1000),
        ];
        let m = if lat != 0 {
            m.insert(FieldKey::Lat, fraction(lat, 1_000_000))
        } else {
            m
        };
        Some(
            if lon != 0 {
                m.insert(FieldKey::Lon, fraction(lon, 1_000_000))
            } else {
                m
            },
        )
    } else if code == 0x06 && n >= 9 {
        Some(
            map![
                FieldKey::MsgType => num(p[1] as int),
                FieldKey::ExpectedAck => hex_at(p, 2, 6),
                FieldKey::TimeoutMs => num(u32_le_at(p, 6)),
            ],
        )
    } else if code == 0x07 && n >= 13 {
        Some(
            map![
                FieldKey::From => hex_at(p, 1, 7),
                FieldKey::PathLen => num(p[7] as int),
                FieldKey::Timestamp => num(u32_le_at(p, 9)),
                FieldKey::Text => text_at(p, 13, n),
                FieldKey::Type => word(text_type_name(p[8])),
            ],
        )
    } else if code == 0x08 && n >= 9 {
        Some(
            map![
                FieldKey::Channel => num(p[1] as int),
                FieldKey::PathLen => num(p[2] as int),
                FieldKey::Timestamp => num(u32_le_at(p, 4)),
                FieldKey::Text => text_at(p, 8, n),
                FieldKey::Type => word(channel_text_type_name(p[3])),
            ],
        )
    } else if code == 0x09 && n >= 5 {
        Some(map![FieldKey::Time => num(u32_le_at(p, 1))])
    } else if code == 0x0A {
        Some(map![FieldKey::MessagesAvailable => ValueView::Bool(false)])
    } else if code == 0x0C && n >= 3 {
        let m = map![FieldKey::LevelMv => num(u16_le_at(p, 1))];
        Some(
            if n >= 11 {
                m.insert(FieldKey::UsedKb, num(u32_le_at(p, 3))).insert(
                    FieldKey::TotalKb,
                    num(u32_le_at(p, 7)),
                )
            } else {
                m
            },
        )
    } else if code == 0x0D && n > 1 {
        let m = map![FieldKey::FwVersion => num(p[1] as int)];
        Some(
            if n > 60 {
                m.insert(FieldKey::MaxContacts, num(2 * p[2] as int)).insert(
                    FieldKey::MaxChannels,
                    num(p[3] as int),
                ).insert(FieldKey::FwBuild, trimmed_at(p, 8, 20)).insert(
                    FieldKey::Model,
                    trimmed_at(p, 20, 60),
                )
            } else {
                m
            },
        )
    } else if code == 0x12 && n > 2 {
        Some(
            map![
                FieldKey::ChannelIdx => num(p[1] as int),
                FieldKey::Name => text_at(p, 2, 2 + channel_name_len(p)),
            ],
        )
    } else if code == 0x82 {
        if n >= 5 {
            Some(map![FieldKey::AckCode => hex_at(p, 1, 5)])
        } else {
            Some(map![FieldKey::Ack => ValueView::Bool(true)])
        }
    } else if code == 0x83 {
        Some(map![FieldKey::MessagesWaiting => ValueView::Bool(true)])
    } else if code == 0x85 {
        Some(map![FieldKey::Login => word("success"@)])
    } else if code == 0x86 {
        Some(map![FieldKey::Login => word("failed"@)])
    } else {
        None
    }
}

/// Decodes the fields of a response payload for the event log.
#[verifier::rlimit(40)]
pub fn decode_response_payload(code: u8, payload: &[u8]) -> (r: Option<DecodedMap>)
    requires
        response_decodable(code, payload@.len()),
    ensures
        decoded_view(r) == decode_response_spec(code, payload@),
{
    if payload.len() == 0 {
        return None;
    }
    let n = payload.len();
    let mut map = DecodedMap::new();
    match code {
        0x00 => {
            map.insert(FieldKey::Status, word_value("OK"));
            if n == 5 {
                let val = read_u32_le(payload, 1);
                map.insert(FieldKey::Value, DecodedValue::Integer(val as i64));
            }
        },
        0x01 => {
            map.insert(FieldKey::Status, word_value("ERROR"));
            if n > 1 {
                map.insert(FieldKey::ErrorCode, DecodedValue::Integer(payload[1] as i64));
            }
        },
        0x02 if n >= 5 => {
            let count = read_u32_le(payload, 1);
            map.insert(FieldKey::ContactCount, DecodedValue::Integer(count as i64));
        },
        0x03 if n >= 148 => {
            let contact_type = payload[33];
            let path_len = payload[35] as i64;
            let name_len = match find_zero_in(payload, 100, n) {
                Some(i) => i,
                None => 32,
            };
            let name = lossy_range(payload, 100, 100 + name_len);
            let last_advert = read_u32_le(payload, 132);
            let lat = read_i32_le(payload, 136);
            let lon = read_i32_le(payload, 140);
            map.insert(FieldKey::Name, DecodedValue::String(name));
            map.insert(FieldKey::PublicKey, short_key_range(payload, 1, 33));
            map.insert(FieldKey::Type, word_value(contact_type_name_of(contact_type)));
            map.insert(FieldKey::PathLen, DecodedValue::Integer(path_len));
            map.insert(FieldKey::LastAdvert, DecodedValue::Integer(last_advert as i64));
            if lat != 0 {
                map.insert(FieldKey::Lat, DecodedValue::Float { raw: lat as i64, scale: 1_000_000 });
            }
            if lon != 0 {
                map.insert(FieldKey::Lon, DecodedValue::Float { raw: lon as i64, scale: 1_000_000 });
            }
        },
        0x04 if n >= 5 => {
            let lastmod = read_u32_le(payload, 1);
            map.insert(FieldKey::Lastmod, DecodedValue::Integer(lastmod as i64));
        },
        0x05 if n >= 52 => {
            let adv_type = payload[1];
            let tx_power = payload[2];
            let lat = read_i32_le(payload, 36);
            let lon = read_i32_le(payload, 40);
            let freq = read_u32_le(payload, 48);
            let bw = if n >= 56 {
                read_u32_le(payload, 52)
            } else {
                0
            };
            let name = if n > 56 {
                trimmed_range(payload, 56, n)
            } else {
                String::new()
            };
            map.insert(FieldKey::Name, DecodedValue::String(name));
            map.insert(FieldKey::Type, word_value(advert_type_name_of(adv_type)));
            map.insert(FieldKey::PublicKey, short_key_range(payload, 4, 36));
            map.insert(FieldKey::TxPower, DecodedValue::Integer(tx_power as i64));
            map.insert(FieldKey::FreqMhz, DecodedValue::Float { raw: freq as i64, scale: 1000 });
            map.insert(FieldKey::BwKhz, DecodedValue::Float { raw: bw as i64, scale: 1000 });
            if lat != 0 {
                map.insert(FieldKey::Lat, DecodedValue::Float { raw: lat as i64, scale: 1_000_000 });
            }
            if lon != 0 {
                map.insert(FieldKey::Lon, DecodedValue::Float { raw: lon as i64, scale: 1_000_000 });
            }
        },
        0x06 if n >= 9 => {
            let msg_type = payload[1];
            let ack = hex_range(payload, 2, 6);
            let timeout = read_u32_le(payload, 6);
            map.insert(FieldKey::MsgType, DecodedValue::Integer(msg_type as i64));
            map.insert(FieldKey::ExpectedAck, DecodedValue::String(ack));
            map.insert(FieldKey::TimeoutMs, DecodedValue::Integer(timeout as i64));
        },
        0x07 if n >= 13 => {
            let from = hex_range(payload, 1, 7);
            let path_len = payload[7];
            let txt_type = payload[8];
            let timestamp = read_u32_le(payload, 9);
            let text = lossy_range(payload, 13, n);
            map.insert(FieldKey::From, DecodedValue::String(from));
            map.insert(FieldKey::PathLen, DecodedValue::Integer(path_len as i64));
            map.insert(FieldKey::Timestamp, DecodedValue::Integer(timestamp as i64));
            map.insert(FieldKey::Text, DecodedValue::String(text));
            map.insert(FieldKey::Type, word_value(text_type_name_of(txt_type)));
        },
        0x08 if n >= 9 => {
            let channel = payload[1];
            let path_len = payload[2];
            let txt_type = payload[3];
            let timestamp = read_u32_le(payload, 4);
            let text = lossy_range(payload, 8, n);
            map.insert(FieldKey::Channel, DecodedValue::Integer(channel as i64));
            map.insert(FieldKey::PathLen, DecodedValue::Integer(path_len as i64));
            map.insert(FieldKey::Timestamp, DecodedValue::Integer(timestamp as i64));
            map.insert(FieldKey::Text, DecodedValue::String(text));
            map.insert(FieldKey::Type, word_value(channel_text_type_name_of(txt_type)));
        },
        0x09 if n >= 5 => {
            let time = read_u32_le(payload, 1);
            map.insert(FieldKey::Time, DecodedValue::Integer(time as i64));
        },
        0x0A => {
            map.insert(FieldKey::MessagesAvailable, DecodedValue::Bool(false));
        },
        0x0C if n >= 3 => {
            let mv = read_u16_le(payload, 1);
            map.insert(FieldKey::LevelMv, DecodedValue::Integer(mv as i64));
            if n >= 11 {
                let used = read_u32_le(payload, 3);
                let total = read_u32_le(payload, 7);
                map.insert(FieldKey::UsedKb, DecodedValue::Integer(used as i64));
                map.insert(FieldKey::TotalKb, DecodedValue::Integer(total as i64));
            }
        },
        0x0D if n > 1 => {
            let fw = payload[1];
            map.insert(FieldKey::FwVersion, DecodedValue::Integer(fw as i64));
            if n > 60 {
                map.insert(FieldKey::MaxContacts, DecodedValue::Integer((payload[2] as u16 * 2) as i64));
                map.insert(FieldKey::MaxChannels, DecodedValue::Integer(payload[3] as i64));
                let build = trimmed_range(payload, 8, 20);
                let model = trimmed_range(payload, 20, 60);
                map.insert(FieldKey::FwBuild, DecodedValue::String(build));
                map.insert(FieldKey::Model, DecodedValue::String(model));
            }
        },
        0x12 if n > 2 => {
            let idx = payload[1];
            let name_end = match find_zero_in(payload, 2, 34) {
                Some(i) => i,
                None => 32,
            };
            let name = lossy_range(payload, 2, 2 + name_end);
            map.insert(FieldKey::ChannelIdx, DecodedValue::Integer(idx as i64));
            map.insert(FieldKey::Name, DecodedValue::String(name));
        },
        0x82 => {
            if n >= 5 {
                map.insert(FieldKey::AckCode, DecodedValue::String(hex_range(payload, 1, 5)));
            } else {
                map.insert(FieldKey::Ack, DecodedValue::Bool(true));
            }
        },
        0x83 => {
            map.insert(FieldKey::MessagesWaiting, DecodedValue::Bool(true));
        },
        0x85 => {
            map.insert(FieldKey::Login, word_value("success"));
        },
        0x86 => {
            map.insert(FieldKey::Login, word_value("failed"));
        },
        _ => {},
    }
    if map.is_empty() {
        None
    } else {
        Some(map)
    }
}

} // verus!
