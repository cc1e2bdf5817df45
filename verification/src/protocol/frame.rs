//! Frames of the companion protocol: one header byte (`0x3c` from a client,
//! `0x3e` from the radio), a little-endian `u16` payload length, then the
//! payload. The parser takes bytes as they arrive and hands back whole
//! payloads.

use bytes::BytesMut;
use vstd::prelude::*;

use super::buffer::{
    bytes_advance, bytes_at, bytes_clear, bytes_contents, bytes_extend, bytes_get_u16_le,
    bytes_into_vec, bytes_len, bytes_new, bytes_split_to, le_u16, vec_put_u16_le,
};

verus! {

/// Header byte of a frame that a client sends.
pub const FRAME_HEADER_CLIENT: u8 = 0x3c;

/// Header byte of a frame that the radio (or this proxy) sends.
pub const FRAME_HEADER_SERVER: u8 = 0x3e;

/// Bytes before the payload: header and length.
pub const FRAME_HEADER_SIZE: usize = 3;

/// Whether a byte opens a frame.
pub open spec fn is_frame_header(b: u8) -> bool {
    b == FRAME_HEADER_CLIENT || b == FRAME_HEADER_SERVER
}

/// The bytes of a frame: header, the payload length taken modulo 2^16 in
/// little-endian order, then the payload.
pub open spec fn frame_bytes(header: u8, payload: Seq<u8>) -> Seq<u8> {
    let n = payload.len() % 65536;
    seq![header, (n % 256) as u8, (n / 256) as u8] + payload
}

/// A frame to send: its header byte and its payload.
#[derive(Debug, Clone)]
pub struct Frame {
    pub header: u8,
    pub payload: Vec<u8>,
}

/// Encodes `payload` behind `header`.
fn encode_with_header(header: u8, payload: &[u8]) -> (buf: Vec<u8>)
    requires
        payload@.len() + FRAME_HEADER_SIZE <= isize::MAX,
    ensures
        buf@ == frame_bytes(header, payload@),
{
    let len = (payload.len() % 65536) as u16;
    let mut buf: Vec<u8> = Vec::with_capacity(FRAME_HEADER_SIZE + payload.len());
    buf.push(header);
    vec_put_u16_le(&mut buf, len);
    buf.extend_from_slice(payload);
    assert(buf@ =~= frame_bytes(header, payload@));
    buf
}

impl Frame {
    /// A frame of `payload` behind `header`.
    pub fn new(header: u8, payload: Vec<u8>) -> (f: Self)
        ensures
            f.header == header,
            f.payload@ == payload@,
    {
        Self { header, payload }
    }

    /// The bytes of this frame.
    pub fn encode(&self) -> (buf: Vec<u8>)
        requires
            self.payload@.len() + FRAME_HEADER_SIZE <= isize::MAX,
        ensures
            buf@ == frame_bytes(self.header, self.payload@),
    {
        encode_with_header(self.header, self.payload.as_slice())
    }

    /// The bytes of a radio-to-client frame of `payload`.
    pub fn encode_response(payload: &[u8]) -> (buf: Vec<u8>)
        requires
            payload@.len() + FRAME_HEADER_SIZE <= isize::MAX,
        ensures
            buf@ == frame_bytes(FRAME_HEADER_SERVER, payload@),
    {
        encode_with_header(FRAME_HEADER_SERVER, payload)
    }

    /// The bytes of a client-to-radio frame of `payload`.
    pub fn encode_command(payload: &[u8]) -> (buf: Vec<u8>)
        requires
            payload@.len() + FRAME_HEADER_SIZE <= isize::MAX,
        ensures
            buf@ == frame_bytes(FRAME_HEADER_CLIENT, payload@),
    {
        encode_with_header(FRAME_HEADER_CLIENT, payload)
    }
}

/// Where a parser stands: the header it has read, the length it has read,
/// and the bytes it holds that it has not used yet.
pub struct StreamState {
    pub header: Option<u8>,
    pub expected_len: Option<u16>,
    pub buffer: Seq<u8>,
}

/// What parsing a state as far as it goes gives: the payloads completed,
/// in order, and the state left over.
pub struct Drained {
    pub frames: Seq<Seq<u8>>,
    pub state: StreamState,
}

/// A parser that has read nothing.
pub open spec fn fresh_state() -> StreamState {
    StreamState { header: None, expected_len: None, buffer: Seq::empty() }
}

/// `s` with `more` bytes received after its buffer.
pub open spec fn with_more(s: StreamState, more: Seq<u8>) -> StreamState {
    StreamState { header: s.header, expected_len: s.expected_len, buffer: s.buffer + more }
}

/// How far into the current frame `s` is: before the header, after it, or
/// after the length.
pub open spec fn stage(s: StreamState) -> nat {
    match s.header {
        None => 0,
        Some(_) => match s.expected_len {
            None => 1,
            Some(_) => 2,
        },
    }
}

/// Parses the buffer of `s` as far as it goes. Before a header, a byte that
/// is no header is skipped; after one, two bytes give the length; once the
/// buffer holds that many bytes they are a payload, and the next frame
/// starts. Parsing stops when the next step lacks bytes.
pub open spec fn drain(s: StreamState) -> Drained
    decreases s.buffer.len(), stage(s),
{
    match s.header {
        None => {
            if s.buffer.len() == 0 {
                Drained { frames: Seq::empty(), state: s }
            } else if !is_frame_header(s.buffer[0]) {
                drain(
                    StreamState {
                        header: None,
                        expected_len: s.expected_len,
                        buffer: s.buffer.drop_first(),
                    },
                )
            } else {
                drain(
                    StreamState {
                        header: Some(s.buffer[0]),
                        expected_len: s.expected_len,
                        buffer: s.buffer.drop_first(),
                    },
                )
            }
        },
        Some(h) => match s.expected_len {
            None => {
                if s.buffer.len() < 2 {
                    Drained { frames: Seq::empty(), state: s }
                } else {
                    drain(
                        StreamState {
                            header: Some(h),
                            expected_len: Some(le_u16(s.buffer[0], s.buffer[1]) as u16),
                            buffer: s.buffer.skip(2),
                        },
                    )
                }
            },
            Some(n) => {
                if s.buffer.len() < n {
                    Drained { frames: Seq::empty(), state: s }
                } else {
                    let rest = drain(
                        StreamState {
                            header: None,
                            expected_len: None,
                            buffer: s.buffer.skip(n as int),
                        },
                    );
                    Drained { frames: seq![s.buffer.take(n as int)] + rest.frames, state: rest.state }
                }
            },
        },
    }
}

/// Parsing `s` and then `more` bytes gives the frames of parsing `s` with
/// `more` already in its buffer, and the same state.
pub proof fn lemma_drain_append(s: StreamState, more: Seq<u8>)
    ensures
        ({
            let d1 = drain(s);
            let d2 = drain(with_more(d1.state, more));
            &&& drain(with_more(s, more)).frames == d1.frames + d2.frames
            &&& drain(with_more(s, more)).state == d2.state
        }),
    decreases s.buffer.len(), stage(s),
{
    let d1 = drain(s);
    let sm = with_more(s, more);
    match s.header {
        None => {
            if s.buffer.len() == 0 {
                assert(d1.frames + drain(with_more(d1.state, more)).frames =~= drain(
                    with_more(d1.state, more),
                ).frames);
            } else {
                let next = StreamState {
                    header: if is_frame_header(s.buffer[0]) {
                        Some(s.buffer[0])
                    } else {
                        None
                    },
                    expected_len: s.expected_len,
                    buffer: s.buffer.drop_first(),
                };
                assert(sm.buffer[0] == s.buffer[0]);
                assert(sm.buffer.drop_first() =~= next.buffer + more);
                lemma_drain_append(next, more);
                assert(drain(sm) == drain(with_more(next, more)));
            }
        },
        Some(h) => match s.expected_len {
            None => {
                if s.buffer.len() < 2 {
                    assert(d1.frames + drain(with_more(d1.state, more)).frames =~= drain(
                        with_more(d1.state, more),
                    ).frames);
                } else {
                    let next = StreamState {
                        header: Some(h),
                        expected_len: Some(le_u16(s.buffer[0], s.buffer[1]) as u16),
                        buffer: s.buffer.skip(2),
                    };
                    assert(sm.buffer[0] == s.buffer[0] && sm.buffer[1] == s.buffer[1]);
                    assert(sm.buffer.skip(2) =~= next.buffer + more);
                    lemma_drain_append(next, more);
                    assert(drain(sm) == drain(with_more(next, more)));
                }
            },
            Some(n) => {
                if s.buffer.len() < n {
                    assert(d1.frames + drain(with_more(d1.state, more)).frames =~= drain(
                        with_more(d1.state, more),
                    ).frames);
                } else {
                    let next = StreamState {
                        header: None,
                        expected_len: None,
                        buffer: s.buffer.skip(n as int),
                    };
                    assert(sm.buffer.take(n as int) =~= s.buffer.take(n as int));
                    assert(sm.buffer.skip(n as int) =~= next.buffer + more);
                    lemma_drain_append(next, more);
                    let r = drain(next);
                    let d2 = drain(with_more(r.state, more));
                    assert(drain(sm).frames =~= seq![s.buffer.take(n as int)] + (r.frames
                        + d2.frames));
                    assert(d1.frames + d2.frames =~= seq![s.buffer.take(n as int)] + (r.frames
                        + d2.frames));
                }
            },
        },
    }
}

/// Feeding bytes in two pieces gives, over both calls, the frames that
/// feeding them at once gives, and leaves the parser in the same state.
pub proof fn lemma_feed_in_pieces(s: StreamState, a: Seq<u8>, b: Seq<u8>)
    ensures
        ({
            let first = drain(with_more(s, a));
            let second = drain(with_more(first.state, b));
            let whole = drain(with_more(s, a + b));
            &&& whole.frames == first.frames + second.frames
            &&& whole.state == second.state
        }),
{
    lemma_drain_append(with_more(s, a), b);
    assert(with_more(with_more(s, a), b) == with_more(s, a + b)) by {
        assert(s.buffer + a + b =~= s.buffer + (a + b));
    }
}

/// A whole frame with a valid header, fed to a parser that has read
/// nothing, gives its payload and leaves the parser as it was.
pub proof fn lemma_frame_roundtrip(header: u8, payload: Seq<u8>)
    requires
        is_frame_header(header),
        payload.len() < 65536,
    ensures
        drain(with_more(fresh_state(), frame_bytes(header, payload))).frames == seq![payload],
        drain(with_more(fresh_state(), frame_bytes(header, payload))).state == fresh_state(),
{
    let bytes = frame_bytes(header, payload);
    let n = payload.len();
    let s0 = with_more(fresh_state(), bytes);
    assert(s0.buffer =~= bytes);
    let s1 = StreamState { header: Some(header), expected_len: None, buffer: bytes.drop_first() };
    assert(drain(s0) == drain(s1));
    assert(le_u16(bytes[1], bytes[2]) == n);
    let s2 = StreamState {
        header: Some(header),
        expected_len: Some(n as u16),
        buffer: bytes.drop_first().skip(2),
    };
    assert(drain(s1) == drain(s2));
    assert(s2.buffer =~= payload);
    assert(s2.buffer.take(n as int) =~= payload);
    let s3 = StreamState { header: None, expected_len: None, buffer: s2.buffer.skip(n as int) };
    assert(s3 == fresh_state()) by {
        assert(s2.buffer.skip(n as int) =~= Seq::<u8>::empty());
    }
    assert(drain(s3) == Drained { frames: Seq::empty(), state: fresh_state() });
    assert(drain(s2).frames =~= seq![payload]);
}

/// The bytes of several frames, one after another.
pub open spec fn frames_bytes(frames: Seq<(u8, Seq<u8>)>) -> Seq<u8>
    decreases frames.len(),
{
    if frames.len() == 0 {
        Seq::empty()
    } else {
        frame_bytes(frames[0].0, frames[0].1) + frames_bytes(frames.drop_first())
    }
}

/// Frames with valid headers, sent back to back to a parser that has read
/// nothing, give their payloads in order and leave the parser as it was.
pub proof fn lemma_frames_roundtrip(frames: Seq<(u8, Seq<u8>)>)
    requires
        forall|i: int|
            0 <= i < frames.len() ==> is_frame_header(#[trigger] frames[i].0) && frames[i].1.len()
                < 65536,
    ensures
        drain(with_more(fresh_state(), frames_bytes(frames))).frames == frames.map_values(
            |f: (u8, Seq<u8>)| f.1,
        ),
        drain(with_more(fresh_state(), frames_bytes(frames))).state == fresh_state(),
    decreases frames.len(),
{
    if frames.len() == 0 {
        assert(with_more(fresh_state(), frames_bytes(frames)) == fresh_state()) by {
            assert(Seq::<u8>::empty() + Seq::<u8>::empty() =~= Seq::<u8>::empty());
        }
        assert(frames.map_values(|f: (u8, Seq<u8>)| f.1) =~= Seq::<Seq<u8>>::empty());
    } else {
        let first = frame_bytes(frames[0].0, frames[0].1);
        let rest = frames.drop_first();
        assert(is_frame_header(frames[0].0));
        lemma_frame_roundtrip(frames[0].0, frames[0].1);
        lemma_frames_roundtrip(rest);
        lemma_drain_append(with_more(fresh_state(), first), frames_bytes(rest));
        assert(with_more(with_more(fresh_state(), first), frames_bytes(rest)) == with_more(
            fresh_state(),
            frames_bytes(frames),
        )) by {
            assert(Seq::<u8>::empty() + first + frames_bytes(rest) =~= Seq::<u8>::empty() + (first
                + frames_bytes(rest)));
        }
        assert(with_more(fresh_state(), first).buffer =~= first);
        assert(frames.map_values(|f: (u8, Seq<u8>)| f.1) =~= seq![frames[0].1] + rest.map_values(
            |f: (u8, Seq<u8>)| f.1,
        ));
    }
}

/// Bytes that are no frame header, received between frames, are skipped:
/// they change neither the frames nor the state that follow.
pub proof fn lemma_skips_noise(noise: Seq<u8>, bytes: Seq<u8>)
    requires
        forall|i: int| 0 <= i < noise.len() ==> !is_frame_header(#[trigger] noise[i]),
    ensures
        drain(with_more(fresh_state(), noise + bytes)) == drain(with_more(fresh_state(), bytes)),
    decreases noise.len(),
{
    if noise.len() == 0 {
        assert(noise + bytes =~= bytes);
    } else {
        let s = with_more(fresh_state(), noise + bytes);
        assert(s.buffer[0] == noise[0]);
        assert(s.buffer.drop_first() =~= Seq::<u8>::empty() + (noise.drop_first() + bytes));
        lemma_skips_noise(noise.drop_first(), bytes);
        assert(drain(s) == drain(with_more(fresh_state(), noise.drop_first() + bytes)));
    }
}

/// Bytes that are no frame header, then a whole frame, fed to a parser that
/// has read nothing: the junk is skipped, the payload comes out, and the
/// parser holds no partial frame afterwards.
pub proof fn lemma_junk_then_frame(noise: Seq<u8>, header: u8, payload: Seq<u8>)
    requires
        forall|i: int| 0 <= i < noise.len() ==> !is_frame_header(#[trigger] noise[i]),
        is_frame_header(header),
        payload.len() < 65536,
    ensures
        drain(with_more(fresh_state(), noise + frame_bytes(header, payload))) == (Drained {
            frames: seq![payload],
            state: fresh_state(),
        }),
{
    lemma_skips_noise(noise, frame_bytes(header, payload));
    lemma_frame_roundtrip(header, payload);
}

/// Reassembles frames from bytes that arrive in pieces.
#[derive(Debug)]
pub struct FrameParser {
    header_byte: Option<u8>,
    expected_len: Option<u16>,
    buffer: BytesMut,
}

impl View for FrameParser {
    type V = StreamState;

    closed spec fn view(&self) -> StreamState {
        StreamState {
            header: self.header_byte,
            expected_len: self.expected_len,
            buffer: bytes_contents(self.buffer),
        }
    }
}

impl FrameParser {
    /// A parser that has read nothing.
    pub fn new() -> (p: Self)
        ensures
            p@ == fresh_state(),
    {
        FrameParser { header_byte: None, expected_len: None, buffer: bytes_new() }
    }

    /// Takes `data` after what came before and returns the payloads that are
    /// now complete, in order. What is left waits for more bytes.
    pub fn feed(&mut self, data: &[u8]) -> (frames: Vec<Vec<u8>>)
        requires
            old(self)@.buffer.len() + data@.len() <= isize::MAX,
        ensures
            frames.deep_view() == drain(with_more(old(self)@, data@)).frames,
            final(self)@ == drain(with_more(old(self)@, data@)).state,
    {
        bytes_extend(&mut self.buffer, data);
        let ghost start = with_more(old(self)@, data@);
        assert(self@ == start);
        let mut frames: Vec<Vec<u8>> = Vec::new();

        loop
            invariant
                frames.deep_view() + drain(self@).frames == drain(start).frames,
                drain(self@).state == drain(start).state,
            ensures
                drain(self@).frames == Seq::<Seq<u8>>::empty(),
                drain(self@).state == self@,
            decreases self@.buffer.len(), stage(self@),
        {
            if self.header_byte.is_none() {
                if bytes_len(&self.buffer) == 0 {
                    break;
                }
                let h = bytes_at(&self.buffer, 0);
                if h != FRAME_HEADER_CLIENT && h != FRAME_HEADER_SERVER {
                    bytes_advance(&mut self.buffer, 1);
                    continue;
                }
                self.header_byte = Some(h);
                bytes_advance(&mut self.buffer, 1);
            }
            if self.expected_len.is_none() {
                if bytes_len(&self.buffer) < 2 {
                    break;
                }
                let n = bytes_get_u16_le(&mut self.buffer);
                self.expected_len = Some(n);
            }
            let needed = match self.expected_len {
                Some(n) => n as usize,
                None => 0,
            };
            if bytes_len(&self.buffer) < needed {
                break;
            }
            let ghost before = self@;
            let ghost frames_before = frames.deep_view();
            let front = bytes_split_to(&mut self.buffer, needed);
            let payload = bytes_into_vec(front);
            frames.push(payload);
            self.header_byte = None;
            self.expected_len = None;
            assert(payload.deep_view() =~= payload@);
            assert(frames.deep_view() =~= frames_before.push(payload@));
        }
        assert(frames.deep_view() =~= frames.deep_view() + drain(self@).frames);
        frames
    }

    /// Forgets any partial frame and every byte held.
    pub fn reset(&mut self)
        ensures
            final(self)@ == fresh_state(),
    {
        self.header_byte = None;
        self.expected_len = None;
        bytes_clear(&mut self.buffer);
    }
}

} // verus!
