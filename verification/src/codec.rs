//! Tag-length-value framing of the persistent connection.
//!
//! After a single leading protocol-version byte, the stream is a repeating
//! sequence of `{ 1-byte tag, varint payload length, payload bytes }`. The
//! tag picks the protobuf schema of the payload; unknown tags are carried
//! through as [`MessageTag::Other`] so new server message kinds do not break
//! the stream.
use vstd::prelude::*;

use crate::varint::{decode_varint, encode_varint, parse_varint, varint_seq, VarintStep};

verus! {

/// Version marker sent as the very first byte of every connection.
pub const MCS_VERSION: u8 = 41;

/// Maximum declared payload length a frame may carry; a longer declared
/// length is treated as stream corruption rather than allocated.
pub const MAX_FRAME_PAYLOAD: usize = 1048576;

/// The frame kinds the engine understands, and a passthrough for the rest.
#[derive(Clone, Copy, Debug, PartialEq, Eq, Structural)]
pub enum MessageTag {
    HeartbeatPing,
    HeartbeatAck,
    LoginRequest,
    LoginResponse,
    Close,
    IqStanza,
    DataMessageStanza,
    Other(u8),
}

/// The wire byte of a tag.
pub open spec fn spec_tag_byte(t: MessageTag) -> u8 {
    match t {
        MessageTag::HeartbeatPing => 0,
        MessageTag::HeartbeatAck => 1,
        MessageTag::LoginRequest => 2,
        MessageTag::LoginResponse => 3,
        MessageTag::Close => 4,
        MessageTag::IqStanza => 7,
        MessageTag::DataMessageStanza => 8,
        MessageTag::Other(b) => b,
    }
}

/// The tag a wire byte decodes to.
pub open spec fn spec_tag_of_byte(b: u8) -> MessageTag {
    if b == 0 {
        MessageTag::HeartbeatPing
    } else if b == 1 {
        MessageTag::HeartbeatAck
    } else if b == 2 {
        MessageTag::LoginRequest
    } else if b == 3 {
        MessageTag::LoginResponse
    } else if b == 4 {
        MessageTag::Close
    } else if b == 7 {
        MessageTag::IqStanza
    } else if b == 8 {
        MessageTag::DataMessageStanza
    } else {
        MessageTag::Other(b)
    }
}

/// A tag is canonical when it is what its own wire byte decodes to; only an
/// `Other` holding the byte of a known tag is not.
pub open spec fn tag_canonical(t: MessageTag) -> bool {
    spec_tag_of_byte(spec_tag_byte(t)) == t
}

pub fn tag_byte(t: MessageTag) -> (b: u8)
    ensures
        b == spec_tag_byte(t),
{
    match t {
        MessageTag::HeartbeatPing => 0,
        MessageTag::HeartbeatAck => 1,
        MessageTag::LoginRequest => 2,
        MessageTag::LoginResponse => 3,
        MessageTag::Close => 4,
        MessageTag::IqStanza => 7,
        MessageTag::DataMessageStanza => 8,
        MessageTag::Other(b) => b,
    }
}

pub fn tag_of_byte(b: u8) -> (t: MessageTag)
    ensures
        t == spec_tag_of_byte(b),
        tag_canonical(t),
{
    if b == 0 {
        MessageTag::HeartbeatPing
    } else if b == 1 {
        MessageTag::HeartbeatAck
    } else if b == 2 {
        MessageTag::LoginRequest
    } else if b == 3 {
        MessageTag::LoginResponse
    } else if b == 4 {
        MessageTag::Close
    } else if b == 7 {
        MessageTag::IqStanza
    } else if b == 8 {
        MessageTag::DataMessageStanza
    } else {
        MessageTag::Other(b)
    }
}

/// One decoded protocol unit: a tag and its (still protobuf-encoded) body.
#[derive(Clone, Debug)]
pub struct Frame {
    pub tag: MessageTag,
    pub payload: Vec<u8>,
}

impl Frame {
    /// A frame the codec will encode and decode losslessly.
    pub open spec fn wf(self) -> bool {
        &&& tag_canonical(self.tag)
        &&& self.payload@.len() <= MAX_FRAME_PAYLOAD
    }
}

/// The bytes of one encoded frame.
pub open spec fn frame_seq(tag: u8, payload: Seq<u8>) -> Seq<u8> {
    seq![tag] + varint_seq(payload.len() as u64) + payload
}

/// Parses one frame from the front of `s`: tag byte, payload and total
/// bytes consumed. `None` when `s` ends inside the frame or the declared
/// length is over [`MAX_FRAME_PAYLOAD`].
pub open spec fn parse_frame(s: Seq<u8>) -> Option<(u8, Seq<u8>, int)> {
    if s.len() < 1 {
        None
    } else {
        match parse_varint(s.skip(1)) {
            None => None,
            Some((len, used)) => {
                if len <= MAX_FRAME_PAYLOAD && 1 + used + len <= s.len() {
                    Some((s[0], s.subrange(1 + used, 1 + used + len), 1 + used + len))
                } else {
                    None
                }
            },
        }
    }
}

/// True when the front of `s` can never become a frame, however the
/// stream is extended: the length varint overflows, or the declared
/// payload length is over the maximum.
pub open spec fn frame_corrupt(s: Seq<u8>) -> bool {
    s.len() >= 1 && (crate::varint::varint_malformed(s.skip(1)) || (match parse_varint(s.skip(1)) {
        Some((len, used)) => len > MAX_FRAME_PAYLOAD,
        None => false,
    }))
}

/// Framing round trip: any well-formed frame decodes back to itself from
/// its own encoding, consuming exactly its own bytes.
pub proof fn lemma_frame_round_trip(tag: u8, payload: Seq<u8>)
    requires
        payload.len() <= MAX_FRAME_PAYLOAD,
    ensures
        parse_frame(frame_seq(tag, payload)) == Some(
            (tag, payload, frame_seq(tag, payload).len() as int),
        ),
{
    let s = frame_seq(tag, payload);
    let lv = varint_seq(payload.len() as u64);
    crate::varint::lemma_parse_varint_of_seq(payload.len() as u64, payload);
    assert(s.skip(1) =~= lv + payload);
    assert(s[0] == tag);
    assert(s.subrange(1 + lv.len() as int, 1 + lv.len() as int + payload.len() as int)
        =~= payload);
}

/// Framing round trip at the frame level: decoding the encoding of any
/// well-formed frame yields the same tag and payload, consuming exactly
/// the encoding.
pub proof fn lemma_frame_codec_round_trip(f: Frame)
    requires
        f.wf(),
    ensures
        ({
            let s = frame_seq(spec_tag_byte(f.tag), f.payload@);
            &&& parse_frame(s) == Some((spec_tag_byte(f.tag), f.payload@, s.len() as int))
            &&& spec_tag_of_byte(spec_tag_byte(f.tag)) == f.tag
        }),
{
    lemma_frame_round_trip(spec_tag_byte(f.tag), f.payload@);
}

/// Appends the encoding of a frame to `out`.
pub fn encode_frame(f: &Frame, out: &mut Vec<u8>)
    requires
        f.wf(),
    ensures
        final(out)@ == old(out)@ + frame_seq(spec_tag_byte(f.tag), f.payload@),
{
    out.push(tag_byte(f.tag));
    encode_varint(f.payload.len() as u64, out);
    let mut i: usize = 0;
    while i < f.payload.len()
        invariant
            i <= f.payload@.len(),
            out@ == old(out)@ + seq![spec_tag_byte(f.tag)] + varint_seq(f.payload@.len() as u64)
                + f.payload@.take(i as int),
        decreases f.payload@.len() - i,
    {
        out.push(f.payload[i]);
        i = i + 1;
        proof {
            assert(f.payload@.take(i as int) =~= f.payload@.take(i - 1) + seq![f.payload@[i - 1]]);
        }
    }
    proof {
        assert(f.payload@.take(f.payload@.len() as int) =~= f.payload@);
        assert(out@ =~= old(out)@ + frame_seq(spec_tag_byte(f.tag), f.payload@));
    }
}

/// Result of trying to decode one frame from a buffer that may still be
/// growing.
pub enum FrameStep {
    /// The decoded frame and the position just after it.
    Got(Frame, usize),
    /// The buffer ends inside the frame; more bytes may complete it.
    Incomplete,
    /// The declared payload length is over the maximum, or the length
    /// varint itself is corrupt: the stream cannot be trusted further.
    Corrupt,
}

/// Decodes one frame starting at `pos`. Agrees exactly with [`parse_frame`]
/// on the suffix of the buffer.
pub fn decode_frame(buf: &[u8], pos: usize) -> (r: FrameStep)
    requires
        pos <= buf@.len(),
    ensures
        (match r {
            FrameStep::Got(f, next) => {
                &&& parse_frame(buf@.skip(pos as int)) == Some(
                    (spec_tag_byte(f.tag), f.payload@, next - pos),
                )
                &&& f.wf()
                &&& pos < next <= buf@.len()
            },
            FrameStep::Incomplete => parse_frame(buf@.skip(pos as int)) is None,
            FrameStep::Corrupt => parse_frame(buf@.skip(pos as int)) is None,
        }),
        parse_frame(buf@.skip(pos as int)) is Some ==> r is Got,
        r is Corrupt <==> frame_corrupt(buf@.skip(pos as int)),
{
    let ghost s = buf@.skip(pos as int);
    if pos == buf.len() {
        return FrameStep::Incomplete;
    }
    let tag = tag_of_byte(buf[pos]);
    proof {
        assert(s.skip(1) =~= buf@.skip(pos as int + 1));
    }
    match decode_varint(buf, pos + 1) {
        VarintStep::Got(len, used) => {
            if len > MAX_FRAME_PAYLOAD as u64 {
                return FrameStep::Corrupt;
            }
            let len = len as usize;
            let start = pos + 1 + used;
            if buf.len() - start < len {
                return FrameStep::Incomplete;
            }
            let mut payload: Vec<u8> = Vec::new();
            let mut i: usize = 0;
            while i < len
                invariant
                    i <= len,
                    start + len <= buf@.len() <= usize::MAX,
                    payload@ == buf@.subrange(start as int, start + i),
                decreases len - i,
            {
                payload.push(buf[start + i]);
                i = i + 1;
                proof {
                    assert(buf@.subrange(start as int, start + i) =~= buf@.subrange(
                        start as int,
                        start + i - 1,
                    ) + seq![buf@[start + i - 1]]);
                }
            }
            proof {
                assert(s[0] == buf@[pos as int]);
                assert(s.subrange(1 + used, 1 + used + len) =~= buf@.subrange(
                    start as int,
                    start + len,
                ));
            }
            FrameStep::Got(Frame { tag, payload }, start + len)
        },
        VarintStep::Incomplete => FrameStep::Incomplete,
        VarintStep::Malformed => FrameStep::Corrupt,
    }
}

/// The encoded heartbeat-ack frame sent in answer to a server ping; the
/// ack body is an empty protobuf message.
pub fn new_heartbeat_ack() -> (r: Vec<u8>)
    ensures
        r@ == frame_seq(spec_tag_byte(MessageTag::HeartbeatAck), Seq::<u8>::empty()),
{
    let f = Frame { tag: MessageTag::HeartbeatAck, payload: Vec::new() };
    let mut out: Vec<u8> = Vec::new();
    encode_frame(&f, &mut out);
    proof {
        assert(out@ =~= frame_seq(spec_tag_byte(MessageTag::HeartbeatAck), Seq::<u8>::empty()));
    }
    out
}

} // verus!
