//! L2CAP framing and the identity exchange that opens a channel.
//!
//! A frame is a two-byte length, low byte first, and then the payload.

use crate::identity::{NodeId, append_bytes, bytes32_at, bytes_slice};
use vstd::prelude::*;

verus! {

/// Largest payload of a frame.
pub const L2CAP_FRAME_MAX_BYTES: usize = 1472;

/// Size of the identity that the central writes when a channel opens.
pub const L2CAP_IDENTITY_SIZE_BYTES: usize = 32;

/// A frame on the wire.
pub open spec fn frame_bytes(payload: Seq<u8>) -> Seq<u8> {
    seq![(payload.len() % 256) as u8, (payload.len() / 256) as u8] + payload
}

/// Frames a payload; one that is too large gets no frame.
pub fn encode_l2cap_frame(payload: &[u8]) -> (frame: Option<Vec<u8>>)
    ensures
        match frame {
            Some(bytes) => payload@.len() <= L2CAP_FRAME_MAX_BYTES && bytes@ == frame_bytes(
                payload@,
            ),
            None => payload@.len() > L2CAP_FRAME_MAX_BYTES,
        },
{
    let len: usize = payload.len();
    if len > L2CAP_FRAME_MAX_BYTES {
        return None;
    }
    let mut bytes: Vec<u8> = Vec::new();
    bytes.push((len % 256) as u8);
    bytes.push((len / 256) as u8);
    append_bytes(&mut bytes, payload);
    assert(bytes@ =~= frame_bytes(payload@));
    Some(bytes)
}

/// What a receive buffer starts with.
#[derive(Debug, PartialEq, Eq)]
pub enum L2capFrame {
    /// The frame has not arrived in full.
    Incomplete,
    /// The frame announces more bytes than a frame may hold.
    Oversized,
    /// The payload of the frame and how much of the buffer it took.
    Complete { payload: Vec<u8>, consumed: usize },
}

/// The payload length that a buffer announces.
pub open spec fn announced_len(buffer: Seq<u8>) -> int {
    buffer[0] + 256 * buffer[1]
}

/// Takes the first frame out of a receive buffer.
pub fn decode_l2cap_frame(buffer: &[u8]) -> (frame: L2capFrame)
    ensures
        match frame {
            L2capFrame::Incomplete => buffer@.len() < 2 || announced_len(buffer@)
                <= L2CAP_FRAME_MAX_BYTES && buffer@.len() < 2 + announced_len(buffer@),
            L2capFrame::Oversized => buffer@.len() >= 2 && announced_len(buffer@)
                > L2CAP_FRAME_MAX_BYTES,
            L2capFrame::Complete { payload, consumed } => {
                &&& buffer@.len() >= 2 + announced_len(buffer@)
                &&& announced_len(buffer@) <= L2CAP_FRAME_MAX_BYTES
                &&& consumed == 2 + announced_len(buffer@)
                &&& payload@ == buffer@.subrange(2, 2 + announced_len(buffer@))
            },
        },
{
    if buffer.len() < 2 {
        return L2capFrame::Incomplete;
    }
    let len: usize = buffer[0] as usize + 256 * (buffer[1] as usize);
    if len > L2CAP_FRAME_MAX_BYTES {
        return L2capFrame::Oversized;
    }
    let consumed: usize = 2 + len;
    if buffer.len() < consumed {
        return L2capFrame::Incomplete;
    }
    L2capFrame::Complete { payload: bytes_slice(buffer, 2, consumed), consumed }
}

/// A frame that was written is read back from the front of the stream, whatever follows it.
pub proof fn law_l2cap_frame_round_trip(payload: Seq<u8>, rest: Seq<u8>)
    requires
        payload.len() <= L2CAP_FRAME_MAX_BYTES,
    ensures
        announced_len(frame_bytes(payload) + rest) == payload.len(),
        (frame_bytes(payload) + rest).len() >= 2 + payload.len(),
        (frame_bytes(payload) + rest).subrange(2, 2 + payload.len() as int) == payload,
        (frame_bytes(payload) + rest).skip(2 + payload.len() as int) == rest,
{
    let stream = frame_bytes(payload) + rest;
    assert(stream[0] == payload.len() % 256);
    assert(stream[1] == payload.len() / 256);
    assert(stream.subrange(2, 2 + payload.len() as int) =~= payload);
    assert(stream.skip(2 + payload.len() as int) =~= rest);
}

/// A frame that was cut off is waited for, never read as another frame.
pub proof fn law_l2cap_partial_frame_waits(payload: Seq<u8>, received: nat)
    requires
        payload.len() <= L2CAP_FRAME_MAX_BYTES,
        received < frame_bytes(payload).len(),
    ensures
        ({
            let buffer = frame_bytes(payload).take(received as int);
            buffer.len() < 2 || announced_len(buffer) <= L2CAP_FRAME_MAX_BYTES && buffer.len() < 2
                + announced_len(buffer)
        }),
{
    let buffer = frame_bytes(payload).take(received as int);
    if received >= 2 {
        assert(buffer[0] == payload.len() % 256);
        assert(buffer[1] == payload.len() / 256);
    }
}

/// Reads a full node identity; any other length is refused with the length that was found.
pub fn parse_node_id(bytes: &[u8]) -> (node_id: Result<NodeId, usize>)
    ensures
        match node_id {
            Ok(id) => bytes@.len() == 32 && id.0@ == bytes@,
            Err(found) => bytes@.len() != 32 && found == bytes@.len(),
        },
{
    let len: usize = bytes.len();
    if len != L2CAP_IDENTITY_SIZE_BYTES {
        return Err(len);
    }
    let copy = bytes32_at(bytes, 0);
    assert(bytes@.subrange(0, 32) =~= bytes@);
    Ok(NodeId(copy))
}

/// The length of a frame is read low byte first, and says nothing of what follows the frame.
pub proof fn law_length_is_read_low_byte_first(low: u8, high: u8, rest: Seq<u8>)
    ensures
        announced_len(seq![low, high] + rest) == low + 256 * high,
{
    let buffer = seq![low, high] + rest;
    assert(buffer[0] == low && buffer[1] == high);
}

/// What is framed is read back from the front of a stream, whatever follows, and the stream goes on
/// behind it. Every payload up to the limit has a frame, and no larger one has.
pub proof fn law_frames_arrive_in_a_stream(
    payload: &[u8],
    framed: Option<Vec<u8>>,
    rest: Seq<u8>,
    buffer: &[u8],
    frame: L2capFrame,
)
    requires
        call_ensures(encode_l2cap_frame, (payload,), framed),
        call_ensures(decode_l2cap_frame, (buffer,), frame),
    ensures
        framed is Some <==> payload@.len() <= L2CAP_FRAME_MAX_BYTES,
        framed is Some && buffer@ == framed->0@ + rest ==> {
            &&& frame is Complete
            &&& frame->payload@ == payload@
            &&& buffer@.skip(frame->consumed as int) == rest
        },
        buffer@.len() < 2 ==> frame is Incomplete,
        buffer@.len() >= 2 ==> {
            let announced = buffer@[0] + 256 * buffer@[1];
            &&& frame is Oversized <==> announced > L2CAP_FRAME_MAX_BYTES
            &&& frame is Complete <==> announced <= L2CAP_FRAME_MAX_BYTES && buffer@.len() >= 2
                + announced
            &&& frame is Complete ==> frame->payload@ == buffer@.subrange(2, 2 + announced)
        },
{
    if framed is Some {
        law_l2cap_frame_round_trip(payload@, rest);
    }
}

} // verus!
