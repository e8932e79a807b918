//! Framing of client payloads and application messages.
//!
//! A client payload is marked with eight bytes so that a receiver can tell it from raw transport
//! traffic. An application frame is marked with eight other bytes and names the node that it comes
//! from and the node that it is for, so that a relay can pass it on.

use crate::identity::{NodeId, append_bytes, bytes32_at, bytes_equal, bytes_slice, bytes_to_vec};
use vstd::prelude::*;
use vstd::slice::slice_subrange;

verus! {

/// The mark of a client payload: `JQCLIENT`.
pub open spec fn client_magic() -> Seq<u8> {
    seq![0x4au8, 0x51u8, 0x43u8, 0x4cu8, 0x49u8, 0x45u8, 0x4eu8, 0x54u8]
}

/// The mark of an application frame: `JQBLEAPP`.
pub open spec fn application_magic() -> Seq<u8> {
    seq![0x4au8, 0x51u8, 0x42u8, 0x4cu8, 0x45u8, 0x41u8, 0x50u8, 0x50u8]
}

fn client_magic_bytes() -> (magic: [u8; 8])
    ensures
        magic@ == client_magic(),
{
    let magic: [u8; 8] = [0x4a, 0x51, 0x43, 0x4c, 0x49, 0x45, 0x4e, 0x54];
    assert(magic@ =~= client_magic());
    magic
}

fn application_magic_bytes() -> (magic: [u8; 8])
    ensures
        magic@ == application_magic(),
{
    let magic: [u8; 8] = [0x4a, 0x51, 0x42, 0x4c, 0x45, 0x41, 0x50, 0x50];
    assert(magic@ =~= application_magic());
    magic
}

/// A marked client payload.
pub open spec fn client_frame(payload: Seq<u8>) -> Seq<u8> {
    client_magic() + payload
}

/// The payload of a marked client payload.
pub open spec fn client_payload(framed: Seq<u8>) -> Option<Seq<u8>> {
    if framed.len() >= 8 && framed.take(8) == client_magic() {
        Some(framed.skip(8))
    } else {
        None
    }
}

/// Marks a client payload.
pub fn encode_client_payload(payload: &[u8]) -> (framed: Vec<u8>)
    ensures
        framed@ == client_frame(payload@),
{
    let magic = client_magic_bytes();
    let mut framed: Vec<u8> = bytes_to_vec(magic.as_slice());
    append_bytes(&mut framed, payload);
    framed
}

/// The payload of a marked client payload; anything else is no client payload.
pub fn decode_client_payload(payload: &[u8]) -> (decoded: Option<&[u8]>)
    ensures
        match decoded {
            Some(bytes) => client_payload(payload@) == Some(bytes@),
            None => client_payload(payload@) is None,
        },
{
    let len: usize = payload.len();
    if len < 8 {
        return None;
    }
    let magic = client_magic_bytes();
    if !bytes_equal(slice_subrange(payload, 0, 8), magic.as_slice()) {
        return None;
    }
    assert(payload@.skip(8) =~= payload@.subrange(8, len as int));
    Some(slice_subrange(payload, 8, len))
}

/// Marks a client payload.
pub fn encode_client_payload_for_testing(payload: &[u8]) -> (framed: Vec<u8>)
    ensures
        framed@ == client_frame(payload@),
{
    encode_client_payload(payload)
}

/// The payload of a marked client payload, copied.
pub fn decode_client_payload_for_testing(payload: &[u8]) -> (decoded: Option<Vec<u8>>)
    ensures
        match decoded {
            Some(bytes) => client_payload(payload@) == Some(bytes@),
            None => client_payload(payload@) is None,
        },
{
    match decode_client_payload(payload) {
        Some(bytes) => Some(bytes_to_vec(bytes)),
        None => None,
    }
}

/// A message between two applications.
#[derive(Debug, PartialEq, Eq)]
pub struct ApplicationFrame {
    pub from_node_id: NodeId,
    pub destination_node_id: NodeId,
    pub payload: Vec<u8>,
}

/// An application frame on the wire: mark, sender, receiver, payload.
pub open spec fn application_frame(
    from_node_id: NodeId,
    destination_node_id: NodeId,
    payload: Seq<u8>,
) -> Seq<u8> {
    application_magic() + from_node_id.0@ + destination_node_id.0@ + payload
}

/// Whether bytes are an application frame: the mark, and room for the two nodes.
pub open spec fn is_application_frame(bytes: Seq<u8>) -> bool {
    bytes.len() >= 72 && bytes.take(8) == application_magic()
}

/// Frames a message between two applications.
pub fn encode_application_frame(
    from_node_id: NodeId,
    destination_node_id: NodeId,
    payload: &[u8],
) -> (framed: Vec<u8>)
    ensures
        framed@ == application_frame(from_node_id, destination_node_id, payload@),
{
    let magic = application_magic_bytes();
    let mut framed: Vec<u8> = bytes_to_vec(magic.as_slice());
    append_bytes(&mut framed, from_node_id.0.as_slice());
    append_bytes(&mut framed, destination_node_id.0.as_slice());
    append_bytes(&mut framed, payload);
    framed
}

/// The message in an application frame; anything else is no frame.
pub fn decode_application_frame(payload: &[u8]) -> (frame: Option<ApplicationFrame>)
    ensures
        match frame {
            Some(f) => {
                &&& is_application_frame(payload@)
                &&& f.from_node_id.0@ == payload@.subrange(8, 40)
                &&& f.destination_node_id.0@ == payload@.subrange(40, 72)
                &&& f.payload@ == payload@.skip(72)
            },
            None => !is_application_frame(payload@),
        },
{
    let len: usize = payload.len();
    if len < 72 {
        return None;
    }
    let magic = application_magic_bytes();
    if !bytes_equal(slice_subrange(payload, 0, 8), magic.as_slice()) {
        return None;
    }
    let from = bytes32_at(payload, 8);
    let destination = bytes32_at(payload, 40);
    let rest = bytes_slice(payload, 72, len);
    assert(payload@.skip(72) =~= payload@.subrange(72, len as int));
    Some(
        ApplicationFrame {
            from_node_id: NodeId(from),
            destination_node_id: NodeId(destination),
            payload: rest,
        },
    )
}

/// A client payload is read back as it was sent.
pub proof fn law_client_payload_round_trip(payload: Seq<u8>)
    ensures
        client_payload(client_frame(payload)) == Some(payload),
{
    let framed = client_frame(payload);
    assert(framed.take(8) =~= client_magic());
    assert(framed.skip(8) =~= payload);
}

/// What is read as a client payload was marked as one: framing it again gives the same bytes.
pub proof fn law_client_payload_is_canonical(framed: Seq<u8>)
    requires
        client_payload(framed) is Some,
    ensures
        client_frame(client_payload(framed)->0) == framed,
{
    assert(framed.take(8) + framed.skip(8) =~= framed);
}

/// A message is read back with the sender that it claims, the receiver that it is for, and its
/// payload, also after any number of relays passed the bytes on unchanged.
pub proof fn law_application_frame_round_trip(
    from_node_id: NodeId,
    destination_node_id: NodeId,
    payload: Seq<u8>,
)
    ensures
        ({
            let framed = application_frame(from_node_id, destination_node_id, payload);
            &&& is_application_frame(framed)
            &&& framed.subrange(8, 40) == from_node_id.0@
            &&& framed.subrange(40, 72) == destination_node_id.0@
            &&& framed.skip(72) == payload
        }),
{
    let framed = application_frame(from_node_id, destination_node_id, payload);
    assert(framed.take(8) =~= application_magic());
    assert(framed.subrange(8, 40) =~= from_node_id.0@);
    assert(framed.subrange(40, 72) =~= destination_node_id.0@);
    assert(framed.skip(72) =~= payload);
}

/// A client payload is never taken for an application frame, nor the other way round.
pub proof fn law_marks_are_distinct(bytes: Seq<u8>)
    ensures
        !(is_application_frame(bytes) && client_payload(bytes) is Some),
{
    if is_application_frame(bytes) && client_payload(bytes) is Some {
        assert(client_magic()[2] == bytes.take(8)[2]);
        assert(application_magic()[2] == bytes.take(8)[2]);
    }
}

/// Bytes are a client payload exactly if they start with the mark, however many follow it, even none;
/// the payload is all that follows.
pub proof fn law_marked_bytes_are_a_client_payload(framed: Seq<u8>, payload: Seq<u8>)
    ensures
        client_payload(framed) is Some <==> exists|rest: Seq<u8>| #[trigger]
            client_frame(rest) == framed,
        client_payload(framed) == Some(payload) <==> client_frame(payload) == framed,
        client_frame(payload).len() == payload.len() + 8,
{
    if client_payload(framed) is Some {
        law_client_payload_is_canonical(framed);
    }
    law_client_payload_round_trip(payload);
    if exists|rest: Seq<u8>| #[trigger] client_frame(rest) == framed {
        let rest = choose|rest: Seq<u8>| #[trigger] client_frame(rest) == framed;
        law_client_payload_round_trip(rest);
    }
}

/// Bytes are an application frame exactly if they start with the mark and have room for the two
/// nodes: a payload may be empty, and every such bytes are the frame of some message.
pub proof fn law_marked_bytes_are_an_application_frame(bytes: Seq<u8>)
    ensures
        is_application_frame(bytes) <==> {
            &&& bytes.len() >= 72
            &&& forall|i: int| 0 <= i < 8 ==> #[trigger] bytes[i] == application_magic()[i]
        },
        is_application_frame(bytes) ==> bytes == application_magic() + bytes.subrange(8, 40)
            + bytes.subrange(40, 72) + bytes.skip(72),
{
    if bytes.len() >= 72 {
        if forall|i: int| 0 <= i < 8 ==> #[trigger] bytes[i] == application_magic()[i] {
            assert(bytes.take(8) =~= application_magic());
        }
        if bytes.take(8) == application_magic() {
            assert forall|i: int| 0 <= i < 8 implies #[trigger] bytes[i]
                == application_magic()[i] by {
                assert(bytes.take(8)[i] == bytes[i]);
            }
            assert(bytes =~= application_magic() + bytes.subrange(8, 40) + bytes.subrange(40, 72)
                + bytes.skip(72));
        }
    }
}

/// What one client marks another one reads, byte for byte, and bytes without the mark are read by none.
pub proof fn law_marked_payloads_arrive(
    payload: &[u8],
    framed: Vec<u8>,
    received: &[u8],
    decoded: Option<&[u8]>,
)
    requires
        call_ensures(encode_client_payload, (payload,), framed),
        call_ensures(decode_client_payload, (received,), decoded),
    ensures
        framed@ == client_magic() + payload@,
        received@ == framed@ ==> decoded is Some && decoded->0@ == payload@,
        decoded is Some <==> received@.len() >= 8 && received@.take(8) == client_magic(),
        decoded is Some ==> decoded->0@ == received@.skip(8),
{
    law_client_payload_round_trip(payload@);
}

/// A message that is framed is read back with its two nodes and its payload, and bytes that are too
/// short or lack the mark are no message.
pub proof fn law_framed_messages_arrive(
    from_node_id: NodeId,
    destination_node_id: NodeId,
    payload: &[u8],
    framed: Vec<u8>,
    received: &[u8],
    frame: Option<ApplicationFrame>,
)
    requires
        call_ensures(
            encode_application_frame,
            (from_node_id, destination_node_id, payload),
            framed,
        ),
        call_ensures(decode_application_frame, (received,), frame),
    ensures
        framed@.len() == 72 + payload@.len(),
        received@ == framed@ ==> {
            &&& frame is Some
            &&& frame->0.from_node_id.0@ == from_node_id.0@
            &&& frame->0.destination_node_id.0@ == destination_node_id.0@
            &&& frame->0.payload@ == payload@
        },
        frame is Some <==> received@.len() >= 72 && received@.take(8) == application_magic(),
{
    law_application_frame_round_trip(from_node_id, destination_node_id, payload@);
}

} // verus!
