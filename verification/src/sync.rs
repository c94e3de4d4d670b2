//! Message layer of the inter-half link.
//!
//! A frame on the wire is a tag byte followed by a fixed number of payload
//! bytes; a static registry maps each known tag to its payload length.
//! An unknown tag fails a frame before any payload byte is read; a parity
//! failure on any byte discards the whole frame. Both errors are recovered
//! by resynchronizing on the next sync pulse.

use vstd::prelude::*;

verus! {

/// Longest encoded message: tag byte plus the longest registered payload.
pub const MAX_MESSAGE_LEN: usize = 2;

/// Capacity of the bounded channels that carry messages between a role
/// loop and the rest of the firmware; a full channel suspends the sender
/// and an empty one the receiver, the system's sole flow control.
pub const CHANNEL_CAPACITY: usize = 8;

/// A message exchanged between the two keyboard halves.
#[derive(Debug, Clone, Copy, PartialEq, Eq, Structural)]
pub enum SyncMessage {
    /// Diagnostic message carrying one arbitrary byte.
    Test(u8),
}

/// Why decoding a frame failed. Both cases are non-fatal: the receiver
/// drops the frame and waits for the next sync pulse.
#[derive(Debug, Clone, Copy, PartialEq, Eq, Structural)]
pub enum LinkError {
    /// A received byte's parity bit did not match its data bits.
    ParityMismatch,
    /// The frame's tag byte is not in the registry.
    UnknownMessageType,
}

/// The tag registry: payload length of each known tag byte.
pub open spec fn spec_msg_len(msg_type: u8) -> Option<usize> {
    if msg_type == 1 {
        Some(1usize)
    } else {
        None
    }
}

/// Byte encoding of a message: its tag byte, then its payload bytes.
pub open spec fn spec_encoding(m: SyncMessage) -> Seq<u8> {
    match m {
        SyncMessage::Test(v) => seq![1u8, v],
    }
}

/// Decoding of a byte sequence, as `from_bytes` performs it: the tag byte
/// picks the variant, and the payload must be complete.
pub open spec fn spec_from_bytes(s: Seq<u8>) -> Option<SyncMessage> {
    if s.len() >= 2 && s[0] == 1 {
        Some(SyncMessage::Test(s[1]))
    } else {
        None
    }
}

impl SyncMessage {
    /// Payload length of a tag byte, or `None` for a tag outside the registry.
    pub fn msg_len(msg_type: u8) -> (r: Option<usize>)
        ensures
            r == spec_msg_len(msg_type),
    {
        match msg_type {
            1 => Some(1),
            _ => None,
        }
    }

    /// Encodes the message into a fixed buffer; the second component is the
    /// number of bytes that are meaningful.
    pub fn to_bytes(self) -> (r: ([u8; MAX_MESSAGE_LEN], usize))
        ensures
            r.1 == spec_encoding(self).len(),
            r.1 <= MAX_MESSAGE_LEN,
            r.0@.take(r.1 as int) == spec_encoding(self),
    {
        match self {
            SyncMessage::Test(val) => {
                let buf: [u8; MAX_MESSAGE_LEN] = [1, val];
                proof {
                    assert(buf@.take(2) =~= spec_encoding(self));
                }
                (buf, 2)
            },
        }
    }

    /// Decodes a byte sequence; `None` when the tag is unknown or the
    /// payload is incomplete.
    pub fn from_bytes(bytes: &[u8]) -> (r: Option<Self>)
        ensures
            r == spec_from_bytes(bytes@),
    {
        if bytes.len() >= 2 && bytes[0] == 1 {
            Some(SyncMessage::Test(bytes[1]))
        } else {
            None
        }
    }
}

impl LinkError {
    /// A short description for logging.
    pub fn describe(self) -> (r: &'static str)
        ensures
            self is ParityMismatch ==> r@ == "parity check failed"@,
            self is UnknownMessageType ==> r@ == "unknown message type"@,
    {
        match self {
            LinkError::ParityMismatch => "parity check failed",
            LinkError::UnknownMessageType => "unknown message type",
        }
    }
}

/// How many payload bytes follow a received tag byte. An unknown tag
/// fails the frame at once, before any payload byte is read; the caller
/// must resynchronize on the next sync pulse.
pub fn frame_payload_len(tag: u8) -> (r: Result<usize, LinkError>)
    ensures
        spec_msg_len(tag) matches Some(n) ==> r == Ok::<usize, LinkError>(n),
        spec_msg_len(tag) is None ==> r == Err::<usize, LinkError>(LinkError::UnknownMessageType),
{
    match SyncMessage::msg_len(tag) {
        Some(n) => Ok(n),
        None => Err(LinkError::UnknownMessageType),
    }
}

/// Assembles the message of a completed frame. Once the registry has
/// accepted the tag and exactly the announced payload is in hand,
/// assembly cannot fail.
pub fn assemble_frame(tag: u8, payload: &Vec<u8>) -> (r: SyncMessage)
    requires
        spec_msg_len(tag) == Some(payload@.len() as usize),
    ensures
        spec_from_bytes(seq![tag] + payload@) == Some(r),
{
    let v = *payload.get(0).unwrap();
    proof {
        assert((seq![tag] + payload@)[0] == tag);
        assert((seq![tag] + payload@)[1] == payload@[0]);
    }
    SyncMessage::Test(v)
}

/// The byte sequence the sending role transmits for a message: its tag
/// byte followed by its payload bytes, in order.
pub fn encode_message(m: SyncMessage) -> (r: Vec<u8>)
    ensures
        r@ == spec_encoding(m),
{
    let (bytes, len) = m.to_bytes();
    let mut out: Vec<u8> = Vec::new();
    let mut i: usize = 0;
    while i < len
        invariant
            i <= len,
            len <= MAX_MESSAGE_LEN,
            bytes@.len() == MAX_MESSAGE_LEN,
            out@ == bytes@.take(i as int),
        decreases len - i,
    {
        out.push(bytes[i]);
        proof {
            assert(out@ =~= bytes@.take(i + 1));
        }
        i += 1;
    }
    proof {
        assert(out@ == bytes@.take(len as int));
    }
    out
}

/// Every message's encoding decodes back to the message, and its tag is in
/// the registry with exactly the encoded payload length.
pub proof fn lemma_encode_decode_round_trip(m: SyncMessage)
    ensures
        spec_from_bytes(spec_encoding(m)) == Some(m),
        spec_msg_len(spec_encoding(m)[0]) == Some((spec_encoding(m).len() - 1) as usize),
{
}

/// End-to-end round trip of the link: every byte of a message's encoding
/// survives its trip over the wire — the levels the sender drives for it
/// decode back to it — and the reassembled byte sequence decodes back to
/// the message. A frame that reaches the receiver with no bit corrupted
/// therefore yields exactly the message that was sent.
pub proof fn lemma_link_round_trip(m: SyncMessage)
    ensures
        forall|i: int|
            0 <= i < spec_encoding(m).len() ==> crate::wire::spec_decode_byte(
                crate::wire::spec_wire_levels(#[trigger] spec_encoding(m)[i]),
            ) == Ok::<u8, LinkError>(spec_encoding(m)[i]),
        spec_from_bytes(spec_encoding(m)) == Some(m),
{
    assert forall|i: int| 0 <= i < spec_encoding(m).len() implies crate::wire::spec_decode_byte(
        crate::wire::spec_wire_levels(#[trigger] spec_encoding(m)[i]),
    ) == Ok::<u8, LinkError>(spec_encoding(m)[i]) by {
        crate::wire::lemma_byte_round_trip(spec_encoding(m)[i]);
    }
}

} // verus!
