//! The message data model: the two shapes a delivered message can take, and
//! their binary wire format.
//!
//! A message on the wire is a tag byte (`0` for an interface message, `1`
//! for a response), the fixed 64-bit fields little-endian, and the payload
//! prefixed by its compact length.

use vstd::prelude::*;

verus! {

use crate::codec::{
    MAX_PAYLOAD_LEN, append_bytes, append_compact_u32, append_u64_le, lemma_compact_u32_round_trip,
    lemma_compact_u32_sound, lemma_u64_le_complete, lemma_u64_le_round_trip, read_compact_u32,
    read_u64_le, spec_compact_u32, spec_decode_compact_u32, spec_u64_le, spec_u64_from_le,
};
use vstd::slice::{slice_subrange, slice_to_vec};

/// A message delivered to the process that registered the interface it was
/// addressed to.
#[derive(Debug, Clone, PartialEq, Eq)]
pub struct InterfaceMessage {
    /// Correlation identifier to answer with; `0` when the emitter wants no
    /// answer.
    pub message_id: u64,
    /// The process that emitted the message.
    pub emitter_pid: u64,
    /// The opaque payload.
    pub actual_data: Vec<u8>,
}

/// A message delivered to the process that emitted the request it answers.
#[derive(Debug, Clone, PartialEq, Eq)]
pub struct ResponseMessage {
    /// Correlation identifier of the request being answered.
    pub message_id: u64,
    /// The opaque payload.
    pub actual_data: Vec<u8>,
}

/// A delivered message: one of exactly two shapes.
#[derive(Debug, Clone, PartialEq, Eq)]
pub enum Message {
    /// Delivered to the registered handler of an interface.
    Interface(InterfaceMessage),
    /// Delivered to the original emitter of a request.
    Response(ResponseMessage),
}

/// Mathematical value of an [`InterfaceMessage`].
pub struct InterfaceMessageView {
    pub message_id: u64,
    pub emitter_pid: u64,
    pub actual_data: Seq<u8>,
}

/// Mathematical value of a [`ResponseMessage`].
pub struct ResponseMessageView {
    pub message_id: u64,
    pub actual_data: Seq<u8>,
}

/// Mathematical value of a [`Message`].
pub enum MessageView {
    Interface(InterfaceMessageView),
    Response(ResponseMessageView),
}

impl View for InterfaceMessage {
    type V = InterfaceMessageView;

    open spec fn view(&self) -> InterfaceMessageView {
        InterfaceMessageView {
            message_id: self.message_id,
            emitter_pid: self.emitter_pid,
            actual_data: self.actual_data@,
        }
    }
}

impl View for ResponseMessage {
    type V = ResponseMessageView;

    open spec fn view(&self) -> ResponseMessageView {
        ResponseMessageView { message_id: self.message_id, actual_data: self.actual_data@ }
    }
}

impl View for Message {
    type V = MessageView;

    open spec fn view(&self) -> MessageView {
        match self {
            Message::Interface(im) => MessageView::Interface(im@),
            Message::Response(rm) => MessageView::Response(rm@),
        }
    }
}

impl MessageView {
    /// The payload the message carries.
    pub open spec fn payload(self) -> Seq<u8> {
        match self {
            MessageView::Interface(im) => im.actual_data,
            MessageView::Response(rm) => rm.actual_data,
        }
    }

    /// The correlation identifier carried by the message.
    pub open spec fn correlation_id(self) -> u64 {
        match self {
            MessageView::Interface(im) => im.message_id,
            MessageView::Response(rm) => rm.message_id,
        }
    }

    /// Whether the payload is short enough for the wire format.
    pub open spec fn payload_fits(self) -> bool {
        self.payload().len() <= MAX_PAYLOAD_LEN
    }
}

/// The wire bytes of a message.
pub open spec fn spec_message_encoding(m: MessageView) -> Seq<u8> {
    match m {
        MessageView::Interface(im) => seq![0u8] + spec_u64_le(im.message_id) + spec_u64_le(
            im.emitter_pid,
        ) + spec_compact_u32(im.actual_data.len() as u32) + im.actual_data,
        MessageView::Response(rm) => seq![1u8] + spec_u64_le(rm.message_id) + spec_compact_u32(
            rm.actual_data.len() as u32,
        ) + rm.actual_data,
    }
}

/// The message denoted by a whole byte sequence, if it is a well-formed
/// encoding of one.
pub open spec fn spec_decode_message(s: Seq<u8>) -> Option<MessageView> {
    if s.len() < 1 {
        None
    } else if s[0] == 0u8 {
        if s.len() < 17 {
            None
        } else {
            match spec_decode_compact_u32(s.skip(17)) {
                Some((n, k)) => {
                    if s.len() == 17 + k + n {
                        Some(
                            MessageView::Interface(
                                InterfaceMessageView {
                                    message_id: spec_u64_from_le(s.subrange(1, 9)),
                                    emitter_pid: spec_u64_from_le(s.subrange(9, 17)),
                                    actual_data: s.skip(17 + k),
                                },
                            ),
                        )
                    } else {
                        None
                    }
                },
                None => None,
            }
        }
    } else if s[0] == 1u8 {
        if s.len() < 9 {
            None
        } else {
            match spec_decode_compact_u32(s.skip(9)) {
                Some((n, k)) => {
                    if s.len() == 9 + k + n {
                        Some(
                            MessageView::Response(
                                ResponseMessageView {
                                    message_id: spec_u64_from_le(s.subrange(1, 9)),
                                    actual_data: s.skip(9 + k),
                                },
                            ),
                        )
                    } else {
                        None
                    }
                },
                None => None,
            }
        }
    } else {
        None
    }
}

/// Decoding the encoding of a message gives the message back: the wire
/// format loses nothing.
pub proof fn lemma_message_round_trip(m: MessageView)
    requires
        m.payload_fits(),
    ensures
        spec_decode_message(spec_message_encoding(m)) == Some(m),
{
    let s = spec_message_encoding(m);
    match m {
        MessageView::Interface(im) => {
            let n = im.actual_data.len() as u32;
            lemma_u64_le_round_trip(im.message_id);
            lemma_u64_le_round_trip(im.emitter_pid);
            lemma_compact_u32_round_trip(n, im.actual_data);
            let c = spec_compact_u32(n);
            assert(s.len() == 17 + c.len() + im.actual_data.len());
            assert(s[0] == 0u8);
            assert(s.skip(17) =~= c + im.actual_data);
            assert(s.subrange(1, 9) =~= spec_u64_le(im.message_id));
            assert(s.subrange(9, 17) =~= spec_u64_le(im.emitter_pid));
            assert(s.skip(17 + c.len() as int) =~= im.actual_data);
            assert(spec_decode_message(s) == Some(m));
        },
        MessageView::Response(rm) => {
            let n = rm.actual_data.len() as u32;
            lemma_u64_le_round_trip(rm.message_id);
            lemma_compact_u32_round_trip(n, rm.actual_data);
            let c = spec_compact_u32(n);
            assert(s.len() == 9 + c.len() + rm.actual_data.len());
            assert(s[0] == 1u8);
            assert(s.skip(9) =~= c + rm.actual_data);
            assert(s.subrange(1, 9) =~= spec_u64_le(rm.message_id));
            assert(s.skip(9 + c.len() as int) =~= rm.actual_data);
            assert(spec_decode_message(s) == Some(m));
        },
    }
}

/// A whole byte sequence that decodes to a message is exactly that
/// message's encoding: nothing else on the wire reads as that message.
pub proof fn lemma_message_decode_sound(s: Seq<u8>, m: MessageView)
    requires
        spec_decode_message(s) == Some(m),
    ensures
        s == spec_message_encoding(m),
{
    if s[0] == 0u8 {
        let tail = s.skip(17);
        let pair = spec_decode_compact_u32(tail)->Some_0;
        let n = pair.0;
        let k = pair.1;
        lemma_compact_u32_sound(tail, n, k);
        lemma_u64_le_complete(s.subrange(1, 9));
        lemma_u64_le_complete(s.subrange(9, 17));
        assert(spec_compact_u32(n) =~= s.subrange(17, 17 + k));
        assert(s =~= spec_message_encoding(m));
    } else {
        let tail = s.skip(9);
        let pair = spec_decode_compact_u32(tail)->Some_0;
        let n = pair.0;
        let k = pair.1;
        lemma_compact_u32_sound(tail, n, k);
        lemma_u64_le_complete(s.subrange(1, 9));
        assert(spec_compact_u32(n) =~= s.subrange(9, 9 + k));
        assert(s =~= spec_message_encoding(m));
    }
}

/// Two distinct messages never share wire bytes.
pub proof fn lemma_message_encoding_unambiguous(m1: MessageView, m2: MessageView)
    requires
        spec_message_encoding(m1) == spec_message_encoding(m2),
        m1.payload_fits(),
        m2.payload_fits(),
    ensures
        m1 == m2,
{
    lemma_message_round_trip(m1);
    lemma_message_round_trip(m2);
}

/// Encodes a message to its wire bytes.
pub fn encode_message(m: &Message) -> (r: Vec<u8>)
    requires
        m@.payload_fits(),
    ensures
        r@ == spec_message_encoding(m@),
{
    let mut out: Vec<u8> = Vec::new();
    match m {
        Message::Interface(im) => {
            out.push(0u8);
            append_u64_le(&mut out, im.message_id);
            append_u64_le(&mut out, im.emitter_pid);
            append_compact_u32(&mut out, im.actual_data.len() as u32);
            append_bytes(&mut out, im.actual_data.as_slice());
            assert(out@ =~= spec_message_encoding(m@));
        },
        Message::Response(rm) => {
            out.push(1u8);
            append_u64_le(&mut out, rm.message_id);
            append_compact_u32(&mut out, rm.actual_data.len() as u32);
            append_bytes(&mut out, rm.actual_data.as_slice());
            assert(out@ =~= spec_message_encoding(m@));
        },
    }
    out
}

/// Decodes a whole byte sequence into the message it encodes, if any.
pub fn decode_message(s: &[u8]) -> (r: Option<Message>)
    ensures
        match r {
            Some(m) => spec_decode_message(s@) == Some(m@),
            None => spec_decode_message(s@) is None,
        },
{
    if s.len() < 1 {
        return None;
    }
    let tag = s[0];
    if tag == 0u8 {
        if s.len() < 17 {
            return None;
        }
        let message_id = read_u64_le(s, 1);
        let emitter_pid = read_u64_le(s, 9);
        match read_compact_u32(s, 17) {
            Some((n, j)) => {
                if s.len() - j == n as usize {
                    let data = slice_to_vec(slice_subrange(s, j, s.len()));
                    assert(s@.subrange(j as int, s@.len() as int) =~= s@.skip(j as int));
                    Some(
                        Message::Interface(
                            InterfaceMessage { message_id, emitter_pid, actual_data: data },
                        ),
                    )
                } else {
                    None
                }
            },
            None => None,
        }
    } else if tag == 1u8 {
        if s.len() < 9 {
            return None;
        }
        let message_id = read_u64_le(s, 1);
        match read_compact_u32(s, 9) {
            Some((n, j)) => {
                if s.len() - j == n as usize {
                    let data = slice_to_vec(slice_subrange(s, j, s.len()));
                    assert(s@.subrange(j as int, s@.len() as int) =~= s@.skip(j as int));
                    Some(Message::Response(ResponseMessage { message_id, actual_data: data }))
                } else {
                    None
                }
            },
            None => None,
        }
    } else {
        None
    }
}

} // verus!
