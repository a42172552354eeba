use crate::frame::frame_types::{Frame, FrameView, Opcode, PayloadLen, RESERVED_LEN};
use crate::utils::byte_buffer::push_range;
use vstd::prelude::*;
use vstd::utf8::encode_utf8;

verus! {

/// The frame that the server sends for `payload` under `opcode`: final,
/// never masked, with the length in the smallest class that holds it.
pub open spec fn outgoing(opcode: Opcode, payload: Seq<u8>) -> FrameView {
    FrameView {
        is_final: true,
        rsv1: false,
        rsv2: false,
        rsv3: false,
        opcode,
        mask: false,
        payload_length: PayloadLen::spec_from_size(payload.len() as int),
        masking_key: None,
        payload_data: Some(payload),
    }
}

/// Whether a payload of `len` bytes can go out under `opcode`: the length
/// fits the wire, and a control frame carries at most 125 bytes.
pub open spec fn sendable(opcode: Opcode, len: int) -> bool {
    len < RESERVED_LEN && (opcode.is_control() ==> len <= 125)
}

/// A frame that can go out is well formed.
pub proof fn lemma_outgoing_wf(opcode: Opcode, payload: Seq<u8>)
    ensures
        outgoing(opcode, payload).wf() <==> sendable(opcode, payload.len() as int),
        sendable(opcode, payload.len() as int) ==> outgoing(opcode, payload).payload_length.value()
            == payload.len(),
{
}

/// Builds the frame that carries `payload` under `opcode` to the peer, or
/// none where such a frame cannot go out.
pub fn outgoing_frame(opcode: Opcode, payload: Vec<u8>) -> (frame: Option<Frame>)
    ensures
        match frame {
            Some(f) => f@ == outgoing(opcode, payload@) && f@.wf(),
            None => !sendable(opcode, payload@.len() as int),
        },
{
    let len: usize = payload.len();
    if len as u64 >= RESERVED_LEN || (opcode.is_control() && len > 125) {
        return None;
    }
    let mut frame: Frame = Frame::default();
    frame.opcode = opcode;
    frame.payload_length = PayloadLen::from_size(len);
    frame.payload_data = Some(payload);
    Some(frame)
}

/// The frame that carries a text message to the peer.
pub fn text_frame(message: String) -> (frame: Option<Frame>)
    ensures
        match frame {
            Some(f) => f@ == outgoing(Opcode::Text, encode_utf8(message@)) && f@.wf(),
            None => !sendable(Opcode::Text, encode_utf8(message@).len() as int),
        },
{
    let mut message_vec: Vec<u8> = Vec::new();
    let bytes: &[u8] = message.as_str().as_bytes();
    push_range(&mut message_vec, bytes, 0, bytes.len());
    assert(bytes@.subrange(0, bytes@.len() as int) =~= bytes@);
    outgoing_frame(Opcode::Text, message_vec)
}

/// The frame that carries a binary message to the peer.
pub fn binary_frame(data: Vec<u8>) -> (frame: Option<Frame>)
    ensures
        match frame {
            Some(f) => f@ == outgoing(Opcode::Binary, data@) && f@.wf(),
            None => !sendable(Opcode::Binary, data@.len() as int),
        },
{
    outgoing_frame(Opcode::Binary, data)
}

} // verus!
