use crate::frame::frame_types::{
    be16, be16_bytes, be64, be64_bytes, DecodeError, FrameView, Opcode, PayloadLen,
};
use crate::utils::unmask_payload::apply_mask;
use vstd::prelude::*;

verus! {

impl FrameView {
    /// The frame as the other side reads it off the wire: the same final
    /// flag, opcode and mask flag, the length in the smallest class that
    /// holds it, and the payload with the masking key removed where the
    /// frame is masked, unchanged where it is not.
    pub open spec fn received(self) -> FrameView {
        FrameView {
            payload_length: PayloadLen::spec_from_size(self.payload_length.value()),
            payload_data: Some(
                if self.mask {
                    apply_mask(self.payload_data.unwrap(), self.masking_key.unwrap())
                } else {
                    self.payload_data.unwrap()
                },
            ),
            ..self
        }
    }
}

/// Two bytes written most significant first read back as the same number.
pub proof fn lemma_be16_roundtrip(value: int)
    requires
        0 <= value < 0x1_0000,
    ensures
        be16(be16_bytes(value)) == value,
{
}

/// Eight bytes written most significant first read back as the same number.
pub proof fn lemma_be64_roundtrip(value: int)
    requires
        0 <= value < 0x1_0000_0000_0000_0000,
    ensures
        be64(be64_bytes(value)) == value,
{
    let v = value as u64;
    assert(((((((((v / 0x100_0000_0000_0000) as u8) as u64 * 256 + ((v / 0x1_0000_0000_0000 % 256) as u8) as u64)
        * 256 + ((v / 0x100_0000_0000 % 256) as u8) as u64) * 256 + ((v / 0x1_0000_0000 % 256) as u8) as u64) * 256 + ((v
        / 0x100_0000 % 256) as u8) as u64) * 256 + ((v / 0x1_0000 % 256) as u8) as u64) * 256 + ((v / 0x100 % 256) as u8) as u64) * 256
        + ((v % 256) as u8) as u64 == v) by (bit_vector);
}

/// The header that the decoder finds in front of an encoded frame.
pub open spec fn sent_header(frame: FrameView) -> FrameView {
    FrameView { payload_data: None, ..frame.received() }
}

/// The two fixed bytes of an encoded frame say what the frame says.
proof fn lemma_fixed_bytes(frame: FrameView)
    requires
        frame.header_wf(),
    ensures
        0 <= frame.first_byte() < 256,
        frame.first_byte() % 16 == frame.opcode.code(),
        (frame.first_byte() / 16) % 8 == 0,
        frame.first_byte() >= 128 <==> frame.is_final,
        Opcode::from_code(frame.opcode.code()) == frame.opcode,
        0 <= frame.second_byte() < 256,
        frame.second_byte() >= 128 <==> frame.mask,
        frame.second_byte() % 128 == PayloadLen::spec_from_size(
            frame.payload_length.value(),
        ).indicator(),
        PayloadLen::spec_from_size(frame.payload_length.value()).wf(),
        PayloadLen::spec_from_size(frame.payload_length.value()).value()
            == frame.payload_length.value(),
{
}

/// The decoder reads the header of an encoded frame as it was written,
/// whatever follows the frame in the buffer.
pub proof fn lemma_parse_header_encode(frame: FrameView, rest: Seq<u8>)
    requires
        frame.wf(),
    ensures
        FrameView::parse_header(frame.encode() + rest) == Ok::<FrameView, DecodeError>(
            sent_header(frame),
        ),
        sent_header(frame).header_wf(),
        sent_header(frame).frame_len() == frame.encode().len(),
{
    let data = frame.encode() + rest;
    let value = frame.payload_length.value();
    let class = PayloadLen::spec_from_size(value);
    let header = sent_header(frame);
    let start = header.header_len();
    lemma_fixed_bytes(frame);
    assert(data[0] == frame.first_byte() as u8);
    assert(data[1] == frame.second_byte() as u8);
    assert(data.len() >= start);
    match class {
        PayloadLen::LengthU16(len) => {
            lemma_be16_roundtrip(value);
            assert(data.subrange(2, 4) =~= be16_bytes(value));
        },
        PayloadLen::LengthU64(len) => {
            lemma_be64_roundtrip(value);
            assert(data.subrange(2, 10) =~= be64_bytes(value));
        },
        _ => {},
    }
    if frame.mask {
        assert(data.subrange(start - 4, start) =~= frame.masking_key.unwrap());
    }
}

/// Encoding then decoding a frame gives the frame back: the decoder finds in
/// the encoding of any well-formed frame, whatever follows it in the buffer,
/// the same final flag, opcode and mask flag, the same length, and the
/// payload (byte for byte where the frame is not masked); and it takes
/// exactly the bytes of the encoding.
pub proof fn lemma_decode_encode(frame: FrameView, rest: Seq<u8>)
    requires
        frame.wf(),
    ensures
        FrameView::decode(frame.encode() + rest) == Ok::<FrameView, DecodeError>(frame.received()),
        frame.received().wf(),
        frame.received().frame_len() == frame.encode().len(),
        frame.received().is_final == frame.is_final,
        frame.received().opcode == frame.opcode,
        frame.received().mask == frame.mask,
        frame.received().payload_length.value() == frame.payload_length.value(),
        !frame.mask ==> frame.received().payload_data == frame.payload_data,
{
    let data = frame.encode() + rest;
    let value = frame.payload_length.value();
    let header = sent_header(frame);
    let start = header.header_len();
    lemma_parse_header_encode(frame, rest);
    lemma_fixed_bytes(frame);
    assert(data.subrange(start, start + value) =~= frame.payload_data.unwrap());
    if frame.mask {
        assert(data.subrange(start - 4, start) =~= frame.masking_key.unwrap());
    }
}

/// A header that was read, and one that was found malformed, stay so when
/// more bytes arrive.
pub proof fn lemma_parse_header_extend(data: Seq<u8>, more: Seq<u8>)
    ensures
        FrameView::parse_header(data) is Ok ==> FrameView::parse_header(data + more)
            == FrameView::parse_header(data),
        FrameView::parse_header(data) == Err::<FrameView, DecodeError>(
            DecodeError::MalformedHeader,
        ) ==> FrameView::parse_header(data + more) == FrameView::parse_header(data),
{
    let longer = data + more;
    if data.len() >= 2 {
        assert(longer[0] == data[0]);
        assert(longer[1] == data[1]);
        if data.len() >= 4 {
            assert(longer.subrange(2, 4) =~= data.subrange(2, 4));
        }
        if data.len() >= 10 {
            assert(longer.subrange(2, 10) =~= data.subrange(2, 10));
        }
        if FrameView::parse_header(data) is Ok {
            let start = FrameView::parse_header(data).unwrap().header_len();
            if start >= 6 {
                assert(longer.subrange(start - 4, start) =~= data.subrange(start - 4, start));
            }
        }
    }
}

/// A payload that was read stays as it was read when more bytes arrive.
pub proof fn lemma_parse_payload_extend(header: FrameView, data: Seq<u8>, more: Seq<u8>)
    ensures
        header.parse_payload(data) is Ok ==> header.parse_payload(data + more)
            == header.parse_payload(data),
{
    let longer = data + more;
    if header.parse_payload(data) is Ok {
        let start = header.header_len();
        let end = header.frame_len();
        assert(longer.subrange(start, end) =~= data.subrange(start, end));
        if header.mask {
            assert(longer.subrange(start - 4, start) =~= data.subrange(start - 4, start));
        }
    }
}

} // verus!
