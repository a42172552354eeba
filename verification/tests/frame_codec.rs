use websocket_server::frame::frame_types::{DecodeError, Frame, HeaderInfo, Opcode, PayloadLen};
use websocket_server::utils::unmask_payload::unmask_payload;

fn unmasked_frame(opcode: Opcode, payload: Vec<u8>) -> Frame {
    Frame {
        is_final: true,
        rsv1: false,
        rsv2: false,
        rsv3: false,
        opcode,
        mask: false,
        payload_length: PayloadLen::from_size(payload.len()),
        masking_key: None,
        payload_data: Some(payload),
    }
}

fn patterned(len: usize) -> Vec<u8> {
    (0..len).map(|i| (i * 7 + 3) as u8).collect()
}

fn round_trip(len: usize) {
    let payload = patterned(len);
    let frame = unmasked_frame(Opcode::Binary, payload.clone());
    let bytes = frame.to_bytes();

    let mut decoded = Frame::default();
    let info = decoded.default_header(bytes.clone()).expect("header");
    assert_eq!(info.payload_len, len as u64);
    assert_eq!(info.header_len + len, bytes.len());
    let consumed = decoded.default_from(bytes.clone()).expect("payload");
    assert_eq!(consumed, bytes.len());

    assert_eq!(decoded.opcode, Opcode::Binary);
    assert!(decoded.is_final);
    assert!(!decoded.mask);
    assert_eq!(decoded.payload_data, Some(payload));
    assert_eq!(decoded, frame);
}

#[test]
fn round_trip_empty_payload() {
    round_trip(0);
}

#[test]
fn round_trip_one_byte() {
    round_trip(1);
}

#[test]
fn round_trip_largest_inline_length() {
    round_trip(125);
}

#[test]
fn round_trip_smallest_16_bit_length() {
    round_trip(126);
}

#[test]
fn round_trip_largest_16_bit_length() {
    round_trip(65535);
}

#[test]
fn round_trip_smallest_64_bit_length() {
    round_trip(65536);
}

#[test]
fn round_trip_masked_frame_unmasks_payload() {
    let key = [0x37, 0xfa, 0x21, 0x3d];
    let frame = Frame {
        is_final: true,
        rsv1: false,
        rsv2: false,
        rsv3: false,
        opcode: Opcode::Text,
        mask: true,
        payload_length: PayloadLen::from_size(5),
        masking_key: Some(key),
        payload_data: Some(unmask_payload(b"Hello", &key)),
    };
    let bytes = frame.to_bytes();
    assert_eq!(bytes, vec![0x81, 0x85, 0x37, 0xfa, 0x21, 0x3d, 0x7f, 0x9f, 0x4d, 0x51, 0x58]);

    let mut decoded = Frame::default();
    assert_eq!(
        decoded.default_header(bytes.clone()),
        Ok(HeaderInfo { header_len: 6, payload_len: 5 })
    );
    assert_eq!(decoded.masking_key, Some(key));
    assert_eq!(decoded.payload_data, None);
    assert_eq!(decoded.default_from(bytes), Ok(11));
    assert_eq!(decoded.opcode, Opcode::Text);
    assert!(decoded.is_final);
    assert!(decoded.mask);
    assert_eq!(decoded.payload_data, Some(b"Hello".to_vec()));
}

#[test]
fn encode_unmasked_text_hello() {
    let frame = unmasked_frame(Opcode::Text, b"Hello".to_vec());
    assert_eq!(frame.to_bytes(), vec![0x81, 0x05, 0x48, 0x65, 0x6c, 0x6c, 0x6f]);
}

#[test]
fn encode_uses_16_bit_class_for_256_bytes() {
    let bytes = unmasked_frame(Opcode::Binary, vec![0xab; 256]).to_bytes();
    assert_eq!(&bytes[..4], &[0x82, 0x7e, 0x01, 0x00]);
    assert_eq!(bytes.len(), 4 + 256);
    assert!(bytes[4..].iter().all(|b| *b == 0xab));
}

#[test]
fn encode_uses_64_bit_class_for_65536_bytes() {
    let bytes = unmasked_frame(Opcode::Binary, vec![1; 65536]).to_bytes();
    assert_eq!(&bytes[..10], &[0x82, 0x7f, 0, 0, 0, 0, 0, 1, 0, 0]);
    assert_eq!(bytes.len(), 10 + 65536);
}

#[test]
fn encode_picks_smallest_class_whatever_the_frame_says() {
    let mut frame = unmasked_frame(Opcode::Binary, vec![9, 8, 7]);
    frame.payload_length = PayloadLen::LengthU16(3);
    assert_eq!(frame.to_bytes(), vec![0x82, 0x03, 9, 8, 7]);
    frame.payload_length = PayloadLen::LengthU64(3);
    assert_eq!(frame.to_bytes(), vec![0x82, 0x03, 9, 8, 7]);
}

#[test]
fn encode_clears_final_bit_of_fragment() {
    let mut frame = unmasked_frame(Opcode::Text, vec![0x41]);
    frame.is_final = false;
    assert_eq!(frame.to_bytes(), vec![0x01, 0x01, 0x41]);
}

#[test]
fn encode_writes_reserved_bits_as_the_frame_holds_them() {
    let mut frame = unmasked_frame(Opcode::Binary, vec![]);
    frame.rsv1 = true;
    assert_eq!(frame.to_bytes(), vec![0xc2, 0x00]);
    frame.rsv1 = false;
    frame.rsv2 = true;
    assert_eq!(frame.to_bytes(), vec![0xa2, 0x00]);
    frame.rsv2 = false;
    frame.rsv3 = true;
    assert_eq!(frame.to_bytes(), vec![0x92, 0x00]);
}

#[test]
fn decode_header_needs_two_bytes() {
    let mut frame = Frame::default();
    assert_eq!(frame.default_header(vec![]), Err(DecodeError::Incomplete(2)));
    assert_eq!(frame.default_header(vec![0x81]), Err(DecodeError::Incomplete(1)));
    assert_eq!(frame, Frame::default());
}

#[test]
fn decode_header_counts_missing_key_bytes() {
    let mut frame = Frame::default();
    assert_eq!(frame.default_header(vec![0x81, 0x85]), Err(DecodeError::Incomplete(4)));
    assert_eq!(frame.default_header(vec![0x81, 0x85, 1, 2, 3]), Err(DecodeError::Incomplete(1)));
}

#[test]
fn decode_header_counts_missing_extended_length() {
    let mut frame = Frame::default();
    assert_eq!(frame.default_header(vec![0x82, 0x7e]), Err(DecodeError::Incomplete(2)));
    assert_eq!(frame.default_header(vec![0x82, 0xfe, 0x01]), Err(DecodeError::Incomplete(5)));
    assert_eq!(frame.default_header(vec![0x82, 0x7f, 0, 0]), Err(DecodeError::Incomplete(6)));
    assert_eq!(frame.default_header(vec![0x82, 0xff]), Err(DecodeError::Incomplete(12)));
}

#[test]
fn decode_header_reads_16_bit_length() {
    let mut frame = Frame::default();
    let info = frame.default_header(vec![0x82, 0xfe, 0x12, 0x34, 1, 2, 3, 4, 99]).unwrap();
    assert_eq!(info, HeaderInfo { header_len: 8, payload_len: 0x1234 });
    assert_eq!(frame.payload_length, PayloadLen::LengthU16(0x1234));
    assert_eq!(frame.masking_key, Some([1, 2, 3, 4]));
    assert_eq!(frame.opcode, Opcode::Binary);
}

#[test]
fn decode_header_reads_64_bit_length() {
    let mut frame = Frame::default();
    let data = vec![0x82, 0x7f, 0x01, 0x02, 0x03, 0x04, 0x05, 0x06, 0x07, 0x08];
    let info = frame.default_header(data).unwrap();
    assert_eq!(info, HeaderInfo { header_len: 10, payload_len: 0x0102_0304_0506_0708 });
    assert_eq!(frame.payload_length, PayloadLen::LengthU64(0x0102_0304_0506_0708));
    assert_eq!(frame.masking_key, None);
}

#[test]
fn decode_header_rejects_reserved_bits() {
    for first in [0xc1u8, 0xa1, 0x91, 0xf1] {
        let mut frame = Frame::default();
        assert_eq!(frame.default_header(vec![first, 0x00]), Err(DecodeError::MalformedHeader));
        assert_eq!(frame, Frame::default());
    }
}

#[test]
fn decode_header_rejects_oversized_control_frames() {
    for opcode in [0x88u8, 0x89, 0x8a] {
        let mut frame = Frame::default();
        assert_eq!(frame.default_header(vec![opcode, 0x7e]), Err(DecodeError::MalformedHeader));
        assert_eq!(frame.default_header(vec![opcode, 0xff]), Err(DecodeError::MalformedHeader));
        assert!(frame.default_header(vec![opcode, 0x7d]).is_ok());
    }
}

#[test]
fn decode_header_rejects_top_bit_of_64_bit_length() {
    let mut frame = Frame::default();
    let data = vec![0x82, 0x7f, 0x80, 0, 0, 0, 0, 0, 0, 0];
    assert_eq!(frame.default_header(data), Err(DecodeError::MalformedHeader));
    let data = vec![0x82, 0x7f, 0x7f, 0xff, 0xff, 0xff, 0xff, 0xff, 0xff, 0xff];
    assert_eq!(
        frame.default_header(data),
        Ok(HeaderInfo { header_len: 10, payload_len: 0x7fff_ffff_ffff_ffff })
    );
}

#[test]
fn decode_header_maps_every_opcode() {
    let expected = [
        Opcode::Continuation,
        Opcode::Text,
        Opcode::Binary,
        Opcode::Unknow,
        Opcode::Unknow,
        Opcode::Unknow,
        Opcode::Unknow,
        Opcode::Unknow,
        Opcode::Close,
        Opcode::Ping,
        Opcode::Pong,
        Opcode::Unknow,
        Opcode::Unknow,
        Opcode::Unknow,
        Opcode::Unknow,
        Opcode::Unknow,
    ];
    for (code, opcode) in expected.iter().enumerate() {
        let mut frame = Frame::default();
        frame.default_header(vec![0x80 | code as u8, 0x00]).unwrap();
        assert_eq!(frame.opcode, *opcode);
        assert!(frame.is_final);
    }
}

#[test]
fn decode_header_reads_final_flag() {
    let mut frame = Frame::default();
    frame.default_header(vec![0x01, 0x00]).unwrap();
    assert!(!frame.is_final);
    assert_eq!(frame.opcode, Opcode::Text);
}

#[test]
fn decode_payload_counts_missing_bytes() {
    let mut frame = Frame::default();
    let data = vec![0x82, 0x85, 1, 2, 3, 4, 10, 20];
    frame.default_header(data.clone()).unwrap();
    let header = frame.clone();
    assert_eq!(frame.default_from(data), Err(DecodeError::Incomplete(3)));
    assert_eq!(frame, header);
}

#[test]
fn decode_payload_leaves_surplus_bytes() {
    let mut frame = Frame::default();
    let data = vec![0x82, 0x02, 10, 20, 0x81, 0x00];
    frame.default_header(data.clone()).unwrap();
    assert_eq!(frame.default_from(data), Ok(4));
    assert_eq!(frame.payload_data, Some(vec![10, 20]));
}

#[test]
fn decode_payload_rejects_unknown_length() {
    let mut frame = Frame::default();
    assert_eq!(frame.default_from(vec![0x82, 0x00]), Err(DecodeError::MalformedHeader));
    frame.payload_length = PayloadLen::LengthU8(126);
    assert_eq!(frame.default_from(vec![0x82, 0x00]), Err(DecodeError::MalformedHeader));
}

#[test]
fn default_frame_is_final_and_empty() {
    let frame = Frame::default();
    assert!(frame.is_final);
    assert!(!frame.rsv1 && !frame.rsv2 && !frame.rsv3);
    assert_eq!(frame.opcode, Opcode::Unknow);
    assert!(!frame.mask);
    assert_eq!(frame.payload_length, PayloadLen::Unknow);
    assert_eq!(frame.masking_key, None);
    assert_eq!(frame.payload_data, Some(Vec::new()));
}

#[test]
fn opcode_wire_values() {
    assert_eq!(Opcode::Continuation.to_bytes(), 0);
    assert_eq!(Opcode::Text.to_bytes(), 1);
    assert_eq!(Opcode::Binary.to_bytes(), 2);
    assert_eq!(Opcode::Close.to_bytes(), 8);
    assert_eq!(Opcode::Ping.to_bytes(), 9);
    assert_eq!(Opcode::Pong.to_bytes(), 10);
    assert_eq!(Opcode::Unknow.to_bytes(), 15);
    assert!(Opcode::Close.is_control());
    assert!(Opcode::Ping.is_control());
    assert!(Opcode::Pong.is_control());
    assert!(!Opcode::Text.is_control());
    assert!(!Opcode::Continuation.is_control());
}

#[test]
fn payload_len_picks_smallest_class() {
    assert_eq!(PayloadLen::from_size(0), PayloadLen::LengthU8(0));
    assert_eq!(PayloadLen::from_size(125), PayloadLen::LengthU8(125));
    assert_eq!(PayloadLen::from_size(126), PayloadLen::LengthU16(126));
    assert_eq!(PayloadLen::from_size(65535), PayloadLen::LengthU16(65535));
    assert_eq!(PayloadLen::from_size(65536), PayloadLen::LengthU64(65536));
}

#[test]
fn payload_len_converts_to_usize() {
    assert_eq!(PayloadLen::LengthU8(7).try_into(), Ok(7));
    assert_eq!(PayloadLen::LengthU16(700).try_into(), Ok(700));
    assert_eq!(PayloadLen::LengthU64(70_000).try_into(), Ok(70_000));
    assert_eq!(PayloadLen::Unknow.try_into(), Err("Conversion failed"));
    assert_eq!(PayloadLen::LengthU64(70_000).len(), 70_000);
    assert_eq!(PayloadLen::Unknow.len(), 0);
}

#[test]
fn decode_from_borrowed_buffer() {
    let data = [0x81, 0x83, 0x01, 0x02, 0x03, 0x04, 0x60, 0x60, 0x60, 0xff];
    let mut frame = Frame::default();
    assert_eq!(frame.decode_header(&data), Ok(HeaderInfo { header_len: 6, payload_len: 3 }));
    assert_eq!(frame.decode_payload(&data), Ok(9));
    assert_eq!(frame.payload_data, Some(b"abc".to_vec()));
    assert_eq!(frame.decode_payload(&data[..8]), Err(DecodeError::Incomplete(1)));
}
