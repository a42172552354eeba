use websocket_server::frame::assembler::{AssemblyError, AssemblyState, FrameAssembler, Signal};
use websocket_server::frame::frame_types::{Frame, Opcode, PayloadLen};
use websocket_server::server::message_type::Types;
use websocket_server::utils::unmask_payload::unmask_payload;

const KEY: [u8; 4] = [0x12, 0x34, 0x56, 0x78];

fn client_frame(opcode: Opcode, payload: &[u8]) -> Vec<u8> {
    Frame {
        is_final: true,
        rsv1: false,
        rsv2: false,
        rsv3: false,
        opcode,
        mask: true,
        payload_length: PayloadLen::from_size(payload.len()),
        masking_key: Some(KEY),
        payload_data: Some(unmask_payload(payload, &KEY)),
    }
    .to_bytes()
}

fn feed_in_chunks(bytes: &[u8], size: usize) -> (Vec<Signal>, FrameAssembler) {
    let mut assembler = FrameAssembler::new();
    let mut signals = Vec::new();
    for chunk in bytes.chunks(size) {
        let (mut ready, status) = assembler.feed(chunk);
        assert!(matches!(status, AssemblyError::Incomplete(_)));
        signals.append(&mut ready);
    }
    (signals, assembler)
}

#[test]
fn assembler_starts_empty() {
    let mut assembler = FrameAssembler::new();
    assert_eq!(assembler.state(), AssemblyState::AwaitingHeader);
    assert_eq!(assembler.buffered(), 0);
    assert_eq!(assembler.poll(), Err(AssemblyError::Incomplete(2)));
}

#[test]
fn assembler_one_chunk_one_frame() {
    let bytes = client_frame(Opcode::Text, b"hello world");
    let mut assembler = FrameAssembler::new();
    let (signals, status) = assembler.feed(&bytes);
    assert_eq!(signals, vec![Signal::Message(Types::String("hello world".to_string()))]);
    assert_eq!(status, AssemblyError::Incomplete(2));
    assert_eq!(assembler.buffered(), 0);
    assert_eq!(assembler.state(), AssemblyState::AwaitingHeader);
}

#[test]
fn assembler_single_byte_chunks_give_the_same_frame() {
    let payload: Vec<u8> = (0..300).map(|i| (i % 251) as u8).collect();
    let bytes = client_frame(Opcode::Binary, &payload);
    let (whole, _) = feed_in_chunks(&bytes, bytes.len());
    let (split, assembler) = feed_in_chunks(&bytes, 1);
    assert_eq!(whole, vec![Signal::Message(Types::Binary(payload))]);
    assert_eq!(split, whole);
    assert_eq!(assembler.buffered(), 0);
}

#[test]
fn assembler_any_chunk_size_gives_the_same_frame() {
    let payload: Vec<u8> = (0..70_000).map(|i| (i % 253) as u8).collect();
    let bytes = client_frame(Opcode::Binary, &payload);
    for size in [2, 3, 7, 1024, 65_535] {
        let (signals, assembler) = feed_in_chunks(&bytes, size);
        assert_eq!(signals, vec![Signal::Message(Types::Binary(payload.clone()))]);
        assert_eq!(assembler.buffered(), 0);
    }
}

#[test]
fn assembler_two_frames_in_one_chunk() {
    let mut bytes = client_frame(Opcode::Text, b"first");
    bytes.extend(client_frame(Opcode::Binary, &[1, 2, 3]));
    let mut assembler = FrameAssembler::new();
    let (signals, status) = assembler.feed(&bytes);
    assert_eq!(
        signals,
        vec![
            Signal::Message(Types::String("first".to_string())),
            Signal::Message(Types::Binary(vec![1, 2, 3])),
        ]
    );
    assert_eq!(status, AssemblyError::Incomplete(2));
    assert_eq!(assembler.buffered(), 0);
}

#[test]
fn assembler_keeps_start_of_next_frame() {
    let mut bytes = client_frame(Opcode::Text, b"one");
    let next = client_frame(Opcode::Text, b"two");
    bytes.extend(&next[..4]);
    let mut assembler = FrameAssembler::new();
    let (signals, status) = assembler.feed(&bytes);
    assert_eq!(signals, vec![Signal::Message(Types::String("one".to_string()))]);
    assert_eq!(status, AssemblyError::Incomplete(2));
    assert_eq!(assembler.buffered(), 4);
    let (signals, status) = assembler.feed(&next[4..]);
    assert_eq!(signals, vec![Signal::Message(Types::String("two".to_string()))]);
    assert_eq!(status, AssemblyError::Incomplete(2));
}

#[test]
fn assembler_walks_through_its_states() {
    let bytes = client_frame(Opcode::Binary, &[9; 10]);
    let mut assembler = FrameAssembler::new();
    assembler.push(&bytes[..1]);
    assert_eq!(assembler.poll(), Err(AssemblyError::Incomplete(1)));
    assert_eq!(assembler.state(), AssemblyState::AwaitingHeader);
    assembler.push(&bytes[1..3]);
    assert_eq!(assembler.poll(), Err(AssemblyError::Incomplete(3)));
    assert_eq!(assembler.state(), AssemblyState::AwaitingHeader);
    assembler.push(&bytes[3..8]);
    assert_eq!(assembler.poll(), Err(AssemblyError::Incomplete(8)));
    assert_eq!(assembler.state(), AssemblyState::AwaitingPayload);
    assembler.push(&bytes[8..]);
    assert_eq!(assembler.poll(), Ok(Signal::Message(Types::Binary(vec![9; 10]))));
    assert_eq!(assembler.state(), AssemblyState::AwaitingHeader);
    assert_eq!(assembler.buffered(), 0);
}

#[test]
fn assembler_signals_control_frames() {
    let mut bytes = client_frame(Opcode::Ping, b"are you there");
    bytes.extend(client_frame(Opcode::Pong, b"yes"));
    bytes.extend(client_frame(Opcode::Close, &[0x03, 0xe8]));
    let mut assembler = FrameAssembler::new();
    let (signals, _) = assembler.feed(&bytes);
    assert_eq!(
        signals,
        vec![
            Signal::ControlPing(b"are you there".to_vec()),
            Signal::ControlPong(b"yes".to_vec()),
            Signal::ControlClose(vec![0x03, 0xe8]),
        ]
    );
}

#[test]
fn assembler_rejects_unmasked_frame() {
    let mut assembler = FrameAssembler::new();
    let (signals, status) = assembler.feed(&[0x81, 0x05, 0x48, 0x65, 0x6c, 0x6c, 0x6f]);
    assert!(signals.is_empty());
    assert_eq!(status, AssemblyError::ProtocolViolation);
    assert_eq!(assembler.poll(), Err(AssemblyError::ProtocolViolation));
    assert_eq!(assembler.buffered(), 7);
}

#[test]
fn assembler_rejects_fragments() {
    let mut assembler = FrameAssembler::new();
    let (_, status) = assembler.feed(&[0x01, 0x81, 1, 2, 3, 4, 0]);
    assert_eq!(status, AssemblyError::ProtocolViolation);

    let mut assembler = FrameAssembler::new();
    let (_, status) = assembler.feed(&[0x80, 0x81, 1, 2, 3, 4, 0]);
    assert_eq!(status, AssemblyError::ProtocolViolation);
}

#[test]
fn assembler_rejects_unknown_opcode() {
    let mut assembler = FrameAssembler::new();
    let (_, status) = assembler.feed(&[0x83, 0x80, 1, 2, 3, 4]);
    assert_eq!(status, AssemblyError::ProtocolViolation);
}

#[test]
fn assembler_rejects_malformed_header() {
    let mut assembler = FrameAssembler::new();
    let (signals, status) = assembler.feed(&[0xc1, 0x80]);
    assert!(signals.is_empty());
    assert_eq!(status, AssemblyError::MalformedHeader);

    let mut assembler = FrameAssembler::new();
    let (_, status) = assembler.feed(&[0x89, 0xfe]);
    assert_eq!(status, AssemblyError::MalformedHeader);
}

#[test]
fn assembler_hands_out_frames_before_a_fault() {
    let mut bytes = client_frame(Opcode::Text, b"ok");
    bytes.extend([0x81, 0x00]);
    let mut assembler = FrameAssembler::new();
    let (signals, status) = assembler.feed(&bytes);
    assert_eq!(signals, vec![Signal::Message(Types::String("ok".to_string()))]);
    assert_eq!(status, AssemblyError::ProtocolViolation);
}

#[test]
fn assembler_reads_text_leniently() {
    let bytes = client_frame(Opcode::Text, &[0x61, 0xff, 0x62]);
    let mut assembler = FrameAssembler::new();
    let (signals, _) = assembler.feed(&bytes);
    assert_eq!(signals, vec![Signal::Message(Types::String("a\u{fffd}b".to_string()))]);
}
