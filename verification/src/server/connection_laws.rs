use crate::frame::assembler::accepted;
use crate::frame::assembly_laws::lemma_drain_frame;
use crate::frame::frame_types::{FrameView, Opcode};
use crate::handshake::parse_message::{request_of, tokenized, MAX_HEADERS};
use crate::server::connection::{
    advance, rejection, step, ActionView, ConnectionState, ConnectionView, EventView, Stage,
};
use crate::server::public_handler::outgoing;
use crate::utils::lossy_text::utf8_lossy;
use crate::websocket_types::value_of;
use vstd::prelude::*;
use vstd::utf8::encode_utf8;

verus! {

/// With nothing buffered, an open connection asks for a read.
pub proof fn lemma_advance_empty()
    ensures
        advance(Seq::empty()) == (Stage::AwaitingData, Seq::<u8>::empty(), seq![ActionView::Read]),
{
}

/// A ping that arrives on an open connection is answered with exactly one
/// pong that carries the ping's payload, and the connection stays open and
/// reads on.
pub proof fn lemma_ping_answered(conn: ConnectionView, ping: FrameView)
    requires
        conn.stage == Stage::AwaitingData,
        conn.buffer.len() == 0,
        ping.wf(),
        accepted(ping),
        ping.opcode == Opcode::Ping,
    ensures
        step(conn, EventView::Received(ping.encode())) == (
            conn,
            seq![
                ActionView::Write(
                    outgoing(Opcode::Pong, ping.received().payload_data.unwrap()).encode(),
                ),
                ActionView::Read,
            ],
        ),
        conn.stage.spec_state() == ConnectionState::Open,
{
    let bytes = ping.encode();
    lemma_drain_frame(ping, Seq::empty());
    lemma_advance_empty();
    assert(bytes + Seq::<u8>::empty() =~= bytes);
    assert(conn.buffer + bytes =~= bytes);
    assert(conn.buffer =~= Seq::<u8>::empty());
    let payload = ping.received().payload_data.unwrap();
    assert(advance(bytes).2 =~= seq![
        ActionView::Write(outgoing(Opcode::Pong, payload).encode()),
        ActionView::Read,
    ]);
}

/// A close frame that arrives on an open connection is echoed exactly once
/// and the connection closes: whatever follows the frame, no message goes to
/// the application any more, and once the application has been told, the
/// transport is shut down and the connection is closed.
pub proof fn lemma_close_echoed(conn: ConnectionView, close: FrameView, rest: Seq<u8>)
    requires
        conn.stage == Stage::AwaitingData,
        conn.buffer.len() == 0,
        close.wf(),
        accepted(close),
        close.opcode == Opcode::Close,
    ensures
        ({
            let closing = ConnectionView { stage: Stage::AwaitingClose, buffer: rest, ..conn };
            let closed = ConnectionView { stage: Stage::Done, buffer: rest, ..conn };
            &&& step(conn, EventView::Received(close.encode() + rest)) == (
                closing,
                seq![
                    ActionView::Write(
                        outgoing(Opcode::Close, close.received().payload_data.unwrap()).encode(),
                    ),
                    ActionView::NotifyClose,
                ],
            )
            &&& forall|event: EventView|
                event != EventView::CloseReturned ==> #[trigger] step(closing, event) == (
                    closing,
                    Seq::<ActionView>::empty(),
                )
            &&& step(closing, EventView::CloseReturned) == (closed, seq![ActionView::Shutdown])
            &&& closed.stage.spec_state() == ConnectionState::Closed
        }),
{
    let bytes = close.encode() + rest;
    lemma_drain_frame(close, rest);
    assert(conn.buffer + bytes =~= bytes);
}

/// A request without `Sec-WebSocket-Key` is answered with `400 Bad Request`
/// and the connection ends: it is never open.
pub proof fn lemma_missing_key_rejected(conn: ConnectionView, bytes: Seq<u8>)
    requires
        conn.stage == Stage::AwaitingRequest,
        request_of(tokenized(encode_utf8(utf8_lossy(bytes)), MAX_HEADERS)) matches Ok(request)
            && value_of(request.headers, "Sec-WebSocket-Key"@) is None,
    ensures
        step(conn, EventView::Received(bytes)) == (
            ConnectionView { stage: Stage::Done, response: Seq::empty(), ..conn },
            seq![ActionView::Write(rejection()), ActionView::Shutdown],
        ),
{
}

/// Bytes that are no request are answered with `400 Bad Request` and the
/// connection ends: it is never open.
pub proof fn lemma_bad_request_rejected(conn: ConnectionView, bytes: Seq<u8>)
    requires
        conn.stage == Stage::AwaitingRequest,
        request_of(tokenized(encode_utf8(utf8_lossy(bytes)), MAX_HEADERS)) is Err,
    ensures
        step(conn, EventView::Received(bytes)) == (
            ConnectionView { stage: Stage::Done, response: Seq::empty(), ..conn },
            seq![ActionView::Write(rejection()), ActionView::Shutdown],
        ),
{
}

/// A connection that has ended stays so, and asks for nothing more.
pub proof fn lemma_closed_is_final(conn: ConnectionView, event: EventView)
    requires
        conn.stage == Stage::Done,
    ensures
        step(conn, event) == (conn, Seq::<ActionView>::empty()),
{
}

/// A connection opens only when the application lets the request in.
pub proof fn lemma_open_only_after_join(conn: ConnectionView, event: EventView)
    requires
        conn.stage.spec_state() == ConnectionState::Connecting,
        step(conn, event).0.stage.spec_state() == ConnectionState::Open,
    ensures
        conn.stage == Stage::AwaitingJoin,
        event == (EventView::JoinReturned { closed: false }),
        step(conn, event).1 == seq![ActionView::Write(conn.response), ActionView::Read],
{
}

} // verus!
