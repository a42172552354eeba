use crate::frame::assembler::{
    poll_of, AssemblyError, FrameAssembler, Signal, SignalView,
};
use crate::frame::assembly_laws::lemma_control_payload_small;
use crate::frame::frame_types::{be16_bytes, Opcode};
use crate::handshake::create_message::{handshake_response, response_for};
use crate::handshake::parse_message::{parse_request, request_of, tokenized, MAX_HEADERS};
use crate::http_types::HttpStatus;
use crate::server::message_type::{Types, TypesView};
use crate::server::public_handler::{lemma_outgoing_wf, outgoing, outgoing_frame};
use crate::utils::build_http::{build_response, response_text};
use crate::utils::lossy_text::{text_from_utf8_lossy, utf8_lossy};
use crate::websocket_types::{Headers, RequestStruct, RequestView, ResponseStruct};
use vstd::prelude::*;
use vstd::string::StrSliceExecFns;
use vstd::utf8::encode_utf8;

verus! {

/// The status code of a close frame that reports a protocol error.
pub const PROTOCOL_ERROR: u16 = 1002;

/// The life of a connection.
#[derive(Debug, Clone, Copy, PartialEq, Eq, Structural)]
pub enum ConnectionState {
    /// The upgrade handshake is under way.
    Connecting,
    /// Frames are exchanged.
    Open,
    /// The application is told of the end; the transport is then shut down.
    Closing,
    /// Nothing more happens.
    Closed,
}

/// What the connection waits for.
#[derive(Debug, Clone, Copy, PartialEq, Eq, Structural)]
pub enum Stage {
    /// The upgrade request has not arrived yet.
    AwaitingRequest,
    /// The application looks at the request.
    AwaitingJoin,
    /// A read on the open connection is under way.
    AwaitingData,
    /// The application looks at a message.
    AwaitingMessage,
    /// The application is told that the connection ends.
    AwaitingClose,
    /// The connection has ended.
    Done,
}

impl Stage {
    /// The state of the connection that waits for this.
    pub open spec fn spec_state(self) -> ConnectionState {
        match self {
            Stage::AwaitingRequest | Stage::AwaitingJoin => ConnectionState::Connecting,
            Stage::AwaitingData | Stage::AwaitingMessage => ConnectionState::Open,
            Stage::AwaitingClose => ConnectionState::Closing,
            Stage::Done => ConnectionState::Closed,
        }
    }

    /// The state of the connection that waits for this.
    #[verifier::when_used_as_spec(spec_state)]
    pub fn state(self) -> (state: ConnectionState)
        ensures
            state == self.spec_state(),
    {
        match self {
            Stage::AwaitingRequest | Stage::AwaitingJoin => ConnectionState::Connecting,
            Stage::AwaitingData | Stage::AwaitingMessage => ConnectionState::Open,
            Stage::AwaitingClose => ConnectionState::Closing,
            Stage::Done => ConnectionState::Closed,
        }
    }
}

/// What happened outside the connection's own decisions.
#[derive(Debug, Clone, PartialEq, Eq)]
pub enum Event {
    /// A read handed over these bytes.
    Received(Vec<u8>),
    /// A read found the stream ended.
    EndOfStream,
    /// A read or a write failed.
    TransportError,
    /// The application has seen the request; `closed` says that it turned
    /// the connection down, or failed.
    JoinReturned { closed: bool },
    /// The application has seen the message; `closed` says that it asked
    /// for the connection to end, or failed.
    MessageReturned { closed: bool },
    /// The application has been told of the end.
    CloseReturned,
}

/// An event as a mathematical value.
pub enum EventView {
    Received(Seq<u8>),
    EndOfStream,
    TransportError,
    JoinReturned { closed: bool },
    MessageReturned { closed: bool },
    CloseReturned,
}

impl View for Event {
    type V = EventView;

    open spec fn view(&self) -> EventView {
        match self {
            Event::Received(bytes) => EventView::Received(bytes@),
            Event::EndOfStream => EventView::EndOfStream,
            Event::TransportError => EventView::TransportError,
            Event::JoinReturned { closed } => EventView::JoinReturned { closed: *closed },
            Event::MessageReturned { closed } => EventView::MessageReturned { closed: *closed },
            Event::CloseReturned => EventView::CloseReturned,
        }
    }
}

/// What the connection asks to be done, in this order.
#[derive(Debug, Clone, PartialEq, Eq)]
pub enum Action {
    /// Read from the transport and come back with what arrived.
    Read,
    /// Write these bytes to the peer.
    Write(Vec<u8>),
    /// Show the request to the application and come back with its verdict.
    NotifyJoin(RequestStruct),
    /// Hand the message to the application and come back with its verdict.
    NotifyMessage(Types),
    /// Tell the application that the connection ends, and come back.
    NotifyClose,
    /// Shut the transport down; the connection's task ends.
    Shutdown,
}

/// An action as a mathematical value.
pub enum ActionView {
    Read,
    Write(Seq<u8>),
    NotifyJoin(RequestView),
    NotifyMessage(TypesView),
    NotifyClose,
    Shutdown,
}

impl View for Action {
    type V = ActionView;

    open spec fn view(&self) -> ActionView {
        match self {
            Action::Read => ActionView::Read,
            Action::Write(bytes) => ActionView::Write(bytes@),
            Action::NotifyJoin(request) => ActionView::NotifyJoin(request@),
            Action::NotifyMessage(message) => ActionView::NotifyMessage(message@),
            Action::NotifyClose => ActionView::NotifyClose,
            Action::Shutdown => ActionView::Shutdown,
        }
    }
}

/// Actions as mathematical values.
pub open spec fn actions_view(actions: Seq<Action>) -> Seq<ActionView> {
    Seq::new(actions.len(), |i: int| actions[i]@)
}

/// A connection as a mathematical value.
pub struct ConnectionView {
    /// What the connection waits for.
    pub stage: Stage,
    /// The bytes that arrived and belong to no frame handed out yet.
    pub buffer: Seq<u8>,
    /// The handshake response that is written once the application has
    /// let the request in.
    pub response: Seq<u8>,
}

/// The response that turns a request down.
pub open spec fn rejection() -> Seq<u8> {
    encode_utf8(response_text(HttpStatus::BadRequest, Seq::empty()))
}

/// The close frame that the server sends when the peer breaks the protocol.
pub open spec fn protocol_error_close() -> Seq<u8> {
    outgoing(Opcode::Close, be16_bytes(PROTOCOL_ERROR as int)).encode()
}

/// What becomes of the bytes of an upgrade request: the stage that
/// follows, the response kept for later, and what is to be done.
///
/// The bytes are read leniently as text and parsed. A request with a key is
/// shown to the application, and the response that accepts it is kept. A
/// request without a key, like bytes that are no request, is answered with
/// `400 Bad Request`, and the connection ends without ever being open.
pub open spec fn open_handshake(bytes: Seq<u8>) -> (Stage, Seq<u8>, Seq<ActionView>) {
    match request_of(tokenized(encode_utf8(utf8_lossy(bytes)), MAX_HEADERS)) {
        Ok(request) => {
            let response = handshake_response(request.headers);
            let text = encode_utf8(response_text(response.status, response.headers));
            if response.status == HttpStatus::SwitchingProtocols {
                (Stage::AwaitingJoin, text, seq![ActionView::NotifyJoin(request)])
            } else {
                (Stage::Done, Seq::empty(), seq![ActionView::Write(text), ActionView::Shutdown])
            }
        },
        Err(_) => (
            Stage::Done,
            Seq::empty(),
            seq![ActionView::Write(rejection()), ActionView::Shutdown],
        ),
    }
}

/// What becomes of the buffered bytes of an open connection: the stage that
/// follows, the bytes that stay buffered, and what is to be done.
///
/// Frames are taken in the order of arrival. A ping is answered with a pong
/// of the same payload and a pong is passed over, and the next frame is
/// taken. A message goes to the application, and nothing more is taken until
/// the application comes back. A close frame is echoed and the connection
/// closes. Where bytes are missing, a read is asked for. A malformed header
/// or a breach of the protocol is answered with a close frame that says so,
/// and the connection closes.
pub open spec fn advance(buffer: Seq<u8>) -> (Stage, Seq<u8>, Seq<ActionView>)
    decreases buffer.len(),
{
    let step = poll_of(buffer);
    match step.0 {
        Ok(SignalView::Message(message)) => (
            Stage::AwaitingMessage,
            step.1,
            seq![ActionView::NotifyMessage(message)],
        ),
        Ok(SignalView::ControlClose(payload)) => (
            Stage::AwaitingClose,
            step.1,
            seq![
                ActionView::Write(outgoing(Opcode::Close, payload).encode()),
                ActionView::NotifyClose,
            ],
        ),
        Ok(SignalView::ControlPing(payload)) => {
            let later = advance(step.1);
            (
                later.0,
                later.1,
                seq![ActionView::Write(outgoing(Opcode::Pong, payload).encode())] + later.2,
            )
        },
        Ok(SignalView::ControlPong(_)) => advance(step.1),
        Err(AssemblyError::Incomplete(_)) => (Stage::AwaitingData, buffer, seq![ActionView::Read]),
        Err(_) => (
            Stage::AwaitingClose,
            buffer,
            seq![ActionView::Write(protocol_error_close()), ActionView::NotifyClose],
        ),
    }
}

/// The connection after `advance` on its buffer.
pub open spec fn advanced(conn: ConnectionView) -> (ConnectionView, Seq<ActionView>) {
    let next = advance(conn.buffer);
    (ConnectionView { stage: next.0, buffer: next.1, ..conn }, next.2)
}

/// The connection once it closes: the application is told.
pub open spec fn closing(conn: ConnectionView) -> (ConnectionView, Seq<ActionView>) {
    (ConnectionView { stage: Stage::AwaitingClose, ..conn }, seq![ActionView::NotifyClose])
}

/// The decisions of a connection: the connection after an event, and what
/// is to be done, in this order.
///
/// While connecting, the request's bytes decide as `open_handshake` says;
/// the application's verdict on the request then either writes the kept
/// response and opens the connection with a first read, or closes it with no
/// upgrade. While open, bytes that arrive join the buffer and decide as
/// `advance` says; the application's verdict on a message either closes the
/// connection at once or lets the rest of the buffer decide. A transport
/// that fails or ends closes the connection; before the request has
/// arrived it ends it, since the application has seen nothing. Once the
/// application has been told of the end, the transport is shut down and the
/// connection is closed for good. An event that the connection does not
/// wait for changes nothing.
pub open spec fn step(conn: ConnectionView, event: EventView) -> (ConnectionView, Seq<ActionView>) {
    match event {
        EventView::Received(bytes) => match conn.stage {
            Stage::AwaitingRequest => {
                let next = open_handshake(bytes);
                (ConnectionView { stage: next.0, response: next.1, ..conn }, next.2)
            },
            Stage::AwaitingData => advanced(ConnectionView { buffer: conn.buffer + bytes, ..conn }),
            _ => (conn, Seq::empty()),
        },
        EventView::EndOfStream | EventView::TransportError => match conn.stage {
            Stage::AwaitingRequest => (
                ConnectionView { stage: Stage::Done, ..conn },
                seq![ActionView::Shutdown],
            ),
            Stage::AwaitingJoin | Stage::AwaitingData | Stage::AwaitingMessage => closing(conn),
            _ => (conn, Seq::empty()),
        },
        EventView::JoinReturned { closed } => match conn.stage {
            Stage::AwaitingJoin => if closed {
                closing(conn)
            } else {
                (
                    ConnectionView { stage: Stage::AwaitingData, response: Seq::empty(), ..conn },
                    seq![ActionView::Write(conn.response), ActionView::Read],
                )
            },
            _ => (conn, Seq::empty()),
        },
        EventView::MessageReturned { closed } => match conn.stage {
            Stage::AwaitingMessage => if closed {
                closing(conn)
            } else {
                advanced(conn)
            },
            _ => (conn, Seq::empty()),
        },
        EventView::CloseReturned => match conn.stage {
            Stage::AwaitingClose => (
                ConnectionView { stage: Stage::Done, ..conn },
                seq![ActionView::Shutdown],
            ),
            _ => (conn, Seq::empty()),
        },
    }
}

/// Appends an action to those already asked for.
fn emit(actions: &mut Vec<Action>, action: Action)
    ensures
        actions_view(final(actions)@) == actions_view(old(actions)@).push(action@),
{
    actions.push(action);
}

/// No action yet.
fn no_actions() -> (actions: Vec<Action>)
    ensures
        actions_view(actions@) == Seq::<ActionView>::empty(),
{
    let actions: Vec<Action> = Vec::new();
    actions
}

/// The bytes of a response on the wire.
fn response_bytes(response: ResponseStruct) -> (bytes: Vec<u8>)
    ensures
        bytes@ == encode_utf8(response_text(response@.status, response@.headers)),
{
    let text: String = build_response(response);
    text.as_str().as_bytes_vec()
}

/// The decisions of one connection, from the request to the end. Whoever
/// owns the transport and the application's callbacks reports each event
/// and carries out what the connection asks for.
#[derive(Debug)]
pub struct Connection {
    stage: Stage,
    assembler: FrameAssembler,
    response: Vec<u8>,
}

impl View for Connection {
    type V = ConnectionView;

    closed spec fn view(&self) -> ConnectionView {
        ConnectionView { stage: self.stage, buffer: self.assembler@, response: self.response@ }
    }
}

impl Connection {
    /// What every connection built by `new` and moved on by `handle`
    /// meets.
    pub closed spec fn wf(&self) -> bool {
        self.assembler.wf()
    }

    /// A connection that waits for its upgrade request.
    pub fn new() -> (connection: Self)
        ensures
            connection.wf(),
            connection@ == (ConnectionView {
                stage: Stage::AwaitingRequest,
                buffer: Seq::empty(),
                response: Seq::empty(),
            }),
    {
        Self { stage: Stage::AwaitingRequest, assembler: FrameAssembler::new(), response: Vec::new() }
    }

    /// What the connection waits for.
    pub fn stage(&self) -> (stage: Stage)
        ensures
            stage == self@.stage,
    {
        self.stage
    }

    /// The state of the connection.
    pub fn state(&self) -> (state: ConnectionState)
        ensures
            state == self@.stage.spec_state(),
    {
        self.stage.state()
    }

    /// Whether the connection closes or is closed.
    pub fn is_closed(&self) -> (closed: bool)
        ensures
            closed == (self@.stage == Stage::AwaitingClose || self@.stage == Stage::Done),
    {
        self.stage == Stage::AwaitingClose || self.stage == Stage::Done
    }

    /// Decides on the bytes of the upgrade request.
    fn on_request(&mut self, bytes: Vec<u8>) -> (actions: Vec<Action>)
        requires
            old(self).wf(),
        ensures
            final(self).wf(),
            final(self)@ == (ConnectionView {
                stage: open_handshake(bytes@).0,
                response: open_handshake(bytes@).1,
                ..old(self)@
            }),
            actions_view(actions@) == open_handshake(bytes@).2,
    {
        let text: String = text_from_utf8_lossy(bytes.as_slice());
        let mut actions: Vec<Action> = no_actions();
        match parse_request(text) {
            Ok(request) => {
                let response: ResponseStruct = response_for(&request.headers);
                if response.status == HttpStatus::SwitchingProtocols {
                    self.response = response_bytes(response);
                    self.stage = Stage::AwaitingJoin;
                    emit(&mut actions, Action::NotifyJoin(request));
                } else {
                    let reply: Vec<u8> = response_bytes(response);
                    self.response = Vec::new();
                    self.stage = Stage::Done;
                    emit(&mut actions, Action::Write(reply));
                    emit(&mut actions, Action::Shutdown);
                }
            },
            Err(_) => {
                let reply: Vec<u8> = response_bytes(
                    ResponseStruct { status: HttpStatus::BadRequest, headers: Headers::new() },
                );
                self.response = Vec::new();
                self.stage = Stage::Done;
                emit(&mut actions, Action::Write(reply));
                emit(&mut actions, Action::Shutdown);
            },
        }
        actions
    }

    /// The bytes of the control frame that carries `payload` under `opcode`.
    fn control_bytes(opcode: Opcode, payload: Vec<u8>) -> (bytes: Vec<u8>)
        requires
            payload@.len() <= 125,
        ensures
            bytes@ == outgoing(opcode, payload@).encode(),
    {
        proof {
            lemma_outgoing_wf(opcode, payload@);
        }
        match outgoing_frame(opcode, payload) {
            Some(frame) => frame.to_bytes(),
            // Never taken: a payload this short can always go out.
            None => Vec::new(),
        }
    }

    /// Decides on what is buffered on the open connection.
    fn advance(&mut self) -> (actions: Vec<Action>)
        requires
            old(self).wf(),
        ensures
            final(self).wf(),
            final(self)@ == advanced(old(self)@).0,
            actions_view(actions@) == advanced(old(self)@).1,
    {
        let mut actions: Vec<Action> = no_actions();
        let ghost start = self.assembler@;
        loop
            invariant
                self.wf(),
                start == old(self).assembler@,
                self.response == old(self).response,
                advance(self.assembler@).0 == advance(start).0,
                advance(self.assembler@).1 == advance(start).1,
                actions_view(actions@) + advance(self.assembler@).2 == advance(start).2,
            decreases self.assembler@.len(),
        {
            proof {
                lemma_control_payload_small(self.assembler@);
            }
            match self.assembler.poll() {
                Ok(Signal::Message(message)) => {
                    self.stage = Stage::AwaitingMessage;
                    emit(&mut actions, Action::NotifyMessage(message));
                    return actions;
                },
                Ok(Signal::ControlClose(payload)) => {
                    self.stage = Stage::AwaitingClose;
                    let echo: Vec<u8> = Self::control_bytes(Opcode::Close, payload);
                    emit(&mut actions, Action::Write(echo));
                    emit(&mut actions, Action::NotifyClose);
                    return actions;
                },
                Ok(Signal::ControlPing(payload)) => {
                    let pong: Vec<u8> = Self::control_bytes(Opcode::Pong, payload);
                    emit(&mut actions, Action::Write(pong));
                },
                Ok(Signal::ControlPong(_)) => {},
                Err(AssemblyError::Incomplete(_)) => {
                    self.stage = Stage::AwaitingData;
                    emit(&mut actions, Action::Read);
                    return actions;
                },
                Err(_) => {
                    self.stage = Stage::AwaitingClose;
                    let mut code: Vec<u8> = Vec::new();
                    code.push((PROTOCOL_ERROR / 256) as u8);
                    code.push((PROTOCOL_ERROR % 256) as u8);
                    assert(code@ =~= be16_bytes(PROTOCOL_ERROR as int));
                    let close: Vec<u8> = Self::control_bytes(Opcode::Close, code);
                    emit(&mut actions, Action::Write(close));
                    emit(&mut actions, Action::NotifyClose);
                    return actions;
                },
            }
        }
    }

    /// Closes the connection: the application is told.
    fn close(&mut self) -> (actions: Vec<Action>)
        requires
            old(self).wf(),
        ensures
            final(self).wf(),
            final(self)@ == closing(old(self)@).0,
            actions_view(actions@) == closing(old(self)@).1,
    {
        self.stage = Stage::AwaitingClose;
        let mut actions: Vec<Action> = no_actions();
        emit(&mut actions, Action::NotifyClose);
        actions
    }

    /// Ends the connection: the transport is shut down.
    fn finish(&mut self) -> (actions: Vec<Action>)
        requires
            old(self).wf(),
        ensures
            final(self).wf(),
            final(self)@ == (ConnectionView { stage: Stage::Done, ..old(self)@ }),
            actions_view(actions@) == seq![ActionView::Shutdown],
    {
        self.stage = Stage::Done;
        let mut actions: Vec<Action> = no_actions();
        emit(&mut actions, Action::Shutdown);
        actions
    }

    /// Takes an event and says what is to be done, in this order.
    pub fn handle(&mut self, event: Event) -> (actions: Vec<Action>)
        requires
            old(self).wf(),
        ensures
            final(self).wf(),
            final(self)@ == step(old(self)@, event@).0,
            actions_view(actions@) == step(old(self)@, event@).1,
    {
        match event {
            Event::Received(bytes) => match self.stage {
                Stage::AwaitingRequest => self.on_request(bytes),
                Stage::AwaitingData => {
                    self.assembler.push(bytes.as_slice());
                    self.advance()
                },
                _ => no_actions(),
            },
            Event::EndOfStream | Event::TransportError => match self.stage {
                Stage::AwaitingRequest => self.finish(),
                Stage::AwaitingJoin | Stage::AwaitingData | Stage::AwaitingMessage => self.close(),
                _ => no_actions(),
            },
            Event::JoinReturned { closed } => match self.stage {
                Stage::AwaitingJoin => if closed {
                    self.close()
                } else {
                    let mut response: Vec<u8> = Vec::new();
                    std::mem::swap(&mut response, &mut self.response);
                    self.stage = Stage::AwaitingData;
                    let mut actions: Vec<Action> = no_actions();
                    emit(&mut actions, Action::Write(response));
                    emit(&mut actions, Action::Read);
                    actions
                },
                _ => no_actions(),
            },
            Event::MessageReturned { closed } => match self.stage {
                Stage::AwaitingMessage => if closed {
                    self.close()
                } else {
                    self.advance()
                },
                _ => no_actions(),
            },
            Event::CloseReturned => match self.stage {
                Stage::AwaitingClose => self.finish(),
                _ => no_actions(),
            },
        }
    }
}

} // verus!
