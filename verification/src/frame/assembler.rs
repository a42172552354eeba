use crate::frame::codec_laws::lemma_parse_header_extend;
use crate::frame::frame_types::{DecodeError, Frame, FrameView, Opcode};
use crate::server::message_type::{Types, TypesView};
use crate::utils::byte_buffer::push_range;
use crate::utils::lossy_text::utf8_lossy;
use vstd::prelude::*;

verus! {

/// Where the assembler stands with the frame at the front of its buffer.
#[derive(Debug, Clone, Copy, PartialEq, Eq, Structural)]
pub enum AssemblyState {
    /// No header has been read yet.
    AwaitingHeader,
    /// The header is read and the payload is still arriving.
    AwaitingPayload,
    /// A frame is complete and about to be handed out.
    FrameReady,
}

/// Why the assembler hands out no frame.
#[derive(Debug, Clone, Copy, PartialEq, Eq, Structural)]
pub enum AssemblyError {
    /// Not an error: this many bytes are still required before the header
    /// or the payload at the front of the buffer is whole.
    Incomplete(u64),
    /// The header at the front of the buffer is malformed.
    MalformedHeader,
    /// The frame is one that a client must not send: it is not masked, it is
    /// a fragment, or its opcode is unknown.
    ProtocolViolation,
}

/// What a completed frame means to the connection.
#[derive(Debug, Clone, PartialEq, Eq)]
pub enum Signal {
    /// A text or binary message for the application.
    Message(Types),
    /// The peer closes; the payload may hold a code and a reason.
    ControlClose(Vec<u8>),
    /// The peer asks for a pong with this payload.
    ControlPing(Vec<u8>),
    /// The peer answers a ping.
    ControlPong(Vec<u8>),
}

/// A signal as a mathematical value.
pub enum SignalView {
    Message(TypesView),
    ControlClose(Seq<u8>),
    ControlPing(Seq<u8>),
    ControlPong(Seq<u8>),
}

impl View for Signal {
    type V = SignalView;

    open spec fn view(&self) -> SignalView {
        match self {
            Signal::Message(message) => SignalView::Message(message@),
            Signal::ControlClose(payload) => SignalView::ControlClose(payload@),
            Signal::ControlPing(payload) => SignalView::ControlPing(payload@),
            Signal::ControlPong(payload) => SignalView::ControlPong(payload@),
        }
    }
}

/// A header that a client may send to a server that reassembles no
/// fragments: masked, final, and with an opcode that has a meaning other
/// than continuation.
pub open spec fn accepted(header: FrameView) -> bool {
    &&& header.mask
    &&& header.is_final
    &&& header.opcode != Opcode::Continuation
    &&& header.opcode != Opcode::Unknow
}

/// What an accepted, complete frame means.
pub open spec fn signal_of(frame: FrameView) -> SignalView
    recommends
        accepted(frame),
        frame.payload_data is Some,
{
    let payload = frame.payload_data.unwrap();
    match frame.opcode {
        Opcode::Text => SignalView::Message(TypesView::String(utf8_lossy(payload))),
        Opcode::Binary => SignalView::Message(TypesView::Binary(payload)),
        Opcode::Close => SignalView::ControlClose(payload),
        Opcode::Ping => SignalView::ControlPing(payload),
        _ => SignalView::ControlPong(payload),
    }
}

/// The error that a codec error stands for in the assembler.
pub open spec fn assembly_error(e: DecodeError) -> AssemblyError {
    match e {
        DecodeError::Incomplete(n) => AssemblyError::Incomplete(n),
        DecodeError::MalformedHeader => AssemblyError::MalformedHeader,
    }
}

/// One step of reassembly on the buffered bytes: what is handed out, and
/// the bytes that stay buffered.
///
/// A header that is not whole, or a payload that is not, asks for more bytes
/// and keeps the buffer. A malformed header, or one that a client must not
/// send, fails and keeps the buffer. A whole frame is handed out as its
/// signal, and exactly its bytes leave the buffer: what follows them belongs
/// to the next frame.
pub open spec fn poll_of(buffer: Seq<u8>) -> (Result<SignalView, AssemblyError>, Seq<u8>) {
    match FrameView::parse_header(buffer) {
        Err(e) => (Err(assembly_error(e)), buffer),
        Ok(header) => if !accepted(header) {
            (Err(AssemblyError::ProtocolViolation), buffer)
        } else {
            match header.parse_payload(buffer) {
                Err(e) => (Err(assembly_error(e)), buffer),
                Ok(frame) => (
                    Ok(signal_of(frame)),
                    buffer.subrange(frame.frame_len(), buffer.len() as int),
                ),
            }
        },
    }
}

/// Every frame that is whole in the buffered bytes, in the order of arrival,
/// and the bytes that stay buffered behind the last of them: reassembly
/// step by step, until a step hands out nothing.
pub open spec fn drain(buffer: Seq<u8>) -> (Seq<SignalView>, Seq<u8>)
    decreases buffer.len(),
{
    let step = poll_of(buffer);
    match step.0 {
        Ok(signal) => {
            let later = drain(step.1);
            (seq![signal] + later.0, later.1)
        },
        Err(_) => (Seq::empty(), buffer),
    }
}

/// Signals as mathematical values.
pub open spec fn signals_view(signals: Seq<Signal>) -> Seq<SignalView> {
    Seq::new(signals.len(), |i: int| signals[i]@)
}

/// The state that a poll leaves the assembler in when it hands out nothing:
/// waiting for the payload where an accepted header stands at the front of
/// the buffer, for a header otherwise.
pub open spec fn state_for(buffer: Seq<u8>) -> AssemblyState {
    match FrameView::parse_header(buffer) {
        Ok(header) => if accepted(header) {
            AssemblyState::AwaitingPayload
        } else {
            AssemblyState::AwaitingHeader
        },
        Err(_) => AssemblyState::AwaitingHeader,
    }
}

/// Turns the bytes that arrive on a connection, in whatever chunks, into
/// complete frames.
#[derive(Debug)]
pub struct FrameAssembler {
    state: AssemblyState,
    buffer: Vec<u8>,
    frame: Frame,
}

impl View for FrameAssembler {
    type V = Seq<u8>;

    /// The bytes that have arrived and belong to no frame handed out yet.
    closed spec fn view(&self) -> Seq<u8> {
        self.buffer@
    }
}

impl FrameAssembler {
    /// The header that the assembler holds is the one at the front of its
    /// buffer whenever it waits for a payload.
    pub closed spec fn wf(&self) -> bool {
        &&& self.state != AssemblyState::FrameReady
        &&& self.state == AssemblyState::AwaitingPayload ==> {
            &&& FrameView::parse_header(self.buffer@) == Ok::<FrameView, DecodeError>(self.frame@)
            &&& accepted(self.frame@)
        }
    }

    /// Where the assembler stands.
    pub closed spec fn spec_state(&self) -> AssemblyState {
        self.state
    }

    /// An assembler with nothing buffered, waiting for a header.
    pub fn new() -> (assembler: Self)
        ensures
            assembler.wf(),
            assembler@ == Seq::<u8>::empty(),
            assembler.state() == AssemblyState::AwaitingHeader,
    {
        Self { state: AssemblyState::AwaitingHeader, buffer: Vec::new(), frame: Frame::default() }
    }

    /// Where the assembler stands.
    #[verifier::when_used_as_spec(spec_state)]
    pub fn state(&self) -> (state: AssemblyState)
        ensures
            state == self.spec_state(),
    {
        self.state
    }

    /// The number of bytes buffered.
    pub fn buffered(&self) -> (len: usize)
        ensures
            len == self@.len(),
    {
        self.buffer.len()
    }

    /// Appends a chunk as it came off the transport.
    pub fn push(&mut self, chunk: &[u8])
        requires
            old(self).wf(),
        ensures
            final(self).wf(),
            final(self)@ == old(self)@ + chunk@,
            final(self).state() == old(self).state(),
    {
        proof {
            lemma_parse_header_extend(self.buffer@, chunk@);
        }
        push_range(&mut self.buffer, chunk, 0, chunk.len());
        assert(chunk@.subrange(0, chunk@.len() as int) =~= chunk@);
    }

    /// Takes one step on what is buffered: hands out the frame at the front
    /// of the buffer if it is whole, and says what is missing or wrong if it
    /// is not.
    pub fn poll(&mut self) -> (signal: Result<Signal, AssemblyError>)
        requires
            old(self).wf(),
        ensures
            final(self).wf(),
            final(self)@ == poll_of(old(self)@).1,
            match poll_of(old(self)@).0 {
                Ok(view) => {
                    &&& signal is Ok
                    &&& signal->Ok_0@ == view
                    &&& final(self)@.len() < old(self)@.len()
                    &&& final(self).state() == AssemblyState::AwaitingHeader
                },
                Err(e) => {
                    &&& signal == Err::<Signal, AssemblyError>(e)
                    &&& final(self).state() == state_for(old(self)@)
                },
            },
    {
        if self.state == AssemblyState::AwaitingHeader {
            match self.frame.decode_header(self.buffer.as_slice()) {
                Err(DecodeError::Incomplete(n)) => {
                    return Err(AssemblyError::Incomplete(n));
                },
                Err(DecodeError::MalformedHeader) => {
                    return Err(AssemblyError::MalformedHeader);
                },
                Ok(_) => {
                    let fragment: bool = !self.frame.is_final || self.frame.opcode
                        == Opcode::Continuation;
                    if !self.frame.mask || fragment || self.frame.opcode == Opcode::Unknow {
                        return Err(AssemblyError::ProtocolViolation);
                    }
                    self.state = AssemblyState::AwaitingPayload;
                },
            }
        }
        match self.frame.decode_payload(self.buffer.as_slice()) {
            Err(DecodeError::Incomplete(n)) => Err(AssemblyError::Incomplete(n)),
            Err(DecodeError::MalformedHeader) => Err(AssemblyError::MalformedHeader),
            Ok(consumed) => {
                self.state = AssemblyState::FrameReady;
                let payload: Vec<u8> = match self.frame.payload_data.take() {
                    Some(payload) => payload,
                    None => Vec::new(),
                };
                let signal: Signal = match self.frame.opcode {
                    Opcode::Close => Signal::ControlClose(payload),
                    Opcode::Ping => Signal::ControlPing(payload),
                    Opcode::Pong => Signal::ControlPong(payload),
                    opcode => match Types::from_opcode(opcode, payload) {
                        Some(message) => Signal::Message(message),
                        // Never taken: an accepted frame that is no control
                        // frame carries text or binary data.
                        None => Signal::ControlPong(Vec::new()),
                    },
                };
                let rest: Vec<u8> = self.buffer.split_off(consumed);
                self.buffer = rest;
                self.frame = Frame::default();
                self.state = AssemblyState::AwaitingHeader;
                Ok(signal)
            },
        }
    }

    /// Appends a chunk and hands out every frame that it completes, in the
    /// order of arrival, with the reason why no further frame is handed
    /// out: the bytes still missing of the next one, or the fault that fails
    /// the connection.
    pub fn feed(&mut self, chunk: &[u8]) -> (out: (Vec<Signal>, AssemblyError))
        requires
            old(self).wf(),
        ensures
            final(self).wf(),
            signals_view(out.0@) == drain(old(self)@ + chunk@).0,
            final(self)@ == drain(old(self)@ + chunk@).1,
            poll_of(final(self)@).0 == Err::<SignalView, AssemblyError>(out.1),
    {
        self.push(chunk);
        let ghost start = self@;
        let mut signals: Vec<Signal> = Vec::new();
        loop
            invariant
                self.wf(),
                start == old(self)@ + chunk@,
                signals_view(signals@) + drain(self@).0 == drain(start).0,
                drain(self@).1 == drain(start).1,
            decreases self@.len(),
        {
            match self.poll() {
                Ok(signal) => {
                    signals.push(signal);
                },
                Err(e) => {
                    return (signals, e);
                },
            }
        }
    }
}

} // verus!
