use crate::frame::assembler::{
    accepted, drain, poll_of, signal_of, AssemblyError, SignalView,
};
use crate::frame::codec_laws::{
    lemma_decode_encode, lemma_parse_header_encode, lemma_parse_header_extend,
    lemma_parse_payload_extend, sent_header,
};
use crate::frame::frame_types::FrameView;
use vstd::prelude::*;

verus! {

/// The chunks one behind the other.
pub open spec fn concat(chunks: Seq<Seq<u8>>) -> Seq<u8>
    decreases chunks.len(),
{
    if chunks.len() == 0 {
        Seq::empty()
    } else {
        concat(chunks.drop_last()) + chunks.last()
    }
}

/// What an assembler that holds `buffer` hands out when the chunks are fed
/// to it one by one, each followed by reassembly as far as it goes, and what
/// it holds in the end.
pub open spec fn feed_all(buffer: Seq<u8>, chunks: Seq<Seq<u8>>) -> (Seq<SignalView>, Seq<u8>)
    decreases chunks.len(),
{
    if chunks.len() == 0 {
        drain(buffer)
    } else {
        let earlier = feed_all(buffer, chunks.drop_last());
        let last = drain(earlier.1 + chunks.last());
        (earlier.0 + last.0, last.1)
    }
}

/// A frame that is handed out, and a fault that fails the connection, are
/// the same when more bytes stand behind them; the bytes behind a frame
/// stay buffered.
pub proof fn lemma_poll_extend(buffer: Seq<u8>, more: Seq<u8>)
    ensures
        poll_of(buffer).0 is Ok ==> poll_of(buffer + more) == (
            poll_of(buffer).0,
            poll_of(buffer).1 + more,
        ),
        poll_of(buffer).0 is Err && !(poll_of(buffer).0->Err_0 is Incomplete) ==> poll_of(
            buffer + more,
        ) == (poll_of(buffer).0, buffer + more),
{
    lemma_parse_header_extend(buffer, more);
    if FrameView::parse_header(buffer) is Ok {
        let header = FrameView::parse_header(buffer).unwrap();
        lemma_parse_payload_extend(header, buffer, more);
        if poll_of(buffer).0 is Ok {
            let frame = header.parse_payload(buffer).unwrap();
            let longer = buffer + more;
            assert(longer.subrange(frame.frame_len(), longer.len() as int) =~= buffer.subrange(
                frame.frame_len(),
                buffer.len() as int,
            ) + more);
        }
    }
}

/// Reassembly does not depend on when the bytes arrive: what is handed out
/// of two pieces that arrive together is what is handed out of the first,
/// followed by what is handed out once the second has joined the rest of
/// the first.
pub proof fn lemma_drain_extend(first: Seq<u8>, second: Seq<u8>)
    ensures
        drain(first + second).0 == drain(first).0 + drain(drain(first).1 + second).0,
        drain(first + second).1 == drain(drain(first).1 + second).1,
    decreases first.len(),
{
    let step = poll_of(first);
    if step.0 is Ok {
        lemma_poll_extend(first, second);
        lemma_drain_extend(step.1, second);
        assert(drain(first + second).0 =~= drain(first).0 + drain(drain(first).1 + second).0);
    } else {
        assert(drain(first).0 + drain(first + second).0 =~= drain(first + second).0);
    }
}

/// However a stream of bytes is cut into chunks, the assembler hands out
/// the same frames in the same order, and keeps the same bytes, as when the
/// stream arrives in one piece.
pub proof fn lemma_chunks_as_one(buffer: Seq<u8>, chunks: Seq<Seq<u8>>)
    ensures
        feed_all(buffer, chunks) == drain(buffer + concat(chunks)),
    decreases chunks.len(),
{
    if chunks.len() == 0 {
        assert(buffer + concat(chunks) =~= buffer);
    } else {
        let front = chunks.drop_last();
        lemma_chunks_as_one(buffer, front);
        lemma_drain_extend(buffer + concat(front), chunks.last());
        assert(buffer + concat(chunks) =~= (buffer + concat(front)) + chunks.last());
    }
}

/// The encoding of a frame that a client may send is handed out as that
/// frame, and what follows it is reassembled next.
pub proof fn lemma_drain_frame(frame: FrameView, rest: Seq<u8>)
    requires
        frame.wf(),
        accepted(frame),
    ensures
        poll_of(frame.encode() + rest) == (
            Ok::<SignalView, AssemblyError>(signal_of(frame.received())),
            rest,
        ),
        drain(frame.encode() + rest).0 == seq![signal_of(frame.received())] + drain(rest).0,
        drain(frame.encode() + rest).1 == drain(rest).1,
{
    let data = frame.encode() + rest;
    lemma_parse_header_encode(frame, rest);
    lemma_decode_encode(frame, rest);
    assert(accepted(sent_header(frame)));
    assert(data.subrange(frame.encode().len() as int, data.len() as int) =~= rest);
}

/// A frame that arrives in chunks, however small, is handed out exactly
/// once, as the frame that arrives in one chunk, and nothing stays buffered.
pub proof fn lemma_split_frame(frame: FrameView, chunks: Seq<Seq<u8>>)
    requires
        frame.wf(),
        accepted(frame),
        concat(chunks) == frame.encode(),
    ensures
        feed_all(Seq::empty(), chunks) == (
            seq![signal_of(frame.received())],
            Seq::<u8>::empty(),
        ),
        feed_all(Seq::empty(), chunks) == feed_all(Seq::empty(), seq![frame.encode()]),
{
    let whole = frame.encode();
    lemma_chunks_as_one(Seq::empty(), chunks);
    lemma_chunks_as_one(Seq::empty(), seq![whole]);
    assert(seq![whole].drop_last() =~= Seq::<Seq<u8>>::empty());
    assert(concat(seq![whole]) =~= whole) by {
        reveal_with_fuel(concat, 2);
    }
    assert(Seq::<u8>::empty() + whole =~= whole);
    lemma_drain_frame(frame, Seq::empty());
    assert(whole + Seq::<u8>::empty() =~= whole);
    assert(drain(whole).0 =~= seq![signal_of(frame.received())]);
}

/// Two frames that arrive in one chunk are handed out as two frames, in the
/// order of arrival, and nothing stays buffered.
pub proof fn lemma_two_frames(first: FrameView, second: FrameView)
    requires
        first.wf(),
        accepted(first),
        second.wf(),
        accepted(second),
    ensures
        drain(first.encode() + second.encode()) == (
            seq![signal_of(first.received()), signal_of(second.received())],
            Seq::<u8>::empty(),
        ),
{
    lemma_drain_frame(first, second.encode());
    lemma_drain_frame(second, Seq::empty());
    assert(second.encode() + Seq::<u8>::empty() =~= second.encode());
    assert(drain(first.encode() + second.encode()).0 =~= seq![
        signal_of(first.received()),
        signal_of(second.received()),
    ]);
}

/// The payload that comes with a control frame is at most 125 bytes long.
pub proof fn lemma_control_payload_small(buffer: Seq<u8>)
    ensures
        match poll_of(buffer).0 {
            Ok(SignalView::ControlClose(payload)) => payload.len() <= 125,
            Ok(SignalView::ControlPing(payload)) => payload.len() <= 125,
            Ok(SignalView::ControlPong(payload)) => payload.len() <= 125,
            _ => true,
        },
{
    if poll_of(buffer).0 is Ok {
        let header = FrameView::parse_header(buffer).unwrap();
        let frame = header.parse_payload(buffer).unwrap();
        assert(frame.payload_data.unwrap().len() == header.payload_length.value());
    }
}

} // verus!
