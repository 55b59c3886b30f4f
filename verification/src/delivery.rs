//! What a caller gets who keeps calling.

use bytes::Bytes;
use reqwest::Error as ReqwestError;
use vstd::prelude::*;

use crate::buf::ByteSource;
use crate::client::SseEvent as SourceEvent;
use crate::connection::{Reaction, Runtime, SourceView};
use crate::event::{PayloadTooLargeError, SseEvent, SseEventView};
use crate::grammar::{DecoderView, Output};
use crate::stream::{SseStreamError, StreamPoll};

verus! {

/// A call of [`SseDecoder::next`](crate::decode::SseDecoder::next): the state of
/// the decoder and the bytes in the buffer behind it, and what it returned.
pub struct DecoderCall {
    pub after: DecoderView,
    pub rest: Seq<u8>,
    pub result: Result<Option<SseEvent>, PayloadTooLargeError>,
}

/// Whether `calls` are calls on one decoder and one buffer, one after the other.
pub open spec fn called(
    s: DecoderView,
    bytes: Seq<u8>,
    one_piece: bool,
    calls: Seq<DecoderCall>,
) -> bool
    decreases calls.len(),
{
    calls.len() > 0 ==> {
        let call = calls[0];
        &&& crate::decode::decoded(s, bytes, one_piece, call.after, call.rest, call.result)
        &&& called(call.after, call.rest, one_piece, calls.skip(1))
    }
}

/// What the calls hand out.
pub open spec fn all_handed_out(calls: Seq<DecoderCall>) -> Seq<Output>
    decreases calls.len(),
{
    if calls.len() == 0 {
        Seq::empty()
    } else {
        let first = match calls[0].result {
            Ok(Some(event)) => seq![Output::Event(event@)],
            Ok(None) => Seq::empty(),
            Err(_) => seq![Output::TooLarge],
        };
        first + all_handed_out(calls.skip(1))
    }
}

/// Calling until the buffer is exhausted yields everything that its bytes amount
/// to, and brings the decoder to where they lead.
pub proof fn law_drained(
    s: DecoderView,
    bytes: Seq<u8>,
    one_piece: bool,
    calls: Seq<DecoderCall>,
)
    requires
        called(s, bytes, one_piece, calls),
        calls.len() > 0,
        calls.last().result matches Ok(None),
    ensures
        all_handed_out(calls) == s.feed(bytes).1,
        calls.last().after == s.feed(bytes).0,
        calls.last().rest.len() == 0,
    decreases calls.len(),
{
    let call = calls[0];
    let later = calls.skip(1);
    if later.len() == 0 {
        assert(calls.last() == call);
        assert(all_handed_out(later) == Seq::<Output>::empty());
        assert(call.after.feed(call.rest) == (call.after, Seq::<Output>::empty()));
    } else {
        assert(later.last() == calls.last());
        law_drained(call.after, call.rest, one_piece, later);
    }
}

/// A call on an [`SseStream`](crate::stream::SseStream): of `receive` with a
/// buffer, or else of `poll_buffered`. Behind it the decoder is at `after`, and
/// `rest` is left of the buffer.
pub struct StreamCall<B, E> {
    pub received: Option<B>,
    pub after: DecoderView,
    pub rest: Option<B>,
    pub poll: StreamPoll<E>,
}

/// The bytes of a buffer that are still to be read.
pub open spec fn left<B: ByteSource>(buf: Option<B>) -> Seq<u8> {
    match buf {
        Some(buf) => buf.bytes(),
        None => Seq::empty(),
    }
}

/// Whether `calls` are calls on one stream, one after the other. A buffer is only
/// received when the stream has `asked` for it.
pub open spec fn streamed<B: ByteSource, E>(
    s: DecoderView,
    buf: Option<B>,
    asked: bool,
    calls: Seq<StreamCall<B, E>>,
) -> bool
    decreases calls.len(),
{
    calls.len() > 0 ==> {
        let call = calls[0];
        &&& call.received is Some ==> asked
        &&& crate::stream::buffer_polled(
            s,
            if call.received is Some {
                call.received
            } else {
                buf
            },
            call.after,
            call.rest,
            call.poll,
        )
        &&& streamed(call.after, call.rest, call.poll is NeedBytes, calls.skip(1))
    }
}

/// All the bytes that were received.
pub open spec fn all_received<B: ByteSource, E>(calls: Seq<StreamCall<B, E>>) -> Seq<u8>
    decreases calls.len(),
{
    if calls.len() == 0 {
        Seq::empty()
    } else {
        left(calls[0].received) + all_received(calls.skip(1))
    }
}

/// What the stream yields.
pub open spec fn all_yielded<B: ByteSource, E>(calls: Seq<StreamCall<B, E>>) -> Seq<Output>
    decreases calls.len(),
{
    if calls.len() == 0 {
        Seq::empty()
    } else {
        let first = match calls[0].poll {
            StreamPoll::Ready(Some(Ok(event))) => seq![Output::Event(event@)],
            StreamPoll::Ready(Some(Err(SseStreamError::PayloadTooLarge(_)))) => {
                seq![Output::TooLarge]
            },
            _ => Seq::empty(),
        };
        first + all_yielded(calls.skip(1))
    }
}

/// A stream yields what a decoder yields on all the bytes that it receives,
/// however they are cut into buffers. It asks for a buffer only when everything
/// that the earlier ones hold was read and yielded.
pub proof fn law_stream<B: ByteSource, E>(
    s: DecoderView,
    buf: Option<B>,
    asked: bool,
    calls: Seq<StreamCall<B, E>>,
)
    requires
        asked ==> left(buf).len() == 0,
        streamed(s, buf, asked, calls),
        calls.len() > 0,
        calls.last().poll is NeedBytes,
    ensures
        all_yielded(calls) == s.feed(left(buf) + all_received(calls)).1,
        calls.last().after == s.feed(left(buf) + all_received(calls)).0,
        left(calls.last().rest).len() == 0,
    decreases calls.len(),
{
    let call = calls[0];
    let later = calls.skip(1);
    let before = left(buf) + left(call.received);
    let rest = left(call.rest);
    let more = all_received(later);
    let yielded = crate::decode::handed_out(crate::stream::decoder_result(call.poll)->0);
    lemma_stream_call(s, buf, asked, call);
    assert(left(buf) + all_received(calls) == before + more);
    crate::lines::law_split(s, before, more);
    crate::lines::law_split(call.after, rest, more);
    assert(s.feed(before + more) == (
        call.after.feed(rest + more).0,
        yielded + call.after.feed(rest + more).1,
    ));
    if later.len() == 0 {
        assert(calls.last() == call);
        assert(rest + more == Seq::<u8>::empty());
        assert(call.after.feed(rest + more) == (call.after, Seq::<Output>::empty()));
        assert(all_yielded(later) == Seq::<Output>::empty());
    } else {
        assert(later.last() == calls.last());
        law_stream(call.after, call.rest, call.poll is NeedBytes, later);
    }
}

/// What one call on a stream does.
proof fn lemma_stream_call<B: ByteSource, E>(
    s: DecoderView,
    buf: Option<B>,
    asked: bool,
    call: StreamCall<B, E>,
)
    requires
        asked ==> left(buf).len() == 0,
        call.received is Some ==> asked,
        crate::stream::buffer_polled(
            s,
            if call.received is Some {
                call.received
            } else {
                buf
            },
            call.after,
            call.rest,
            call.poll,
        ),
    ensures
        crate::stream::decoder_result(call.poll) is Some,
        call.poll is NeedBytes ==> left(call.rest).len() == 0,
        s.feed(left(buf) + left(call.received)) == (
            call.after.feed(left(call.rest)).0,
            crate::decode::handed_out(crate::stream::decoder_result(call.poll)->0)
                + call.after.feed(left(call.rest)).1,
        ),
{
    let read = if call.received is Some {
        call.received
    } else {
        buf
    };
    assert(left(buf) + left(call.received) == left(read));
    if read is None {
        assert(s.feed(left(read)) == (s, Seq::<Output>::empty()));
        assert(Seq::<Output>::empty() + Seq::<Output>::empty() == Seq::<Output>::empty());
    }
}

/// A call on an [`EventSource`](crate::source::EventSource) whose connection is
/// open: of `receive` with a buffer, or else of `poll_buffered`. The stream of
/// events yields `poll` and takes the source to `read`, and the source reacts to
/// that.
pub struct SourceCall<X: Runtime> {
    pub received: Option<Bytes>,
    pub read: SourceView<X>,
    pub poll: StreamPoll<ReqwestError>,
    pub after: SourceView<X>,
    pub reaction: Reaction,
}

/// Whether `calls` are calls on one source, one after the other. A buffer is only
/// received when the source has `asked` for it.
pub open spec fn sourced<X: Runtime>(
    source: SourceView<X>,
    asked: bool,
    calls: Seq<SourceCall<X>>,
) -> bool
    decreases calls.len(),
{
    calls.len() > 0 ==> {
        let call = calls[0];
        &&& match call.received {
            Some(buf) => asked && source.received(Some(Ok(buf)), call.read, call.poll),
            None => source.buffered(call.read, call.poll),
        }
        &&& call.after == call.read.reacted(call.poll)
        &&& call.reaction == call.read.reaction(call.poll)
        &&& sourced(call.after, call.reaction is NeedBytes, calls.skip(1))
    }
}

/// All the bytes that the source received.
pub open spec fn all_read<X: Runtime>(calls: Seq<SourceCall<X>>) -> Seq<u8>
    decreases calls.len(),
{
    if calls.len() == 0 {
        Seq::empty()
    } else {
        left(calls[0].received) + all_read(calls.skip(1))
    }
}

/// What the source makes of the body: the messages that it yields, the events that
/// it reports as discarded, and the reconnection times that it takes over.
pub open spec fn all_delivered<X: Runtime>(calls: Seq<SourceCall<X>>) -> Seq<Output>
    decreases calls.len(),
{
    if calls.len() == 0 {
        Seq::empty()
    } else {
        let first = match calls[0].reaction {
            Reaction::Yield(Ok(SourceEvent::Message(message))) => {
                seq![Output::Event(SseEventView::Message(message@))]
            },
            Reaction::Yield(Ok(SourceEvent::Discarded(_))) => seq![Output::TooLarge],
            Reaction::Continue => {
                seq![Output::Event(SseEventView::Retry(calls[0].after.reconnection_time_ms))]
            },
            _ => Seq::empty(),
        };
        first + all_delivered(calls.skip(1))
    }
}

/// As long as it yields no error, a source delivers what a decoder hands out for
/// the bytes of the body, in order and nothing else: it yields exactly the
/// messages, reports exactly the events that were too large, and takes over
/// exactly the reconnection times. Its connection stays open throughout.
pub proof fn law_source<X: Runtime>(
    source: SourceView<X>,
    asked: bool,
    calls: Seq<SourceCall<X>>,
)
    requires
        source.body is Some,
        asked ==> left(source.buf).len() == 0,
        sourced(source, asked, calls),
        calls.len() > 0,
        calls.last().reaction is NeedBytes,
        forall|i: int|
            0 <= i < calls.len() ==> !((#[trigger] calls[i]).reaction matches Reaction::Yield(
                Err(_),
            )),
    ensures
        all_delivered(calls) == source.decoder.feed(left(source.buf) + all_read(calls)).1,
        calls.last().after.decoder == source.decoder.feed(
            left(source.buf) + all_read(calls),
        ).0,
        calls.last().after.body == source.body,
        calls.last().after.state == source.state,
        calls.last().after.connected_since == source.connected_since,
        calls.last().after.connection_attempt == source.connection_attempt,
    decreases calls.len(),
{
    let call = calls[0];
    let later = calls.skip(1);
    let before = left(source.buf) + left(call.received);
    let rest = left(call.after.buf);
    let more = all_read(later);
    let stream_call = StreamCall {
        received: call.received,
        after: call.read.decoder,
        rest: call.read.buf,
        poll: call.poll,
    };
    assert(!(calls[0].reaction matches Reaction::Yield(Err(_))));
    lemma_stream_call(source.decoder, source.buf, asked, stream_call);
    assert(left(source.buf) + all_read(calls) == before + more);
    crate::lines::law_split(source.decoder, before, more);
    crate::lines::law_split(call.after.decoder, rest, more);
    let first = crate::decode::handed_out(crate::stream::decoder_result(call.poll)->0);
    assert(source.decoder.feed(before + more) == (
        call.after.decoder.feed(rest + more).0,
        first + call.after.decoder.feed(rest + more).1,
    ));
    assert(all_delivered(calls) == first + all_delivered(later));
    if later.len() == 0 {
        assert(calls.last() == call);
        assert(rest + more == Seq::<u8>::empty());
        assert(call.after.decoder.feed(rest + more) == (
            call.after.decoder,
            Seq::<Output>::empty(),
        ));
    } else {
        assert(later.last() == calls.last());
        assert forall|i: int| 0 <= i < later.len() implies !((
        #[trigger] later[i]).reaction matches Reaction::Yield(Err(_))) by {
            assert(later[i] == calls[i + 1]);
        }
        law_source(call.after, call.reaction is NeedBytes, later);
    }
}

} // verus!
