//! Laws of the life of a connection.

use bytes::Bytes;
use reqwest::{Error as ReqwestError, RequestBuilder, Response};
use tokio::time::Instant;
use vstd::prelude::*;

use crate::client::{Error, ReadyState, SseErrorEvent, SseEvent};
use crate::connection::{Action, Answer, BuilderView, Reaction, Runtime, SourceView, State};
use crate::event::{MessageEvent, PayloadTooLargeError, SseEvent as SseEventCore};
use crate::grammar::DecoderView;
use crate::header::HeaderField;
use crate::stream::{SseStreamError, StreamPoll};

verus! {

/// A stream is terminated exactly when it is closed, which is the only state in
/// which nothing is left to do.
pub proof fn law_terminated<X: Runtime>(source: SourceView<X>)
    ensures
        source.terminated() <==> source.ready_state() == ReadyState::Closed,
        source.terminated() <==> source.action() == Action::Finish,
{
}

/// Closing terminates the stream and drops the connection, and it is idempotent.
/// The ID to resume from is kept.
pub proof fn law_close<X: Runtime>(source: SourceView<X>)
    ensures
        source.closed().terminated(),
        source.closed().body is None,
        source.closed().closed() == source.closed(),
        source.closed().decoder == source.decoder,
{
}

/// A reconnection starts from scratch, whatever the state was. It makes no
/// difference whether the stream was closed before. The ID to resume from is
/// kept, or replaced where another one is given.
pub proof fn law_reconnect<X: Runtime>(source: SourceView<X>, id: Option<Seq<char>>)
    ensures
        source.restarted().action() == Action::Send,
        source.restarted().ready_state() == ReadyState::Connecting,
        source.restarted().connection_attempt == 0,
        source.restarted().decoder == source.decoder,
        source.closed().restarted() == source.restarted(),
        source.closed().restarted_with_id(id) == source.restarted_with_id(id),
        source.restarted_with_id(id).action() == Action::Send,
        source.restarted_with_id(id).connection_attempt == 0,
        source.restarted_with_id(id).decoder.last_event_id == id,
{
}

/// Every error that the stream yields is terminal: it leaves the stream closed.
pub proof fn law_errors_are_terminal<X: Runtime>(
    before: SourceView<X>,
    after: SourceView<X>,
    cloned: Option<RequestBuilder>,
    request: Result<(RequestBuilder, Vec<HeaderField>), Error>,
    status: u16,
    content_type: Option<Seq<u8>>,
    response: Response,
    answer: Answer,
    poll: StreamPoll<ReqwestError>,
)
    ensures
        crate::connection::started(before, cloned, after, request) && request is Err
            ==> after.terminated(),
        crate::connection::answered(before, status, content_type, response, after, answer)
            && answer is Fail ==> after.terminated(),
        before.reaction(poll) matches Reaction::Yield(Err(_)) ==> before.reacted(poll).terminated(),
        before.backed_off(None).terminated(),
{
}

/// An oversized event is reported and leaves everything as it is, or it closes
/// the stream, as the client was told. The one excludes the other.
pub proof fn law_oversized_event_policy<X: Runtime>(
    source: SourceView<X>,
    error: PayloadTooLargeError,
    poll: StreamPoll<ReqwestError>,
)
    ensures
        ({
            let oversized = StreamPoll::<ReqwestError>::Ready(
                Some(Err(SseStreamError::PayloadTooLarge(error))),
            );
            if source.fail_on_oversized_event {
                &&& source.reaction(oversized) == Reaction::Yield(Err(Error::PayloadTooLarge(error)))
                &&& source.reacted(oversized) == source.closed()
                &&& !(source.reaction(poll) matches Reaction::Yield(Ok(SseEvent::Discarded(_))))
            } else {
                &&& source.reaction(oversized) == Reaction::Yield(Ok(SseEvent::Discarded(error)))
                &&& source.reacted(oversized) == source
                &&& !(source.reaction(poll) matches Reaction::Yield(Err(_)))
            }
        }),
{
}

/// Whatever happens to a connection, only an open one has a body and a time
/// since when it is open.
pub proof fn law_well_formed<X: Runtime>(
    source: SourceView<X>,
    id: Option<Seq<char>>,
    connect: X::Connect,
    body: X::Body,
    now: Instant,
    lasted: Option<u128>,
    timer: Option<X::Timer>,
    poll: StreamPoll<ReqwestError>,
)
    requires
        source.wf(),
    ensures
        source.closed().wf(),
        source.restarted().wf(),
        source.restarted_with_id(id).wf(),
        source.action() == Action::Send ==> source.connecting(connect).wf(),
        source.opened(body, now).wf(),
        source.lost(lasted).wf(),
        source.backed_off(timer).wf(),
        source.action() == Action::AwaitTimer ==> source.awake().wf(),
        source.reacted(poll).wf(),
{
}

/// The attempts since the last successful connection are counted. A connection
/// counts as successful if it lasted as long as the threshold.
pub proof fn law_attempts<X: Runtime>(
    source: SourceView<X>,
    lasted: Option<u128>,
    timer: Option<X::Timer>,
)
    requires
        source.connection_attempt < u32::MAX,
    ensures
        ({
            let successful = lasted matches Some(lasted) && source.threshold_nanos <= lasted;
            source.lost(lasted).backed_off(timer).connection_attempt == if successful {
                1
            } else {
                source.connection_attempt + 1
            }
        }),
{
}

/// A lost connection is resumed: the next request asks for the events past the
/// last one, and the next response is read from its start, with that ID.
pub proof fn law_resumed<X: Runtime>(
    source: SourceView<X>,
    lasted: Option<u128>,
    timer: X::Timer,
    cloned: RequestBuilder,
    after: SourceView<X>,
    request: Result<(RequestBuilder, Vec<HeaderField>), Error>,
    connect: X::Connect,
    body: X::Body,
    now: Instant,
)
    requires
        source.decoder.last_event_id matches Some(id) ==> crate::header::is_header_text(id),
        crate::connection::started(
            source.lost(lasted).backed_off(Some(timer)).awake(),
            Some(cloned),
            after,
            request,
        ),
    ensures
        request matches Ok((req, fields)) && crate::header::fields_view(fields@)
            == crate::header::connection_fields(source.decoder.last_event_id),
        after.connecting(connect).opened(body, now).decoder == DecoderView::fresh(
            source.decoder.limit,
            source.decoder.last_event_id,
        ),
{
}

/// The delay that the server asked for last is kept until it asks for another.
pub proof fn law_server_delay<X: Runtime>(
    source: SourceView<X>,
    ms: u32,
    connect: X::Connect,
    body: X::Body,
    now: Instant,
    lasted: Option<u128>,
    timer: Option<X::Timer>,
    poll: StreamPoll<ReqwestError>,
)
    ensures
        source.reacted(
            StreamPoll::Ready(Some(Ok(SseEventCore::Retry(ms)))),
        ).reconnection_time_ms == ms,
        source.closed().reconnection_time_ms == source.reconnection_time_ms,
        source.restarted().reconnection_time_ms == source.reconnection_time_ms,
        source.connecting(connect).reconnection_time_ms == source.reconnection_time_ms,
        source.opened(body, now).reconnection_time_ms == source.reconnection_time_ms,
        source.lost(lasted).reconnection_time_ms == source.reconnection_time_ms,
        source.backed_off(timer).reconnection_time_ms == source.reconnection_time_ms,
        source.awake().reconnection_time_ms == source.reconnection_time_ms,
        !(poll matches StreamPoll::Ready(Some(Ok(SseEventCore::Retry(_)))))
            ==> source.reacted(poll).reconnection_time_ms == source.reconnection_time_ms,
{
}

/// A response opens the connection only with the status code 200 and the right
/// `Content-Type`. Unless it was told to retry, the client gives up on any other
/// status code.
pub proof fn law_strict_by_default(status: u16, content_type: Option<Seq<u8>>, retry: bool)
    ensures
        crate::connection::verdict(status, content_type, retry) is Accepted <==> (status == 200 && (
        content_type matches Some(content_type) && crate::content_type::names_event_stream(
            content_type,
        ))),
        crate::connection::verdict(status, content_type, retry) is Finished <==> status == 204,
        crate::connection::verdict(status, content_type, retry) is Transient <==> retry
            && crate::connection::is_transient(status),
        crate::connection::verdict(status, content_type, false) is BadStatus <==> status != 200
            && status != 204,
{
}

/// The status codes, by their numbers. 200 opens the connection, if the content
/// type is right, and 204 ends the stream. With retrying enabled 408, 429, 502,
/// 503 and 504 are retried, and no others. Everything else is an error that closes
/// the stream and carries the response.
pub proof fn law_responses<X: Runtime>(
    before: SourceView<X>,
    status: u16,
    content_type: Option<Seq<u8>>,
    response: Response,
    after: SourceView<X>,
    answer: Answer,
)
    requires
        crate::connection::answered(before, status, content_type, response, after, answer),
    ensures
        ({
            let transient = status == 408 || status == 429 || status == 502 || status == 503
                || status == 504;
            let retried = before.retry_transient_errors && transient;
            let right = match content_type {
                Some(content_type) => crate::content_type::names_event_stream(content_type),
                None => false,
            };
            &&& answer is Finish <==> status == 204
            &&& answer is Lost <==> retried
            &&& answer is Lost ==> answer == Answer::Lost(SseErrorEvent::Http(status))
            &&& answer is Accept <==> status == 200 && right
            &&& answer is Accept ==> answer == Answer::Accept(response)
            &&& status != 200 && status != 204 && !retried ==> answer == Answer::Fail(
                Error::Status(Box::new(response)),
            )
            &&& status == 200 && content_type is None ==> answer == Answer::Fail(
                Error::MissingContentType(Box::new(response)),
            )
            &&& status == 200 && content_type is Some && !right ==> answer == Answer::Fail(
                Error::InvalidContentType(Box::new(response)),
            )
            &&& answer is Accept || answer is Lost ==> after == before
            &&& answer is Finish || answer is Fail ==> {
                &&& after.state is Closed
                &&& after.body is None
                &&& after.connected_since is None
                &&& same_session(before, after)
            }
        }),
{
}

/// Whether two states have the same settings, the same decoder, and the same
/// number of attempts behind them.
pub open spec fn same_session<X: Runtime>(a: SourceView<X>, b: SourceView<X>) -> bool {
    &&& same_settings(a, b)
    &&& a.reconnection_time_ms == b.reconnection_time_ms
    &&& a.connection_attempt == b.connection_attempt
    &&& a.decoder == b.decoder
    &&& a.buf == b.buf
}

/// Whether two states have the same settings, which nothing changes.
pub open spec fn same_settings<X: Runtime>(a: SourceView<X>, b: SourceView<X>) -> bool {
    &&& a.req == b.req
    &&& a.retry_config == b.retry_config
    &&& a.retry_transient_errors == b.retry_transient_errors
    &&& a.fail_on_oversized_event == b.fail_on_oversized_event
    &&& a.threshold_nanos == b.threshold_nanos
    &&& a.decoder.limit == b.decoder.limit
}

/// A request is sent if it could be cloned and the ID can be a header value. It is
/// the clone, with the fields that ask for an event stream past that ID. Otherwise
/// the error says which of the two it was, and the stream is closed.
pub proof fn law_request<X: Runtime>(
    before: SourceView<X>,
    cloned: Option<RequestBuilder>,
    after: SourceView<X>,
    result: Result<(RequestBuilder, Vec<HeaderField>), Error>,
)
    requires
        crate::connection::started(before, cloned, after, result),
    ensures
        ({
            let id = before.decoder.last_event_id;
            let usable = match id {
                Some(id) => crate::header::is_header_text(id),
                None => true,
            };
            &&& result is Ok <==> cloned is Some && usable
            &&& result matches Ok((req, fields)) ==> {
                &&& cloned == Some(req)
                &&& after == before
                &&& fields@.len() == if id is Some {
                    3int
                } else {
                    2
                }
                &&& fields@[0]@ == ("Accept"@, vstd::utf8::encode_utf8("text/event-stream"@))
                &&& fields@[1]@ == ("Cache-Control"@, vstd::utf8::encode_utf8("no-store"@))
                &&& id matches Some(id) ==> fields@[2]@ == (
                    "Last-Event-ID"@,
                    vstd::utf8::encode_utf8(id),
                )
            }
            &&& result matches Err(error) ==> {
                &&& cloned is None ==> error is UncloneableRequest
                &&& cloned is Some ==> error is InvalidLastEventId
                &&& after.state is Closed
                &&& after.body is None
                &&& after.connected_since is None
                &&& same_session(before, after)
            }
        }),
{
    if let Ok((req, fields)) = result {
        let views = crate::header::fields_view(fields@);
        assert(views.len() == fields@.len());
        assert(views[0] == fields@[0]@);
        assert(views[1] == fields@[1]@);
        if before.decoder.last_event_id is Some {
            assert(views[2] == fields@[2]@);
        }
    }
}

/// A source starts with what its builder was set to: without a configured payload
/// size the limit is 524288 bytes, the limit of a decoder that was not given one,
/// and with one it is that. It starts with a request to send, no attempts behind
/// it, and a decoder that has read nothing.
pub proof fn law_built<X: Runtime>(builder: BuilderView<X>)
    ensures
        ({
            let source = builder.built();
            &&& builder.max_payload_size is None ==> source.decoder == DecoderView::fresh(
                524288,
                builder.last_event_id,
            )
            &&& builder.max_payload_size matches Some(n) ==> source.decoder == DecoderView::fresh(
                n as nat,
                builder.last_event_id,
            )
            &&& source.decoder.last_event_id == builder.last_event_id
            &&& builder.max_payload_size is None ==> source.decoder.limit == 524288
            &&& builder.max_payload_size matches Some(n) ==> source.decoder.limit == n
            &&& source.req == builder.req
            &&& source.retry_config == builder.retry_config
            &&& source.reconnection_time_ms == builder.reconnection_time_ms
            &&& source.retry_transient_errors == builder.retry_transient_errors
            &&& source.fail_on_oversized_event == builder.fail_on_oversized_event
            &&& source.threshold_nanos == builder.threshold_nanos
            &&& source.connection_attempt == 0
            &&& source.connected_since is None
            &&& source.body is None
            &&& source.buf is None
            &&& source.state is Disconnected
        }),
{
}

/// The defaults: 3 seconds between attempts, 5 seconds for a connection to count
/// as successful, strict about status codes, lenient about oversized events, and
/// 512 KiB for a payload.
pub proof fn law_defaults<X: Runtime>(req: RequestBuilder, retry_config: X::Retry)
    ensures
        ({
            let builder = BuilderView::<X>::fresh(req, retry_config);
            &&& builder.req == req
            &&& builder.retry_config == retry_config
            &&& builder.reconnection_time_ms == 3000
            &&& builder.max_payload_size is None
            &&& builder.last_event_id is None
            &&& !builder.retry_transient_errors
            &&& !builder.fail_on_oversized_event
            &&& builder.threshold_nanos == 5000000000
            &&& builder.built().decoder == DecoderView::fresh(524288, None)
            &&& builder.built().decoder.limit == 524288
        }),
{
}

/// What has to be done in each state, and how it is reported.
pub proof fn law_actions<X: Runtime>(source: SourceView<X>)
    ensures
        match source.state {
            State::Disconnected => source.action() is Send && source.ready_state() is Connecting,
            State::Connecting(_) => source.action() is AwaitResponse
                && source.ready_state() is Connecting,
            State::Open => source.action() is Read && source.ready_state() is Open,
            State::Sleeping(_) => source.action() is AwaitTimer
                && source.ready_state() is Connecting,
            State::Closed => source.action() is Finish && source.ready_state() is Closed,
        },
        source.terminated() <==> source.state is Closed,
{
}

/// Giving up and starting over drop the connection and nothing of the session.
/// Starting over forgets the attempts, and only a new ID touches the decoder.
pub proof fn law_giving_up<X: Runtime>(source: SourceView<X>, id: Option<Seq<char>>)
    ensures
        same_session(source, source.closed()),
        source.closed().state is Closed,
        source.closed().body is None,
        source.closed().connected_since is None,
        same_settings(source, source.restarted()),
        source.restarted().reconnection_time_ms == source.reconnection_time_ms,
        source.restarted().connection_attempt == 0,
        source.restarted().decoder == source.decoder,
        source.restarted().state is Disconnected,
        source.restarted().body is None,
        source.restarted().connected_since is None,
        same_settings(source, source.restarted_with_id(id)),
        source.restarted_with_id(id).reconnection_time_ms == source.reconnection_time_ms,
        source.restarted_with_id(id).connection_attempt == 0,
        source.restarted_with_id(id).decoder == DecoderView::fresh(source.decoder.limit, id),
        source.restarted_with_id(id).state is Disconnected,
        source.restarted_with_id(id).body is None,
        source.restarted_with_id(id).connected_since is None,
{
}

/// On the way to an open connection nothing of the session is lost. An open
/// connection reads the body that it was given, from the start, with the ID that
/// the session has, and remembers when it was opened.
pub proof fn law_getting_through<X: Runtime>(
    source: SourceView<X>,
    connect: X::Connect,
    body: X::Body,
    now: Instant,
)
    ensures
        same_session(source, source.connecting(connect)),
        source.connecting(connect).state == State::<X>::Connecting(connect),
        source.connecting(connect).body == source.body,
        source.connecting(connect).connected_since == source.connected_since,
        same_settings(source, source.opened(body, now)),
        source.opened(body, now).reconnection_time_ms == source.reconnection_time_ms,
        source.opened(body, now).connection_attempt == source.connection_attempt,
        source.opened(body, now).state is Open,
        source.opened(body, now).body == Some(body),
        source.opened(body, now).buf is None,
        source.opened(body, now).connected_since == Some(now),
        source.opened(body, now).decoder == DecoderView::fresh(
            source.decoder.limit,
            source.decoder.last_event_id,
        ),
        same_session(source, source.awake()),
        source.awake().state is Disconnected,
        source.awake().body == source.body,
        source.awake().connected_since == source.connected_since,
{
}

/// A connection that was open for at least the threshold when it was lost has its
/// attempts forgotten, and no other has. What counts is the time from its opening
/// to the loss.
pub proof fn law_loss<X: Runtime>(source: SourceView<X>, at: Instant, lasted: Option<u128>)
    ensures
        ({
            let long = match source.connected_since {
                Some(since) => source.threshold_nanos <= crate::clock::nanos_between(at, since),
                None => false,
            };
            let lost = source.lost_at(at);
            &&& long ==> lost.connection_attempt == 0
            &&& !long ==> lost.connection_attempt == source.connection_attempt
            &&& lost.connected_since is None
            &&& lost.body == source.body
            &&& lost.state == source.state
            &&& lost.decoder == source.decoder
            &&& lost.buf == source.buf
            &&& lost.reconnection_time_ms == source.reconnection_time_ms
            &&& same_settings(source, lost)
        }),
        ({
            let long = match lasted {
                Some(lasted) => source.threshold_nanos <= lasted,
                None => false,
            };
            let lost = source.lost(lasted);
            &&& long ==> lost.connection_attempt == 0
            &&& !long ==> lost.connection_attempt == source.connection_attempt
            &&& lost.connected_since is None
            &&& lost.body == source.body
            &&& lost.state == source.state
            &&& lost.decoder == source.decoder
            &&& lost.buf == source.buf
            &&& lost.reconnection_time_ms == source.reconnection_time_ms
            &&& same_settings(source, lost)
        }),
{
}

/// Backing off counts the attempt and drops the connection. With a timer the
/// client waits for it, and without one it has given up. The session is kept.
pub proof fn law_back_off<X: Runtime>(source: SourceView<X>, timer: Option<X::Timer>)
    requires
        source.connection_attempt < u32::MAX,
    ensures
        ({
            let next = source.backed_off(timer);
            &&& next.connection_attempt == source.connection_attempt + 1
            &&& next.body is None
            &&& next.connected_since is None
            &&& next.decoder == source.decoder
            &&& next.buf == source.buf
            &&& next.reconnection_time_ms == source.reconnection_time_ms
            &&& same_settings(source, next)
            &&& timer is None ==> next.state is Closed
            &&& timer matches Some(timer) ==> next.state == State::<X>::Sleeping(timer)
        }),
{
}

/// Every message that the decoder hands out is yielded as it is, a reconnection
/// time is taken over, and the end or an error of the body loses the connection.
/// None of them changes anything else.
pub proof fn law_reactions<X: Runtime>(
    source: SourceView<X>,
    message: MessageEvent,
    ms: u32,
    error: ReqwestError,
)
    ensures
        ({
            let poll = StreamPoll::<ReqwestError>::Ready(Some(Ok(SseEventCore::Message(message))));
            &&& source.reaction(poll) == Reaction::Yield(Ok(SseEvent::Message(message)))
            &&& source.reacted(poll) == source
        }),
        ({
            let poll = StreamPoll::<ReqwestError>::Ready(Some(Ok(SseEventCore::Retry(ms))));
            &&& source.reaction(poll) == Reaction::Continue
            &&& source.reacted(poll).reconnection_time_ms == ms
            &&& source.reacted(poll).connection_attempt == source.connection_attempt
            &&& source.reacted(poll).decoder == source.decoder
            &&& source.reacted(poll).buf == source.buf
            &&& source.reacted(poll).body == source.body
            &&& source.reacted(poll).state == source.state
            &&& source.reacted(poll).connected_since == source.connected_since
            &&& same_settings(source, source.reacted(poll))
        }),
        ({
            let poll = StreamPoll::<ReqwestError>::Ready(Some(Err(SseStreamError::Inner(error))));
            &&& source.reaction(poll) == Reaction::Lost(SseErrorEvent::Network(error))
            &&& source.reacted(poll) == source
        }),
        ({
            let poll = StreamPoll::<ReqwestError>::Ready(None);
            &&& source.reaction(poll) == Reaction::Lost(SseErrorEvent::Eof)
            &&& source.reacted(poll) == source
        }),
        source.reaction(StreamPoll::NeedBytes) == Reaction::NeedBytes,
        source.reacted(StreamPoll::NeedBytes) == source,
{
}

/// What the body gives is what counts: its end and its errors lose the connection,
/// and leave the decoder as it is.
pub proof fn law_body_end<X: Runtime>(
    before: SourceView<X>,
    received: Option<Result<Bytes, ReqwestError>>,
    read: SourceView<X>,
    poll: StreamPoll<ReqwestError>,
)
    requires
        before.received(received, read, poll),
    ensures
        received is None ==> read.reaction(poll) == Reaction::Lost(SseErrorEvent::Eof),
        received matches Some(Err(error)) ==> read.reaction(poll) == Reaction::Lost(
            SseErrorEvent::Network(error),
        ),
        !(received matches Some(Ok(_))) ==> read.decoder == before.decoder,
        read.reconnection_time_ms == before.reconnection_time_ms,
        read.connection_attempt == before.connection_attempt,
        read.connected_since == before.connected_since,
        read.state == before.state,
{
}

/// The state is shown by its name, and a timer by its own text.
pub proof fn law_state_text<X: Runtime>(source: SourceView<X>, timer: Seq<char>)
    ensures
        source.state_text(timer) == match source.state {
            State::Disconnected => "Disconnected"@,
            State::Connecting(_) => "Connecting(_)"@,
            State::Open => "Open"@,
            State::Sleeping(_) => "Sleeping("@ + timer + ")"@,
            State::Closed => "Closed"@,
        },
{
}

} // verus!
