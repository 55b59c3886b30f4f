//! The life of a connection, as a machine.
//!
//! [`SourceView`] is everything that a client remembers. Its methods say what
//! each event in the life of a connection does to it.

use bytes::Bytes;
use reqwest::{Error as ReqwestError, RequestBuilder, Response};
use tokio::time::Instant;
use vstd::prelude::*;

use crate::client::{Error, ReadyState, SseErrorEvent, SseEvent};
use crate::decode::DEFAULT_PAYLOAD_LIMIT;
use crate::event::SseEvent as SseEventCore;
use crate::grammar::DecoderView;
use crate::header::HeaderField;
use crate::stream::{SseStreamError, StreamPoll};

verus! {

/// The delay before a reconnection, in milliseconds, that a stream starts with.
pub const DEFAULT_RECONNECTION_TIME_MS: u32 = 3000;

/// How many nanoseconds a connection has to last, by default, to count as
/// successful: 5 seconds.
pub const DEFAULT_THRESHOLD_NANOS: u128 = 5000000000;

/// What an [`EventSource`] keeps for its caller without looking into it.
pub trait Runtime: Sized {
    /// How the delays between reconnection attempts grow.
    type Retry;

    /// A request that was sent and not answered yet.
    type Connect;

    /// The body of a response, as a stream of buffers.
    type Body;

    /// A timer that was set and has not fired yet.
    type Timer;
}

/// What a builder is set to.
pub struct BuilderView<X: Runtime> {
    pub req: RequestBuilder,
    pub retry_config: X::Retry,
    pub reconnection_time_ms: u32,
    pub max_payload_size: Option<usize>,
    pub last_event_id: Option<Seq<char>>,
    pub retry_transient_errors: bool,
    pub fail_on_oversized_event: bool,
    pub threshold_nanos: u128,
}

/// Where a connection stands.
pub enum State<X: Runtime> {
    /// A request has to be sent.
    Disconnected,
    /// A request was sent.
    Connecting(X::Connect),
    /// The server is sending events.
    Open,
    /// The next attempt has to wait for the timer.
    Sleeping(X::Timer),
    /// There will be no other attempt.
    Closed,
}

/// The state of an [`EventSource`].
pub struct SourceView<X: Runtime> {
    pub req: RequestBuilder,
    pub reconnection_time_ms: u32,
    /// The number of attempts since the last successful connection.
    pub connection_attempt: u32,
    /// When the current connection opened.
    pub connected_since: Option<Instant>,
    pub retry_config: X::Retry,
    pub retry_transient_errors: bool,
    pub fail_on_oversized_event: bool,
    pub threshold_nanos: u128,
    /// The body of the response that is being read.
    pub body: Option<X::Body>,
    /// The buffer that was received last.
    pub buf: Option<Bytes>,
    pub decoder: DecoderView,
    pub state: State<X>,
}

impl<X: Runtime> BuilderView<X> {
    /// What the builder builds.
    pub open spec fn built(self) -> SourceView<X> {
        SourceView {
            req: self.req,
            reconnection_time_ms: self.reconnection_time_ms,
            connection_attempt: 0,
            connected_since: None,
            retry_config: self.retry_config,
            retry_transient_errors: self.retry_transient_errors,
            fail_on_oversized_event: self.fail_on_oversized_event,
            threshold_nanos: self.threshold_nanos,
            body: None,
            buf: None,
            decoder: DecoderView::fresh(
                match self.max_payload_size {
                    Some(max_payload_size) => max_payload_size as nat,
                    None => DEFAULT_PAYLOAD_LIMIT as nat,
                },
                self.last_event_id,
            ),
            state: State::Disconnected,
        }
    }

    /// A builder with nothing but a request and a retry configuration.
    pub open spec fn fresh(req: RequestBuilder, retry_config: X::Retry) -> BuilderView<X> {
        BuilderView {
            req,
            retry_config,
            reconnection_time_ms: DEFAULT_RECONNECTION_TIME_MS,
            max_payload_size: None,
            last_event_id: None,
            retry_transient_errors: false,
            fail_on_oversized_event: false,
            threshold_nanos: DEFAULT_THRESHOLD_NANOS,
        }
    }
}

/// What the caller of an [`EventSource`](crate::source::EventSource) has to do next.
#[derive(Debug, Clone, Copy, PartialEq, Eq, Structural)]
pub enum Action {
    /// Send the request.
    Send,
    /// Wait for the response.
    AwaitResponse,
    /// Read events.
    Read,
    /// Wait for the timer.
    AwaitTimer,
    /// Nothing. The stream has come to its end.
    Finish,
}

/// What is to be done about a response.
pub enum Answer {
    /// The body has to be read.
    Accept(Response),
    /// The server wants no other request. The stream has come to its end.
    Finish,
    /// The stream yields the error.
    Fail(Error),
    /// The connection is lost.
    Lost(SseErrorEvent),
}

/// What is to be done about what the body of a response holds.
pub enum Reaction {
    /// The body has to be read.
    NeedBytes,
    /// Nothing. There may be another event.
    Continue,
    /// The stream yields the item.
    Yield(Result<SseEvent, Error>),
    /// The connection is lost.
    Lost(SseErrorEvent),
}

/// What a response amounts to.
pub enum Verdict {
    Accepted,
    Finished,
    Transient,
    BadStatus,
    NoContentType,
    BadContentType,
}

/// Whether a status code stands for a temporary problem.
pub open spec fn is_transient(status: u16) -> bool {
    status == 408 || status == 429 || status == 502 || status == 503 || status == 504
}

/// What a response with the given status code and `Content-Type` amounts to.
pub open spec fn verdict(
    status: u16,
    content_type: Option<Seq<u8>>,
    retry_transient_errors: bool,
) -> Verdict {
    if status == 204 {
        Verdict::Finished
    } else if is_transient(status) && retry_transient_errors {
        Verdict::Transient
    } else if status != 200 {
        Verdict::BadStatus
    } else {
        match content_type {
            None => Verdict::NoContentType,
            Some(content_type) => if crate::content_type::names_event_stream(content_type) {
                Verdict::Accepted
            } else {
                Verdict::BadContentType
            },
        }
    }
}

impl<X: Runtime> SourceView<X> {
    /// What holds of every state. Only an open connection has a body that is
    /// being read and a time since when it is open.
    pub open spec fn wf(self) -> bool {
        !(self.state is Open) ==> self.body is None && self.connected_since is None
    }

    /// Whether the stream has come to its end.
    pub open spec fn terminated(self) -> bool {
        self.state is Closed
    }

    pub open spec fn ready_state(self) -> ReadyState {
        match self.state {
            State::Disconnected | State::Connecting(_) | State::Sleeping(_) => {
                ReadyState::Connecting
            },
            State::Open => ReadyState::Open,
            State::Closed => ReadyState::Closed,
        }
    }

    pub open spec fn action(self) -> Action {
        match self.state {
            State::Disconnected => Action::Send,
            State::Connecting(_) => Action::AwaitResponse,
            State::Open => Action::Read,
            State::Sleeping(_) => Action::AwaitTimer,
            State::Closed => Action::Finish,
        }
    }

    /// The state, for debugging. The timer of a sleeping source is shown as `timer`.
    pub open spec fn state_text(self, timer: Seq<char>) -> Seq<char> {
        match self.state {
            State::Disconnected => "Disconnected"@,
            State::Connecting(_) => "Connecting(_)"@,
            State::Open => "Open"@,
            State::Sleeping(_) => "Sleeping("@ + timer + ")"@,
            State::Closed => "Closed"@,
        }
    }

    /// The connection is given up for good.
    pub open spec fn closed(self) -> SourceView<X> {
        SourceView { body: None, connected_since: None, state: State::Closed, ..self }
    }

    /// The connection is given up for a new one, as if there had been none.
    pub open spec fn restarted(self) -> SourceView<X> {
        SourceView {
            body: None,
            connected_since: None,
            connection_attempt: 0,
            state: State::Disconnected,
            ..self
        }
    }

    /// The same, with another ID to resume from.
    pub open spec fn restarted_with_id(self, id: Option<Seq<char>>) -> SourceView<X> {
        SourceView { decoder: DecoderView::fresh(self.decoder.limit, id), ..self.restarted() }
    }

    /// A request was sent.
    pub open spec fn connecting(self, connect: X::Connect) -> SourceView<X> {
        SourceView { state: State::Connecting(connect), ..self }
    }

    /// A response was accepted.
    pub open spec fn opened(self, body: X::Body, now: Instant) -> SourceView<X> {
        SourceView {
            state: State::Open,
            connected_since: Some(now),
            body: Some(body),
            buf: None,
            decoder: DecoderView::fresh(self.decoder.limit, self.decoder.last_event_id),
            ..self
        }
    }

    /// An attempt to connect has failed, or a connection was lost after it had
    /// been open for so many nanoseconds.
    pub open spec fn lost(self, lasted: Option<u128>) -> SourceView<X> {
        SourceView {
            connected_since: None,
            connection_attempt: match lasted {
                Some(lasted) if self.threshold_nanos <= lasted => 0,
                _ => self.connection_attempt,
            },
            ..self
        }
    }

    /// An attempt to connect has failed, or a connection was lost, at the given
    /// instant.
    pub open spec fn lost_at(self, at: Instant) -> SourceView<X> {
        self.lost(
            match self.connected_since {
                Some(since) => Some(crate::clock::nanos_between(at, since)),
                None => None,
            },
        )
    }

    /// The next attempt has to wait for the timer. Without one there will be
    /// no next attempt.
    pub open spec fn backed_off(self, timer: Option<X::Timer>) -> SourceView<X> {
        let counted = SourceView {
            connection_attempt: (self.connection_attempt + 1) as u32,
            ..self
        };
        match timer {
            Some(timer) => SourceView {
                body: None,
                connected_since: None,
                state: State::Sleeping(timer),
                ..counted
            },
            None => counted.closed(),
        }
    }

    /// The timer has fired.
    pub open spec fn awake(self) -> SourceView<X> {
        SourceView { state: State::Disconnected, ..self }
    }

    /// What is to be done about `poll`, which the stream of events yielded.
    pub open spec fn reaction(self, poll: StreamPoll<ReqwestError>) -> Reaction {
        match poll {
            StreamPoll::NeedBytes => Reaction::NeedBytes,
            StreamPoll::Ready(None) => Reaction::Lost(SseErrorEvent::Eof),
            StreamPoll::Ready(Some(Ok(SseEventCore::Retry(_)))) => Reaction::Continue,
            StreamPoll::Ready(Some(Ok(SseEventCore::Message(message)))) => Reaction::Yield(
                Ok(SseEvent::Message(message)),
            ),
            StreamPoll::Ready(Some(Err(SseStreamError::PayloadTooLarge(error)))) => {
                Reaction::Yield(
                    if self.fail_on_oversized_event {
                        Err(Error::PayloadTooLarge(error))
                    } else {
                        Ok(SseEvent::Discarded(error))
                    },
                )
            },
            StreamPoll::Ready(Some(Err(SseStreamError::Inner(error)))) => Reaction::Lost(
                SseErrorEvent::Network(error),
            ),
        }
    }

    /// What that does to the state.
    pub open spec fn reacted(self, poll: StreamPoll<ReqwestError>) -> SourceView<X> {
        match poll {
            StreamPoll::Ready(Some(Ok(SseEventCore::Retry(ms)))) => SourceView {
                reconnection_time_ms: ms,
                ..self
            },
            StreamPoll::Ready(Some(Err(SseStreamError::PayloadTooLarge(_)))) => {
                if self.fail_on_oversized_event {
                    self.closed()
                } else {
                    self
                }
            },
            _ => self,
        }
    }

    /// The state behind a step of the stream of events, which is at `after`.
    pub open spec fn streaming(self, after: SourceView<X>) -> SourceView<X> {
        SourceView { body: after.body, buf: after.buf, decoder: after.decoder, ..self }
    }

    /// The bytes received so far were decoded, and the stream of events yielded
    /// `poll`.
    pub open spec fn buffered(self, after: SourceView<X>, poll: StreamPoll<ReqwestError>) -> bool {
        &&& after == self.streaming(after)
        &&& after.body == self.body
        &&& match self.body {
            None => after == self && poll == StreamPoll::<ReqwestError>::Ready(None),
            Some(_) => crate::stream::buffer_polled(
                self.decoder,
                self.buf,
                after.decoder,
                after.buf,
                poll,
            ),
        }
    }

    /// The body gave `received`, which is nothing at its end, and the stream of
    /// events yielded `poll`.
    pub open spec fn received(
        self,
        received: Option<Result<Bytes, ReqwestError>>,
        after: SourceView<X>,
        poll: StreamPoll<ReqwestError>,
    ) -> bool {
        &&& after == self.streaming(after)
        &&& match received {
            Some(Ok(buf)) => {
                &&& after.body == self.body
                &&& crate::stream::buffer_polled(
                    self.decoder,
                    Some(buf),
                    after.decoder,
                    after.buf,
                    poll,
                )
            },
            Some(Err(error)) => {
                &&& after == self
                &&& poll == StreamPoll::Ready(Some(Err(SseStreamError::Inner(error))))
            },
            None => {
                &&& after.body is None
                &&& after.buf is None
                &&& after.decoder == self.decoder
                &&& poll == StreamPoll::<ReqwestError>::Ready(None)
            },
        }
    }
}

/// A request is prepared, of which `cloned` is the clone. It takes the client
/// from `before` to `after`.
pub open spec fn started<X: Runtime>(
    before: SourceView<X>,
    cloned: Option<RequestBuilder>,
    after: SourceView<X>,
    result: Result<(RequestBuilder, Vec<HeaderField>), Error>,
) -> bool {
    match cloned {
        None => {
            &&& result matches Err(error)
            &&& error is UncloneableRequest
            &&& after == before.closed()
        },
        Some(cloned) => match before.decoder.last_event_id {
            Some(id) if !crate::header::is_header_text(id) => {
                &&& result matches Err(error)
                &&& error is InvalidLastEventId
                &&& after == before.closed()
            },
            last_event_id => {
                &&& result matches Ok((req, fields))
                &&& req == cloned
                &&& crate::header::fields_view(fields@) == crate::header::connection_fields(
                    last_event_id,
                )
                &&& after == before
            },
        },
    }
}

/// A response is judged by its status code and its `Content-Type`. It takes the
/// client from `before` to `after`.
pub open spec fn answered<X: Runtime>(
    before: SourceView<X>,
    status: u16,
    content_type: Option<Seq<u8>>,
    response: Response,
    after: SourceView<X>,
    answer: Answer,
) -> bool {
    match verdict(status, content_type, before.retry_transient_errors) {
        Verdict::Accepted => after == before && answer == Answer::Accept(response),
        Verdict::Finished => after == before.closed() && answer == Answer::Finish,
        Verdict::Transient => after == before && answer == Answer::Lost(
            SseErrorEvent::Http(status),
        ),
        Verdict::BadStatus => after == before.closed() && answer == Answer::Fail(
            Error::Status(Box::new(response)),
        ),
        Verdict::NoContentType => after == before.closed() && answer == Answer::Fail(
            Error::MissingContentType(Box::new(response)),
        ),
        Verdict::BadContentType => after == before.closed() && answer == Answer::Fail(
            Error::InvalidContentType(Box::new(response)),
        ),
    }
}

} // verus!
