//! The connection logic of a client.
//!
//! An [`EventSource`] decides; it does not perform any I/O. The caller asks for
//! the next [`Action`], performs it, and reports how it went.

use bytes::Bytes;
use reqwest::{Error as ReqwestError, RequestBuilder, Response};
use std::sync::Arc;
use tokio::time::Instant;
use vstd::prelude::*;
use vstd::string::StringExecFns;

use crate::client::{Error, ReadyState, SseErrorEvent, SseEvent};
use crate::connection::{
    Action, Answer, BuilderView, Reaction, Runtime, SourceView, State, DEFAULT_RECONNECTION_TIME_MS,
    DEFAULT_THRESHOLD_NANOS,
};
use crate::clock::{nanos_since, Clock};
use crate::content_type::is_event_stream;
use crate::decode::SseDecoder;
use crate::event::SseEvent as SseEventCore;
use crate::header::{connection_headers, HeaderField};
use crate::sealed::Sealed;
use crate::stream::{SseStream, SseStreamError, StreamPoll};
use crate::transport::{header_of, status_of, try_clone_request};

verus! {

/// A builder for configuring an [`EventSource`] connection.
pub struct EventSourceBuilder<X: Runtime> {
    req: RequestBuilder,
    retry_config: X::Retry,
    reconnection_time_ms: u32,
    max_payload_size: Option<usize>,
    last_event_id: Option<Arc<str>>,
    retry_transient_errors: bool,
    fail_on_oversized_event: bool,
    threshold_nanos: u128,
}

impl<X: Runtime> View for EventSourceBuilder<X> {
    type V = BuilderView<X>;

    closed spec fn view(&self) -> BuilderView<X> {
        BuilderView {
            req: self.req,
            retry_config: self.retry_config,
            reconnection_time_ms: self.reconnection_time_ms,
            max_payload_size: self.max_payload_size,
            last_event_id: crate::text::id_text(self.last_event_id),
            retry_transient_errors: self.retry_transient_errors,
            fail_on_oversized_event: self.fail_on_oversized_event,
            threshold_nanos: self.threshold_nanos,
        }
    }
}

impl<X: Runtime> EventSourceBuilder<X> {
    /// What holds of every builder.
    pub open spec fn wf(&self) -> bool {
        self@.max_payload_size matches Some(max_payload_size) ==> max_payload_size > 0
    }

    /// Creates a new builder wrapping the given request.
    #[must_use]
    pub fn new(req: RequestBuilder, retry_config: X::Retry) -> (builder: Self)
        ensures
            builder.wf(),
            builder@ == BuilderView::<X>::fresh(req, retry_config),
    {
        EventSourceBuilder {
            req,
            retry_config,
            reconnection_time_ms: DEFAULT_RECONNECTION_TIME_MS,
            max_payload_size: None,
            last_event_id: None,
            retry_transient_errors: false,
            fail_on_oversized_event: false,
            threshold_nanos: DEFAULT_THRESHOLD_NANOS,
        }
    }

    /// Applies a custom retry configuration for automatic reconnections.
    #[inline]
    #[must_use]
    pub fn retry_config(self, retry_config: X::Retry) -> (builder: Self)
        ensures
            self.wf() ==> builder.wf(),
            builder@ == (BuilderView { retry_config, ..self@ }),
    {
        EventSourceBuilder { retry_config, ..self }
    }

    /// Sets the base delay to wait before attempting to reconnect, in milliseconds.
    ///
    /// This delay may be overridden by the server using `retry` events.
    #[inline]
    #[must_use]
    pub fn initial_reconnection_time(self, reconnection_time_ms: u128) -> (builder: Self)
        requires
            reconnection_time_ms <= u32::MAX,
        ensures
            self.wf() ==> builder.wf(),
            builder@ == (BuilderView {
                reconnection_time_ms: reconnection_time_ms as u32,
                ..self@
            }),
    {
        EventSourceBuilder { reconnection_time_ms: reconnection_time_ms as u32, ..self }
    }

    /// Configures the maximum allowed byte size for a single event payload.
    #[inline]
    #[must_use]
    pub fn max_payload_size(self, max_payload_size: usize) -> (builder: Self)
        requires
            max_payload_size > 0,
        ensures
            builder.wf(),
            builder@ == (BuilderView { max_payload_size: Some(max_payload_size), ..self@ }),
    {
        EventSourceBuilder { max_payload_size: Some(max_payload_size), ..self }
    }

    /// Treats an event that exceeds [`max_payload_size`](Self::max_payload_size) as
    /// a fatal error.
    ///
    /// By default the limit is enforced without ending the subscription: the
    /// oversized event is dropped, the decoder resynchronizes at the next event
    /// boundary, and the loss is reported as [`SseEvent::Discarded`] while the
    /// connection stays open.
    ///
    /// Setting this to `true` instead closes the stream and yields
    /// [`Error::PayloadTooLarge`], for applications where silently continuing past
    /// a lost event would be worse than stopping. [`SseEvent::Discarded`] is then
    /// never emitted.
    ///
    /// Do **not** simply reconnect after that. An oversized event never advances
    /// the `Last-Event-ID`, so a server that honours it sends the event again.
    /// Instead, keep the resume point and rebuild with a limit that fits.
    #[inline]
    #[must_use]
    pub fn fail_on_oversized_event(self, fail: bool) -> (builder: Self)
        ensures
            self.wf() ==> builder.wf(),
            builder@ == (BuilderView { fail_on_oversized_event: fail, ..self@ }),
    {
        EventSourceBuilder { fail_on_oversized_event: fail, ..self }
    }

    /// Sets the initial `Last-Event-ID` to send with the first connection request.
    ///
    /// This is useful for resuming a dropped stream from a previously saved state.
    #[inline]
    #[must_use]
    pub fn last_event_id(self, id: Arc<str>) -> (builder: Self)
        ensures
            self.wf() ==> builder.wf(),
            builder@ == (BuilderView { last_event_id: Some((*id)@), ..self@ }),
    {
        EventSourceBuilder { last_event_id: Some(id), ..self }
    }

    /// Enables automatic retries for transient HTTP status codes.
    ///
    /// By default, the stream is permanently closed on any non-200 HTTP response.
    ///
    /// Setting this to `true` allows the client to automatically back off and retry when
    /// encountering temporary proxy or server issues. The following status codes are
    /// considered transient:
    /// * `408 Request Timeout`
    /// * `429 Too Many Requests`
    /// * `502 Bad Gateway`
    /// * `503 Service Unavailable`
    /// * `504 Gateway Timeout`
    #[inline]
    #[must_use]
    pub fn retry_transient_errors(self, retry: bool) -> (builder: Self)
        ensures
            self.wf() ==> builder.wf(),
            builder@ == (BuilderView { retry_transient_errors: retry, ..self@ }),
    {
        EventSourceBuilder { retry_transient_errors: retry, ..self }
    }

    /// Sets how many nanoseconds a connection must remain open to be considered
    /// "successful" and reset the exponential backoff counter. Defaults to 5 seconds.
    #[inline]
    #[must_use]
    pub fn successful_connection_threshold(self, threshold_nanos: u128) -> (builder: Self)
        ensures
            self.wf() ==> builder.wf(),
            builder@ == (BuilderView { threshold_nanos, ..self@ }),
    {
        EventSourceBuilder { threshold_nanos, ..self }
    }

    /// Consumes the builder and returns the configured [`EventSource`].
    #[must_use]
    pub fn build(self) -> (source: EventSource<X>)
        requires
            self.wf(),
        ensures
            source.wf(),
            source@ == self@.built(),
            source.readings() == Seq::<Instant>::empty(),
    {
        let mut decoder = match self.max_payload_size {
            Some(max_payload_size) => SseDecoder::with_limit(max_payload_size),
            None => SseDecoder::new(),
        };
        decoder.reconnect_with_id(self.last_event_id);
        EventSource {
            req: self.req,
            reconnection_time_ms: self.reconnection_time_ms,
            connection_attempt: 0,
            connected_since: None,
            retry_config: self.retry_config,
            retry_transient_errors: self.retry_transient_errors,
            fail_on_oversized_event: self.fail_on_oversized_event,
            threshold_nanos: self.threshold_nanos,
            stream: SseStream::with_decoder(decoder),
            state: State::Disconnected,
            clock: Clock::new(),
        }
    }
}

/// The connection logic of a reconnecting stream of Server-Sent Events.
pub struct EventSource<X: Runtime> {
    req: RequestBuilder,
    reconnection_time_ms: u32,
    connection_attempt: u32,
    /// When the *currently live* connection opened, used to decide whether it
    /// lasted long enough to reset the backoff counter. It is cleared by every
    /// path that abandons the connection.
    connected_since: Option<Instant>,
    retry_config: X::Retry,
    retry_transient_errors: bool,
    fail_on_oversized_event: bool,
    threshold_nanos: u128,
    stream: SseStream<X::Body, Bytes>,
    state: State<X>,
    clock: Clock,
}

impl<X: Runtime> View for EventSource<X> {
    type V = SourceView<X>;

    closed spec fn view(&self) -> SourceView<X> {
        SourceView {
            req: self.req,
            reconnection_time_ms: self.reconnection_time_ms,
            connection_attempt: self.connection_attempt,
            connected_since: self.connected_since,
            retry_config: self.retry_config,
            retry_transient_errors: self.retry_transient_errors,
            fail_on_oversized_event: self.fail_on_oversized_event,
            threshold_nanos: self.threshold_nanos,
            body: self.stream.inner(),
            buf: self.stream.buf(),
            decoder: self.stream.decoder(),
            state: self.state,
        }
    }
}

impl<X: Runtime> EventSource<X> {
    /// What the source has read from the clock, in order.
    pub closed spec fn readings(&self) -> Seq<Instant> {
        self.clock.readings()
    }

    /// What holds of every event source.
    pub closed spec fn wf(&self) -> bool {
        self.stream.wf() && self@.wf()
    }

    /// Creates a new [`EventSource`] from the given request with default configurations.
    #[must_use]
    pub fn new(req: RequestBuilder, retry_config: X::Retry) -> (source: Self)
        ensures
            source.wf(),
            source@ == BuilderView::<X>::fresh(req, retry_config).built(),
    {
        Self::builder(req, retry_config).build()
    }

    /// Creates a builder to customize the [`EventSource`] before connecting.
    #[must_use]
    pub fn builder(req: RequestBuilder, retry_config: X::Retry) -> (builder: EventSourceBuilder<X>)
        ensures
            builder.wf(),
            builder@ == BuilderView::<X>::fresh(req, retry_config),
    {
        EventSourceBuilder::new(req, retry_config)
    }

    /// Closes the underlying SSE connection.
    ///
    /// This drops the active request or response. Calling [`close`](Self::close) is
    /// idempotent; if the connection is already closed, this does nothing and is
    /// perfectly safe to call multiple times.
    ///
    /// While this halts all incoming events and stops the automatic reconnection
    /// loop, it does not consume the [`EventSource`]. You can manually restart the
    /// stream and initiate a fresh connection at any time by calling
    /// [`force_reconnect()`](Self::force_reconnect).
    pub fn close(&mut self)
        ensures
            old(self).wf() ==> final(self).wf(),
            final(self)@ == old(self)@.closed(),
            final(self).readings() == old(self).readings(),
    {
        self.stream.close();
        self.connected_since = None;
        self.state = State::Closed;
    }

    /// Returns the current connection state.
    #[inline]
    #[must_use]
    pub fn ready_state(&self) -> (ready_state: ReadyState)
        ensures
            ready_state == self@.ready_state(),
    {
        match &self.state {
            State::Disconnected | State::Connecting(_) | State::Sleeping(_) => {
                ReadyState::Connecting
            },
            State::Open => ReadyState::Open,
            State::Closed => ReadyState::Closed,
        }
    }

    /// Returns whether the stream has come to its end. It has exactly when it is
    /// [`ReadyState::Closed`].
    ///
    /// Note that termination is not permanent: a closed [`EventSource`] can be
    /// revived with [`force_reconnect()`](Self::force_reconnect).
    #[inline]
    #[must_use]
    pub fn is_terminated(&self) -> (terminated: bool)
        ensures
            terminated == self@.terminated(),
    {
        matches!(self.state, State::Closed)
    }

    /// Returns the most recently received `Last-Event-ID`, if any.
    #[inline]
    #[must_use]
    pub fn last_event_id(&self) -> (id: Option<&Arc<str>>)
        ensures
            match id {
                Some(id) => self@.decoder.last_event_id == Some((**id)@),
                None => self@.decoder.last_event_id is None,
            },
    {
        self.stream.last_event_id()
    }

    /// Terminates the current connection and immediately attempts to reconnect.
    ///
    /// Because an [`EventSource`] automatically handles network drops and reconnections,
    /// you typically do not need to call this manually. However, it is useful in specific
    /// scenarios, such as:
    ///
    /// * **Bypassing Backoff:** The server state has heavily desynced, and you want to bypass the
    ///   current exponential backoff timer to reconnect instantly.
    /// * **Manual Revival:** You previously called [`close()`](Self::close) to pause the stream,
    ///   and now want to resume listening for events.
    ///
    /// This method resets the connection attempt counter, meaning the next connection attempt will
    /// happen immediately without any retry delay. And will continue with the exponential backoff
    /// reset.
    #[inline]
    pub fn force_reconnect(&mut self)
        ensures
            old(self).wf() ==> final(self).wf(),
            final(self)@ == old(self)@.restarted(),
            final(self).readings() == old(self).readings(),
    {
        self.stream.close();
        self.connected_since = None;
        self.connection_attempt = 0;
        self.state = State::Disconnected;
    }

    /// Terminates the current connection and immediately attempts to reconnect,
    /// explicitly overriding the `Last-Event-ID` sent to the server.
    ///
    /// This is useful if your application state has desynced and you need to
    /// force the server to rewind or fast-forward to a specific point in the stream.
    ///
    /// See [force_reconnect()](Self::force_reconnect) for more info.
    #[inline]
    pub fn force_reconnect_with_id(&mut self, id: Option<Arc<str>>)
        requires
            old(self).wf(),
        ensures
            final(self).wf(),
            final(self)@ == old(self)@.restarted_with_id(crate::text::id_text(id)),
            final(self).readings() == old(self).readings(),
    {
        self.stream.close_with_id(id);
        self.connected_since = None;
        self.connection_attempt = 0;
        self.state = State::Disconnected;
    }

    /// Returns what has to be done next.
    #[must_use]
    pub fn action(&self) -> (action: Action)
        ensures
            action == self@.action(),
    {
        match &self.state {
            State::Disconnected => Action::Send,
            State::Connecting(_) => Action::AwaitResponse,
            State::Open => Action::Read,
            State::Sleeping(_) => Action::AwaitTimer,
            State::Closed => Action::Finish,
        }
    }

    /// Describes the state, for debugging. The timer that was set, if there is one,
    /// is shown as `timer`.
    #[must_use]
    pub fn state_text(&self, timer: &str) -> (text: String)
        ensures
            text@ == self@.state_text(timer@),
    {
        let mut out = String::new();
        match &self.state {
            State::Disconnected => out.append("Disconnected"),
            State::Connecting(_) => out.append("Connecting(_)"),
            State::Open => out.append("Open"),
            State::Sleeping(_) => {
                out.append("Sleeping(");
                out.append(timer);
                out.append(")");
            },
            State::Closed => out.append("Closed"),
        }
        out
    }

    /// Returns the timer that was set.
    pub fn timer(&self) -> (timer: Option<&X::Timer>)
        ensures
            match timer {
                Some(timer) => self@.state == State::<X>::Sleeping(*timer),
                None => !(self@.state is Sleeping),
            },
    {
        match &self.state {
            State::Sleeping(timer) => Some(timer),
            _ => None,
        }
    }

    /// Returns the request that connections are made with.
    pub fn request(&self) -> (req: &RequestBuilder)
        ensures
            *req == self@.req,
    {
        &self.req
    }

    /// Returns the retry configuration.
    pub fn retry_config(&self) -> (retry_config: &X::Retry)
        ensures
            *retry_config == self@.retry_config,
    {
        &self.retry_config
    }

    /// Returns the base delay to wait before attempting to reconnect, in milliseconds.
    pub fn reconnection_time_ms(&self) -> (ms: u32)
        ensures
            ms == self@.reconnection_time_ms,
    {
        self.reconnection_time_ms
    }

    /// Returns the number of attempts since the last successful connection.
    pub fn connection_attempt(&self) -> (attempt: u32)
        ensures
            attempt == self@.connection_attempt,
    {
        self.connection_attempt
    }

    /// Returns whether transient HTTP status codes are retried.
    pub fn retry_transient_errors(&self) -> (retry: bool)
        ensures
            retry == self@.retry_transient_errors,
    {
        self.retry_transient_errors
    }

    /// Returns whether an oversized event is fatal.
    pub fn fail_on_oversized_event(&self) -> (fail: bool)
        ensures
            fail == self@.fail_on_oversized_event,
    {
        self.fail_on_oversized_event
    }

    /// Returns since when the current connection is open.
    pub fn connected_since(&self) -> (since: Option<Instant>)
        ensures
            since == self@.connected_since,
    {
        self.connected_since
    }

    /// Gives access to the request that was sent, for waiting for its response.
    pub fn connect_mut(&mut self) -> (connect: Option<&mut X::Connect>)
        ensures
            match connect {
                Some(connect) => {
                    &&& old(self)@.state == State::<X>::Connecting(*connect)
                    &&& final(self)@ == old(self)@.connecting(*final(connect))
                },
                None => !(old(self)@.state is Connecting) && *final(self) == *old(self),
            },
            old(self).wf() ==> final(self).wf(),
            final(self).readings() == old(self).readings(),
    {
        match &mut self.state {
            State::Connecting(connect) => Some(connect),
            _ => None,
        }
    }

    /// Gives access to the timer that was set, for waiting for it.
    pub fn timer_mut(&mut self) -> (timer: Option<&mut X::Timer>)
        ensures
            match timer {
                Some(timer) => {
                    &&& old(self)@.state == State::<X>::Sleeping(*timer)
                    &&& final(self)@ == (SourceView::<X> {
                        state: State::Sleeping(*final(timer)),
                        ..old(self)@
                    })
                },
                None => !(old(self)@.state is Sleeping) && *final(self) == *old(self),
            },
            old(self).wf() ==> final(self).wf(),
            final(self).readings() == old(self).readings(),
    {
        match &mut self.state {
            State::Sleeping(timer) => Some(timer),
            _ => None,
        }
    }

    /// Gives access to the body of the response, for reading from it.
    pub fn body_mut(&mut self) -> (body: Option<&mut X::Body>)
        ensures
            match body {
                Some(body) => {
                    &&& old(self)@.body == Some(*body)
                    &&& final(self)@ == (SourceView::<X> {
                        body: Some(*final(body)),
                        ..old(self)@
                    })
                },
                None => old(self)@.body is None && final(self)@ == old(self)@,
            },
            old(self).wf() ==> final(self).wf(),
            final(self).readings() == old(self).readings(),
    {
        self.stream.inner_mut()
    }

    /// Clones the request, and returns the clone with the header fields to add
    /// before it is sent.
    pub fn start(&mut self) -> (result: Result<(RequestBuilder, Vec<HeaderField>), Error>)
        requires
            old(self).wf(),
            old(self)@.action() == Action::Send,
        ensures
            final(self).wf(),
            crate::connection::started(
                old(self)@,
                crate::transport::request_clone(old(self)@.req),
                final(self)@,
                result,
            ),
            final(self).readings() == old(self).readings(),
    {
        let cloned = try_clone_request(&self.req);
        self.start_with(cloned)
    }

    /// Takes a clone of the request, if it could be cloned, and returns it with
    /// the header fields to add before it is sent.
    pub fn start_with(&mut self, cloned: Option<RequestBuilder>) -> (result: Result<
        (RequestBuilder, Vec<HeaderField>),
        Error,
    >)
        requires
            old(self).wf(),
            old(self)@.action() == Action::Send,
        ensures
            final(self).wf(),
            crate::connection::started(old(self)@, cloned, final(self)@, result),
            final(self).readings() == old(self).readings(),
    {
        let req = match cloned {
            Some(req) => req,
            None => {
                self.close();
                return Err(Error::UncloneableRequest);
            },
        };
        match connection_headers(self.stream.last_event_id()) {
            Ok(fields) => Ok((req, fields)),
            Err(error) => {
                self.close();
                Err(Error::InvalidLastEventId(error))
            },
        }
    }

    /// Takes the request that was sent.
    pub fn connecting(&mut self, connect: X::Connect)
        requires
            old(self).wf(),
            old(self)@.action() == Action::Send,
        ensures
            final(self).wf(),
            final(self)@ == old(self)@.connecting(connect),
            final(self).readings() == old(self).readings(),
    {
        self.state = State::Connecting(connect);
    }

    /// Decides what is to be done about a response.
    pub fn respond(&mut self, response: Response) -> (answer: Answer)
        requires
            old(self).wf(),
            old(self)@.action() == Action::AwaitResponse,
        ensures
            final(self).wf(),
            crate::connection::answered(
                old(self)@,
                crate::transport::response_status(response),
                crate::transport::response_header(response, "Content-Type"@),
                response,
                final(self)@,
                answer,
            ),
            final(self).readings() == old(self).readings(),
    {
        let status: u16 = status_of(&response);
        match header_of(&response, "Content-Type") {
            Some(content_type) => self.respond_with(
                status,
                Some(content_type.as_slice()),
                response,
            ),
            None => self.respond_with(status, None, response),
        }
    }

    /// Decides what is to be done about a response, by its status code and the
    /// value of its `Content-Type` header, if it has one.
    pub fn respond_with(
        &mut self,
        status: u16,
        content_type: Option<&[u8]>,
        response: Response,
    ) -> (answer: Answer)
        requires
            old(self).wf(),
            old(self)@.action() == Action::AwaitResponse,
        ensures
            final(self).wf(),
            crate::connection::answered(
                old(self)@,
                status,
                match content_type {
                    Some(content_type) => Some(content_type@),
                    None => None,
                },
                response,
                final(self)@,
                answer,
            ),
            final(self).readings() == old(self).readings(),
    {
        if status == 204 {
            self.close();
            return Answer::Finish;
        }
        let is_transient_error = status == 408 || status == 429 || status == 502 || status == 503
            || status == 504;
        if self.retry_transient_errors && is_transient_error {
            return Answer::Lost(SseErrorEvent::Http(status));
        } else if status != 200 {
            self.close();
            return Answer::Fail(Error::Status(Box::new(response)));
        }
        let content_type = match content_type {
            Some(content_type) => content_type,
            None => {
                self.close();
                return Answer::Fail(Error::MissingContentType(Box::new(response)));
            },
        };
        if !is_event_stream(content_type) {
            self.close();
            return Answer::Fail(Error::InvalidContentType(Box::new(response)));
        }
        Answer::Accept(response)
    }

    /// Takes the body of a response that was accepted.
    pub fn open(&mut self, body: X::Body) -> (event: SseEvent)
        requires
            old(self).wf(),
            old(self)@.action() == Action::AwaitResponse,
        ensures
            final(self).wf(),
            final(self)@.connected_since matches Some(now) && final(self)@ == old(self)@.opened(
                body,
                now,
            ),
            final(self)@.connected_since matches Some(now) && final(self).readings() == old(
                self,
            ).readings().push(now),
            event is Open,
    {
        self.state = State::Open;
        self.connected_since = Some(self.clock.read());
        self.stream.attach(body);
        SseEvent::Open
    }

    /// Decides what is to be done about what the stream of events yields.
    fn react(&mut self, poll: StreamPoll<ReqwestError>) -> (reaction: Reaction)
        requires
            old(self).wf(),
        ensures
            final(self).wf(),
            final(self)@ == old(self)@.reacted(poll),
            reaction == old(self)@.reaction(poll),
            final(self).readings() == old(self).readings(),
    {
        let item = match poll {
            StreamPoll::NeedBytes => {
                return Reaction::NeedBytes;
            },
            StreamPoll::Ready(item) => item,
        };
        match item {
            Some(Ok(SseEventCore::Retry(ms))) => {
                self.reconnection_time_ms = ms;
                Reaction::Continue
            },
            Some(Ok(SseEventCore::Message(message))) => Reaction::Yield(
                Ok(SseEvent::from(message)),
            ),
            // The limit has already done its job: the decoder refused to grow its
            // buffer, dropped the offending event and resynchronized, so the
            // connection is still healthy and memory is still bounded.
            Some(Err(SseStreamError::PayloadTooLarge(error))) => {
                if self.fail_on_oversized_event {
                    self.close();
                    return Reaction::Yield(Err(Error::PayloadTooLarge(error)));
                }
                Reaction::Yield(Ok(SseEvent::Discarded(error)))
            },
            Some(Err(SseStreamError::Inner(error))) => Reaction::Lost(SseErrorEvent::from(error)),
            None => Reaction::Lost(SseErrorEvent::Eof),
        }
    }

    /// Decodes the bytes received so far, up to the next event.
    pub fn poll_buffered(&mut self) -> (reaction: Reaction)
        requires
            old(self).wf(),
            old(self)@.action() == Action::Read,
        ensures
            final(self).wf(),
            exists|read: SourceView<X>, poll: StreamPoll<ReqwestError>|
                {
                    &&& #[trigger] old(self)@.buffered(read, poll)
                    &&& final(self)@ == read.reacted(poll)
                    &&& reaction == read.reaction(poll)
                },
            final(self).readings() == old(self).readings(),
    {
        let poll = self.stream.poll_buffered();
        assert(old(self)@.buffered(self@, poll));
        self.react(poll)
    }

    /// Takes what the body of the response gave: a buffer, an error, or nothing,
    /// which is its end.
    pub fn receive(&mut self, received: Option<Result<Bytes, ReqwestError>>) -> (reaction: Reaction)
        requires
            old(self).wf(),
            old(self)@.body is Some,
        ensures
            final(self).wf(),
            exists|read: SourceView<X>, poll: StreamPoll<ReqwestError>|
                {
                    &&& #[trigger] old(self)@.received(received, read, poll)
                    &&& final(self)@ == read.reacted(poll)
                    &&& reaction == read.reaction(poll)
                },
            final(self).readings() == old(self).readings(),
    {
        let poll = self.stream.receive(received);
        assert(old(self)@.received(received, self@, poll));
        self.react(poll)
    }

    /// Notes that an attempt to connect has failed, or that a connection was lost
    /// after it had been open for so many nanoseconds.
    ///
    /// A connection that lasted long enough resets the attempt counter.
    pub fn connection_lasted(&mut self, lasted: Option<u128>)
        requires
            old(self).wf(),
        ensures
            final(self).wf(),
            final(self)@ == old(self)@.lost(lasted),
            final(self).readings() == old(self).readings(),
    {
        self.connected_since = None;
        if let Some(lasted) = lasted {
            if self.threshold_nanos <= lasted {
                self.connection_attempt = 0;
            }
        }
    }

    /// Notes that an attempt to connect has failed, or that a connection was lost,
    /// at the given instant.
    ///
    /// A connection that lasted long enough resets the attempt counter.
    pub fn connection_lost_at(&mut self, at: Instant)
        requires
            old(self).wf(),
        ensures
            final(self).wf(),
            final(self)@ == old(self)@.lost_at(at),
            final(self).readings() == old(self).readings(),
    {
        let lasted = match self.connected_since {
            Some(since) => Some(nanos_since(at, since)),
            None => None,
        };
        self.connection_lasted(lasted);
    }

    /// Notes that an attempt to connect has failed, or that a connection was lost,
    /// just now: at the instant that the clock shows during the call.
    ///
    /// A connection that lasted long enough resets the attempt counter.
    pub fn connection_lost(&mut self)
        requires
            old(self).wf(),
        ensures
            final(self).wf(),
            old(self)@.connected_since is None ==> final(self)@ == old(self)@,
            final(self).readings().len() == old(self).readings().len() + 1,
            final(self).readings() == old(self).readings().push(final(self).readings().last()),
            final(self)@ == old(self)@.lost_at(final(self).readings().last()),
            exists|at: Instant| final(self)@ == #[trigger] old(self)@.lost_at(at),
    {
        let at = self.clock.read();
        self.connection_lost_at(at);
    }

    /// Takes the timer for the next attempt, once a connection was noted as lost.
    /// Without a timer the stream is closed.
    pub fn go_to_sleep(&mut self, cause: SseErrorEvent, timer: Option<X::Timer>) -> (result: Result<
        SseEvent,
        Error,
    >)
        requires
            old(self).wf(),
            old(self)@.connected_since is None,
            old(self)@.connection_attempt < u32::MAX,
        ensures
            final(self).wf(),
            final(self)@ == old(self)@.backed_off(timer),
            result == match timer {
                Some(_) => Ok(SseEvent::Error(cause)),
                None => Err(Error::Timeout((old(self)@.connection_attempt + 1) as u32, cause)),
            },
            final(self).readings() == old(self).readings(),
    {
        self.connection_attempt += 1;
        match timer {
            Some(timer) => {
                self.stream.close();
                self.state = State::Sleeping(timer);
                Ok(SseEvent::Error(cause))
            },
            None => {
                self.close();
                Err(Error::Timeout(self.connection_attempt, cause))
            },
        }
    }

    /// Notes that the timer has fired.
    pub fn wake(&mut self)
        requires
            old(self).wf(),
            old(self)@.action() == Action::AwaitTimer,
        ensures
            final(self).wf(),
            final(self)@ == old(self)@.awake(),
            final(self).readings() == old(self).readings(),
    {
        self.state = State::Disconnected;
    }
}

impl Sealed for RequestBuilder {

}

/// An extension trait for requests to ergonomically create SSE streams.
pub trait RequestBuilderExt: Sealed + Sized {
    /// The request itself.
    spec fn request(self) -> RequestBuilder;

    /// Converts this request into an active [`EventSource`] with default settings.
    fn into_event_source<X: Runtime>(self, retry_config: X::Retry) -> (source: EventSource<X>)
        ensures
            source.wf(),
            source@ == BuilderView::<X>::fresh(self.request(), retry_config).built(),
    ;

    /// Converts this request into an [`EventSourceBuilder`] for further configuration.
    fn into_event_source_builder<X: Runtime>(
        self,
        retry_config: X::Retry,
    ) -> (builder: EventSourceBuilder<X>)
        ensures
            builder.wf(),
            builder@ == BuilderView::<X>::fresh(self.request(), retry_config),
    ;
}

impl RequestBuilderExt for RequestBuilder {
    open spec fn request(self) -> RequestBuilder {
        self
    }

    fn into_event_source<X: Runtime>(self, retry_config: X::Retry) -> (source: EventSource<X>) {
        EventSource::new(self, retry_config)
    }

    fn into_event_source_builder<X: Runtime>(
        self,
        retry_config: X::Retry,
    ) -> (builder: EventSourceBuilder<X>) {
        EventSourceBuilder::new(self, retry_config)
    }
}

} // verus!
