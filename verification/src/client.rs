//! What a client reports: events, interruptions and errors.

use reqwest::header::InvalidHeaderValue;
use reqwest::{Error as ReqwestError, Response};
use vstd::prelude::*;

use crate::event::{MessageEvent, PayloadTooLargeError};

verus! {

/// Errors that can occur during the lifecycle of an
/// [`EventSource`](crate::source::EventSource) connection.
#[derive(Debug)]
pub enum Error {
    /// The server responded with a non-200 HTTP status code.
    ///
    /// The [`Response`] is attached rather than just its status, so the body —
    /// which often carries the server's own description of the failure — can
    /// still be read.
    Status(Box<Response>),
    /// The request could not be cloned (e.g., it contains a streaming body).
    UncloneableRequest,
    /// The server's response lacked the `text/event-stream` Content-Type.
    ///
    /// The [`Response`] is attached so the offending Content-Type, and the body
    /// the server actually sent, can still be inspected.
    InvalidContentType(Box<Response>),
    /// The server's response did not contain a Content-Type header.
    ///
    /// The [`Response`] is attached so the rest of the response can still be
    /// inspected.
    MissingContentType(Box<Response>),
    /// The client exhausted all retry attempts without successfully reconnecting.
    Timeout(u32, SseErrorEvent),
    /// The server sent an event payload that exceeded the configured buffer limit.
    ///
    /// By default this is never produced: an oversized event is reported as the
    /// recoverable [`SseEvent::Discarded`] instead, because the connection
    /// survives it. This variant is produced only when the stream was built with
    /// [`fail_on_oversized_event(true)`](crate::source::EventSourceBuilder::fail_on_oversized_event),
    /// for applications that consider a dropped event fatal.
    PayloadTooLarge(PayloadTooLargeError),
    /// The `Last-Event-ID` provided by the server contains bytes that cannot be
    /// safely converted into a valid HTTP header.
    InvalidLastEventId(InvalidHeaderValue),
}

impl From<PayloadTooLargeError> for Error {
    fn from(error: PayloadTooLargeError) -> (wrapped: Self) {
        Error::PayloadTooLarge(error)
    }
}

impl vstd::std_specs::convert::FromSpecImpl<PayloadTooLargeError> for Error {
    open spec fn obeys_from_spec() -> bool {
        true
    }

    open spec fn from_spec(error: PayloadTooLargeError) -> Self {
        Error::PayloadTooLarge(error)
    }
}

/// The connection state mapping to the JavaScript `EventSource` API `readyState`.
#[derive(Debug, Clone, Copy, PartialEq, Eq, Hash, Structural)]
pub enum ReadyState {
    /// The connection has not yet been established, or it was closed and the client is reconnecting.
    Connecting,
    /// The connection is open and ready to receive events.
    Open,
    /// The connection is permanently closed and will not reconnect.
    Closed,
}

/// Transient errors that cause the stream to drop and trigger an automatic reconnection.
#[derive(Debug)]
pub enum SseErrorEvent {
    /// The server gracefully closed the TCP connection (EOF) while the stream was active.
    Eof,
    /// The server responded with an HTTP status code designated as retryable (e.g., 502, 503).
    Http(u16),
    /// A network-level error occurred, such as a dropped socket, DNS failure, or read timeout.
    Network(ReqwestError),
}

impl From<ReqwestError> for SseErrorEvent {
    fn from(error: ReqwestError) -> (wrapped: Self) {
        SseErrorEvent::Network(error)
    }
}

impl vstd::std_specs::convert::FromSpecImpl<ReqwestError> for SseErrorEvent {
    open spec fn obeys_from_spec() -> bool {
        true
    }

    open spec fn from_spec(error: ReqwestError) -> Self {
        SseErrorEvent::Network(error)
    }
}

/// High-level events emitted by an [`EventSource`](crate::source::EventSource).
#[derive(Debug)]
pub enum SseEvent {
    /// Emitted when the underlying HTTP connection is successfully established.
    Open,
    /// A parsed message event from the server.
    Message(MessageEvent),
    /// Emitted when the connection drops but the client is actively attempting to reconnect.
    ///
    /// This gives the application a chance to log the interruption or update UI state
    /// while the exponential backoff handles the recovery in the background.
    ///
    /// This is strictly about the *connection*. A message that arrives intact but cannot
    /// be kept is reported as [`Discarded`](Self::Discarded) instead.
    Error(SseErrorEvent),
    /// Emitted when an event exceeded the payload limit and was thrown away.
    ///
    /// The connection is **still open** and still healthy: the decoder enforced the
    /// limit you configured, dropped the offending event rather than buffering past
    /// that limit, and resynchronized at the next event boundary. Exactly one event
    /// was lost, and the events on either side of it are unaffected. Ignoring this
    /// variant is a valid choice; the stream simply continues.
    ///
    /// **Do not reconnect in response to this.** An oversized event never advances the
    /// `Last-Event-ID`, because the decoder rolls back the discarded event's `id:` to
    /// the last one it actually delivered. A server that honours `Last-Event-ID` will
    /// therefore replay from *before* the oversized event and send it again. Raise the
    /// limit instead if you need the event.
    Discarded(PayloadTooLargeError),
}

impl SseEvent {
    /// Consumes the event and returns the underlying [`MessageEvent`] if this is a standard message.
    pub fn into_message(self) -> (message: Option<MessageEvent>)
        ensures
            message == match self {
                SseEvent::Message(message) => Some(message),
                _ => None,
            },
    {
        match self {
            SseEvent::Message(message) => Some(message),
            SseEvent::Open | SseEvent::Error(_) | SseEvent::Discarded(_) => None,
        }
    }

    /// Returns a reference to the underlying [`MessageEvent`] if this is a standard message.
    pub fn as_message(&self) -> (message: Option<&MessageEvent>)
        ensures
            message == match self {
                SseEvent::Message(message) => Some(message),
                _ => None,
            },
    {
        match self {
            SseEvent::Message(message) => Some(message),
            SseEvent::Open | SseEvent::Error(_) | SseEvent::Discarded(_) => None,
        }
    }

    /// Returns a mutable reference to the underlying [`MessageEvent`] if this is a standard message.
    pub fn as_message_mut(&mut self) -> (message: Option<&mut MessageEvent>)
        ensures
            match message {
                Some(message) => {
                    &&& *old(self) == SseEvent::Message(*message)
                    &&& *final(self) == SseEvent::Message(*final(message))
                },
                None => !(*old(self) is Message) && *final(self) == *old(self),
            },
    {
        match self {
            SseEvent::Message(message) => Some(message),
            SseEvent::Open | SseEvent::Error(_) | SseEvent::Discarded(_) => None,
        }
    }
}

impl From<MessageEvent> for SseEvent {
    fn from(message: MessageEvent) -> (event: Self) {
        SseEvent::Message(message)
    }
}

impl vstd::std_specs::convert::FromSpecImpl<MessageEvent> for SseEvent {
    open spec fn obeys_from_spec() -> bool {
        true
    }

    open spec fn from_spec(message: MessageEvent) -> Self {
        SseEvent::Message(message)
    }
}

impl From<SseErrorEvent> for SseEvent {
    fn from(error: SseErrorEvent) -> (event: Self) {
        SseEvent::Error(error)
    }
}

impl vstd::std_specs::convert::FromSpecImpl<SseErrorEvent> for SseEvent {
    open spec fn obeys_from_spec() -> bool {
        true
    }

    open spec fn from_spec(error: SseErrorEvent) -> Self {
        SseEvent::Error(error)
    }
}

impl From<PayloadTooLargeError> for SseEvent {
    fn from(error: PayloadTooLargeError) -> (event: Self) {
        SseEvent::Discarded(error)
    }
}

impl vstd::std_specs::convert::FromSpecImpl<PayloadTooLargeError> for SseEvent {
    open spec fn obeys_from_spec() -> bool {
        true
    }

    open spec fn from_spec(error: PayloadTooLargeError) -> Self {
        SseEvent::Discarded(error)
    }
}

/// Error indicating that an [`SseEvent`] could not be converted into a [`MessageEvent`].
#[derive(Debug)]
pub struct FromMessageEventError(pub SseEvent);

impl TryFrom<SseEvent> for MessageEvent {
    type Error = FromMessageEventError;

    fn try_from(event: SseEvent) -> (result: Result<Self, FromMessageEventError>) {
        match event {
            SseEvent::Message(message) => Ok(message),
            event => Err(FromMessageEventError(event)),
        }
    }
}

impl vstd::std_specs::convert::TryFromSpecImpl<SseEvent> for MessageEvent {
    open spec fn obeys_try_from_spec() -> bool {
        true
    }

    open spec fn try_from_spec(event: SseEvent) -> Result<Self, FromMessageEventError> {
        match event {
            SseEvent::Message(message) => Ok(message),
            event => Err(FromMessageEventError(event)),
        }
    }
}

/// A message survives the way into an event and back.
pub proof fn law_message_event(message: MessageEvent)
    ensures
        <MessageEvent as vstd::std_specs::convert::TryFromSpec<SseEvent>>::try_from_spec(
            <SseEvent as vstd::std_specs::convert::FromSpec<MessageEvent>>::from_spec(message),
        ) == Ok::<MessageEvent, FromMessageEventError>(message),
{
}

/// An event or an error is made of what it is made from, and of nothing else.
pub proof fn law_conversions(
    message: MessageEvent,
    cause: SseErrorEvent,
    network: ReqwestError,
    oversized: PayloadTooLargeError,
)
    ensures
        <SseEvent as vstd::std_specs::convert::FromSpec<MessageEvent>>::from_spec(message)
            == SseEvent::Message(message),
        <SseEvent as vstd::std_specs::convert::FromSpec<SseErrorEvent>>::from_spec(cause)
            == SseEvent::Error(cause),
        <SseEvent as vstd::std_specs::convert::FromSpec<PayloadTooLargeError>>::from_spec(oversized)
            == SseEvent::Discarded(oversized),
        <SseErrorEvent as vstd::std_specs::convert::FromSpec<ReqwestError>>::from_spec(network)
            == SseErrorEvent::Network(network),
        <Error as vstd::std_specs::convert::FromSpec<PayloadTooLargeError>>::from_spec(oversized)
            == Error::PayloadTooLarge(oversized),
{
}

/// Only a message can be taken out of an event. Any other event is handed back as
/// it is.
pub proof fn law_only_messages(event: SseEvent)
    ensures
        ({
            let result = <MessageEvent as vstd::std_specs::convert::TryFromSpec<
                SseEvent,
            >>::try_from_spec(event);
            &&& result is Ok <==> event is Message
            &&& result matches Ok(message) ==> event == SseEvent::Message(message)
            &&& result matches Err(error) ==> error.0 == event
        }),
{
}

} // verus!
