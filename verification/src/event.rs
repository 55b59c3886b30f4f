//! The events that a decoder yields.

use std::borrow::Cow;
use std::sync::Arc;
use vstd::prelude::*;

use crate::text::clone_id;

verus! {

/// Represents a single Server-Sent Event message.
#[derive(Debug, PartialEq, Eq)]
pub struct MessageEvent {
    /// The event name (defaults to `"message"`).
    pub event: Cow<'static, str>,
    /// The payload data.
    pub data: String,
    /// The `Last-Event-ID` sent by the server, if any.
    pub last_event_id: Option<Arc<str>>,
}

/// What a [`MessageEvent`] says, as text.
#[verifier::ext_equal]
pub struct MessageView {
    pub event: Seq<char>,
    pub data: Seq<char>,
    pub last_event_id: Option<Seq<char>>,
}

impl View for MessageEvent {
    type V = MessageView;

    open spec fn view(&self) -> MessageView {
        MessageView {
            event: self.event@,
            data: self.data@,
            last_event_id: crate::text::id_text(self.last_event_id),
        }
    }
}

/// The name of a message that the server did not name, or the name it gave.
pub open spec fn event_name(event: Option<Seq<char>>) -> Seq<char> {
    match event {
        Some(event) => event,
        None => "message"@,
    }
}

impl MessageEvent {
    /// Assembles a message. Without a name it is called `"message"`, for which
    /// nothing is allocated.
    pub fn new(event: Option<String>, data: String, last_event_id: Option<Arc<str>>) -> (message:
        Self)
        ensures
            message@ == (MessageView {
                event: event_name(
                    match event {
                        Some(event) => Some(event@),
                        None => None,
                    },
                ),
                data: data@,
                last_event_id: crate::text::id_text(last_event_id),
            }),
            message.last_event_id == last_event_id,
            message.event is Borrowed <==> event is None,
    {
        let event = match event {
            Some(event) => Cow::Owned(event),
            None => Cow::Borrowed("message"),
        };
        MessageEvent { event, data, last_event_id }
    }
}

impl Clone for MessageEvent {
    fn clone(&self) -> (copy: Self)
        ensures
            copy@ == self@,
            copy.event is Borrowed <==> self.event is Borrowed,
    {
        let event = match &self.event {
            Cow::Owned(event) => Cow::Owned(event.clone()),
            Cow::Borrowed(event) => Cow::Borrowed(*event),
        };
        MessageEvent {
            event,
            data: self.data.clone(),
            last_event_id: clone_id(&self.last_event_id),
        }
    }
}

/// Commands and payloads yielded by the SSE stream.
#[derive(Debug, PartialEq, Eq)]
pub enum SseEvent {
    /// A standard data message.
    Message(MessageEvent),
    /// A server request to change the client's reconnect time (in milliseconds).
    Retry(u32),
}

/// What an [`SseEvent`] says.
#[verifier::ext_equal]
pub enum SseEventView {
    Message(MessageView),
    Retry(u32),
}

impl View for SseEvent {
    type V = SseEventView;

    open spec fn view(&self) -> SseEventView {
        match self {
            SseEvent::Message(message) => SseEventView::Message(message@),
            SseEvent::Retry(ms) => SseEventView::Retry(*ms),
        }
    }
}

impl Clone for SseEvent {
    fn clone(&self) -> (copy: Self)
        ensures
            copy@ == self@,
            self matches SseEvent::Message(message) ==> (copy->Message_0.event is Borrowed
                <==> message.event is Borrowed),
    {
        match self {
            SseEvent::Message(message) => SseEvent::Message(message.clone()),
            SseEvent::Retry(ms) => SseEvent::Retry(*ms),
        }
    }
}

/// Error indicating that a parsed field exceeded the maximum allowed buffer size.
#[derive(Debug, Clone, Copy, PartialEq, Eq, Hash)]
pub struct PayloadTooLargeError;

impl Default for PayloadTooLargeError {
    fn default() -> (error: Self)
        ensures
            error == PayloadTooLargeError,
    {
        PayloadTooLargeError
    }
}

/// A message without a name is called `message`, and any other by its name.
pub proof fn law_event_name(name: Seq<char>)
    ensures
        event_name(None) == "message"@,
        event_name(Some(name)) == name,
{
}

} // verus!
