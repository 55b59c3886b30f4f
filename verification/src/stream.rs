//! Decoding a stream of byte buffers.

use std::sync::Arc;
use vstd::prelude::*;

use crate::buf::ByteSource;
use crate::decode::{SseDecoder, DEFAULT_PAYLOAD_LIMIT};
use crate::event::{PayloadTooLargeError, SseEvent};
use crate::grammar::DecoderView;
use crate::scratch::Scratch;

verus! {

/// A stream wrapper that parses SSE events from an underlying byte stream.
///
/// `T` is the byte stream and `B` the buffers that it yields. Reading from the
/// byte stream is up to the caller: [`poll_buffered`](Self::poll_buffered) says
/// when it is time for that, and [`receive`](Self::receive) takes what it gave.
pub struct SseStream<T, B> {
    inner: Option<T>,
    buf: Option<B>,
    decoder: SseDecoder,
}

/// An alias for [`Result`] with the error set to [`SseStreamError<E>`].
pub type SseStreamResult<T, E> = Result<T, SseStreamError<E>>;

/// Errors that can occur while reading from an [`SseStream`].
#[derive(Debug, Clone, PartialEq, Eq)]
pub enum SseStreamError<T> {
    /// A single field (e.g., data or Last-Event-ID) exceeded the configured byte limit.
    PayloadTooLarge(PayloadTooLargeError),
    /// An error propagated from the inner stream.
    Inner(T),
}

impl<T> From<T> for SseStreamError<T> {
    fn from(error: T) -> (wrapped: Self) {
        SseStreamError::Inner(error)
    }
}

impl<T> vstd::std_specs::convert::FromSpecImpl<T> for SseStreamError<T> {
    open spec fn obeys_from_spec() -> bool {
        true
    }

    open spec fn from_spec(error: T) -> Self {
        SseStreamError::Inner(error)
    }
}

/// What polling an [`SseStream`] comes to.
pub enum StreamPoll<E> {
    /// The stream yields an item, or has come to its end.
    Ready(Option<SseStreamResult<SseEvent, E>>),
    /// The byte stream has to be read before it can be said.
    NeedBytes,
}

impl<T, B> SseStream<T, B> {
    /// The byte stream that is attached.
    pub closed spec fn inner(&self) -> Option<T> {
        self.inner
    }

    /// The buffer that was received last.
    pub closed spec fn buf(&self) -> Option<B> {
        self.buf
    }

    /// The state of the decoder.
    pub closed spec fn decoder(&self) -> DecoderView {
        self.decoder@
    }

    /// What holds of every stream.
    pub closed spec fn wf(&self) -> bool {
        self.decoder.wf()
    }

    /// Creates a new, disconnected [`SseStream`].
    ///
    /// A disconnected stream will immediately yield [`None`] (terminated) if polled.
    /// This constructor is primarily useful when you need to store the [`SseStream`]
    /// inside a struct before the network connection is established.
    ///
    /// To make the stream active, you must attach an inner stream using
    /// [`attach()`](Self::attach).
    #[must_use]
    pub fn disconnected() -> (stream: Self)
        ensures
            stream.wf(),
            stream.inner() is None,
            stream.buf() is None,
            stream.decoder() == DecoderView::fresh(DEFAULT_PAYLOAD_LIMIT as nat, None),
            stream.decoder().limit == 524288,
    {
        Self::with_decoder(SseDecoder::new())
    }

    /// Creates a disconnected stream initialized with a custom decoder.
    ///
    /// See the [`disconnected()`](Self::disconnected) function for more information.
    #[must_use]
    pub fn with_decoder(decoder: SseDecoder) -> (stream: Self)
        requires
            decoder.wf(),
        ensures
            stream.wf(),
            stream.inner() is None,
            stream.buf() is None,
            stream.decoder() == decoder@,
    {
        SseStream { inner: None, buf: None, decoder }
    }

    /// Creates a new [`SseStream`] wrapping the provided inner stream.
    #[must_use]
    pub fn new(inner: T) -> (stream: Self)
        ensures
            stream.wf(),
            stream.inner() == Some(inner),
            stream.buf() is None,
            stream.decoder() == DecoderView::fresh(DEFAULT_PAYLOAD_LIMIT as nat, None),
            stream.decoder().limit == 524288,
    {
        let mut stream = Self::disconnected();
        stream.inner = Some(inner);
        stream
    }

    /// Consumes the stream and returns the underlying state-machine decoder.
    pub fn take_decoder(self) -> (decoder: SseDecoder)
        requires
            self.wf(),
        ensures
            decoder.wf(),
            decoder@ == DecoderView::fresh(self.decoder().limit, self.decoder().last_event_id),
            decoder.scratch() == Scratch::empty(),
    {
        let mut decoder = self.decoder;
        decoder.reconnect();
        decoder
    }

    /// Returns `true` if the stream is currently disconnected.
    #[must_use]
    pub fn is_closed(&self) -> (closed: bool)
        ensures
            closed == (self.inner() is None),
    {
        self.inner.is_none()
    }

    /// Returns the current `Last-Event-ID` parsed by the underlying decoder.
    #[must_use]
    pub fn last_event_id(&self) -> (id: Option<&Arc<str>>)
        ensures
            match id {
                Some(id) => self.decoder().last_event_id == Some((**id)@),
                None => self.decoder().last_event_id is None,
            },
    {
        self.decoder.last_event_id()
    }

    /// Gives access to the byte stream, for reading from it.
    pub fn inner_mut(&mut self) -> (inner: Option<&mut T>)
        ensures
            match inner {
                Some(inner) => {
                    &&& old(self).inner() == Some(*inner)
                    &&& final(self).inner() == Some(*final(inner))
                },
                None => old(self).inner() is None && final(self).inner() is None,
            },
            final(self).buf() == old(self).buf(),
            final(self).decoder() == old(self).decoder(),
            final(self).wf() == old(self).wf(),
    {
        self.inner.as_mut()
    }

    /// Disconnects the inner stream while retaining the underlying parser's state.
    ///
    /// This drops the active network connection but safely preserves the most
    /// recently parsed `Last-Event-ID` within the decoder. This is the standard
    /// method to temporarily pause a stream or handle a dropped connection,
    /// allowing you to later resume exactly where you left off.
    ///
    /// * To close the stream and **inject** a new ID for the next connection, use [`close_with_id()`](Self::close_with_id).
    /// * To close the stream and completely **wipe** the session state, use [`close_and_clear()`](Self::close_and_clear).
    pub fn close(&mut self)
        ensures
            final(self).inner() is None,
            final(self).buf() == old(self).buf(),
            final(self).decoder() == old(self).decoder(),
            final(self).wf() == old(self).wf(),
    {
        self.inner = None;
    }

    /// Disconnects the stream and completely purges the underlying parser's state.
    ///
    /// This drops the inner stream, clears all internal byte buffers, and
    /// permanently drops the currently tracked `Last-Event-ID`. It effectively
    /// returns the `SseStream` to the exact state it was in when initially
    /// created via [`disconnected()`](Self::disconnected) or
    /// [`with_decoder()`](Self::with_decoder).
    ///
    /// * To close the stream and **keep** the current ID, use [`close()`](Self::close).
    /// * To close the stream and **inject** a new ID, use [`close_with_id()`](Self::close_with_id).
    pub fn close_and_clear(&mut self)
        requires
            old(self).wf(),
        ensures
            final(self).wf(),
            final(self).inner() is None,
            final(self).buf() is None,
            final(self).decoder() == DecoderView::fresh(old(self).decoder().limit, None),
    {
        self.decoder.clear();
        self.buf = None;
        self.close();
    }

    /// Disconnects the inner stream and explicitly overrides the underlying
    /// decoder's `Last-Event-ID` in preparation for a future connection.
    ///
    /// This is particularly useful in async contexts where you must drop the
    /// active stream, inject a new ID, and then yield back to the runtime before
    /// establishing a new network connection. The injected ID will be available
    /// immediately via [`last_event_id()`](Self::last_event_id).
    ///
    /// * To close the stream and **keep** the current ID, use [`close()`](Self::close).
    /// * To close the stream and completely **wipe** the session state, use [`close_and_clear()`](Self::close_and_clear).
    pub fn close_with_id(&mut self, id: Option<Arc<str>>)
        requires
            old(self).wf(),
        ensures
            final(self).wf(),
            final(self).inner() is None,
            final(self).buf() == old(self).buf(),
            final(self).decoder() == DecoderView::fresh(
                old(self).decoder().limit,
                crate::text::id_text(id),
            ),
    {
        self.decoder.reconnect_with_id(id);
        self.close();
    }

    /// Attaches a new inner stream to resume processing events.
    ///
    /// This method resets the underlying parser's buffers but retains the most
    /// recently received `Last-Event-ID`. It is the standard way to recover from
    /// a dropped network connection without missing any events.
    ///
    /// If you need to manually inject a saved `Last-Event-ID` (e.g., when recovering
    /// an offline session from a database), use [`attach_with_id()`](Self::attach_with_id) instead.
    pub fn attach(&mut self, inner: T)
        requires
            old(self).wf(),
        ensures
            final(self).wf(),
            final(self).inner() == Some(inner),
            final(self).buf() is None,
            final(self).decoder() == DecoderView::fresh(
                old(self).decoder().limit,
                old(self).decoder().last_event_id,
            ),
    {
        self.decoder.reconnect();
        self.buf = None;
        self.inner = Some(inner);
    }

    /// Attaches a new inner stream to resume processing, explicitly overriding
    /// the `Last-Event-ID` in the underlying decoder.
    ///
    /// This method is primarily used when recovering an offline session where
    /// you need to initialize the stream with a saved ID right as you provide
    /// the new HTTP response stream.
    ///
    /// If you just want to resume a dropped stream using the ID that the decoder
    /// has already tracked automatically, use [`attach()`](Self::attach).
    pub fn attach_with_id(&mut self, inner: T, id: Option<Arc<str>>)
        requires
            old(self).wf(),
        ensures
            final(self).wf(),
            final(self).inner() == Some(inner),
            final(self).buf() is None,
            final(self).decoder() == DecoderView::fresh(
                old(self).decoder().limit,
                crate::text::id_text(id),
            ),
    {
        self.decoder.reconnect_with_id(id);
        self.buf = None;
        self.inner = Some(inner);
    }
}

/// The result of [`SseDecoder::next`] that a stream yields as `poll`, if it is one.
pub open spec fn decoder_result<E>(poll: StreamPoll<E>) -> Option<
    Result<Option<SseEvent>, PayloadTooLargeError>,
> {
    match poll {
        StreamPoll::NeedBytes => Some(Ok(None)),
        StreamPoll::Ready(Some(Ok(event))) => Some(Ok(Some(event))),
        StreamPoll::Ready(Some(Err(SseStreamError::PayloadTooLarge(error)))) => Some(Err(error)),
        _ => None,
    }
}

/// What decoding the buffer `buf` yields. It takes the decoder from `before` to
/// `after`, and leaves `rest` of the buffer.
pub open spec fn buffer_polled<B: ByteSource, E>(
    before: DecoderView,
    buf: Option<B>,
    after: DecoderView,
    rest: Option<B>,
    poll: StreamPoll<E>,
) -> bool {
    match buf {
        None => rest is None && after == before && poll == StreamPoll::<E>::NeedBytes,
        Some(buf) => {
            &&& rest matches Some(rest)
            &&& rest.contiguous() == buf.contiguous()
            &&& decoder_result(poll) matches Some(result)
            &&& crate::decode::decoded(
                before,
                buf.bytes(),
                buf.contiguous(),
                after,
                rest.bytes(),
                result,
            )
        },
    }
}

impl<T, B: ByteSource> SseStream<T, B> {
    /// Yields the next event that the bytes received so far complete, if they do.
    ///
    /// A disconnected stream yields nothing. Otherwise, where the bytes complete
    /// no event, the byte stream has to be read.
    pub fn poll_buffered<E>(&mut self) -> (poll: StreamPoll<E>)
        requires
            old(self).wf(),
        ensures
            final(self).wf(),
            final(self).inner() == old(self).inner(),
            old(self).inner() is None ==> *final(self) == *old(self) && poll
                == StreamPoll::<E>::Ready(None),
            old(self).inner() is Some ==> buffer_polled(
                old(self).decoder(),
                old(self).buf(),
                final(self).decoder(),
                final(self).buf(),
                poll,
            ),
    {
        if self.inner.is_none() {
            return StreamPoll::Ready(None);
        }
        let result = match &mut self.buf {
            Some(buf) => self.decoder.next(buf),
            None => {
                return StreamPoll::NeedBytes;
            },
        };
        match result {
            Ok(Some(event)) => StreamPoll::Ready(Some(Ok(event))),
            Ok(None) => StreamPoll::NeedBytes,
            Err(error) => StreamPoll::Ready(Some(Err(SseStreamError::PayloadTooLarge(error)))),
        }
    }

    /// Takes what the byte stream gave: a buffer, an error, or nothing, which is
    /// its end.
    ///
    /// An error is passed on, and the stream stays connected. At the end the
    /// stream is disconnected.
    pub fn receive<E>(&mut self, received: Option<Result<B, E>>) -> (poll: StreamPoll<E>)
        requires
            old(self).wf(),
            old(self).inner() is Some,
        ensures
            final(self).wf(),
            match received {
                Some(Ok(buf)) => {
                    &&& final(self).inner() == old(self).inner()
                    &&& buffer_polled(
                        old(self).decoder(),
                        Some(buf),
                        final(self).decoder(),
                        final(self).buf(),
                        poll,
                    )
                },
                Some(Err(error)) => {
                    &&& *final(self) == *old(self)
                    &&& poll == StreamPoll::Ready(Some(Err(SseStreamError::Inner(error))))
                },
                None => {
                    &&& final(self).inner() is None
                    &&& final(self).buf() is None
                    &&& final(self).decoder() == old(self).decoder()
                    &&& poll == StreamPoll::<E>::Ready(None)
                },
            },
    {
        match received {
            Some(Ok(buf)) => {
                self.buf = Some(buf);
                self.poll_buffered()
            },
            Some(Err(error)) => StreamPoll::Ready(Some(Err(SseStreamError::Inner(error)))),
            None => {
                self.buf = None;
                self.inner = None;
                StreamPoll::Ready(None)
            },
        }
    }
}

} // verus!
