//! The decoder.

use std::sync::Arc;
use vstd::prelude::*;
use vstd::string::StringExecFns;

use crate::buf::ByteSource;
use crate::debug::{write_buf, write_decimal, write_field, write_id, write_number};
use crate::event::{MessageEvent, PayloadTooLargeError, SseEvent};
use crate::field::{field_named, FieldMode};
use crate::grammar::{
    DecoderView, ModeView, Output, ValueMode, ValueView, COLON, CR, LF, NUL, SPACE,
};
use crate::scratch::Scratch;
use crate::text::{clone_id, decode_lossy, share_text};

verus! {

/// The payload size limit of a decoder that was not given one: 512 KiB.
pub const DEFAULT_PAYLOAD_LIMIT: usize = 524288;

#[derive(Debug, Clone, Copy)]
enum Mode {
    Bom { bytes_read: u8 },
    Field(FieldMode),
    Value(ValueMode),
    Ignore,
    PostCr,
    PostColon(ValueMode),
}

/// The core state-machine parser for SSE.
///
/// This decoder does not perform any I/O. It consumes bytes from a given buffer
/// and yields parsed [`SseEvent`]s.
pub struct SseDecoder {
    mode: Mode,
    discarding: bool,
    last_event_id: Option<Arc<str>>,
    staged_last_event_id: Option<Arc<str>>,
    last_event_id_buf: Vec<u8>,
    event_buf: Vec<u8>,
    data_buf: Vec<u8>,
    retry_buf: Option<u32>,
    max_payload_size: usize,
}

impl View for SseDecoder {
    type V = DecoderView;

    closed spec fn view(&self) -> DecoderView {
        DecoderView {
            mode: self.mode_view(),
            discarding: self.discarding,
            last_event_id: crate::text::id_text(self.last_event_id),
            staged_id: crate::text::id_text(self.staged_last_event_id),
            event: self.event_buf@,
            data: self.data_buf@,
            limit: self.max_payload_size as nat,
        }
    }
}

/// The mode behind the byte that ended a line.
fn mode_after_eol(b: u8) -> (mode: Mode)
    ensures
        mode matches Mode::PostCr ==> crate::grammar::after_eol(b) == ModeView::PostCr,
        mode matches Mode::Field(field) ==> field.wf() && crate::grammar::after_eol(b)
            == ModeView::Field(field@),
        mode is PostCr || mode is Field,
{
    if b == CR {
        Mode::PostCr
    } else {
        Mode::Field(FieldMode::new())
    }
}

/// Whether a mode, behind a value, cannot lead to another value without a byte
/// in between.
spec fn between_values(mode: ModeView) -> bool {
    mode == crate::grammar::line_start() || mode is PostCr || mode is Ignore
}

/// How many times a mode can change before a byte is read.
spec fn rank(mode: ModeView) -> nat {
    match mode {
        ModeView::Bom(_) | ModeView::PostCr | ModeView::PostColon(_) => 2,
        ModeView::Field(_) => 1,
        ModeView::Value(_) | ModeView::Ignore => 0,
    }
}

/// The decoder went from `before` to `after` by reading the first `n` bytes of
/// `chunk`, and there was nothing to hand out.
spec fn read_on(before: DecoderView, after: DecoderView, chunk: Seq<u8>, n: int) -> bool {
    let found = before.scan(chunk.take(n), 0);
    &&& 0 <= n <= chunk.len()
    &&& found.output is None
    &&& after == found.state || n < chunk.len() && after == found.state.settle(chunk[n])
    &&& n > 0 || rank(after.mode) < rank(before.mode)
    &&& n < chunk.len() && found.held > 0 ==> between_values(after.mode)
    &&& n == 0 && between_values(before.mode) ==> between_values(after.mode)
}

/// What a call of [`SseDecoder::next`] hands out.
pub open spec fn handed_out(
    result: Result<Option<SseEvent>, PayloadTooLargeError>,
) -> Seq<Output> {
    match result {
        Ok(Some(event)) => seq![Output::Event(event@)],
        Ok(None) => Seq::empty(),
        Err(_) => seq![Output::TooLarge],
    }
}

/// How a message holds its name, if `s` is the state that it was dispatched in.
/// For a message that the server did not name, the name is not allocated. No
/// name is empty.
pub open spec fn name_held(s: DecoderView, event: SseEvent) -> bool {
    event matches SseEvent::Message(message) ==> {
        &&& message.event is Borrowed <==> s.event.len() == 0
        &&& message.event@.len() > 0
    }
}

/// What a call of [`SseDecoder::next`] does. It takes the decoder from `before`
/// to `after`, and leaves `rest` of the bytes in the buffer, which lie in one
/// piece or not.
pub open spec fn decoded(
    before: DecoderView,
    bytes: Seq<u8>,
    one_piece: bool,
    after: DecoderView,
    rest: Seq<u8>,
    result: Result<Option<SseEvent>, PayloadTooLargeError>,
) -> bool {
    let read = bytes.len() - rest.len();
    let found = before.scan(bytes, 0);
    &&& 0 <= read <= bytes.len()
    &&& rest == bytes.skip(read)
    &&& after == found.state
    &&& match result {
        Ok(None) => found.output is None && rest.len() == 0,
        Ok(Some(event)) => {
            &&& found.output == Some(Output::Event(event@))
            &&& read == found.consumed
            &&& name_held(before.scan(bytes.take(read - 1), 0).state, event)
        },
        Err(_) => {
            &&& found.output == Some(Output::TooLarge)
            &&& found.consumed - found.held <= read <= found.consumed
            &&& one_piece ==> read == found.consumed - found.held
        },
    }
    // What is still to come is what the rest of the bytes yields.
    &&& before.feed(bytes) == (after.feed(rest).0, handed_out(result) + after.feed(rest).1)
}

/// What one look at `chunk` did to a decoder: it read some of it, handed out an
/// event, or refused a value.
spec fn looked_at(
    before: DecoderView,
    after: DecoderView,
    chunk: Seq<u8>,
    result: Result<(usize, Option<SseEvent>), PayloadTooLargeError>,
) -> bool {
    let found = before.scan(chunk, 0);
    match result {
        Ok((n, None)) => read_on(before, after, chunk, n as int),
        Ok((n, Some(event))) => {
            &&& found.output == Some(Output::Event(event@))
            &&& found.consumed == n
            &&& found.state == after
            &&& name_held(before.scan(chunk.take(n - 1), 0).state, event)
        },
        Err(_) => {
            &&& found.output == Some(Output::TooLarge)
            &&& found.held == found.consumed
            &&& found.state == after
            &&& before.mode is Value
        },
    }
}

/// The bytes of `chunk` that one look at it has got to. What comes behind the
/// first thing that is handed out makes no difference.
spec fn seen(
    chunk: Seq<u8>,
    result: Result<(usize, Option<SseEvent>), PayloadTooLargeError>,
) -> Seq<u8> {
    match result {
        Ok((n, None)) => chunk.take(n as int),
        _ => chunk,
    }
}

impl SseDecoder {
    spec fn mode_view(&self) -> ModeView {
        match self.mode {
            Mode::Bom { bytes_read } => ModeView::Bom(bytes_read as nat),
            Mode::Field(field) => ModeView::Field(field@),
            Mode::Value(ValueMode::Data) => ModeView::Value(ValueView::Data),
            Mode::Value(ValueMode::Event) => ModeView::Value(ValueView::Event),
            Mode::Value(ValueMode::Retry) => ModeView::Value(ValueView::Retry(self.retry_buf)),
            Mode::Value(ValueMode::Id) => ModeView::Value(
                ValueView::Id(self.last_event_id_buf@),
            ),
            Mode::Ignore => ModeView::Ignore,
            Mode::PostCr => ModeView::PostCr,
            Mode::PostColon(field) => ModeView::PostColon(field),
        }
    }

    /// The bytes of the ID that is being read, or that was read last.
    pub closed spec fn id_buf(&self) -> Seq<u8> {
        self.last_event_id_buf@
    }

    /// The reconnection time that is being read, or that was read last.
    pub closed spec fn retry_buf(&self) -> Option<u32> {
        self.retry_buf
    }

    /// Both of these buffers, which the view only shows while they are being filled.
    pub open spec fn scratch(&self) -> Scratch {
        Scratch { id: self.id_buf(), retry: self.retry_buf() }
    }

    /// The parts of the decoder that its view does not show are in order.
    pub closed spec fn tidy(&self) -> bool {
        match self.mode {
            Mode::Field(field) => field.wf(),
            Mode::PostColon(ValueMode::Retry) => self.retry_buf is None,
            Mode::PostColon(ValueMode::Id) => self.last_event_id_buf@.len() == 0,
            _ => true,
        }
    }

    /// What holds of every decoder.
    pub open spec fn wf(&self) -> bool {
        self.tidy() && self@.wf()
    }

    /// Creates a new decoder with the default payload size limit of 512KiB.
    #[must_use]
    pub fn new() -> (decoder: Self)
        ensures
            decoder.wf(),
            decoder@ == DecoderView::fresh(DEFAULT_PAYLOAD_LIMIT as nat, None),
            decoder@.limit == 524288,
            decoder.scratch() == Scratch::empty(),
    {
        Self::with_limit(DEFAULT_PAYLOAD_LIMIT)
    }

    /// Creates a new decoder with a custom maximum payload size limit.
    ///
    /// This is useful in memory-constrained environments or when connecting to
    /// untrusted servers to prevent memory exhaustion from infinitely long lines.
    #[must_use]
    pub fn with_limit(max_payload_size: usize) -> (decoder: Self)
        requires
            max_payload_size > 0,
        ensures
            decoder.wf(),
            decoder@ == DecoderView::fresh(max_payload_size as nat, None),
            decoder.scratch() == Scratch::empty(),
    {
        SseDecoder {
            mode: Mode::Bom { bytes_read: 0 },
            discarding: false,
            last_event_id: None,
            staged_last_event_id: None,
            last_event_id_buf: Vec::new(),
            event_buf: Vec::new(),
            data_buf: Vec::new(),
            retry_buf: None,
            max_payload_size,
        }
    }

    /// Returns the current `Last-Event-ID` known to the decoder, if any.
    #[must_use]
    pub fn last_event_id(&self) -> (id: Option<&Arc<str>>)
        ensures
            match id {
                Some(id) => self@.last_event_id == Some((**id)@),
                None => self@.last_event_id is None,
            },
    {
        self.last_event_id.as_ref()
    }

    /// Resets the decoder state for a new connection, explicitly overriding
    /// the currently tracked `Last-Event-ID`.
    ///
    /// This method clears all internal byte buffers and resets the parser, but
    /// instead of keeping the previous ID (like [`reconnect()`](Self::reconnect))
    /// or dropping it (like [`clear()`](Self::clear)), it injects the provided ID.
    ///
    /// It is typically used to prime the state machine with a known ID
    /// (e.g., from a local database) right before feeding the decoder bytes
    /// from a newly established connection.
    pub fn reconnect_with_id(&mut self, id: Option<Arc<str>>)
        requires
            old(self).wf(),
        ensures
            final(self).wf(),
            final(self)@ == DecoderView::fresh(old(self)@.limit, crate::text::id_text(id)),
            final(self).scratch() == Scratch::empty(),
    {
        self.last_event_id = id;
        self.reset();
    }

    /// Resets the decoder state completely, dropping the current `Last-Event-ID`.
    ///
    /// This clears all internal byte buffers and purges the parser's state,
    /// effectively starting fresh. Because it drops the `Last-Event-ID`, the
    /// next connection will start from the present moment rather than resuming.
    ///
    /// * To reset the state but **keep** the current ID, use [`reconnect()`](Self::reconnect).
    /// * To reset the state and **inject** a specific ID, use [`reconnect_with_id()`](Self::reconnect_with_id).
    pub fn clear(&mut self)
        requires
            old(self).wf(),
        ensures
            final(self).wf(),
            final(self)@ == DecoderView::fresh(old(self)@.limit, None),
            final(self).scratch() == Scratch::empty(),
    {
        self.reconnect_with_id(None);
    }

    /// Resets the buffer state for a new connection while retaining the `Last-Event-ID`.
    ///
    /// This clears the internal byte buffers to prepare for a fresh stream of data,
    /// but safely preserves the most recently parsed `Last-Event-ID`. This ensures
    /// that when you reconnect to the server, you can resume exactly where you left off.
    ///
    /// * To reset the state and **drop** the ID, use [`clear()`](Self::clear).
    /// * To reset the state and **override** the ID, use [`reconnect_with_id()`](Self::reconnect_with_id).
    pub fn reconnect(&mut self)
        requires
            old(self).wf(),
        ensures
            final(self).wf(),
            final(self)@ == DecoderView::fresh(old(self)@.limit, old(self)@.last_event_id),
            final(self).scratch() == Scratch::empty(),
    {
        self.reset();
    }

    /// Starts over with the ID that is in place.
    fn reset(&mut self)
        requires
            old(self).max_payload_size > 0,
        ensures
            final(self).wf(),
            final(self)@ == DecoderView::fresh(
                old(self).max_payload_size as nat,
                crate::text::id_text(old(self).last_event_id),
            ),
            final(self).scratch() == Scratch::empty(),
    {
        self.mode = Mode::Bom { bytes_read: 0 };
        self.discarding = false;
        self.staged_last_event_id = clone_id(&self.last_event_id);
        self.last_event_id_buf.clear();
        self.event_buf.clear();
        self.data_buf.clear();
        self.retry_buf = None;
    }

    /// Drops the current event: nothing of it is kept, and what is still to come
    /// of it will be ignored.
    fn discard(&mut self)
        requires
            old(self).wf(),
        ensures
            final(self).wf(),
            final(self)@ == old(self)@.oversized(),
            final(self).scratch() == old(self).scratch(),
    {
        self.mode = Mode::Ignore;
        self.discarding = true;
        self.staged_last_event_id = clone_id(&self.last_event_id);
        self.event_buf.clear();
        self.data_buf.clear();
    }

    /// Ends the current event at a blank line, and returns its message if it has
    /// a payload.
    fn dispatch(&mut self, b: u8) -> (event: Option<SseEvent>)
        requires
            old(self).wf(),
            !old(self)@.discarding,
            !(old(self)@.mode is Value),
        ensures
            final(self).wf(),
            final(self)@ == old(self)@.dispatch(b).0,
            match event {
                Some(event) => old(self)@.dispatch(b).1 == Some(event@),
                None => old(self)@.dispatch(b).1 is None,
            },
            event matches Some(event) ==> name_held(old(self)@, event),
            final(self).id_buf() == old(self).id_buf(),
            final(self).retry_buf() == old(self).retry_buf(),
    {
        proof {
            reveal_strlit("message");
        }
        self.last_event_id = clone_id(&self.staged_last_event_id);
        self.mode = mode_after_eol(b);
        if self.data_buf.pop().is_none() {
            self.event_buf.clear();
            return None;
        }
        let data = decode_lossy(&self.data_buf);
        self.data_buf.clear();
        let name = if self.event_buf.is_empty() {
            None
        } else {
            Some(decode_lossy(&self.event_buf))
        };
        self.event_buf.clear();
        Some(SseEvent::Message(MessageEvent::new(name, data, clone_id(&self.last_event_id))))
    }

    /// Looks at the start of the stream.
    fn look_at_bom(&mut self, chunk: &[u8], bytes_read: u8) -> (result: Result<
        (usize, Option<SseEvent>),
        PayloadTooLargeError,
    >)
        requires
            old(self).wf(),
            old(self)@.mode == ModeView::Bom(bytes_read as nat),
            chunk@.len() > 0,
        ensures
            final(self).wf(),
            looked_at(old(self)@, final(self)@, chunk@, result),
            final(self).scratch() == old(self).scratch().scanned(
                old(self)@,
                seen(chunk@, result),
            ),
    {
        let b0: u8 = chunk[0];
        let expected: u8 = match bytes_read {
            0 => 0xef,
            1 => 0xbb,
            _ => 0xbf,
        };
        proof {
            assert(chunk@.take(0).len() == 0);
            crate::scanning::lemma_scan_next(old(self)@, chunk@, 0, 0);
            crate::scanning::lemma_scan_byte(old(self)@, b0, 0);
            old(self).scratch().lemma_scanned_next(old(self)@, chunk@, 0);
        }
        if b0 != expected {
            self.mode = if bytes_read == 0 {
                Mode::Field(FieldMode::new())
            } else {
                Mode::Ignore
            };
            return Ok((0, None));
        }
        self.mode = if bytes_read < 2 {
            Mode::Bom { bytes_read: bytes_read + 1 }
        } else {
            Mode::Field(FieldMode::new())
        };
        Ok((1, None))
    }

    /// Looks at what follows a carriage return.
    fn look_behind_cr(&mut self, chunk: &[u8]) -> (result: Result<
        (usize, Option<SseEvent>),
        PayloadTooLargeError,
    >)
        requires
            old(self).wf(),
            old(self)@.mode is PostCr,
            chunk@.len() > 0,
        ensures
            final(self).wf(),
            looked_at(old(self)@, final(self)@, chunk@, result),
            final(self).scratch() == old(self).scratch().scanned(
                old(self)@,
                seen(chunk@, result),
            ),
    {
        proof {
            assert(chunk@.take(0).len() == 0);
            crate::scanning::lemma_scan_next(old(self)@, chunk@, 0, 0);
            crate::scanning::lemma_scan_byte(old(self)@, chunk@[0], 0);
            old(self).scratch().lemma_scanned_next(old(self)@, chunk@, 0);
        }
        self.mode = Mode::Field(FieldMode::new());
        if chunk[0] == LF {
            Ok((1, None))
        } else {
            Ok((0, None))
        }
    }

    /// Looks at what follows the colon of a known field.
    fn look_behind_colon(&mut self, chunk: &[u8], field: ValueMode) -> (result: Result<
        (usize, Option<SseEvent>),
        PayloadTooLargeError,
    >)
        requires
            old(self).wf(),
            old(self)@.mode == ModeView::PostColon(field),
            chunk@.len() > 0,
        ensures
            final(self).wf(),
            looked_at(old(self)@, final(self)@, chunk@, result),
            final(self).scratch() == old(self).scratch().scanned(
                old(self)@,
                seen(chunk@, result),
            ),
    {
        proof {
            assert(chunk@.take(0).len() == 0);
            crate::scanning::lemma_scan_next(old(self)@, chunk@, 0, 0);
            crate::scanning::lemma_scan_byte(old(self)@, chunk@[0], 0);
            old(self).scratch().lemma_scanned_next(old(self)@, chunk@, 0);
            assert(old(self).last_event_id_buf@ =~= Seq::<u8>::empty() || !(field is Id));
        }
        self.mode = Mode::Value(field);
        if chunk[0] == SPACE {
            Ok((1, None))
        } else {
            Ok((0, None))
        }
    }

    /// Looks at a part of a line that has no effect.
    fn look_at_ignored(&mut self, chunk: &[u8]) -> (result: Result<
        (usize, Option<SseEvent>),
        PayloadTooLargeError,
    >)
        requires
            old(self).wf(),
            old(self)@.mode is Ignore,
            chunk@.len() > 0,
        ensures
            final(self).wf(),
            looked_at(old(self)@, final(self)@, chunk@, result),
            final(self).scratch() == old(self).scratch().scanned(
                old(self)@,
                seen(chunk@, result),
            ),
    {
        let end = find_newline(chunk);
        proof {
            let before = old(self)@;
            assert forall|i: int| 0 <= i < chunk@.take(end as int).len() implies !crate::grammar::is_eol(
                #[trigger] chunk@.take(end as int)[i],
            ) by {
                assert(chunk@.take(end as int)[i] == chunk@[i]);
            }
            crate::scanning::lemma_scan_ignored(before, chunk@.take(end as int), 0);
            old(self).scratch().lemma_scanned_aside(before, chunk@.take(end as int));
            if end < chunk@.len() {
                old(self).scratch().lemma_scanned_next(before, chunk@, end as int);
                crate::scanning::lemma_scan_next(before, chunk@, end as int, 0);
                crate::scanning::lemma_scan_byte(before, chunk@[end as int], before.scan(chunk@.take(end as int), 0).held);
            }
        }
        if end == chunk.len() {
            return Ok((end, None));
        }
        self.mode = mode_after_eol(chunk[end]);
        Ok((end + 1, None))
    }

    /// Looks at a field's name.
    fn look_at_field(&mut self, chunk: &[u8], field: FieldMode) -> (result: Result<
        (usize, Option<SseEvent>),
        PayloadTooLargeError,
    >)
        requires
            old(self).wf(),
            old(self)@.mode == ModeView::Field(field@),
            field.wf(),
            chunk@.len() > 0,
        ensures
            final(self).wf(),
            looked_at(old(self)@, final(self)@, chunk@, result),
            final(self).scratch() == old(self).scratch().scanned(
                old(self)@,
                seen(chunk@, result),
            ),
    {
        let ghost before = self@;
        let ghost name = field@;
        let mut field = field;
        let end = match memchr::memchr3(COLON, CR, LF, chunk) {
            Some(end) => end,
            None => chunk.len(),
        };
        let part = vstd::slice::slice_subrange(chunk, 0, end);
        proof {
            assert(part@ == chunk@.take(end as int));
            crate::scanning::lemma_scan_name(before, name, part@, 0);
            old(self).scratch().lemma_scanned_aside(before, part@);
            assert(end == 0 ==> name + part@ == name);
        }
        if !field.try_extend(part) {
            self.mode = Mode::Ignore;
            return Ok((end, None));
        }
        if end == chunk.len() {
            self.mode = Mode::Field(field);
            return Ok((end, None));
        }
        let b0: u8 = chunk[end];
        let known = if self.discarding {
            None
        } else {
            field_named(field.as_slice())
        };
        let ghost named = before.at(ModeView::Field(field@));
        proof {
            crate::scanning::lemma_scan_next(before, chunk@, end as int, 0);
            crate::scanning::lemma_scan_byte(named, b0, 0);
            old(self).scratch().lemma_scanned_next(before, chunk@, end as int);
        }
        match known {
            Some(ValueMode::Event) => {
                self.event_buf.clear();
            },
            Some(ValueMode::Retry) => {
                self.retry_buf = None;
            },
            Some(ValueMode::Id) => {
                self.last_event_id_buf.clear();
            },
            _ => {},
        }
        if b0 == COLON {
            self.mode = match known {
                Some(known) => Mode::PostColon(known),
                None => Mode::Ignore,
            };
            return Ok((end + 1, None));
        }
        if field.as_slice().is_empty() {
            if self.discarding {
                self.discarding = false;
                self.mode = mode_after_eol(b0);
                return Ok((end + 1, None));
            }
            self.mode = Mode::Field(field);
            let event = self.dispatch(b0);
            proof {
                if event is Some {
                    crate::scanning::lemma_scan_found(before, chunk@, end + 1, 0);
                    lemma_scanned_found(old(self).scratch(), before, chunk@, end + 1);
                }
            }
            return Ok((end + 1, event));
        }
        match known {
            Some(ValueMode::Data) => {
                // An empty value, which the end of the line ends.
                self.mode = Mode::Value(ValueMode::Data);
                Ok((end, None))
            },
            Some(ValueMode::Id) => {
                // An empty value, which takes the ID back.
                self.staged_last_event_id = None;
                self.mode = mode_after_eol(b0);
                Ok((end + 1, None))
            },
            _ => {
                self.mode = mode_after_eol(b0);
                Ok((end + 1, None))
            },
        }
    }

    /// Looks at a reconnection time.
    fn look_at_retry(&mut self, chunk: &[u8]) -> (result: Result<
        (usize, Option<SseEvent>),
        PayloadTooLargeError,
    >)
        requires
            old(self).wf(),
            old(self).mode == Mode::Value(ValueMode::Retry),
            chunk@.len() > 0,
        ensures
            final(self).wf(),
            looked_at(old(self)@, final(self)@, chunk@, result),
            final(self).scratch() == old(self).scratch().scanned(
                old(self)@,
                seen(chunk@, result),
            ),
    {
        let ghost before = self@;
        assert(chunk@.take(0).len() == 0);
        let mut i: usize = 0;
        while i < chunk.len()
            invariant
                before == old(self)@,
                self.wf(),
                self.mode == Mode::Value(ValueMode::Retry),
                i <= chunk@.len(),
                before.scan(chunk@.take(i as int), 0).output is None,
                before.scan(chunk@.take(i as int), 0).state == self@,
                self.scratch() == old(self).scratch().scanned(before, chunk@.take(i as int)),
            decreases chunk@.len() - i,
        {
            let b: u8 = chunk[i];
            let ghost here = self@;
            proof {
                crate::scanning::lemma_scan_next(before, chunk@, i as int, 0);
                crate::scanning::lemma_scan_byte(here, b, before.scan(chunk@.take(i as int), 0).held);
                old(self).scratch().lemma_scanned_next(before, chunk@, i as int);
            }
            i = i + 1;
            if b == CR || b == LF {
                self.mode = mode_after_eol(b);
                return match self.retry_buf {
                    Some(ms) => {
                        proof {
                            crate::scanning::lemma_scan_found(before, chunk@, i as int, 0);
                            lemma_scanned_found(old(self).scratch(), before, chunk@, i as int);
                        }
                        Ok((i, Some(SseEvent::Retry(ms))))
                    },
                    None => Ok((i, None)),
                };
            }
            match append_retry_digit(self.retry_buf, b) {
                Some(ms) => {
                    self.retry_buf = Some(ms);
                },
                None => {
                    self.mode = Mode::Ignore;
                    return Ok((i, None));
                },
            }
        }
        Ok((i, None))
    }

    /// Looks at a value of any other field.
    fn look_at_value(&mut self, chunk: &[u8], field: ValueMode) -> (result: Result<
        (usize, Option<SseEvent>),
        PayloadTooLargeError,
    >)
        requires
            old(self).wf(),
            old(self).mode == Mode::Value(field),
            !(field is Retry),
            chunk@.len() > 0,
        ensures
            final(self).wf(),
            looked_at(old(self)@, final(self)@, chunk@, result),
            final(self).scratch() == old(self).scratch().scanned(
                old(self)@,
                seen(chunk@, result),
            ),
    {
        let ghost before = self@;
        let ghost value = before.mode->Value_0;
        let limit: usize = self.max_payload_size;
        let taken = match field {
            ValueMode::Data => consume_until_newline(&mut self.data_buf, limit, chunk),
            ValueMode::Event => consume_until_newline(&mut self.event_buf, limit, chunk),
            _ => consume_until_newline(&mut self.last_event_id_buf, limit, chunk),
        };
        let end: usize = match taken {
            Ok(end) => end,
            Err(error) => {
                self.discard();
                if let ValueMode::Id = field {
                    self.last_event_id_buf.clear();
                }
                proof {
                    let end = choose|end: int| #[trigger]
                        line_length(chunk@, end) && before.held_value(value).len() + end > limit;
                    lemma_value_refused(before, value, chunk@, end);
                    lemma_scanned_refused(old(self).scratch(), before, value, chunk@, end);
                }
                return Err(error);
            },
        };
        let ghost grown = self@;
        proof {
            lemma_value_taken(before, value, chunk@, end as int);
            lemma_scanned_taken(old(self).scratch(), before, value, chunk@, end as int);
            assert(grown == before.with_value(value, chunk@.take(end as int)));
        }
        if end == chunk.len() {
            proof {
                crate::scanning::lemma_scan_wf(before, chunk@.take(end as int), 0);
            }
            return Ok((end, None));
        }
        self.mode = mode_after_eol(chunk[end]);
        match field {
            ValueMode::Data => {
                self.data_buf.push(LF);
            },
            ValueMode::Id => {
                if memchr::memchr(NUL, &self.last_event_id_buf).is_none() {
                    self.staged_last_event_id = if self.last_event_id_buf.is_empty() {
                        None
                    } else {
                        Some(share_text(decode_lossy(&self.last_event_id_buf)))
                    };
                }
            },
            _ => {},
        }
        proof {
            assert(self@ == grown.end_value(grown.mode->Value_0, chunk@[end as int]).0);
            crate::scanning::lemma_scan_wf(before, chunk@.take(end + 1), 0);
        }
        Ok((end + 1, None))
    }

    /// Looks at the bytes in front of the decoder, of which there is at least
    /// one. Returns how many of them it has read, and the event that they
    /// completed.
    fn look_at(&mut self, chunk: &[u8]) -> (result: Result<
        (usize, Option<SseEvent>),
        PayloadTooLargeError,
    >)
        requires
            old(self).wf(),
            chunk@.len() > 0,
        ensures
            final(self).wf(),
            looked_at(old(self)@, final(self)@, chunk@, result),
            final(self).scratch() == old(self).scratch().scanned(
                old(self)@,
                seen(chunk@, result),
            ),
    {
        match self.mode {
            Mode::Bom { bytes_read } => self.look_at_bom(chunk, bytes_read),
            Mode::Field(field) => self.look_at_field(chunk, field),
            Mode::Value(ValueMode::Retry) => self.look_at_retry(chunk),
            Mode::Value(field) => self.look_at_value(chunk, field),
            Mode::Ignore => self.look_at_ignored(chunk),
            Mode::PostCr => self.look_behind_cr(chunk),
            Mode::PostColon(field) => self.look_behind_colon(chunk, field),
        }
    }

    /// Consumes bytes from the provided buffer and attempts to yield an event.
    ///
    /// The decoder does not store unparsed bytes internally. It reads directly
    /// from the provided buffer, advancing the buffer's cursor only for the bytes
    /// it successfully parses.
    ///
    /// If `Ok(None)` is returned, the provided buffer has been exhausted and
    /// more bytes are needed to complete the current event. You should fetch more
    /// data, append it to your buffer, and call `next()` again.
    ///
    /// # Errors
    ///
    /// Returns a [`PayloadTooLargeError`] if a single field (like data or event name)
    /// exceeds the maximum payload size limit configured for this decoder. The
    /// event that the field belongs to is dropped, together with its ID, and the
    /// decoder goes on with the event behind it. The cursor then stands at or
    /// behind the start of the field's value, and at its start if the buffer is
    /// in one piece.
    #[verifier::rlimit(30)]
    pub fn next<B: ByteSource>(&mut self, buf: &mut B) -> (result: Result<
        Option<SseEvent>,
        PayloadTooLargeError,
    >)
        requires
            old(self).wf(),
        ensures
            final(self).wf(),
            final(buf).contiguous() == old(buf).contiguous(),
            decoded(
                old(self)@,
                old(buf).bytes(),
                old(buf).contiguous(),
                final(self)@,
                final(buf).bytes(),
                result,
            ),
            final(self).scratch() == old(self).scratch().scanned(old(self)@, old(buf).bytes()),
    {
        let ghost start = self@;
        let ghost kept = self.scratch();
        let ghost bytes = buf.bytes();
        let ghost mut read: int = 0;
        proof {
            assert(bytes.take(0).len() == 0);
            assert(bytes.skip(0) == bytes);
        }
        loop
            invariant
                self.wf(),
                start == old(self)@,
                bytes == old(buf).bytes(),
                0 <= read <= bytes.len(),
                buf.bytes() == bytes.skip(read),
                buf.contiguous() == old(buf).contiguous(),
                start.scan(bytes.take(read), 0).output is None,
                kept == old(self).scratch(),
                self.scratch() == kept.scanned(start, bytes.take(read)),
                ({
                    let here = start.scan(bytes.take(read), 0);
                    &&& self@ == here.state || read < bytes.len() && self@ == here.state.settle(
                        bytes[read],
                    )
                    &&& buf.contiguous() && read < bytes.len() && here.held > 0 ==> between_values(
                        self@.mode,
                    )
                }),
            decreases bytes.len() - read, rank(self@.mode),
        {
            let ghost before = self@;
            let ghost here = start.scan(bytes.take(read), 0);
            let ghost rest = bytes.skip(read);
            let ghost here_kept = self.scratch();
            proof {
                crate::scanning::lemma_scan_feed(start, bytes, 0);
            }
            let chunk = buf.chunk();
            if chunk.is_empty() {
                assert(bytes.take(read) == bytes);
                proof {
                    crate::scanning::lemma_scan_consumes(start, bytes, 0);
                }
                return Ok(None);
            }
            let ghost chunk_bytes = chunk@;
            proof {
                // A scan of all the bytes goes on from here.
                assert(bytes == bytes.take(read) + rest);
                crate::scanning::lemma_scan_append(start, bytes.take(read), rest, 0);
                assert(rest[0] == bytes[read]);
                crate::scanning::lemma_scan_settled(here.state, rest, here.held);
                crate::scanning::lemma_scan_held(before, rest, here.held);
                kept.lemma_scanned_append(start, bytes.take(read), rest);
                here_kept.lemma_scanned_settled(here.state, rest);
                here_kept.lemma_scanned_append(
                    before,
                    chunk_bytes,
                    rest.skip(chunk_bytes.len() as int),
                );
                assert(rest == chunk_bytes + rest.skip(chunk_bytes.len() as int));
            }
            match self.look_at(chunk) {
                Err(error) => {
                    proof {
                        crate::scanning::lemma_scan_prefix(
                            before,
                            chunk_bytes,
                            rest.skip(chunk_bytes.len() as int),
                            0,
                        );
                        crate::scanning::lemma_scan_feed_held(start, bytes, read);
                    }
                    return Err(error);
                },
                Ok((n, Some(event))) => {
                    proof {
                        crate::scanning::lemma_scan_consumes(before, chunk_bytes, 0);
                        crate::scanning::lemma_scan_prefix(
                            before,
                            chunk_bytes,
                            rest.skip(chunk_bytes.len() as int),
                            0,
                        );
                        assert(rest.skip(n as int) == bytes.skip(read + n));
                        // The state in which the event was dispatched.
                        let part = chunk_bytes.take(n - 1);
                        assert(bytes.take(read + n - 1) == bytes.take(read) + part);
                        crate::scanning::lemma_scan_append(start, bytes.take(read), part, 0);
                        crate::scanning::lemma_scan_held(here.state, part, here.held);
                        if part.len() > 0 {
                            assert(part[0] == bytes[read]);
                            crate::scanning::lemma_scan_settled(here.state, part, 0);
                        }
                    }
                    buf.advance(n);
                    return Ok(Some(event));
                },
                Ok((n, None)) => {
                    proof {
                        let part = chunk_bytes.take(n as int);
                        assert(part == rest.take(n as int));
                        assert(rest.skip(n as int) == bytes.skip(read + n));
                        assert(bytes.take(read + n) == bytes.take(read) + part);
                        crate::scanning::lemma_scan_append(start, bytes.take(read), part, 0);
                        kept.lemma_scanned_append(start, bytes.take(read), part);
                        if n > 0 {
                            assert(part[0] == bytes[read]);
                            here_kept.lemma_scanned_settled(here.state, part);
                            crate::scanning::lemma_scan_settled(here.state, part, here.held);
                        } else {
                            assert(bytes.take(read) + part == bytes.take(read));
                            crate::scanning::lemma_settle_twice(here.state, bytes[read]);
                        }
                        crate::scanning::lemma_scan_held(before, part, here.held);
                        crate::scanning::lemma_scan_consumes(before, part, 0);
                        assert(n < chunk_bytes.len() ==> chunk_bytes[n as int] == bytes[read + n]);
                        read = read + n;
                    }
                    buf.advance(n);
                },
            }
        }
    }
}

impl SseDecoder {
    /// Writes where in the format the next byte stands.
    fn write_mode(&self, out: &mut String)
        requires
            self.wf(),
        ensures
            final(out)@ == old(out)@ + crate::debug::mode_text(self@.mode),
    {
        match self.mode {
            Mode::Bom { bytes_read } => {
                out.append("Bom { bytes_read: ");
                write_decimal(out, bytes_read as usize);
                out.append(" }");
            },
            Mode::Field(field) => {
                out.append("Field(FieldMode(");
                write_buf(out, field.as_slice());
                out.append("))");
            },
            Mode::Value(field) => {
                out.append("Value(");
                write_field(out, field);
                out.append(")");
            },
            Mode::Ignore => out.append("Ignore"),
            Mode::PostCr => out.append("PostCr"),
            Mode::PostColon(field) => {
                out.append("PostColon(");
                write_field(out, field);
                out.append(")");
            },
        }
    }

    /// Describes the state of the decoder, for debugging. Long values are cut
    /// short.
    #[must_use]
    pub fn to_debug_string(&self) -> (text: String)
        requires
            self.wf(),
        ensures
            text@ == crate::debug::decoder_text(self@, self.id_buf(), self.retry_buf()),
    {
        let mut out = String::new();
        out.append("SseDecoder { mode: ");
        self.write_mode(&mut out);
        out.append(", last_event_id: ");
        write_id(&mut out, self.last_event_id.as_ref());
        out.append(", staged_last_event_id: ");
        write_id(&mut out, self.staged_last_event_id.as_ref());
        out.append(", last_event_id_buf: ");
        write_buf(&mut out, self.last_event_id_buf.as_slice());
        out.append(", event_buf: ");
        write_buf(&mut out, self.event_buf.as_slice());
        out.append(", data_buf: ");
        write_buf(&mut out, self.data_buf.as_slice());
        out.append(", retry_buf: ");
        write_number(&mut out, self.retry_buf);
        out.append(", max_payload_size: ");
        write_decimal(&mut out, self.max_payload_size);
        out.append(" }");
        out
    }
}

impl Default for SseDecoder {
    fn default() -> (decoder: Self)
        ensures
            decoder.wf(),
            decoder@ == DecoderView::fresh(DEFAULT_PAYLOAD_LIMIT as nat, None),
            decoder@.limit == 524288,
            decoder.scratch() == Scratch::empty(),
    {
        Self::new()
    }
}

impl Clone for SseDecoder {
    fn clone(&self) -> (copy: Self)
        ensures
            copy@ == self@,
            copy.scratch() == self.scratch(),
            self.wf() ==> copy.wf(),
    {
        let copy = SseDecoder {
            mode: self.mode,
            discarding: self.discarding,
            last_event_id: clone_id(&self.last_event_id),
            staged_last_event_id: clone_id(&self.staged_last_event_id),
            last_event_id_buf: self.last_event_id_buf.clone(),
            event_buf: self.event_buf.clone(),
            data_buf: self.data_buf.clone(),
            retry_buf: self.retry_buf,
            max_payload_size: self.max_payload_size,
        };
        assert(copy.last_event_id_buf@ == self.last_event_id_buf@);
        assert(copy.event_buf@ == self.event_buf@);
        assert(copy.data_buf@ == self.data_buf@);
        copy
    }
}

/// Appends a digit to a reconnection time.
fn append_retry_digit(ms: Option<u32>, b: u8) -> (appended: Option<u32>)
    ensures
        appended == crate::grammar::append_digit(ms, b),
{
    if b < 0x30 || b > 0x39 {
        return None;
    }
    let before: u32 = match ms {
        Some(ms) => ms,
        None => 0,
    };
    match before.checked_mul(10) {
        Some(tens) => tens.checked_add((b - 0x30) as u32),
        None => None,
    }
}

/// Whether the first byte of `chunk` that ends a line, if any, stands at `i`.
/// Without one, `i` is the length.
spec fn line_length(chunk: Seq<u8>, i: int) -> bool {
    &&& 0 <= i <= chunk.len()
    &&& forall|j: int| 0 <= j < i ==> !crate::grammar::is_eol(#[trigger] chunk[j])
    &&& i < chunk.len() ==> crate::grammar::is_eol(chunk[i])
}

/// Returns where in `chunk` the line ends. Without an end it is the length.
fn find_newline(chunk: &[u8]) -> (end: usize)
    ensures
        line_length(chunk@, end as int),
{
    match memchr::memchr2(CR, LF, chunk) {
        Some(i) => i,
        None => chunk.len(),
    }
}

/// Appends the rest of a line to `out`, as far as it lies in `chunk`, unless
/// `out` would then exceed `max_size`. Returns where the line ends.
fn consume_until_newline(out: &mut Vec<u8>, max_size: usize, chunk: &[u8]) -> (result: Result<
    usize,
    PayloadTooLargeError,
>)
    ensures
        match result {
            Ok(end) => {
                &&& line_length(chunk@, end as int)
                &&& old(out)@.len() + end <= max_size
                &&& final(out)@ == old(out)@ + chunk@.take(end as int)
            },
            Err(_) => {
                &&& final(out)@ == old(out)@
                &&& exists|end: int| #[trigger]
                    line_length(chunk@, end) && old(out)@.len() + end > max_size
            },
        },
{
    let end = find_newline(chunk);
    if out.len() > max_size || end > max_size - out.len() {
        assert(line_length(chunk@, end as int));
        return Err(PayloadTooLargeError);
    }
    out.extend_from_slice(vstd::slice::slice_subrange(chunk, 0, end));
    assert(out@ == old(out)@ + chunk@.take(end as int));
    Ok(end)
}

/// A value that fits, with the end of its line if that is in sight.
proof fn lemma_value_taken(s: DecoderView, value: ValueView, chunk: Seq<u8>, end: int)
    requires
        s.mode == ModeView::Value(value),
        value.limited(),
        chunk.len() > 0,
        line_length(chunk, end),
        s.held_value(value).len() + end <= s.limit,
    ensures
        ({
            let taken = s.with_value(value, chunk.take(end));
            if end == chunk.len() {
                read_on(s, taken, chunk, end)
            } else {
                read_on(s, taken.end_value(taken.mode->Value_0, chunk[end]).0, chunk, end + 1)
            }
        }),
{
    let taken = s.with_value(value, chunk.take(end));
    assert forall|i: int| 0 <= i < chunk.take(end).len() implies !crate::grammar::is_eol(
        #[trigger] chunk.take(end)[i],
    ) by {
        assert(chunk.take(end)[i] == chunk[i]);
    }
    crate::scanning::lemma_scan_value(s, value, chunk.take(end), 0);
    if end < chunk.len() {
        crate::scanning::lemma_scan_next(s, chunk, end, 0);
        crate::scanning::lemma_scan_byte(taken, chunk[end], end as nat);
    }
}

/// A value that does not fit.
proof fn lemma_value_refused(s: DecoderView, value: ValueView, chunk: Seq<u8>, end: int)
    requires
        s.mode == ModeView::Value(value),
        value.limited(),
        chunk.len() > 0,
        line_length(chunk, end),
        s.held_value(value).len() + end > s.limit,
    ensures
        looked_at(s, s.oversized(), chunk, Err(PayloadTooLargeError)),
{
    if end > 0 {
        assert forall|i: int| 0 <= i < chunk.take(end).len() implies !crate::grammar::is_eol(
            #[trigger] chunk.take(end)[i],
        ) by {
            assert(chunk.take(end)[i] == chunk[i]);
        }
        crate::scanning::lemma_scan_value(s, value, chunk.take(end), 0);
        crate::scanning::lemma_scan_found(s, chunk, end, 0);
    }
}

/// What the buffers hold once something was handed out.
proof fn lemma_scanned_found(kept: Scratch, s: DecoderView, chunk: Seq<u8>, n: int)
    requires
        0 <= n <= chunk.len(),
        s.scan(chunk.take(n), 0).output is Some,
    ensures
        kept.scanned(s, chunk) == kept.scanned(s, chunk.take(n)),
{
    assert(chunk == chunk.take(n) + chunk.skip(n));
    kept.lemma_scanned_append(s, chunk.take(n), chunk.skip(n));
}

/// What the buffers hold behind a value that fits, or a part of it.
proof fn lemma_scanned_taken(
    kept: Scratch,
    s: DecoderView,
    value: ValueView,
    chunk: Seq<u8>,
    end: int,
)
    requires
        s.mode == ModeView::Value(value),
        value.limited(),
        line_length(chunk, end),
        s.held_value(value).len() + end <= s.limit,
    ensures
        ({
            let then = if value is Id {
                Scratch { id: kept.id + chunk.take(end), ..kept }
            } else {
                kept
            };
            &&& kept.scanned(s, chunk.take(end)) == then
            &&& end < chunk.len() ==> kept.scanned(s, chunk.take(end + 1)) == then
        }),
{
    let line = chunk.take(end);
    assert forall|i: int| 0 <= i < line.len() implies !crate::grammar::is_eol(
        #[trigger] line[i],
    ) by {
        assert(line[i] == chunk[i]);
    }
    crate::scanning::lemma_scan_value(s, value, line, 0);
    kept.lemma_scanned_value(s, value, line);
    if end < chunk.len() {
        kept.lemma_scanned_next(s, chunk, end);
    }
}

/// What the buffers hold behind a value that does not fit.
proof fn lemma_scanned_refused(
    kept: Scratch,
    s: DecoderView,
    value: ValueView,
    chunk: Seq<u8>,
    end: int,
)
    requires
        s.wf(),
        s.mode == ModeView::Value(value),
        value.limited(),
        chunk.len() > 0,
        line_length(chunk, end),
        s.held_value(value).len() + end > s.limit,
    ensures
        kept.scanned(s, chunk) == kept.refused(s),
{
    let line = chunk.take(end);
    assert forall|i: int| 0 <= i < line.len() implies !crate::grammar::is_eol(
        #[trigger] line[i],
    ) by {
        assert(line[i] == chunk[i]);
    }
    crate::scanning::lemma_scan_value(s, value, line, 0);
    kept.lemma_scanned_value(s, value, line);
    if end > 0 {
        lemma_scanned_found(kept, s, chunk, end);
    }
}

/// A decoder that was not given a limit has one of 524288 bytes.
pub proof fn law_default_limit()
    ensures
        DEFAULT_PAYLOAD_LIMIT == 524288,
        DecoderView::fresh(DEFAULT_PAYLOAD_LIMIT as nat, None).limit == 524288,
{
}

/// A call reads exactly up to the byte that completes an event, or all that there
/// is. What it has read amounts to the event that it returns, and to the state that
/// it leaves. A message borrows its name exactly if it has none of its own.
pub proof fn law_cursor(
    before: DecoderView,
    bytes: Seq<u8>,
    one_piece: bool,
    after: DecoderView,
    rest: Seq<u8>,
    result: Result<Option<SseEvent>, PayloadTooLargeError>,
)
    requires
        decoded(before, bytes, one_piece, after, rest, result),
    ensures
        ({
            let read = bytes.len() - rest.len();
            &&& 0 <= read <= bytes.len()
            &&& bytes.take(read) + rest == bytes
            &&& result matches Ok(None) ==> rest.len() == 0 && before.feed(bytes) == (
                after,
                Seq::<Output>::empty(),
            )
            &&& result matches Ok(Some(event)) ==> {
                &&& read > 0
                &&& before.feed(bytes.take(read)) == (after, seq![Output::Event(event@)])
                &&& before.feed(bytes.take(read - 1)).1.len() == 0
                &&& event matches SseEvent::Message(message) ==> {
                    &&& message.event is Borrowed <==> before.feed(
                        bytes.take(read - 1),
                    ).0.event.len() == 0
                    &&& message.event is Borrowed ==> message.event@ == "message"@
                    &&& message.event@.len() > 0
                }
            }
            &&& result is Err ==> before.feed(bytes.take(read)).1.len() == 0
        }),
{
    let read = bytes.len() - rest.len();
    let found = before.scan(bytes, 0);
    crate::scanning::lemma_scan_consumes(before, bytes, 0);
    crate::scanning::lemma_scan_feed(before, bytes, 0);
    assert(bytes.take(read) + rest == bytes);
    if result matches Ok(None) {
        assert(bytes.skip(found.consumed as int).len() == 0);
    } else {
        let n = if result is Err {
            read
        } else {
            read - 1
        };
        lemma_scan_before(before, bytes, 0, n);
        let front = bytes.take(n);
        crate::scanning::lemma_scan_consumes(before, front, 0);
        crate::scanning::lemma_scan_feed(before, front, 0);
        assert(front.skip(n) == Seq::<u8>::empty());
        if let Ok(Some(event)) = result {
            let here = before.scan(front, 0).state;
            crate::scanning::lemma_scan_next(before, bytes, n, 0);
            crate::scanning::lemma_scan_byte(here, bytes[n], before.scan(front, 0).held);
            assert(bytes == front + bytes.skip(n));
            crate::scanning::lemma_scan_append(before, front, bytes.skip(n), 0);
            let back = bytes.skip(n);
            assert(back == seq![bytes[n]] + back.skip(1));
            assert(back[0] == bytes[n]);
            crate::scanning::lemma_scan_feed(before, bytes.take(read), 0);
            lemma_scan_up_to(before, bytes, read);
            assert(bytes.take(read).skip(read) == Seq::<u8>::empty());
            if let SseEvent::Message(message) = event {
                if here.event.len() == 0 {
                    lemma_message_name(here, bytes[n], message@);
                }
            }
        }
    }
}

/// Bytes before the point that a scan gets to yield nothing.
proof fn lemma_scan_before(s: DecoderView, bytes: Seq<u8>, held: nat, n: int)
    requires
        0 <= n <= bytes.len(),
        n < s.scan(bytes, held).consumed || n == s.scan(bytes, held).consumed && !(s.scan(
            bytes,
            held,
        ).output matches Some(Output::Event(_))),
    ensures
        s.scan(bytes.take(n), held).output is None,
    decreases bytes.len(),
{
    if n > 0 {
        let settled = s.settle(bytes[0]);
        let holds: nat = if settled.mode is Value {
            held + 1
        } else {
            0
        };
        let next = settled.accept(bytes[0]).0;
        assert(bytes.take(n)[0] == bytes[0]);
        assert(bytes.take(n).skip(1) == bytes.skip(1).take(n - 1));
        lemma_scan_before(next, bytes.skip(1), holds, n - 1);
    }
}

/// A scan of the bytes up to the point that it gets to finds the same.
proof fn lemma_scan_up_to(s: DecoderView, bytes: Seq<u8>, n: int)
    requires
        0 <= n <= bytes.len(),
        s.scan(bytes, 0).consumed == n,
        s.scan(bytes, 0).output matches Some(Output::Event(_)),
    ensures
        s.scan(bytes.take(n), 0) == s.scan(bytes, 0),
{
    crate::scanning::lemma_scan_consumes(s, bytes.take(n), 0);
    if s.scan(bytes.take(n), 0).output is None {
        assert(bytes == bytes.take(n) + bytes.skip(n));
        crate::scanning::lemma_scan_append(s, bytes.take(n), bytes.skip(n), 0);
        crate::scanning::lemma_scan_consumes(
            s.scan(bytes.take(n), 0).state,
            bytes.skip(n),
            s.scan(bytes.take(n), 0).held,
        );
    } else {
        crate::scanning::lemma_scan_found(s, bytes, n, 0);
    }
}

/// The name of a message that has none of its own.
proof fn lemma_message_name(s: DecoderView, b: u8, message: crate::event::MessageView)
    requires
        s.settle(b).accept(b).1 == Some(crate::event::SseEventView::Message(message)),
        s.event.len() == 0,
    ensures
        message.event == "message"@,
{
}

} // verus!
