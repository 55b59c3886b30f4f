//! The event stream format, as a machine that takes one byte at a time.
//!
//! ```text
//! stream        = [ bom ] *event
//! event         = *( comment / field ) end-of-line
//! comment       = colon *any-char end-of-line
//! field         = 1*name-char [ colon [ space ] *any-char ] end-of-line
//! end-of-line   = ( cr lf / cr / lf )
//! ```
//!
//! [`DecoderView`] is everything that a decoder remembers between two bytes.
//! [`DecoderView::step`] says what one byte does to it, [`DecoderView::feed`]
//! what a string of bytes does, and [`DecoderView::scan`] where the first event
//! of a string of bytes ends.

use vstd::prelude::*;

use crate::event::{MessageView, SseEventView};

verus! {

/// Line feed.
pub const LF: u8 = 0x0a;

/// Carriage return.
pub const CR: u8 = 0x0d;

/// Separates a field's name from its value.
pub const COLON: u8 = 0x3a;

/// One of these may follow the colon and is not part of the value.
pub const SPACE: u8 = 0x20;

/// An ID that holds this byte is not taken over.
pub const NUL: u8 = 0x00;

/// The longest name of a known field.
pub const MAX_NAME_LEN: usize = 5;

/// Whether a byte ends a line.
pub open spec fn is_eol(b: u8) -> bool {
    b == CR || b == LF
}

/// Whether a byte ends a field's name.
pub open spec fn ends_name(b: u8) -> bool {
    b == COLON || is_eol(b)
}

/// The byte order mark, in UTF-8.
pub open spec fn byte_order_mark() -> Seq<u8> {
    seq![0xefu8, 0xbbu8, 0xbfu8]
}

/// The known fields.
#[derive(Debug, Clone, Copy)]
pub enum ValueMode {
    Data,
    Event,
    Retry,
    Id,
}

impl ValueMode {
    /// The field's name: `data`, `event`, `retry` or `id`.
    pub open spec fn name(self) -> Seq<u8> {
        match self {
            ValueMode::Data => seq![0x64u8, 0x61u8, 0x74u8, 0x61u8],
            ValueMode::Event => seq![0x65u8, 0x76u8, 0x65u8, 0x6eu8, 0x74u8],
            ValueMode::Retry => seq![0x72u8, 0x65u8, 0x74u8, 0x72u8, 0x79u8],
            ValueMode::Id => seq![0x69u8, 0x64u8],
        }
    }

    /// The field with the given name.
    pub open spec fn named(name: Seq<u8>) -> Option<ValueMode> {
        if name == ValueMode::Data.name() {
            Some(ValueMode::Data)
        } else if name == ValueMode::Event.name() {
            Some(ValueMode::Event)
        } else if name == ValueMode::Retry.name() {
            Some(ValueMode::Retry)
        } else if name == ValueMode::Id.name() {
            Some(ValueMode::Id)
        } else {
            None
        }
    }

    /// The value, before its first byte.
    pub open spec fn begun(self) -> ValueView {
        match self {
            ValueMode::Data => ValueView::Data,
            ValueMode::Event => ValueView::Event,
            ValueMode::Retry => ValueView::Retry(None),
            ValueMode::Id => ValueView::Id(Seq::empty()),
        }
    }
}

/// The value that is being read.
#[verifier::ext_equal]
pub enum ValueView {
    /// A line of the payload. It goes to [`DecoderView::data`] as it comes.
    Data,
    /// The event's name. It goes to [`DecoderView::event`] as it comes.
    Event,
    /// A reconnection time: the number that the digits so far stand for, if
    /// there were any.
    Retry(Option<u32>),
    /// An ID: its bytes so far.
    Id(Seq<u8>),
}

/// Where in the format the next byte stands.
#[verifier::ext_equal]
pub enum ModeView {
    /// At the start of the stream, after so many bytes of a byte order mark.
    Bom(nat),
    /// In a field's name, after these bytes of it.
    Field(Seq<u8>),
    /// Behind the colon of a known field.
    PostColon(ValueMode),
    /// In the value of a known field.
    Value(ValueView),
    /// In a part of a line that has no effect.
    Ignore,
    /// Behind a carriage return, which a line feed may complete.
    PostCr,
}

/// At the start of a line.
pub open spec fn line_start() -> ModeView {
    ModeView::Field(Seq::empty())
}

/// The mode behind the byte `b` that ended a line.
pub open spec fn after_eol(b: u8) -> ModeView {
    if b == CR {
        ModeView::PostCr
    } else {
        line_start()
    }
}

/// What a decoder hands out.
#[verifier::ext_equal]
pub enum Output {
    /// An event.
    Event(SseEventView),
    /// The notice that an event was dropped, because one of its fields exceeded
    /// the limit.
    TooLarge,
}

/// The state of a decoder.
#[verifier::ext_equal]
pub struct DecoderView {
    /// Where in the format the next byte stands.
    pub mode: ModeView,
    /// Whether the rest of the current event is to be dropped.
    pub discarding: bool,
    /// The ID that the last complete event left behind.
    pub last_event_id: Option<Seq<char>>,
    /// The ID that the current event will leave behind.
    pub staged_id: Option<Seq<char>>,
    /// The name of the current event so far.
    pub event: Seq<u8>,
    /// The payload of the current event so far. Every line of it that is
    /// complete ends in a line feed.
    pub data: Seq<u8>,
    /// The number of bytes that a payload, an event's name and an ID may have.
    pub limit: nat,
}

/// How far a string of bytes was read, and why no farther.
#[verifier::ext_equal]
pub struct Scan {
    /// The state at that point.
    pub state: DecoderView,
    /// The number of bytes that were read.
    pub consumed: nat,
    /// How many of the last bytes read belong to the value of a known field.
    pub held: nat,
    /// What is handed out there. Without it all the bytes were read.
    pub output: Option<Output>,
}

impl Scan {
    /// The same point, counted from `n` bytes earlier.
    pub open spec fn behind(self, n: nat) -> Scan {
        Scan { consumed: self.consumed + n, ..self }
    }
}

impl DecoderView {
    /// A decoder that has read nothing, with the ID that an earlier connection
    /// left behind.
    pub open spec fn fresh(limit: nat, last_event_id: Option<Seq<char>>) -> DecoderView {
        DecoderView {
            mode: ModeView::Bom(0),
            discarding: false,
            last_event_id,
            staged_id: last_event_id,
            event: Seq::empty(),
            data: Seq::empty(),
            limit,
        }
    }

    /// The same state in another mode.
    pub open spec fn at(self, mode: ModeView) -> DecoderView {
        DecoderView { mode, ..self }
    }

    /// What holds of every state that a decoder can be in.
    pub open spec fn wf(self) -> bool {
        &&& self.limit > 0
        &&& self.event.len() <= self.limit
        &&& self.data.len() <= self.limit + 1
        &&& match self.mode {
            ModeView::Bom(n) => n < 3,
            ModeView::Field(name) => name.len() <= MAX_NAME_LEN && forall|i: int|
                0 <= i < name.len() ==> !ends_name(#[trigger] name[i]),
            ModeView::Value(ValueView::Id(id)) => id.len() <= self.limit,
            _ => true,
        }
        // Outside of a payload line, the payload consists of complete lines.
        &&& self.data.len() > 0 && (self.mode != ModeView::Value(ValueView::Data)
            || self.data.len() > self.limit) ==> self.data.last() == LF
        // Nothing of a dropped event is kept.
        &&& self.discarding ==> {
            &&& self.event.len() == 0
            &&& self.data.len() == 0
            &&& self.staged_id == self.last_event_id
            &&& !(self.mode is Bom)
            &&& !(self.mode is PostColon)
            &&& !(self.mode is Value)
        }
    }

    /// The state in which the byte `b` itself counts, when the mode was waiting
    /// for a byte that `b` is not.
    pub open spec fn settle(self, b: u8) -> DecoderView {
        match self.mode {
            ModeView::Bom(n) => if b == byte_order_mark()[n as int] {
                self
            } else if n == 0 {
                self.at(line_start())
            } else {
                self.at(ModeView::Ignore)
            },
            ModeView::PostCr => if b == LF {
                self
            } else {
                self.at(line_start())
            },
            ModeView::PostColon(field) => if b == SPACE {
                self
            } else {
                self.at(ModeView::Value(field.begun()))
            },
            // A payload line may go without a colon. It is then empty.
            ModeView::Field(name) => if is_eol(b) && !self.discarding && ValueMode::named(name)
                == Some(ValueMode::Data) {
                self.at(ModeView::Value(ValueView::Data))
            } else {
                self
            },
            _ => self,
        }
    }

    /// Whether the byte `b` makes the value that is being read too long.
    pub open spec fn refuses(self, b: u8) -> bool {
        let more: nat = if is_eol(b) {
            0
        } else {
            1
        };
        match self.mode {
            ModeView::Value(ValueView::Data) => self.data.len() + more > self.limit,
            ModeView::Value(ValueView::Event) => self.event.len() + more > self.limit,
            ModeView::Value(ValueView::Id(id)) => id.len() + more > self.limit,
            _ => false,
        }
    }

    /// The state once a value was found to be too long. The event is dropped up
    /// to its end, and its ID with it.
    pub open spec fn oversized(self) -> DecoderView {
        DecoderView {
            mode: ModeView::Ignore,
            discarding: true,
            staged_id: self.last_event_id,
            event: Seq::empty(),
            data: Seq::empty(),
            ..self
        }
    }

    /// The message that the current event amounts to.
    pub open spec fn message(self) -> MessageView {
        MessageView {
            event: crate::event::event_name(
                if self.event.len() == 0 {
                    None
                } else {
                    Some(crate::text::lossy_text(self.event))
                },
            ),
            data: crate::text::lossy_text(self.data.drop_last()),
            last_event_id: self.staged_id,
        }
    }

    /// The end of an event, at a blank line that the byte `b` ended. An event
    /// without payload yields no message, but its ID counts.
    pub open spec fn dispatch(self, b: u8) -> (DecoderView, Option<SseEventView>) {
        (
            DecoderView {
                mode: after_eol(b),
                last_event_id: self.staged_id,
                event: Seq::empty(),
                data: Seq::empty(),
                ..self
            },
            if self.data.len() == 0 {
                None
            } else {
                Some(SseEventView::Message(self.message()))
            },
        )
    }

    /// The end of a field's name, at a colon or at the end of the line.
    pub open spec fn end_name(self, name: Seq<u8>, b: u8) -> (DecoderView, Option<SseEventView>) {
        let field = ValueMode::named(name);
        if b == COLON {
            if self.discarding || field is None {
                (self.at(ModeView::Ignore), None)
            } else if field == Some(ValueMode::Event) {
                (
                    DecoderView {
                        mode: ModeView::PostColon(ValueMode::Event),
                        event: Seq::empty(),
                        ..self
                    },
                    None,
                )
            } else {
                (self.at(ModeView::PostColon(field->0)), None)
            }
        } else if name.len() == 0 {
            if self.discarding {
                (DecoderView { mode: after_eol(b), discarding: false, ..self }, None)
            } else {
                self.dispatch(b)
            }
        } else if !self.discarding && field == Some(ValueMode::Event) {
            (DecoderView { mode: after_eol(b), event: Seq::empty(), ..self }, None)
        } else if !self.discarding && field == Some(ValueMode::Id) {
            (DecoderView { mode: after_eol(b), staged_id: None, ..self }, None)
        } else {
            (self.at(after_eol(b)), None)
        }
    }

    /// The end of a value, at the end of the line.
    pub open spec fn end_value(self, value: ValueView, b: u8) -> (
        DecoderView,
        Option<SseEventView>,
    ) {
        let ended = self.at(after_eol(b));
        match value {
            ValueView::Data => (DecoderView { data: self.data.push(LF), ..ended }, None),
            ValueView::Event => (ended, None),
            ValueView::Retry(ms) => (
                ended,
                match ms {
                    Some(ms) => Some(SseEventView::Retry(ms)),
                    None => None,
                },
            ),
            ValueView::Id(id) => if id.contains(NUL) {
                (ended, None)
            } else if id.len() == 0 {
                (DecoderView { staged_id: None, ..ended }, None)
            } else {
                (DecoderView { staged_id: Some(crate::text::lossy_text(id)), ..ended }, None)
            },
        }
    }

    /// A byte of a value that does not end the line.
    pub open spec fn extend_value(self, value: ValueView, b: u8) -> DecoderView {
        match value {
            ValueView::Data => DecoderView { data: self.data.push(b), ..self },
            ValueView::Event => DecoderView { event: self.event.push(b), ..self },
            ValueView::Id(id) => self.at(ModeView::Value(ValueView::Id(id.push(b)))),
            ValueView::Retry(ms) => match append_digit(ms, b) {
                Some(ms) => self.at(ModeView::Value(ValueView::Retry(Some(ms)))),
                None => self.at(ModeView::Ignore),
            },
        }
    }

    /// What the byte `b` does in a state that has settled for it and does not
    /// refuse it.
    pub open spec fn accept(self, b: u8) -> (DecoderView, Option<SseEventView>) {
        match self.mode {
            ModeView::Bom(n) => (
                self.at(
                    if n + 1 < 3 {
                        ModeView::Bom(n + 1)
                    } else {
                        line_start()
                    },
                ),
                None,
            ),
            ModeView::PostCr => (self.at(line_start()), None),
            ModeView::PostColon(field) => (self.at(ModeView::Value(field.begun())), None),
            ModeView::Ignore => (
                self.at(
                    if is_eol(b) {
                        after_eol(b)
                    } else {
                        ModeView::Ignore
                    },
                ),
                None,
            ),
            ModeView::Field(name) => if ends_name(b) {
                self.end_name(name, b)
            } else if name.len() < MAX_NAME_LEN {
                (self.at(ModeView::Field(name.push(b))), None)
            } else {
                (self.at(ModeView::Ignore), None)
            },
            ModeView::Value(value) => if is_eol(b) {
                self.end_value(value, b)
            } else {
                (self.extend_value(value, b), None)
            },
        }
    }

    /// What the byte `b` does.
    pub open spec fn step(self, b: u8) -> (DecoderView, Option<Output>) {
        let settled = self.settle(b);
        if settled.refuses(b) {
            (settled.oversized().accept(b).0, Some(Output::TooLarge))
        } else {
            let (next, event) = settled.accept(b);
            (
                next,
                match event {
                    Some(event) => Some(Output::Event(event)),
                    None => None,
                },
            )
        }
    }

    /// What a string of bytes does: the state behind it, and all that is handed
    /// out on the way.
    pub open spec fn feed(self, bytes: Seq<u8>) -> (DecoderView, Seq<Output>)
        decreases bytes.len(),
    {
        if bytes.len() == 0 {
            (self, Seq::empty())
        } else {
            let (next, output) = self.step(bytes[0]);
            let (last, outputs) = next.feed(bytes.skip(1));
            (
                last,
                match output {
                    Some(output) => seq![output] + outputs,
                    None => outputs,
                },
            )
        }
    }

    /// Reads a string of bytes up to the first thing that is handed out. The
    /// byte that makes a value too long is not read. `held` of the bytes before
    /// the string belong to the value that is being read.
    pub open spec fn scan(self, bytes: Seq<u8>, held: nat) -> Scan
        decreases bytes.len(),
    {
        if bytes.len() == 0 {
            Scan { state: self, consumed: 0, held, output: None }
        } else {
            let settled = self.settle(bytes[0]);
            let holds: nat = if settled.mode is Value {
                held + 1
            } else {
                0
            };
            if settled.refuses(bytes[0]) {
                Scan {
                    state: settled.oversized(),
                    consumed: 0,
                    held,
                    output: Some(Output::TooLarge),
                }
            } else {
                let (next, event) = settled.accept(bytes[0]);
                match event {
                    Some(event) => Scan {
                        state: next,
                        consumed: 1,
                        held: holds,
                        output: Some(Output::Event(event)),
                    },
                    None => next.scan(bytes.skip(1), holds).behind(1),
                }
            }
        }
    }
}

/// The number that a digit `b` makes of the digits before it. There is none, if
/// `b` is no digit or the number does not fit.
pub open spec fn append_digit(ms: Option<u32>, b: u8) -> Option<u32> {
    let before: int = match ms {
        Some(ms) => ms as int,
        None => 0,
    };
    let after: int = before * 10 + (b - 0x30);
    if 0x30 <= b <= 0x39 && after <= u32::MAX {
        Some(after as u32)
    } else {
        None
    }
}

} // verus!
