//! What an event means, in terms of the fields that the server writes.
//!
//! The laws here start from fields, write them out, and say what a decoder hands
//! out for the bytes.

use vstd::prelude::*;

use crate::event::{MessageView, SseEventView};
use crate::grammar::{DecoderView, Output, ValueMode, COLON, LF, SPACE};

verus! {

/// A line of an event, as the server writes it: a name, and a value behind a
/// colon and perhaps a space. Without a name it is a comment. The colon may be
/// missing if there is no value.
pub struct FieldLine {
    pub name: Seq<u8>,
    pub colon: bool,
    pub space: bool,
    pub value: Seq<u8>,
}

impl FieldLine {
    /// Whether the line can be written so that it is read in no other way.
    pub open spec fn wf(self) -> bool {
        &&& crate::lines::is_line(self.name)
        &&& crate::lines::is_line(self.value)
        &&& !self.name.contains(0x3a)
        &&& !self.colon ==> self.name.len() > 0 && !self.space && self.value.len() == 0
        &&& !self.space && self.value.len() > 0 ==> self.value[0] != 0x20
    }

    /// The bytes of the line, without its end.
    pub open spec fn written(self) -> Seq<u8> {
        let colon: Seq<u8> = if self.colon {
            seq![0x3au8]
        } else {
            Seq::empty()
        };
        let space: Seq<u8> = if self.space {
            seq![0x20u8]
        } else {
            Seq::empty()
        };
        self.name + colon + space + self.value
    }

    /// Whether it is a line of the payload.
    pub open spec fn is_data(self) -> bool {
        self.name == seq![0x64u8, 0x61u8, 0x74u8, 0x61u8]
    }

    /// Whether it names the event.
    pub open spec fn is_event(self) -> bool {
        self.name == seq![0x65u8, 0x76u8, 0x65u8, 0x6eu8, 0x74u8]
    }

    /// Whether it sets an ID.
    pub open spec fn is_id(self) -> bool {
        self.name == seq![0x69u8, 0x64u8]
    }

    /// Whether it sets the reconnection time.
    pub open spec fn is_retry(self) -> bool {
        self.name == seq![0x72u8, 0x65u8, 0x74u8, 0x72u8, 0x79u8]
    }
}

/// Lines that can be written.
pub open spec fn writable(fields: Seq<FieldLine>) -> bool {
    forall|i: int| 0 <= i < fields.len() ==> (#[trigger] fields[i]).wf()
}

/// The bytes of lines, each with a line feed behind it.
pub open spec fn fields_bytes(fields: Seq<FieldLine>) -> Seq<u8>
    decreases fields.len(),
{
    if fields.len() == 0 {
        Seq::empty()
    } else {
        fields_bytes(fields.drop_last()) + fields.last().written().push(0x0a)
    }
}

/// The payload that the lines amount to: the value of every payload line, with a
/// line feed behind it.
pub open spec fn payload_of(fields: Seq<FieldLine>) -> Seq<u8>
    decreases fields.len(),
{
    if fields.len() == 0 {
        Seq::empty()
    } else if fields.last().is_data() {
        payload_of(fields.drop_last()) + fields.last().value.push(0x0a)
    } else {
        payload_of(fields.drop_last())
    }
}

/// The name that the last line with one gives to the event. It is empty without
/// such a line.
pub open spec fn name_of(fields: Seq<FieldLine>) -> Seq<u8>
    decreases fields.len(),
{
    if fields.len() == 0 {
        Seq::empty()
    } else if fields.last().is_event() {
        fields.last().value
    } else {
        name_of(fields.drop_last())
    }
}

/// The ID behind the lines, if it is `id` before them: that of the last line that
/// sets one. An ID with a NUL does not count, and an empty one is none.
pub open spec fn id_of(id: Option<Seq<char>>, fields: Seq<FieldLine>) -> Option<Seq<char>>
    decreases fields.len(),
{
    if fields.len() == 0 {
        id
    } else if fields.last().is_id() && !fields.last().value.contains(0) {
        if fields.last().value.len() == 0 {
            None
        } else {
            Some(crate::text::lossy_text(fields.last().value))
        }
    } else {
        id_of(id, fields.drop_last())
    }
}

/// The reconnection times that the lines ask for, in order.
pub open spec fn times_of(fields: Seq<FieldLine>) -> Seq<Output>
    decreases fields.len(),
{
    if fields.len() == 0 {
        Seq::empty()
    } else {
        let before = times_of(fields.drop_last());
        let value = fields.last().value;
        if fields.last().is_retry() && value.len() > 0 && crate::lines::all_digits(value)
            && crate::lines::decimal(value) <= 0xffff_ffff {
            before.push(
                Output::Event(SseEventView::Retry(crate::lines::decimal(value) as u32)),
            )
        } else {
            before
        }
    }
}

/// Whether one of the lines makes the payload, the name or the ID longer than
/// `limit` bytes.
pub open spec fn exceeds(limit: nat, fields: Seq<FieldLine>) -> bool
    decreases fields.len(),
{
    if fields.len() == 0 {
        false
    } else {
        let value = fields.last().value;
        ||| exceeds(limit, fields.drop_last())
        ||| fields.last().is_data() && payload_of(fields.drop_last()).len() + value.len() > limit
        ||| fields.last().is_event() && value.len() > limit
        ||| fields.last().is_id() && value.len() > limit
    }
}

/// The lines before the first one that is too long.
pub open spec fn fitting(limit: nat, fields: Seq<FieldLine>) -> Seq<FieldLine>
    decreases fields.len(),
{
    if !exceeds(limit, fields) {
        fields
    } else {
        fitting(limit, fields.drop_last())
    }
}

/// The message that the lines amount to.
pub open spec fn message_of(id: Option<Seq<char>>, fields: Seq<FieldLine>) -> MessageView {
    MessageView {
        event: if name_of(fields).len() == 0 {
            "message"@
        } else {
            crate::text::lossy_text(name_of(fields))
        },
        data: crate::text::lossy_text(payload_of(fields).drop_last()),
        last_event_id: id_of(id, fields),
    }
}

/// What a decoder makes of an event, from the state between two events: the
/// reconnection times, and then a message if there is a payload.
///
/// The message has the name that was given last within the event, the values of
/// the payload lines with line feeds between them, and the ID that was set last.
/// Behind the event nothing of it is left but its ID, whether there was a message
/// or not.
pub proof fn law_event(s: DecoderView, fields: Seq<FieldLine>)
    requires
        s.between_events(),
        writable(fields),
        !exceeds(s.limit, fields),
    ensures
        ({
            let (next, outputs) = s.feed(fields_bytes(fields).push(0x0a));
            &&& outputs == if payload_of(fields).len() == 0 {
                times_of(fields)
            } else {
                times_of(fields).push(
                    Output::Event(SseEventView::Message(message_of(s.last_event_id, fields))),
                )
            }
            &&& next.between_events()
            &&& next.last_event_id == id_of(s.last_event_id, fields)
            &&& next.limit == s.limit
            &&& next.mode == s.mode
        }),
{
    let bytes = fields_bytes(fields);
    let blank = Seq::<u8>::empty();
    lemma_fields(s, fields);
    let (here, times) = s.feed(bytes);
    assert(bytes.push(0x0a) == bytes + blank.push(LF));
    crate::lines::law_split(s, bytes, blank.push(LF));
    crate::lines::law_line(here, blank);
    assert(here.feed(blank.push(LF)).0.event.len() == 0);
    assert(s.feed(bytes.push(0x0a)).1 == times + here.feed(blank.push(LF)).1);
}

/// An event that makes a field too long is reported exactly once, yields no
/// message, and leaves nothing behind, not even its ID. All that counts of it are
/// the reconnection times before the line that is too long.
pub proof fn law_event_too_large(s: DecoderView, fields: Seq<FieldLine>)
    requires
        s.between_events(),
        writable(fields),
        exceeds(s.limit, fields),
    ensures
        ({
            let (next, outputs) = s.feed(fields_bytes(fields).push(0x0a));
            &&& next == s
            &&& outputs == times_of(fitting(s.limit, fields)).push(Output::TooLarge)
            &&& outputs.len() > 0
            &&& outputs.last() == Output::TooLarge
            &&& forall|i: int|
                0 <= i < outputs.len() - 1 ==> (#[trigger] outputs[i] matches Output::Event(
                    SseEventView::Retry(_),
                ))
        }),
{
    let bytes = fields_bytes(fields);
    let blank = Seq::<u8>::empty();
    lemma_fields_too_large(s, fields);
    let (here, outputs) = s.feed(bytes);
    assert(bytes.push(0x0a) == bytes + blank.push(LF));
    crate::lines::law_split(s, bytes, blank.push(LF));
    crate::lines::law_line(here, blank);
    assert(here.feed(blank.push(LF)).1 == Seq::<Output>::empty());
    assert(s.feed(bytes.push(0x0a)).1 == outputs);
    assert(s.feed(bytes.push(0x0a)).0 == s) by {
        assert(here.event == s.event);
        assert(here.data == s.data);
    }
}

/// A blank line ends an event: from whatever state at the start of a line,
/// nothing of the event is left behind but its ID, whether or not there was a
/// payload. There is a message exactly if there was one.
pub proof fn law_blank_line(s: DecoderView, e: u8)
    requires
        s.wf(),
        s.mode == crate::grammar::line_start(),
        e == 0x0a || e == 0x0d,
    ensures
        ({
            let (next, outputs) = s.feed(seq![e]);
            &&& next.event.len() == 0
            &&& next.data.len() == 0
            &&& !next.discarding
            &&& next.last_event_id == next.staged_id
            &&& next.staged_id == s.staged_id
            &&& next.limit == s.limit
            &&& next.at(s.mode).between_events()
            &&& outputs.len() == if s.data.len() == 0 {
                0int
            } else {
                1
            }
        }),
{
    let blank = Seq::<u8>::empty();
    assert(blank.push(e) == seq![e]);
    crate::ids::lemma_any_line(s, blank, e);
}

/// Where the name of an event comes from: of two events, the second is called by
/// its own name alone.
pub proof fn law_names_do_not_leak(
    s: DecoderView,
    first: Seq<FieldLine>,
    second: Seq<FieldLine>,
)
    requires
        s.between_events(),
        writable(first),
        writable(second),
        !exceeds(s.limit, first),
        !exceeds(s.limit, second),
        payload_of(second).len() > 0,
    ensures
        ({
            let bytes = fields_bytes(first).push(0x0a) + fields_bytes(second).push(0x0a);
            let (next, outputs) = s.feed(bytes);
            &&& outputs.len() > 0
            &&& outputs.last() matches Output::Event(SseEventView::Message(message))
            &&& message == message_of(id_of(s.last_event_id, first), second)
            &&& next.between_events()
        }),
{
    let front = fields_bytes(first).push(0x0a);
    let back = fields_bytes(second).push(0x0a);
    law_event(s, first);
    let next = s.feed(front).0;
    law_event(next, second);
    crate::lines::law_split(s, front, back);
    assert(s.feed(front + back).1.last() == next.feed(back).1.last());
}

/// A connection starts between two events, with the ID and the limit that it was
/// given, once the byte order mark is out of the way.
pub proof fn law_fresh(limit: nat, id: Option<Seq<char>>)
    requires
        limit > 0,
    ensures
        ({
            let begun = DecoderView::fresh(limit, id).at(crate::grammar::line_start());
            &&& begun.between_events()
            &&& begun.last_event_id == id
            &&& begun.limit == limit
            &&& DecoderView::fresh(limit, id).last_event_id == id
            &&& DecoderView::fresh(limit, id).feed(seq![0xefu8, 0xbbu8, 0xbfu8]) == (
                begun,
                Seq::<Output>::empty(),
            )
            &&& DecoderView::fresh(limit, id).feed(seq![0x0au8]) == (
                begun,
                Seq::<Output>::empty(),
            )
        }),
{
    let fresh = DecoderView::fresh(limit, id);
    let begun = fresh.at(crate::grammar::line_start());
    let none = Seq::<u8>::empty();
    crate::laws::law_byte_order_mark(limit, id, none);
    assert(crate::grammar::byte_order_mark() + none == seq![0xefu8, 0xbbu8, 0xbfu8]);
    crate::laws::law_byte_order_mark(limit, id, seq![0x0au8]);
    assert(none.push(LF) == seq![0x0au8]);
    crate::lines::law_line(begun, none);
}

/// An event that was handed out says what its fields hold.
pub proof fn law_event_view(message: crate::event::MessageEvent, ms: u32)
    ensures
        message@.event == message.event@,
        message@.data == message.data@,
        message.last_event_id matches Some(id) ==> message@.last_event_id == Some((*id)@),
        message.last_event_id is None ==> message@.last_event_id is None,
        crate::event::SseEvent::Message(message)@ == SseEventView::Message(message@),
        crate::event::SseEvent::Retry(ms)@ == SseEventView::Retry(ms),
{
}

/// A line that was written is read as it was written.
proof fn lemma_written(field: FieldLine)
    requires
        field.wf(),
    ensures
        crate::lines::is_line(field.written()),
        field.written().len() > 0,
        crate::lines::field_name(field.written()) == field.name,
        crate::lines::field_value(field.written()) == field.value,
{
    let line = field.written();
    let n = field.name.len() as int;
    assert forall|i: int| 0 <= i < line.len() implies !crate::grammar::is_eol(
        #[trigger] line[i],
    ) by {
        let rest = i - (line.len() - field.value.len());
        if i < n {
            assert(line[i] == field.name[i]);
        } else if rest >= 0 {
            assert(line[i] == field.value[rest]);
        }
    }
    line.index_of_first_ensures(COLON);
    assert forall|i: int| 0 <= i < n implies #[trigger] line[i] != COLON by {
        assert(line[i] == field.name[i]);
        assert(field.name.contains(field.name[i]));
    }
    if field.colon {
        assert(line[n] == COLON);
        assert(line.index_of_first(COLON) == Some(n));
        assert(line.take(n) == field.name);
        let text = line.skip(n + 1);
        if field.space {
            assert(text[0] == SPACE);
            assert(text.skip(1) == field.value);
        } else {
            assert(text == field.value);
        }
    } else {
        assert(line == field.name);
        assert(!line.contains(COLON));
        assert(field.value == Seq::<u8>::empty());
    }
}

/// The known fields are the ones that are named here.
proof fn lemma_known(field: FieldLine)
    ensures
        ValueMode::named(field.name) == if field.is_data() {
            Some(ValueMode::Data)
        } else if field.is_event() {
            Some(ValueMode::Event)
        } else if field.is_id() {
            Some(ValueMode::Id)
        } else if field.is_retry() {
            Some(ValueMode::Retry)
        } else {
            None
        },
        field.is_data() ==> !field.is_event() && !field.is_id() && !field.is_retry(),
        field.is_event() ==> !field.is_id() && !field.is_retry(),
        field.is_id() ==> !field.is_retry(),
{
    assert(ValueMode::Data.name().len() == 4);
    assert(ValueMode::Event.name().len() == 5);
    assert(ValueMode::Id.name().len() == 2);
    assert(ValueMode::Retry.name().len() == 5);
    assert(ValueMode::Event.name()[0] == 0x65);
    assert(ValueMode::Retry.name()[0] == 0x72);
}

/// The lines of an event, up to the blank line that ends it.
proof fn lemma_fields(s: DecoderView, fields: Seq<FieldLine>)
    requires
        s.between_events(),
        writable(fields),
        !exceeds(s.limit, fields),
    ensures
        s.feed(fields_bytes(fields)) == (
            DecoderView {
                staged_id: id_of(s.last_event_id, fields),
                event: name_of(fields),
                data: payload_of(fields),
                ..s
            },
            times_of(fields),
        ),
        s.feed(fields_bytes(fields)).0.wf(),
    decreases fields.len(),
{
    crate::lines::law_bounded(s, fields_bytes(fields));
    if fields.len() == 0 {
        assert(s.event == name_of(fields));
        assert(s.data == payload_of(fields));
    } else {
        let front = fields.drop_last();
        let field = fields.last();
        let line = field.written();
        assert forall|i: int| 0 <= i < front.len() implies (#[trigger] front[i]).wf() by {
            assert(front[i] == fields[i]);
        }
        assert(fields[fields.len() - 1].wf());
        lemma_fields(s, front);
        let (here, times) = s.feed(fields_bytes(front));
        lemma_written(field);
        lemma_known(field);
        crate::lines::law_split(s, fields_bytes(front), line.push(LF));
        crate::lines::law_line(here, line);
        assert(times + crate::lines::as_outputs(here.read_line(line).1) == times_of(fields));
    }
}

/// The lines of an event, one of which is too long.
proof fn lemma_fields_too_large(s: DecoderView, fields: Seq<FieldLine>)
    requires
        s.between_events(),
        writable(fields),
        exceeds(s.limit, fields),
    ensures
        ({
            let (here, outputs) = s.feed(fields_bytes(fields));
            &&& here == (DecoderView { discarding: true, ..s })
            &&& here.wf()
            &&& outputs == times_of(fitting(s.limit, fields)).push(Output::TooLarge)
            &&& outputs.len() > 0
            &&& outputs.last() == Output::TooLarge
            &&& forall|i: int|
                0 <= i < outputs.len() - 1 ==> (#[trigger] outputs[i] matches Output::Event(
                    SseEventView::Retry(_),
                ))
        }),
    decreases fields.len(),
{
    crate::lines::law_bounded(s, fields_bytes(fields));
    let front = fields.drop_last();
    let field = fields.last();
    let line = field.written();
    assert forall|i: int| 0 <= i < front.len() implies (#[trigger] front[i]).wf() by {
        assert(front[i] == fields[i]);
    }
    assert(fields[fields.len() - 1].wf());
    lemma_written(field);
    lemma_known(field);
    crate::lines::law_split(s, fields_bytes(front), line.push(LF));
    let (here, times) = s.feed(fields_bytes(front));
    assert(fitting(s.limit, fields) == fitting(s.limit, front));
    if exceeds(s.limit, front) {
        lemma_fields_too_large(s, front);
        crate::lines::law_line(here, line);
        assert(s.feed(fields_bytes(fields)).1 == times);
    } else {
        lemma_fields(s, front);
        lemma_times(front);
        assert(fitting(s.limit, front) == front);
        crate::lines::law_line(here, line);
        assert(s.event == Seq::<u8>::empty());
        assert(s.data == Seq::<u8>::empty());
        assert(here.dropped() == (DecoderView { discarding: true, ..s }));
        let outputs = s.feed(fields_bytes(fields)).1;
        assert(outputs == times.push(Output::TooLarge));
    }
}

/// Reconnection times are all that lines yield.
proof fn lemma_times(fields: Seq<FieldLine>)
    ensures
        forall|i: int|
            0 <= i < times_of(fields).len() ==> (#[trigger] times_of(fields)[i]
                matches Output::Event(SseEventView::Retry(_))),
    decreases fields.len(),
{
    if fields.len() > 0 {
        lemma_times(fields.drop_last());
    }
}

} // verus!
