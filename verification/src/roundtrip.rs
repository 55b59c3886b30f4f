//! A message that is written out as an event stream is read back.

use vstd::prelude::*;

use crate::event::{MessageView, SseEventView};
use crate::grammar::{DecoderView, Output, ValueMode, COLON, CR, LF, NUL, SPACE};

verus! {

/// A field with its value, as a line.
pub open spec fn field_line(field: ValueMode, value: Seq<u8>) -> Seq<u8> {
    field.name() + seq![COLON, SPACE] + value
}

/// A text that fits on a line.
pub open spec fn is_text_line(text: Seq<char>) -> bool {
    !text.contains('\r') && !text.contains('\n')
}

/// Lines of text, with a line feed between any two.
pub open spec fn joined(lines: Seq<Seq<char>>) -> Seq<char>
    decreases lines.len(),
{
    if lines.len() == 0 {
        Seq::empty()
    } else if lines.len() == 1 {
        lines[0]
    } else {
        lines[0] + seq!['\n'] + joined(lines.skip(1))
    }
}

/// Lines of text, each written out as a payload line.
pub open spec fn data_lines(lines: Seq<Seq<char>>) -> Seq<u8>
    decreases lines.len(),
{
    if lines.len() == 0 {
        Seq::empty()
    } else {
        field_line(ValueMode::Data, vstd::utf8::encode_utf8(lines[0])).push(LF) + data_lines(
            lines.skip(1),
        )
    }
}

/// A field that may be missing, written out as a line.
pub open spec fn optional_line(field: ValueMode, value: Option<Seq<char>>) -> Seq<u8> {
    match value {
        Some(value) => field_line(field, vstd::utf8::encode_utf8(value)).push(LF),
        None => Seq::empty(),
    }
}

/// A message, written out as an event.
pub open spec fn message_bytes(
    event: Option<Seq<char>>,
    id: Option<Seq<char>>,
    lines: Seq<Seq<char>>,
) -> Seq<u8> {
    optional_line(ValueMode::Event, event) + optional_line(ValueMode::Id, id) + data_lines(
        lines,
    ).push(LF)
}

/// Whether a text can be the value of a field, where the limit is `limit`.
pub open spec fn is_field_text(text: Seq<char>, limit: nat) -> bool {
    &&& text.len() > 0
    &&& is_text_line(text)
    &&& vstd::utf8::encode_utf8(text).len() <= limit
}

/// In UTF-8, an ASCII byte stands for its character and for nothing else.
proof fn lemma_ascii_byte(text: Seq<char>, i: int)
    requires
        0 <= i < vstd::utf8::encode_utf8(text).len(),
        vstd::utf8::encode_utf8(text)[i] < 0x80,
    ensures
        text.contains(vstd::utf8::encode_utf8(text)[i] as char),
    decreases text.len(),
{
    let bytes = vstd::utf8::encode_utf8(text);
    let c = text[0] as u32;
    let first = vstd::utf8::encode_scalar(c);
    let rest = text.drop_first();
    if i < first.len() {
        assert(bytes[i] == first[i]);
        vstd::utf8::char_is_scalar(text[0]);
        assert(vstd::utf8::has_width_1_encoding(c) ==> vstd::utf8::leading_byte_width_1(c) == c)
            by (bit_vector);
        assert(vstd::utf8::leading_byte_width_2(c) >= 0x80) by (bit_vector);
        assert(vstd::utf8::leading_byte_width_3(c) >= 0x80) by (bit_vector);
        assert(vstd::utf8::leading_byte_width_4(c) >= 0x80) by (bit_vector);
        assert(vstd::utf8::last_continuation_byte(c) >= 0x80) by (bit_vector);
        assert(vstd::utf8::second_last_continuation_byte(c) >= 0x80) by (bit_vector);
        assert(vstd::utf8::third_last_continuation_byte(c) >= 0x80) by (bit_vector);
        assert(vstd::utf8::has_width_1_encoding(c));
        assert(first.len() == 1);
        assert(bytes[i] == c);
        vstd::utf8::char_u32_cast(text[0], c);
        assert(bytes[i] as char == c as char);
        assert(text[0] == bytes[i] as char);
    } else {
        assert(bytes[i] == vstd::utf8::encode_utf8(rest)[i - first.len()]);
        lemma_ascii_byte(rest, i - first.len());
        let j = choose|j: int| 0 <= j < rest.len() && rest[j] == bytes[i] as char;
        assert(text[j + 1] == bytes[i] as char);
    }
}

/// A text that fits on a line does so in UTF-8.
proof fn lemma_encoded_line(text: Seq<char>)
    requires
        is_text_line(text),
    ensures
        crate::lines::is_line(vstd::utf8::encode_utf8(text)),
        !text.contains('\0') ==> !vstd::utf8::encode_utf8(text).contains(NUL),
        text.len() > 0 ==> vstd::utf8::encode_utf8(text).len() > 0,
{
    let bytes = vstd::utf8::encode_utf8(text);
    assert forall|i: int| 0 <= i < bytes.len() implies !crate::grammar::is_eol(
        #[trigger] bytes[i],
    ) by {
        if bytes[i] == CR || bytes[i] == LF {
            lemma_ascii_byte(text, i);
        }
    }
    if bytes.contains(NUL) {
        let i = choose|i: int| 0 <= i < bytes.len() && bytes[i] == NUL;
        lemma_ascii_byte(text, i);
    }
}

/// UTF-8 goes character by character.
proof fn lemma_encoded_concat(front: Seq<char>, back: Seq<char>)
    ensures
        vstd::utf8::encode_utf8(front + back) == vstd::utf8::encode_utf8(front)
            + vstd::utf8::encode_utf8(back),
    decreases front.len(),
{
    if front.len() == 0 {
        assert(front + back == back);
        assert(vstd::utf8::encode_utf8(front) + vstd::utf8::encode_utf8(back)
            == vstd::utf8::encode_utf8(back));
    } else {
        assert((front + back).drop_first() == front.drop_first() + back);
        lemma_encoded_concat(front.drop_first(), back);
        assert(vstd::utf8::encode_utf8(front + back) == vstd::utf8::encode_utf8(front)
            + vstd::utf8::encode_utf8(back));
    }
}

/// A field's line says what it was made of.
proof fn lemma_field_line(field: ValueMode, value: Seq<u8>)
    requires
        crate::lines::is_line(value),
    ensures
        crate::lines::is_line(field_line(field, value)),
        crate::lines::field_name(field_line(field, value)) == field.name(),
        crate::lines::field_value(field_line(field, value)) == value,
        field_line(field, value).contains(COLON),
        ValueMode::named(field.name()) == Some(field),
{
    let line = field_line(field, value);
    let name = field.name();
    let n = name.len() as int;
    assert(line[n] == COLON);
    assert(forall|i: int| 0 <= i < n ==> !crate::grammar::ends_name(#[trigger] name[i]));
    assert forall|i: int| 0 <= i < line.len() implies !crate::grammar::is_eol(
        #[trigger] line[i],
    ) by {
        if i < n {
            assert(line[i] == name[i]);
        } else if i >= n + 2 {
            assert(line[i] == value[i - n - 2]);
        }
    }
    line.index_of_first_ensures(COLON);
    let i = line.index_of_first(COLON)->0;
    assert(i == n) by {
        if i < n {
            assert(line[i] == name[i]);
        }
    }
    assert(line.take(n) == name);
    assert(line.skip(n + 1) == seq![SPACE] + value);
    assert((seq![SPACE] + value).skip(1) == value);
    assert(ValueMode::Data.name().len() == 4);
    assert(ValueMode::Event.name().len() == 5 && ValueMode::Event.name()[0] == 0x65);
    assert(ValueMode::Retry.name().len() == 5 && ValueMode::Retry.name()[0] == 0x72);
    assert(ValueMode::Id.name().len() == 2);
}

/// Payload lines add to the payload.
proof fn lemma_data_lines(s: DecoderView, lines: Seq<Seq<char>>)
    requires
        s.wf(),
        s.mode == crate::grammar::line_start(),
        !s.discarding,
        lines.len() > 0,
        forall|i: int| 0 <= i < lines.len() ==> is_text_line(#[trigger] lines[i]),
        s.data.len() + vstd::utf8::encode_utf8(joined(lines)).len() <= s.limit,
    ensures
        s.feed(data_lines(lines)) == (
            DecoderView {
                data: s.data + vstd::utf8::encode_utf8(joined(lines)).push(LF),
                ..s
            },
            Seq::<Output>::empty(),
        ),
    decreases lines.len(),
{
    let value = vstd::utf8::encode_utf8(lines[0]);
    let line = field_line(ValueMode::Data, value);
    let rest = lines.skip(1);
    let next = DecoderView { data: s.data + value.push(LF), ..s };
    let whole = vstd::utf8::encode_utf8(joined(lines));
    lemma_encoded_line(lines[0]);
    lemma_field_line(ValueMode::Data, value);
    if lines.len() > 1 {
        let tail = joined(rest);
        lemma_encoded_concat(lines[0] + seq!['\n'], tail);
        lemma_encoded_concat(lines[0], seq!['\n']);
        lemma_encoded_newline();
        assert(whole == value.push(LF) + vstd::utf8::encode_utf8(tail));
    }
    crate::lines::law_line(s, line);
    assert(s.feed(line.push(LF)) == (next, Seq::<Output>::empty()));
    crate::lines::law_split(s, line.push(LF), data_lines(rest));
    if lines.len() == 1 {
        assert(data_lines(rest) == Seq::<u8>::empty());
        assert(line.push(LF) + Seq::<u8>::empty() == line.push(LF));
    } else {
        assert forall|i: int| 0 <= i < rest.len() implies is_text_line(#[trigger] rest[i]) by {
            assert(rest[i] == lines[i + 1]);
        }
        lemma_data_lines(next, rest);
        assert(s.data + whole.push(LF) == next.data + vstd::utf8::encode_utf8(joined(rest)).push(
            LF,
        ));
    }
    assert(Seq::<Output>::empty() + Seq::<Output>::empty() == Seq::<Output>::empty());
}

/// A line feed in UTF-8.
proof fn lemma_encoded_newline()
    ensures
        vstd::utf8::encode_utf8(seq!['\n']) == seq![LF],
{
    assert(vstd::utf8::is_ascii_chars(seq!['\n']));
    vstd::utf8::is_ascii_chars_encode_utf8(seq!['\n']);
    assert(seq!['\n'][0] as u8 == LF);
    assert(vstd::utf8::encode_utf8(seq!['\n']) =~= seq![LF]);
}

/// The optional line of an event's name.
proof fn lemma_event_line(s: DecoderView, event: Option<Seq<char>>)
    requires
        s.between_events(),
        event matches Some(event) ==> is_field_text(event, s.limit),
    ensures
        s.feed(optional_line(ValueMode::Event, event)) == (
            DecoderView {
                event: match event {
                    Some(event) => vstd::utf8::encode_utf8(event),
                    None => Seq::empty(),
                },
                ..s
            },
            Seq::<Output>::empty(),
        ),
{
    if let Some(event) = event {
        let value = vstd::utf8::encode_utf8(event);
        lemma_encoded_line(event);
        lemma_field_line(ValueMode::Event, value);
        crate::lines::law_line(s, field_line(ValueMode::Event, value));
    }
}

/// The optional line of an ID.
proof fn lemma_id_line(s: DecoderView, id: Option<Seq<char>>)
    requires
        s.wf(),
        s.mode == crate::grammar::line_start(),
        !s.discarding,
        id matches Some(id) ==> is_field_text(id, s.limit) && !id.contains('\0'),
    ensures
        s.feed(optional_line(ValueMode::Id, id)) == (
            DecoderView {
                staged_id: match id {
                    Some(id) => Some(id),
                    None => s.staged_id,
                },
                ..s
            },
            Seq::<Output>::empty(),
        ),
{
    if let Some(id) = id {
        let value = vstd::utf8::encode_utf8(id);
        lemma_encoded_line(id);
        lemma_field_line(ValueMode::Id, value);
        crate::lines::law_line(s, field_line(ValueMode::Id, value));
        lemma_text_kept(id);
    }
}

/// Text that is written out in UTF-8 is read back.
proof fn lemma_text_kept(text: Seq<char>)
    ensures
        crate::text::lossy_text(vstd::utf8::encode_utf8(text)) == text,
{
    vstd::utf8::encode_utf8_valid_utf8(text);
    vstd::utf8::encode_utf8_decode_utf8(text);
}

/// A message that is written out is read back: its name, its payload and its ID.
/// Without a name it is called `message`, and without an ID of its own it has the
/// one that was sent last.
pub proof fn law_round_trip(
    s: DecoderView,
    event: Option<Seq<char>>,
    id: Option<Seq<char>>,
    lines: Seq<Seq<char>>,
)
    requires
        s.between_events(),
        event matches Some(event) ==> is_field_text(event, s.limit),
        id matches Some(id) ==> is_field_text(id, s.limit) && !id.contains('\0'),
        lines.len() > 0,
        forall|i: int| 0 <= i < lines.len() ==> is_text_line(#[trigger] lines[i]),
        vstd::utf8::encode_utf8(joined(lines)).len() <= s.limit,
    ensures
        ({
            let sent = match id {
                Some(id) => Some(id),
                None => s.last_event_id,
            };
            s.feed(message_bytes(event, id, lines)) == (
                DecoderView { last_event_id: sent, staged_id: sent, ..s },
                seq![
                    Output::Event(
                        SseEventView::Message(
                            MessageView {
                                event: crate::event::event_name(event),
                                data: joined(lines),
                                last_event_id: sent,
                            },
                        ),
                    ),
                ],
            )
        }),
{
    let none = Seq::<Output>::empty();
    let first = optional_line(ValueMode::Event, event);
    let second = optional_line(ValueMode::Id, id);
    let third = data_lines(lines);
    let payload = vstd::utf8::encode_utf8(joined(lines));
    lemma_event_line(s, event);
    let named = s.feed(first).0;
    crate::lines::law_bounded(s, first);
    lemma_id_line(named, id);
    let staged = named.feed(second).0;
    crate::lines::law_bounded(named, second);
    lemma_data_lines(staged, lines);
    let filled = staged.feed(third).0;
    crate::lines::law_bounded(staged, third);
    let blank = Seq::<u8>::empty();
    crate::lines::law_line(filled, blank);
    assert(third.push(LF) == third + blank.push(LF));
    crate::lines::law_split(staged, third, blank.push(LF));
    crate::lines::law_split(s, first, second);
    crate::lines::law_split(s, first + second, third.push(LF));
    assert(none + none == none);
    assert(filled.data == payload.push(LF));
    assert(filled.data.drop_last() == payload);
    lemma_text_kept(joined(lines));
    if let Some(event) = event {
        lemma_text_kept(event);
        lemma_encoded_line(event);
    }
    let last = filled.feed(blank.push(LF)).1;
    assert(none + last == last);
    assert(filled.feed(blank.push(LF)).0.event == s.event);
    assert(filled.feed(blank.push(LF)).0.data == s.data);
}

/// The ID that a connection starts with counts until the server sends another:
/// the first message has it, if it has none of its own.
pub proof fn law_resumed_id(
    limit: nat,
    id: Option<Seq<char>>,
    event: Option<Seq<char>>,
    lines: Seq<Seq<char>>,
)
    requires
        limit > 0,
        event matches Some(event) ==> is_field_text(event, limit),
        lines.len() > 0,
        forall|i: int| 0 <= i < lines.len() ==> is_text_line(#[trigger] lines[i]),
        vstd::utf8::encode_utf8(joined(lines)).len() <= limit,
    ensures
        ({
            let fresh = DecoderView::fresh(limit, id);
            fresh.feed(message_bytes(event, None, lines)) == (
                fresh.at(crate::grammar::line_start()),
                seq![
                    Output::Event(
                        SseEventView::Message(
                            MessageView {
                                event: crate::event::event_name(event),
                                data: joined(lines),
                                last_event_id: id,
                            },
                        ),
                    ),
                ],
            )
        }),
{
    let begun = DecoderView::fresh(limit, id).at(crate::grammar::line_start());
    let bytes = message_bytes(event, None, lines);
    let data = field_line(ValueMode::Data, vstd::utf8::encode_utf8(lines[0]));
    law_round_trip(begun, event, None, lines);
    crate::laws::law_byte_order_mark(limit, id, bytes);
    assert(data[0] == 0x64);
    assert(data_lines(lines)[0] == data.push(LF)[0]);
    if let Some(event) = event {
        let line = field_line(ValueMode::Event, vstd::utf8::encode_utf8(event));
        assert(line[0] == 0x65);
        assert(bytes[0] == line.push(LF)[0]);
    } else {
        assert(bytes[0] == data_lines(lines).push(LF)[0]);
    }
}

} // verus!
