//! How long the texts of a message are.

use vstd::prelude::*;

use crate::event::{MessageView, SseEventView};
use crate::grammar::{DecoderView, Output, ValueMode, COLON, LF};

verus! {

/// Whether a text has no more than `limit` bytes.
pub open spec fn text_fits(text: Seq<char>, limit: nat) -> bool {
    vstd::utf8::encode_utf8(text).len() <= limit
}

/// Whether the payload, the name and the ID of a message have no more than
/// `limit` bytes each. A message that the server did not name is exempt: its name
/// is `message`.
pub open spec fn message_fits(message: MessageView, limit: nat) -> bool {
    &&& text_fits(message.data, limit)
    &&& message.event == "message"@ || text_fits(message.event, limit)
    &&& message.last_event_id matches Some(id) ==> text_fits(id, limit)
}

/// No message of a valid stream exceeds the limit that the decoder was made with.
pub proof fn law_message_sizes(limit: nat, bytes: Seq<u8>, i: int)
    requires
        limit > 0,
        vstd::utf8::valid_utf8(bytes),
        0 <= i < DecoderView::fresh(limit, None).feed(bytes).1.len(),
        DecoderView::fresh(limit, None).feed(bytes).1[i] matches Output::Event(
            SseEventView::Message(_),
        ),
    ensures
        message_fits(DecoderView::fresh(limit, None).feed(bytes).1[i]->Event_0->Message_0, limit),
{
    let fresh = DecoderView::fresh(limit, None);
    let begun = fresh.at(crate::grammar::line_start());
    let mark = crate::grammar::byte_order_mark();
    if bytes.len() == 0 {
    } else if bytes[0] != mark[0] {
        crate::laws::law_byte_order_mark(limit, None, bytes);
        lemma_message_sizes(begun, bytes, i);
    } else if bytes.len() >= 3 && bytes.take(3) == mark {
        let rest = bytes.skip(3);
        assert(bytes == mark + rest);
        crate::laws::law_byte_order_mark(limit, None, rest);
        assert(vstd::utf8::pop_first_scalar(bytes) == rest);
        lemma_message_sizes(begun, rest, i);
    } else {
        let n = crate::ids::line_len(bytes) as int;
        crate::ids::lemma_line_len(bytes);
        if n == bytes.len() {
            assert(bytes.take(n) == bytes);
            lemma_silent_line(fresh, bytes, i);
        } else {
            let line = bytes.take(n);
            let e = bytes[n];
            let rest = bytes.skip(n + 1);
            let then = begun.at(crate::grammar::after_eol(e));
            crate::ids::lemma_cut(bytes);
            lemma_utf8_cut(bytes, n);
            assert(n >= 3 ==> line.take(3) == bytes.take(3));
            crate::ids::lemma_spoilt_start(limit, None, line, e);
            crate::lines::law_split(fresh, line.push(e), rest);
            assert(fresh.feed(bytes).1 == then.feed(rest).1);
            lemma_message_sizes(then, rest, i);
        }
    }
}

/// Whether what has been read of an event is valid, and no ID exceeds the limit.
spec fn sound(s: DecoderView) -> bool {
    &&& vstd::utf8::valid_utf8(s.data)
    &&& vstd::utf8::valid_utf8(s.event)
    &&& s.staged_id matches Some(id) ==> text_fits(id, s.limit)
    &&& s.last_event_id matches Some(id) ==> text_fits(id, s.limit)
}

/// The same from the start of a line, whose message may have begun before.
proof fn lemma_message_sizes(s: DecoderView, bytes: Seq<u8>, i: int)
    requires
        s.wf(),
        s.mode == crate::grammar::line_start() || s.mode is PostCr,
        sound(s),
        vstd::utf8::valid_utf8(bytes),
        0 <= i < s.feed(bytes).1.len(),
        s.feed(bytes).1[i] matches Output::Event(SseEventView::Message(_)),
    ensures
        message_fits(s.feed(bytes).1[i]->Event_0->Message_0, s.limit),
    decreases bytes.len(),
{
    let n = crate::ids::line_len(bytes) as int;
    crate::ids::lemma_line_len(bytes);
    if n == bytes.len() {
        assert(bytes.take(n) == bytes);
        lemma_silent_line(s, bytes, i);
    } else {
        let line = bytes.take(n);
        let e = bytes[n];
        let rest = bytes.skip(n + 1);
        let begun = s.at(crate::grammar::line_start());
        let (then, outputs) = s.feed(line.push(e));
        let later = then.feed(rest).1;
        crate::ids::lemma_cut(bytes);
        lemma_utf8_cut(bytes, n);
        crate::ids::lemma_any_line(s, line, e);
        lemma_sound_line(begun, line);
        crate::lines::law_split(s, line.push(e), rest);
        assert(s.feed(bytes).1 == outputs + later);
        if i < outputs.len() {
            assert(s.feed(bytes).1[i] == outputs[i]);
        } else {
            assert(s.feed(bytes).1[i] == later[i - outputs.len()]);
            lemma_message_sizes(then, rest, i - outputs.len());
        }
    }
}

/// A valid line keeps a decoder sound, and the message that it may complete does
/// not exceed the limit.
proof fn lemma_sound_line(s: DecoderView, line: Seq<u8>)
    requires
        s.wf(),
        s.mode == crate::grammar::line_start(),
        sound(s),
        vstd::utf8::valid_utf8(line),
        crate::lines::is_line(line),
    ensures
        sound(s.read_line(line).0),
        s.read_line(line).0.limit == s.limit,
        s.read_line(line).1 matches Some(Output::Event(SseEventView::Message(message)))
            ==> message_fits(message, s.limit),
{
    let value = crate::lines::field_value(line);
    lemma_valid_value(line);
    assert(vstd::utf8::valid_utf8(Seq::<u8>::empty()));
    lemma_lossy(value);
    if line.len() == 0 {
        if s.data.len() > 0 {
            let last = s.data.len() - 1;
            lemma_utf8_cut(s.data, last);
            assert(s.data.take(last) == s.data.drop_last());
            lemma_lossy(s.data.drop_last());
        }
        lemma_lossy(s.event);
    } else if ValueMode::named(crate::lines::field_name(line)) == Some(ValueMode::Data) {
        lemma_valid_push(value);
        vstd::utf8::valid_utf8_concat(s.data, value.push(LF));
    }
}

/// The value of a valid line is valid.
proof fn lemma_valid_value(line: Seq<u8>)
    requires
        vstd::utf8::valid_utf8(line),
    ensures
        vstd::utf8::valid_utf8(crate::lines::field_value(line)),
{
    line.index_of_first_ensures(COLON);
    match line.index_of_first(COLON) {
        Some(i) => {
            let text = line.skip(i + 1);
            lemma_utf8_cut(line, i);
            if text.len() > 0 && text[0] < 0x80 {
                lemma_utf8_cut(text, 0);
            }
        },
        None => {},
    }
}

/// A line feed behind valid text.
proof fn lemma_valid_push(text: Seq<u8>)
    requires
        vstd::utf8::valid_utf8(text),
    ensures
        vstd::utf8::valid_utf8(text.push(LF)),
{
    let end = seq![LF];
    assert(vstd::utf8::pop_first_scalar(end).len() == 0);
    assert((0x0au8 & 0x7f) == 0x0au8) by (bit_vector);
    assert(vstd::utf8::valid_first_scalar(end));
    assert(vstd::utf8::valid_utf8(vstd::utf8::pop_first_scalar(end)));
    assert(vstd::utf8::valid_utf8(end));
    vstd::utf8::valid_utf8_concat(text, end);
    assert(text.push(LF) == text + end);
}

/// Valid text is as long as its bytes.
proof fn lemma_lossy(bytes: Seq<u8>)
    ensures
        vstd::utf8::valid_utf8(bytes) ==> vstd::utf8::encode_utf8(crate::text::lossy_text(bytes))
            == bytes,
{
    if vstd::utf8::valid_utf8(bytes) {
        vstd::utf8::decode_utf8_encode_utf8(bytes);
    }
}

/// Valid text can be cut before and behind an ASCII character.
proof fn lemma_utf8_cut(bytes: Seq<u8>, i: int)
    requires
        vstd::utf8::valid_utf8(bytes),
        0 <= i < bytes.len(),
        bytes[i] < 0x80,
    ensures
        vstd::utf8::valid_utf8(bytes.take(i)),
        vstd::utf8::valid_utf8(bytes.skip(i + 1)),
{
    let back = bytes.skip(i);
    vstd::utf8::is_char_boundary_iff_not_is_continuation_byte(bytes, i);
    vstd::utf8::valid_utf8_split(bytes, i);
    assert(bytes.subrange(0, i) == bytes.take(i));
    assert(bytes.subrange(i, bytes.len() as int) == back);
    assert(vstd::utf8::pop_first_scalar(back) == bytes.skip(i + 1));
}

/// Bytes without the end of a line yield no message.
proof fn lemma_silent_line(s: DecoderView, line: Seq<u8>, i: int)
    requires
        crate::lines::is_line(line),
        0 <= i < s.feed(line).1.len(),
    ensures
        !(s.feed(line).1[i] is Event),
    decreases line.len(),
{
    if line.len() > 0 {
        let (next, output) = s.step(line[0]);
        let rest = line.skip(1);
        crate::ids::lemma_silent_byte(s, line[0]);
        assert forall|j: int| 0 <= j < rest.len() implies !crate::grammar::is_eol(
            #[trigger] rest[j],
        ) by {
            assert(rest[j] == line[j + 1]);
        }
        if output is None {
            lemma_silent_line(next, rest, i);
        } else if i > 0 {
            lemma_silent_line(next, rest, i - 1);
        }
    }
}

/// Whether all of `lines` are payload lines.
pub open spec fn are_payload_lines(lines: Seq<Seq<u8>>) -> bool {
    &&& crate::laws::are_lines(lines)
    &&& forall|i: int|
        0 <= i < lines.len() ==> crate::lines::field_name(#[trigger] lines[i])
            == ValueMode::Data.name()
}

/// What payload lines add to the payload: the value of each, with a line feed
/// behind it.
pub open spec fn payload(lines: Seq<Seq<u8>>) -> Seq<u8>
    decreases lines.len(),
{
    if lines.len() == 0 {
        Seq::empty()
    } else {
        crate::lines::field_value(lines[0]).push(LF) + payload(lines.skip(1))
    }
}

/// A payload within the limit arrives as a message. Any other is reported as too
/// large. The line feeds between the lines count, the last one does not.
pub proof fn law_payload_limit(s: DecoderView, lines: Seq<Seq<u8>>)
    requires
        s.between_events(),
        are_payload_lines(lines),
        lines.len() > 0,
    ensures
        s.feed(crate::laws::lines_bytes(lines).push(LF)) == (
            s,
            seq![
                if payload(lines).len() - 1 <= s.limit {
                    Output::Event(
                        SseEventView::Message(
                            MessageView {
                                event: "message"@,
                                data: crate::text::lossy_text(payload(lines).drop_last()),
                                last_event_id: s.last_event_id,
                            },
                        ),
                    )
                } else {
                    Output::TooLarge
                },
            ],
        ),
{
    let bytes = crate::laws::lines_bytes(lines);
    let blank = Seq::<u8>::empty();
    let (here, outputs) = s.feed(bytes);
    lemma_payload_lines(s, lines);
    assert(s.data + payload(lines) == payload(lines));
    assert(bytes.push(LF) == bytes + blank.push(LF));
    crate::lines::law_split(s, bytes, blank.push(LF));
    crate::lines::law_line(here, blank);
    let (next, last) = here.feed(blank.push(LF));
    assert(next == s) by {
        assert(next.event == s.event);
        assert(next.data == s.data);
    }
    assert(s.feed(bytes.push(LF)).1.len() == 1);
}

/// Payload lines, behind a part of the payload.
proof fn lemma_payload_lines(s: DecoderView, lines: Seq<Seq<u8>>)
    requires
        s.wf(),
        s.mode == crate::grammar::line_start(),
        !s.discarding,
        are_payload_lines(lines),
    ensures
        s.feed(crate::laws::lines_bytes(lines)) == if lines.len() == 0 || s.data.len() + payload(
            lines,
        ).len() <= s.limit + 1 {
            (DecoderView { data: s.data + payload(lines), ..s }, Seq::<Output>::empty())
        } else {
            (s.dropped(), seq![Output::TooLarge])
        },
        s.feed(crate::laws::lines_bytes(lines)).0.wf(),
    decreases lines.len(),
{
    let bytes = crate::laws::lines_bytes(lines);
    crate::lines::law_bounded(s, bytes);
    if lines.len() == 0 {
        assert(s.data + payload(lines) == s.data);
    } else {
        let line = lines[0];
        let rest = lines.skip(1);
        let (next, output) = s.read_line(line);
        assert forall|i: int| 0 <= i < rest.len() implies #[trigger] rest[i] == lines[i + 1] by {}
        assert(are_payload_lines(rest)) by {
            assert forall|i: int| 0 <= i < rest.len() implies (#[trigger] rest[i]).len() > 0
                && crate::lines::is_line(rest[i]) && crate::lines::field_name(rest[i])
                == ValueMode::Data.name() by {
                assert(rest[i] == lines[i + 1]);
            }
        }
        crate::lines::law_line(s, line);
        crate::lines::law_split(s, line.push(LF), crate::laws::lines_bytes(rest));
        let value = crate::lines::field_value(line);
        if s.data.len() + value.len() > s.limit {
            lemma_dropped_lines(next, rest);
            assert(s.feed(bytes).1 == seq![Output::TooLarge]);
        } else {
            lemma_payload_lines(next, rest);
            assert(next.data + payload(rest) == s.data + payload(lines));
            assert(s.feed(bytes).1 == next.feed(crate::laws::lines_bytes(rest)).1);
            if rest.len() == 0 {
                assert(payload(lines) == value.push(LF));
            }
        }
    }
}

/// Lines of an event that is being dropped.
proof fn lemma_dropped_lines(s: DecoderView, lines: Seq<Seq<u8>>)
    requires
        s.wf(),
        s.mode == crate::grammar::line_start(),
        s.discarding,
        crate::laws::are_lines(lines),
    ensures
        s.feed(crate::laws::lines_bytes(lines)) == (s, Seq::<Output>::empty()),
    decreases lines.len(),
{
    if lines.len() > 0 {
        let line = lines[0];
        let rest = lines.skip(1);
        assert forall|i: int| 0 <= i < rest.len() implies (#[trigger] rest[i]).len() > 0
            && crate::lines::is_line(rest[i]) by {
            assert(rest[i] == lines[i + 1]);
        }
        crate::lines::law_line(s, line);
        crate::lines::law_split(s, line.push(LF), crate::laws::lines_bytes(rest));
        lemma_dropped_lines(s, rest);
    }
}

} // verus!
