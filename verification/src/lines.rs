//! The event stream format, line by line.
//!
//! [`DecoderView::read_line`] says what a whole line means, and [`law_line`]
//! that this is what its bytes amount to.

use vstd::prelude::*;

use crate::event::SseEventView;
use crate::grammar::{DecoderView, ModeView, Output, ValueMode, ValueView, COLON, LF, NUL, SPACE};

verus! {

/// A line without its end.
pub open spec fn is_line(line: Seq<u8>) -> bool {
    forall|i: int| 0 <= i < line.len() ==> !crate::grammar::is_eol(#[trigger] line[i])
}

/// The name of the field on a line: what stands before the first colon, or the
/// whole line.
pub open spec fn field_name(line: Seq<u8>) -> Seq<u8> {
    match line.index_of_first(COLON) {
        Some(i) => line.take(i),
        None => line,
    }
}

/// The value of the field on a line: what stands behind the first colon, without
/// one leading space.
pub open spec fn field_value(line: Seq<u8>) -> Seq<u8> {
    match line.index_of_first(COLON) {
        Some(i) => without_space(line.skip(i + 1)),
        None => Seq::empty(),
    }
}

/// A text without one leading space.
pub open spec fn without_space(text: Seq<u8>) -> Seq<u8> {
    if text.len() > 0 && text[0] == SPACE {
        text.skip(1)
    } else {
        text
    }
}

/// Whether a text consists of decimal digits.
pub open spec fn all_digits(text: Seq<u8>) -> bool {
    forall|i: int| 0 <= i < text.len() ==> 0x30 <= #[trigger] text[i] <= 0x39
}

/// The number that decimal digits stand for.
pub open spec fn decimal(digits: Seq<u8>) -> int
    decreases digits.len(),
{
    if digits.len() == 0 {
        0
    } else {
        decimal(digits.drop_last()) * 10 + (digits.last() - 0x30)
    }
}

/// The reconnection time that a value stands for: one or more decimal digits,
/// for a number that fits.
pub open spec fn reconnection_time(value: Seq<u8>) -> Option<u32> {
    if value.len() > 0 && all_digits(value) && decimal(value) <= u32::MAX {
        Some(decimal(value) as u32)
    } else {
        None
    }
}

impl DecoderView {
    /// The state at the start of a line, once the current event is to be dropped.
    pub open spec fn dropped(self) -> DecoderView {
        self.oversized().at(crate::grammar::line_start())
    }

    /// What a line does to a decoder that is at the start of it.
    pub open spec fn read_line(self, line: Seq<u8>) -> (DecoderView, Option<Output>) {
        let value = field_value(line);
        if line.len() == 0 {
            if self.discarding {
                (DecoderView { discarding: false, ..self }, None)
            } else {
                let (next, event) = self.dispatch(LF);
                (
                    next,
                    match event {
                        Some(event) => Some(Output::Event(event)),
                        None => None,
                    },
                )
            }
        } else if self.discarding {
            (self, None)
        } else {
            match ValueMode::named(field_name(line)) {
                None => (self, None),
                Some(ValueMode::Data) => if self.data.len() + value.len() > self.limit {
                    (self.dropped(), Some(Output::TooLarge))
                } else {
                    (DecoderView { data: self.data + value.push(LF), ..self }, None)
                },
                Some(ValueMode::Event) => if value.len() > self.limit {
                    (self.dropped(), Some(Output::TooLarge))
                } else {
                    (DecoderView { event: value, ..self }, None)
                },
                Some(ValueMode::Id) => if value.len() > self.limit {
                    (self.dropped(), Some(Output::TooLarge))
                } else if value.contains(NUL) {
                    (self, None)
                } else if value.len() == 0 {
                    (DecoderView { staged_id: None, ..self }, None)
                } else {
                    (
                        DecoderView { staged_id: Some(crate::text::lossy_text(value)), ..self },
                        None,
                    )
                },
                Some(ValueMode::Retry) => (
                    self,
                    match reconnection_time(value) {
                        Some(ms) => Some(Output::Event(SseEventView::Retry(ms))),
                        None => None,
                    },
                ),
            }
        }
    }
}

/// One or no output, as a sequence.
pub open spec fn as_outputs(output: Option<Output>) -> Seq<Output> {
    match output {
        Some(output) => seq![output],
        None => Seq::empty(),
    }
}

/// It makes no difference how a stream is cut into pieces: feeding `front` and
/// then `back` is feeding both at once.
pub proof fn law_split(s: DecoderView, front: Seq<u8>, back: Seq<u8>)
    ensures
        s.feed(front + back) == (
            s.feed(front).0.feed(back).0,
            s.feed(front).1 + s.feed(front).0.feed(back).1,
        ),
    decreases front.len(),
{
    if front.len() == 0 {
        assert(front + back == back);
        assert(s.feed(front).1 + s.feed(back).1 == s.feed(back).1);
    } else {
        let (next, output) = s.step(front[0]);
        assert((front + back)[0] == front[0]);
        assert((front + back).skip(1) == front.skip(1) + back);
        law_split(next, front.skip(1), back);
        assert(s.feed(front + back).1 == s.feed(front).1 + s.feed(front).0.feed(back).1);
    }
}

/// Bytes that yield nothing can be passed over.
pub(crate) proof fn lemma_feed_quiet(s: DecoderView, front: Seq<u8>, back: Seq<u8>)
    requires
        s.scan(front, 0).output is None,
    ensures
        s.feed(front + back) == s.scan(front, 0).state.feed(back),
{
    crate::scanning::lemma_scan_feed(s, front, 0);
    crate::scanning::lemma_scan_consumes(s, front, 0);
    let after = s.scan(front, 0).state;
    assert(front.skip(front.len() as int) == Seq::<u8>::empty());
    law_split(s, front, back);
    assert(s.feed(front) == (after, Seq::<Output>::empty()));
    assert(Seq::<Output>::empty() + after.feed(back).1 == after.feed(back).1);
}

/// What one byte does.
pub(crate) proof fn lemma_feed_byte(s: DecoderView, b: u8)
    ensures
        s.feed(seq![b]) == (s.step(b).0, as_outputs(s.step(b).1)),
{
    assert(seq![b].skip(1).len() == 0);
    assert(seq![b][0] == b);
    reveal_with_fuel(DecoderView::feed, 2);
    assert(s.feed(seq![b]).1 == as_outputs(s.step(b).1));
}

/// The rest of a line that has no effect.
proof fn lemma_ignored_line(s: DecoderView, rest: Seq<u8>)
    requires
        s.mode is Ignore,
        is_line(rest),
    ensures
        s.feed(rest.push(LF)) == (s.at(crate::grammar::line_start()), Seq::<Output>::empty()),
{
    let bytes = rest.push(LF);
    assert forall|i: int| 0 <= i < rest.len() implies !crate::grammar::is_eol(
        #[trigger] bytes[i],
    ) by {
        assert(bytes[i] == rest[i]);
    }
    crate::scanning::lemma_feed_ignored(s, bytes, rest.len() as int);
    assert(bytes.skip(rest.len() as int) == seq![LF]);
    lemma_feed_byte(s, LF);
}

/// The value of a field that is limited in length.
proof fn lemma_value_line(s: DecoderView, value: ValueView, text: Seq<u8>)
    requires
        s.mode == ModeView::Value(value),
        value.limited(),
        is_line(text),
    ensures
        ({
            let grown = s.with_value(value, text);
            s.feed(text.push(LF)) == if s.held_value(value).len() + text.len() > s.limit {
                (s.dropped(), seq![Output::TooLarge])
            } else {
                (grown.end_value(grown.mode->Value_0, LF).0, Seq::empty())
            }
        }),
{
    assert(text.push(LF) == text + seq![LF]);
    crate::scanning::lemma_scan_value(s, value, text, 0);
    if text.len() == 0 || s.held_value(value).len() + text.len() <= s.limit {
        let grown = s.with_value(value, text);
        lemma_feed_quiet(s, text, seq![LF]);
        lemma_feed_byte(grown, LF);
        if s.held_value(value).len() + text.len() > s.limit {
            assert(grown == s);
        }
    } else {
        let found = s.scan(text, 0);
        let n = found.consumed as int;
        crate::scanning::lemma_scan_consumes(s, text, 0);
        crate::scanning::lemma_scan_prefix(s, text, seq![LF], 0);
        crate::scanning::lemma_scan_feed(s, text.push(LF), 0);
        assert(text.push(LF).skip(n) == text.skip(n).push(LF));
        assert forall|i: int| 0 <= i < text.skip(n).len() implies !crate::grammar::is_eol(
            #[trigger] text.skip(n)[i],
        ) by {
            assert(text.skip(n)[i] == text[n + i]);
        }
        lemma_ignored_line(s.oversized(), text.skip(n));
    }
}

/// The number before a reconnection time's next digit.
spec fn number_before(digits: Seq<u8>) -> Option<u32> {
    if digits.len() == 0 {
        None
    } else {
        Some(decimal(digits) as u32)
    }
}

/// More digits never make a smaller number.
proof fn lemma_decimal_grows(front: Seq<u8>, back: Seq<u8>)
    requires
        all_digits(front + back),
    ensures
        0 <= decimal(front) <= decimal(front + back),
    decreases front.len() + back.len(),
{
    if back.len() == 0 {
        assert(front + back == front);
        if front.len() > 0 {
            assert(0x30 <= (front + back)[front.len() - 1]);
            assert(all_digits(front.drop_last() + Seq::<u8>::empty())) by {
                assert forall|i: int| 0 <= i < front.drop_last().len() implies 0x30
                    <= #[trigger] (front.drop_last() + Seq::<u8>::empty())[i] <= 0x39 by {
                    assert((front + back)[i] == front[i]);
                }
            }
            lemma_decimal_grows(front.drop_last(), Seq::empty());
        }
    } else {
        let shorter = front + back.drop_last();
        assert((front + back).drop_last() == shorter);
        assert((front + back).last() == back.last());
        assert(0x30 <= (front + back)[(front + back).len() - 1]);
        assert forall|i: int| 0 <= i < shorter.len() implies 0x30 <= #[trigger] shorter[i]
            <= 0x39 by {
            assert(shorter[i] == (front + back)[i]);
        }
        lemma_decimal_grows(front, back.drop_last());
    }
}

/// The value of a reconnection time, of which `digits` have been read.
proof fn lemma_retry_line(s: DecoderView, digits: Seq<u8>, text: Seq<u8>)
    requires
        all_digits(digits),
        decimal(digits) <= u32::MAX,
        s.mode == ModeView::Value(ValueView::Retry(number_before(digits))),
        is_line(text),
    ensures
        s.feed(text.push(LF)) == (
            s.at(crate::grammar::line_start()),
            as_outputs(
                match reconnection_time(digits + text) {
                    Some(ms) => Some(Output::Event(SseEventView::Retry(ms))),
                    None => None,
                },
            ),
        ),
    decreases text.len(),
{
    lemma_decimal_grows(digits, Seq::empty());
    assert(digits + Seq::<u8>::empty() == digits);
    if text.len() == 0 {
        assert(text.push(LF) == seq![LF]);
        assert(digits + text == digits);
        lemma_feed_byte(s, LF);
    } else {
        let b = text[0];
        let rest = text.skip(1);
        let more = digits.push(b);
        assert(text.push(LF)[0] == b);
        assert(text.push(LF).skip(1) == rest.push(LF));
        assert(more + rest == digits + text);
        assert(more.drop_last() == digits);
        assert forall|i: int| 0 <= i < rest.len() implies !crate::grammar::is_eol(
            #[trigger] rest[i],
        ) by {
            assert(rest[i] == text[i + 1]);
        }
        assert(!crate::grammar::is_eol(b));
        let next = s.step(b).0;
        if crate::grammar::append_digit(number_before(digits), b) is Some {
            assert(all_digits(more));
            lemma_retry_line(next, more, rest);
        } else {
            assert(reconnection_time(digits + text) is None) by {
                if all_digits(digits + text) {
                    assert((digits + text)[digits.len() as int] == b);
                    lemma_decimal_grows(more, rest);
                }
            }
            lemma_ignored_line(next, rest);
            assert(s.feed(text.push(LF)).1 == Seq::<Output>::empty());
        }
    }
}

/// A space behind the colon is passed over.
proof fn lemma_behind_colon(s: DecoderView, field: ValueMode, text: Seq<u8>)
    requires
        s.mode == ModeView::PostColon(field),
        is_line(text),
    ensures
        s.feed(text.push(LF)) == s.at(ModeView::Value(field.begun())).feed(
            without_space(text).push(LF),
        ),
        is_line(without_space(text)),
{
    let begun = s.at(ModeView::Value(field.begun()));
    let bytes = text.push(LF);
    if text.len() > 0 && text[0] == SPACE {
        assert(bytes.skip(1) == text.skip(1).push(LF));
        assert(s.step(SPACE) == (begun, None::<Output>));
    } else {
        assert(s.settle(bytes[0]) == begun);
        assert(s.step(bytes[0]) == begun.step(bytes[0]));
    }
}

/// A line with a colon.
proof fn lemma_line_with_colon(s: DecoderView, line: Seq<u8>, i: int)
    requires
        s.wf(),
        s.mode == crate::grammar::line_start(),
        is_line(line),
        line.index_of_first(COLON) == Some(i),
    ensures
        s.feed(line.push(LF)) == (s.read_line(line).0, as_outputs(s.read_line(line).1)),
{
    line.index_of_first_ensures(COLON);
    let name = line.take(i);
    let text = line.skip(i + 1);
    let value = without_space(text);
    let rest = seq![COLON] + text.push(LF);
    assert(line.push(LF) == name + rest);
    assert forall|j: int| 0 <= j < name.len() implies !crate::grammar::ends_name(
        #[trigger] name[j],
    ) by {
        assert(name[j] == line[j]);
    }
    assert forall|j: int| 0 <= j < text.len() implies !crate::grammar::is_eol(
        #[trigger] text[j],
    ) by {
        assert(text[j] == line[i + 1 + j]);
    }
    crate::scanning::lemma_scan_name(s, Seq::empty(), name, 0);
    assert(Seq::<u8>::empty() + name == name);
    lemma_feed_quiet(s, name, rest);
    let named = s.scan(name, 0).state;
    if name.len() > crate::grammar::MAX_NAME_LEN {
        assert((seq![COLON] + text).push(LF) == rest);
        lemma_ignored_line(named, seq![COLON] + text);
        assert(ValueMode::named(name) is None);
        assert(named.at(crate::grammar::line_start()) == s);
    } else {
        let behind = named.step(COLON).0;
        assert(named.settle(COLON) == named);
        assert(rest[0] == COLON);
        assert(rest.skip(1) == text.push(LF));
        assert(named.feed(rest) == behind.feed(text.push(LF)));
        if s.discarding || ValueMode::named(name) is None {
            lemma_ignored_line(behind, text);
            assert(behind.at(crate::grammar::line_start()) == s);
        } else {
            let field = ValueMode::named(name)->0;
            let begun = behind.at(ModeView::Value(field.begun()));
            lemma_behind_colon(behind, field, text);
            if field is Retry {
                lemma_retry_line(begun, Seq::empty(), value);
                assert(Seq::<u8>::empty() + value == value);
                assert(begun.at(crate::grammar::line_start()) == s);
            } else {
                lemma_value_line(begun, field.begun(), value);
                assert(begun.dropped() == s.dropped());
                assert(Seq::<u8>::empty() + value == value);
                assert((s.data + value).push(LF) == s.data + value.push(LF));
            }
        }
    }
}

/// A line without a colon.
proof fn lemma_line_without_colon(s: DecoderView, line: Seq<u8>)
    requires
        s.wf(),
        s.mode == crate::grammar::line_start(),
        is_line(line),
        line.len() > 0,
        line.index_of_first(COLON) is None,
    ensures
        s.feed(line.push(LF)) == (s.read_line(line).0, as_outputs(s.read_line(line).1)),
{
    line.index_of_first_ensures(COLON);
    assert(line.push(LF) == line + seq![LF]);
    assert forall|j: int| 0 <= j < line.len() implies !crate::grammar::ends_name(
        #[trigger] line[j],
    ) by {
        assert(line.contains(line[j]));
    }
    crate::scanning::lemma_scan_name(s, Seq::empty(), line, 0);
    assert(Seq::<u8>::empty() + line == line);
    lemma_feed_quiet(s, line, seq![LF]);
    let named = s.scan(line, 0).state;
    lemma_feed_byte(named, LF);
    if line.len() > crate::grammar::MAX_NAME_LEN {
        assert(ValueMode::named(line) is None);
    }
    assert(named.at(crate::grammar::line_start()) == s);
    let begun = named.at(ModeView::Value(ValueView::Data));
    assert(begun.dropped() == s.dropped());
    assert(s.data + Seq::<u8>::empty().push(LF) == s.data.push(LF));
    assert(reconnection_time(Seq::empty()) is None);
}

/// A line means what its name and value say, and its bytes amount to that.
pub proof fn law_line(s: DecoderView, line: Seq<u8>)
    requires
        s.wf(),
        s.mode == crate::grammar::line_start(),
        is_line(line),
    ensures
        s.feed(line.push(LF)) == (s.read_line(line).0, as_outputs(s.read_line(line).1)),
        s.read_line(line).0.mode == crate::grammar::line_start(),
        s.read_line(line).0.wf(),
{
    if line.len() == 0 {
        assert(line.push(LF) == seq![LF]);
        lemma_feed_byte(s, LF);
        assert(ValueMode::Data.name().len() == 4);
    } else {
        match line.index_of_first(COLON) {
            Some(i) => lemma_line_with_colon(s, line, i),
            None => lemma_line_without_colon(s, line),
        }
    }
    law_bounded(s, line.push(LF));
}

/// Whatever the bytes, a decoder stays well-formed: its buffers stay within the
/// limit, but for the line feed that ends the payload.
pub proof fn law_bounded(s: DecoderView, bytes: Seq<u8>)
    requires
        s.wf(),
    ensures
        s.feed(bytes).0.wf(),
        s.feed(bytes).0.limit == s.limit,
    decreases bytes.len(),
{
    if bytes.len() > 0 {
        let settled = s.settle(bytes[0]);
        crate::scanning::lemma_settle_wf(s, bytes[0]);
        crate::scanning::lemma_settle_twice(s, bytes[0]);
        if settled.refuses(bytes[0]) {
            crate::scanning::lemma_accept_wf(settled.oversized(), bytes[0]);
        } else {
            crate::scanning::lemma_accept_wf(settled, bytes[0]);
        }
        law_bounded(s.step(bytes[0]).0, bytes.skip(1));
    }
}

} // verus!
