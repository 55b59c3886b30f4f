//! What holds of decoding as a whole.

use vstd::prelude::*;

use crate::event::SseEventView;
use crate::grammar::{DecoderView, ModeView, Output, ValueMode, ValueView, CR, LF};

verus! {

/// A line may end in a line feed, a carriage return, or both. Behind a carriage
/// return the decoder only remembers to pass over a line feed.
pub proof fn law_line_endings(s: DecoderView, line: Seq<u8>)
    requires
        s.mode == crate::grammar::line_start(),
        crate::lines::is_line(line),
    ensures
        ({
            let (next, outputs) = s.feed(line.push(LF));
            &&& s.feed(line.push(CR).push(LF)) == (next, outputs)
            &&& s.feed(line.push(CR)) == (next.at(ModeView::PostCr), outputs)
            &&& forall|b: u8| b != LF ==> #[trigger] next.at(ModeView::PostCr).step(b) == next.step(b)
        }),
{
    let here = s.feed(line).0;
    let (next, outputs) = s.feed(line.push(LF));
    assert(line.push(LF) == line + seq![LF]);
    assert(line.push(CR) == line + seq![CR]);
    assert(line.push(CR).push(LF) == line.push(CR) + seq![LF]);
    crate::lines::law_split(s, line, seq![LF]);
    crate::lines::law_split(s, line, seq![CR]);
    crate::lines::law_split(s, line.push(CR), seq![LF]);
    crate::lines::lemma_feed_byte(here, LF);
    crate::lines::lemma_feed_byte(here, CR);
    lemma_within_line(s, line);
    lemma_line_end(here);
    lemma_behind_cr(next);
    crate::lines::lemma_feed_byte(next.at(ModeView::PostCr), LF);
    assert(outputs + Seq::<Output>::empty() == outputs);
}

/// A line feed and a carriage return end a line in the same way.
proof fn lemma_line_end(s: DecoderView)
    requires
        s.mode matches ModeView::Bom(n) ==> n < 3,
        !(s.mode is PostCr),
    ensures
        s.step(LF).0.mode == crate::grammar::line_start(),
        s.step(CR) == (s.step(LF).0.at(ModeView::PostCr), s.step(LF).1),
{
    assert(ValueMode::Data.name().len() == 4);
    assert(s.settle(CR) == s.settle(LF));
}

/// Behind a carriage return, a line feed has no effect, and any other byte is
/// the first of a line.
pub(crate) proof fn lemma_behind_cr(s: DecoderView)
    requires
        s.mode == crate::grammar::line_start(),
    ensures
        s.at(ModeView::PostCr).step(LF) == (s, None::<Output>),
        forall|b: u8| b != LF ==> #[trigger] s.at(ModeView::PostCr).step(b) == s.step(b),
{
    assert(ValueMode::Data.name().len() == 4);
    assert(s.at(ModeView::PostCr).at(crate::grammar::line_start()) == s);
    assert forall|b: u8| b != LF implies #[trigger] s.at(ModeView::PostCr).step(b) == s.step(b) by {
        assert(s.settle(b) == s);
        assert(s.at(ModeView::PostCr).settle(b) == s);
    }
}

/// A stream with every line feed replaced by another end of the line.
pub open spec fn with_ends(bytes: Seq<u8>, end: Seq<u8>) -> Seq<u8>
    decreases bytes.len(),
{
    if bytes.len() == 0 {
        bytes
    } else {
        let first = if bytes[0] == LF {
            end
        } else {
            seq![bytes[0]]
        };
        first + with_ends(bytes.skip(1), end)
    }
}

/// It makes no difference whether the lines of a stream end in line feeds, in
/// carriage returns or in both: the stream yields the same events and leaves the
/// same ID behind. A carriage return at the very end is remembered.
pub proof fn law_stream_endings(s: DecoderView, bytes: Seq<u8>)
    requires
        s.wf(),
        !(s.mode is PostCr),
        !bytes.contains(CR),
    ensures
        ({
            let (next, outputs) = s.feed(bytes);
            let (behind_cr, cr_outputs) = s.feed(with_ends(bytes, seq![CR]));
            &&& s.feed(with_ends(bytes, seq![CR, LF])) == (next, outputs)
            &&& cr_outputs == outputs
            &&& behind_cr.last_event_id == next.last_event_id
            &&& behind_cr == if bytes.len() > 0 && bytes.last() == LF {
                next.at(ModeView::PostCr)
            } else {
                next
            }
        }),
{
    lemma_crlf_stream(s, bytes);
    lemma_cr_stream(s, s, bytes);
}

/// A stream of lines that end in a carriage return and a line feed.
proof fn lemma_crlf_stream(s: DecoderView, bytes: Seq<u8>)
    requires
        s.wf(),
        !(s.mode is PostCr),
        !bytes.contains(CR),
    ensures
        s.feed(with_ends(bytes, seq![CR, LF])) == s.feed(bytes),
    decreases bytes.len(),
{
    if bytes.len() > 0 {
        let b = bytes[0];
        let (next, output) = s.step(b);
        let rest = bytes.skip(1);
        let ended = with_ends(rest, seq![CR, LF]);
        assert(b != CR) by {
            assert(bytes.contains(bytes[0]));
        }
        lemma_step_wf(s, b);
        assert(forall|i: int| 0 <= i < rest.len() ==> #[trigger] rest[i] == bytes[i + 1]);
        lemma_crlf_stream(next, rest);
        if b == LF {
            let all = seq![CR, LF] + ended;
            lemma_line_end(s);
            lemma_behind_cr(next);
            assert(all[0] == CR);
            assert(all.skip(1)[0] == LF);
            assert(all.skip(1).skip(1) == ended);
            assert(next.at(ModeView::PostCr).feed(all.skip(1)) == next.feed(ended));
        } else {
            let all = seq![b] + ended;
            assert(all[0] == b);
            assert(all.skip(1) == ended);
        }
    }
}

/// A stream of lines that end in a carriage return. The decoder `t` is where `s`
/// is, or behind a carriage return where `s` is behind a line feed.
proof fn lemma_cr_stream(s: DecoderView, t: DecoderView, bytes: Seq<u8>)
    requires
        s.wf(),
        !(s.mode is PostCr),
        t == s || s.mode == crate::grammar::line_start() && t == s.at(ModeView::PostCr),
        !bytes.contains(CR),
    ensures
        ({
            let (next, outputs) = s.feed(bytes);
            t.feed(with_ends(bytes, seq![CR])) == (
                if bytes.len() == 0 {
                    t
                } else if bytes.last() == LF {
                    next.at(ModeView::PostCr)
                } else {
                    next
                },
                outputs,
            )
        }),
    decreases bytes.len(),
{
    if bytes.len() > 0 {
        let b = bytes[0];
        let c = if b == LF {
            CR
        } else {
            b
        };
        let (next, output) = s.step(b);
        let rest = bytes.skip(1);
        let ended = with_ends(rest, seq![CR]);
        let all = seq![c] + ended;
        assert(b != CR) by {
            assert(bytes.contains(bytes[0]));
        }
        lemma_step_wf(s, b);
        lemma_line_end(s);
        if t != s {
            lemma_behind_cr(s);
        }
        assert(t.step(c) == s.step(c));
        assert(forall|i: int| 0 <= i < rest.len() ==> #[trigger] rest[i] == bytes[i + 1]);
        lemma_cr_stream(next, t.step(c).0, rest);
        assert(with_ends(bytes, seq![CR]) == all);
        assert(all[0] == c);
        assert(all.skip(1) == ended);
        if rest.len() > 0 {
            assert(rest.last() == bytes.last());
        } else {
            assert(bytes.last() == b);
            assert(next.feed(rest).0 == next);
        }
    }
}

/// One byte leaves a decoder well-formed. Only a carriage return leaves it behind
/// one.
proof fn lemma_step_wf(s: DecoderView, b: u8)
    requires
        s.wf(),
    ensures
        s.step(b).0.wf(),
        s.step(b).0.limit == s.limit,
        b != CR ==> !(s.step(b).0.mode is PostCr),
{
    crate::lines::law_bounded(s, seq![b]);
    crate::lines::lemma_feed_byte(s, b);
}

/// Within a line, a decoder neither looks for a byte order mark nor for the line
/// feed behind a carriage return.
proof fn lemma_within_line(s: DecoderView, line: Seq<u8>)
    requires
        !(s.mode is Bom),
        !(s.mode is PostCr),
        crate::lines::is_line(line),
    ensures
        !(s.feed(line).0.mode is Bom),
        !(s.feed(line).0.mode is PostCr),
    decreases line.len(),
{
    if line.len() > 0 {
        assert forall|i: int| 0 <= i < line.skip(1).len() implies !crate::grammar::is_eol(
            #[trigger] line.skip(1)[i],
        ) by {
            assert(line.skip(1)[i] == line[i + 1]);
        }
        lemma_within_line(s.step(line[0]).0, line.skip(1));
    }
}

/// A byte order mark at the start of a stream is passed over, and a stream
/// without one is read from its first byte.
pub proof fn law_byte_order_mark(limit: nat, id: Option<Seq<char>>, bytes: Seq<u8>)
    ensures
        ({
            let fresh = DecoderView::fresh(limit, id);
            let begun = fresh.at(crate::grammar::line_start());
            &&& fresh.feed(crate::grammar::byte_order_mark() + bytes) == begun.feed(bytes)
            &&& bytes.len() > 0 && bytes[0] != crate::grammar::byte_order_mark()[0] ==> fresh.feed(
                bytes,
            ) == begun.feed(bytes)
        }),
{
    let fresh = DecoderView::fresh(limit, id);
    let begun = fresh.at(crate::grammar::line_start());
    let mark = crate::grammar::byte_order_mark();
    let all = mark + bytes;
    assert(all.skip(1).skip(1).skip(1) == bytes);
    assert(all[0] == mark[0]);
    assert(all.skip(1)[0] == mark[1]);
    assert(all.skip(1).skip(1)[0] == mark[2]);
    assert(fresh.step(mark[0]) == (fresh.at(ModeView::Bom(1)), None::<Output>));
    assert(fresh.at(ModeView::Bom(1)).step(mark[1]) == (fresh.at(ModeView::Bom(2)), None::<Output>));
    assert(fresh.at(ModeView::Bom(2)).step(mark[2]) == (begun, None::<Output>));
    assert(fresh.feed(all) == fresh.at(ModeView::Bom(1)).feed(all.skip(1)));
    assert(fresh.at(ModeView::Bom(1)).feed(all.skip(1)) == fresh.at(ModeView::Bom(2)).feed(
        all.skip(1).skip(1),
    ));
    if bytes.len() > 0 && bytes[0] != mark[0] {
        assert(ValueMode::Data.name().len() == 4);
        assert(fresh.settle(bytes[0]) == begun);
        assert(begun.settle(bytes[0]) == begun);
    }
}

/// A comment, or a field that is not known, has no effect.
pub proof fn law_no_effect(s: DecoderView, line: Seq<u8>)
    requires
        s.wf(),
        s.mode == crate::grammar::line_start(),
        crate::lines::is_line(line),
        line.len() > 0,
        ValueMode::named(crate::lines::field_name(line)) is None,
    ensures
        s.feed(line.push(LF)) == (s, Seq::<Output>::empty()),
{
    crate::lines::law_line(s, line);
}

/// A sequence of lines, each with a line feed behind it.
pub open spec fn lines_bytes(lines: Seq<Seq<u8>>) -> Seq<u8>
    decreases lines.len(),
{
    if lines.len() == 0 {
        Seq::empty()
    } else {
        lines[0].push(LF) + lines_bytes(lines.skip(1))
    }
}

/// Whether all of `lines` are lines with something on them.
pub open spec fn are_lines(lines: Seq<Seq<u8>>) -> bool {
    forall|i: int|
        0 <= i < lines.len() ==> (#[trigger] lines[i]).len() > 0 && crate::lines::is_line(lines[i])
}

impl DecoderView {
    /// Between two events: at the start of a line, with nothing of an event read.
    pub open spec fn between_events(self) -> bool {
        &&& self.wf()
        &&& self.mode == crate::grammar::line_start()
        &&& !self.discarding
        &&& self.event.len() == 0
        &&& self.data.len() == 0
        &&& self.staged_id == self.last_event_id
    }
}

/// Whether an output is a reconnection time.
pub open spec fn is_retry(output: Output) -> bool {
    output matches Output::Event(SseEventView::Retry(_))
}

/// Whether `outputs` are reconnection times, up to a last one that says that the
/// event was dropped.
pub open spec fn ends_dropped(outputs: Seq<Output>) -> bool {
    &&& outputs.len() > 0
    &&& outputs.last() == Output::TooLarge
    &&& forall|i: int| 0 <= i < outputs.len() - 1 ==> is_retry(#[trigger] outputs[i])
}

/// The lines of an event, up to the blank line that ends it.
proof fn lemma_event_lines(base: DecoderView, here: DecoderView, lines: Seq<Seq<u8>>)
    requires
        base.between_events(),
        are_lines(lines),
        here.wf(),
        here.mode == crate::grammar::line_start(),
        here.last_event_id == base.last_event_id,
        here.limit == base.limit,
    ensures
        ({
            let (next, outputs) = here.feed(lines_bytes(lines));
            &&& next.wf()
            &&& next.mode == crate::grammar::line_start()
            &&& next.last_event_id == base.last_event_id
            &&& next.limit == base.limit
            &&& here.discarding ==> next.discarding && outputs.len() == 0
            &&& !here.discarding && next.discarding ==> ends_dropped(outputs)
            &&& !next.discarding ==> forall|i: int|
                0 <= i < outputs.len() ==> is_retry(#[trigger] outputs[i])
        }),
    decreases lines.len(),
{
    if lines.len() > 0 {
        let line = lines[0];
        let rest = lines.skip(1);
        let (then, output) = here.read_line(line);
        crate::lines::law_line(here, line);
        crate::lines::law_bounded(here, line.push(LF));
        assert(are_lines(rest)) by {
            assert forall|i: int| 0 <= i < rest.len() implies (#[trigger] rest[i]).len() > 0
                && crate::lines::is_line(rest[i]) by {
                assert(rest[i] == lines[i + 1]);
            }
        }
        lemma_event_lines(base, then, rest);
        crate::lines::law_split(here, line.push(LF), lines_bytes(rest));
        let before = crate::lines::as_outputs(output);
        let after = then.feed(lines_bytes(rest)).1;
        let outputs = before + after;
        assert(here.feed(lines_bytes(lines)).1 == outputs);
        if !here.discarding {
            assert(output is Some ==> is_retry(output->0) || output == Some(Output::TooLarge));
            if then.discarding {
                assert(outputs == before);
            } else {
                assert(output is Some ==> is_retry(output->0));
                if then.feed(lines_bytes(rest)).0.discarding {
                    assert(outputs.last() == after.last());
                }
            }
        }
    }
}

/// An event that exceeds the limit is dropped as a whole, and nothing else is.
/// The notice is the last thing that its bytes yield, no message comes of it,
/// and behind it the decoder is as it was before it. So its ID does not count,
/// and what follows is read as if the event had not been there.
pub proof fn law_oversized_event(s: DecoderView, lines: Seq<Seq<u8>>, after: Seq<u8>)
    requires
        s.between_events(),
        are_lines(lines),
        s.feed(lines_bytes(lines).push(LF)).1.contains(Output::TooLarge),
    ensures
        s.feed(lines_bytes(lines).push(LF)).0 == s,
        ends_dropped(s.feed(lines_bytes(lines).push(LF)).1),
        s.feed(lines_bytes(lines).push(LF) + after) == (
            s.feed(after).0,
            s.feed(lines_bytes(lines).push(LF)).1 + s.feed(after).1,
        ),
{
    let bytes = lines_bytes(lines);
    let (here, outputs) = s.feed(bytes);
    lemma_event_lines(s, s, lines);
    assert(bytes.push(LF) == bytes + Seq::<u8>::empty().push(LF));
    crate::lines::law_split(s, bytes, Seq::<u8>::empty().push(LF));
    crate::lines::law_line(here, Seq::empty());
    let last = crate::lines::as_outputs(here.read_line(Seq::empty()).1);
    assert(s.feed(bytes.push(LF)).1 == outputs + last);
    if !here.discarding {
        let i = choose|i: int|
            0 <= i < (outputs + last).len() && (outputs + last)[i] == Output::TooLarge;
        if i < outputs.len() {
            assert(is_retry(outputs[i]));
        } else {
            assert(last[i - outputs.len()] == Output::TooLarge);
        }
        assert(false);
    }
    assert(outputs + last == outputs);
    assert(s.feed(bytes.push(LF)).0 == s);
    crate::lines::law_split(s, bytes.push(LF), after);
}

/// Whether an ID is one that the decoder had already, or is made of no more bytes
/// than the limit allows.
pub open spec fn id_fits(s: DecoderView, id: Option<Seq<char>>) -> bool {
    ||| id is None
    ||| id == s.staged_id
    ||| id == s.last_event_id
    ||| exists|bytes: Seq<u8>|
        bytes.len() <= s.limit && id == Some(#[trigger] crate::text::lossy_text(bytes))
}

/// The payload, the name and the ID of every message are made of no more bytes
/// than the limit allows.
pub proof fn law_messages_fit(s: DecoderView, bytes: Seq<u8>, i: int)
    requires
        s.wf(),
        0 <= i < s.feed(bytes).1.len(),
        s.feed(bytes).1[i] matches Output::Event(SseEventView::Message(_)),
    ensures
        ({
            let message = s.feed(bytes).1[i]->Event_0->Message_0;
            &&& exists|payload: Seq<u8>|
                payload.len() <= s.limit && message.data == #[trigger] crate::text::lossy_text(
                    payload,
                )
            &&& message.event == "message"@ || exists|name: Seq<u8>|
                0 < name.len() <= s.limit && message.event == #[trigger] crate::text::lossy_text(
                    name,
                )
            &&& id_fits(s, message.last_event_id)
        }),
    decreases bytes.len(),
{
    let (next, output) = s.step(bytes[0]);
    let later = next.feed(bytes.skip(1)).1;
    crate::lines::law_bounded(s, seq![bytes[0]]);
    crate::lines::lemma_feed_byte(s, bytes[0]);
    if output is Some && i == 0 {
        let settled = s.settle(bytes[0]);
        let message = s.feed(bytes).1[i]->Event_0->Message_0;
        crate::scanning::lemma_settle_wf(s, bytes[0]);
        assert(message == settled.message());
        assert(message.data == crate::text::lossy_text(settled.data.drop_last()));
    } else {
        let j = if output is Some {
            i - 1
        } else {
            i
        };
        assert(s.feed(bytes).1[i] == later[j]);
        law_messages_fit(next, bytes.skip(1), j);
        lemma_step_id(s, bytes[0]);
    }
}

/// One byte leaves behind no ID that does not fit.
proof fn lemma_step_id(s: DecoderView, b: u8)
    requires
        s.wf(),
    ensures
        s.step(b).0.limit == s.limit,
        id_fits(s, s.step(b).0.staged_id),
        id_fits(s, s.step(b).0.last_event_id),
{
    let settled = s.settle(b);
    crate::scanning::lemma_settle_wf(s, b);
    lemma_step_wf(s, b);
    if let ModeView::Value(ValueView::Id(id)) = settled.mode {
        assert(id.len() <= s.limit);
    }
}

/// What a decoder comes to when it is fed one buffer after another.
pub open spec fn feed_all(s: DecoderView, buffers: Seq<Seq<u8>>) -> (DecoderView, Seq<Output>)
    decreases buffers.len(),
{
    if buffers.len() == 0 {
        (s, Seq::empty())
    } else {
        let (before, outputs) = feed_all(s, buffers.drop_last());
        let (after, more) = before.feed(buffers.last());
        (after, outputs + more)
    }
}

/// The bytes of several buffers.
pub open spec fn all_bytes(buffers: Seq<Seq<u8>>) -> Seq<u8>
    decreases buffers.len(),
{
    if buffers.len() == 0 {
        Seq::empty()
    } else {
        all_bytes(buffers.drop_last()) + buffers.last()
    }
}

/// However a stream is cut into buffers, it yields the same events.
pub proof fn law_buffers(s: DecoderView, buffers: Seq<Seq<u8>>)
    ensures
        feed_all(s, buffers) == s.feed(all_bytes(buffers)),
    decreases buffers.len(),
{
    if buffers.len() > 0 {
        law_buffers(s, buffers.drop_last());
        crate::lines::law_split(s, all_bytes(buffers.drop_last()), buffers.last());
    }
}

} // verus!
