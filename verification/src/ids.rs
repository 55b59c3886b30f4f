//! Which ID a message has.
//!
//! A stream is cut into lines at every line feed and every carriage return. Where
//! both stand together, there is an empty line between them that has no effect.

use vstd::prelude::*;

use crate::event::{MessageView, SseEventView};
use crate::grammar::{DecoderView, ModeView, Output, ValueMode, COLON, LF, NUL};

verus! {

/// The length of the first line of `bytes`.
pub open spec fn line_len(bytes: Seq<u8>) -> nat
    decreases bytes.len(),
{
    if bytes.len() == 0 || crate::grammar::is_eol(bytes[0]) {
        0
    } else {
        1 + line_len(bytes.skip(1))
    }
}

/// The ID behind a line, if it is `id` before it. An ID with a NUL does not
/// count, and an empty one takes the ID back.
pub open spec fn id_after(id: Option<Seq<char>>, line: Seq<u8>) -> Option<Seq<char>> {
    let value = crate::lines::field_value(line);
    if crate::lines::field_name(line) == ValueMode::Id.name() && !value.contains(NUL) {
        if value.len() == 0 {
            None
        } else {
            Some(crate::text::lossy_text(value))
        }
    } else {
        id
    }
}

/// The ID behind all the lines of `bytes` that have ended, if it is `id` before
/// them: that of the last line that sets one.
pub open spec fn last_id(id: Option<Seq<char>>, bytes: Seq<u8>) -> Option<Seq<char>>
    decreases bytes.len(),
{
    let n = line_len(bytes);
    if n >= bytes.len() {
        id
    } else {
        last_id(id_after(id, bytes.take(n as int)), bytes.skip(n as int + 1))
    }
}

/// A stream without the byte order mark that it may start with.
pub open spec fn without_mark(bytes: Seq<u8>) -> Seq<u8> {
    if bytes.len() >= 3 && bytes.take(3) == crate::grammar::byte_order_mark() {
        bytes.skip(3)
    } else {
        bytes
    }
}

/// Whether the last of `bytes` completes `message`.
pub open spec fn completes(s: DecoderView, bytes: Seq<u8>, message: MessageView) -> bool {
    &&& bytes.len() > 0
    &&& s.feed(bytes.drop_last()).0.step(bytes.last()).1 == Some(
        Output::Event(SseEventView::Message(message)),
    )
}

/// A message has the ID that the server sent last, in the message or before it,
/// or else the one that the connection started with. The decoder has that ID too,
/// once it has handed the message out.
pub proof fn law_message_id(
    limit: nat,
    id: Option<Seq<char>>,
    bytes: Seq<u8>,
    message: MessageView,
)
    requires
        limit > 0,
        completes(DecoderView::fresh(limit, id), bytes, message),
        !DecoderView::fresh(limit, id).feed(bytes).1.contains(Output::TooLarge),
    ensures
        message.last_event_id == last_id(id, without_mark(bytes)),
        DecoderView::fresh(limit, id).feed(bytes).0.last_event_id == message.last_event_id,
{
    let fresh = DecoderView::fresh(limit, id);
    let begun = fresh.at(crate::grammar::line_start());
    let mark = crate::grammar::byte_order_mark();
    let front = bytes.drop_last();
    lemma_silent_byte(fresh.feed(front).0, bytes.last());
    if bytes.len() >= 3 && bytes.take(3) == mark {
        let rest = bytes.skip(3);
        assert(bytes == mark + rest);
        if rest.len() == 0 {
            assert(bytes.last() == mark[2]);
        } else {
            assert(front == mark + rest.drop_last());
            crate::laws::law_byte_order_mark(limit, id, rest);
            crate::laws::law_byte_order_mark(limit, id, rest.drop_last());
            lemma_message_id(begun, rest, message);
        }
    } else if bytes[0] != mark[0] {
        crate::laws::law_byte_order_mark(limit, id, bytes);
        if front.len() > 0 {
            crate::laws::law_byte_order_mark(limit, id, front);
        } else {
            assert(ValueMode::Data.name().len() == 4);
            assert(fresh.settle(bytes[0]) == begun.settle(bytes[0]));
        }
        lemma_message_id(begun, bytes, message);
    } else {
        let n = line_len(bytes) as int;
        lemma_line_len(bytes);
        lemma_cut(bytes);
        let line = bytes.take(n);
        let e = bytes[n];
        let rest = bytes.skip(n + 1);
        let then = begun.at(crate::grammar::after_eol(e));
        assert(n >= 3 ==> line.take(3) == bytes.take(3));
        lemma_spoilt_start(limit, id, line, e);
        crate::lines::law_split(fresh, line.push(e), rest);
        assert(fresh.feed(bytes).1 == then.feed(rest).1);
        if rest.len() == 0 {
            assert(bytes == line.push(e));
            assert(front == line);
            lemma_feed_last(fresh, bytes);
            assert(fresh.feed(bytes).1.last() == Output::Event(SseEventView::Message(message)));
        } else {
            assert(front == line.push(e) + rest.drop_last());
            crate::lines::law_split(fresh, line.push(e), rest.drop_last());
            lemma_message_id(then, rest, message);
            line.index_of_first_ensures(COLON);
            assert(line[0] == mark[0]);
            assert(crate::lines::field_name(line)[0] == mark[0]);
        }
    }
}

/// The same from the start of a line, whose message may have begun before.
proof fn lemma_message_id(s: DecoderView, bytes: Seq<u8>, message: MessageView)
    requires
        s.wf(),
        !s.discarding,
        s.mode == crate::grammar::line_start() || s.mode is PostCr,
        completes(s, bytes, message),
        !s.feed(bytes).1.contains(Output::TooLarge),
    ensures
        message.last_event_id == last_id(s.staged_id, bytes),
        s.feed(bytes).0.last_event_id == message.last_event_id,
    decreases bytes.len(),
{
    let n = line_len(bytes) as int;
    lemma_line_len(bytes);
    lemma_silent_byte(s.feed(bytes.drop_last()).0, bytes.last());
    lemma_cut(bytes);
    let line = bytes.take(n);
    let e = bytes[n];
    let rest = bytes.skip(n + 1);
    let begun = s.at(crate::grammar::line_start());
    let (then, outputs) = s.feed(line.push(e));
    lemma_any_line(s, line, e);
    crate::lines::law_split(s, line.push(e), rest);
    assert(begun.read_line(line).1 != Some(Output::TooLarge)) by {
        if begun.read_line(line).1 == Some(Output::TooLarge) && outputs.len() > 0 {
            assert((outputs + then.feed(rest).1)[0] == Output::TooLarge);
        }
    }
    lemma_id_line(begun, line);
    assert(!then.discarding);
    assert(then.staged_id == id_after(s.staged_id, line));
    if rest.len() == 0 {
        assert(bytes == line.push(e));
        assert(bytes.drop_last() == line);
        lemma_feed_last(s, bytes);
        assert(outputs.last() == Output::Event(SseEventView::Message(message)));
        assert(last_id(then.staged_id, rest) == then.staged_id);
    } else {
        assert(bytes.drop_last() == line.push(e) + rest.drop_last());
        crate::lines::law_split(s, line.push(e), rest.drop_last());
        lemma_none_later(outputs, then.feed(rest).1);
        lemma_message_id(then, rest, message);
    }
}

/// What is not among several outputs is not among the last of them.
proof fn lemma_none_later(outputs: Seq<Output>, later: Seq<Output>)
    requires
        !(outputs + later).contains(Output::TooLarge),
    ensures
        !later.contains(Output::TooLarge),
{
    if later.contains(Output::TooLarge) {
        let i = choose|i: int| 0 <= i < later.len() && later[i] == Output::TooLarge;
        assert((outputs + later)[outputs.len() + i] == Output::TooLarge);
    }
}

/// What a line that fits does to the ID, and which ID the message has that it
/// may complete.
proof fn lemma_id_line(s: DecoderView, line: Seq<u8>)
    requires
        !s.discarding,
        s.read_line(line).1 != Some(Output::TooLarge),
    ensures
        !s.read_line(line).0.discarding,
        s.read_line(line).0.staged_id == id_after(s.staged_id, line),
        s.read_line(line).1 matches Some(Output::Event(SseEventView::Message(message))) ==> {
            &&& message.last_event_id == s.staged_id
            &&& s.read_line(line).0.last_event_id == s.staged_id
            &&& id_after(s.staged_id, line) == s.staged_id
        },
{
    assert(ValueMode::Id.name().len() == 2);
    if line.len() == 0 {
        line.index_of_first_ensures(COLON);
        assert(crate::lines::field_name(line).len() == 0);
    }
}

/// The first line of some bytes holds no end of a line, and one follows it.
pub(crate) proof fn lemma_line_len(bytes: Seq<u8>)
    ensures
        line_len(bytes) <= bytes.len(),
        crate::lines::is_line(bytes.take(line_len(bytes) as int)),
        line_len(bytes) < bytes.len() ==> crate::grammar::is_eol(bytes[line_len(bytes) as int]),
        line_len(bytes) == bytes.len() && bytes.len() > 0 ==> !crate::grammar::is_eol(
            bytes.last(),
        ),
    decreases bytes.len(),
{
    if bytes.len() > 0 && !crate::grammar::is_eol(bytes[0]) {
        let n = line_len(bytes) as int;
        let rest = bytes.skip(1);
        lemma_line_len(rest);
        assert forall|i: int| 0 <= i < bytes.take(n).len() implies !crate::grammar::is_eol(
            #[trigger] bytes.take(n)[i],
        ) by {
            if i > 0 {
                assert(bytes.take(n)[i] == rest.take(n - 1)[i - 1]);
            }
        }
    }
}

/// Bytes with the end of a line among them are the first line, its end, and the
/// rest.
pub(crate) proof fn lemma_cut(bytes: Seq<u8>)
    requires
        line_len(bytes) < bytes.len(),
    ensures
        ({
            let n = line_len(bytes) as int;
            bytes == bytes.take(n).push(bytes[n]) + bytes.skip(n + 1)
        }),
{
}

/// What the last of some bytes adds to what they yield.
proof fn lemma_feed_last(s: DecoderView, bytes: Seq<u8>)
    requires
        bytes.len() > 0,
    ensures
        ({
            let here = s.feed(bytes.drop_last()).0;
            s.feed(bytes) == (
                here.step(bytes.last()).0,
                s.feed(bytes.drop_last()).1 + crate::lines::as_outputs(here.step(bytes.last()).1),
            )
        }),
{
    let front = bytes.drop_last();
    assert(bytes == front + seq![bytes.last()]);
    crate::lines::law_split(s, front, seq![bytes.last()]);
    crate::lines::lemma_feed_byte(s.feed(front).0, bytes.last());
}

/// Only the end of a line yields an event.
pub(crate) proof fn lemma_silent_byte(s: DecoderView, b: u8)
    ensures
        s.step(b).1 matches Some(Output::Event(_)) ==> crate::grammar::is_eol(b),
{
}

/// A line means the same behind a carriage return and whatever ends it, but for
/// the line feed that belongs to a carriage return before it.
pub(crate) proof fn lemma_any_line(s: DecoderView, line: Seq<u8>, e: u8)
    requires
        s.wf(),
        s.mode == crate::grammar::line_start() || s.mode is PostCr,
        crate::lines::is_line(line),
        crate::grammar::is_eol(e),
    ensures
        ({
            let begun = s.at(crate::grammar::line_start());
            let (then, output) = begun.read_line(line);
            if s.mode is PostCr && line.len() == 0 && e == LF {
                s.feed(line.push(e)) == (begun, Seq::<Output>::empty())
            } else {
                s.feed(line.push(e)) == (
                    then.at(crate::grammar::after_eol(e)),
                    crate::lines::as_outputs(output),
                )
            }
        }),
        s.at(crate::grammar::line_start()).wf(),
        s.feed(line.push(e)).0.wf(),
        s.feed(line.push(e)).0.limit == s.limit,
        s.feed(line.push(e)).0.mode == crate::grammar::line_start() || s.feed(
            line.push(e),
        ).0.mode is PostCr,
{
    let begun = s.at(crate::grammar::line_start());
    let all = line.push(e);
    crate::lines::law_line(begun, line);
    crate::laws::law_line_endings(begun, line);
    crate::lines::law_bounded(s, all);
    if s.mode is PostCr {
        assert(begun.at(ModeView::PostCr) == s);
        crate::laws::lemma_behind_cr(begun);
        if all[0] == LF {
            assert(line.len() == 0);
            assert(all == seq![LF]);
            crate::lines::lemma_feed_byte(s, LF);
        } else {
            assert(s.step(all[0]) == begun.step(all[0]));
        }
    } else {
        assert(begun == s);
    }
}

/// A stream that starts like a byte order mark, but not with one, is read from
/// its second line.
pub(crate) proof fn lemma_spoilt_start(limit: nat, id: Option<Seq<char>>, line: Seq<u8>, e: u8)
    requires
        crate::lines::is_line(line),
        crate::grammar::is_eol(e),
        line.len() > 0,
        line[0] == crate::grammar::byte_order_mark()[0],
        line.len() < 3 || line.take(3) != crate::grammar::byte_order_mark(),
    ensures
        DecoderView::fresh(limit, id).feed(line.push(e)) == (
            DecoderView::fresh(limit, id).at(crate::grammar::after_eol(e)),
            Seq::<Output>::empty(),
        ),
{
    let fresh = DecoderView::fresh(limit, id);
    let mark = crate::grammar::byte_order_mark();
    let all = line.push(e);
    let one = fresh.at(ModeView::Bom(1));
    let two = fresh.at(ModeView::Bom(2));
    let ignoring = fresh.at(ModeView::Ignore);
    assert(fresh.step(all[0]) == (one, None::<Output>));
    assert(all.skip(1)[0] == all[1]);
    if all[1] != mark[1] {
        lemma_ignored_rest(one, ignoring, all.skip(1));
    } else {
        assert(one.step(all[1]) == (two, None::<Output>));
        assert(all.skip(1).skip(1) == all.skip(2));
        assert(all.skip(2)[0] == all[2]);
        assert(all[2] != mark[2]) by {
            if all[2] == mark[2] {
                assert(line.take(3) == mark);
            }
        }
        lemma_ignored_rest(two, ignoring, all.skip(2));
        assert(one.feed(all.skip(1)) == two.feed(all.skip(2)));
    }
}

/// The rest of a line that has no effect, from a byte on that `s` settles for by
/// `ignoring` it.
proof fn lemma_ignored_rest(s: DecoderView, ignoring: DecoderView, rest: Seq<u8>)
    requires
        ignoring.mode is Ignore,
        rest.len() > 0,
        s.settle(rest[0]) == ignoring,
        crate::lines::is_line(rest.drop_last()),
        crate::grammar::is_eol(rest.last()),
    ensures
        s.feed(rest) == (
            ignoring.at(crate::grammar::after_eol(rest.last())),
            Seq::<Output>::empty(),
        ),
{
    let n = rest.len() - 1;
    assert forall|i: int| 0 <= i < n implies !crate::grammar::is_eol(#[trigger] rest[i]) by {
        assert(rest[i] == rest.drop_last()[i]);
    }
    assert(ignoring.settle(rest[0]) == ignoring);
    assert(s.step(rest[0]) == ignoring.step(rest[0]));
    assert(s.feed(rest) == ignoring.feed(rest));
    crate::scanning::lemma_feed_ignored(ignoring, rest, n);
    assert(rest.skip(n) == seq![rest.last()]);
    crate::lines::lemma_feed_byte(ignoring, rest.last());
}

} // verus!
