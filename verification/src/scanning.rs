//! How scans of a byte string fit together.

use vstd::prelude::*;

use crate::grammar::{
    DecoderView, ModeView, Output, Scan, ValueMode, ValueView, LF, MAX_NAME_LEN,
};

verus! {

/// A state that has settled for a byte stays as it is.
pub proof fn lemma_settle_twice(s: DecoderView, b: u8)
    ensures
        s.settle(b).settle(b) == s.settle(b),
{
    assert(ValueMode::Data.name().len() == 4);
    assert(Seq::<u8>::empty() != ValueMode::Data.name());
}

/// Settling for the first byte does not change what a scan finds.
pub proof fn lemma_scan_settled(s: DecoderView, bytes: Seq<u8>, held: nat)
    requires
        bytes.len() > 0,
    ensures
        s.settle(bytes[0]).scan(bytes, held) == s.scan(bytes, held),
{
    lemma_settle_twice(s, bytes[0]);
}

/// A scan that finds nothing has read everything.
pub proof fn lemma_scan_consumes(s: DecoderView, bytes: Seq<u8>, held: nat)
    ensures
        s.scan(bytes, held).consumed <= bytes.len(),
        s.scan(bytes, held).output is None ==> s.scan(bytes, held).consumed == bytes.len(),
        s.scan(bytes, held).output matches Some(Output::TooLarge) ==> s.scan(bytes, held).consumed
            < bytes.len(),
        s.scan(bytes, held).output matches Some(Output::Event(_)) ==> s.scan(bytes, held).consumed
            >= 1,
        s.scan(bytes, held).held <= held + s.scan(bytes, held).consumed,
    decreases bytes.len(),
{
    if bytes.len() > 0 {
        let settled = s.settle(bytes[0]);
        let holds: nat = if settled.mode is Value {
            held + 1
        } else {
            0
        };
        lemma_scan_consumes(settled.accept(bytes[0]).0, bytes.skip(1), holds);
    }
}

/// A scan that finds nothing in `front` goes on behind it.
pub proof fn lemma_scan_append(s: DecoderView, front: Seq<u8>, back: Seq<u8>, held: nat)
    requires
        s.scan(front, held).output is None,
    ensures
        s.scan(front + back, held) == s.scan(front, held).state.scan(
            back,
            s.scan(front, held).held,
        ).behind(front.len()),
    decreases front.len(),
{
    if front.len() == 0 {
        assert(front + back == back);
    } else {
        let settled = s.settle(front[0]);
        let holds: nat = if settled.mode is Value {
            held + 1
        } else {
            0
        };
        assert((front + back)[0] == front[0]);
        assert((front + back).skip(1) == front.skip(1) + back);
        lemma_scan_append(settled.accept(front[0]).0, front.skip(1), back, holds);
    }
}

/// A scan that finds something in `front` does not look behind it.
pub proof fn lemma_scan_prefix(s: DecoderView, front: Seq<u8>, back: Seq<u8>, held: nat)
    requires
        s.scan(front, held).output is Some,
    ensures
        s.scan(front + back, held) == s.scan(front, held),
    decreases front.len(),
{
    let settled = s.settle(front[0]);
    let holds: nat = if settled.mode is Value {
        held + 1
    } else {
        0
    };
    assert((front + back)[0] == front[0]);
    assert((front + back).skip(1) == front.skip(1) + back);
    if !settled.refuses(front[0]) && settled.accept(front[0]).1 is None {
        lemma_scan_prefix(settled.accept(front[0]).0, front.skip(1), back, holds);
    }
}

/// Bytes held before a scan only add to the bytes held behind it.
pub proof fn lemma_scan_held(s: DecoderView, bytes: Seq<u8>, held: nat)
    ensures
        ({
            let without = s.scan(bytes, 0);
            s.scan(bytes, held) == (Scan {
                held: if without.held == without.consumed {
                    held + without.held
                } else {
                    without.held
                },
                ..without
            })
        }),
    decreases bytes.len(),
{
    if bytes.len() > 0 {
        let settled = s.settle(bytes[0]);
        let next = settled.accept(bytes[0]).0;
        if !settled.refuses(bytes[0]) && settled.accept(bytes[0]).1 is None {
            lemma_scan_consumes(next, bytes.skip(1), 0);
            if settled.mode is Value {
                lemma_scan_held(next, bytes.skip(1), 1);
                lemma_scan_held(next, bytes.skip(1), held + 1);
            }
        }
    }
}

/// A scan of one byte.
pub proof fn lemma_scan_byte(s: DecoderView, b: u8, held: nat)
    ensures
        ({
            let settled = s.settle(b);
            let (next, event) = settled.accept(b);
            s.scan(seq![b], held) == if settled.refuses(b) {
                Scan {
                    state: settled.oversized(),
                    consumed: 0,
                    held,
                    output: Some(Output::TooLarge),
                }
            } else {
                Scan {
                    state: next,
                    consumed: 1,
                    held: if settled.mode is Value {
                        held + 1
                    } else {
                        0
                    },
                    output: match event {
                        Some(event) => Some(Output::Event(event)),
                        None => None,
                    },
                }
            }
        }),
{
    assert(seq![b].skip(1).len() == 0);
    assert(seq![b][0] == b);
    reveal_with_fuel(DecoderView::scan, 2);
}

/// A scan that finds nothing in the first `i` bytes goes on to the next one.
pub proof fn lemma_scan_next(s: DecoderView, bytes: Seq<u8>, i: int, held: nat)
    requires
        0 <= i < bytes.len(),
        s.scan(bytes.take(i), held).output is None,
    ensures
        s.scan(bytes.take(i + 1), held) == s.scan(bytes.take(i), held).state.scan(
            seq![bytes[i]],
            s.scan(bytes.take(i), held).held,
        ).behind(i as nat),
{
    assert(bytes.take(i + 1) == bytes.take(i) + seq![bytes[i]]);
    lemma_scan_append(s, bytes.take(i), seq![bytes[i]], held);
}

/// What a scan finds in the first `n` bytes is what it finds in all of them.
pub proof fn lemma_scan_found(s: DecoderView, bytes: Seq<u8>, n: int, held: nat)
    requires
        0 <= n <= bytes.len(),
        s.scan(bytes.take(n), held).output is Some,
    ensures
        s.scan(bytes, held) == s.scan(bytes.take(n), held),
{
    assert(bytes == bytes.take(n) + bytes.skip(n));
    lemma_scan_prefix(s, bytes.take(n), bytes.skip(n), held);
}

/// One byte keeps a decoder's state well-formed.
pub proof fn lemma_accept_wf(s: DecoderView, b: u8)
    requires
        s.wf(),
        s.settle(b) == s,
        !s.refuses(b),
    ensures
        s.accept(b).0.wf(),
        s.accept(b).0.limit == s.limit,
{
    match s.mode {
        ModeView::Value(ValueView::Data) => {
            assert(s.data.push(b).last() == b);
            assert(s.data.push(LF).last() == LF);
        },
        _ => {},
    }
}

/// Settling keeps a decoder's state well-formed.
pub proof fn lemma_settle_wf(s: DecoderView, b: u8)
    requires
        s.wf(),
    ensures
        s.settle(b).wf(),
        s.settle(b).limit == s.limit,
{
}

/// Scanning keeps a decoder's state well-formed.
pub proof fn lemma_scan_wf(s: DecoderView, bytes: Seq<u8>, held: nat)
    requires
        s.wf(),
    ensures
        s.scan(bytes, held).state.wf(),
        s.scan(bytes, held).state.limit == s.limit,
    decreases bytes.len(),
{
    if bytes.len() > 0 {
        let settled = s.settle(bytes[0]);
        let holds: nat = if settled.mode is Value {
            held + 1
        } else {
            0
        };
        lemma_settle_wf(s, bytes[0]);
        lemma_settle_twice(s, bytes[0]);
        if !settled.refuses(bytes[0]) {
            lemma_accept_wf(settled, bytes[0]);
            lemma_scan_wf(settled.accept(bytes[0]).0, bytes.skip(1), holds);
        }
    }
}

/// In a part of a line without effect, nothing happens before the line ends.
pub proof fn lemma_scan_ignored(s: DecoderView, bytes: Seq<u8>, held: nat)
    requires
        s.mode is Ignore,
        forall|i: int| 0 <= i < bytes.len() ==> !crate::grammar::is_eol(#[trigger] bytes[i]),
    ensures
        s.scan(bytes, held).state == s,
        s.scan(bytes, held).output is None,
        bytes.len() > 0 ==> s.scan(bytes, held).held == 0,
    decreases bytes.len(),
{
    if bytes.len() > 0 {
        assert(s.accept(bytes[0]).0 == s);
        assert forall|i: int| 0 <= i < bytes.skip(1).len() implies !crate::grammar::is_eol(
            #[trigger] bytes.skip(1)[i],
        ) by {
            assert(bytes.skip(1)[i] == bytes[i + 1]);
        }
        lemma_scan_ignored(s, bytes.skip(1), 0);
    }
}

/// A field's name grows until it is too long for any known field.
pub proof fn lemma_scan_name(s: DecoderView, name: Seq<u8>, bytes: Seq<u8>, held: nat)
    requires
        s.mode == ModeView::Field(name),
        name.len() <= MAX_NAME_LEN,
        forall|i: int| 0 <= i < bytes.len() ==> !crate::grammar::ends_name(#[trigger] bytes[i]),
    ensures
        s.scan(bytes, held).state == s.at(
            if name.len() + bytes.len() <= MAX_NAME_LEN {
                ModeView::Field(name + bytes)
            } else {
                ModeView::Ignore
            },
        ),
        s.scan(bytes, held).output is None,
        bytes.len() > 0 ==> s.scan(bytes, held).held == 0,
    decreases bytes.len(),
{
    if bytes.len() == 0 {
        assert(name + bytes == name);
    } else {
        assert forall|i: int| 0 <= i < bytes.skip(1).len() implies !crate::grammar::ends_name(
            #[trigger] bytes.skip(1)[i],
        ) by {
            assert(bytes.skip(1)[i] == bytes[i + 1]);
        }
        let next = s.accept(bytes[0]).0;
        assert(s.settle(bytes[0]) == s);
        if name.len() < MAX_NAME_LEN {
            lemma_scan_name(next, name.push(bytes[0]), bytes.skip(1), 0);
            assert(name.push(bytes[0]) + bytes.skip(1) == name + bytes);
        } else {
            lemma_scan_ignored(next, bytes.skip(1), 0);
        }
    }
}

impl ValueView {
    /// Whether the value is limited in length, as all but a reconnection time
    /// are.
    pub open spec fn limited(self) -> bool {
        !(self is Retry)
    }
}

impl DecoderView {
    /// The part of a limited value, or of the payload, that is there already.
    pub open spec fn held_value(self, value: ValueView) -> Seq<u8> {
        match value {
            ValueView::Data => self.data,
            ValueView::Event => self.event,
            ValueView::Id(id) => id,
            ValueView::Retry(_) => Seq::empty(),
        }
    }

    /// The state with more bytes of a limited value.
    pub open spec fn with_value(self, value: ValueView, bytes: Seq<u8>) -> DecoderView {
        match value {
            ValueView::Data => DecoderView { data: self.data + bytes, ..self },
            ValueView::Event => DecoderView { event: self.event + bytes, ..self },
            ValueView::Id(id) => self.at(ModeView::Value(ValueView::Id(id + bytes))),
            ValueView::Retry(_) => self,
        }
    }
}

/// A value grows up to the limit. The first byte beyond it is refused.
pub proof fn lemma_scan_value(s: DecoderView, value: ValueView, bytes: Seq<u8>, held: nat)
    requires
        s.mode == ModeView::Value(value),
        value.limited(),
        forall|i: int| 0 <= i < bytes.len() ==> !crate::grammar::is_eol(#[trigger] bytes[i]),
    ensures
        bytes.len() == 0 || s.held_value(value).len() + bytes.len() <= s.limit ==> {
            &&& s.scan(bytes, held).state == s.with_value(value, bytes)
            &&& s.scan(bytes, held).output is None
            &&& s.scan(bytes, held).held == held + bytes.len()
        },
        bytes.len() > 0 && s.held_value(value).len() + bytes.len() > s.limit ==> {
            &&& s.scan(bytes, held).state == s.oversized()
            &&& s.scan(bytes, held).output == Some(Output::TooLarge)
            &&& s.scan(bytes, held).held == held + s.scan(bytes, held).consumed
        },
    decreases bytes.len(),
{
    if bytes.len() == 0 {
        assert(s.with_value(value, bytes) == s);
    } else {
        assert forall|i: int| 0 <= i < bytes.skip(1).len() implies !crate::grammar::is_eol(
            #[trigger] bytes.skip(1)[i],
        ) by {
            assert(bytes.skip(1)[i] == bytes[i + 1]);
        }
        if !s.refuses(bytes[0]) {
            let next = s.accept(bytes[0]).0;
            let rest = match value {
                ValueView::Id(id) => ValueView::Id(id.push(bytes[0])),
                _ => value,
            };
            lemma_scan_value(next, rest, bytes.skip(1), held + 1);
            assert(seq![bytes[0]] + bytes.skip(1) == bytes);
            assert(s.held_value(value).push(bytes[0]) + bytes.skip(1) == s.held_value(value) + bytes);
            assert(next.with_value(rest, bytes.skip(1)) == s.with_value(value, bytes));
        }
    }
}

/// A scan from behind a value does not count what was held before it.
proof fn lemma_scan_lets_go(s: DecoderView, bytes: Seq<u8>)
    requires
        s.mode == crate::grammar::line_start() || s.mode is PostCr,
        s.scan(bytes, 0).output is Some,
    ensures
        s.scan(bytes, 0).held < s.scan(bytes, 0).consumed,
{
    let settled = s.settle(bytes[0]);
    assert(ValueMode::Data.name().len() == 4);
    assert(!(settled.mode is Value));
    lemma_scan_consumes(settled.accept(bytes[0]).0, bytes.skip(1), 0);
}

/// The bytes that are held when a value is refused lie in one line.
proof fn lemma_scan_held_line(s: DecoderView, bytes: Seq<u8>, held: nat, i: int)
    requires
        s.scan(bytes, held).output == Some(Output::TooLarge),
        0 <= i < s.scan(bytes, held).consumed,
        s.scan(bytes, held).consumed - s.scan(bytes, held).held <= i,
    ensures
        !crate::grammar::is_eol(bytes[i]),
    decreases bytes.len(),
{
    let settled = s.settle(bytes[0]);
    let next = settled.accept(bytes[0]).0;
    let holds: nat = if settled.mode is Value {
        held + 1
    } else {
        0
    };
    lemma_scan_consumes(s, bytes, held);
    if i > 0 {
        lemma_scan_held_line(next, bytes.skip(1), holds, i - 1);
        assert(bytes.skip(1)[i - 1] == bytes[i]);
    } else {
        lemma_scan_consumes(next, bytes.skip(1), holds);
        if crate::grammar::is_eol(bytes[0]) && settled.mode is Value {
            lemma_scan_held(next, bytes.skip(1), holds);
            lemma_scan_lets_go(next, bytes.skip(1));
        }
    }
}

/// In a part of a line without effect, bytes that do not end it make no
/// difference.
pub proof fn lemma_feed_ignored(s: DecoderView, bytes: Seq<u8>, n: int)
    requires
        s.mode is Ignore,
        0 <= n <= bytes.len(),
        forall|i: int| 0 <= i < n ==> !crate::grammar::is_eol(#[trigger] bytes[i]),
    ensures
        s.feed(bytes) == s.feed(bytes.skip(n)),
    decreases n,
{
    if n == 0 {
        assert(bytes.skip(0) == bytes);
    } else {
        assert(s.step(bytes[0]).0 == s);
        assert forall|i: int| 0 <= i < n - 1 implies !crate::grammar::is_eol(
            #[trigger] bytes.skip(1)[i],
        ) by {
            assert(bytes.skip(1)[i] == bytes[i + 1]);
        }
        lemma_feed_ignored(s, bytes.skip(1), n - 1);
        assert(bytes.skip(1).skip(n - 1) == bytes.skip(n));
    }
}

/// What a scan finds is the first thing that the bytes yield, and the bytes
/// behind it yield the rest.
pub proof fn lemma_scan_feed(s: DecoderView, bytes: Seq<u8>, held: nat)
    ensures
        ({
            let found = s.scan(bytes, held);
            let (last, later) = found.state.feed(bytes.skip(found.consumed as int));
            s.feed(bytes) == (
                last,
                match found.output {
                    Some(output) => seq![output] + later,
                    None => later,
                },
            )
        }),
    decreases bytes.len(),
{
    let found = s.scan(bytes, held);
    if bytes.len() == 0 {
        assert(bytes.skip(0) == bytes);
    } else {
        let settled = s.settle(bytes[0]);
        let (next, event) = settled.accept(bytes[0]);
        let holds: nat = if settled.mode is Value {
            held + 1
        } else {
            0
        };
        if settled.refuses(bytes[0]) {
            assert(bytes.skip(0) == bytes);
            assert(found.state.settle(bytes[0]) == found.state);
            assert(found.state.step(bytes[0]) == (found.state.accept(bytes[0]).0, None::<Output>));
        } else if event is None {
            lemma_scan_feed(next, bytes.skip(1), holds);
            lemma_scan_consumes(next, bytes.skip(1), holds);
            let consumed = next.scan(bytes.skip(1), holds).consumed;
            assert(bytes.skip(1).skip(consumed as int) == bytes.skip(1 + consumed as int));
        }
    }
}

/// The bytes that are held when a value is refused make no difference to what
/// follows.
pub proof fn lemma_scan_feed_held(s: DecoderView, bytes: Seq<u8>, read: int)
    requires
        s.scan(bytes, 0).output == Some(Output::TooLarge),
        s.scan(bytes, 0).consumed - s.scan(bytes, 0).held <= read <= s.scan(bytes, 0).consumed,
    ensures
        s.scan(bytes, 0).state.feed(bytes.skip(read)) == s.scan(bytes, 0).state.feed(
            bytes.skip(s.scan(bytes, 0).consumed as int),
        ),
{
    let found = s.scan(bytes, 0);
    let n = found.consumed - read;
    lemma_scan_consumes(s, bytes, 0);
    lemma_scan_refused(s, bytes, 0);
    assert forall|i: int| 0 <= i < n implies !crate::grammar::is_eol(
        #[trigger] bytes.skip(read)[i],
    ) by {
        lemma_scan_held_line(s, bytes, 0, read + i);
    }
    lemma_feed_ignored(found.state, bytes.skip(read), n);
    assert(bytes.skip(read).skip(n) == bytes.skip(found.consumed as int));
}

/// Behind a value that was refused, the rest of its line is ignored.
proof fn lemma_scan_refused(s: DecoderView, bytes: Seq<u8>, held: nat)
    requires
        s.scan(bytes, held).output == Some(Output::TooLarge),
    ensures
        s.scan(bytes, held).state.mode is Ignore,
    decreases bytes.len(),
{
    let settled = s.settle(bytes[0]);
    let holds: nat = if settled.mode is Value {
        held + 1
    } else {
        0
    };
    if !settled.refuses(bytes[0]) {
        lemma_scan_refused(settled.accept(bytes[0]).0, bytes.skip(1), holds);
    }
}

} // verus!
