//! The buffers of a decoder that outlive what they were filled for.
//!
//! A decoder keeps the ID and the reconnection time that it has read last until
//! it comes to the next one. They have no effect; they only show when the
//! decoder is debugged.

use vstd::prelude::*;

use crate::grammar::{DecoderView, ModeView, ValueMode, ValueView};

verus! {

/// The ID and the reconnection time that are being read, or that were read last.
#[verifier::ext_equal]
pub struct Scratch {
    /// The bytes of the ID.
    pub id: Seq<u8>,
    /// The number that the digits of the reconnection time stand for, up to the
    /// first one that spoils it.
    pub retry: Option<u32>,
}

impl Scratch {
    /// Nothing was read.
    pub open spec fn empty() -> Scratch {
        Scratch { id: Seq::empty(), retry: None }
    }

    /// The buffers once a value was found to be too long. An ID is dropped.
    pub open spec fn refused(self, s: DecoderView) -> Scratch {
        match s.mode {
            ModeView::Value(ValueView::Id(_)) => Scratch { id: Seq::empty(), ..self },
            _ => self,
        }
    }

    /// What the byte `b` does, in a state that has settled for it and does not
    /// refuse it.
    pub open spec fn after(self, s: DecoderView, b: u8) -> Scratch {
        match s.mode {
            ModeView::Field(name) => if crate::grammar::ends_name(b) && !s.discarding {
                match ValueMode::named(name) {
                    Some(ValueMode::Retry) => Scratch { retry: None, ..self },
                    Some(ValueMode::Id) => Scratch { id: Seq::empty(), ..self },
                    _ => self,
                }
            } else {
                self
            },
            ModeView::Value(ValueView::Retry(_)) => match crate::grammar::append_digit(
                self.retry,
                b,
            ) {
                Some(ms) => Scratch { retry: Some(ms), ..self },
                None => self,
            },
            ModeView::Value(ValueView::Id(_)) => if crate::grammar::is_eol(b) {
                self
            } else {
                Scratch { id: self.id.push(b), ..self }
            },
            _ => self,
        }
    }

    /// What a string of bytes does, up to the first thing that is handed out.
    pub open spec fn scanned(self, s: DecoderView, bytes: Seq<u8>) -> Scratch
        decreases bytes.len(),
    {
        if bytes.len() == 0 {
            self
        } else {
            let settled = s.settle(bytes[0]);
            if settled.refuses(bytes[0]) {
                self.refused(settled)
            } else {
                let then = self.after(settled, bytes[0]);
                let (next, event) = settled.accept(bytes[0]);
                if event is Some {
                    then
                } else {
                    then.scanned(next, bytes.skip(1))
                }
            }
        }
    }

    /// Bytes that yield nothing can be taken by themselves, and what follows the
    /// first thing that is handed out does not count.
    pub(crate) proof fn lemma_scanned_append(self, s: DecoderView, front: Seq<u8>, back: Seq<u8>)
        ensures
            s.scan(front, 0).output is None ==> self.scanned(s, front + back) == self.scanned(
                s,
                front,
            ).scanned(s.scan(front, 0).state, back),
            s.scan(front, 0).output is Some ==> self.scanned(s, front + back) == self.scanned(
                s,
                front,
            ),
        decreases front.len(),
    {
        if front.len() == 0 {
            assert(front + back == back);
        } else {
            let settled = s.settle(front[0]);
            let next = settled.accept(front[0]).0;
            assert((front + back)[0] == front[0]);
            assert((front + back).skip(1) == front.skip(1) + back);
            if !settled.refuses(front[0]) && settled.accept(front[0]).1 is None {
                let holds: nat = if settled.mode is Value {
                    1
                } else {
                    0
                };
                crate::scanning::lemma_scan_held(next, front.skip(1), holds);
                self.after(settled, front[0]).lemma_scanned_append(next, front.skip(1), back);
            }
        }
    }

    /// Settling for the first byte makes no difference.
    pub(crate) proof fn lemma_scanned_settled(self, s: DecoderView, bytes: Seq<u8>)
        requires
            bytes.len() > 0,
        ensures
            self.scanned(s.settle(bytes[0]), bytes) == self.scanned(s, bytes),
    {
        crate::scanning::lemma_settle_twice(s, bytes[0]);
    }

    /// What one more byte does, behind bytes that yield nothing.
    pub(crate) proof fn lemma_scanned_next(self, s: DecoderView, bytes: Seq<u8>, i: int)
        requires
            0 <= i < bytes.len(),
            s.scan(bytes.take(i), 0).output is None,
        ensures
            ({
                let here = self.scanned(s, bytes.take(i));
                let settled = s.scan(bytes.take(i), 0).state.settle(bytes[i]);
                self.scanned(s, bytes.take(i + 1)) == if settled.refuses(bytes[i]) {
                    here.refused(settled)
                } else {
                    here.after(settled, bytes[i])
                }
            }),
    {
        let here = self.scanned(s, bytes.take(i));
        let state = s.scan(bytes.take(i), 0).state;
        let settled = state.settle(bytes[i]);
        let one = seq![bytes[i]];
        assert(bytes.take(i + 1) == bytes.take(i) + one);
        self.lemma_scanned_append(s, bytes.take(i), one);
        assert(one.skip(1).len() == 0);
        assert(here.after(settled, bytes[i]).scanned(settled.accept(bytes[i]).0, one.skip(1))
            == here.after(settled, bytes[i]));
        assert(here.scanned(state, one) == if settled.refuses(bytes[i]) {
            here.refused(settled)
        } else {
            here.after(settled, bytes[i])
        });
    }

    /// A part of a line that has no effect, or a part of a field's name.
    pub(crate) proof fn lemma_scanned_aside(self, s: DecoderView, bytes: Seq<u8>)
        requires
            s.mode is Ignore && (forall|i: int|
                0 <= i < bytes.len() ==> !crate::grammar::is_eol(#[trigger] bytes[i]))
                || s.mode is Field && (forall|i: int|
                0 <= i < bytes.len() ==> !crate::grammar::ends_name(#[trigger] bytes[i])),
        ensures
            self.scanned(s, bytes) == self,
        decreases bytes.len(),
    {
        if bytes.len() > 0 {
            let next = s.settle(bytes[0]).accept(bytes[0]).0;
            assert(forall|i: int|
                0 <= i < bytes.skip(1).len() ==> #[trigger] bytes.skip(1)[i] == bytes[i + 1]);
            assert(s.settle(bytes[0]) == s);
            self.lemma_scanned_aside(next, bytes.skip(1));
        }
    }

    /// A part of a value, other than a reconnection time.
    pub(crate) proof fn lemma_scanned_value(self, s: DecoderView, value: ValueView, bytes: Seq<u8>)
        requires
            s.mode == ModeView::Value(value),
            value.limited(),
            forall|i: int| 0 <= i < bytes.len() ==> !crate::grammar::is_eol(#[trigger] bytes[i]),
        ensures
            !(value is Id) ==> self.scanned(s, bytes) == self,
            value is Id && s.scan(bytes, 0).output is None ==> self.scanned(s, bytes) == (Scratch {
                id: self.id + bytes,
                ..self
            }),
            value is Id && s.scan(bytes, 0).output is Some ==> self.scanned(s, bytes) == (Scratch {
                id: Seq::empty(),
                ..self
            }),
        decreases bytes.len(),
    {
        if bytes.len() == 0 {
            assert(self.id + bytes == self.id);
        } else {
            let b = bytes[0];
            assert(forall|i: int|
                0 <= i < bytes.skip(1).len() ==> #[trigger] bytes.skip(1)[i] == bytes[i + 1]);
            assert(s.settle(b) == s);
            if !s.refuses(b) {
                let next = s.accept(b).0;
                let then = self.after(s, b);
                crate::scanning::lemma_scan_held(next, bytes.skip(1), 1);
                then.lemma_scanned_value(next, next.mode->Value_0, bytes.skip(1));
                assert(self.id.push(b) + bytes.skip(1) == self.id + bytes);
            }
        }
    }
}

/// The buffers hold what was read last. The bytes of an ID are added one by one,
/// the digits of a reconnection time make up a number, the end of the name of
/// either field starts its buffer over, and nothing else touches them.
pub proof fn law_scratch(kept: Scratch, s: DecoderView, b: u8)
    ensures
        ({
            let next = kept.after(s, b);
            let ends = b == 0x3a || b == 0x0a || b == 0x0d;
            let starts_retry = s.mode == ModeView::Field(
                seq![0x72u8, 0x65u8, 0x74u8, 0x72u8, 0x79u8],
            ) && ends && !s.discarding;
            let starts_id = s.mode == ModeView::Field(seq![0x69u8, 0x64u8]) && ends
                && !s.discarding;
            let in_retry = s.mode matches ModeView::Value(ValueView::Retry(_));
            let in_id = s.mode matches ModeView::Value(ValueView::Id(_));
            let digit = 0x30 <= b <= 0x39;
            let number = (match kept.retry {
                Some(ms) => ms as int,
                None => 0,
            }) * 10 + (b - 0x30);
            &&& next.retry == if starts_retry {
                None
            } else if in_retry && digit && number <= 0xffff_ffff {
                Some(number as u32)
            } else {
                kept.retry
            }
            &&& next.id == if starts_id {
                Seq::empty()
            } else if in_id && b != 0x0a && b != 0x0d {
                kept.id.push(b)
            } else {
                kept.id
            }
            &&& kept.refused(s).retry == kept.retry
            &&& kept.refused(s).id == if in_id {
                Seq::empty()
            } else {
                kept.id
            }
        }),
        Scratch::empty().id.len() == 0,
        Scratch::empty().retry is None,
{
    assert(ValueMode::Data.name().len() == 4);
    assert(ValueMode::Event.name().len() == 5);
    assert(ValueMode::Retry.name().len() == 5);
    assert(ValueMode::Id.name().len() == 2);
    assert(ValueMode::Event.name()[0] != ValueMode::Retry.name()[0]);
    assert(ValueMode::Retry.name() == seq![0x72u8, 0x65u8, 0x74u8, 0x72u8, 0x79u8]);
    assert(ValueMode::Id.name() == seq![0x69u8, 0x64u8]);
}

} // verus!
