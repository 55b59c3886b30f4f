//! Fields and their names.

use vstd::prelude::*;

use crate::grammar::{ValueMode, MAX_NAME_LEN};

verus! {

/// The bytes of a field's name that have been read so far.
#[derive(Debug, Clone, Copy)]
pub struct FieldMode {
    len: u8,
    buf: [u8; 5],
}

impl View for FieldMode {
    type V = Seq<u8>;

    closed spec fn view(&self) -> Seq<u8> {
        self.buf@.take(self.len as int)
    }
}

impl FieldMode {
    /// The length is within the buffer.
    pub closed spec fn wf(self) -> bool {
        self.len <= MAX_NAME_LEN
    }

    /// An empty name.
    pub fn new() -> (field: Self)
        ensures
            field.wf(),
            field@ == Seq::<u8>::empty(),
    {
        FieldMode { len: 0, buf: [0; 5] }
    }

    /// Appends `src`, unless the name would become longer than that of any
    /// known field. Returns whether it did.
    pub fn try_extend(&mut self, src: &[u8]) -> (fits: bool)
        requires
            old(self).wf(),
        ensures
            final(self).wf(),
            fits == (old(self)@.len() + src@.len() <= MAX_NAME_LEN),
            final(self)@ == if fits {
                old(self)@ + src@
            } else {
                old(self)@
            },
    {
        let start: usize = self.len as usize;
        if src.len() > MAX_NAME_LEN - start {
            return false;
        }
        let mut i: usize = 0;
        while i < src.len()
            invariant
                self.len == old(self).len,
                self.len == start,
                start + src@.len() <= MAX_NAME_LEN,
                i <= src@.len(),
                self.buf@.take(start + i) == old(self).buf@.take(start as int) + src@.take(
                    i as int,
                ),
            decreases src@.len() - i,
        {
            let ghost before = self.buf@;
            self.buf[start + i] = src[i];
            assert(self.buf@.take(start + i + 1) == before.take(start + i).push(src@[i as int]));
            assert(src@.take(i + 1) == src@.take(i as int).push(src@[i as int]));
            i = i + 1;
        }
        self.len = self.len + src.len() as u8;
        assert(src@.take(src@.len() as int) == src@);
        true
    }

    /// The bytes of the name.
    pub fn as_slice(&self) -> (name: &[u8])
        requires
            self.wf(),
        ensures
            name@ == self@,
    {
        vstd::slice::slice_subrange(self.buf.as_slice(), 0, self.len as usize)
    }
}

/// The known field that has the given name.
pub(crate) fn field_named(name: &[u8]) -> (field: Option<ValueMode>)
    ensures
        field == ValueMode::named(name@),
{
    if name.len() == 4 && name[0] == 0x64 && name[1] == 0x61 && name[2] == 0x74 && name[3] == 0x61 {
        assert(name@ == ValueMode::Data.name());
        Some(ValueMode::Data)
    } else if name.len() == 5 && name[0] == 0x65 && name[1] == 0x76 && name[2] == 0x65 && name[3]
        == 0x6e && name[4] == 0x74 {
        assert(name@ == ValueMode::Event.name());
        assert(name@.len() != ValueMode::Data.name().len());
        Some(ValueMode::Event)
    } else if name.len() == 5 && name[0] == 0x72 && name[1] == 0x65 && name[2] == 0x74 && name[3]
        == 0x72 && name[4] == 0x79 {
        assert(name@ == ValueMode::Retry.name());
        assert(name@.len() != ValueMode::Data.name().len());
        assert(name@[0] != ValueMode::Event.name()[0]);
        Some(ValueMode::Retry)
    } else if name.len() == 2 && name[0] == 0x69 && name[1] == 0x64 {
        assert(name@ == ValueMode::Id.name());
        assert(name@.len() != ValueMode::Data.name().len());
        assert(name@.len() != ValueMode::Event.name().len());
        assert(name@.len() != ValueMode::Retry.name().len());
        Some(ValueMode::Id)
    } else {
        None
    }
}

} // verus!
