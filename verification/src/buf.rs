//! Byte buffers with a read cursor.

use bytes::{Buf, Bytes};
use vstd::prelude::*;

verus! {

/// A buffer of bytes that is read from the front.
///
/// The bytes that are still to be read may lie in several pieces of memory;
/// [`chunk`](Self::chunk) hands out the first piece.
pub trait ByteSource {
    /// All the bytes that are still to be read.
    spec fn bytes(&self) -> Seq<u8>;

    /// Whether all of [`bytes`](Self::bytes) lies in one piece.
    spec fn contiguous(&self) -> bool;

    /// Returns the first piece of the bytes that are still to be read. It is
    /// empty only if nothing is left.
    fn chunk(&self) -> (chunk: &[u8])
        ensures
            chunk@.len() <= self.bytes().len(),
            chunk@ == self.bytes().take(chunk@.len() as int),
            chunk@.len() == 0 ==> self.bytes().len() == 0,
            self.contiguous() ==> chunk@ == self.bytes(),
    ;

    /// Marks the first `cnt` bytes as read.
    fn advance(&mut self, cnt: usize)
        requires
            cnt <= old(self).bytes().len(),
        ensures
            final(self).bytes() == old(self).bytes().skip(cnt as int),
            final(self).contiguous() == old(self).contiguous(),
    ;
}

/// Declares `bytes::Bytes`, a shared slice of memory. Nothing is claimed of it.
#[verifier::external_type_specification]
#[verifier::external_body]
pub struct ExBytes(Bytes);

/// The bytes that a [`Bytes`] handle gives access to.
pub uninterp spec fn bytes_content(buf: Bytes) -> Seq<u8>;

/// Calls `<Bytes as Buf>::chunk`, which returns the whole content of the handle
/// as one slice.
#[verifier::external_body]
fn bytes_chunk(buf: &Bytes) -> (chunk: &[u8])
    ensures
        chunk@ == bytes_content(*buf),
{
    Buf::chunk(buf)
}

/// Calls `<Bytes as Buf>::advance`, which moves the start of the handle forward
/// by `cnt` bytes. It panics if `cnt` exceeds the length, which the
/// precondition rules out.
#[verifier::external_body]
fn bytes_advance(buf: &mut Bytes, cnt: usize)
    requires
        cnt <= bytes_content(*old(buf)).len(),
    ensures
        bytes_content(*final(buf)) == bytes_content(*old(buf)).skip(cnt as int),
{
    Buf::advance(buf, cnt)
}

impl ByteSource for Bytes {
    open spec fn bytes(&self) -> Seq<u8> {
        bytes_content(*self)
    }

    open spec fn contiguous(&self) -> bool {
        true
    }

    fn chunk(&self) -> (chunk: &[u8]) {
        bytes_chunk(self)
    }

    fn advance(&mut self, cnt: usize) {
        bytes_advance(self, cnt)
    }
}

impl<'a> ByteSource for &'a [u8] {
    open spec fn bytes(&self) -> Seq<u8> {
        (*self)@
    }

    open spec fn contiguous(&self) -> bool {
        true
    }

    fn chunk(&self) -> (chunk: &[u8]) {
        *self
    }

    fn advance(&mut self, cnt: usize) {
        *self = vstd::slice::slice_subrange(*self, cnt, self.len());
    }
}

} // verus!
