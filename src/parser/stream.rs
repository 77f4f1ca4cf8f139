use vstd::prelude::*;

use super::error::DecodeError;

verus! {

/// A sequential byte source: the bytes it holds, a read position, and whether
/// the source failed right after its last byte instead of ending cleanly.
pub struct ByteStream<'a> {
    bytes: &'a [u8],
    pos: usize,
    failed: bool,
}

impl<'a> ByteStream<'a> {
    /// All bytes of the source, read or not.
    pub closed spec fn data(&self) -> Seq<u8> {
        self.bytes@
    }

    /// How many bytes have been consumed.
    pub closed spec fn position(&self) -> int {
        self.pos as int
    }

    /// Whether reading past the last byte reports a failure rather than the end.
    pub closed spec fn fails_at_end(&self) -> bool {
        self.failed
    }

    pub open spec fn wf(&self) -> bool {
        0 <= self.position() <= self.data().len()
    }

    /// The bytes not yet consumed.
    pub open spec fn rest(&self) -> Seq<u8> {
        self.data().subrange(self.position(), self.data().len() as int)
    }

    /// A source over `bytes` that ends cleanly after them.
    pub fn new(bytes: &'a [u8]) -> (s: Self)
        ensures
            s.wf(),
            s.data() == bytes@,
            s.position() == 0,
            !s.fails_at_end(),
    {
        ByteStream { bytes, pos: 0, failed: false }
    }

    /// A source over `bytes` that fails when read past them.
    pub fn failing_after(bytes: &'a [u8]) -> (s: Self)
        ensures
            s.wf(),
            s.data() == bytes@,
            s.position() == 0,
            s.fails_at_end(),
    {
        ByteStream { bytes, pos: 0, failed: true }
    }

    /// The number of bytes not yet consumed.
    pub fn remaining(&self) -> (n: usize)
        requires
            self.wf(),
        ensures
            n == self.rest().len(),
    {
        self.bytes.len() - self.pos
    }

    /// How many bytes have been consumed.
    pub fn consumed(&self) -> (n: usize)
        requires
            self.wf(),
        ensures
            n == self.position(),
    {
        self.pos
    }

    /// Whether reading past the last byte fails.
    pub fn failed(&self) -> (b: bool)
        ensures
            b == self.fails_at_end(),
    {
        self.failed
    }

    /// The unconsumed byte at index `i` of the rest, without consuming it.
    pub fn peek(&self, i: usize) -> (b: u8)
        requires
            self.wf(),
            i < self.rest().len(),
        ensures
            b == self.rest()[i as int],
    {
        let _len = self.bytes.len();
        self.bytes[self.pos + i]
    }

    /// The next `n` unconsumed bytes, consumed.
    pub fn take(&mut self, n: usize) -> (out: &'a [u8])
        requires
            old(self).wf(),
            n <= old(self).rest().len(),
        ensures
            final(self).wf(),
            out@ == old(self).rest().subrange(0, n as int),
            final(self).data() == old(self).data(),
            final(self).fails_at_end() == old(self).fails_at_end(),
            final(self).position() == old(self).position() + n,
    {
        let start = self.pos;
        let _len = self.bytes.len();
        let out = &self.bytes[start..start + n];
        self.pos = start + n;
        out
    }

    /// The error that a read past the last byte reports, if any.
    pub fn end_error(&self) -> (r: Option<DecodeError>)
        ensures
            r == (if self.fails_at_end() { Some(DecodeError::Io) } else { None::<DecodeError> }),
    {
        if self.failed {
            Some(DecodeError::Io)
        } else {
            None
        }
    }
}

} // verus!
