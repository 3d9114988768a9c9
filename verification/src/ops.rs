//! A cursor over a datagram buffer: values are written (`push`) and read
//! (`pull`) one after the other from the current position.
pub mod in_op;
pub mod out_op;

use vstd::prelude::*;
use crate::wire::{Wire, splice};

verus! {

/// A datagram buffer with the position of the next byte to read or write.
pub struct Packet {
    pub buf: Vec<u8>,
    pub pos: usize,
}

impl Packet {
    /// A packet over `buf`, positioned at its start.
    pub fn new(buf: Vec<u8>) -> (p: Packet)
        ensures
            p.buf@ == buf@,
            p.pos == 0,
    {
        Packet { buf: buf, pos: 0 }
    }

    /// The byte at the current position.
    pub fn ptr(&self) -> (b: &u8)
        requires
            self.pos < self.buf.len(),
        ensures
            *b == self.buf@[self.pos as int],
    {
        &self.buf[self.pos]
    }

    /// Writes the encoding of `data` at the current position and moves past it.
    pub fn push<T: Wire>(&mut self, data: &T)
        requires
            old(self).pos + T::wire_size() <= old(self).buf.len(),
        ensures
            final(self).buf@ == splice(old(self).buf@, old(self).pos as int, data.wire_bytes()),
            final(self).pos == old(self).pos + T::wire_size(),
    {
        let pos = self.pos;
        data.write_at(&mut self.buf, pos);
        self.pos = pos + T::size();
    }

    /// Writes the bytes of `data` at the current position and moves past them.
    pub fn push_slice(&mut self, data: &[u8])
        requires
            old(self).pos + data@.len() <= old(self).buf.len(),
        ensures
            final(self).buf@ == splice(old(self).buf@, old(self).pos as int, data@),
            final(self).pos == old(self).pos + data@.len(),
    {
        let start = self.pos;
        let mut i: usize = 0;
        while i < data.len()
            invariant
                start + data@.len() <= self.buf.len(),
                self.buf.len() == old(self).buf.len(),
                0 <= i <= data@.len(),
                self.buf@ == splice(old(self).buf@, start as int, data@.subrange(0, i as int)),
            decreases data@.len() - i,
        {
            self.buf.set(start + i, data[i]);
            i = i + 1;
            assert(self.buf@ =~= splice(old(self).buf@, start as int, data@.subrange(0, i as int)));
        }
        assert(data@.subrange(0, data@.len() as int) =~= data@);
        self.pos = start + data.len();
    }

    /// Reads the value encoded at the current position and moves past it.
    pub fn pull<T: Wire>(&mut self) -> (v: T)
        requires
            old(self).pos + T::wire_size() <= old(self).buf.len(),
        ensures
            v == T::from_wire_bytes(
                old(self).buf@.subrange(old(self).pos as int, old(self).pos + T::wire_size()),
            ),
            final(self).buf@ == old(self).buf@,
            final(self).pos == old(self).pos + T::wire_size(),
    {
        let pos = self.pos;
        let v = T::read_at(&self.buf, pos);
        self.pos = pos + T::size();
        v
    }

    /// Reads the value encoded at the current position and moves past it,
    /// as `pull` does.
    pub fn peek<T: Wire>(&mut self) -> (v: T)
        requires
            old(self).pos + T::wire_size() <= old(self).buf.len(),
        ensures
            v == T::from_wire_bytes(
                old(self).buf@.subrange(old(self).pos as int, old(self).pos + T::wire_size()),
            ),
            final(self).buf@ == old(self).buf@,
            final(self).pos == old(self).pos + T::wire_size(),
    {
        let pos = self.pos;
        let v = T::read_at(&self.buf, pos);
        self.pos = pos + T::size();
        v
    }

    /// The `bytes` bytes from the current position; moves past them.
    pub fn peek_slice(&mut self, bytes: usize) -> (s: Vec<u8>)
        requires
            old(self).pos + bytes <= old(self).buf.len(),
        ensures
            s@ == old(self).buf@.subrange(old(self).pos as int, old(self).pos + bytes),
            final(self).buf@ == old(self).buf@,
            final(self).pos == old(self).pos + bytes,
    {
        let start = self.pos;
        let mut out: Vec<u8> = Vec::new();
        let mut i: usize = 0;
        while i < bytes
            invariant
                start + bytes <= self.buf.len(),
                self.pos == start,
                0 <= i <= bytes,
                out@ == self.buf@.subrange(start as int, start + i),
            decreases bytes - i,
        {
            out.push(self.buf[start + i]);
            i = i + 1;
            assert(out@ =~= self.buf@.subrange(start as int, start + i));
        }
        self.pos = start + bytes;
        out
    }

    /// Whether a value of type `T` fits between the current position and
    /// `size`, the length of the datagram.
    pub fn has<T: Wire>(&self, size: usize) -> (r: bool)
        requires
            self.pos <= size,
        ensures
            r == (size - self.pos >= T::wire_size()),
    {
        size - self.pos >= T::size()
    }
}

} // verus!
