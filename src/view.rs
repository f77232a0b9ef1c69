use vstd::prelude::*;

use crate::codec::Endian;

verus! {

/// Why a write into a byte sink did not happen.
#[derive(Debug, Clone, Copy, PartialEq, Eq, Structural)]
pub enum WriteError {
    /// The bytes do not fit between the write position and the end of the region.
    RegionTooSmall,
    /// A text value holds a zero byte, which its terminated encoding cannot carry.
    InteriorNul,
}

/// `s` with `data` laid over it from offset `pos` on.
pub open spec fn overlay(s: Seq<u8>, pos: int, data: Seq<u8>) -> Seq<u8> {
    s.subrange(0, pos) + data + s.subrange(pos + data.len(), s.len() as int)
}

/// A fixed-length byte region with a write position: the sink that values are
/// encoded into. Writes never grow the region. The region also carries the
/// byte order of the layout it belongs to, which numeric values are written in.
pub struct ByteView {
    bytes: Vec<u8>,
    pos: usize,
    order: Endian,
}

impl View for ByteView {
    /// The region's bytes, the write position and the byte order.
    type V = (Seq<u8>, nat, Endian);

    closed spec fn view(&self) -> (Seq<u8>, nat, Endian) {
        (self.bytes@, self.pos as nat, self.order)
    }
}

impl ByteView {
    /// A region of `len` zero bytes in byte order `order`, positioned at its start.
    pub fn zeroed(len: usize, order: Endian) -> (r: ByteView)
        ensures
            r@.0 == Seq::new(len as nat, |i: int| 0u8),
            r@.1 == 0,
            r@.2 == order,
    {
        let mut bytes: Vec<u8> = Vec::new();
        let mut i: usize = 0;
        while i < len
            invariant
                i <= len,
                bytes@ == Seq::new(i as nat, |j: int| 0u8),
            decreases len - i,
        {
            bytes.push(0u8);
            i = i + 1;
            assert(bytes@ =~= Seq::new(i as nat, |j: int| 0u8));
        }
        ByteView { bytes, pos: 0, order }
    }

    /// A region holding `bytes` in byte order `order`, positioned at its start.
    pub fn from_bytes(bytes: Vec<u8>, order: Endian) -> (r: ByteView)
        ensures
            r@.0 == bytes@,
            r@.1 == 0,
            r@.2 == order,
    {
        ByteView { bytes, pos: 0, order }
    }

    /// The region's bytes.
    pub fn as_slice(&self) -> (r: &[u8])
        ensures
            r@ == self@.0,
    {
        self.bytes.as_slice()
    }

    /// The region's length in bytes.
    pub fn len(&self) -> (r: usize)
        ensures
            r == self@.0.len(),
    {
        self.bytes.len()
    }

    /// The byte order of the layout the region belongs to.
    pub fn order(&self) -> (r: Endian)
        ensures
            r == self@.2,
    {
        self.order
    }

    /// The write position.
    pub fn position(&self) -> (r: usize)
        ensures
            r == self@.1,
    {
        self.pos
    }

    /// Moves the write position; the bytes stay as they are.
    pub fn set_position(&mut self, pos: usize)
        ensures
            final(self)@.0 == old(self)@.0,
            final(self)@.1 == pos,
            final(self)@.2 == old(self)@.2,
    {
        self.pos = pos;
    }

    /// Writes all of `data` at the write position and moves past it. Where it does
    /// not fit, nothing is written and the position stays.
    pub fn write_all(&mut self, data: &[u8]) -> (r: Result<(), WriteError>)
        ensures
            old(self)@.1 + data@.len() <= old(self)@.0.len() ==> {
                &&& r is Ok
                &&& final(self)@.0 == overlay(old(self)@.0, old(self)@.1 as int, data@)
                &&& final(self)@.1 == old(self)@.1 + data@.len()
                &&& final(self)@.2 == old(self)@.2
            },
            old(self)@.1 + data@.len() > old(self)@.0.len() ==> {
                &&& r == Err::<(), WriteError>(WriteError::RegionTooSmall)
                &&& final(self)@ == old(self)@
            },
    {
        let len = self.bytes.len();
        if self.pos > len || data.len() > len - self.pos {
            return Err(WriteError::RegionTooSmall);
        }
        let start = self.pos;
        let ghost before = self.bytes@;
        let mut i: usize = 0;
        while i < data.len()
            invariant
                start + data@.len() <= len,
                i <= data@.len(),
                self.bytes@.len() == len,
                self.order == old(self).order,
                before.len() == len,
                self.bytes@ == overlay(before, start as int, data@.subrange(0, i as int)),
            decreases data@.len() - i,
        {
            self.bytes.set(start + i, data[i]);
            i = i + 1;
            assert(self.bytes@ =~= overlay(before, start as int, data@.subrange(0, i as int)));
        }
        assert(data@.subrange(0, data@.len() as int) =~= data@);
        self.pos = start + data.len();
        Ok(())
    }
}

} // verus!
