//! Little-endian wire encoding of the fixed-size values that packets carry.
use vstd::prelude::*;

verus! {

/// `s` with the bytes starting at `pos` replaced by `b`.
pub open spec fn splice(s: Seq<u8>, pos: int, b: Seq<u8>) -> Seq<u8> {
    s.subrange(0, pos) + b + s.subrange(pos + b.len(), s.len() as int)
}

/// Two's-complement reading of the pattern `u` (below `2 * half`).
pub open spec fn signed_of(u: int, half: int) -> int {
    if u >= half {
        u - 2 * half
    } else {
        u
    }
}

/// The unsigned pattern of a signed value `v` with `-half <= v < half`.
pub open spec fn unsigned_of(v: int, half: int) -> int {
    if v < 0 {
        v + 2 * half
    } else {
        v
    }
}

/// Writing `x` and then `y` right after it is writing `x + y`.
pub proof fn lemma_splice_then(s: Seq<u8>, pos: int, x: Seq<u8>, y: Seq<u8>)
    requires
        0 <= pos,
        pos + x.len() + y.len() <= s.len(),
    ensures
        splice(splice(s, pos, x), pos + x.len(), y) == splice(s, pos, x + y),
        splice(s, pos, x).len() == s.len(),
{
    assert(splice(splice(s, pos, x), pos + x.len(), y) =~= splice(s, pos, x + y));
}

/// The two bytes of a 16-bit pattern, low byte first.
pub open spec fn le2(u: int) -> Seq<u8> {
    seq![(u % 256) as u8, (u / 256) as u8]
}

/// The 16-bit pattern held by the first two bytes, low byte first.
pub open spec fn from_le2(b: Seq<u8>) -> int {
    b[0] + 256 * b[1]
}

/// A value of fixed size that a packet can carry, written in its
/// little-endian memory layout.
pub trait Wire: Sized + Copy {
    /// Number of bytes of the encoding.
    spec fn wire_size() -> nat;

    /// The bytes that encode `self`.
    spec fn wire_bytes(self) -> Seq<u8>;

    /// The value that `bytes` (of length `wire_size()`) encode.
    spec fn from_wire_bytes(bytes: Seq<u8>) -> Self;

    /// Decoding an encoding gives the value back.
    proof fn lemma_wire_roundtrip(self)
        ensures
            self.wire_bytes().len() == Self::wire_size(),
            Self::from_wire_bytes(self.wire_bytes()) == self,
    ;

    /// Every byte string of the right length is the encoding of what it decodes to.
    proof fn lemma_wire_canonical(bytes: Seq<u8>)
        requires
            bytes.len() == Self::wire_size(),
        ensures
            Self::from_wire_bytes(bytes).wire_bytes() == bytes,
    ;

    /// The size of the encoding.
    fn size() -> (n: usize)
        ensures
            n == Self::wire_size(),
    ;

    /// Writes the encoding of `self` into `buf` at `pos`.
    fn write_at(&self, buf: &mut Vec<u8>, pos: usize)
        requires
            pos + Self::wire_size() <= old(buf).len(),
        ensures
            final(buf)@ == splice(old(buf)@, pos as int, self.wire_bytes()),
    ;

    /// Reads the value encoded in `buf` at `pos`.
    fn read_at(buf: &Vec<u8>, pos: usize) -> (v: Self)
        requires
            pos + Self::wire_size() <= buf.len(),
        ensures
            v == Self::from_wire_bytes(buf@.subrange(pos as int, pos + Self::wire_size())),
    ;
}

impl Wire for u8 {
    open spec fn wire_size() -> nat {
        1
    }

    open spec fn wire_bytes(self) -> Seq<u8> {
        seq![self]
    }

    open spec fn from_wire_bytes(bytes: Seq<u8>) -> u8 {
        bytes[0]
    }

    proof fn lemma_wire_roundtrip(self) {
    }

    proof fn lemma_wire_canonical(bytes: Seq<u8>) {
        assert(seq![bytes[0]] =~= bytes);
    }

    fn size() -> (n: usize) {
        1
    }

    fn write_at(&self, buf: &mut Vec<u8>, pos: usize) {
        buf.set(pos, *self);
        assert(buf@ =~= splice(old(buf)@, pos as int, self.wire_bytes()));
    }

    fn read_at(buf: &Vec<u8>, pos: usize) -> (v: u8) {
        buf[pos]
    }
}

impl Wire for u16 {
    open spec fn wire_size() -> nat {
        2
    }

    open spec fn wire_bytes(self) -> Seq<u8> {
        le2(self as int)
    }

    open spec fn from_wire_bytes(bytes: Seq<u8>) -> u16 {
        from_le2(bytes) as u16
    }

    proof fn lemma_wire_roundtrip(self) {
    }

    proof fn lemma_wire_canonical(bytes: Seq<u8>) {
        assert(le2(from_le2(bytes)) =~= bytes);
    }

    fn size() -> (n: usize) {
        2
    }

    fn write_at(&self, buf: &mut Vec<u8>, pos: usize) {
        let v = *self;
        buf.set(pos, (v % 256) as u8);
        buf.set(pos + 1, (v / 256) as u8);
        assert(buf@ =~= splice(old(buf)@, pos as int, self.wire_bytes()));
    }

    fn read_at(buf: &Vec<u8>, pos: usize) -> (v: u16) {
        let lo = buf[pos] as u16;
        let hi = buf[pos + 1] as u16;
        lo + 256 * hi
    }
}

impl Wire for i16 {
    open spec fn wire_size() -> nat {
        2
    }

    open spec fn wire_bytes(self) -> Seq<u8> {
        le2(unsigned_of(self as int, 32768))
    }

    open spec fn from_wire_bytes(bytes: Seq<u8>) -> i16 {
        signed_of(from_le2(bytes), 32768) as i16
    }

    proof fn lemma_wire_roundtrip(self) {
    }

    proof fn lemma_wire_canonical(bytes: Seq<u8>) {
        assert(le2(from_le2(bytes)) =~= bytes);
    }

    fn size() -> (n: usize) {
        2
    }

    fn write_at(&self, buf: &mut Vec<u8>, pos: usize) {
        let v = *self;
        let u: u16 = if v < 0 {
            (v as i32 + 65536) as u16
        } else {
            v as u16
        };
        buf.set(pos, (u % 256) as u8);
        buf.set(pos + 1, (u / 256) as u8);
        assert(buf@ =~= splice(old(buf)@, pos as int, self.wire_bytes()));
    }

    fn read_at(buf: &Vec<u8>, pos: usize) -> (v: i16) {
        let lo = buf[pos] as i32;
        let hi = buf[pos + 1] as i32;
        let u: i32 = lo + 256 * hi;
        if u >= 32768 {
            (u - 65536) as i16
        } else {
            u as i16
        }
    }
}

} // verus!
