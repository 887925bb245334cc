//! A bounds-checked cursor over a borrowed byte buffer.
//!
//! The cursor reads and writes at one offset, which every successful
//! operation advances by exactly the number of bytes it consumed or produced.
//! A failed operation leaves both the offset and the buffer as they were. The
//! buffer is never resized.

use crate::error::Error;
use crate::varint::{
    be_bytes, be_value, lemma_be_bytes_len, lemma_be_value_bound, lemma_be_value_push,
    lemma_parse_varint_range, lemma_pow256_values, lemma_varint_bytes_shape,
    lemma_varint_round_trip, parse_varint, pow256, varint_bytes, varint_width,
    varint_width_of_first, MAX_VARINT,
};
use vstd::prelude::*;

verus! {

/// What a cursor is, mathematically: the whole buffer and the offset of the
/// next byte to read or write.
pub struct OctetsView {
    pub buf: Seq<u8>,
    pub off: nat,
}

/// `buf` with the bytes from `at` on overwritten by `data`.
pub open spec fn splice(buf: Seq<u8>, at: nat, data: Seq<u8>) -> Seq<u8>
    recommends
        at + data.len() <= buf.len(),
{
    buf.subrange(0, at as int) + data + buf.subrange((at + data.len()) as int, buf.len() as int)
}

impl OctetsView {
    /// The offset lies within the buffer.
    pub open spec fn wf(self) -> bool {
        self.off <= self.buf.len()
    }

    /// The number of bytes between the offset and the end of the buffer.
    pub open spec fn cap(self) -> nat {
        (self.buf.len() - self.off) as nat
    }

    /// The bytes from the offset to the end of the buffer.
    pub open spec fn rest(self) -> Seq<u8> {
        self.buf.subrange(self.off as int, self.buf.len() as int)
    }

    /// The cursor after `n` bytes were read.
    pub open spec fn skip(self, n: nat) -> OctetsView {
        OctetsView { buf: self.buf, off: self.off + n }
    }

    /// The cursor after `data` was written at the offset.
    pub open spec fn put(self, data: Seq<u8>) -> OctetsView {
        OctetsView { buf: splice(self.buf, self.off, data), off: self.off + data.len() }
    }
}

/// Writing `a` and then `b` is writing `a + b`.
pub proof fn lemma_put_put(v: OctetsView, a: Seq<u8>, b: Seq<u8>)
    requires
        v.off + a.len() + b.len() <= v.buf.len(),
    ensures
        v.put(a).put(b) == v.put(a + b),
{
    assert(v.put(a).put(b).buf =~= v.put(a + b).buf);
}

/// A write changes nothing but the bytes it covers, and what it wrote can be
/// read back at the old offset.
pub proof fn lemma_put_shape(v: OctetsView, data: Seq<u8>)
    requires
        v.off + data.len() <= v.buf.len(),
    ensures
        v.put(data).buf.len() == v.buf.len(),
        v.put(data).wf(),
        v.put(data).buf.subrange(v.off as int, (v.off + data.len()) as int) == data,
        v.put(data).buf.subrange(0, v.off as int) == v.buf.subrange(0, v.off as int),
        v.put(data).rest() == v.rest().skip(data.len() as int),
{
}

/// Reading `n` bytes leaves the bytes after them.
pub proof fn lemma_skip_rest(v: OctetsView, n: nat)
    requires
        v.off + n <= v.buf.len(),
    ensures
        v.skip(n).rest() == v.rest().skip(n as int),
        v.skip(n).wf(),
{
}

/// Powers of 256 grow with the exponent.
proof fn lemma_pow256_monotonic(i: nat, j: nat)
    requires
        i <= j,
    ensures
        pow256(i) <= pow256(j),
    decreases j,
{
    if i < j {
        lemma_pow256_monotonic(i, (j - 1) as nat);
    }
}

/// Returns how many bytes the shortest encoding of `v` takes.
pub fn varint_len(v: u64) -> (n: usize)
    requires
        v <= MAX_VARINT,
    ensures
        n == varint_width(v),
{
    if v <= 63 {
        1
    } else if v <= 16383 {
        2
    } else if v <= 1_073_741_823 {
        4
    } else {
        8
    }
}

/// Returns how many bytes an encoding takes whose first byte is `first`.
pub fn varint_parse_len(first: u8) -> (n: usize)
    ensures
        n == varint_width_of_first(first),
{
    if first < 64 {
        1
    } else if first < 128 {
        2
    } else if first < 192 {
        4
    } else {
        8
    }
}

/// A read and write cursor over a mutable byte slice.
pub struct Octets<'a> {
    buf: &'a mut [u8],
    off: usize,
}

impl<'a> View for Octets<'a> {
    type V = OctetsView;

    closed spec fn view(&self) -> OctetsView {
        OctetsView { buf: self.buf@, off: self.off as nat }
    }
}

impl<'a> Octets<'a> {
    /// The invariant of every cursor: its offset never passes the end of its
    /// buffer.
    #[verifier::type_invariant]
    pub open spec fn wf(&self) -> bool {
        self@.wf()
    }

    /// Creates a cursor at the start of `buf`.
    pub fn with_slice(buf: &'a mut [u8]) -> (b: Octets<'a>)
        ensures
            b@ == (OctetsView { buf: old(buf)@, off: 0 }),
    {
        Octets { buf, off: 0 }
    }

    /// Returns the length of the whole buffer.
    pub fn len(&self) -> (n: usize)
        ensures
            n == self@.buf.len(),
    {
        self.buf.len()
    }

    /// Returns the current offset.
    pub fn off(&self) -> (n: usize)
        ensures
            n == self@.off,
            self@.wf(),
    {
        proof {
            use_type_invariant(self);
        }
        self.off
    }

    /// Returns the number of bytes left between the offset and the end.
    pub fn cap(&self) -> (n: usize)
        ensures
            n == self@.cap(),
            self@.wf(),
    {
        proof {
            use_type_invariant(self);
        }
        self.buf.len() - self.off
    }

    /// Returns the whole buffer, the bytes before the offset included.
    pub fn buf(&self) -> (s: &[u8])
        ensures
            s@ == self@.buf,
    {
        &*self.buf
    }

    /// Moves the offset back by `n` bytes. Fails, and moves nothing, when
    /// fewer than `n` bytes lie before the offset.
    pub fn rewind(&mut self, n: usize) -> (r: Result<(), Error>)
        ensures
            match r {
                Ok(()) => n <= old(self)@.off && final(self)@ == (OctetsView {
                    buf: old(self)@.buf,
                    off: (old(self)@.off - n) as nat,
                }),
                Err(e) => e == Error::BufferUnderflow && n > old(self)@.off && final(self)@
                    == old(self)@,
            },
    {
        proof {
            use_type_invariant(&*self);
        }
        if n > self.off {
            return Err(Error::BufferUnderflow);
        }
        self.off = self.off - n;
        Ok(())
    }

    /// Reads one byte.
    pub fn get_u8(&mut self) -> (r: Result<u8, Error>)
        ensures
            match r {
                Ok(v) => old(self)@.cap() >= 1 && v == old(self)@.rest()[0] && final(self)@
                    == old(self)@.skip(1),
                Err(e) => e == Error::BufferUnderflow && old(self)@.cap() < 1 && final(self)@
                    == old(self)@,
            },
    {
        proof {
            use_type_invariant(&*self);
        }
        if self.buf.len() - self.off < 1 {
            return Err(Error::BufferUnderflow);
        }
        let v: u8 = self.buf[self.off];
        self.off = self.off + 1;
        Ok(v)
    }

    /// Reads a 16-bit integer, most significant byte first.
    pub fn get_u16(&mut self) -> (r: Result<u16, Error>)
        ensures
            match r {
                Ok(v) => old(self)@.cap() >= 2 && v == be_value(old(self)@.rest().subrange(0, 2))
                    && final(self)@ == old(self)@.skip(2),
                Err(e) => e == Error::BufferUnderflow && old(self)@.cap() < 2 && final(self)@
                    == old(self)@,
            },
    {
        proof {
            use_type_invariant(&*self);
        }
        if self.buf.len() - self.off < 2 {
            return Err(Error::BufferUnderflow);
        }
        let v: u64 = self.get_uint(2);
        proof {
            lemma_be_value_bound(old(self)@.rest().subrange(0, 2));
            lemma_pow256_values();
        }
        Ok(v as u16)
    }

    /// Reads a variable-length integer.
    pub fn get_varint(&mut self) -> (r: Result<u64, Error>)
        ensures
            match parse_varint(old(self)@.rest()) {
                Some((v, n)) => r == Ok::<u64, Error>(v) && v <= MAX_VARINT && final(self)@
                    == old(self)@.skip(n),
                None => r == Err::<u64, Error>(Error::BufferUnderflow) && final(self)@
                    == old(self)@,
            },
    {
        proof {
            use_type_invariant(&*self);
        }
        if self.buf.len() - self.off < 1 {
            return Err(Error::BufferUnderflow);
        }
        let first: u8 = self.buf[self.off];
        let n: usize = varint_parse_len(first);
        if self.buf.len() - self.off < n {
            return Err(Error::BufferUnderflow);
        }
        let x: u64 = self.get_uint(n);
        proof {
            lemma_parse_varint_range(old(self)@.rest());
        }
        let v: u64 = if n == 1 {
            x
        } else if n == 2 {
            x - 0x4000
        } else if n == 4 {
            x - 0x8000_0000
        } else {
            x - 0xC000_0000_0000_0000
        };
        Ok(v)
    }

    /// Reads `len` bytes.
    pub fn get_bytes(&mut self, len: usize) -> (r: Result<Vec<u8>, Error>)
        ensures
            match r {
                Ok(v) => old(self)@.cap() >= len && v@ == old(self)@.rest().subrange(0, len as int)
                    && final(self)@ == old(self)@.skip(len as nat),
                Err(e) => e == Error::BufferUnderflow && old(self)@.cap() < len && final(self)@
                    == old(self)@,
            },
    {
        proof {
            use_type_invariant(&*self);
        }
        if self.buf.len() - self.off < len {
            return Err(Error::BufferUnderflow);
        }
        let total: usize = self.buf.len();
        let mut out: Vec<u8> = Vec::with_capacity(len);
        let mut i: usize = 0;
        while i < len
            invariant
                i <= len,
                self.off + len <= self.buf@.len() == total,
                out@ == self.buf@.subrange(self.off as int, self.off + i),
            decreases len - i,
        {
            out.push(self.buf[self.off + i]);
            i = i + 1;
        }
        self.off = self.off + len;
        Ok(out)
    }

    /// Writes one byte.
    pub fn put_u8(&mut self, v: u8) -> (r: Result<(), Error>)
        ensures
            match r {
                Ok(()) => old(self)@.cap() >= 1 && final(self)@ == old(self)@.put(seq![v]),
                Err(e) => e == Error::BufferOverflow && old(self)@.cap() < 1 && final(self)@
                    == old(self)@,
            },
    {
        proof {
            use_type_invariant(&*self);
        }
        if self.buf.len() - self.off < 1 {
            return Err(Error::BufferOverflow);
        }
        self.buf[self.off] = v;
        self.off = self.off + 1;
        assert(self@.buf =~= old(self)@.put(seq![v]).buf);
        Ok(())
    }

    /// Writes a 16-bit integer, most significant byte first.
    pub fn put_u16(&mut self, v: u16) -> (r: Result<(), Error>)
        ensures
            match r {
                Ok(()) => old(self)@.cap() >= 2 && final(self)@ == old(self)@.put(
                    be_bytes(v as nat, 2),
                ),
                Err(e) => e == Error::BufferOverflow && old(self)@.cap() < 2 && final(self)@
                    == old(self)@,
            },
    {
        proof {
            use_type_invariant(&*self);
        }
        if self.buf.len() - self.off < 2 {
            return Err(Error::BufferOverflow);
        }
        proof {
            lemma_pow256_values();
        }
        self.put_uint(v as u64, 2);
        Ok(())
    }

    /// Writes `v` as a variable-length integer in its shortest form, which
    /// takes `varint_len(v)` bytes.
    pub fn put_varint(&mut self, v: u64) -> (r: Result<(), Error>)
        requires
            v <= MAX_VARINT,
        ensures
            match r {
                Ok(()) => old(self)@.cap() >= varint_width(v) && final(self)@ == old(self)@.put(
                    varint_bytes(v),
                ) && final(self)@.off == old(self)@.off + varint_width(v),
                Err(e) => e == Error::BufferOverflow && old(self)@.cap() < varint_width(v)
                    && final(self)@ == old(self)@,
            },
    {
        proof {
            use_type_invariant(&*self);
        }
        let n: usize = varint_len(v);
        if self.buf.len() - self.off < n {
            return Err(Error::BufferOverflow);
        }
        let x: u64 = if n == 1 {
            v
        } else if n == 2 {
            v + 0x4000
        } else if n == 4 {
            v + 0x8000_0000
        } else {
            v + 0xC000_0000_0000_0000
        };
        proof {
            lemma_pow256_values();
            lemma_be_bytes_len(x as nat, n as nat);
        }
        self.put_uint(x, n);
        Ok(())
    }

    /// Writes all of `v`.
    pub fn put_bytes(&mut self, v: &[u8]) -> (r: Result<(), Error>)
        ensures
            match r {
                Ok(()) => old(self)@.cap() >= v@.len() && final(self)@ == old(self)@.put(v@),
                Err(e) => e == Error::BufferOverflow && old(self)@.cap() < v@.len() && final(self)@
                    == old(self)@,
            },
    {
        proof {
            use_type_invariant(&*self);
        }
        if self.buf.len() - self.off < v.len() {
            return Err(Error::BufferOverflow);
        }
        let start: usize = self.off;
        let total: usize = self.buf.len();
        let mut i: usize = 0;
        while i < v.len()
            invariant
                i <= v@.len(),
                start + v@.len() <= self.buf@.len() == total,
                old(self)@.buf.len() == total,
                self.off == start,
                self.buf@ == splice(old(self)@.buf, start as nat, v@.subrange(0, i as int)),
            decreases v@.len() - i,
        {
            self.buf[start + i] = v[i];
            i = i + 1;
        }
        assert(v@.subrange(0, i as int) =~= v@);
        self.off = start + v.len();
        Ok(())
    }

    /// Reads `n` bytes as one big-endian number.
    fn get_uint(&mut self, n: usize) -> (x: u64)
        requires
            n <= 8,
            old(self)@.cap() >= n,
        ensures
            x == be_value(old(self)@.rest().subrange(0, n as int)),
            final(self)@ == old(self)@.skip(n as nat),
    {
        proof {
            use_type_invariant(&*self);
        }
        let ghost src = self@.rest().subrange(0, n as int);
        let total: usize = self.buf.len();
        let mut x: u64 = 0;
        let mut i: usize = 0;
        while i < n
            invariant
                i <= n <= 8,
                self.off + n <= self.buf@.len() == total,
                self.off == old(self).off,
                self.buf@ == old(self).buf@,
                src == self.buf@.subrange(self.off as int, self.off + n),
                x == be_value(src.subrange(0, i as int)),
            decreases n - i,
        {
            proof {
                lemma_be_value_bound(src.subrange(0, i as int));
                lemma_pow256_monotonic(i as nat + 1, 8);
                lemma_pow256_values();
                lemma_be_value_push(src.subrange(0, i as int), src[i as int]);
                assert(src.subrange(0, i + 1) =~= src.subrange(0, i as int).push(src[i as int]));
            }
            let b: u8 = self.buf[self.off + i];
            x = x * 256 + b as u64;
            i = i + 1;
        }
        assert(src.subrange(0, n as int) =~= src);
        self.off = self.off + n;
        x
    }

    /// Writes the `n` low-order bytes of `x`, most significant first.
    fn put_uint(&mut self, x: u64, n: usize)
        requires
            n <= 8,
            old(self)@.cap() >= n,
        ensures
            final(self)@ == old(self)@.put(be_bytes(x as nat, n as nat)),
    {
        proof {
            use_type_invariant(&*self);
            lemma_be_bytes_len(x as nat, n as nat);
        }
        let start: usize = self.off;
        let total: usize = self.buf.len();
        let mut rest: u64 = x;
        let mut i: usize = n;
        while i > 0
            invariant
                i <= n <= 8,
                start + n <= self.buf@.len() == total,
                self.off == start,
                self.buf@.len() == old(self).buf@.len(),
                be_bytes(x as nat, n as nat).len() == n,
                be_bytes(x as nat, n as nat) == be_bytes(rest as nat, i as nat)
                    + self.buf@.subrange(start + i, start + n),
                forall|k: int|
                    0 <= k < self.buf@.len() && !(start + i <= k < start + n) ==> self.buf@[k]
                        == old(self).buf@[k],
            decreases i,
        {
            i = i - 1;
            self.buf[start + i] = (rest % 256) as u8;
            proof {
                lemma_be_bytes_len(rest as nat / 256, i as nat);
            }
            rest = rest / 256;
        }
        self.off = start + n;
        assert(self@.buf =~= old(self)@.put(be_bytes(x as nat, n as nat)).buf);
    }
}

/// What was written is read back from the buffer. When a value was written
/// as a variable-length integer at the offset of a cursor, a cursor that
/// stands at that offset in the buffer then reads the same value, from as
/// many bytes as were written.
pub proof fn lemma_written_varint_is_read(x: u64, v: OctetsView)
    requires
        x <= MAX_VARINT,
        v.wf(),
        v.cap() >= varint_width(x),
    ensures
        parse_varint((OctetsView { buf: v.put(varint_bytes(x)).buf, off: v.off }).rest()) == Some(
            (x, varint_width(x)),
        ),
{
    let after = OctetsView { buf: v.put(varint_bytes(x)).buf, off: v.off };
    let tail = v.buf.subrange((v.off + varint_width(x)) as int, v.buf.len() as int);
    lemma_varint_bytes_shape(x);
    assert(after.rest() =~= varint_bytes(x) + tail);
    lemma_varint_round_trip(x, tail);
}

} // verus!
