//! A byte sink backed by a growable buffer, with a cursor that can be moved
//! back to overwrite what was written.

use crate::endian::{
    le_bytes_i32, le_bytes_i64, le_bytes_u32, le_bytes_u64, write_i32_le, write_i64_le,
    write_u32_le, write_u64_le,
};
use crate::ser::error::{ErrorView, SerializeError};
use vstd::prelude::*;

verus! {

/// `s` with `data` written over it from index `at` on: what lay there is
/// replaced, and what does not fit extends the sequence.
pub open spec fn overwritten(s: Seq<u8>, at: int, data: Seq<u8>) -> Seq<u8>
    recommends
        0 <= at <= s.len(),
{
    s.take(at) + data + (if at + data.len() < s.len() {
        s.skip(at + data.len())
    } else {
        Seq::empty()
    })
}

/// The detail of the failure of a seek past the end.
pub open spec fn seek_past_end_text() -> Seq<char> {
    "seek past the end of the buffer"@
}

/// A growable buffer of bytes with a cursor. A write goes to the cursor and
/// moves it on; the cursor never lies beyond the end.
#[derive(Debug, Clone, PartialEq)]
pub struct ByteWriter {
    buf: Vec<u8>,
    pos: usize,
}

impl ByteWriter {
    /// Everything that the buffer holds.
    pub closed spec fn bytes(&self) -> Seq<u8> {
        self.buf@
    }

    /// Where the next write goes. A stored position beyond the end counts as
    /// the end.
    pub closed spec fn cursor(&self) -> nat {
        if self.pos <= self.buf@.len() {
            self.pos as nat
        } else {
            self.buf@.len()
        }
    }

    /// The cursor lies within the buffer or at its end.
    pub proof fn lemma_cursor_in_range(&self)
        ensures
            self.cursor() <= self.bytes().len(),
    {
    }

    /// An empty buffer.
    pub fn new() -> (w: ByteWriter)
        ensures
            w.bytes() == Seq::<u8>::empty(),
            w.cursor() == 0,
    {
        ByteWriter { buf: Vec::new(), pos: 0 }
    }

    /// A buffer that holds `bytes`, with the cursor at the end.
    pub fn from_vec(bytes: Vec<u8>) -> (w: ByteWriter)
        ensures
            w.bytes() == bytes@,
            w.cursor() == bytes@.len(),
    {
        let pos = bytes.len();
        ByteWriter { buf: bytes, pos }
    }

    /// Everything that the buffer holds.
    pub fn into_bytes(self) -> (bytes: Vec<u8>)
        ensures
            bytes@ == self.bytes(),
    {
        self.buf
    }

    /// Everything that the buffer holds.
    pub fn as_slice(&self) -> (bytes: &[u8])
        ensures
            bytes@ == self.bytes(),
    {
        self.buf.as_slice()
    }

    /// The number of bytes that the buffer holds.
    pub fn len(&self) -> (n: usize)
        ensures
            n == self.bytes().len(),
    {
        self.buf.len()
    }

    /// The cursor as an index.
    fn index(&self) -> (at: usize)
        ensures
            at == self.cursor(),
            at <= self.buf@.len(),
    {
        if self.pos <= self.buf.len() {
            self.pos
        } else {
            self.buf.len()
        }
    }

    /// The position of the cursor.
    pub fn position(&self) -> (at: u64)
        ensures
            at == self.cursor(),
            self.cursor() <= self.bytes().len(),
    {
        self.index() as u64
    }

    /// Moves the cursor to `at`, which must not lie beyond the end.
    pub fn seek(&mut self, at: u64) -> (r: Result<(), SerializeError>)
        ensures
            final(self).bytes() == old(self).bytes(),
            at <= old(self).bytes().len() ==> r is Ok && final(self).cursor() == at,
            at > old(self).bytes().len() ==> (r matches Err(e) && e@ == ErrorView::Io(
                seek_past_end_text(),
            ) && final(self).cursor() == old(self).cursor()),
    {
        if at <= self.buf.len() as u64 {
            self.pos = at as usize;
            Ok(())
        } else {
            Err(SerializeError::Io("seek past the end of the buffer".to_string()))
        }
    }

    /// Writes one byte at the cursor.
    pub fn write_u8(&mut self, byte: u8)
        ensures
            final(self).bytes() == overwritten(old(self).bytes(), old(self).cursor() as int, seq![byte]),
            final(self).cursor() == old(self).cursor() + 1,
    {
        let at = self.index();
        if at < self.buf.len() {
            self.buf[at] = byte;
        } else {
            self.buf.push(byte);
        }
        let filled = self.buf.len();
        assert(at < filled);
        self.pos = at + 1;
        assert(self.bytes() =~= overwritten(old(self).bytes(), old(self).cursor() as int, seq![byte]));
    }

    /// Writes `data` at the cursor.
    pub fn write_all(&mut self, data: &[u8])
        ensures
            final(self).bytes() == overwritten(old(self).bytes(), old(self).cursor() as int, data@),
            final(self).cursor() == old(self).cursor() + data@.len(),
    {
        let ghost start = self.cursor() as int;
        let mut i: usize = 0;
        assert(self.bytes() =~= overwritten(old(self).bytes(), start, data@.take(0)));
        while i < data.len()
            invariant
                i <= data@.len(),
                start == old(self).cursor(),
                start <= old(self).bytes().len(),
                self.cursor() == start + i,
                self.bytes() == overwritten(old(self).bytes(), start, data@.take(i as int)),
            decreases data.len() - i,
        {
            let ghost before = self.bytes();
            self.write_u8(data[i]);
            proof {
                assert(data@.take(i + 1) =~= data@.take(i as int).push(data@[i as int]));
                assert(self.bytes() =~= overwritten(old(self).bytes(), start, data@.take(i + 1)));
            }
            i += 1;
        }
        assert(data@.take(data@.len() as int) =~= data@);
    }

    /// Writes the little-endian layout of a signed 32-bit number.
    pub fn write_i32(&mut self, value: i32)
        ensures
            final(self).bytes() == overwritten(
                old(self).bytes(),
                old(self).cursor() as int,
                le_bytes_i32(value),
            ),
            final(self).cursor() == old(self).cursor() + 4,
    {
        let bytes = write_i32_le(value);
        self.write_all(bytes.as_slice());
    }

    /// Writes the little-endian layout of an unsigned 32-bit number.
    pub fn write_u32(&mut self, value: u32)
        ensures
            final(self).bytes() == overwritten(
                old(self).bytes(),
                old(self).cursor() as int,
                le_bytes_u32(value),
            ),
            final(self).cursor() == old(self).cursor() + 4,
    {
        let bytes = write_u32_le(value);
        self.write_all(bytes.as_slice());
    }

    /// Writes the little-endian layout of a signed 64-bit number.
    pub fn write_i64(&mut self, value: i64)
        ensures
            final(self).bytes() == overwritten(
                old(self).bytes(),
                old(self).cursor() as int,
                le_bytes_i64(value),
            ),
            final(self).cursor() == old(self).cursor() + 8,
    {
        let bytes = write_i64_le(value);
        self.write_all(bytes.as_slice());
    }

    /// Writes the little-endian layout of an unsigned 64-bit number.
    pub fn write_u64(&mut self, value: u64)
        ensures
            final(self).bytes() == overwritten(
                old(self).bytes(),
                old(self).cursor() as int,
                le_bytes_u64(value),
            ),
            final(self).cursor() == old(self).cursor() + 8,
    {
        let bytes = write_u64_le(value);
        self.write_all(bytes.as_slice());
    }

    /// Writes a 64-bit float, given by its bit pattern, in little-endian
    /// layout.
    pub fn write_f64(&mut self, bits: u64)
        ensures
            final(self).bytes() == overwritten(
                old(self).bytes(),
                old(self).cursor() as int,
                le_bytes_u64(bits),
            ),
            final(self).cursor() == old(self).cursor() + 8,
    {
        self.write_u64(bits);
    }
}

} // verus!
