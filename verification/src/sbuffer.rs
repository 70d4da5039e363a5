//! A buffer over discontiguous byte slices.

use vstd::prelude::*;
use vstd::string::StringSliceAdditionalSpecFns;

use crate::bytes::{copy_into, u16_at, u16_to_le, u32_at, u32_to_le};
use crate::bytes::{get_le16, get_le32, le16, le32, lemma_splice, lemma_splice_join, splice};
use crate::cstring::{string_from_bytes, CString};
use crate::error::Error;

verus! {

/// The number of slices that a buffer can hold.
pub const MAX_SLICES: usize = 2;

/// Where a position ends up after `n` bytes, over slices of the lengths `lens`:
/// the index of a slice and an offset into it. A slice that is used up leaves the
/// position at the start of the next one.
pub open spec fn advanced(lens: Seq<nat>, idx: nat, offset: nat, n: nat) -> (nat, nat)
    decreases lens.len() - idx,
{
    if n == 0 || idx >= lens.len() {
        (idx, offset)
    } else if n < lens[idx as int] - offset {
        (idx, offset + n)
    } else {
        advanced(lens, idx + 1, 0, (n - (lens[idx as int] - offset)) as nat)
    }
}

/// A splice within one of two joined pieces is a splice of the whole.
proof fn lemma_splice_part(part0: Seq<u8>, part1: Seq<u8>, at: int, b: Seq<u8>)
    requires
        0 <= at,
    ensures
        at + b.len() <= part0.len() ==> splice(part0, at, b) + part1 == splice(
            part0 + part1,
            at,
            b,
        ),
        at + b.len() <= part1.len() ==> part0 + splice(part1, at, b) == splice(
            part0 + part1,
            part0.len() + at,
            b,
        ),
{
    if at + b.len() <= part0.len() {
        assert(splice(part0, at, b) + part1 =~= splice(part0 + part1, at, b));
    }
    if at + b.len() <= part1.len() {
        assert(part0 + splice(part1, at, b) =~= splice(part0 + part1, part0.len() + at, b));
    }
}

/// A buffer abstraction for discontiguous byte slices.
///
/// It treats up to [`MAX_SLICES`] slices as one stream of bytes, with a position
/// that reads and writes move forward.
pub struct SBuffer<'a> {
    /// Storage for the slices.
    pub slices: [Option<&'a mut [u8]>; MAX_SLICES],
    /// Entries used.
    pub len: usize,
    /// The slice that the position is in.
    pub idx: usize,
    /// The offset of the position in that slice.
    pub offset: usize,
}

impl<'a> SBuffer<'a> {
    /// The bytes of the `i`-th slice in use.
    pub open spec fn part(&self, i: int) -> Seq<u8> {
        match self.slices@[i] {
            Some(s) if i < self.len => s@,
            _ => Seq::empty(),
        }
    }

    /// The bytes of the whole buffer.
    pub open spec fn bytes(&self) -> Seq<u8> {
        self.part(0) + self.part(1)
    }

    /// The lengths of the slices in use.
    pub open spec fn lens(&self) -> Seq<nat> {
        Seq::new(self.len as nat, |i: int| self.part(i).len())
    }

    /// The position, counted from the start of the buffer.
    pub open spec fn pos(&self) -> int {
        if self.idx == 0 {
            self.offset as int
        } else if self.idx == 1 {
            self.part(0).len() + self.offset
        } else {
            (self.part(0).len() + self.part(1).len()) as int
        }
    }

    /// The number of bytes from the position to the end.
    pub open spec fn remaining(&self) -> int {
        self.bytes().len() - self.pos()
    }

    /// The position is inside the slice it names, or at the end of the buffer, and
    /// the size of the buffer fits a `usize`.
    pub open spec fn inv(&self) -> bool {
        &&& self.len <= MAX_SLICES
        &&& forall|i: int| 0 <= i < self.len ==> (#[trigger] self.slices@[i]) is Some
        &&& self.idx <= self.len
        &&& self.idx < self.len ==> (self.offset == 0 || self.offset < self.part(
            self.idx as int,
        ).len())
        &&& self.idx == self.len ==> self.offset == 0
        &&& self.bytes().len() <= usize::MAX
    }

    /// Both buffers have as many slices, of the same lengths.
    pub open spec fn same_shape(&self, other: &Self) -> bool {
        &&& self.len == other.len
        &&& self.part(0).len() == other.part(0).len()
        &&& self.part(1).len() == other.part(1).len()
    }

    /// The position is the one that `other` would have `n` bytes further on.
    pub open spec fn moved_from(&self, other: &Self, n: nat) -> bool {
        &&& self.pos() == other.pos() + n
        &&& (self.idx as nat, self.offset as nat) == advanced(
            other.lens(),
            other.idx as nat,
            other.offset as nat,
            n,
        )
    }

    /// `self` is what a write of `src` makes of `other`: the bytes are replaced at the
    /// position, which moves past them, or nothing changes where they do not fit.
    pub open spec fn written(&self, other: &Self, src: Seq<u8>, r: Result<(), Error>) -> bool {
        &&& self.inv()
        &&& self.same_shape(other)
        &&& if src.len() <= other.remaining() {
            &&& r == Ok::<(), Error>(())
            &&& self.bytes() == splice(other.bytes(), other.pos(), src)
            &&& self.moved_from(other, src.len())
        } else {
            &&& r == Err::<(), Error>(Error::ENOSPC)
            &&& self.bytes() == other.bytes()
            &&& self.moved_from(other, 0)
        }
    }

    /// `self` is `other` with the position moved forward by `n` bytes, or with nothing
    /// changed where fewer bytes than that remain.
    pub open spec fn skipped(&self, other: &Self, n: nat) -> bool {
        &&& self.inv()
        &&& self.slices == other.slices
        &&& self.len == other.len
        &&& self.moved_from(
            other,
            if n <= other.remaining() {
                n
            } else {
                0
            },
        )
    }

    /// The `n` bytes at the position.
    pub open spec fn ahead(&self, n: nat) -> Seq<u8> {
        self.bytes().subrange(self.pos(), self.pos() + n)
    }

    /// Creates a buffer over the first [`MAX_SLICES`] of the slices given, with the
    /// position at its start. Further slices are ignored.
    pub fn new(slices: Vec<&'a mut [u8]>) -> (r: Self)
        requires
            slices@.len() >= 2 ==> slices@[0]@.len() + slices@[1]@.len() <= usize::MAX,
        ensures
            r.inv(),
            r.len == (if slices@.len() < MAX_SLICES { slices@.len() } else { MAX_SLICES as nat }),
            r.idx == 0,
            r.offset == 0,
            0 < r.len ==> r.part(0) == slices@[0]@ && final(r.slices@[0]->0)@ == final(slices@[0])@,
            1 < r.len ==> r.part(1) == slices@[1]@ && final(r.slices@[1]->0)@ == final(slices@[1])@,
    {
        let mut rest = slices;
        let mut first: Option<&'a mut [u8]> = None;
        let mut second: Option<&'a mut [u8]> = None;
        let mut len: usize = 0;
        if rest.len() > 0 {
            let s = rest.remove(0);
            let n: usize = s.len();
            first = Some(s);
            len = 1;
            if rest.len() > 0 {
                let s = rest.remove(0);
                second = Some(s);
                len = 2;
            }
        }
        let r = SBuffer { slices: [first, second], len, idx: 0, offset: 0 };
        assert(r.slices@[0] == first);
        assert(r.slices@[1] == second);
        r
    }

    /// Returns the size of the buffer.
    pub fn total_capacity(&self) -> (r: usize)
        requires
            self.inv(),
        ensures
            r == self.bytes().len(),
    {
        let mut sum: usize = 0;
        let mut i: usize = 0;
        while i < self.len
            invariant
                self.inv(),
                i <= self.len,
                i == 0 ==> sum == 0,
                i == 1 ==> sum == self.part(0).len(),
                i == 2 ==> sum == self.part(0).len() + self.part(1).len(),
            decreases self.len - i,
        {
            if let Some(s) = &self.slices[i] {
                sum = sum + s.len();
            }
            i = i + 1;
        }
        sum
    }

    /// Returns the number of bytes from the position to the end.
    pub fn total_remaining(&self) -> (r: usize)
        requires
            self.inv(),
        ensures
            r == self.remaining(),
    {
        let mut used: usize = 0;
        let mut i: usize = 0;
        while i < self.idx
            invariant
                self.inv(),
                i <= self.idx,
                i == 0 ==> used == 0,
                i == 1 ==> used == self.part(0).len(),
                i == 2 ==> used == self.part(0).len() + self.part(1).len(),
            decreases self.idx - i,
        {
            if let Some(s) = &self.slices[i] {
                used = used + s.len();
            }
            i = i + 1;
        }
        self.total_capacity() - (used + self.offset)
    }

    /// Moves to the next slice.
    fn advance_slice(&mut self)
        requires
            old(self).idx < old(self).len,
        ensures
            final(self).slices == old(self).slices,
            final(self).len == old(self).len,
            final(self).idx == old(self).idx + 1,
            final(self).offset == 0,
    {
        self.idx = self.idx + 1;
        self.offset = 0;
    }

    /// Writes all of `src` at the position and moves past it. Nothing is written if
    /// the bytes do not fit.
    #[verifier::rlimit(40)]
    pub fn write(&mut self, src: &[u8]) -> (r: Result<(), Error>)
        requires
            old(self).inv(),
        ensures
            0 < old(self).len ==> final(final(self).slices@[0]->0)@ == final(
                old(self).slices@[0]->0
            )@,
            1 < old(self).len ==> final(final(self).slices@[1]->0)@ == final(
                old(self).slices@[1]->0
            )@,
            final(self).written(old(self), src@, r),
    {
        if src.len() > self.total_remaining() {
            return Err(Error::ENOSPC);
        }
        let mut done: usize = 0;
        let ghost b0 = self.bytes();
        let ghost p0 = self.pos();
        let ghost lens0 = self.lens();
        assert(splice(b0, p0, src@.take(0)) =~= b0);
        while done < src.len() && self.idx < self.len
            invariant
                self.inv(),
                self.same_shape(old(self)),
                lens0 == old(self).lens(),
                0 <= p0,
                p0 + src@.len() <= b0.len(),
                b0.len() == self.bytes().len(),
                0 < old(self).len ==> final(self.slices@[0]->0)@ == final(old(self).slices@[0]->0)@,
                1 < old(self).len ==> final(self.slices@[1]->0)@ == final(old(self).slices@[1]->0)@,
                done <= src.len(),
                self.bytes() == splice(b0, p0, src@.take(done as int)),
                self.pos() == p0 + done,
                advanced(lens0, self.idx as nat, self.offset as nat, (src@.len() - done) as nat)
                    == advanced(
                    lens0,
                    old(self).idx as nat,
                    old(self).offset as nat,
                    src@.len(),
                ),
            decreases self.len - self.idx, src.len() - done,
        {
            let ghost part0 = self.part(0);
            let ghost part1 = self.part(1);
            let at: usize = self.offset;
            let mut n: usize = 0;
            let mut full: bool = true;
            if let Some(current) = self.slices[self.idx].as_mut() {
                let room: usize = current.len() - at;
                let left: usize = src.len() - done;
                n = if room < left { room } else { left };
                copy_into(current, at, src, done, n);
                full = n == room;
            }
            let ghost piece = src@.subrange(done as int, done + n);
            assert(src@.take(done as int) + piece =~= src@.take(done + n));
            proof {
                lemma_splice_part(part0, part1, at as int, piece);
                lemma_splice_join(b0, p0, src@.take(done as int), piece);
            }
            self.offset = at + n;
            done = done + n;
            if full {
                self.advance_slice();
            }
        }
        assert(src@.take(src@.len() as int) =~= src@);
        Ok(())
    }

    /// Fills all of `dst` with the bytes at the position and moves past them. Nothing is
    /// read if there are too few.
    pub fn read(&mut self, dst: &mut [u8]) -> (r: Result<(), Error>)
        requires
            old(self).inv(),
        ensures
            final(self).skipped(old(self), old(dst)@.len()),
            r == (if old(dst)@.len() <= old(self).remaining() {
                Ok::<(), Error>(())
            } else {
                Err(Error::EINVAL)
            }),
            final(dst)@ == (if r is Ok {
                old(self).ahead(old(dst)@.len())
            } else {
                old(dst)@
            }),
    {
        let dst_len: usize = dst.len();
        if dst_len > self.total_remaining() {
            return Err(Error::EINVAL);
        }
        let mut done: usize = 0;
        let ghost bytes = self.bytes();
        let ghost p0 = self.pos();
        let ghost lens0 = self.lens();
        while done < dst_len && self.idx < self.len
            invariant
                self.inv(),
                self.slices == old(self).slices,
                self.len == old(self).len,
                lens0 == old(self).lens(),
                bytes == self.bytes(),
                0 <= p0,
                p0 + dst_len <= bytes.len(),
                dst@.len() == dst_len,
                done <= dst_len,
                self.pos() == p0 + done,
                forall|j: int| 0 <= j < done ==> dst@[j] == bytes[p0 + j],
                advanced(lens0, self.idx as nat, self.offset as nat, (dst_len - done) as nat)
                    == advanced(
                    lens0,
                    old(self).idx as nat,
                    old(self).offset as nat,
                    dst_len as nat,
                ),
            decreases self.len - self.idx, dst_len - done,
        {
            let at: usize = self.offset;
            let mut n: usize = 0;
            let mut full: bool = true;
            if let Some(current) = &self.slices[self.idx] {
                let room: usize = current.len() - at;
                let left: usize = dst_len - done;
                n = if room < left { room } else { left };
                copy_into(dst, done, current, at, n);
                full = n == room;
            }
            self.offset = at + n;
            done = done + n;
            if full {
                self.advance_slice();
            }
        }
        assert(dst@ =~= bytes.subrange(p0, p0 + dst_len));
        Ok(())
    }

    /// Seeks the position forward by the specified number of bytes.
    pub fn seek(&mut self, offset: usize) -> (r: Result<(), Error>)
        requires
            old(self).inv(),
        ensures
            final(self).skipped(old(self), offset as nat),
            r == (if offset <= old(self).remaining() {
                Ok::<(), Error>(())
            } else {
                Err(Error::EINVAL)
            }),
    {
        if offset > self.total_remaining() {
            return Err(Error::EINVAL);
        }
        let mut left: usize = offset;
        let ghost p0 = self.pos();
        let ghost lens0 = self.lens();
        while left > 0 && self.idx < self.len
            invariant
                self.inv(),
                self.slices == old(self).slices,
                self.len == old(self).len,
                lens0 == old(self).lens(),
                p0 + offset <= self.bytes().len(),
                left <= offset,
                self.pos() == p0 + (offset - left),
                advanced(lens0, self.idx as nat, self.offset as nat, left as nat) == advanced(
                    lens0,
                    old(self).idx as nat,
                    old(self).offset as nat,
                    offset as nat,
                ),
            decreases self.len - self.idx, left,
        {
            let mut room: usize = 0;
            if let Some(current) = &self.slices[self.idx] {
                room = current.len() - self.offset;
            }
            if left < room {
                // Seek within the current slice.
                self.offset = self.offset + left;
                left = 0;
            } else {
                // Consume the rest of the current slice and move to the next one.
                left = left - room;
                self.advance_slice();
            }
        }
        Ok(())
    }

    /// Moves the position back to the start.
    pub fn reset_pos(&mut self)
        requires
            old(self).inv(),
        ensures
            final(self).inv(),
            final(self).slices == old(self).slices,
            final(self).len == old(self).len,
            final(self).idx == 0,
            final(self).offset == 0,
    {
        self.idx = 0;
        self.offset = 0;
    }

    /// Returns the position, as the index of a slice and an offset into it.
    pub fn current_pos(&self) -> (r: (usize, usize))
        ensures
            r == (self.idx, self.offset),
    {
        (self.idx, self.offset)
    }

    /// Writes one byte.
    pub fn write_byte(&mut self, byte: u8) -> (r: Result<(), Error>)
        requires
            old(self).inv(),
        ensures
            0 < old(self).len ==> final(final(self).slices@[0]->0)@ == final(
                old(self).slices@[0]->0
            )@,
            1 < old(self).len ==> final(final(self).slices@[1]->0)@ == final(
                old(self).slices@[1]->0
            )@,
            final(self).written(old(self), seq![byte], r),
    {
        let src = [byte];
        assert(src@ =~= seq![byte]);
        self.write(src.as_slice())
    }

    /// Writes a 16-bit integer, little-endian.
    pub fn write_word(&mut self, word: u16) -> (r: Result<(), Error>)
        requires
            old(self).inv(),
        ensures
            0 < old(self).len ==> final(final(self).slices@[0]->0)@ == final(
                old(self).slices@[0]->0
            )@,
            1 < old(self).len ==> final(final(self).slices@[1]->0)@ == final(
                old(self).slices@[1]->0
            )@,
            final(self).written(old(self), le16(word), r),
    {
        self.write(u16_to_le(word).as_slice())
    }

    /// Writes a 32-bit integer, little-endian.
    pub fn write_dword(&mut self, dword: u32) -> (r: Result<(), Error>)
        requires
            old(self).inv(),
        ensures
            0 < old(self).len ==> final(final(self).slices@[0]->0)@ == final(
                old(self).slices@[0]->0
            )@,
            1 < old(self).len ==> final(final(self).slices@[1]->0)@ == final(
                old(self).slices@[1]->0
            )@,
            final(self).written(old(self), le32(dword), r),
    {
        self.write(u32_to_le(dword).as_slice())
    }

    /// Writes all of `data`.
    pub fn write_bytes(&mut self, data: &[u8]) -> (r: Result<(), Error>)
        requires
            old(self).inv(),
        ensures
            0 < old(self).len ==> final(final(self).slices@[0]->0)@ == final(
                old(self).slices@[0]->0
            )@,
            1 < old(self).len ==> final(final(self).slices@[1]->0)@ == final(
                old(self).slices@[1]->0
            )@,
            final(self).written(old(self), data@, r),
    {
        self.write(data)
    }

    /// Writes the bytes of a string.
    pub fn write_str(&mut self, s: &str) -> (r: Result<(), Error>)
        requires
            old(self).inv(),
        ensures
            0 < old(self).len ==> final(final(self).slices@[0]->0)@ == final(
                old(self).slices@[0]->0
            )@,
            1 < old(self).len ==> final(final(self).slices@[1]->0)@ == final(
                old(self).slices@[1]->0
            )@,
            final(self).written(old(self), s.spec_bytes(), r),
    {
        self.write(s.as_bytes())
    }

    /// Writes all of `data`.
    pub fn write_slice(&mut self, data: &[u8]) -> (r: Result<(), Error>)
        requires
            old(self).inv(),
        ensures
            0 < old(self).len ==> final(final(self).slices@[0]->0)@ == final(
                old(self).slices@[0]->0
            )@,
            1 < old(self).len ==> final(final(self).slices@[1]->0)@ == final(
                old(self).slices@[1]->0
            )@,
            final(self).written(old(self), data@, r),
    {
        self.write(data)
    }

    /// Reads one byte.
    pub fn read_byte(&mut self) -> (r: Result<u8, Error>)
        requires
            old(self).inv(),
        ensures
            final(self).skipped(old(self), 1),
            r == (if 1 <= old(self).remaining() {
                Ok::<u8, Error>(old(self).bytes()[old(self).pos()])
            } else {
                Err(Error::EINVAL)
            }),
    {
        let mut buf = [0u8];
        match self.read(&mut buf) {
            Ok(_) => Ok(buf[0]),
            Err(e) => Err(e),
        }
    }

    /// Reads a 16-bit integer, little-endian.
    pub fn read_word(&mut self) -> (r: Result<u16, Error>)
        requires
            old(self).inv(),
        ensures
            final(self).skipped(old(self), 2),
            r == (if 2 <= old(self).remaining() {
                Ok::<u16, Error>(get_le16(old(self).bytes(), old(self).pos()))
            } else {
                Err(Error::EINVAL)
            }),
    {
        let mut buf = [0u8, 0u8];
        match self.read(&mut buf) {
            Ok(_) => Ok(u16_at(buf.as_slice(), 0)),
            Err(e) => Err(e),
        }
    }

    /// Reads a 32-bit integer, little-endian.
    pub fn read_dword(&mut self) -> (r: Result<u32, Error>)
        requires
            old(self).inv(),
        ensures
            final(self).skipped(old(self), 4),
            r == (if 4 <= old(self).remaining() {
                Ok::<u32, Error>(get_le32(old(self).bytes(), old(self).pos()))
            } else {
                Err(Error::EINVAL)
            }),
    {
        reveal(get_le32);
        let mut buf = [0u8, 0u8, 0u8, 0u8];
        match self.read(&mut buf) {
            Ok(_) => Ok(u32_at(buf.as_slice(), 0)),
            Err(e) => Err(e),
        }
    }

    /// Fills all of `dst`.
    pub fn read_bytes(&mut self, dst: &mut [u8]) -> (r: Result<(), Error>)
        requires
            old(self).inv(),
        ensures
            final(self).skipped(old(self), old(dst)@.len()),
            r == (if old(dst)@.len() <= old(self).remaining() {
                Ok::<(), Error>(())
            } else {
                Err(Error::EINVAL)
            }),
            final(dst)@ == (if r is Ok {
                old(self).ahead(old(dst)@.len())
            } else {
                old(dst)@
            }),
    {
        self.read(dst)
    }

    /// Reads a string into a buffer for up to `len` bytes. Fails with [`Error::ENOMEM`] if no
    /// buffer can have room for that many.
    ///
    /// The buffer starts out empty, and a read fills the bytes that its destination
    /// has, so that the string is empty and the position stays where it is, whatever
    /// `len` is.
    pub fn read_str(&mut self, len: usize) -> (r: Result<CString, Error>)
        requires
            old(self).inv(),
        ensures
            final(self).skipped(old(self), 0),
            r is Ok <==> len <= isize::MAX,
            r is Ok ==> r->Ok_0.inv(),
            r is Ok ==> r->Ok_0.buf@ == seq![0u8],
            r is Err ==> r->Err_0 == Error::ENOMEM,
    {
        if len > isize::MAX as usize {
            return Err(Error::ENOMEM);
        }
        // Nothing is put into the buffer, so that it takes no memory.
        let mut buf: Vec<u8> = Vec::new();
        match self.read(buf.as_mut_slice()) {
            Ok(_) => string_from_bytes(buf.as_slice()),
            Err(e) => Err(e),
        }
    }

    /// Returns an iterator over the bytes from the position on.
    pub fn byte_iter<'b>(&'b mut self) -> (r: SBufferByteIterator<'b, 'a>)
        ensures
            *r.sbuf == *old(self),
            *final(r.sbuf) == *final(self),
            r.pos == 0,
    {
        SBufferByteIterator { sbuf: self, pos: 0 }
    }
}

/// An iterator over the bytes of a buffer. It moves the position of the buffer.
pub struct SBufferByteIterator<'b, 'a> {
    /// The buffer.
    pub sbuf: &'b mut SBuffer<'a>,
    /// Not moved by the iteration.
    pub pos: usize,
}

impl<'b, 'a> SBufferByteIterator<'b, 'a> {
    /// The byte that comes next.
    pub open spec fn peek(&self) -> Option<u8> {
        if self.sbuf.remaining() > 0 {
            Some(self.sbuf.bytes()[self.sbuf.pos()])
        } else {
            None
        }
    }

    /// Returns the byte at the position and moves past it, or `None` at the end.
    pub fn next(&mut self) -> (r: Option<u8>)
        requires
            old(self).sbuf.inv(),
        ensures
            final(self).sbuf.skipped(old(self).sbuf, 1),
            *final(final(self).sbuf) == *final(old(self).sbuf),
            final(self).pos == old(self).pos,
            r == old(self).peek(),
    {
        match self.sbuf.read_byte() {
            Ok(byte) => Some(byte),
            Err(_) => None,
        }
    }

    /// Does what [`Self::next`] does: bytes come from the front at either end.
    pub fn next_back(&mut self) -> (r: Option<u8>)
        requires
            old(self).sbuf.inv(),
        ensures
            final(self).sbuf.skipped(old(self).sbuf, 1),
            *final(final(self).sbuf) == *final(old(self).sbuf),
            final(self).pos == old(self).pos,
            r == old(self).peek(),
    {
        match self.sbuf.read_byte() {
            Ok(byte) => Some(byte),
            Err(_) => None,
        }
    }
}

/// Moving by `n` bytes and then by `m` is moving by `n + m`.
pub proof fn lemma_advanced_twice(lens: Seq<nat>, idx: nat, offset: nat, n: nat, m: nat)
    requires
        idx < lens.len() ==> offset <= lens[idx as int],
    ensures
        ({
            let mid = advanced(lens, idx, offset, n);
            advanced(lens, mid.0, mid.1, m) == advanced(lens, idx, offset, n + m)
        }),
    decreases lens.len() - idx,
{
    if n > 0 && idx < lens.len() && n >= lens[idx as int] - offset {
        let left = (n - (lens[idx as int] - offset)) as nat;
        lemma_advanced_twice(lens, idx + 1, 0, left, m);
        assert((n + m - (lens[idx as int] - offset)) as nat == left + m);
    }
}

/// What was written at a position is what a read at that position gives, and every
/// other byte is as before.
pub proof fn lemma_read_back(bytes: Seq<u8>, pos: int, src: Seq<u8>)
    requires
        0 <= pos,
        pos + src.len() <= bytes.len(),
    ensures
        splice(bytes, pos, src).subrange(pos, pos + src.len()) == src,
        splice(bytes, pos, src).len() == bytes.len(),
        forall|i: int|
            0 <= i < bytes.len() && !(pos <= i < pos + src.len()) ==> #[trigger] splice(
                bytes,
                pos,
                src,
            )[i] == bytes[i],
{
    lemma_splice(bytes, pos, src);
}

/// What was written to a buffer is what a read from where it was written gives.
///
/// `after` is `before` after `src` was written to it, and `reader` is `after` with the
/// position of `before`.
pub proof fn lemma_written_is_read(
    before: &SBuffer<'_>,
    after: &SBuffer<'_>,
    reader: &SBuffer<'_>,
    src: Seq<u8>,
)
    requires
        before.inv(),
        after.written(before, src, Ok::<(), Error>(())),
        reader.slices == after.slices,
        reader.len == after.len,
        reader.idx == before.idx,
        reader.offset == before.offset,
    ensures
        reader.inv(),
        src.len() <= reader.remaining(),
        reader.ahead(src.len()) == src,
{
    assert(src.len() <= before.remaining());
    lemma_splice(before.bytes(), before.pos(), src);
    assert(reader.part(0) == after.part(0));
    assert(reader.part(1) == after.part(1));
}

/// Writing `a` and then `b` leaves the bytes that writing both at once leaves.
pub proof fn lemma_write_in_pieces(bytes: Seq<u8>, pos: int, a: Seq<u8>, b: Seq<u8>)
    requires
        0 <= pos,
        pos + a.len() + b.len() <= bytes.len(),
    ensures
        splice(splice(bytes, pos, a), pos + a.len(), b) == splice(bytes, pos, a + b),
{
    lemma_splice_join(bytes, pos, a, b);
}

} // verus!
