//! Laws of the buffer over discontiguous slices.

use vstd::prelude::*;
use vstd::string::StringSliceAdditionalSpecFns;

use crate::bytes::{get_le16, get_le32, le16, le32};
use crate::cstring::CString;
use crate::error::Error;
use crate::laws::bytes::{law_get_le, law_le16, law_le32, law_splice};
use crate::sbuffer::{SBuffer, SBufferByteIterator};

verus! {

/// The bytes of a slice that a buffer may have.
pub open spec fn slice_bytes(b: &SBuffer<'_>, i: int) -> Seq<u8> {
    match b.slices@[i] {
        Some(s) => s@,
        None => Seq::empty(),
    }
}

/// The bytes of the slices that a buffer uses, one behind the other.
pub open spec fn content(b: &SBuffer<'_>) -> Seq<u8> {
    if b.len == 0 {
        Seq::empty()
    } else if b.len == 1 {
        slice_bytes(b, 0)
    } else {
        slice_bytes(b, 0) + slice_bytes(b, 1)
    }
}

/// How many bytes are in front of the position of a buffer.
pub open spec fn passed(b: &SBuffer<'_>) -> int {
    if b.idx == 0 {
        b.offset as int
    } else if b.idx == 1 {
        slice_bytes(b, 0).len() + b.offset
    } else {
        content(b).len() as int
    }
}

/// The position of a buffer that something was read from or written to is in the slice that the
/// next byte is in, and behind the last slice if there is no next byte.
pub open spec fn names_next_byte(b: &SBuffer<'_>) -> bool {
    let first = slice_bytes(b, 0).len();
    &&& b.len >= 1 && passed(b) < first ==> b.idx == 0 && b.offset == passed(b)
    &&& b.len == 1 && passed(b) == first ==> b.idx == 1 && b.offset == 0
    &&& b.len == 2 && first <= passed(b) < content(b).len() ==> b.idx == 1 && b.offset == passed(b)
        - first
    &&& b.len == 2 && slice_bytes(b, 1).len() > 0 && passed(b) == content(b).len() ==> b.idx == 2
        && b.offset == 0
}

/// What the contracts call the bytes and the position.
pub(crate) proof fn lemma_same(b: &SBuffer<'_>)
    requires
        b.inv(),
    ensures
        content(b) == b.bytes(),
        passed(b) == b.pos(),
        0 <= passed(b) <= content(b).len(),
        b.remaining() == content(b).len() - passed(b),
        passed(b) > 0 ==> names_next_byte(b),
{
    if b.len == 0 {
        assert(b.bytes() =~= Seq::<u8>::empty());
    }
    if b.len == 1 {
        assert(b.bytes() =~= slice_bytes(b, 0));
    }
}

/// A new buffer is the first two of the slices, with its position at the start.
pub proof fn law_new<'a>(slices: Vec<&'a mut [u8]>, r: SBuffer<'a>)
    requires
        slices@.len() >= 2 ==> slices@[0]@.len() + slices@[1]@.len() <= usize::MAX,
        call_ensures(SBuffer::new, (slices,), r),
    ensures
        slices@.len() == 0 ==> r.len == 0 && content(&r).len() == 0,
        slices@.len() == 1 ==> r.len == 1 && content(&r) == slices@[0]@,
        slices@.len() >= 2 ==> r.len == 2 && content(&r) == slices@[0]@ + slices@[1]@,
        passed(&r) == 0,
{
}

/// The size of a buffer, what is left of it, and its position.
pub proof fn law_sizes(b: &SBuffer<'_>, capacity: usize, remaining: usize, pos: (usize, usize))
    requires
        b.inv(),
        call_ensures(SBuffer::total_capacity, (b,), capacity),
        call_ensures(SBuffer::total_remaining, (b,), remaining),
        call_ensures(SBuffer::current_pos, (b,), pos),
    ensures
        capacity == content(b).len(),
        remaining == content(b).len() - passed(b),
        pos == (b.idx, b.offset),
{
    lemma_same(b);
}

/// `after` is `before` with `src` written at the position, which moved past it: each byte of
/// `src` is in its place and all other bytes are as they were. Where `src` does not fit, nothing
/// is different.
pub open spec fn was_written(
    before: &SBuffer<'_>,
    after: &SBuffer<'_>,
    src: Seq<u8>,
    r: Result<(), Error>,
) -> bool {
    let at = passed(before);
    &&& after.len == before.len
    &&& content(after).len() == content(before).len()
    &&& src.len() <= content(before).len() - at ==> {
        &&& r is Ok
        &&& passed(after) == at + src.len()
        &&& passed(after) > 0 ==> names_next_byte(after)
        &&& forall|i: int| 0 <= i < src.len() ==> content(after)[at + i] == #[trigger] src[i]
        &&& forall|i: int|
            0 <= i < content(before).len() && !(at <= i < at + src.len()) ==> #[trigger] content(
                after,
            )[i] == content(before)[i]
    }
    &&& src.len() > content(before).len() - at ==> {
        &&& r is Err && r->Err_0 == Error::ENOSPC
        &&& passed(after) == at
        &&& content(after) == content(before)
    }
}

/// What the contracts say of a write, byte by byte.
proof fn lemma_written(
    before: &SBuffer<'_>,
    after: &SBuffer<'_>,
    src: Seq<u8>,
    r: Result<(), Error>,
)
    requires
        before.inv(),
        after.written(before, src, r),
    ensures
        was_written(before, after, src, r),
{
    lemma_same(before);
    lemma_same(after);
    let at = passed(before);
    if src.len() <= before.remaining() {
        assert forall|i: int| 0 <= i < src.len() implies content(after)[at + i]
            == #[trigger] src[i] by {
            law_splice(before.bytes(), at, src, at + i);
        }
    }
}

/// `after` is `before` with the position moved forward by `n` bytes, or with nothing different
/// where fewer are left. No byte is different.
pub open spec fn was_moved(before: &SBuffer<'_>, after: &SBuffer<'_>, n: int) -> bool {
    &&& after.len == before.len
    &&& content(after) == content(before)
    &&& passed(after) > 0 ==> names_next_byte(after)
    &&& passed(after) == (if n <= content(before).len() - passed(before) {
        passed(before) + n
    } else {
        passed(before)
    })
}

/// What the contracts say of a move of the position.
proof fn lemma_moved(before: &SBuffer<'_>, after: &SBuffer<'_>, n: nat)
    requires
        before.inv(),
        after.skipped(before, n),
    ensures
        was_moved(before, after, n as int),
{
    lemma_same(before);
    lemma_same(after);
}

/// All bytes are written, or none.
pub proof fn law_write(b: &mut SBuffer<'_>, src: &[u8], r: Result<(), Error>)
    requires
        old(b).inv(),
        call_ensures(SBuffer::write, (b, src), r),
    ensures
        was_written(old(b), final(b), src@, r),
{
    lemma_written(old(b), final(b), src@, r);
}

/// All bytes are written, or none.
pub proof fn law_write_bytes(b: &mut SBuffer<'_>, src: &[u8], r: Result<(), Error>)
    requires
        old(b).inv(),
        call_ensures(SBuffer::write_bytes, (b, src), r),
    ensures
        was_written(old(b), final(b), src@, r),
{
    lemma_written(old(b), final(b), src@, r);
}

/// All bytes are written, or none.
pub proof fn law_write_slice(b: &mut SBuffer<'_>, src: &[u8], r: Result<(), Error>)
    requires
        old(b).inv(),
        call_ensures(SBuffer::write_slice, (b, src), r),
    ensures
        was_written(old(b), final(b), src@, r),
{
    lemma_written(old(b), final(b), src@, r);
}

/// All bytes are written, or none.
pub proof fn law_write_str(b: &mut SBuffer<'_>, s: &str, r: Result<(), Error>)
    requires
        old(b).inv(),
        call_ensures(SBuffer::write_str, (b, s), r),
    ensures
        was_written(old(b), final(b), s.spec_bytes(), r),
{
    lemma_written(old(b), final(b), s.spec_bytes(), r);
}

/// Integers are written as their bytes, the lowest one first.
pub proof fn law_write_integers(
    b: &mut SBuffer<'_>,
    c: &mut SBuffer<'_>,
    d: &mut SBuffer<'_>,
    byte: u8,
    word: u16,
    dword: u32,
    r: Result<(), Error>,
    s: Result<(), Error>,
    t: Result<(), Error>,
)
    requires
        old(b).inv(),
        old(c).inv(),
        old(d).inv(),
        call_ensures(SBuffer::write_byte, (b, byte), r),
        call_ensures(SBuffer::write_word, (c, word), s),
        call_ensures(SBuffer::write_dword, (d, dword), t),
    ensures
        was_written(old(b), final(b), seq![byte], r),
        s is Ok <==> 2 <= content(old(c)).len() - passed(old(c)),
        s is Ok ==> get_le16(content(final(c)), passed(old(c))) == word && passed(final(c))
            == passed(old(c)) + 2,
        s is Err ==> content(final(c)) == content(old(c)) && passed(final(c)) == passed(old(c)),
        t is Ok <==> 4 <= content(old(d)).len() - passed(old(d)),
        t is Ok ==> get_le32(content(final(d)), passed(old(d))) == dword && passed(final(d))
            == passed(old(d)) + 4,
        t is Err ==> content(final(d)) == content(old(d)) && passed(final(d)) == passed(old(d)),
{
    lemma_written(old(b), final(b), seq![byte], r);
    lemma_written(old(c), final(c), le16(word), s);
    lemma_written(old(d), final(d), le32(dword), t);
    law_le16(word);
    law_le32(dword);
    if s is Ok {
        let at = passed(old(c));
        law_get_le(content(final(c)), at);
        let x = le16(word);
        assert(content(final(c))[at + 0] == x[0] && content(final(c))[at + 1] == x[1]);
    }
    if t is Ok {
        let at = passed(old(d));
        law_get_le(content(final(d)), at);
        let x = le32(dword);
        assert(content(final(d))[at + 0] == x[0] && content(final(d))[at + 1] == x[1] && content(
            final(d),
        )[at + 2] == x[2] && content(final(d))[at + 3] == x[3]);
    }
}

/// All of the destination is filled with the bytes at the position, or nothing is read.
pub proof fn law_read(b: &mut SBuffer<'_>, dst: &mut [u8], r: Result<(), Error>)
    requires
        old(b).inv(),
        call_ensures(SBuffer::read, (b, dst), r),
    ensures
        was_moved(old(b), final(b), old(dst)@.len() as int),
        final(dst)@.len() == old(dst)@.len(),
        old(dst)@.len() <= content(old(b)).len() - passed(old(b)) ==> {
            &&& r is Ok
            &&& forall|i: int|
                0 <= i < old(dst)@.len() ==> #[trigger] final(dst)@[i] == content(
                    old(b),
                )[passed(old(b)) + i]
        },
        old(dst)@.len() > content(old(b)).len() - passed(old(b)) ==> {
            &&& r is Err && r->Err_0 == Error::EINVAL
            &&& final(dst)@ == old(dst)@
        },
{
    lemma_same(old(b));
    lemma_moved(old(b), final(b), old(dst)@.len());
}

/// All of the destination is filled with the bytes at the position, or nothing is read.
pub proof fn law_read_bytes(b: &mut SBuffer<'_>, dst: &mut [u8], r: Result<(), Error>)
    requires
        old(b).inv(),
        call_ensures(SBuffer::read_bytes, (b, dst), r),
    ensures
        was_moved(old(b), final(b), old(dst)@.len() as int),
        final(dst)@.len() == old(dst)@.len(),
        old(dst)@.len() <= content(old(b)).len() - passed(old(b)) ==> {
            &&& r is Ok
            &&& forall|i: int|
                0 <= i < old(dst)@.len() ==> #[trigger] final(dst)@[i] == content(
                    old(b),
                )[passed(old(b)) + i]
        },
        old(dst)@.len() > content(old(b)).len() - passed(old(b)) ==> {
            &&& r is Err && r->Err_0 == Error::EINVAL
            &&& final(dst)@ == old(dst)@
        },
{
    lemma_same(old(b));
    lemma_moved(old(b), final(b), old(dst)@.len());
}

/// Integers are read from the bytes at the position, the lowest one first.
pub proof fn law_read_integers(
    b: &mut SBuffer<'_>,
    c: &mut SBuffer<'_>,
    d: &mut SBuffer<'_>,
    byte: Result<u8, Error>,
    word: Result<u16, Error>,
    dword: Result<u32, Error>,
)
    requires
        old(b).inv(),
        old(c).inv(),
        old(d).inv(),
        call_ensures(SBuffer::read_byte, (b,), byte),
        call_ensures(SBuffer::read_word, (c,), word),
        call_ensures(SBuffer::read_dword, (d,), dword),
    ensures
        was_moved(old(b), final(b), 1),
        was_moved(old(c), final(c), 2),
        was_moved(old(d), final(d), 4),
        byte == (if 1 <= content(old(b)).len() - passed(old(b)) {
            Ok::<u8, Error>(content(old(b))[passed(old(b))])
        } else {
            Err(Error::EINVAL)
        }),
        word == (if 2 <= content(old(c)).len() - passed(old(c)) {
            Ok::<u16, Error>(get_le16(content(old(c)), passed(old(c))))
        } else {
            Err(Error::EINVAL)
        }),
        dword == (if 4 <= content(old(d)).len() - passed(old(d)) {
            Ok::<u32, Error>(get_le32(content(old(d)), passed(old(d))))
        } else {
            Err(Error::EINVAL)
        }),
{
    lemma_same(old(b));
    lemma_same(old(c));
    lemma_same(old(d));
    lemma_moved(old(b), final(b), 1);
    lemma_moved(old(c), final(c), 2);
    lemma_moved(old(d), final(d), 4);
}

/// Seeking moves the position and nothing else, and not past the end. Going back to the start
/// leaves the bytes.
pub proof fn law_seek(
    b: &mut SBuffer<'_>,
    c: &mut SBuffer<'_>,
    offset: usize,
    r: Result<(), Error>,
)
    requires
        old(b).inv(),
        old(c).inv(),
        call_ensures(SBuffer::seek, (b, offset), r),
        call_ensures(SBuffer::reset_pos, (c,), ()),
    ensures
        was_moved(old(b), final(b), offset as int),
        r is Ok <==> offset <= content(old(b)).len() - passed(old(b)),
        r is Err ==> r->Err_0 == Error::EINVAL,
        content(final(c)) == content(old(c)),
        passed(final(c)) == 0,
{
    lemma_same(old(b));
    lemma_moved(old(b), final(b), offset as nat);
}

/// Reading a string moves nothing and gives the empty string, unless its length is more than
/// any buffer can have.
pub proof fn law_read_str(b: &mut SBuffer<'_>, len: usize, r: Result<CString, Error>)
    requires
        old(b).inv(),
        call_ensures(SBuffer::read_str, (b, len), r),
    ensures
        was_moved(old(b), final(b), 0),
        len <= isize::MAX ==> r is Ok && r->Ok_0.buf@ == seq![0u8],
        len > isize::MAX ==> r is Err && r->Err_0 == Error::ENOMEM,
{
    lemma_moved(old(b), final(b), 0);
}

/// An iterator gives the byte at the position of the buffer and moves past it, from either end.
pub proof fn law_iterator<'b, 'a>(
    it: &mut SBufferByteIterator<'b, 'a>,
    back: &mut SBufferByteIterator<'b, 'a>,
    r: Option<u8>,
    s: Option<u8>,
)
    requires
        old(it).sbuf.inv(),
        old(back).sbuf.inv(),
        call_ensures(SBufferByteIterator::next, (it,), r),
        call_ensures(SBufferByteIterator::next_back, (back,), s),
    ensures
        was_moved(old(it).sbuf, final(it).sbuf, 1),
        was_moved(old(back).sbuf, final(back).sbuf, 1),
        r == (if passed(old(it).sbuf) < content(old(it).sbuf).len() {
            Some(content(old(it).sbuf)[passed(old(it).sbuf)])
        } else {
            None
        }),
        s == (if passed(old(back).sbuf) < content(old(back).sbuf).len() {
            Some(content(old(back).sbuf)[passed(old(back).sbuf)])
        } else {
            None
        }),
{
    lemma_same(old(it).sbuf);
    lemma_same(old(back).sbuf);
    lemma_moved(old(it).sbuf, final(it).sbuf, 1);
    lemma_moved(old(back).sbuf, final(back).sbuf, 1);
}

/// What is written and then read from the same position is what was written.
pub proof fn law_write_then_read(
    b: &mut SBuffer<'_>,
    c: &mut SBuffer<'_>,
    src: &[u8],
    dst: &mut [u8],
    r: Result<(), Error>,
    s: Result<(), Error>,
)
    requires
        old(b).inv(),
        old(c).inv(),
        call_ensures(SBuffer::write, (b, src), r),
        r is Ok,
        // The reader sees what was written, from the position of the writer on.
        content(old(c)) == content(final(b)),
        passed(old(c)) == passed(old(b)),
        old(dst)@.len() == src@.len(),
        call_ensures(SBuffer::read, (c, dst), s),
    ensures
        s is Ok,
        final(dst)@ == src@,
{
    law_write(b, src, r);
    law_read(c, dst, s);
    assert forall|i: int| 0 <= i < src@.len() implies final(dst)@[i] == src@[i] by {
        assert(content(final(b))[passed(old(b)) + i] == src@[i]);
    }
    assert(final(dst)@ =~= src@);
}

/// An iterator starts at the position of the buffer, and what it moves is that position.
pub proof fn law_byte_iter<'b, 'a>(b: &'b mut SBuffer<'a>, r: SBufferByteIterator<'b, 'a>)
    requires
        call_ensures(SBuffer::byte_iter, (b,), r),
    ensures
        *old(r.sbuf) == *old(b),
        *final(r.sbuf) == *final(b),
        r.pos == 0,
{
}

} // verus!
