//! Laws of integers and copies of bytes.

use vstd::prelude::*;

use crate::bytes::{append, copy_into, put_bytes, u16_at, u16_to_le, u32_at, u32_to_le};
use crate::bytes::{
    byte_of, get_le16, get_le32, get_le64, le16, le32, le64, splice, u64_at, u64_to_le, zeros,
};

verus! {

/// The bytes of a 16-bit integer are its digits to the base 256, the lowest one first.
pub proof fn law_le16(x: u16)
    ensures
        le16(x).len() == 2,
        le16(x)[0] + le16(x)[1] * 0x100 == x,
{
}

/// The bytes of a 32-bit integer are its digits to the base 256, the lowest one first.
pub proof fn law_le32(x: u32)
    ensures
        le32(x).len() == 4,
        le32(x)[0] + le32(x)[1] * 0x100 + le32(x)[2] * 0x1_0000 + le32(x)[3] * 0x100_0000 == x,
{
    reveal(byte_of);
}

/// The bytes of a 64-bit integer are its digits to the base 256, the lowest one first.
pub proof fn law_le64(x: u64)
    ensures
        le64(x).len() == 8,
        le64(x)[0] + le64(x)[1] * 0x100 + le64(x)[2] * 0x1_0000 + le64(x)[3] * 0x100_0000
            + le64(x)[4] * 0x1_0000_0000 + le64(x)[5] * 0x100_0000_0000 + le64(x)[6]
            * 0x1_0000_0000_0000 + le64(x)[7] * 0x100_0000_0000_0000 == x,
{
    let lo = (x % 0x1_0000_0000) as u32;
    let hi = (x / 0x1_0000_0000) as u32;
    law_le32(lo);
    law_le32(hi);
    let s = le64(x);
    assert(s[0] == le32(lo)[0] && s[1] == le32(lo)[1] && s[2] == le32(lo)[2] && s[3] == le32(
        lo,
    )[3]);
    assert(s[4] == le32(hi)[0] && s[5] == le32(hi)[1] && s[6] == le32(hi)[2] && s[7] == le32(
        hi,
    )[3]);
}

/// An integer is the sum of the bytes that it is read from, each of them worth 256 times the
/// one in front of it.
pub proof fn law_get_le(s: Seq<u8>, at: int)
    ensures
        get_le16(s, at) == s[at] + s[at + 1] * 0x100,
        get_le32(s, at) == s[at] + s[at + 1] * 0x100 + s[at + 2] * 0x1_0000 + s[at + 3]
            * 0x100_0000,
        get_le64(s, at) == s[at] + s[at + 1] * 0x100 + s[at + 2] * 0x1_0000 + s[at + 3]
            * 0x100_0000 + s[at + 4] * 0x1_0000_0000 + s[at + 5] * 0x100_0000_0000 + s[at + 6]
            * 0x1_0000_0000_0000 + s[at + 7] * 0x100_0000_0000_0000,
{
    reveal(get_le32);
}

/// A splice, byte by byte.
pub proof fn law_splice(s: Seq<u8>, at: int, b: Seq<u8>, i: int)
    requires
        0 <= at,
        at + b.len() <= s.len(),
        0 <= i < s.len(),
    ensures
        splice(s, at, b).len() == s.len(),
        splice(s, at, b)[i] == (if at <= i < at + b.len() {
            b[i - at]
        } else {
            s[i]
        }),
{
}

/// All of the zeros are zero.
pub proof fn law_zeros(n: nat, i: int)
    requires
        0 <= i < n,
    ensures
        zeros(n).len() == n,
        zeros(n)[i] == 0,
{
}

/// The bytes that are written for an integer are its digits to the base 256.
pub proof fn law_to_le(x: u16, y: u32, z: u64, a: [u8; 2], b: [u8; 4], c: [u8; 8])
    requires
        call_ensures(u16_to_le, (x,), a),
        call_ensures(u32_to_le, (y,), b),
        call_ensures(u64_to_le, (z,), c),
    ensures
        a@[0] + a@[1] * 0x100 == x,
        b@[0] + b@[1] * 0x100 + b@[2] * 0x1_0000 + b@[3] * 0x100_0000 == y,
        c@[0] + c@[1] * 0x100 + c@[2] * 0x1_0000 + c@[3] * 0x100_0000 + c@[4] * 0x1_0000_0000
            + c@[5] * 0x100_0000_0000 + c@[6] * 0x1_0000_0000_0000 + c@[7]
            * 0x100_0000_0000_0000 == z,
{
    law_le16(x);
    law_le32(y);
    law_le64(z);
}

/// The integer that is read has the bytes that it is read from for its digits.
pub proof fn law_read_le(s: &[u8], at: usize, x: u16, y: u32, z: u64)
    requires
        at + 2 <= s@.len() ==> call_ensures(u16_at, (s, at), x),
        at + 4 <= s@.len() ==> call_ensures(u32_at, (s, at), y),
        at + 8 <= s@.len() ==> call_ensures(u64_at, (s, at), z),
    ensures
        at + 2 <= s@.len() ==> x == s@[at as int] + s@[at + 1] * 0x100,
        at + 4 <= s@.len() ==> y == s@[at as int] + s@[at + 1] * 0x100 + s@[at + 2] * 0x1_0000
            + s@[at + 3] * 0x100_0000,
        at + 8 <= s@.len() ==> z == s@[at as int] + s@[at + 1] * 0x100 + s@[at + 2] * 0x1_0000
            + s@[at + 3] * 0x100_0000 + s@[at + 4] * 0x1_0000_0000 + s@[at + 5]
            * 0x100_0000_0000 + s@[at + 6] * 0x1_0000_0000_0000 + s@[at + 7]
            * 0x100_0000_0000_0000,
{
    law_get_le(s@, at as int);
}

/// A copy puts each byte of its source where it belongs, and leaves all other bytes alone.
pub proof fn law_copy_into(dst: &mut [u8], at: usize, src: &[u8], from: usize, n: usize)
    requires
        at + n <= old(dst)@.len(),
        from + n <= src@.len(),
        call_ensures(copy_into, (dst, at, src, from, n), ()),
    ensures
        final(dst)@.len() == old(dst)@.len(),
        forall|i: int| 0 <= i < n ==> final(dst)@[at + i] == #[trigger] src@[from + i],
        forall|i: int|
            0 <= i < old(dst)@.len() && !(at <= i < at + n) ==> #[trigger] final(dst)@[i] == old(
                dst,
            )@[i],
{
    let piece = src@.subrange(from as int, from + n);
    assert forall|i: int| 0 <= i < n implies final(dst)@[at + i] == #[trigger] src@[from + i] by {
        assert(piece[i] == src@[from + i]);
        law_splice(old(dst)@, at as int, piece, at + i);
    }
}

/// Bytes that are put somewhere stand there, and all other bytes are left alone.
pub proof fn law_put_bytes(dst: &mut [u8], at: usize, src: &[u8])
    requires
        at + src@.len() <= old(dst)@.len(),
        call_ensures(put_bytes, (dst, at, src), ()),
    ensures
        final(dst)@.len() == old(dst)@.len(),
        forall|i: int| 0 <= i < src@.len() ==> final(dst)@[at + i] == #[trigger] src@[i],
        forall|i: int|
            0 <= i < old(dst)@.len() && !(at <= i < at + src@.len()) ==> #[trigger] final(dst)@[i]
                == old(dst)@[i],
{
    assert forall|i: int| 0 <= i < src@.len() implies final(dst)@[at + i] == #[trigger] src@[i] by {
        law_splice(old(dst)@, at as int, src@, at + i);
    }
}

/// Appending keeps what is there and puts every byte behind it.
pub proof fn law_append(dst: &mut Vec<u8>, src: &[u8])
    requires
        call_ensures(append, (dst, src), ()),
    ensures
        final(dst)@.len() == old(dst)@.len() + src@.len(),
        forall|i: int| 0 <= i < old(dst)@.len() ==> #[trigger] final(dst)@[i] == old(dst)@[i],
        forall|i: int|
            0 <= i < src@.len() ==> final(dst)@[old(dst)@.len() + i] == #[trigger] src@[i],
{
}

} // verus!
