//! Byte sequences: little-endian integers and in-place copies.

use vstd::prelude::*;

verus! {

/// `s` with the bytes from `at` on replaced by `b`.
pub open spec fn splice(s: Seq<u8>, at: int, b: Seq<u8>) -> Seq<u8> {
    s.take(at) + b + s.skip(at + b.len())
}

/// `n` zero bytes.
pub open spec fn zeros(n: nat) -> Seq<u8> {
    Seq::new(n, |i: int| 0u8)
}

/// The little-endian bytes of a 16-bit integer.
pub open spec fn le16(x: u16) -> Seq<u8> {
    seq![(x % 256) as u8, (x / 256) as u8]
}

/// The `i`-th byte of a 32-bit integer, the lowest one first.
#[verifier::opaque]
pub open spec fn byte_of(x: u32, i: int) -> u8 {
    if i == 0 {
        (x % 256) as u8
    } else if i == 1 {
        (x / 0x100 % 256) as u8
    } else if i == 2 {
        (x / 0x1_0000 % 256) as u8
    } else {
        (x / 0x100_0000) as u8
    }
}

/// The little-endian bytes of a 32-bit integer.
pub open spec fn le32(x: u32) -> Seq<u8> {
    Seq::new(4, |i: int| byte_of(x, i))
}

/// The little-endian bytes of a 64-bit integer.
pub open spec fn le64(x: u64) -> Seq<u8> {
    le32((x % 0x1_0000_0000) as u32) + le32((x / 0x1_0000_0000) as u32)
}

/// The 16-bit integer whose little-endian bytes start at `at`.
pub open spec fn get_le16(s: Seq<u8>, at: int) -> u16 {
    (s[at] + s[at + 1] * 0x100) as u16
}

/// The 32-bit integer whose little-endian bytes start at `at`.
#[verifier::opaque]
pub open spec fn get_le32(s: Seq<u8>, at: int) -> u32 {
    (s[at] + s[at + 1] * 0x100 + s[at + 2] * 0x1_0000 + s[at + 3] * 0x100_0000) as u32
}

/// The 64-bit integer whose little-endian bytes start at `at`.
pub open spec fn get_le64(s: Seq<u8>, at: int) -> u64 {
    (get_le32(s, at) + get_le32(s, at + 4) * 0x1_0000_0000) as u64
}

/// An integer is read back from the bytes that were written for it.
pub proof fn lemma_le16_round_trip(x: u16)
    ensures
        le16(x).len() == 2,
        get_le16(le16(x), 0) == x,
{
}

/// An integer is read back from the bytes that were written for it.
pub proof fn lemma_le32_round_trip(x: u32)
    ensures
        le32(x).len() == 4,
        get_le32(le32(x), 0) == x,
{
    reveal(get_le32);
    reveal(byte_of);
}

/// The bytes of an integer that was read from bytes are those bytes.
pub proof fn lemma_le32_of_get(s: Seq<u8>, at: int)
    requires
        0 <= at,
        at + 4 <= s.len(),
    ensures
        le32(get_le32(s, at)) == s.subrange(at, at + 4),
{
    reveal(get_le32);
    reveal(byte_of);
    let x = get_le32(s, at);
    lemma_digits(x as int, s[at] as int, s[at + 1] as int, s[at + 2] as int, s[at + 3] as int);
    assert(le32(x).len() == 4);
    assert(le32(x)[0] == s[at]);
    assert(le32(x)[1] == s[at + 1]);
    assert(le32(x)[2] == s[at + 2]);
    assert(le32(x)[3] == s[at + 3]);
    assert(le32(x) =~= s.subrange(at, at + 4));
}

/// The digits of a number of four digits to the base 256.
proof fn lemma_digits(x: int, a: int, b: int, c: int, d: int)
    requires
        0 <= a < 256,
        0 <= b < 256,
        0 <= c < 256,
        0 <= d < 256,
        x == a + b * 0x100 + c * 0x1_0000 + d * 0x100_0000,
    ensures
        x % 256 == a,
        x / 0x100 % 256 == b,
        x / 0x1_0000 % 256 == c,
        x / 0x100_0000 == d,
{
    let z = c + 256 * d;
    let y = b + 256 * z;
    assert(x == a + 256 * y);
    assert(x / 0x100 == y);
    assert(x == (a + 256 * b) + 0x1_0000 * z);
    assert(x / 0x1_0000 == z);
    assert(x == (a + 256 * b + 0x1_0000 * c) + 0x100_0000 * d);
}

/// The bytes of an integer that was read from bytes are those bytes.
pub proof fn lemma_le64_of_get(s: Seq<u8>, at: int)
    requires
        0 <= at,
        at + 8 <= s.len(),
    ensures
        le64(get_le64(s, at)) == s.subrange(at, at + 8),
{
    let lo = get_le32(s, at);
    let hi = get_le32(s, at + 4);
    let x = get_le64(s, at);
    assert(x == lo + hi * 0x1_0000_0000);
    assert(x % 0x1_0000_0000 == lo && x / 0x1_0000_0000 == hi);
    lemma_le32_of_get(s, at);
    lemma_le32_of_get(s, at + 4);
    assert(s.subrange(at, at + 4) + s.subrange(at + 4, at + 8) =~= s.subrange(at, at + 8));
}

/// An integer is read back from where its bytes stand.
pub proof fn lemma_get_le16(s: Seq<u8>, at: int, x: u16)
    requires
        0 <= at,
        at + 2 <= s.len(),
        s.subrange(at, at + 2) == le16(x),
    ensures
        get_le16(s, at) == x,
{
    lemma_le16_round_trip(x);
    let t = s.subrange(at, at + 2);
    assert(t[0] == s[at] && t[1] == s[at + 1]);
}

/// An integer is read back from where its bytes stand.
pub proof fn lemma_get_le32(s: Seq<u8>, at: int, x: u32)
    requires
        0 <= at,
        at + 4 <= s.len(),
        s.subrange(at, at + 4) == le32(x),
    ensures
        get_le32(s, at) == x,
{
    reveal(get_le32);
    lemma_le32_round_trip(x);
    let t = s.subrange(at, at + 4);
    assert(t[0] == s[at] && t[1] == s[at + 1] && t[2] == s[at + 2] && t[3] == s[at + 3]);
}

/// An integer is read back from where its bytes stand.
pub proof fn lemma_get_le64(s: Seq<u8>, at: int, x: u64)
    requires
        0 <= at,
        at + 8 <= s.len(),
        s.subrange(at, at + 8) == le64(x),
    ensures
        get_le64(s, at) == x,
{
    let t = s.subrange(at, at + 8);
    assert(s.subrange(at, at + 4) =~= t.subrange(0, 4));
    assert(s.subrange(at + 4, at + 8) =~= t.subrange(4, 8));
    assert(t.subrange(0, 4) =~= le32((x % 0x1_0000_0000) as u32));
    assert(t.subrange(4, 8) =~= le32((x / 0x1_0000_0000) as u32));
    lemma_get_le32(s, at, (x % 0x1_0000_0000) as u32);
    lemma_get_le32(s, at + 4, (x / 0x1_0000_0000) as u32);
}

/// A splice keeps the length and every byte outside the replaced range, and
/// holds the new bytes inside it.
pub proof fn lemma_splice(s: Seq<u8>, at: int, b: Seq<u8>)
    requires
        0 <= at,
        at + b.len() <= s.len(),
    ensures
        splice(s, at, b).len() == s.len(),
        splice(s, at, b).subrange(at, at + b.len()) == b,
        splice(s, at, b).take(at) == s.take(at),
        splice(s, at, b).skip(at + b.len()) == s.skip(at + b.len()),
{
    assert(splice(s, at, b).subrange(at, at + b.len()) =~= b);
    assert(splice(s, at, b).take(at) =~= s.take(at));
    assert(splice(s, at, b).skip(at + b.len()) =~= s.skip(at + b.len()));
}

/// Two adjoining splices are one splice of the joined bytes.
pub proof fn lemma_splice_join(s: Seq<u8>, at: int, a: Seq<u8>, b: Seq<u8>)
    requires
        0 <= at,
        at + a.len() + b.len() <= s.len(),
    ensures
        splice(splice(s, at, a), at + a.len(), b) == splice(s, at, a + b),
{
    assert(splice(splice(s, at, a), at + a.len(), b) =~= splice(s, at, a + b));
}

/// Where `head`, `old_mid` and `tail` stand at `at`, replacing `old_mid` alone is replacing
/// all three of them.
pub proof fn lemma_splice_inner(
    s: Seq<u8>,
    at: int,
    head: Seq<u8>,
    old_mid: Seq<u8>,
    new_mid: Seq<u8>,
    tail: Seq<u8>,
)
    requires
        0 <= at,
        at + head.len() + old_mid.len() + tail.len() <= s.len(),
        old_mid.len() == new_mid.len(),
        s.subrange(at, at + head.len() + old_mid.len() + tail.len()) == head + old_mid + tail,
    ensures
        splice(s, at, head + new_mid + tail) == splice(s, at + head.len(), new_mid),
{
    let n = head.len() + old_mid.len() + tail.len();
    let a = splice(s, at, head + new_mid + tail);
    let b = splice(s, at + head.len(), new_mid);
    assert(a.len() == s.len() && b.len() == s.len());
    assert forall|j: int| 0 <= j < s.len() implies a[j] == b[j] by {
        if at <= j < at + n {
            assert(s[j] == s.subrange(at, at + n)[j - at]);
        }
    }
    assert(a =~= b);
}

/// Copies `n` bytes of `src`, from `from` on, over the bytes of `dst` from `at` on.
pub fn copy_into(dst: &mut [u8], at: usize, src: &[u8], from: usize, n: usize)
    requires
        at + n <= old(dst)@.len(),
        from + n <= src@.len(),
    ensures
        final(dst)@ == splice(old(dst)@, at as int, src@.subrange(from as int, from + n)),
{
    let dst_len: usize = dst.len();
    let src_len: usize = src.len();
    let mut i: usize = 0;
    while i < n
        invariant
            i <= n,
            dst@.len() == dst_len,
            old(dst)@.len() == dst_len,
            src@.len() == src_len,
            at + n <= dst_len,
            from + n <= src_len,
            forall|j: int| 0 <= j < dst_len ==> #[trigger] dst@[j] == (if at <= j < at + i {
                src@[from + j - at]
            } else {
                old(dst)@[j]
            }),
        decreases n - i,
    {
        dst[at + i] = src[from + i];
        i = i + 1;
    }
    assert(dst@ =~= splice(old(dst)@, at as int, src@.subrange(from as int, from + n)));
}

/// Writes all of `src` over the bytes of `dst` from `at` on.
pub fn put_bytes(dst: &mut [u8], at: usize, src: &[u8])
    requires
        at + src@.len() <= old(dst)@.len(),
    ensures
        final(dst)@ == splice(old(dst)@, at as int, src@),
{
    assert(src@.subrange(0, src@.len() as int) =~= src@);
    copy_into(dst, at, src, 0, src.len());
}

/// The little-endian bytes of `x`.
pub fn u16_to_le(x: u16) -> (r: [u8; 2])
    ensures
        r@ == le16(x),
{
    let r = [(x % 256) as u8, (x / 256) as u8];
    assert(r@ =~= le16(x));
    r
}

/// The little-endian bytes of `x`.
pub fn u32_to_le(x: u32) -> (r: [u8; 4])
    ensures
        r@ == le32(x),
{
    let r = [
        (x % 256) as u8,
        (x / 0x100 % 256) as u8,
        (x / 0x1_0000 % 256) as u8,
        (x / 0x100_0000) as u8,
    ];
    reveal(byte_of);
    assert(r@ =~= le32(x));
    r
}

/// The little-endian bytes of `x`.
pub fn u64_to_le(x: u64) -> (r: [u8; 8])
    ensures
        r@ == le64(x),
{
    let lo = u32_to_le((x % 0x1_0000_0000) as u32);
    let hi = u32_to_le((x / 0x1_0000_0000) as u32);
    let r = [lo[0], lo[1], lo[2], lo[3], hi[0], hi[1], hi[2], hi[3]];
    assert(r@ =~= le64(x));
    r
}

/// The 16-bit integer whose little-endian bytes start at `at`.
pub fn u16_at(s: &[u8], at: usize) -> (r: u16)
    requires
        at + 2 <= s@.len(),
    ensures
        r == get_le16(s@, at as int),
{
    let len: usize = s.len();
    s[at] as u16 + s[at + 1] as u16 * 0x100
}

/// The 32-bit integer whose little-endian bytes start at `at`.
pub fn u32_at(s: &[u8], at: usize) -> (r: u32)
    requires
        at + 4 <= s@.len(),
    ensures
        r == get_le32(s@, at as int),
{
    reveal(get_le32);
    let len: usize = s.len();
    s[at] as u32 + s[at + 1] as u32 * 0x100 + s[at + 2] as u32 * 0x1_0000 + s[at + 3] as u32
        * 0x100_0000
}

/// The 64-bit integer whose little-endian bytes start at `at`.
pub fn u64_at(s: &[u8], at: usize) -> (r: u64)
    requires
        at + 8 <= s@.len(),
    ensures
        r == get_le64(s@, at as int),
{
    let len: usize = s.len();
    u32_at(s, at) as u64 + u32_at(s, at + 4) as u64 * 0x1_0000_0000
}

/// Appends `src` to `dst`.
pub fn append(dst: &mut Vec<u8>, src: &[u8])
    ensures
        final(dst)@ == old(dst)@ + src@,
{
    let mut i: usize = 0;
    assert(dst@ =~= old(dst)@ + src@.take(0));
    while i < src.len()
        invariant
            i <= src@.len(),
            dst@ == old(dst)@ + src@.take(i as int),
        decreases src@.len() - i,
    {
        dst.push(src[i]);
        assert(src@.take(i + 1) =~= src@.take(i as int).push(src@[i as int]));
        assert(dst@ =~= old(dst)@ + src@.take(i + 1));
        i = i + 1;
    }
    assert(src@.take(src@.len() as int) =~= src@);
}

} // verus!
