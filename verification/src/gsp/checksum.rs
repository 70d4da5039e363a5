//! The checksum of messages.

use vstd::prelude::*;

use crate::bytes::{byte_of, le32, zeros};

verus! {

/// The checksum of `s`: its bytes, exclusive-ored into the four bytes of the result by
/// turns, the lowest one first.
pub open spec fn xor_sum(s: Seq<u8>) -> u32 {
    xor_sum_at(s, 0)
}

/// What the bytes `s` add to the checksum of data in which they stand at `at`.
pub open spec fn xor_sum_at(s: Seq<u8>, at: int) -> u32
    decreases s.len(),
{
    if s.len() == 0 {
        0
    } else {
        xor_sum_at(s.drop_last(), at) ^ in_lane(s.last(), at + s.len() - 1)
    }
}

/// The byte `b`, moved to the byte of a word that the index `i` selects.
pub open spec fn in_lane(b: u8, i: int) -> u32 {
    (b as u32) << ((i % 4 * 8) as u32)
}

/// The checksum of joined bytes is the exclusive or of what both pieces add.
pub proof fn lemma_xor_sum_concat(a: Seq<u8>, b: Seq<u8>, at: int)
    ensures
        xor_sum_at(a + b, at) == xor_sum_at(a, at) ^ xor_sum_at(b, at + a.len()),
    decreases b.len(),
{
    let x = xor_sum_at(a, at);
    if b.len() == 0 {
        assert(a + b =~= a);
        assert(x ^ 0 == x) by (bit_vector);
    } else {
        lemma_xor_sum_concat(a, b.drop_last(), at);
        assert((a + b).drop_last() =~= a + b.drop_last());
        let y = xor_sum_at(b.drop_last(), at + a.len());
        let z = in_lane(b.last(), at + a.len() + b.len() - 1);
        assert((x ^ y) ^ z == x ^ (y ^ z)) by (bit_vector);
    }
}

/// Zero bytes add nothing.
pub proof fn lemma_xor_sum_zeros(n: nat, at: int)
    ensures
        xor_sum_at(zeros(n), at) == 0,
    decreases n,
{
    if n > 0 {
        lemma_xor_sum_zeros((n - 1) as nat, at);
        assert(zeros(n).drop_last() =~= zeros((n - 1) as nat));
        let k = ((at + n - 1) % 4 * 8) as u32;
        assert(0u32 ^ (0u32 << k) == 0) by (bit_vector);
    }
}

/// The bytes of a word add the word.
pub proof fn lemma_xor_sum_word(c: u32, at: int)
    requires
        at % 4 == 0,
    ensures
        xor_sum_at(le32(c), at) == c,
{
    let s = le32(c);
    reveal(byte_of);
    reveal_with_fuel(xor_sum_at, 5);
    assert(s.drop_last().drop_last().drop_last().drop_last() =~= Seq::<u8>::empty());
    let b0 = (c % 256) as u32;
    let b1 = (c / 0x100 % 256) as u32;
    let b2 = (c / 0x1_0000 % 256) as u32;
    let b3 = (c / 0x100_0000) as u32;
    assert(in_lane(s[0], at) == b0 << 0u32);
    assert(in_lane(s[1], at + 1) == b1 << 8u32);
    assert(in_lane(s[2], at + 2) == b2 << 16u32);
    assert(in_lane(s[3], at + 3) == b3 << 24u32);
    assert((((0u32 ^ (b0 << 0u32)) ^ (b1 << 8u32)) ^ (b2 << 16u32)) ^ (b3 << 24u32) == c)
        by (bit_vector)
        requires
            b0 == c % 256,
            b1 == c / 0x100 % 256,
            b2 == c / 0x1_0000 % 256,
            b3 == c / 0x100_0000,
    ;
}

/// A change of one byte changes the checksum.
pub proof fn lemma_xor_sum_detects(s: Seq<u8>, i: int, b: u8)
    requires
        0 <= i < s.len(),
        b != s[i],
    ensures
        xor_sum(s.update(i, b)) != xor_sum(s),
{
    let head = s.take(i);
    let tail = s.skip(i + 1);
    lemma_one_byte(head, s[i], tail);
    lemma_one_byte(head, b, tail);
    assert(s =~= head + seq![s[i]] + tail);
    assert(s.update(i, b) =~= head + seq![b] + tail);
    let x = xor_sum(head);
    let y = xor_sum_at(tail, i + 1);
    let k = (i % 4 * 8) as u32;
    let old_byte = s[i] as u32;
    let new_byte = b as u32;
    assert((x ^ (new_byte << k)) ^ y != (x ^ (old_byte << k)) ^ y) by (bit_vector)
        requires
            k <= 24,
            old_byte < 256,
            new_byte < 256,
            old_byte != new_byte,
    ;
}

/// The checksum around one byte.
proof fn lemma_one_byte(head: Seq<u8>, b: u8, tail: Seq<u8>)
    ensures
        xor_sum(head + seq![b] + tail) == (xor_sum(head) ^ in_lane(b, head.len() as int))
            ^ xor_sum_at(tail, (head.len() + 1) as int),
{
    lemma_xor_sum_concat(head + seq![b], tail, 0);
    assert((head + seq![b]).drop_last() =~= head);
    assert((head + seq![b]).last() == b);
}

/// With its checksum in the place of a zero word, data has the checksum zero.
pub proof fn lemma_xor_sum_sealed(head: Seq<u8>, tail: Seq<u8>)
    requires
        head.len() % 4 == 0,
    ensures
        xor_sum(head + le32(xor_sum(head + le32(0) + tail)) + tail) == 0,
{
    let c = xor_sum(head + le32(0) + tail);
    let n = head.len() as int;
    lemma_xor_sum_concat(head + le32(0), tail, 0);
    lemma_xor_sum_concat(head, le32(0), 0);
    lemma_xor_sum_word(0, n);
    lemma_xor_sum_concat(head + le32(c), tail, 0);
    lemma_xor_sum_concat(head, le32(c), 0);
    lemma_xor_sum_word(c, n);
    let x = xor_sum(head);
    let y = xor_sum_at(tail, n + 4);
    assert((x ^ ((x ^ 0) ^ y)) ^ y == 0) by (bit_vector);
}

/// One step of the 64-bit accumulation, seen through its folded halves.
proof fn lemma_fold_step(acc: u64, b: u8, rol: u32)
    requires
        rol < 64,
        rol % 8 == 0,
    ensures
        fold(acc ^ ((b as u64) << rol)) == fold(acc) ^ ((b as u32) << (rol % 32)),
{
    assert((((acc ^ ((b as u64) << rol)) >> 32) as u32) ^ ((acc ^ ((b as u64) << rol)) as u32) == ((
    (acc >> 32) as u32) ^ (acc as u32)) ^ ((b as u32) << (rol % 32))) by (bit_vector)
        requires
            rol < 64,
            rol % 8 == 0,
    ;
}

/// Adding one byte to a running checksum.
proof fn lemma_update(c: Checksum, s: Seq<u8>, b: u8)
    requires
        c.of(s),
    ensures
        (Checksum {
            sum64: c.sum64 ^ ((b as u64) << ((c.idx * 8) as u32)),
            idx: ((c.idx + 1) % 8) as u32,
        }).of(s.push(b)),
{
    let rol = (c.idx * 8) as u32;
    lemma_fold_step(c.sum64, b, rol);
    assert(s.push(b).drop_last() =~= s);
    assert(rol % 32 == (s.len() as int) % 4 * 8);
}

/// The exclusive or of the halves of a 64-bit accumulator.
pub open spec fn fold(acc: u64) -> u32 {
    ((acc >> 32) as u32) ^ (acc as u32)
}

/// A running checksum: the accumulator, and the number of bytes that went in, modulo
/// eight.
pub struct Checksum {
    /// The bytes that went in, exclusive-ored.
    pub sum64: u64,
    /// The number of bytes that went in, modulo eight.
    pub idx: u32,
}

impl Checksum {
    /// `s` are the bytes that went in.
    pub open spec fn of(&self, s: Seq<u8>) -> bool {
        &&& self.idx == s.len() % 8
        &&& fold(self.sum64) == xor_sum(s)
    }

    /// The checksum of no bytes.
    pub fn new() -> (r: Self)
        ensures
            r.of(Seq::empty()),
    {
        assert(((0u64 >> 32) as u32) ^ (0u64 as u32) == 0) by (bit_vector);
        Checksum { sum64: 0, idx: 0 }
    }

    /// Adds `bytes`, after the bytes `s`.
    pub(crate) fn update(&mut self, bytes: &[u8], Ghost(s): Ghost<Seq<u8>>)
        requires
            old(self).of(s),
        ensures
            final(self).of(s + bytes@),
    {
        let mut i: usize = 0;
        assert(s + bytes@.take(0) =~= s);
        while i < bytes.len()
            invariant
                i <= bytes@.len(),
                self.of(s + bytes@.take(i as int)),
            decreases bytes@.len() - i,
        {
            let rol: u32 = self.idx * 8;
            let byte: u8 = bytes[i];
            proof {
                lemma_update(*self, s + bytes@.take(i as int), byte);
                assert((s + bytes@.take(i as int)).push(byte) =~= s + bytes@.take(i + 1));
            }
            self.sum64 = self.sum64 ^ ((byte as u64) << rol);
            self.idx = (self.idx + 1) % 8;
            i = i + 1;
        }
        assert(bytes@.take(bytes@.len() as int) =~= bytes@);
    }

    /// Returns the checksum.
    pub fn finish(&self) -> (r: u32)
        ensures
            r == fold(self.sum64),
    {
        ((self.sum64 >> 32) as u32) ^ (self.sum64 as u32)
    }
}

} // verus!
