//! Laws of alignment and of the last set bit.

use vstd::arithmetic::power2::{lemma2_to64, lemma_pow2_adds, lemma_pow2_pos, pow2};
use vstd::prelude::*;

use crate::gsp::gsp_heap_alignment;
use crate::num::{is_power_of_2, lemma_aligned_neighbours, NumExt};
use crate::ptr::{Alignable, Alignment};

verus! {

/// `down` is the multiple of `a` at or below `n`, and `up` the one at or above it, or zero if
/// that is more than `max`.
pub open spec fn aligned(n: int, a: int, max: int, down: int, up: int) -> bool {
    let next = if down == n {
        n
    } else {
        down + a
    };
    &&& down % a == 0
    &&& down <= n < down + a
    &&& up == (if next <= max {
        next
    } else {
        0
    })
}

/// `r` is the number of bits that `n` needs.
pub open spec fn bit_length(n: nat, r: nat) -> bool {
    &&& n == 0 ==> r == 0
    &&& n > 0 ==> r > 0 && pow2((r - 1) as nat) <= n < pow2(r)
}

/// Aligning to a power of two gives the multiples of it around a number; aligning to anything
/// else clears the bits below, and to zero all of them.
pub proof fn law_align_usize(n: usize, a: usize, k: nat, down: usize, up: usize)
    requires
        call_ensures(<usize as NumExt>::align_down, (n, a), down),
        call_ensures(<usize as NumExt>::align_up, (n, a), up),
    ensures
        a == pow2(k) ==> aligned(n as int, a as int, usize::MAX as int, down as int, up as int),
        a > 0 ==> down == n & !((a - 1) as usize),
        a > 0 && n + (a - 1) <= usize::MAX ==> up == ((n + (a - 1)) as usize) & !((a - 1) as usize),
        a > 0 && n + (a - 1) > usize::MAX ==> up == ((n + (a - 1) - usize::MAX - 1) as usize) & !((a
            - 1) as usize),
        a == 0 ==> down == 0 && up == 0,
{
    lemma2_to64();
    vstd::layout::unsigned_int_max_values();
    if a == pow2(k) {
        lemma_pow2_pos(k);
        assert(is_power_of_2(a as nat));
        lemma_aligned_neighbours(n as nat, a as nat);
    }
}

/// The last set bit tells how many bits a number needs.
pub proof fn law_fls_usize(n: usize, r: u32)
    requires
        call_ensures(<usize as NumExt>::fls, (n,), r),
    ensures
        bit_length(n as nat, r as nat),
{
}

/// Aligning to a power of two gives the multiples of it around a number; aligning to anything
/// else clears the bits below, and to zero all of them.
pub proof fn law_align_u8(n: u8, a: u8, k: nat, down: u8, up: u8)
    requires
        call_ensures(<u8 as NumExt>::align_down, (n, a), down),
        call_ensures(<u8 as NumExt>::align_up, (n, a), up),
    ensures
        a == pow2(k) ==> aligned(n as int, a as int, u8::MAX as int, down as int, up as int),
        a > 0 ==> down == n & !((a - 1) as u8),
        a > 0 && n + (a - 1) <= u8::MAX ==> up == ((n + (a - 1)) as u8) & !((a - 1) as u8),
        a > 0 && n + (a - 1) > u8::MAX ==> up == ((n + (a - 1) - u8::MAX - 1) as u8) & !((a
            - 1) as u8),
        a == 0 ==> down == 0 && up == 0,
{
    lemma2_to64();
    if a == pow2(k) {
        lemma_pow2_pos(k);
        assert(is_power_of_2(a as nat));
        lemma_aligned_neighbours(n as nat, a as nat);
    }
}

/// The last set bit tells how many bits a number needs.
pub proof fn law_fls_u8(n: u8, r: u32)
    requires
        call_ensures(<u8 as NumExt>::fls, (n,), r),
    ensures
        bit_length(n as nat, r as nat),
{
}

/// Aligning to a power of two gives the multiples of it around a number; aligning to anything
/// else clears the bits below, and to zero all of them.
pub proof fn law_align_u16(n: u16, a: u16, k: nat, down: u16, up: u16)
    requires
        call_ensures(<u16 as NumExt>::align_down, (n, a), down),
        call_ensures(<u16 as NumExt>::align_up, (n, a), up),
    ensures
        a == pow2(k) ==> aligned(n as int, a as int, u16::MAX as int, down as int, up as int),
        a > 0 ==> down == n & !((a - 1) as u16),
        a > 0 && n + (a - 1) <= u16::MAX ==> up == ((n + (a - 1)) as u16) & !((a - 1) as u16),
        a > 0 && n + (a - 1) > u16::MAX ==> up == ((n + (a - 1) - u16::MAX - 1) as u16) & !((a
            - 1) as u16),
        a == 0 ==> down == 0 && up == 0,
{
    lemma2_to64();
    if a == pow2(k) {
        lemma_pow2_pos(k);
        assert(is_power_of_2(a as nat));
        lemma_aligned_neighbours(n as nat, a as nat);
    }
}

/// The last set bit tells how many bits a number needs.
pub proof fn law_fls_u16(n: u16, r: u32)
    requires
        call_ensures(<u16 as NumExt>::fls, (n,), r),
    ensures
        bit_length(n as nat, r as nat),
{
}

/// Aligning to a power of two gives the multiples of it around a number; aligning to anything
/// else clears the bits below, and to zero all of them.
pub proof fn law_align_u32(n: u32, a: u32, k: nat, down: u32, up: u32)
    requires
        call_ensures(<u32 as NumExt>::align_down, (n, a), down),
        call_ensures(<u32 as NumExt>::align_up, (n, a), up),
    ensures
        a == pow2(k) ==> aligned(n as int, a as int, u32::MAX as int, down as int, up as int),
        a > 0 ==> down == n & !((a - 1) as u32),
        a > 0 && n + (a - 1) <= u32::MAX ==> up == ((n + (a - 1)) as u32) & !((a - 1) as u32),
        a > 0 && n + (a - 1) > u32::MAX ==> up == ((n + (a - 1) - u32::MAX - 1) as u32) & !((a
            - 1) as u32),
        a == 0 ==> down == 0 && up == 0,
{
    lemma2_to64();
    if a == pow2(k) {
        lemma_pow2_pos(k);
        assert(is_power_of_2(a as nat));
        lemma_aligned_neighbours(n as nat, a as nat);
    }
}

/// The last set bit tells how many bits a number needs.
pub proof fn law_fls_u32(n: u32, r: u32)
    requires
        call_ensures(<u32 as NumExt>::fls, (n,), r),
    ensures
        bit_length(n as nat, r as nat),
{
}

/// Aligning to a power of two gives the multiples of it around a number; aligning to anything
/// else clears the bits below, and to zero all of them.
pub proof fn law_align_u64(n: u64, a: u64, k: nat, down: u64, up: u64)
    requires
        call_ensures(<u64 as NumExt>::align_down, (n, a), down),
        call_ensures(<u64 as NumExt>::align_up, (n, a), up),
    ensures
        a == pow2(k) ==> aligned(n as int, a as int, u64::MAX as int, down as int, up as int),
        a > 0 ==> down == n & !((a - 1) as u64),
        a > 0 && n + (a - 1) <= u64::MAX ==> up == ((n + (a - 1)) as u64) & !((a - 1) as u64),
        a > 0 && n + (a - 1) > u64::MAX ==> up == ((n + (a - 1) - u64::MAX - 1) as u64) & !((a
            - 1) as u64),
        a == 0 ==> down == 0 && up == 0,
{
    lemma2_to64();
    if a == pow2(k) {
        lemma_pow2_pos(k);
        assert(is_power_of_2(a as nat));
        lemma_aligned_neighbours(n as nat, a as nat);
    }
}

/// The last set bit tells how many bits a number needs.
pub proof fn law_fls_u64(n: u64, r: u32)
    requires
        call_ensures(<u64 as NumExt>::fls, (n,), r),
    ensures
        bit_length(n as nat, r as nat),
{
}

/// Aligning to a power of two gives the multiples of it around a number; aligning to anything
/// else clears the bits below, and to zero all of them.
pub proof fn law_align_u128(n: u128, a: u128, k: nat, down: u128, up: u128)
    requires
        call_ensures(<u128 as NumExt>::align_down, (n, a), down),
        call_ensures(<u128 as NumExt>::align_up, (n, a), up),
    ensures
        a == pow2(k) ==> aligned(n as int, a as int, u128::MAX as int, down as int, up as int),
        a > 0 ==> down == n & !((a - 1) as u128),
        a > 0 && n + (a - 1) <= u128::MAX ==> up == ((n + (a - 1)) as u128) & !((a - 1) as u128),
        a > 0 && n + (a - 1) > u128::MAX ==> up == ((n + (a - 1) - u128::MAX - 1) as u128) & !((a
            - 1) as u128),
        a == 0 ==> down == 0 && up == 0,
{
    lemma2_to64();
    lemma_pow2_adds(64, 64);
    if a == pow2(k) {
        lemma_pow2_pos(k);
        assert(is_power_of_2(a as nat));
        lemma_aligned_neighbours(n as nat, a as nat);
    }
}

/// The last set bit tells how many bits a number needs.
pub proof fn law_fls_u128(n: u128, r: u32)
    requires
        call_ensures(<u128 as NumExt>::fls, (n,), r),
    ensures
        bit_length(n as nat, r as nat),
{
}

/// An address is aligned to the multiples of the alignment around it, or not at all if the one
/// above it is too large.
pub proof fn law_align_address(
    n: u64,
    bytes: u64,
    k: nat,
    alignment: Alignment,
    down: u64,
    up: Option<u64>,
)
    requires
        bytes == pow2(k),
        call_ensures(Alignment::new, (bytes,), alignment),
        call_ensures(<u64 as Alignable>::align_down, (n, alignment), down),
        call_ensures(<u64 as Alignable>::align_up, (n, alignment), up),
    ensures
        alignment.bytes == bytes,
        down as int % bytes as int == 0,
        down <= n < down + bytes,
        down == n ==> up == Some(n),
        down != n && down + bytes <= u64::MAX ==> up is Some && up->0 == down + bytes,
        down != n && down + bytes > u64::MAX ==> up is None,
{
    lemma_pow2_pos(k);
    assert(is_power_of_2(bytes as nat));
    lemma_aligned_neighbours(n as nat, bytes as nat);
}

/// The parts of the heap are whole megabytes.
pub proof fn law_heap_alignment(r: Alignment)
    requires
        call_ensures(gsp_heap_alignment, (), r),
    ensures
        r.bytes == 0x10_0000,
{
}

} // verus!
