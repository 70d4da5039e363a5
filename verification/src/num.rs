//! Numerical and binary utilities for primitive types.

use vstd::arithmetic::div_mod::{
    lemma_div_is_ordered, lemma_fundamental_div_mod, lemma_fundamental_div_mod_converse,
    lemma_mod_multiples_basic,
};
use vstd::arithmetic::mul::lemma_mul_is_commutative;
use vstd::arithmetic::power2::{
    lemma2_to64, lemma_pow2_adds, lemma_pow2_pos, lemma_pow2_strictly_increases, lemma_pow2_unfold,
    pow2,
};
use vstd::prelude::*;
use vstd::std_specs::bits::u64_leading_zeros;

verus! {

/// Whether `n` is a power of two.
pub open spec fn is_power_of_2(n: nat) -> bool {
    exists|k: nat| n == #[trigger] pow2(k)
}

/// The largest multiple of `alignment` that is not above `n`.
pub open spec fn floor_to(n: nat, alignment: nat) -> nat {
    (n / alignment * alignment) as nat
}

/// The smallest multiple of `alignment` that is not below `n`.
pub open spec fn ceil_to(n: nat, alignment: nat) -> nat {
    floor_to((n + alignment - 1) as nat, alignment)
}

/// `r` is the one-based index of the most significant set bit of `n`, or 0 if no bit
/// is set.
pub open spec fn is_last_set_bit(n: nat, r: nat) -> bool {
    if n == 0 {
        r == 0
    } else {
        r > 0 && pow2((r - 1) as nat) <= n < pow2(r)
    }
}

/// Extension trait providing useful methods on integers.
pub trait NumExt: Sized {
    /// The integer's value.
    spec fn value(self) -> nat;

    /// The number of bits of the type.
    spec fn bits() -> nat;

    /// The bits of `self` that are not in `alignment - 1`, which wraps around for 0.
    spec fn masked(self, alignment: Self) -> Self;

    /// The sum of `self` and `alignment - 1`, both of which wrap around.
    spec fn bumped(self, alignment: Self) -> Self;

    /// Align `self` down to `alignment`.
    ///
    /// `alignment` must be a power of 2 for accurate results.
    fn align_down(self, alignment: Self) -> (r: Self)
        ensures
            r == self.masked(alignment),
            is_power_of_2(alignment.value()) ==> r.value() == floor_to(
                self.value(),
                alignment.value(),
            ),
            alignment.value() == 0 ==> r.value() == 0,
    ;

    /// Align `self` up to `alignment`.
    ///
    /// `alignment` must be a power of 2 for accurate results.
    ///
    /// Wraps around to `0` if the requested alignment pushes the result above the type's
    /// limits.
    fn align_up(self, alignment: Self) -> (r: Self)
        ensures
            r == self.bumped(alignment).masked(alignment),
            is_power_of_2(alignment.value()) ==> r.value() == (if ceil_to(
                self.value(),
                alignment.value(),
            ) < pow2(Self::bits()) {
                ceil_to(self.value(), alignment.value())
            } else {
                0
            }),
            alignment.value() == 0 ==> r.value() == 0,
    ;

    /// Find Last Set Bit: return the 1-based index of the last (i.e. most significant) set
    /// bit in `self`.
    ///
    /// Equivalent to the C `fls` function.
    fn fls(self) -> (r: u32)
        ensures
            r <= Self::bits(),
            is_last_set_bit(self.value(), r as nat),
    ;
}

/// The number that the bits of `n` below bit `k` make up is the remainder of `n` by
/// `2^k`.
proof fn lemma_low_bits(n: u128, a: u128, k: nat)
    requires
        a == pow2(k),
    ensures
        n & (a - 1) as u128 == n % a,
    decreases k,
{
    lemma_pow2_pos(k);
    lemma2_to64();
    if k == 0 {
        assert(n & 0 == 0) by (bit_vector);
    } else {
        let half = (a / 2) as u128;
        let n2 = (n / 2) as u128;
        lemma_pow2_unfold(k);
        lemma_pow2_pos((k - 1) as nat);
        lemma_low_bits(n2, half, (k - 1) as nat);
        assert(n & (a - 1) as u128 == 2 * ((n / 2) & (a / 2 - 1) as u128) + n % 2) by (bit_vector)
            requires
                a >= 2,
                a % 2 == 0,
        ;
        let q = (n2 / half) as int;
        let r = (n2 % half) as int;
        lemma_fundamental_div_mod(n2 as int, half as int);
        assert(n == q * a + (2 * r + n % 2)) by (nonlinear_arith)
            requires
                n == 2 * n2 + n % 2,
                n2 == half * q + r,
                a == 2 * half,
        ;
        lemma_fundamental_div_mod_converse(n as int, a as int, q, 2 * r + (n % 2) as int);
    }
}

/// `n - n % a` is the multiple of `a` at or below `n`.
proof fn lemma_floor(n: nat, a: nat)
    requires
        a > 0,
    ensures
        floor_to(n, a) == n - n % a,
        floor_to(n, a) <= n,
{
    lemma_fundamental_div_mod(n as int, a as int);
    lemma_mul_is_commutative(a as int, (n / a) as int);
}

/// A number below `a` is aligned down to 0.
proof fn lemma_floor_below(n: nat, a: nat)
    requires
        a > 0,
    ensures
        n < a ==> floor_to(n, a) == 0,
{
    if n < a {
        lemma_fundamental_div_mod_converse(n as int, a as int, 0, n as int);
        lemma_floor(n, a);
    }
}

/// Rounding `n` up to `2^k` stays within `b` bits unless adding `2^k - 1` to `n` leaves
/// them.
proof fn lemma_ceil(n: nat, a: nat, k: nat, b: nat)
    requires
        a == pow2(k),
        k < b,
        n < pow2(b),
    ensures
        n + a - 1 < pow2(b) ==> ceil_to(n, a) < pow2(b),
        n + a - 1 >= pow2(b) ==> ceil_to(n, a) >= pow2(b) && n + a - 1 - pow2(b) < a,
{
    lemma_pow2_pos(k);
    lemma_floor((n + a - 1) as nat, a);
    if n + a - 1 >= pow2(b) {
        lemma_pow2_adds(k, (b - k) as nat);
        let m = pow2((b - k) as nat);
        lemma_mul_is_commutative(m as int, a as int);
        lemma_fundamental_div_mod_converse(pow2(b) as int, a as int, m as int, 0);
        lemma_div_is_ordered(pow2(b) as int, n + a - 1, a as int);
        let q = ((n + a - 1) as nat) / a;
        assert(q * a >= m * a) by (nonlinear_arith)
            requires
                q >= m,
                a > 0,
        ;
    }
}

/// The exponent of a power of two that fits `b` bits is below `b`.
proof fn lemma_exponent(a: nat, b: nat) -> (k: nat)
    requires
        is_power_of_2(a),
        a < pow2(b),
    ensures
        a == pow2(k),
        k < b,
{
    let k = choose|k: nat| a == #[trigger] pow2(k);
    if k > b {
        lemma_pow2_strictly_increases(b, k);
    }
    k
}

/// Leading zeros locate the last set bit.
proof fn lemma_leading_zeros(n: u64)
    ensures
        0 <= u64_leading_zeros(n) <= 64,
        is_last_set_bit(n as nat, (64 - u64_leading_zeros(n)) as nat),
    decreases n,
{
    reveal(u64_leading_zeros);
    if n > 0 {
        let half = (n / 2) as u64;
        lemma_leading_zeros(half);
        let r = (64 - u64_leading_zeros(half)) as nat;
        lemma2_to64();
        lemma_pow2_unfold(64);
        lemma_pow2_unfold(r + 1);
        if half > 0 {
            lemma_pow2_unfold(r);
        }
    }
}

/// The last set bit of a 64-bit integer.
fn fls64(n: u64) -> (r: u32)
    ensures
        r <= 64,
        is_last_set_bit(n as nat, r as nat),
{
    proof {
        lemma_leading_zeros(n);
    }
    64 - n.leading_zeros()
}

/// The last set bit of a number below `2^b` has an index of at most `b`.
proof fn lemma_last_set_bit_bound(n: nat, r: nat, b: nat)
    requires
        n < pow2(b),
        is_last_set_bit(n, r),
    ensures
        r <= b,
{
    if r > b + 1 {
        lemma_pow2_strictly_increases(b, (r - 1) as nat);
    }
}

impl NumExt for usize {
    open spec fn value(self) -> nat {
        self as nat
    }

    open spec fn bits() -> nat {
        usize::BITS as nat
    }

    open spec fn masked(self, alignment: Self) -> Self {
        self & !(if alignment == 0 {
            usize::MAX
        } else {
            (alignment - 1) as usize
        })
    }

    open spec fn bumped(self, alignment: Self) -> Self {
        let sum = self + (if alignment == 0 {
            usize::MAX
        } else {
            (alignment - 1) as usize
        });
        (if sum > usize::MAX {
            sum - usize::MAX - 1
        } else {
            sum
        }) as usize
    }

    fn align_down(self, alignment: Self) -> (r: Self) {
        let mask: usize = alignment.wrapping_sub(1);
        proof {
            vstd::layout::unsigned_int_max_values();
            assert(self & !mask == self - (self & mask)) by (bit_vector);
            if alignment == 0 {
                assert(self & !mask == 0) by (bit_vector)
                    requires
                        usize::BITS == 64 ==> mask == 0xffff_ffff_ffff_ffff,
                        usize::BITS == 32 ==> mask == 0xffff_ffff,
                ;
            }
            if is_power_of_2(alignment as nat) {
                let k = lemma_exponent(alignment as nat, usize::BITS as nat);
                lemma_pow2_pos(k);
                lemma_low_bits(self as u128, alignment as u128, k);
                lemma_floor(self as nat, alignment as nat);
            }
        }
        self & !mask
    }

    fn align_up(self, alignment: Self) -> (r: Self) {
        proof {
            vstd::layout::unsigned_int_max_values();
            if is_power_of_2(alignment as nat) {
                let k = lemma_exponent(alignment as nat, usize::BITS as nat);
                lemma_pow2_pos(k);
                lemma_ceil(self as nat, alignment as nat, k, usize::BITS as nat);
                let low = self.bumped(alignment) as nat;
                lemma_floor_below(low, alignment as nat);
            }
        }
        self.wrapping_add(alignment.wrapping_sub(1)).align_down(alignment)
    }

    fn fls(self) -> (r: u32) {
        let r: u32 = fls64(self as u64);
        proof {
            vstd::layout::unsigned_int_max_values();
            lemma_last_set_bit_bound(self as nat, r as nat, usize::BITS as nat);
        }
        r
    }
}

impl NumExt for u8 {
    open spec fn value(self) -> nat {
        self as nat
    }

    open spec fn bits() -> nat {
        u8::BITS as nat
    }

    open spec fn masked(self, alignment: Self) -> Self {
        self & !(if alignment == 0 {
            u8::MAX
        } else {
            (alignment - 1) as u8
        })
    }

    open spec fn bumped(self, alignment: Self) -> Self {
        let sum = self + (if alignment == 0 {
            u8::MAX
        } else {
            (alignment - 1) as u8
        });
        (if sum > u8::MAX {
            sum - u8::MAX - 1
        } else {
            sum
        }) as u8
    }

    fn align_down(self, alignment: Self) -> (r: Self) {
        let mask: u8 = alignment.wrapping_sub(1);
        proof {
            lemma2_to64();
            assert(self & !mask == self - (self & mask)) by (bit_vector);
            assert(self & !u8::MAX == 0) by (bit_vector);
            if is_power_of_2(alignment as nat) {
                let k = lemma_exponent(alignment as nat, 8);
                lemma_pow2_pos(k);
                lemma_low_bits(self as u128, alignment as u128, k);
                lemma_floor(self as nat, alignment as nat);
            }
        }
        self & !mask
    }

    fn align_up(self, alignment: Self) -> (r: Self) {
        proof {
            lemma2_to64();
            if is_power_of_2(alignment as nat) {
                let k = lemma_exponent(alignment as nat, 8);
                lemma_pow2_pos(k);
                lemma_ceil(self as nat, alignment as nat, k, 8);
                let low = self.bumped(alignment) as nat;
                lemma_floor_below(low, alignment as nat);
            }
        }
        self.wrapping_add(alignment.wrapping_sub(1)).align_down(alignment)
    }

    fn fls(self) -> (r: u32) {
        let r: u32 = fls64(self as u64);
        proof {
            lemma2_to64();
            lemma_last_set_bit_bound(self as nat, r as nat, 8);
        }
        r
    }
}

impl NumExt for u16 {
    open spec fn value(self) -> nat {
        self as nat
    }

    open spec fn bits() -> nat {
        u16::BITS as nat
    }

    open spec fn masked(self, alignment: Self) -> Self {
        self & !(if alignment == 0 {
            u16::MAX
        } else {
            (alignment - 1) as u16
        })
    }

    open spec fn bumped(self, alignment: Self) -> Self {
        let sum = self + (if alignment == 0 {
            u16::MAX
        } else {
            (alignment - 1) as u16
        });
        (if sum > u16::MAX {
            sum - u16::MAX - 1
        } else {
            sum
        }) as u16
    }

    fn align_down(self, alignment: Self) -> (r: Self) {
        let mask: u16 = alignment.wrapping_sub(1);
        proof {
            lemma2_to64();
            assert(self & !mask == self - (self & mask)) by (bit_vector);
            assert(self & !u16::MAX == 0) by (bit_vector);
            if is_power_of_2(alignment as nat) {
                let k = lemma_exponent(alignment as nat, 16);
                lemma_pow2_pos(k);
                lemma_low_bits(self as u128, alignment as u128, k);
                lemma_floor(self as nat, alignment as nat);
            }
        }
        self & !mask
    }

    fn align_up(self, alignment: Self) -> (r: Self) {
        proof {
            lemma2_to64();
            if is_power_of_2(alignment as nat) {
                let k = lemma_exponent(alignment as nat, 16);
                lemma_pow2_pos(k);
                lemma_ceil(self as nat, alignment as nat, k, 16);
                let low = self.bumped(alignment) as nat;
                lemma_floor_below(low, alignment as nat);
            }
        }
        self.wrapping_add(alignment.wrapping_sub(1)).align_down(alignment)
    }

    fn fls(self) -> (r: u32) {
        let r: u32 = fls64(self as u64);
        proof {
            lemma2_to64();
            lemma_last_set_bit_bound(self as nat, r as nat, 16);
        }
        r
    }
}

impl NumExt for u32 {
    open spec fn value(self) -> nat {
        self as nat
    }

    open spec fn bits() -> nat {
        u32::BITS as nat
    }

    open spec fn masked(self, alignment: Self) -> Self {
        self & !(if alignment == 0 {
            u32::MAX
        } else {
            (alignment - 1) as u32
        })
    }

    open spec fn bumped(self, alignment: Self) -> Self {
        let sum = self + (if alignment == 0 {
            u32::MAX
        } else {
            (alignment - 1) as u32
        });
        (if sum > u32::MAX {
            sum - u32::MAX - 1
        } else {
            sum
        }) as u32
    }

    fn align_down(self, alignment: Self) -> (r: Self) {
        let mask: u32 = alignment.wrapping_sub(1);
        proof {
            lemma2_to64();
            assert(self & !mask == self - (self & mask)) by (bit_vector);
            assert(self & !u32::MAX == 0) by (bit_vector);
            if is_power_of_2(alignment as nat) {
                let k = lemma_exponent(alignment as nat, 32);
                lemma_pow2_pos(k);
                lemma_low_bits(self as u128, alignment as u128, k);
                lemma_floor(self as nat, alignment as nat);
            }
        }
        self & !mask
    }

    fn align_up(self, alignment: Self) -> (r: Self) {
        proof {
            lemma2_to64();
            if is_power_of_2(alignment as nat) {
                let k = lemma_exponent(alignment as nat, 32);
                lemma_pow2_pos(k);
                lemma_ceil(self as nat, alignment as nat, k, 32);
                let low = self.bumped(alignment) as nat;
                lemma_floor_below(low, alignment as nat);
            }
        }
        self.wrapping_add(alignment.wrapping_sub(1)).align_down(alignment)
    }

    fn fls(self) -> (r: u32) {
        let r: u32 = fls64(self as u64);
        proof {
            lemma2_to64();
            lemma_last_set_bit_bound(self as nat, r as nat, 32);
        }
        r
    }
}

impl NumExt for u64 {
    open spec fn value(self) -> nat {
        self as nat
    }

    open spec fn bits() -> nat {
        u64::BITS as nat
    }

    open spec fn masked(self, alignment: Self) -> Self {
        self & !(if alignment == 0 {
            u64::MAX
        } else {
            (alignment - 1) as u64
        })
    }

    open spec fn bumped(self, alignment: Self) -> Self {
        let sum = self + (if alignment == 0 {
            u64::MAX
        } else {
            (alignment - 1) as u64
        });
        (if sum > u64::MAX {
            sum - u64::MAX - 1
        } else {
            sum
        }) as u64
    }

    fn align_down(self, alignment: Self) -> (r: Self) {
        let mask: u64 = alignment.wrapping_sub(1);
        proof {
            lemma2_to64();
            assert(self & !mask == self - (self & mask)) by (bit_vector);
            assert(self & !u64::MAX == 0) by (bit_vector);
            if is_power_of_2(alignment as nat) {
                let k = lemma_exponent(alignment as nat, 64);
                lemma_pow2_pos(k);
                lemma_low_bits(self as u128, alignment as u128, k);
                lemma_floor(self as nat, alignment as nat);
            }
        }
        self & !mask
    }

    fn align_up(self, alignment: Self) -> (r: Self) {
        proof {
            lemma2_to64();
            if is_power_of_2(alignment as nat) {
                let k = lemma_exponent(alignment as nat, 64);
                lemma_pow2_pos(k);
                lemma_ceil(self as nat, alignment as nat, k, 64);
                let low = self.bumped(alignment) as nat;
                lemma_floor_below(low, alignment as nat);
            }
        }
        self.wrapping_add(alignment.wrapping_sub(1)).align_down(alignment)
    }

    fn fls(self) -> (r: u32) {
        let r: u32 = fls64(self as u64);
        proof {
            lemma2_to64();
            lemma_last_set_bit_bound(self as nat, r as nat, 64);
        }
        r
    }
}

impl NumExt for u128 {
    open spec fn value(self) -> nat {
        self as nat
    }

    open spec fn bits() -> nat {
        u128::BITS as nat
    }

    open spec fn masked(self, alignment: Self) -> Self {
        self & !(if alignment == 0 {
            u128::MAX
        } else {
            (alignment - 1) as u128
        })
    }

    open spec fn bumped(self, alignment: Self) -> Self {
        let sum = self + (if alignment == 0 {
            u128::MAX
        } else {
            (alignment - 1) as u128
        });
        (if sum > u128::MAX {
            sum - u128::MAX - 1
        } else {
            sum
        }) as u128
    }

    fn align_down(self, alignment: Self) -> (r: Self) {
        let mask: u128 = alignment.wrapping_sub(1);
        proof {
            lemma2_to64();
            lemma_pow2_adds(64, 64);
            assert(self & !mask == self - (self & mask)) by (bit_vector);
            assert(self & !u128::MAX == 0) by (bit_vector);
            if is_power_of_2(alignment as nat) {
                let k = lemma_exponent(alignment as nat, 128);
                lemma_pow2_pos(k);
                lemma_low_bits(self as u128, alignment as u128, k);
                lemma_floor(self as nat, alignment as nat);
            }
        }
        self & !mask
    }

    fn align_up(self, alignment: Self) -> (r: Self) {
        proof {
            lemma2_to64();
            lemma_pow2_adds(64, 64);
            if is_power_of_2(alignment as nat) {
                let k = lemma_exponent(alignment as nat, 128);
                lemma_pow2_pos(k);
                lemma_ceil(self as nat, alignment as nat, k, 128);
                let low = self.bumped(alignment) as nat;
                lemma_floor_below(low, alignment as nat);
            }
        }
        self.wrapping_add(alignment.wrapping_sub(1)).align_down(alignment)
    }

    fn fls(self) -> (r: u32) {
        proof {
            lemma2_to64();
            lemma_pow2_adds(64, 64);
        }
        let hi: u64 = (self / 0x1_0000_0000_0000_0000) as u64;
        let lo: u64 = (self % 0x1_0000_0000_0000_0000) as u64;
        if hi == 0 {
            fls64(lo)
        } else {
            let r: u32 = fls64(hi);
            proof {
                let k = (r - 1) as nat;
                lemma_pow2_adds(64, k);
                lemma_pow2_adds(64, r as nat);
                let two64 = pow2(64);
                assert(two64 * pow2(k) <= two64 * hi && two64 * (hi + 1) <= two64 * pow2(
                    r as nat,
                )) by (nonlinear_arith)
                    requires
                        pow2(k) <= hi < pow2(r as nat),
                ;
            }
            r + 64
        }
    }
}

/// Aligning down and up gives the multiples of the alignment around a number: it is one of
/// them itself, or it is between the two and they are one alignment apart.
pub proof fn lemma_aligned_neighbours(n: nat, a: nat)
    requires
        a > 0,
    ensures
        floor_to(n, a) <= n <= ceil_to(n, a),
        floor_to(n, a) % a == 0,
        ceil_to(n, a) % a == 0,
        n % a == 0 ==> floor_to(n, a) == n && ceil_to(n, a) == n,
        n % a != 0 ==> ceil_to(n, a) == floor_to(n, a) + a,
{
    let q = (n / a) as int;
    let rest = (n % a) as int;
    lemma_fundamental_div_mod(n as int, a as int);
    lemma_mul_is_commutative(a as int, q);
    lemma_mod_multiples_basic(q, a as int);
    if rest == 0 {
        lemma_fundamental_div_mod_converse(n + a - 1, a as int, q, a - 1);
    } else {
        assert((q + 1) * a == q * a + a) by (nonlinear_arith);
        lemma_fundamental_div_mod_converse(n + a - 1, a as int, q + 1, rest - 1);
        lemma_mod_multiples_basic(q + 1, a as int);
    }
}

/// A number has one last set bit.
pub proof fn lemma_last_set_bit_unique(n: nat, r: nat, s: nat)
    requires
        is_last_set_bit(n, r),
        is_last_set_bit(n, s),
    ensures
        r == s,
{
    if n > 0 {
        if r < s {
            if r < s - 1 {
                lemma_pow2_strictly_increases(r, (s - 1) as nat);
            }
        }
        if s < r {
            if s < r - 1 {
                lemma_pow2_strictly_increases(s, (r - 1) as nat);
            }
        }
    }
}

} // verus!
