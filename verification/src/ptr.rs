//! Alignment of addresses and sizes.

use vstd::arithmetic::div_mod::{lemma_fundamental_div_mod, lemma_fundamental_div_mod_converse};
use vstd::arithmetic::mul::lemma_mul_is_commutative;
use vstd::prelude::*;

use crate::num::{ceil_to, floor_to, is_power_of_2};

verus! {

/// An alignment: a power of two.
#[derive(Clone, Copy, Debug, PartialEq, Eq, Structural)]
pub struct Alignment {
    /// The alignment in bytes.
    pub bytes: u64,
}

impl Alignment {
    /// The alignment is a power of two.
    pub open spec fn inv(&self) -> bool {
        is_power_of_2(self.bytes as nat)
    }

    /// Creates an alignment of `bytes` bytes.
    pub fn new(bytes: u64) -> (r: Self)
        requires
            is_power_of_2(bytes as nat),
        ensures
            r.inv(),
            r.bytes == bytes,
    {
        Alignment { bytes }
    }
}

/// Powers of two are positive.
proof fn lemma_positive(a: Alignment)
    requires
        a.inv(),
    ensures
        a.bytes > 0,
{
    let k = choose|k: nat| a.bytes as nat == #[trigger] vstd::arithmetic::power2::pow2(k);
    vstd::arithmetic::power2::lemma_pow2_pos(k);
}

/// Types whose values can be aligned.
pub trait Alignable: Sized {
    /// The value as a number.
    spec fn number(self) -> nat;

    /// The largest number that the type holds.
    spec fn limit() -> nat;

    /// Aligns `self` down to `alignment`.
    fn align_down(self, alignment: Alignment) -> (r: Self)
        requires
            alignment.inv(),
        ensures
            r.number() == floor_to(self.number(), alignment.bytes as nat),
    ;

    /// Aligns `self` up to `alignment`, or returns `None` if the type cannot hold the
    /// result.
    fn align_up(self, alignment: Alignment) -> (r: Option<Self>)
        requires
            alignment.inv(),
        ensures
            r is Some <==> ceil_to(self.number(), alignment.bytes as nat) <= Self::limit(),
            r is Some ==> r->0.number() == ceil_to(self.number(), alignment.bytes as nat),
    ;
}

impl Alignable for u64 {
    open spec fn number(self) -> nat {
        self as nat
    }

    open spec fn limit() -> nat {
        u64::MAX as nat
    }

    fn align_down(self, alignment: Alignment) -> (r: Self) {
        let a: u64 = alignment.bytes;
        proof {
            lemma_positive(alignment);
            lemma_fundamental_div_mod(self as int, a as int);
            lemma_mul_is_commutative(a as int, (self / a) as int);
        }
        self / a * a
    }

    fn align_up(self, alignment: Alignment) -> (r: Option<Self>) {
        let a: u64 = alignment.bytes;
        let down: u64 = self.align_down(alignment);
        proof {
            lemma_positive(alignment);
            let q = (self / a) as int;
            let rest = (self % a) as int;
            lemma_fundamental_div_mod(self as int, a as int);
            lemma_mul_is_commutative(a as int, q);
            if rest == 0 {
                lemma_fundamental_div_mod_converse(self + a - 1, a as int, q, a - 1);
            } else {
                assert((q + 1) * a == q * a + a) by (nonlinear_arith);
                lemma_fundamental_div_mod_converse(self + a - 1, a as int, q + 1, rest - 1);
            }
        }
        if down == self {
            Some(down)
        } else {
            down.checked_add(a)
        }
    }
}

} // verus!
