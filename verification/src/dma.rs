//! Memory that is shared with the device.

use vstd::prelude::*;

verus! {

/// Types that memory shared with the device can hold.
pub trait Element: Sized {
    /// The size of a value in memory.
    spec fn size() -> nat;

    /// Returns the size of a value in memory.
    fn size_of() -> (r: usize)
        ensures
            r == Self::size(),
    ;

    /// The value whose bytes are zero.
    spec fn zero() -> Self;

    /// Returns the value whose bytes are zero.
    fn zeroed() -> (r: Self)
        ensures
            r == Self::zero(),
    ;
}

impl Element for u8 {
    open spec fn size() -> nat {
        1
    }

    fn size_of() -> (r: usize) {
        1
    }

    open spec fn zero() -> Self {
        0
    }

    fn zeroed() -> (r: Self) {
        0
    }
}

/// Coherent memory: the address under which the device sees it, and the values in it.
pub struct CoherentAllocation<A: Element> {
    /// The address under which the device sees the memory.
    pub dma_handle: u64,
    /// The values in the memory.
    pub data: Vec<A>,
}

impl<A: Element> CoherentAllocation<A> {
    /// The size of the memory fits.
    pub open spec fn inv(&self) -> bool {
        self.data@.len() * A::size() <= usize::MAX
    }

    /// Describes zeroed memory for `count` values, which the device sees under the address
    /// `dma_handle`.
    pub fn new(dma_handle: u64, count: usize) -> (r: Self)
        requires
            count * A::size() <= usize::MAX,
        ensures
            r.inv(),
            r.dma_handle == dma_handle,
            r.data@ == Seq::new(count as nat, |i: int| A::zero()),
    {
        let mut data: Vec<A> = Vec::new();
        while data.len() < count
            invariant
                data@.len() <= count,
                forall|i: int| 0 <= i < data@.len() ==> data@[i] == A::zero(),
            decreases count - data@.len(),
        {
            data.push(A::zeroed());
        }
        assert(data@ =~= Seq::new(count as nat, |i: int| A::zero()));
        CoherentAllocation { dma_handle, data }
    }

    /// Returns the address under which the device sees the memory.
    pub fn dma_handle(&self) -> (r: u64)
        ensures
            r == self.dma_handle,
    {
        self.dma_handle
    }

    /// Returns the size of the memory in bytes.
    pub fn size(&self) -> (r: usize)
        requires
            self.inv(),
        ensures
            r == self.data@.len() * A::size(),
    {
        self.data.len() * A::size_of()
    }
}

} // verus!
