//! The layout of the framebuffer.

use core::ops::Range;

use vstd::prelude::*;

verus! {

/// Layout of the framebuffer, as ranges of addresses.
pub struct FbLayout {
    /// The whole framebuffer.
    pub fb: Range<u64>,
    /// The VGA workspace.
    pub vga_workspace: Range<u64>,
    /// The FRTS region.
    pub frts: Range<u64>,
    /// The boot binary.
    pub boot: Range<u64>,
    /// The GSP firmware image.
    pub elf: Range<u64>,
    /// The heap inside the WPR2 region.
    pub wpr2_heap: Range<u64>,
    /// The WPR2 region.
    pub wpr2: Range<u64>,
    /// The heap outside the WPR2 region.
    pub heap: Range<u64>,
    /// The number of virtual function partitions.
    pub vf_partition_count: u8,
}

impl FbLayout {
    /// No range whose size is asked for ends before it starts.
    pub open spec fn inv(&self) -> bool {
        &&& self.fb.start <= self.fb.end
        &&& self.vga_workspace.start <= self.vga_workspace.end
        &&& self.frts.start <= self.frts.end
        &&& self.wpr2_heap.start <= self.wpr2_heap.end
        &&& self.heap.start <= self.heap.end
    }
}

} // verus!
