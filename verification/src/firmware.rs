//! The firmware images that the GSP boots from.

use vstd::prelude::*;

use crate::dma::CoherentAllocation;

verus! {

/// The GSP bootloader.
pub struct RiscvFirmware {
    /// The image.
    pub ucode: CoherentAllocation<u8>,
    /// Offset of the code in the image.
    pub code_offset: u32,
    /// Offset of the data in the image.
    pub data_offset: u32,
    /// Offset of the manifest in the image.
    pub manifest_offset: u32,
}

/// The GSP firmware.
pub struct GspFirmware {
    /// Device address of the first level of the page table that maps the image.
    pub radix3_dma_handle: u64,
    /// Size of the image.
    pub size: usize,
    /// The signatures of the image.
    pub signatures: CoherentAllocation<u8>,
    /// The bootloader.
    pub bootloader: RiscvFirmware,
}

} // verus!
