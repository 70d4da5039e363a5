//! Command constants.

use vstd::prelude::*;

verus! {

/// Asks for the interrupt table.
pub const NV2080_CTRL_CMD_INTERNAL_INTR_GET_KERNEL_TABLE: u32 = 0x2080_0a5c;

/// Asks for properties of the framebuffer.
pub const NV2080_CTRL_CMD_FB_GET_INFO: u32 = 0x2080_1301;

} // verus!
