//! Laws of the structures that are shared with the firmware.

use vstd::prelude::*;
use vstd::string::StringSliceAdditionalSpecFns;

use crate::bytes::le64;
use crate::dma::{CoherentAllocation, Element};
use crate::fb::FbLayout;
use crate::firmware::GspFirmware;
use crate::gpu::Chipset;
use crate::gsp::cmdq::GspCmdq;
use crate::laws::bytes::law_le64;
use crate::num::lemma_aligned_neighbours;
use crate::nvfw::{
    id8, id8_bytes, GspArgumentsCached, GspFwHeapParams, GspFwWprMeta,
    LibosMemoryRegionInitArgument, LibosParams,
};

verus! {

/// The memory for management purposes is an amount for each gigabyte of the framebuffer, begun
/// ones included, rounded up to whole megabytes.
pub proof fn law_management_overhead(fb_size: u64, gigabytes: int, r: u64)
    requires
        call_ensures(GspFwHeapParams::management_overhead, (fb_size,), r),
        (gigabytes - 1) * 0x4000_0000 < fb_size <= gigabytes * 0x4000_0000,
    ensures
        r % 0x10_0000 == 0,
        gigabytes * 0x1_8000 <= r < gigabytes * 0x1_8000 + 0x10_0000,
{
    assert((fb_size + 0x4000_0000 - 1) / 0x4000_0000 == gigabytes);
    lemma_aligned_neighbours((gigabytes * 0x1_8000) as nat, 0x10_0000);
}

/// A larger framebuffer does not need less memory for management purposes.
pub proof fn law_overhead_grows(small: u64, large: u64, r: u64, s: u64)
    requires
        small <= large,
        call_ensures(GspFwHeapParams::management_overhead, (small,), r),
        call_ensures(GspFwHeapParams::management_overhead, (large,), s),
    ensures
        r <= s,
{
    let a = (small + 0x4000_0000 - 1) / 0x4000_0000;
    let b = (large + 0x4000_0000 - 1) / 0x4000_0000;
    law_management_overhead(small, a, r);
    law_management_overhead(large, b, s);
    assert(a <= b);
}

/// What GSP-RM and its first client need does not depend on the framebuffer.
pub proof fn law_fixed_parts(chipset: Chipset, base: u64, client: u64)
    requires
        call_ensures(GspFwHeapParams::base_rm_size, (chipset,), base),
        call_ensures(GspFwHeapParams::client_alloc_size, (), client),
    ensures
        base == 8 * 0x10_0000,
        client == 96 * 0x10_0000,
{
    lemma_aligned_neighbours(0x600_0000, 0x10_0000);
}

/// The heap holds the operating system, GSP-RM, one client and the memory for management
/// purposes, whatever the size of the framebuffer is, and is only cut or stretched to the sizes
/// that are allowed.
pub proof fn law_wpr_heap_size(
    params: &LibosParams,
    chipset: Chipset,
    fb_size: u64,
    overhead: u64,
    r: u64,
)
    requires
        params.allowed_heap_size.start < params.allowed_heap_size.end,
        call_ensures(GspFwHeapParams::management_overhead, (fb_size,), overhead),
        call_ensures(LibosParams::wpr_heap_size, (params, chipset, fb_size), r),
    ensures
        ({
            let sum = params.carveout_size + 8 * 0x10_0000 + 96 * 0x10_0000 + overhead;
            &&& params.allowed_heap_size.start <= r < params.allowed_heap_size.end
            &&& sum < params.allowed_heap_size.start ==> r == params.allowed_heap_size.start
            &&& params.allowed_heap_size.start <= sum < params.allowed_heap_size.end ==> r == sum
            &&& sum >= params.allowed_heap_size.end ==> r == params.allowed_heap_size.end - 1
        }),
{
    lemma_aligned_neighbours(0x600_0000, 0x10_0000);
}

/// A larger framebuffer does not get a smaller heap, on whatever chipset.
pub proof fn law_heap_grows(
    params: &LibosParams,
    chipset: Chipset,
    other: Chipset,
    small: u64,
    large: u64,
    r: u64,
    s: u64,
)
    requires
        params.allowed_heap_size.start < params.allowed_heap_size.end,
        small <= large,
        call_ensures(LibosParams::wpr_heap_size, (params, chipset, small), r),
        call_ensures(LibosParams::wpr_heap_size, (params, other, large), s),
    ensures
        r <= s,
{
    let a = (small + 0x4000_0000 - 1) / 0x4000_0000;
    let b = (large + 0x4000_0000 - 1) / 0x4000_0000;
    assert(a <= b);
    lemma_aligned_neighbours(0x600_0000, 0x10_0000);
    lemma_aligned_neighbours((a * 0x1_8000) as nat, 0x10_0000);
    lemma_aligned_neighbours((b * 0x1_8000) as nat, 0x10_0000);
}

/// What the versions of the operating system need and allow, in megabytes.
pub proof fn law_libos_params(two: LibosParams, three: LibosParams)
    requires
        call_ensures(LibosParams::libos2, (), two),
        call_ensures(LibosParams::libos3, (), three),
    ensures
        two.carveout_size == 0,
        two.allowed_heap_size.start == 64 * 0x10_0000,
        two.allowed_heap_size.end == 256 * 0x10_0000,
        three.carveout_size == 22 * 0x10_0000,
        three.allowed_heap_size.start == 88 * 0x10_0000,
        three.allowed_heap_size.end == 280 * 0x10_0000,
{
}

/// The byte of a name that comes `i` bytes before its last one, or zero.
pub open spec fn from_end(name: Seq<u8>, i: int) -> int {
    if i < name.len() {
        name[name.len() - 1 - i] as int
    } else {
        0
    }
}

/// An identifier is the name as a number to the base 256, its last byte the lowest digit.
pub proof fn law_id8(name: &str, r: u64)
    requires
        call_ensures(id8, (name,), r),
    ensures
        r == from_end(name.spec_bytes(), 0) + from_end(name.spec_bytes(), 1) * 0x100 + from_end(
            name.spec_bytes(),
            2,
        ) * 0x1_0000 + from_end(name.spec_bytes(), 3) * 0x100_0000 + from_end(
            name.spec_bytes(),
            4,
        ) * 0x1_0000_0000 + from_end(name.spec_bytes(), 5) * 0x100_0000_0000 + from_end(
            name.spec_bytes(),
            6,
        ) * 0x1_0000_0000_0000 + from_end(name.spec_bytes(), 7) * 0x100_0000_0000_0000,
{
    lemma_id8(name.spec_bytes(), r);
}

/// The number whose bytes are an identifier.
pub(crate) proof fn lemma_id8(name: Seq<u8>, id: u64)
    requires
        le64(id) == id8_bytes(name),
    ensures
        id == from_end(name, 0) + from_end(name, 1) * 0x100 + from_end(name, 2) * 0x1_0000
            + from_end(name, 3) * 0x100_0000 + from_end(name, 4) * 0x1_0000_0000 + from_end(name, 5)
            * 0x100_0000_0000 + from_end(name, 6) * 0x1_0000_0000_0000 + from_end(name, 7)
            * 0x100_0000_0000_0000,
{
    law_le64(id);
    let s = id8_bytes(name);
    assert(s[0] == from_end(name, 0) && s[1] == from_end(name, 1) && s[2] == from_end(name, 2)
        && s[3] == from_end(name, 3));
    assert(s[4] == from_end(name, 4) && s[5] == from_end(name, 5) && s[6] == from_end(name, 6)
        && s[7] == from_end(name, 7));
}

/// The description of an allocation has all of its device address and its size in bytes, and
/// says that it is contiguous system memory.
pub proof fn law_region_description<A: Element>(
    name: &str,
    obj: &CoherentAllocation<A>,
    id: u64,
    size: usize,
    r: LibosMemoryRegionInitArgument,
)
    requires
        obj.inv(),
        call_ensures(id8, (name,), id),
        call_ensures(CoherentAllocation::<A>::size, (obj,), size),
        call_ensures(LibosMemoryRegionInitArgument::new::<A>, (name, obj), r),
    ensures
        r.pa == obj.dma_handle,
        r.size == size,
        r.id8 == id,
        r.kind == 1,
        r.loc == 1,
{
    lemma_id8(name.spec_bytes(), id);
    lemma_id8(name.spec_bytes(), r.id8);
}

/// The sizes and zero values of what memory shared with the device can hold.
pub proof fn law_elements(
    sizes: (usize, usize, usize),
    byte: u8,
    region: LibosMemoryRegionInitArgument,
    args: GspArgumentsCached,
)
    requires
        call_ensures(<u8 as Element>::size_of, (), sizes.0),
        call_ensures(<LibosMemoryRegionInitArgument as Element>::size_of, (), sizes.1),
        call_ensures(<GspArgumentsCached as Element>::size_of, (), sizes.2),
        call_ensures(<u8 as Element>::zeroed, (), byte),
        call_ensures(<LibosMemoryRegionInitArgument as Element>::zeroed, (), region),
        call_ensures(<GspArgumentsCached as Element>::zeroed, (), args),
    ensures
        sizes == (1usize, 32usize, 72usize),
        byte == 0,
        region.id8 == 0 && region.pa == 0 && region.size == 0 && region.kind == 0 && region.loc
            == 0,
        args.shared_mem_phys_addr == 0 && args.page_table_entry_count == 0
            && args.cmd_queue_offset == 0 && args.stat_queue_offset == 0 && args.sr_old_level == 0
            && args.sr_flags == 0 && args.sr_in_pm_transition == 0 && args.dmem_stack == 0,
{
}

/// The bootloader is told where the firmware is and what the parts of the framebuffer are.
pub proof fn law_wpr_meta(gsp_firmware: &GspFirmware, fb_layout: &FbLayout, r: GspFwWprMeta)
    requires
        fb_layout.inv(),
        gsp_firmware.bootloader.ucode.inv(),
        gsp_firmware.signatures.inv(),
        call_ensures(GspFwWprMeta::new, (gsp_firmware, fb_layout), r),
    ensures
        r.magic == 0xdc3a_ae21_371a_60b3 && r.revision == 1,
        r.sysmem_addr_of_radix3_elf == gsp_firmware.radix3_dma_handle,
        r.size_of_radix3_elf == gsp_firmware.size,
        r.sysmem_addr_of_bootloader == gsp_firmware.bootloader.ucode.dma_handle,
        r.size_of_bootloader == gsp_firmware.bootloader.ucode.data@.len(),
        r.bootloader_code_offset == gsp_firmware.bootloader.code_offset,
        r.bootloader_data_offset == gsp_firmware.bootloader.data_offset,
        r.bootloader_manifest_offset == gsp_firmware.bootloader.manifest_offset,
        r.sysmem_addr_of_signature == gsp_firmware.signatures.dma_handle,
        r.size_of_signature == gsp_firmware.signatures.data@.len(),
        // The heap outside WPR2 starts the reserved region.
        r.gsp_fw_rsvd_start == fb_layout.heap.start,
        r.non_wpr_heap_offset == fb_layout.heap.start,
        r.non_wpr_heap_offset + r.non_wpr_heap_size == fb_layout.heap.end,
        r.gsp_fw_wpr_start == fb_layout.wpr2.start,
        r.gsp_fw_heap_offset == fb_layout.wpr2_heap.start,
        r.gsp_fw_heap_offset + r.gsp_fw_heap_size == fb_layout.wpr2_heap.end,
        r.gsp_fw_offset == fb_layout.elf.start,
        r.boot_bin_offset == fb_layout.boot.start,
        r.frts_offset == fb_layout.frts.start,
        r.frts_offset + r.frts_size == fb_layout.frts.end,
        // WPR2 ends at the last 128 kilobytes that start before the VGA workspace or with it.
        r.gsp_fw_wpr_end % 0x2_0000 == 0,
        r.gsp_fw_wpr_end <= fb_layout.vga_workspace.start < r.gsp_fw_wpr_end + 0x2_0000,
        r.gsp_fw_heap_vf_partition_count == fb_layout.vf_partition_count,
        fb_layout.fb.start + r.fb_size == fb_layout.fb.end,
        r.vga_workspace_offset == fb_layout.vga_workspace.start,
        r.vga_workspace_offset + r.vga_workspace_size == fb_layout.vga_workspace.end,
{
    lemma_aligned_neighbours(fb_layout.vga_workspace.start as nat, 0x2_0000);
}

/// The arguments of GSP-RM say where the shared memory is, and where the queues are in it.
pub proof fn law_cached_arguments(cmdq: &GspCmdq, offsets: (u64, u64, u64), r: GspArgumentsCached)
    requires
        call_ensures(GspCmdq::get_cmdq_offsets, (cmdq,), offsets),
        call_ensures(GspArgumentsCached::new, (cmdq,), r),
    ensures
        offsets == (cmdq.gsp_mem.dma_handle, 0x1000u64, 0x4_1000u64),
        r.shared_mem_phys_addr == cmdq.gsp_mem.dma_handle,
        r.page_table_entry_count == cmdq.nr_ptes,
        r.cmd_queue_offset == offsets.1,
        r.stat_queue_offset == offsets.2,
        r.dmem_stack == 1,
        r.sr_old_level == 0 && r.sr_flags == 0 && r.sr_in_pm_transition == 0,
{
}

} // verus!
