//! Firmware data structures.

use core::ops::Range;

use vstd::prelude::*;
use vstd::string::StringSliceAdditionalSpecFns;

use crate::bytes::{append, u32_at, u32_to_le, u64_at};
use crate::bytes::{
    get_le32, le32, le64, lemma_get_le32, lemma_le32_of_get, lemma_le64_of_get, lemma_splice_inner,
    splice,
};
use crate::dma::{CoherentAllocation, Element};
use crate::fb::FbLayout;
use crate::firmware::GspFirmware;
use crate::gpu::Chipset;
use crate::gsp::cmdq::GspCmdq;
use crate::gsp::{gsp_heap_alignment, GSP_PAGE_SIZE};
use crate::num::{ceil_to, floor_to};
use crate::ptr::{Alignable, Alignment};

verus! {

/// One megabyte.
pub const SZ_1M: u64 = 0x10_0000;

/// One gigabyte.
pub const SZ_1G: u64 = 0x4000_0000;

/// 128 kilobytes.
pub const SZ_128K: u64 = 0x2_0000;

/// Heap that the LIBOS 2 kernel needs.
pub const GSP_FW_HEAP_PARAM_OS_SIZE_LIBOS2: u32 = 0;

/// Heap that the LIBOS 3 kernel needs on bare metal.
pub const GSP_FW_HEAP_PARAM_OS_SIZE_LIBOS3_BAREMETAL: u32 = 0x160_0000;

/// Heap that GSP-RM uses during boot on Turing and later.
pub const GSP_FW_HEAP_PARAM_BASE_RM_SIZE_TU10X: u32 = 0x80_0000;

/// Heap for memory management, per gigabyte of framebuffer.
pub const GSP_FW_HEAP_PARAM_SIZE_PER_GB_FB: u32 = 0x1_8000;

/// Heap that one client needs.
pub const GSP_FW_HEAP_PARAM_CLIENT_ALLOC_SIZE: u32 = 0x600_0000;

/// Smallest LIBOS 2 heap, in megabytes.
pub const GSP_FW_HEAP_SIZE_OVERRIDE_LIBOS2_MIN_MB: u32 = 64;

/// End of the range of LIBOS 2 heap sizes, in megabytes.
pub const GSP_FW_HEAP_SIZE_OVERRIDE_LIBOS2_MAX_MB: u32 = 256;

/// Smallest LIBOS 3 heap on bare metal, in megabytes.
pub const GSP_FW_HEAP_SIZE_OVERRIDE_LIBOS3_BAREMETAL_MIN_MB: u32 = 88;

/// End of the range of LIBOS 3 heap sizes on bare metal, in megabytes.
pub const GSP_FW_HEAP_SIZE_OVERRIDE_LIBOS3_BAREMETAL_MAX_MB: u32 = 280;

/// Marks a [`GspFwWprMeta`].
pub const GSP_FW_WPR_META_MAGIC: u64 = 0xdc3a_ae21_371a_60b3;

/// Version of [`GspFwWprMeta`].
pub const GSP_FW_WPR_META_REVISION: u32 = 1;

/// Marks an RPC message, "VRPC" in ASCII.
pub const NV_VGPU_MSG_SIGNATURE_VALID: u32 = 0x4350_5256;

/// A libos memory region that is contiguous.
pub const LIBOS_MEMORY_REGION_CONTIGUOUS: u8 = 1;

/// A libos memory region in system memory.
pub const LIBOS_MEMORY_REGION_LOC_SYSMEM: u8 = 1;

/// A registry entry that holds a 32-bit value.
pub const REGISTRY_TABLE_ENTRY_TYPE_DWORD: u8 = 1;

/// GSP function codes.
pub const NV_VGPU_MSG_FUNCTION_NOP: u32 = 0;

/// GSP function code.
pub const NV_VGPU_MSG_FUNCTION_SET_GUEST_SYSTEM_INFO: u32 = 1;

/// GSP function code.
pub const NV_VGPU_MSG_FUNCTION_ALLOC_ROOT: u32 = 2;

/// GSP function code.
pub const NV_VGPU_MSG_FUNCTION_ALLOC_DEVICE: u32 = 3;

/// GSP function code.
pub const NV_VGPU_MSG_FUNCTION_ALLOC_MEMORY: u32 = 4;

/// GSP function code.
pub const NV_VGPU_MSG_FUNCTION_ALLOC_CTX_DMA: u32 = 5;

/// GSP function code.
pub const NV_VGPU_MSG_FUNCTION_ALLOC_CHANNEL_DMA: u32 = 6;

/// GSP function code.
pub const NV_VGPU_MSG_FUNCTION_MAP_MEMORY: u32 = 7;

/// GSP function code.
pub const NV_VGPU_MSG_FUNCTION_BIND_CTX_DMA: u32 = 8;

/// GSP function code.
pub const NV_VGPU_MSG_FUNCTION_ALLOC_OBJECT: u32 = 9;

/// GSP function code.
pub const NV_VGPU_MSG_FUNCTION_FREE: u32 = 10;

/// GSP function code.
pub const NV_VGPU_MSG_FUNCTION_LOG: u32 = 11;

/// GSP function code.
pub const NV_VGPU_MSG_FUNCTION_GET_STATIC_INFO: u32 = 51;

/// GSP function code.
pub const NV_VGPU_MSG_FUNCTION_GET_GSP_STATIC_INFO: u32 = 65;

/// GSP function code.
pub const NV_VGPU_MSG_FUNCTION_GSP_SET_SYSTEM_INFO: u32 = 72;

/// GSP function code.
pub const NV_VGPU_MSG_FUNCTION_SET_REGISTRY: u32 = 73;

/// GSP function code.
pub const NV_VGPU_MSG_FUNCTION_GSP_INIT_POST_OBJGPU: u32 = 74;

/// GSP function code.
pub const NV_VGPU_MSG_FUNCTION_GSP_RM_CONTROL: u32 = 76;

/// GSP event codes.
pub const NV_VGPU_MSG_EVENT_GSP_INIT_DONE: u32 = 0x1001;

/// GSP event code.
pub const NV_VGPU_MSG_EVENT_GSP_RUN_CPU_SEQUENCER: u32 = 0x1002;

/// GSP event code.
pub const NV_VGPU_MSG_EVENT_POST_EVENT: u32 = 0x1003;

/// GSP event code.
pub const NV_VGPU_MSG_EVENT_RC_TRIGGERED: u32 = 0x1004;

/// GSP event code.
pub const NV_VGPU_MSG_EVENT_MMU_FAULT_QUEUED: u32 = 0x1005;

/// GSP event code.
pub const NV_VGPU_MSG_EVENT_OS_ERROR_LOG: u32 = 0x1006;

/// GSP event code.
pub const NV_VGPU_MSG_EVENT_UCODE_LIBOS_PRINT: u32 = 0x100c;

/// GSP event code.
pub const NV_VGPU_MSG_EVENT_GSP_LOCKDOWN_NOTICE: u32 = 0x101c;

/// GSP event code.
pub const NV_VGPU_MSG_EVENT_GSP_POST_NOCAT_RECORD: u32 = 0x1020;

/// `n` limited to what 64 bits can hold.
pub open spec fn saturated(n: int) -> int {
    if n <= u64::MAX {
        n
    } else {
        u64::MAX as int
    }
}

/// Dummy type to group methods related to heap parameters for running the GSP firmware.
pub struct GspFwHeapParams;

impl GspFwHeapParams {
    /// Returns the amount of GSP-RM heap memory used during GSP-RM boot and initialization
    /// (up to and including the first client subdevice allocation).
    pub fn base_rm_size(_chipset: Chipset) -> (r: u64)
        ensures
            r == GSP_FW_HEAP_PARAM_BASE_RM_SIZE_TU10X,
    {
        GSP_FW_HEAP_PARAM_BASE_RM_SIZE_TU10X as u64
    }

    /// Returns the amount of heap memory required to support a single channel allocation.
    pub fn client_alloc_size() -> (r: u64)
        ensures
            r == saturated(
                ceil_to(GSP_FW_HEAP_PARAM_CLIENT_ALLOC_SIZE as nat, SZ_1M as nat) as int,
            ),
    {
        match (GSP_FW_HEAP_PARAM_CLIENT_ALLOC_SIZE as u64).align_up(gsp_heap_alignment()) {
            Some(size) => size,
            None => u64::MAX,
        }
    }

    /// The memory to reserve for a framebuffer of `fb_size` bytes: an amount for each
    /// gigabyte of it, begun ones included, in whole heap units.
    pub open spec fn overhead(fb_size: nat) -> int {
        saturated(
            ceil_to(
                saturated(
                    GSP_FW_HEAP_PARAM_SIZE_PER_GB_FB * ((fb_size + SZ_1G - 1) / SZ_1G as int),
                ) as nat,
                SZ_1M as nat,
            ) as int,
        )
    }

    /// Returns the amount of memory to reserve for management purposes for a framebuffer of
    /// size `fb_size`.
    pub fn management_overhead(fb_size: u64) -> (r: u64)
        ensures
            r == Self::overhead(fb_size as nat),
    {
        let fb_size_gb: u64 = if fb_size % SZ_1G == 0 {
            fb_size / SZ_1G
        } else {
            fb_size / SZ_1G + 1
        };
        assert(fb_size_gb == (fb_size + SZ_1G - 1) / SZ_1G as int);
        assert(fb_size_gb <= 0x4_0000_0000);
        assert(GSP_FW_HEAP_PARAM_SIZE_PER_GB_FB * fb_size_gb == 0x1_8000 * fb_size_gb);
        let size: u64 = GSP_FW_HEAP_PARAM_SIZE_PER_GB_FB as u64 * fb_size_gb;
        match size.align_up(gsp_heap_alignment()) {
            Some(aligned) => aligned,
            None => u64::MAX,
        }
    }
}

/// Heap memory requirements and constraints for a given version of the GSP LIBOS.
pub struct LibosParams {
    /// The base amount of heap required by the GSP operating system, in bytes.
    pub carveout_size: u64,
    /// The minimum and maximum sizes allowed for the GSP FW heap, in bytes.
    pub allowed_heap_size: Range<u64>,
}

impl LibosParams {
    /// Version 2 of the GSP LIBOS (Turing and GA100).
    pub fn libos2() -> (r: Self)
        ensures
            r.inv(),
            r.carveout_size == GSP_FW_HEAP_PARAM_OS_SIZE_LIBOS2,
            r.allowed_heap_size.start == GSP_FW_HEAP_SIZE_OVERRIDE_LIBOS2_MIN_MB * SZ_1M,
            r.allowed_heap_size.end == GSP_FW_HEAP_SIZE_OVERRIDE_LIBOS2_MAX_MB * SZ_1M,
    {
        LibosParams {
            carveout_size: GSP_FW_HEAP_PARAM_OS_SIZE_LIBOS2 as u64,
            allowed_heap_size: GSP_FW_HEAP_SIZE_OVERRIDE_LIBOS2_MIN_MB as u64 * SZ_1M
                ..GSP_FW_HEAP_SIZE_OVERRIDE_LIBOS2_MAX_MB as u64 * SZ_1M,
        }
    }

    /// Version 3 of the GSP LIBOS (GA102+).
    pub fn libos3() -> (r: Self)
        ensures
            r.inv(),
            r.carveout_size == GSP_FW_HEAP_PARAM_OS_SIZE_LIBOS3_BAREMETAL,
            r.allowed_heap_size.start == GSP_FW_HEAP_SIZE_OVERRIDE_LIBOS3_BAREMETAL_MIN_MB * SZ_1M,
            r.allowed_heap_size.end == GSP_FW_HEAP_SIZE_OVERRIDE_LIBOS3_BAREMETAL_MAX_MB * SZ_1M,
    {
        LibosParams {
            carveout_size: GSP_FW_HEAP_PARAM_OS_SIZE_LIBOS3_BAREMETAL as u64,
            allowed_heap_size: GSP_FW_HEAP_SIZE_OVERRIDE_LIBOS3_BAREMETAL_MIN_MB as u64 * SZ_1M
                ..GSP_FW_HEAP_SIZE_OVERRIDE_LIBOS3_BAREMETAL_MAX_MB as u64 * SZ_1M,
        }
    }

    /// Some heap size is allowed.
    pub open spec fn inv(&self) -> bool {
        self.allowed_heap_size.start < self.allowed_heap_size.end
    }

    /// The heap that everything in it adds up to.
    pub open spec fn wanted_heap_size(&self, fb_size: nat) -> int {
        self.carveout_size + GSP_FW_HEAP_PARAM_BASE_RM_SIZE_TU10X + ceil_to(
            GSP_FW_HEAP_PARAM_CLIENT_ALLOC_SIZE as nat,
            SZ_1M as nat,
        ) + GspFwHeapParams::overhead(fb_size)
    }

    /// Returns the amount of memory (in bytes) to allocate for the WPR heap for a framebuffer
    /// size of `fb_size` (in bytes) for `chipset`.
    pub fn wpr_heap_size(&self, chipset: Chipset, fb_size: u64) -> (r: u64)
        requires
            self.inv(),
        ensures
            r == (if self.wanted_heap_size(fb_size as nat) < self.allowed_heap_size.start {
                self.allowed_heap_size.start as int
            } else if self.wanted_heap_size(fb_size as nat) >= self.allowed_heap_size.end {
                self.allowed_heap_size.end - 1
            } else {
                self.wanted_heap_size(fb_size as nat)
            }),
            self.allowed_heap_size.start <= r < self.allowed_heap_size.end,
    {
        // The WPR heap will contain the following:
        // LIBOS carveout,
        let size: u64 = self.carveout_size
            // RM boot working memory,
            .saturating_add(GspFwHeapParams::base_rm_size(chipset))
            // One RM client,
            .saturating_add(GspFwHeapParams::client_alloc_size())
            // Overhead for memory management.
            .saturating_add(GspFwHeapParams::management_overhead(fb_size));
        // Clamp to the supported heap sizes.
        let min: u64 = self.allowed_heap_size.start;
        let max: u64 = self.allowed_heap_size.end - 1;
        if size < min {
            min
        } else if size > max {
            max
        } else {
            size
        }
    }
}

/// The bytes of an `ID8` identifier: the last eight bytes of the name in reverse order,
/// filled up with zeros.
pub open spec fn id8_bytes(name: Seq<u8>) -> Seq<u8> {
    Seq::new(
        8,
        |i: int|
            if i < name.len() {
                name[name.len() - 1 - i]
            } else {
                0u8
            },
    )
}

/// Names of up to eight bytes have different identifiers.
pub proof fn lemma_id8_injective(a: Seq<u8>, b: Seq<u8>)
    requires
        a.len() <= 8,
        b.len() <= 8,
        !a.contains(0),
        !b.contains(0),
        id8_bytes(a) == id8_bytes(b),
    ensures
        a == b,
{
    if a.len() < b.len() {
        let i = a.len() as int;
        assert(id8_bytes(a)[i] == 0);
        assert(id8_bytes(b)[i] == b[b.len() - 1 - i]);
        assert(b.contains(b[b.len() - 1 - i]));
    }
    if b.len() < a.len() {
        let i = b.len() as int;
        assert(id8_bytes(b)[i] == 0);
        assert(id8_bytes(a)[i] == a[a.len() - 1 - i]);
        assert(a.contains(a[a.len() - 1 - i]));
    }
    assert forall|j: int| 0 <= j < a.len() implies a[j] == b[j] by {
        let i = a.len() - 1 - j;
        assert(id8_bytes(a)[i] == a[j]);
        assert(id8_bytes(b)[i] == b[j]);
    }
    assert(a =~= b);
}

/// Generates the `ID8` identifier required for some GSP objects.
pub fn id8(name: &str) -> (r: u64)
    ensures
        le64(r) == id8_bytes(name.spec_bytes()),
{
    let bytes = name.as_bytes();
    let n: usize = bytes.len();
    let mut id: [u8; 8] = [0u8, 0u8, 0u8, 0u8, 0u8, 0u8, 0u8, 0u8];
    let mut i: usize = 0;
    while i < 8 && i < n
        invariant
            i <= 8,
            i <= n,
            n == bytes@.len(),
            bytes@ == name.spec_bytes(),
            id@.len() == 8,
            forall|j: int| 0 <= j < i ==> id@[j] == bytes@[n - 1 - j],
            forall|j: int| i <= j < 8 ==> id@[j] == 0,
        decreases 8 - i,
    {
        id[i] = bytes[n - 1 - i];
        i = i + 1;
    }
    assert(id@ =~= id8_bytes(name.spec_bytes()));
    proof {
        lemma_le64_of_get(id@, 0);
        assert(id@.subrange(0, 8) =~= id@);
    }
    u64_at(id.as_slice(), 0)
}

/// Describes a memory region to the GSP operating system.
#[derive(Clone, Copy, Debug, PartialEq, Eq, Structural)]
pub struct LibosMemoryRegionInitArgument {
    /// Identifies the region.
    pub id8: u64,
    /// Device address of the region.
    pub pa: u64,
    /// Size of the region.
    pub size: u64,
    /// How the region is laid out.
    pub kind: u8,
    /// Where the region is.
    pub loc: u8,
}

impl LibosMemoryRegionInitArgument {
    /// This describes `size` bytes of contiguous system memory at the device address `pa`,
    /// under the name `name`.
    pub open spec fn describes(&self, name: Seq<u8>, pa: u64, size: int) -> bool {
        &&& le64(self.id8) == id8_bytes(name)
        &&& self.pa == pa
        &&& self.size == size
        &&& self.kind == LIBOS_MEMORY_REGION_CONTIGUOUS
        &&& self.loc == LIBOS_MEMORY_REGION_LOC_SYSMEM
    }

    /// Describes `obj` under the name `name`.
    pub fn new<A: Element>(name: &str, obj: &CoherentAllocation<A>) -> (r: Self)
        requires
            obj.inv(),
        ensures
            r.describes(name.spec_bytes(), obj.dma_handle, (obj.data@.len() * A::size()) as int),
            r.pa == obj.dma_handle,
            r.size == obj.data@.len() * A::size(),
    {
        LibosMemoryRegionInitArgument {
            id8: id8(name),
            pa: obj.dma_handle(),
            size: obj.size() as u64,
            kind: LIBOS_MEMORY_REGION_CONTIGUOUS,
            loc: LIBOS_MEMORY_REGION_LOC_SYSMEM,
        }
    }
}

impl Element for LibosMemoryRegionInitArgument {
    open spec fn size() -> nat {
        32
    }

    fn size_of() -> (r: usize) {
        32
    }

    open spec fn zero() -> Self {
        LibosMemoryRegionInitArgument { id8: 0, pa: 0, size: 0, kind: 0, loc: 0 }
    }

    fn zeroed() -> (r: Self) {
        LibosMemoryRegionInitArgument { id8: 0, pa: 0, size: 0, kind: 0, loc: 0 }
    }
}

/// Structure passed to the GSP bootloader, containing the framebuffer layout as well as the
/// DMA addresses of the GSP bootloader and firmware. Fields that are not here are zero.
#[derive(Clone, Copy, Debug, PartialEq, Eq, Structural)]
pub struct GspFwWprMeta {
    /// Marks the structure.
    pub magic: u64,
    /// Version of the structure.
    pub revision: u64,
    /// Device address of the page table of the firmware image.
    pub sysmem_addr_of_radix3_elf: u64,
    /// Size of the firmware image.
    pub size_of_radix3_elf: u64,
    /// Device address of the bootloader.
    pub sysmem_addr_of_bootloader: u64,
    /// Size of the bootloader.
    pub size_of_bootloader: u64,
    /// Offset of the code of the bootloader.
    pub bootloader_code_offset: u64,
    /// Offset of the data of the bootloader.
    pub bootloader_data_offset: u64,
    /// Offset of the manifest of the bootloader.
    pub bootloader_manifest_offset: u64,
    /// Device address of the signatures.
    pub sysmem_addr_of_signature: u64,
    /// Size of the signatures.
    pub size_of_signature: u64,
    /// Start of the reserved region.
    pub gsp_fw_rsvd_start: u64,
    /// Start of the heap outside WPR2.
    pub non_wpr_heap_offset: u64,
    /// Size of the heap outside WPR2.
    pub non_wpr_heap_size: u64,
    /// Start of WPR2.
    pub gsp_fw_wpr_start: u64,
    /// Start of the heap inside WPR2.
    pub gsp_fw_heap_offset: u64,
    /// Size of the heap inside WPR2.
    pub gsp_fw_heap_size: u64,
    /// Start of the firmware image in the framebuffer.
    pub gsp_fw_offset: u64,
    /// Start of the boot binary.
    pub boot_bin_offset: u64,
    /// Start of the FRTS region.
    pub frts_offset: u64,
    /// Size of the FRTS region.
    pub frts_size: u64,
    /// End of WPR2.
    pub gsp_fw_wpr_end: u64,
    /// Number of virtual function partitions.
    pub gsp_fw_heap_vf_partition_count: u8,
    /// Size of the framebuffer.
    pub fb_size: u64,
    /// Start of the VGA workspace.
    pub vga_workspace_offset: u64,
    /// Size of the VGA workspace.
    pub vga_workspace_size: u64,
}

impl GspFwWprMeta {
    /// Describes the firmware and the framebuffer to the bootloader.
    pub fn new(gsp_firmware: &GspFirmware, fb_layout: &FbLayout) -> (r: Self)
        requires
            fb_layout.inv(),
            gsp_firmware.bootloader.ucode.inv(),
            gsp_firmware.signatures.inv(),
        ensures
            r.magic == GSP_FW_WPR_META_MAGIC,
            r.revision == GSP_FW_WPR_META_REVISION,
            r.sysmem_addr_of_radix3_elf == gsp_firmware.radix3_dma_handle,
            r.size_of_radix3_elf == gsp_firmware.size,
            r.sysmem_addr_of_bootloader == gsp_firmware.bootloader.ucode.dma_handle,
            r.size_of_bootloader == gsp_firmware.bootloader.ucode.data@.len(),
            r.bootloader_code_offset == gsp_firmware.bootloader.code_offset,
            r.bootloader_data_offset == gsp_firmware.bootloader.data_offset,
            r.bootloader_manifest_offset == gsp_firmware.bootloader.manifest_offset,
            r.sysmem_addr_of_signature == gsp_firmware.signatures.dma_handle,
            r.size_of_signature == gsp_firmware.signatures.data@.len(),
            r.gsp_fw_rsvd_start == fb_layout.heap.start,
            r.non_wpr_heap_offset == fb_layout.heap.start,
            r.non_wpr_heap_size == fb_layout.heap.end - fb_layout.heap.start,
            r.gsp_fw_wpr_start == fb_layout.wpr2.start,
            r.gsp_fw_heap_offset == fb_layout.wpr2_heap.start,
            r.gsp_fw_heap_size == fb_layout.wpr2_heap.end - fb_layout.wpr2_heap.start,
            r.gsp_fw_offset == fb_layout.elf.start,
            r.boot_bin_offset == fb_layout.boot.start,
            r.frts_offset == fb_layout.frts.start,
            r.frts_size == fb_layout.frts.end - fb_layout.frts.start,
            r.gsp_fw_wpr_end == floor_to(fb_layout.vga_workspace.start as nat, SZ_128K as nat),
            r.gsp_fw_heap_vf_partition_count == fb_layout.vf_partition_count,
            r.fb_size == fb_layout.fb.end - fb_layout.fb.start,
            r.vga_workspace_offset == fb_layout.vga_workspace.start,
            r.vga_workspace_size == fb_layout.vga_workspace.end - fb_layout.vga_workspace.start,
    {
        proof {
            vstd::arithmetic::power2::lemma2_to64();
        }
        assert(vstd::arithmetic::power2::pow2(17) == SZ_128K as nat);
        GspFwWprMeta {
            magic: GSP_FW_WPR_META_MAGIC,
            revision: GSP_FW_WPR_META_REVISION as u64,
            sysmem_addr_of_radix3_elf: gsp_firmware.radix3_dma_handle,
            size_of_radix3_elf: gsp_firmware.size as u64,
            sysmem_addr_of_bootloader: gsp_firmware.bootloader.ucode.dma_handle(),
            size_of_bootloader: gsp_firmware.bootloader.ucode.size() as u64,
            bootloader_code_offset: gsp_firmware.bootloader.code_offset as u64,
            bootloader_data_offset: gsp_firmware.bootloader.data_offset as u64,
            bootloader_manifest_offset: gsp_firmware.bootloader.manifest_offset as u64,
            sysmem_addr_of_signature: gsp_firmware.signatures.dma_handle(),
            size_of_signature: gsp_firmware.signatures.size() as u64,
            gsp_fw_rsvd_start: fb_layout.heap.start,
            non_wpr_heap_offset: fb_layout.heap.start,
            non_wpr_heap_size: fb_layout.heap.end - fb_layout.heap.start,
            gsp_fw_wpr_start: fb_layout.wpr2.start,
            gsp_fw_heap_offset: fb_layout.wpr2_heap.start,
            gsp_fw_heap_size: fb_layout.wpr2_heap.end - fb_layout.wpr2_heap.start,
            gsp_fw_offset: fb_layout.elf.start,
            boot_bin_offset: fb_layout.boot.start,
            frts_offset: fb_layout.frts.start,
            frts_size: fb_layout.frts.end - fb_layout.frts.start,
            gsp_fw_wpr_end: fb_layout.vga_workspace.start.align_down(Alignment::new(SZ_128K)),
            gsp_fw_heap_vf_partition_count: fb_layout.vf_partition_count,
            fb_size: fb_layout.fb.end - fb_layout.fb.start,
            vga_workspace_offset: fb_layout.vga_workspace.start,
            vga_workspace_size: fb_layout.vga_workspace.end - fb_layout.vga_workspace.start,
        }
    }
}

/// Arguments that GSP-RM finds in memory when it boots. Fields that are not here are zero.
#[derive(Clone, Copy, Debug, PartialEq, Eq, Structural)]
pub struct GspArgumentsCached {
    /// Device address of the memory that is shared with the GSP.
    pub shared_mem_phys_addr: u64,
    /// Number of entries of the page table at the start of that memory.
    pub page_table_entry_count: u32,
    /// Offset of the pages of the CPU queue.
    pub cmd_queue_offset: u64,
    /// Offset of the pages of the GSP queue.
    pub stat_queue_offset: u64,
    /// Power level before a suspend.
    pub sr_old_level: u32,
    /// Flags of a resume.
    pub sr_flags: u32,
    /// Whether the GPU resumes.
    pub sr_in_pm_transition: u8,
    /// Whether the stack is in data memory.
    pub dmem_stack: u8,
}

impl GspArgumentsCached {
    /// Describes the queues of `cmdq`.
    pub fn new(cmdq: &GspCmdq) -> (r: Self)
        ensures
            r == (GspArgumentsCached {
                shared_mem_phys_addr: cmdq.gsp_mem.dma_handle,
                page_table_entry_count: cmdq.nr_ptes,
                cmd_queue_offset: 0x1000,
                stat_queue_offset: 0x4_1000,
                sr_old_level: 0,
                sr_flags: 0,
                sr_in_pm_transition: 0,
                dmem_stack: 1,
            }),
    {
        let (shared_mem_phys_addr, cmd_queue_offset, stat_queue_offset) = cmdq.get_cmdq_offsets();
        GspArgumentsCached {
            shared_mem_phys_addr,
            page_table_entry_count: cmdq.nr_ptes,
            cmd_queue_offset,
            stat_queue_offset,
            sr_old_level: 0,
            sr_flags: 0,
            sr_in_pm_transition: 0,
            dmem_stack: 1,
        }
    }
}

impl Element for GspArgumentsCached {
    open spec fn size() -> nat {
        72
    }

    fn size_of() -> (r: usize) {
        72
    }

    open spec fn zero() -> Self {
        GspArgumentsCached {
            shared_mem_phys_addr: 0,
            page_table_entry_count: 0,
            cmd_queue_offset: 0,
            stat_queue_offset: 0,
            sr_old_level: 0,
            sr_flags: 0,
            sr_in_pm_transition: 0,
            dmem_stack: 0,
        }
    }

    fn zeroed() -> (r: Self) {
        GspArgumentsCached {
            shared_mem_phys_addr: 0,
            page_table_entry_count: 0,
            cmd_queue_offset: 0,
            stat_queue_offset: 0,
            sr_old_level: 0,
            sr_flags: 0,
            sr_in_pm_transition: 0,
            dmem_stack: 0,
        }
    }
}

/// Describes a message queue to the side that reads it.
#[derive(Clone, Copy, Debug, PartialEq, Eq, Structural)]
pub struct MsgqTxHeader {
    /// Version of the queue.
    pub version: u32,
    /// Size of the queue, its headers included.
    pub size: u32,
    /// Size of one element.
    pub msg_size: u32,
    /// Number of elements.
    pub msg_count: u32,
    /// The element that is written next.
    pub write_ptr: u32,
    /// Whether the other side's read pointer is next to this header.
    pub flags: u32,
    /// Offset of the read pointer.
    pub rx_hdr_off: u32,
    /// Offset of the first element.
    pub entry_off: u32,
}

impl MsgqTxHeader {
    /// Describes an empty queue.
    pub fn new(msgq_size: u32, num_pages: u32, rx_hdr_offset: u32) -> (r: Self)
        ensures
            r == (MsgqTxHeader {
                version: 0,
                size: msgq_size,
                msg_size: GSP_PAGE_SIZE as u32,
                msg_count: num_pages,
                write_ptr: 0,
                flags: 1,
                rx_hdr_off: rx_hdr_offset,
                entry_off: GSP_PAGE_SIZE as u32,
            }),
    {
        MsgqTxHeader {
            version: 0,
            size: msgq_size,
            msg_size: GSP_PAGE_SIZE as u32,
            msg_count: num_pages,
            write_ptr: 0,
            flags: 1,
            rx_hdr_off: rx_hdr_offset,
            entry_off: GSP_PAGE_SIZE as u32,
        }
    }

    /// Returns the current value of the write pointer.
    pub fn write_ptr(&self) -> (r: u32)
        ensures
            r == self.write_ptr,
    {
        self.write_ptr
    }

    /// Sets the write pointer.
    pub fn set_write_ptr(&mut self, val: u32)
        ensures
            *final(self) == (MsgqTxHeader { write_ptr: val, ..*old(self) }),
    {
        self.write_ptr = val;
    }
}

/// How far a message queue has been read.
#[derive(Clone, Copy, Debug, PartialEq, Eq, Structural)]
pub struct MsgqRxHeader {
    /// The element that is read next.
    pub read_ptr: u32,
}

impl MsgqRxHeader {
    /// Nothing has been read.
    pub fn new() -> (r: Self)
        ensures
            r.read_ptr == 0,
    {
        MsgqRxHeader { read_ptr: 0 }
    }

    /// Returns the current value of the read pointer.
    pub fn read_ptr(&self) -> (r: u32)
        ensures
            r == self.read_ptr,
    {
        self.read_ptr
    }

    /// Sets the read pointer.
    pub fn set_read_ptr(&mut self, val: u32)
        ensures
            final(self).read_ptr == val,
    {
        self.read_ptr = val;
    }
}

/// Size of a [`GspRpcHeader`] in a queue.
pub const RPC_HEADER_SIZE: usize = 32;

/// Header of a remote procedure call.
#[derive(Clone, Copy, Debug, PartialEq, Eq, Structural)]
pub struct GspRpcHeader {
    /// Version of the header.
    pub header_version: u32,
    /// Marks the header.
    pub signature: u32,
    /// Size of the call, this header included.
    pub length: u32,
    /// The function called.
    pub function: u32,
    /// Result of the call.
    pub rpc_result: u32,
    /// Result of the call.
    pub rpc_result_private: u32,
    /// Sequence number.
    pub sequence: u32,
    /// Number of remaining or spare bytes.
    pub spare: u32,
}

impl GspRpcHeader {
    /// The bytes of the header.
    #[verifier::opaque]
    pub open spec fn image(&self) -> Seq<u8> {
        le32(self.header_version) + le32(self.signature) + le32(self.length) + le32(self.function)
            + le32(self.rpc_result) + le32(self.rpc_result_private) + le32(self.sequence) + le32(
            self.spare,
        )
    }

    /// The header that the bytes from `at` on hold.
    #[verifier::opaque]
    pub open spec fn read(s: Seq<u8>, at: int) -> Self {
        GspRpcHeader {
            header_version: get_le32(s, at),
            signature: get_le32(s, at + 4),
            length: get_le32(s, at + 8),
            function: get_le32(s, at + 12),
            rpc_result: get_le32(s, at + 16),
            rpc_result_private: get_le32(s, at + 20),
            sequence: get_le32(s, at + 24),
            spare: get_le32(s, at + 28),
        }
    }

    /// A header takes [`RPC_HEADER_SIZE`] bytes.
    pub proof fn lemma_size(&self)
        ensures
            self.image().len() == RPC_HEADER_SIZE,
    {
        reveal(GspRpcHeader::image);
    }

    /// The bytes of a header that was read from bytes are those bytes.
    pub proof fn lemma_image_of_read(s: Seq<u8>, at: int)
        requires
            0 <= at,
            at + RPC_HEADER_SIZE <= s.len(),
        ensures
            Self::read(s, at).image() == s.subrange(at, at + RPC_HEADER_SIZE),
    {
        reveal(GspRpcHeader::image);
        reveal(GspRpcHeader::read);
        lemma_le32_of_get(s, at);
        lemma_le32_of_get(s, at + 4);
        lemma_le32_of_get(s, at + 8);
        lemma_le32_of_get(s, at + 12);
        lemma_le32_of_get(s, at + 16);
        lemma_le32_of_get(s, at + 20);
        lemma_le32_of_get(s, at + 24);
        lemma_le32_of_get(s, at + 28);
        assert(Self::read(s, at).image() =~= s.subrange(at, at + RPC_HEADER_SIZE));
    }

    /// The header that a part of `s` holds is the one that `s` holds there.
    pub proof fn lemma_read_part(s: Seq<u8>, from: int, to: int, at: int)
        requires
            0 <= from,
            0 <= at,
            from + at + RPC_HEADER_SIZE <= to,
            to <= s.len(),
        ensures
            Self::read(s.subrange(from, to), at) == Self::read(s, from + at),
    {
        let part = s.subrange(from, to);
        Self::lemma_image_of_read(part, at);
        assert(part.subrange(at, at + RPC_HEADER_SIZE) =~= s.subrange(
            from + at,
            from + at + RPC_HEADER_SIZE,
        ));
        Self::read(part, at).lemma_read_of_image(s, from + at);
    }

    /// The length of the header that the bytes from `at` on hold.
    pub proof fn lemma_read_length(s: Seq<u8>, at: int)
        ensures
            Self::read(s, at).length == get_le32(s, at + 8),
    {
        reveal(GspRpcHeader::read);
    }

    /// A header is read back from where its bytes stand.
    pub proof fn lemma_read_of_image(&self, s: Seq<u8>, at: int)
        requires
            0 <= at,
            at + RPC_HEADER_SIZE <= s.len(),
            s.subrange(at, at + RPC_HEADER_SIZE) == self.image(),
        ensures
            Self::read(s, at) == *self,
    {
        reveal(GspRpcHeader::image);
        reveal(GspRpcHeader::read);
        let t = s.subrange(at, at + RPC_HEADER_SIZE);
        assert(t.len() == 32);
        assert(t.subrange(0, 4) =~= le32(self.header_version));
        assert(t.subrange(4, 8) =~= le32(self.signature));
        assert(t.subrange(8, 12) =~= le32(self.length));
        assert(t.subrange(12, 16) =~= le32(self.function));
        assert(t.subrange(16, 20) =~= le32(self.rpc_result));
        assert(t.subrange(20, 24) =~= le32(self.rpc_result_private));
        assert(t.subrange(24, 28) =~= le32(self.sequence));
        assert(t.subrange(28, 32) =~= le32(self.spare));
        assert(s.subrange(at, at + 4) =~= t.subrange(0, 4));
        assert(s.subrange(at + 4, at + 8) =~= t.subrange(4, 8));
        assert(s.subrange(at + 8, at + 12) =~= t.subrange(8, 12));
        assert(s.subrange(at + 12, at + 16) =~= t.subrange(12, 16));
        assert(s.subrange(at + 16, at + 20) =~= t.subrange(16, 20));
        assert(s.subrange(at + 20, at + 24) =~= t.subrange(20, 24));
        assert(s.subrange(at + 24, at + 28) =~= t.subrange(24, 28));
        assert(s.subrange(at + 28, at + 32) =~= t.subrange(28, 32));
        lemma_get_le32(s, at, self.header_version);
        lemma_get_le32(s, at + 4, self.signature);
        lemma_get_le32(s, at + 8, self.length);
        lemma_get_le32(s, at + 12, self.function);
        lemma_get_le32(s, at + 16, self.rpc_result);
        lemma_get_le32(s, at + 20, self.rpc_result_private);
        lemma_get_le32(s, at + 24, self.sequence);
        lemma_get_le32(s, at + 28, self.spare);
    }

    /// Describes a call of `function` with `cmd_size` bytes of arguments.
    pub fn new(cmd_size: u32, function: u32) -> (r: Self)
        requires
            RPC_HEADER_SIZE + cmd_size <= u32::MAX,
        ensures
            r == (GspRpcHeader {
                header_version: 0x0300_0000,
                signature: NV_VGPU_MSG_SIGNATURE_VALID,
                length: (RPC_HEADER_SIZE + cmd_size) as u32,
                function,
                rpc_result: 0xffff_ffff,
                rpc_result_private: 0xffff_ffff,
                sequence: 0,
                spare: 0,
            }),
    {
        GspRpcHeader {
            header_version: 0x0300_0000,
            signature: NV_VGPU_MSG_SIGNATURE_VALID,
            length: RPC_HEADER_SIZE as u32 + cmd_size,
            function,
            rpc_result: 0xffff_ffff,
            rpc_result_private: 0xffff_ffff,
            sequence: 0,
            spare: 0,
        }
    }

    /// Returns the sequence number.
    pub fn sequence(&self) -> (r: u32)
        ensures
            r == self.sequence,
    {
        self.sequence
    }

    /// Returns the function called.
    pub fn function(&self) -> (r: u32)
        ensures
            r == self.function,
    {
        self.function
    }

    /// Sets the function called.
    pub fn set_function(&mut self, function: u32)
        ensures
            *final(self) == (GspRpcHeader { function, ..*old(self) }),
    {
        self.function = function;
    }

    /// Returns the size of the call, this header included.
    pub fn length(&self) -> (r: u32)
        ensures
            r == self.length,
    {
        self.length
    }
}

/// Size of a [`GspMsgElement`] in a queue.
pub const MSG_ELEMENT_SIZE: usize = 80;

/// Offset of the checksum in a [`GspMsgElement`].
pub const MSG_CHECKSUM_OFFSET: usize = 32;

/// Header of a message in a queue. The arguments of the call follow it.
pub struct GspMsgElement {
    /// Authentication tag and additional data, 32 bytes.
    pub auth: Vec<u8>,
    /// Makes the checksum zero over all that it was taken over: in a command, that is the
    /// message and what lies behind it in the part of the queue that the command may use. The
    /// checksum of the message alone is zero if what lies behind it adds nothing.
    pub checksum: u32,
    /// Sequence number of the message.
    pub seq_num: u32,
    /// Number of pages that the message takes.
    pub elem_count: u32,
    /// Padding in front of the call.
    pub padding: u32,
    /// The call.
    pub rpc: GspRpcHeader,
}

/// The number of pages that `size` bytes take.
pub open spec fn pages_of(size: int) -> int {
    (size + GSP_PAGE_SIZE - 1) / GSP_PAGE_SIZE as int
}

impl GspMsgElement {
    /// The authentication data has its size.
    pub open spec fn inv(&self) -> bool {
        self.auth@.len() == 32
    }

    /// The bytes of the header.
    #[verifier::opaque]
    pub open spec fn image(&self) -> Seq<u8> {
        self.auth@ + le32(self.checksum) + le32(self.seq_num) + le32(self.elem_count) + le32(
            self.padding,
        ) + self.rpc.image()
    }

    /// Bytes determine a header: two headers with the same bytes have the same fields.
    pub proof fn lemma_image_injective(&self, other: &Self)
        requires
            self.inv(),
            other.inv(),
            self.image() == other.image(),
        ensures
            self.auth@ == other.auth@,
            self.checksum == other.checksum,
            self.seq_num == other.seq_num,
            self.elem_count == other.elem_count,
            self.padding == other.padding,
            self.rpc == other.rpc,
    {
        reveal(GspMsgElement::image);
        self.rpc.lemma_size();
        other.rpc.lemma_size();
        let s = self.image();
        assert(s.subrange(0, 32) =~= self.auth@);
        assert(s.subrange(0, 32) =~= other.auth@);
        self.lemma_fields(s);
        other.lemma_fields(s);
    }

    /// The fields of a header stand at their offsets in its bytes.
    pub proof fn lemma_fields(&self, s: Seq<u8>)
        requires
            self.inv(),
            s == self.image(),
        ensures
            s.len() == MSG_ELEMENT_SIZE,
            get_le32(s, 32) == self.checksum,
            get_le32(s, 36) == self.seq_num,
            get_le32(s, 40) == self.elem_count,
            get_le32(s, 44) == self.padding,
            GspRpcHeader::read(s, 48) == self.rpc,
    {
        reveal(GspMsgElement::image);
        self.rpc.lemma_size();
        assert(s.subrange(32, 36) =~= le32(self.checksum));
        assert(s.subrange(36, 40) =~= le32(self.seq_num));
        assert(s.subrange(40, 44) =~= le32(self.elem_count));
        assert(s.subrange(44, 48) =~= le32(self.padding));
        assert(s.subrange(48, 80) =~= self.rpc.image());
        lemma_get_le32(s, 32, self.checksum);
        lemma_get_le32(s, 36, self.seq_num);
        lemma_get_le32(s, 40, self.elem_count);
        lemma_get_le32(s, 44, self.padding);
        self.rpc.lemma_read_of_image(s, 48);
    }

    /// Where the bytes of `self` stand at `at`, storing `sealed`, which differs in the
    /// checksum, changes nothing but the bytes of the checksum.
    pub proof fn lemma_set_checksum(&self, sealed: &Self, s: Seq<u8>, at: int)
        requires
            self.inv(),
            *sealed == (GspMsgElement { checksum: sealed.checksum, ..*self }),
            0 <= at,
            at + MSG_ELEMENT_SIZE <= s.len(),
            s.subrange(at, at + MSG_ELEMENT_SIZE) == self.image(),
        ensures
            splice(s, at, sealed.image()) == splice(
                s,
                at + MSG_CHECKSUM_OFFSET,
                le32(sealed.checksum),
            ),
    {
        reveal(GspMsgElement::image);
        self.lemma_fields(self.image());
        let tail = le32(self.seq_num) + le32(self.elem_count) + le32(self.padding)
            + self.rpc.image();
        assert(self.image() =~= self.auth@ + le32(self.checksum) + tail);
        assert(sealed.image() =~= self.auth@ + le32(sealed.checksum) + tail);
        lemma_splice_inner(
            s,
            at,
            self.auth@,
            le32(self.checksum),
            le32(sealed.checksum),
            tail,
        );
    }

    /// Returns the bytes of the header.
    pub fn to_bytes(&self) -> (r: Vec<u8>)
        ensures
            r@ == self.image(),
    {
        let mut r: Vec<u8> = Vec::new();
        append(&mut r, self.auth.as_slice());
        append(&mut r, u32_to_le(self.checksum).as_slice());
        append(&mut r, u32_to_le(self.seq_num).as_slice());
        append(&mut r, u32_to_le(self.elem_count).as_slice());
        append(&mut r, u32_to_le(self.padding).as_slice());
        append(&mut r, u32_to_le(self.rpc.header_version).as_slice());
        append(&mut r, u32_to_le(self.rpc.signature).as_slice());
        append(&mut r, u32_to_le(self.rpc.length).as_slice());
        append(&mut r, u32_to_le(self.rpc.function).as_slice());
        append(&mut r, u32_to_le(self.rpc.rpc_result).as_slice());
        append(&mut r, u32_to_le(self.rpc.rpc_result_private).as_slice());
        append(&mut r, u32_to_le(self.rpc.sequence).as_slice());
        append(&mut r, u32_to_le(self.rpc.spare).as_slice());
        reveal(GspMsgElement::image);
        reveal(GspRpcHeader::image);
        assert(r@ =~= self.image());
        r
    }

    /// Returns the header that `bytes` hold, or `None` if they are too few or too many.
    pub fn from_bytes(bytes: &[u8]) -> (r: Option<Self>)
        ensures
            r is Some <==> bytes@.len() == MSG_ELEMENT_SIZE,
            r is Some ==> {
                &&& r->0.inv()
                &&& r->0.image() == bytes@
                &&& r->0.rpc == GspRpcHeader::read(bytes@, 48)
            },
    {
        if bytes.len() != MSG_ELEMENT_SIZE {
            return None;
        }
        let mut auth: Vec<u8> = Vec::new();
        append(&mut auth, bytes.split_at(32).0);
        let r = GspMsgElement {
            auth,
            checksum: u32_at(bytes, 32),
            seq_num: u32_at(bytes, 36),
            elem_count: u32_at(bytes, 40),
            padding: u32_at(bytes, 44),
            rpc: GspRpcHeader {
                header_version: u32_at(bytes, 48),
                signature: u32_at(bytes, 52),
                length: u32_at(bytes, 56),
                function: u32_at(bytes, 60),
                rpc_result: u32_at(bytes, 64),
                rpc_result_private: u32_at(bytes, 68),
                sequence: u32_at(bytes, 72),
                spare: u32_at(bytes, 76),
            },
        };
        proof {
            reveal(GspRpcHeader::read);
            reveal(GspMsgElement::image);
            lemma_le32_of_get(bytes@, 32);
            lemma_le32_of_get(bytes@, 36);
            lemma_le32_of_get(bytes@, 40);
            lemma_le32_of_get(bytes@, 44);
            GspRpcHeader::lemma_image_of_read(bytes@, 48);
            r.rpc.lemma_size();
            assert(r.auth@ =~= bytes@.subrange(0, 32));
            assert(bytes@ =~= bytes@.subrange(0, 32) + bytes@.subrange(32, 36) + bytes@.subrange(
                36,
                40,
            ) + bytes@.subrange(40, 44) + bytes@.subrange(44, 48) + bytes@.subrange(48, 80));
        }
        Some(r)
    }

    /// Describes a message with `cmd_size` bytes of arguments. Where the number of pages or
    /// `cmd_size` is too large for a field, its low 32 bits are taken.
    pub fn new(sequence: u32, cmd_size: usize, function: u32) -> (r: Self)
        requires
            MSG_ELEMENT_SIZE + cmd_size <= usize::MAX,
            RPC_HEADER_SIZE + cmd_size as int % 0x1_0000_0000 <= u32::MAX,
        ensures
            r.inv(),
            r.auth@ == Seq::new(32, |i: int| 0u8),
            r.checksum == 0,
            r.seq_num == sequence,
            r.elem_count == pages_of(MSG_ELEMENT_SIZE + cmd_size) % 0x1_0000_0000,
            r.padding == 0,
            r.rpc == (GspRpcHeader {
                header_version: 0x0300_0000,
                signature: NV_VGPU_MSG_SIGNATURE_VALID,
                length: (RPC_HEADER_SIZE + cmd_size as int % 0x1_0000_0000) as u32,
                function,
                rpc_result: 0xffff_ffff,
                rpc_result_private: 0xffff_ffff,
                sequence: 0,
                spare: 0,
            }),
    {
        let size: usize = MSG_ELEMENT_SIZE + cmd_size;
        let pages: usize = if size % GSP_PAGE_SIZE == 0 {
            size / GSP_PAGE_SIZE
        } else {
            size / GSP_PAGE_SIZE + 1
        };
        assert(pages == pages_of(size as int));
        let mut auth: Vec<u8> = Vec::new();
        while auth.len() < 32
            invariant
                auth@.len() <= 32,
                forall|i: int| 0 <= i < auth@.len() ==> auth@[i] == 0,
            decreases 32 - auth@.len(),
        {
            auth.push(0);
        }
        assert(auth@ =~= Seq::new(32, |i: int| 0u8));
        GspMsgElement {
            auth,
            checksum: 0,
            seq_num: sequence,
            elem_count: (pages as u64 % 0x1_0000_0000) as u32,
            padding: 0,
            rpc: GspRpcHeader::new((cmd_size as u64 % 0x1_0000_0000) as u32, function),
        }
    }

    /// Returns the call.
    pub fn rpc_header(&self) -> (r: &GspRpcHeader)
        ensures
            *r == self.rpc,
    {
        &self.rpc
    }

    /// Returns the call.
    pub fn rpc_header_mut(&mut self) -> (r: &mut GspRpcHeader)
        ensures
            *r == old(self).rpc,
            *final(self) == (GspMsgElement { rpc: *final(r), ..*old(self) }),
    {
        &mut self.rpc
    }

    /// Sets the checksum.
    pub fn set_checksum(&mut self, checksum: u32)
        ensures
            *final(self) == (GspMsgElement { checksum, ..*old(self) }),
    {
        self.checksum = checksum;
    }

    /// Returns the number of pages that the message takes.
    pub fn elem_count(&self) -> (r: u32)
        ensures
            r == self.elem_count,
    {
        self.elem_count
    }

    /// Returns the total size of the message element, including its headers and payload.
    pub fn length(&self) -> (r: u64)
        ensures
            r == MSG_ELEMENT_SIZE - RPC_HEADER_SIZE + self.rpc.length,
    {
        (MSG_ELEMENT_SIZE - RPC_HEADER_SIZE) as u64 + self.rpc.length() as u64
    }
}

} // verus!
