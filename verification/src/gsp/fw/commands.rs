//! Commands to the GSP firmware.

use vstd::prelude::*;

use crate::bytes::{append, put_bytes, u32_to_le, u64_to_le};
use crate::bytes::{le32, le64, splice};
use crate::error::Error;
use crate::nvfw::REGISTRY_TABLE_ENTRY_TYPE_DWORD;

verus! {

/// What the driver knows of the PCI device.
pub struct PciDevice {
    /// Start of resource 0, or why it is not known.
    pub resource_0: Result<u64, Error>,
    /// Start of resource 1, or why it is not known.
    pub resource_1: Result<u64, Error>,
    /// Start of resource 3, or why it is not known.
    pub resource_3: Result<u64, Error>,
    /// Bus, device and function.
    pub dev_id: u16,
    /// Device ID.
    pub device_id: u16,
    /// Vendor ID.
    pub vendor_id: u16,
    /// Subsystem device ID.
    pub subsystem_device_id: u16,
    /// Subsystem vendor ID.
    pub subsystem_vendor_id: u16,
    /// Revision ID.
    pub revision_id: u8,
}

/// Size of a [`GspSystemInfo`].
pub const SYSTEM_INFO_SIZE: usize = 928;

/// Largest virtual address of a user.
pub const MAX_USER_VA: u64 = 0x7fff_ffff_f000;

/// Base of the mirror of the PCI configuration space.
pub const PCI_CONFIG_MIRROR_BASE: u32 = 0x08_8000;

/// Size of the mirror of the PCI configuration space.
pub const PCI_CONFIG_MIRROR_SIZE: u32 = 0x00_1000;

/// Offset of a field of [`GspSystemInfo`].
pub const GPU_PHYS_ADDR: usize = 0;

/// Offset of a field of [`GspSystemInfo`].
pub const GPU_PHYS_FB_ADDR: usize = 8;

/// Offset of a field of [`GspSystemInfo`].
pub const GPU_PHYS_INST_ADDR: usize = 16;

/// Offset of a field of [`GspSystemInfo`].
pub const NV_DOMAIN_BUS_DEVICE_FUNC: usize = 32;

/// Offset of two fields of [`GspSystemInfo`], [`MAX_USER_VA`] and the description of the
/// mirror of the PCI configuration space and the PCI device behind it.
pub const USER_VA_AND_PCI: usize = 72;

/// Offset of a field of [`GspSystemInfo`].
pub const IS_PRIMARY: usize = 896;

/// Offset of a field of [`GspSystemInfo`].
pub const PRESERVE_VIDEO_MEMORY_ALLOCATIONS: usize = 908;

/// A device ID and a vendor ID as one number.
pub open spec fn pci_id(device: u16, vendor: u16) -> u32 {
    (device * 0x1_0000 + vendor) as u32
}

/// Description of the system for the GSP. It is filled in where it stands in the queue;
/// what is not filled in stays as it is.
pub struct GspSystemInfo;

impl GspSystemInfo {
    /// The bytes of the fields from [`USER_VA_AND_PCI`] on.
    pub open spec fn pci_fields(dev: &PciDevice) -> Seq<u8> {
        le64(MAX_USER_VA) + le32(PCI_CONFIG_MIRROR_BASE) + le32(PCI_CONFIG_MIRROR_SIZE) + le32(
            pci_id(dev.device_id, dev.vendor_id),
        ) + le32(pci_id(dev.subsystem_device_id, dev.subsystem_vendor_id)) + le32(
            dev.revision_id as u32,
        )
    }

    /// The bytes `s` with the description of `dev` filled in, as far as its resources are
    /// known.
    pub open spec fn filled_in(s: Seq<u8>, dev: &PciDevice) -> Seq<u8> {
        if dev.resource_0 is Err {
            s
        } else {
            let s = splice(s, GPU_PHYS_ADDR as int, le64(dev.resource_0->Ok_0));
            if dev.resource_1 is Err {
                s
            } else {
                let s = splice(s, GPU_PHYS_FB_ADDR as int, le64(dev.resource_1->Ok_0));
                if dev.resource_3 is Err {
                    s
                } else {
                    let s = splice(s, GPU_PHYS_INST_ADDR as int, le64(dev.resource_3->Ok_0));
                    let s = splice(s, NV_DOMAIN_BUS_DEVICE_FUNC as int, le64(dev.dev_id as u64));
                    let s = splice(s, USER_VA_AND_PCI as int, Self::pci_fields(dev));
                    let s = splice(s, IS_PRIMARY as int, seq![0u8]);
                    splice(s, PRESERVE_VIDEO_MEMORY_ALLOCATIONS as int, seq![0u8])
                }
            }
        }
    }

    /// The first error among the resources of `dev`.
    pub open spec fn init_result(dev: &PciDevice) -> Result<(), Error> {
        if dev.resource_0 is Err {
            Err(dev.resource_0->Err_0)
        } else if dev.resource_1 is Err {
            Err(dev.resource_1->Err_0)
        } else if dev.resource_3 is Err {
            Err(dev.resource_3->Err_0)
        } else {
            Ok(())
        }
    }

    /// Fills in the description of `dev`. Stops at the first resource that is not known.
    pub fn init(info: &mut [u8], dev: &PciDevice) -> (r: Result<(), Error>)
        requires
            old(info)@.len() == SYSTEM_INFO_SIZE,
        ensures
            r == Self::init_result(dev),
            final(info)@ == Self::filled_in(old(info)@, dev),
            final(info)@.len() == SYSTEM_INFO_SIZE,
    {
        match dev.resource_0 {
            Ok(start) => put_bytes(info, GPU_PHYS_ADDR, u64_to_le(start).as_slice()),
            Err(e) => {
                return Err(e);
            },
        }
        match dev.resource_1 {
            Ok(start) => put_bytes(info, GPU_PHYS_FB_ADDR, u64_to_le(start).as_slice()),
            Err(e) => {
                return Err(e);
            },
        }
        match dev.resource_3 {
            Ok(start) => put_bytes(info, GPU_PHYS_INST_ADDR, u64_to_le(start).as_slice()),
            Err(e) => {
                return Err(e);
            },
        }
        put_bytes(info, NV_DOMAIN_BUS_DEVICE_FUNC, u64_to_le(dev.dev_id as u64).as_slice());
        let mut fields: Vec<u8> = Vec::new();
        append(&mut fields, u64_to_le(MAX_USER_VA).as_slice());
        append(&mut fields, u32_to_le(PCI_CONFIG_MIRROR_BASE).as_slice());
        append(&mut fields, u32_to_le(PCI_CONFIG_MIRROR_SIZE).as_slice());
        let id: u32 = dev.device_id as u32 * 0x1_0000 + dev.vendor_id as u32;
        append(&mut fields, u32_to_le(id).as_slice());
        let sub_id: u32 = dev.subsystem_device_id as u32 * 0x1_0000
            + dev.subsystem_vendor_id as u32;
        append(&mut fields, u32_to_le(sub_id).as_slice());
        append(&mut fields, u32_to_le(dev.revision_id as u32).as_slice());
        assert(fields@ =~= Self::pci_fields(dev));
        put_bytes(info, USER_VA_AND_PCI, fields.as_slice());
        let zero = [0u8];
        assert(zero@ =~= seq![0u8]);
        put_bytes(info, IS_PRIMARY, zero.as_slice());
        put_bytes(info, PRESERVE_VIDEO_MEMORY_ALLOCATIONS, zero.as_slice());
        Ok(())
    }
}

/// Size of a [`PackedRegistryEntry`].
pub const REGISTRY_ENTRY_SIZE: usize = 16;

/// An entry of the registry, as the firmware reads it.
#[derive(Clone, Copy, Debug, PartialEq, Eq, Structural)]
pub struct PackedRegistryEntry {
    /// Offset of the name of the entry from the start of the table.
    pub name_offset: u32,
    /// Type of the entry.
    pub kind: u8,
    /// Value of the entry.
    pub data: u32,
    /// Size of the value, where it is not in the entry.
    pub length: u32,
}

impl PackedRegistryEntry {
    /// The bytes of the entry.
    #[verifier::opaque]
    pub open spec fn image(&self) -> Seq<u8> {
        le32(self.name_offset) + seq![self.kind, 0u8, 0u8, 0u8] + le32(self.data) + le32(
            self.length,
        )
    }

    /// An entry takes [`REGISTRY_ENTRY_SIZE`] bytes.
    pub proof fn lemma_size(&self)
        ensures
            self.image().len() == REGISTRY_ENTRY_SIZE,
    {
        reveal(PackedRegistryEntry::image);
    }

    /// The entry of the 32-bit value `value`, with its name at `offset`.
    pub fn new(offset: u32, value: u32) -> (r: Self)
        ensures
            r == (PackedRegistryEntry {
                name_offset: offset,
                kind: REGISTRY_TABLE_ENTRY_TYPE_DWORD,
                data: value,
                length: 0,
            }),
    {
        PackedRegistryEntry {
            name_offset: offset,
            kind: REGISTRY_TABLE_ENTRY_TYPE_DWORD,
            data: value,
            length: 0,
        }
    }

    /// Returns the bytes of the entry.
    pub fn to_bytes(&self) -> (r: Vec<u8>)
        ensures
            r@ == self.image(),
    {
        let mut r: Vec<u8> = Vec::new();
        append(&mut r, u32_to_le(self.name_offset).as_slice());
        let kind = [self.kind, 0u8, 0u8, 0u8];
        append(&mut r, kind.as_slice());
        append(&mut r, u32_to_le(self.data).as_slice());
        append(&mut r, u32_to_le(self.length).as_slice());
        reveal(PackedRegistryEntry::image);
        assert(r@ =~= self.image());
        r
    }
}

/// Size of a [`PackedRegistryTable`].
pub const REGISTRY_TABLE_SIZE: usize = 8;

/// Header of the registry, as the firmware reads it. The entries follow it, and the names
/// follow them.
#[derive(Clone, Copy, Debug, PartialEq, Eq, Structural)]
pub struct PackedRegistryTable {
    /// Size of what follows.
    pub size: u32,
    /// Number of entries.
    pub num_entries: u32,
}

impl PackedRegistryTable {
    /// The bytes of the header.
    pub open spec fn image(&self) -> Seq<u8> {
        le32(self.size) + le32(self.num_entries)
    }

    /// The header of a table of `num_entries` entries, followed by `size` bytes.
    pub fn new(num_entries: u32, size: u32) -> (r: Self)
        ensures
            r == (PackedRegistryTable { size, num_entries }),
    {
        PackedRegistryTable { size, num_entries }
    }

    /// Returns the bytes of the header.
    pub fn to_bytes(&self) -> (r: Vec<u8>)
        ensures
            r@ == self.image(),
    {
        let mut r: Vec<u8> = Vec::new();
        append(&mut r, u32_to_le(self.size).as_slice());
        append(&mut r, u32_to_le(self.num_entries).as_slice());
        assert(r@ =~= self.image());
        r
    }
}

} // verus!
