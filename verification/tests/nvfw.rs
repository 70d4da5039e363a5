use nova_core::dma::CoherentAllocation;
use nova_core::fb::FbLayout;
use nova_core::firmware::{GspFirmware, RiscvFirmware};
use nova_core::gpu::Chipset;
use nova_core::gsp::cmdq::GspCmdq;
use nova_core::nvfw::{
    id8, GspArgumentsCached, GspFwHeapParams, GspFwWprMeta, GspMsgElement, GspRpcHeader,
    LibosMemoryRegionInitArgument, LibosParams, MsgqRxHeader, MsgqTxHeader,
};

const MB: u64 = 1 << 20;
const GB: u64 = 1 << 30;

fn chipset() -> Chipset {
    Chipset { id: 0x172 }
}

#[test]
fn heap_parts() {
    assert_eq!(GspFwHeapParams::base_rm_size(chipset()), 8 * MB);
    assert_eq!(GspFwHeapParams::client_alloc_size(), 96 * MB);
    assert_eq!(GspFwHeapParams::management_overhead(0), 0);
    assert_eq!(GspFwHeapParams::management_overhead(1), MB);
    assert_eq!(GspFwHeapParams::management_overhead(10 * GB), MB);
    assert_eq!(GspFwHeapParams::management_overhead(10 * GB + 1), 2 * MB);
    assert_eq!(GspFwHeapParams::management_overhead(24 * GB), 3 * MB);
}

#[test]
fn heap_size_is_the_sum_of_its_parts() {
    assert_eq!(LibosParams::libos2().wpr_heap_size(chipset(), 24 * GB), 107 * MB);
    assert_eq!(LibosParams::libos3().wpr_heap_size(chipset(), 24 * GB), 129 * MB);
}

#[test]
fn heap_size_is_clamped() {
    let small = LibosParams { carveout_size: 0, allowed_heap_size: 200 * MB..300 * MB };
    assert_eq!(small.wpr_heap_size(chipset(), GB), 200 * MB);
    let large = LibosParams { carveout_size: 0, allowed_heap_size: 10 * MB..20 * MB };
    assert_eq!(large.wpr_heap_size(chipset(), GB), 20 * MB - 1);
    let huge = LibosParams { carveout_size: u64::MAX, allowed_heap_size: 10 * MB..20 * MB };
    assert_eq!(huge.wpr_heap_size(chipset(), GB), 20 * MB - 1);
}

#[test]
fn libos_versions() {
    let v2 = LibosParams::libos2();
    assert_eq!((v2.carveout_size, v2.allowed_heap_size), (0, 64 * MB..256 * MB));
    let v3 = LibosParams::libos3();
    assert_eq!((v3.carveout_size, v3.allowed_heap_size), (22 * MB, 88 * MB..280 * MB));
}

#[test]
fn identifiers_are_reversed_names() {
    assert_eq!(id8("LOGINIT"), 0x004c_4f47_494e_4954);
    assert_eq!(id8(""), 0);
    assert_eq!(id8("A"), 0x41);
    assert_eq!(id8("xxABCDEFGH"), 0x4142_4344_4546_4748);
    assert!(id8("LOGINIT") != id8("LOGINTR"));
}

#[test]
fn region_describes_memory() {
    let obj = CoherentAllocation::<u8>::new(0xdead_0000, 0x1_0000);
    let arg = LibosMemoryRegionInitArgument::new("LOGRM", &obj);
    assert_eq!(
        arg,
        LibosMemoryRegionInitArgument {
            id8: 0x4c_4f47_524d,
            pa: 0xdead_0000,
            size: 0x1_0000,
            kind: 1,
            loc: 1,
        }
    );
    let wide = CoherentAllocation::<LibosMemoryRegionInitArgument>::new(0, 128);
    assert_eq!(wide.size(), 4096);
    assert_eq!(LibosMemoryRegionInitArgument::new("X", &wide).size, 4096);
}

#[test]
fn wpr_meta_describes_firmware_and_framebuffer() {
    let firmware = GspFirmware {
        radix3_dma_handle: 0x1000,
        size: 0x2000,
        signatures: CoherentAllocation::<u8>::new(0x3000, 0x40),
        bootloader: RiscvFirmware {
            ucode: CoherentAllocation::<u8>::new(0x5000, 0x60),
            code_offset: 7,
            data_offset: 8,
            manifest_offset: 9,
        },
    };
    let layout = FbLayout {
        fb: 0..0x10_0000_0000,
        vga_workspace: 0xf_fff5_0000..0x10_0000_0000,
        frts: 100..150,
        boot: 200..201,
        elf: 300..301,
        wpr2_heap: 400..470,
        wpr2: 500..501,
        heap: 600..690,
        vf_partition_count: 3,
    };
    let meta = GspFwWprMeta::new(&firmware, &layout);
    assert_eq!(
        meta,
        GspFwWprMeta {
            magic: 0xdc3a_ae21_371a_60b3,
            revision: 1,
            sysmem_addr_of_radix3_elf: 0x1000,
            size_of_radix3_elf: 0x2000,
            sysmem_addr_of_bootloader: 0x5000,
            size_of_bootloader: 0x60,
            bootloader_code_offset: 7,
            bootloader_data_offset: 8,
            bootloader_manifest_offset: 9,
            sysmem_addr_of_signature: 0x3000,
            size_of_signature: 0x40,
            gsp_fw_rsvd_start: 600,
            non_wpr_heap_offset: 600,
            non_wpr_heap_size: 90,
            gsp_fw_wpr_start: 500,
            gsp_fw_heap_offset: 400,
            gsp_fw_heap_size: 70,
            gsp_fw_offset: 300,
            boot_bin_offset: 200,
            frts_offset: 100,
            frts_size: 50,
            gsp_fw_wpr_end: 0xf_fff4_0000,
            gsp_fw_heap_vf_partition_count: 3,
            fb_size: 0x10_0000_0000,
            vga_workspace_offset: 0xf_fff5_0000,
            vga_workspace_size: 0xb_0000,
        }
    );
}

#[test]
fn arguments_describe_the_queues() {
    let cmdq = GspCmdq::new(0x7000_0000);
    assert_eq!(
        GspArgumentsCached::new(&cmdq),
        GspArgumentsCached {
            shared_mem_phys_addr: 0x7000_0000,
            page_table_entry_count: 129,
            cmd_queue_offset: 0x1000,
            stat_queue_offset: 0x4_1000,
            sr_old_level: 0,
            sr_flags: 0,
            sr_in_pm_transition: 0,
            dmem_stack: 1,
        }
    );
}

#[test]
fn queue_headers() {
    let mut tx = MsgqTxHeader::new(1, 2, 3);
    assert_eq!(
        tx,
        MsgqTxHeader {
            version: 0,
            size: 1,
            msg_size: 4096,
            msg_count: 2,
            write_ptr: 0,
            flags: 1,
            rx_hdr_off: 3,
            entry_off: 4096,
        }
    );
    tx.set_write_ptr(5);
    assert_eq!(tx.write_ptr(), 5);
    let mut rx = MsgqRxHeader::new();
    assert_eq!(rx.read_ptr(), 0);
    rx.set_read_ptr(6);
    assert_eq!(rx.read_ptr(), 6);
}

#[test]
fn rpc_header_counts_itself() {
    let mut rpc = GspRpcHeader::new(100, 76);
    assert_eq!(rpc.length(), 132);
    assert_eq!(rpc.function(), 76);
    assert_eq!(rpc.sequence(), 0);
    assert_eq!(rpc.header_version, 0x0300_0000);
    assert_eq!(rpc.signature, 0x4350_5256);
    assert_eq!((rpc.rpc_result, rpc.rpc_result_private), (0xffff_ffff, 0xffff_ffff));
    rpc.set_function(73);
    assert_eq!(rpc.function(), 73);
}

#[test]
fn element_counts_pages() {
    assert_eq!(GspMsgElement::new(0, 0, 0).elem_count(), 1);
    assert_eq!(GspMsgElement::new(0, 4096 - 80, 0).elem_count(), 1);
    assert_eq!(GspMsgElement::new(0, 4096 - 79, 0).elem_count(), 2);
    let element = GspMsgElement::new(9, 100, 76);
    assert_eq!(element.seq_num, 9);
    assert_eq!(element.rpc_header().length(), 132);
    // The header of the call counts once.
    assert_eq!(element.length(), 180);
}

#[test]
fn element_round_trip() {
    let mut element = GspMsgElement::new(0x0102_0304, 100, 76);
    element.set_checksum(0xa0b0_c0d0);
    let bytes = element.to_bytes();
    assert_eq!(bytes.len(), 80);
    assert_eq!(bytes[..32], [0u8; 32]);
    assert_eq!(bytes[32..36], [0xd0, 0xc0, 0xb0, 0xa0]);
    assert_eq!(bytes[36..40], [4, 3, 2, 1]);
    assert_eq!(bytes[40..44], [1, 0, 0, 0]);
    assert_eq!(bytes[44..52], [0, 0, 0, 0, 0, 0, 0, 3]);
    assert_eq!(&bytes[52..56], b"VRPC");
    assert_eq!(bytes[56..60], [132, 0, 0, 0]);
    assert_eq!(bytes[60..64], [76, 0, 0, 0]);
    assert_eq!(bytes[64..72], [0xff; 8]);
    assert_eq!(bytes[72..80], [0; 8]);
    let back = GspMsgElement::from_bytes(&bytes).unwrap();
    assert_eq!(back.to_bytes(), bytes);
    assert_eq!(back.rpc, element.rpc);
    let raw: Vec<u8> = (0..80).collect();
    assert_eq!(GspMsgElement::from_bytes(&raw).unwrap().to_bytes(), raw);
}

#[test]
fn element_needs_its_size() {
    assert!(GspMsgElement::from_bytes(&[0; 79]).is_none());
    assert!(GspMsgElement::from_bytes(&[0; 81]).is_none());
}
