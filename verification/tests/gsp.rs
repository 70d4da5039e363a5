use nova_core::dma::CoherentAllocation;
use nova_core::error::Error;
use nova_core::gsp::{
    create_coherent_dma_object, create_pte_array, gsp_heap_alignment, GspMemHandles,
    GspMemObjects,
};
use nova_core::nvfw::{GspArgumentsCached, LibosMemoryRegionInitArgument};

fn pte(mem: &[u8], i: usize) -> u64 {
    let mut bytes = [0u8; 8];
    bytes.copy_from_slice(&mem[8 * i..8 * i + 8]);
    u64::from_le_bytes(bytes)
}

#[test]
fn page_table_maps_its_object() {
    let mut mem = vec![0xffu8; 100];
    create_pte_array(&mut mem, 3 * 4096 + 1, 0x1234_5000, 2);
    assert_eq!(mem[..16], [0xff; 16]);
    assert_eq!(pte(&mem, 2), 0x1234_5000);
    assert_eq!(pte(&mem, 3), 0x1234_6000);
    assert_eq!(pte(&mem, 4), 0x1234_7000);
    assert_eq!(pte(&mem, 5), 0x1234_8000);
    assert_eq!(mem[48..], [0xff; 52]);
}

#[test]
fn page_table_of_nothing_is_empty() {
    let mut mem = vec![7u8; 8];
    create_pte_array(&mut mem, 0, u64::MAX, 0);
    assert_eq!(mem, vec![7u8; 8]);
}

#[test]
fn heap_alignment_is_a_megabyte() {
    assert_eq!(gsp_heap_alignment().bytes, 1 << 20);
}

#[test]
fn object_is_registered() {
    let mut libos = CoherentAllocation::<LibosMemoryRegionInitArgument>::new(1, 2);
    let obj = create_coherent_dma_object::<GspArgumentsCached>(0x9000, "AB", 3, &mut libos, 1);
    let obj = obj.unwrap();
    assert_eq!(obj.data.len(), 3);
    assert_eq!(obj.dma_handle(), 0x9000);
    assert_eq!(
        libos.data[1],
        LibosMemoryRegionInitArgument { id8: 0x4142, pa: 0x9000, size: 216, kind: 1, loc: 1 }
    );
    assert_eq!(libos.data[0].id8, 0);
}

#[test]
fn object_needs_a_free_position() {
    let mut libos = CoherentAllocation::<LibosMemoryRegionInitArgument>::new(1, 2);
    let obj = create_coherent_dma_object::<u8>(0x9000, "AB", 3, &mut libos, 2);
    assert!(matches!(obj, Err(Error::EINVAL)));
    assert_eq!(libos.data[1].id8, 0);
}

#[test]
fn memory_objects() {
    let handles = GspMemHandles {
        libos: 0x1000,
        loginit: 0x10_0000,
        logintr: 0x20_0000,
        logrm: 0x30_0000,
        cmdq: 0x40_0000,
        rmargs: 0x50_0000,
    };
    let objects = GspMemObjects::new(&handles).unwrap();
    assert_eq!(objects.libos_dma_handle(), 0x1000);
    assert_eq!(objects.libos.data.len(), 128);
    let arg = |id8: u64, pa: u64, size: u64| LibosMemoryRegionInitArgument {
        id8,
        pa,
        size,
        kind: 1,
        loc: 1,
    };
    assert_eq!(objects.libos.data[0], arg(0x4c_4f47_494e_4954, 0x10_0000, 0x1_0000));
    assert_eq!(objects.libos.data[1], arg(0x4c_4f47_494e_5452, 0x20_0000, 0x1_0000));
    assert_eq!(objects.libos.data[2], arg(0x4c_4f47_524d, 0x30_0000, 0x1_0000));
    assert_eq!(objects.libos.data[3], arg(0x524d_4152_4753, 0x50_0000, 72));
    let zero = LibosMemoryRegionInitArgument { id8: 0, pa: 0, size: 0, kind: 0, loc: 0 };
    assert!(objects.libos.data[4..].iter().all(|a| *a == zero));

    assert_eq!(objects.loginit.data.len(), 0x1_0000);
    assert_eq!(pte(&objects.loginit.data, 0), 0);
    for i in 0..16 {
        assert_eq!(pte(&objects.loginit.data, 1 + i), 0x10_0000 + 4096 * i as u64);
        assert_eq!(pte(&objects.logintr.data, 1 + i), 0x20_0000 + 4096 * i as u64);
        assert_eq!(pte(&objects.logrm.data, 1 + i), 0x30_0000 + 4096 * i as u64);
    }
    assert!(objects.logrm.data[136..].iter().all(|b| *b == 0));

    let ptes = &objects.cmdq.gsp_mem.mem.ptes;
    assert_eq!(pte(ptes, 0), 0x40_0000);
    assert_eq!(pte(ptes, 128), 0x40_0000 + 128 * 4096);
    assert_eq!(pte(ptes, 129), 0);
    assert_eq!(objects.cmdq.get_cmdq_offsets(), (0x40_0000, 0x1000, 0x4_1000));
    assert_eq!(objects.rmargs.data[0].shared_mem_phys_addr, 0x40_0000);
    assert_eq!(objects.rmargs.data[0].dmem_stack, 1);
}
