use nova_core::error::Error;
use nova_core::gsp::cmdq::GspCmdq;
use nova_core::gsp::commands::{build_registry, set_system_info, RegistryEntry, RegistryTable};
use nova_core::gsp::fw::commands::{
    GspSystemInfo, PackedRegistryEntry, PackedRegistryTable, PciDevice,
};
use nova_core::sbuffer::SBuffer;

fn word(bytes: &[u8], at: usize) -> u32 {
    let mut w = [0u8; 4];
    w.copy_from_slice(&bytes[at..at + 4]);
    u32::from_le_bytes(w)
}

fn long(bytes: &[u8], at: usize) -> u64 {
    word(bytes, at) as u64 | (word(bytes, at + 4) as u64) << 32
}

fn device() -> PciDevice {
    PciDevice {
        resource_0: Ok(0x1111_2222_3333_4444),
        resource_1: Ok(0x5555_6666_7777_8888),
        resource_3: Ok(0x9999_aaaa_bbbb_cccc),
        dev_id: 0x0108,
        device_id: 0x2684,
        vendor_id: 0x10de,
        subsystem_device_id: 0x167c,
        subsystem_vendor_id: 0x1043,
        revision_id: 0xa1,
    }
}

#[test]
fn packed_structures() {
    assert_eq!(
        PackedRegistryEntry::new(0x0102_0304, 0x0506_0708).to_bytes(),
        vec![4, 3, 2, 1, 1, 0, 0, 0, 8, 7, 6, 5, 0, 0, 0, 0]
    );
    assert_eq!(
        PackedRegistryTable::new(2, 0x0102_0304).to_bytes(),
        vec![4, 3, 2, 1, 2, 0, 0, 0]
    );
}

fn registry(a: &'static str, b: &'static str) -> RegistryTable {
    RegistryTable {
        entries: [RegistryEntry { key: a, value: 5 }, RegistryEntry { key: b, value: 6 }],
    }
}

#[test]
fn registry_payload() {
    let table = registry("ab", "xyz");
    assert_eq!(table.size(), 39);
    let mut buf1 = [0u8; 20];
    let mut buf2 = [0xffu8; 20];
    let mut sbuffer = SBuffer::new(vec![&mut buf1[..], &mut buf2[..]]);
    assert_eq!(table.write_payload(&mut sbuffer), Ok(()));
    assert_eq!(sbuffer.total_remaining(), 1);
    let mut all = buf1.to_vec();
    all.extend_from_slice(&buf2);
    assert_eq!(all[..16], PackedRegistryEntry::new(40, 5).to_bytes());
    assert_eq!(all[16..32], PackedRegistryEntry::new(43, 6).to_bytes());
    assert_eq!(&all[32..], b"ab\0xyz\0\xff");
    // The offsets count from the table, which starts eight bytes before.
    assert_eq!(&all[40 - 8..43 - 8], b"ab\0");
    assert_eq!(&all[43 - 8..47 - 8], b"xyz\0");
}

#[test]
fn registry_payload_stops_where_it_does_not_fit() {
    let table = registry("ab", "xyz");
    let mut buf1 = [0u8; 38];
    let mut sbuffer = SBuffer::new(vec![&mut buf1[..]]);
    assert_eq!(table.write_payload(&mut sbuffer), Err(Error::ENOSPC));
    assert_eq!(sbuffer.current_pos(), (0, 32));
    assert_eq!(buf1[..16], PackedRegistryEntry::new(40, 5).to_bytes());
    assert_eq!(buf1[32..], [0; 6]);
    let mut buf1 = [0u8; 15];
    let mut sbuffer = SBuffer::new(vec![&mut buf1[..]]);
    assert_eq!(table.write_payload(&mut sbuffer), Err(Error::ENOSPC));
    assert_eq!(buf1, [0; 15]);
}

#[test]
fn registry_is_sent() {
    let mut q = GspCmdq::new(0);
    q.seq = 5;
    assert_eq!(build_registry(&mut q), Ok(0));
    assert_eq!(q.seq, 6);
    assert_eq!(q.gsp_mem.mem.cpuq.tx.write_ptr(), 1);
    let data = &q.gsp_mem.mem.cpuq.msgq.data;
    assert_eq!(word(data, 36), 5);
    assert_eq!(word(data, 40), 1);
    assert_eq!(word(data, 56), 32 + 8 + 74);
    assert_eq!(word(data, 60), 73);
    assert_eq!(word(data, 80), 74);
    assert_eq!(word(data, 84), 2);
    assert_eq!(data[88..104], PackedRegistryEntry::new(40, 1).to_bytes());
    assert_eq!(data[104..120], PackedRegistryEntry::new(60, 1).to_bytes());
    assert_eq!(&data[120..162], b"RMSecBusResetEnable\0RMForcePcieConfigSave\0");
    assert!(data[162..].iter().all(|b| *b == 0));
    assert_eq!(GspCmdq::calculate_checksum(&data[..162], &[], &[]), 0);
}

#[test]
fn registry_needs_a_page() {
    let mut q = GspCmdq::new(0);
    q.gsp_mem.mem.cpuq.tx.header.write_ptr = 62;
    assert_eq!(build_registry(&mut q), Err(Error::EAGAIN));
    assert_eq!(q.seq, 0);
}

#[test]
fn system_info_fields() {
    let mut info = vec![0xeeu8; 928];
    assert_eq!(GspSystemInfo::init(&mut info, &device()), Ok(()));
    assert_eq!(long(&info, 0), 0x1111_2222_3333_4444);
    assert_eq!(long(&info, 8), 0x5555_6666_7777_8888);
    assert_eq!(long(&info, 16), 0x9999_aaaa_bbbb_cccc);
    assert_eq!(info[24..32], [0xee; 8]);
    assert_eq!(long(&info, 32), 0x0108);
    assert_eq!(info[40..72], [0xee; 32]);
    assert_eq!(long(&info, 72), (1 << 47) - 4096);
    assert_eq!(word(&info, 80), 0x08_8000);
    assert_eq!(word(&info, 84), 0x1000);
    assert_eq!(word(&info, 88), 0x2684_10de);
    assert_eq!(word(&info, 92), 0x167c_1043);
    assert_eq!(word(&info, 96), 0xa1);
    assert_eq!((info[895], info[896], info[897]), (0xee, 0, 0xee));
    assert_eq!((info[907], info[908], info[909]), (0xee, 0, 0xee));
}

#[test]
fn system_info_stops_at_an_unknown_resource() {
    let mut dev = device();
    dev.resource_3 = Err(Error::EINVAL);
    let mut info = vec![0xeeu8; 928];
    assert_eq!(GspSystemInfo::init(&mut info, &dev), Err(Error::EINVAL));
    assert_eq!(long(&info, 8), 0x5555_6666_7777_8888);
    assert_eq!(info[16..], [0xee; 912]);
    dev.resource_1 = Err(Error::EIO);
    let mut info = vec![0xeeu8; 928];
    assert_eq!(GspSystemInfo::init(&mut info, &dev), Err(Error::EIO));
    assert_eq!(info[8..], [0xee; 920]);
    dev.resource_0 = Err(Error::ENOMEM);
    let mut info = vec![0xeeu8; 928];
    assert_eq!(GspSystemInfo::init(&mut info, &dev), Err(Error::ENOMEM));
    assert_eq!(info, vec![0xee; 928]);
}

#[test]
fn system_info_is_sent() {
    let mut q = GspCmdq::new(0);
    assert_eq!(set_system_info(&mut q, &device()), Ok(0));
    assert_eq!(q.gsp_mem.mem.cpuq.tx.write_ptr(), 1);
    let data = &q.gsp_mem.mem.cpuq.msgq.data;
    assert_eq!(word(data, 56), 32 + 928);
    assert_eq!(word(data, 60), 72);
    let mut info = vec![0u8; 928];
    assert_eq!(GspSystemInfo::init(&mut info, &device()), Ok(()));
    assert_eq!(data[80..80 + 928], info);
    assert_eq!(GspCmdq::calculate_checksum(&data[..80 + 928], &[], &[]), 0);
}

#[test]
fn system_info_is_not_sent_without_resources() {
    let mut q = GspCmdq::new(0);
    let mut dev = device();
    dev.resource_1 = Err(Error::EINVAL);
    assert_eq!(set_system_info(&mut q, &dev), Err(Error::EINVAL));
    assert_eq!(q.seq, 1);
    assert_eq!(q.gsp_mem.mem.cpuq.tx.write_ptr(), 0);
    assert_eq!(word(&q.gsp_mem.mem.cpuq.msgq.data, 60), 72);
    assert_eq!(long(&q.gsp_mem.mem.cpuq.msgq.data, 80), 0x1111_2222_3333_4444);
    q.gsp_mem.mem.cpuq.tx.header.write_ptr = 62;
    assert_eq!(set_system_info(&mut q, &dev), Err(Error::EAGAIN));
    assert_eq!(q.seq, 1);
}
