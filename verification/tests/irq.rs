use nova_core::error::Error;
use nova_core::gsp::rm_control::{RmControlParams, RmControlResponse};
use nova_core::gsp::{GspInfo, GspMemHandles, GspMemObjects};
use nova_core::irq::{dump_table, IrqTable, IrqTableEntry, IrqTableParams, SubtreeMap};

fn table(len: u32) -> IrqTableParams {
    let mut params = IrqTableParams::empty();
    params.table_len = len;
    for i in 0..128u32 {
        params.table[i as usize] = IrqTableEntry {
            engine_idx: (i * 500) as u16,
            pmc_intr_mask: 0x0101_0000 + i,
            vector_stall: 0x0202_0000 + i,
            vector_nonstall: 0x0303_0000 + i,
        };
    }
    for i in 0..7u8 {
        params.subtree_map[i as usize] =
            SubtreeMap { subtree_start: 2 * i, subtree_end: 2 * i + 1 };
    }
    params
}

#[test]
fn params_layout() {
    let bytes = table(3).to_bytes();
    assert_eq!(bytes.len(), 2068);
    assert_eq!(bytes[..4], [3, 0, 0, 0]);
    assert_eq!(
        bytes[4 + 16..4 + 32],
        [0xf4, 1, 0, 0, 1, 0, 1, 1, 1, 0, 2, 2, 1, 0, 3, 3]
    );
    assert_eq!(bytes[2052..2066], [0, 1, 2, 3, 4, 5, 6, 7, 8, 9, 10, 11, 12, 13]);
    assert_eq!(bytes[2066..], [0, 0]);
}

#[test]
fn params_round_trip() {
    let params = table(200);
    let back = IrqTableParams::from_bytes(&params.to_bytes()).unwrap();
    assert_eq!(back.table_len, 200);
    assert_eq!(back.table, params.table);
    assert_eq!(back.subtree_map, params.subtree_map);
}

#[test]
fn table_round_trip() {
    for len in [0, 1, 127, 128] {
        let params = table(len);
        let parsed = IrqTable::from_bytes(&params.to_bytes()).unwrap();
        assert_eq!(parsed.table_len, len);
        assert_eq!(parsed.entries, params.table[..len as usize]);
    }
}

#[test]
fn table_that_is_too_long_is_invalid() {
    assert!(matches!(IrqTable::from_bytes(&table(129).to_bytes()), Err(Error::EINVAL)));
    assert!(matches!(IrqTable::from_bytes(&table(u32::MAX).to_bytes()), Err(Error::EINVAL)));
}

#[test]
fn short_data_is_invalid() {
    let bytes = table(1).to_bytes();
    assert!(matches!(IrqTable::from_bytes(&bytes[..2067]), Err(Error::EINVAL)));
    assert!(matches!(IrqTable::from_bytes(&[]), Err(Error::EINVAL)));
    let mut longer = bytes.clone();
    longer.push(1);
    assert_eq!(IrqTable::from_bytes(&longer).unwrap().entries.len(), 1);
}

#[test]
fn table_is_asked_for() {
    let handles =
        GspMemHandles { libos: 0, loginit: 0, logintr: 0, logrm: 0, cmdq: 0, rmargs: 0 };
    let mut objects = GspMemObjects::new(&handles).unwrap();
    let info = GspInfo { h_internal_client: 9, h_internal_subdevice: 8 };
    assert_eq!(dump_table(&mut objects, &info), Ok(0));
    let data = &objects.cmdq.gsp_mem.mem.cpuq.msgq.data;
    assert_eq!(data[60..64], [76, 0, 0, 0]);
    assert_eq!(data[56..60], (32u32 + 24 + 2068).to_le_bytes());
    assert_eq!(data[80..92], [9, 0, 0, 0, 8, 0, 0, 0, 0x5c, 0x0a, 0x80, 0x20]);
    assert_eq!(data[96..100], 2068u32.to_le_bytes());
    assert!(data[100..].iter().all(|b| *b == 0));
    objects.cmdq.gsp_mem.mem.cpuq.tx.header.write_ptr = 62;
    assert_eq!(dump_table(&mut objects, &info), Err(Error::EAGAIN));
}
