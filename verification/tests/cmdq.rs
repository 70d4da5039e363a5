use nova_core::error::Error;
use nova_core::gsp::cmdq::{
    decode_gsp_function, DmaGspMem, GspCmdq, GspCommandToGsp, GspMessageFromGsp, MsgqRxHeader,
    MsgqTxHeader,
};
use nova_core::nvfw::GspMsgElement;
use nova_core::util::WaitStep;

const PAGE: usize = 4096;
const RING: usize = 63 * PAGE;

struct Ping;

impl GspCommandToGsp for Ping {
    fn function_code() -> u32 {
        0x55
    }

    fn size_of() -> usize {
        4
    }
}

impl GspMessageFromGsp for Ping {
    fn function_code() -> u32 {
        0x55
    }

    fn size_of() -> usize {
        4
    }
}

struct Pong;

impl GspMessageFromGsp for Pong {
    fn function_code() -> u32 {
        0x56
    }

    fn size_of() -> usize {
        4
    }
}

fn check(bytes: &[u8]) -> u32 {
    let mut sum = [0u8; 4];
    for (i, b) in bytes.iter().enumerate() {
        sum[i % 4] ^= *b;
    }
    u32::from_le_bytes(sum)
}

/// Queues whose driver and GSP have both come to page `page`.
fn queues_at(page: u32) -> GspCmdq {
    let mut q = GspCmdq::new(0);
    q.gsp_mem.mem.cpuq.tx.header.write_ptr = page;
    q.gsp_mem.mem.cpuq.rx.header.read_ptr = page;
    q.gsp_mem.mem.gspq.tx.header.write_ptr = page;
    q.gsp_mem.mem.gspq.rx.header.read_ptr = page;
    q
}

/// What the GSP writes for a call of `function` with the arguments `args`.
fn message(function: u32, args: &[u8]) -> Vec<u8> {
    let mut element = GspMsgElement::new(3, args.len(), function);
    let mut bytes = element.to_bytes();
    bytes.extend_from_slice(args);
    element.set_checksum(check(&bytes));
    let mut bytes = element.to_bytes();
    bytes.extend_from_slice(args);
    bytes
}

/// Lets the GSP write `bytes` into its queue.
fn deliver(q: &mut GspCmdq, bytes: &[u8]) {
    let wptr = q.gsp_mem.mem.gspq.tx.header.write_ptr as usize;
    for (i, b) in bytes.iter().enumerate() {
        q.gsp_mem.mem.gspq.msgq.data[(wptr * PAGE + i) % RING] = *b;
    }
    q.gsp_mem.mem.gspq.tx.header.write_ptr = ((wptr + bytes.len().div_ceil(PAGE)) % 63) as u32;
}

#[test]
fn pointers_wrap() {
    let mut tx = MsgqTxHeader::new(1, 2);
    tx.advance_write_ptr(62);
    assert_eq!(tx.write_ptr(), 62);
    tx.advance_write_ptr(3);
    assert_eq!(tx.write_ptr(), 2);
    let mut rx = MsgqRxHeader::new();
    rx.advance_read_ptr(64);
    assert_eq!(rx.read_ptr(), 1);
    // The sum wraps around before the pointer does.
    rx.advance_read_ptr(u32::MAX);
    assert_eq!(rx.read_ptr(), 0);
}

#[test]
fn new_queues_are_empty() {
    let q = GspCmdq::new(0x1_0000);
    assert_eq!((q.msg_count, q.seq, q.nr_ptes), (63, 0, 129));
    assert_eq!(q.gsp_mem.dma_handle(), 0x1_0000);
    let tx = q.gsp_mem.mem.cpuq.tx.header;
    assert_eq!((tx.version, tx.size, tx.msg_size, tx.msg_count), (0, 0x4_0000, 4096, 63));
    assert_eq!((tx.write_ptr, tx.flags, tx.rx_hdr_off, tx.entry_off), (0, 1, 32, 4096));
    assert_eq!(q.gsp_mem.mem.gspq.tx.header.msg_count, 0);
    assert_eq!(q.used_rx_pages(), 0);
    assert_eq!((q.cpu_rptr(), q.gsp_wptr()), (0, 0));
    assert!(!q.msg_from_gsp_available());
    assert_eq!(q.pending_rpc_length(), None);
    assert_eq!(q.get_cmdq_offsets(), (0x1_0000, 0x1000, 0x4_1000));
}

fn area(tx: u32, rx: u32) -> (usize, usize) {
    let mut mem = DmaGspMem::new(0);
    mem.mem.cpuq.tx.header.write_ptr = tx;
    mem.mem.gspq.rx.header.read_ptr = rx;
    let (a, b) = mem.driver_write_area();
    (a.len(), b.len())
}

#[test]
fn driver_area_leaves_one_page() {
    assert_eq!(area(0, 0), (62 * PAGE, 0));
    assert_eq!(area(5, 0), (57 * PAGE, 0));
    assert_eq!(area(62, 0), (0, 0));
    assert_eq!(area(5, 5), (58 * PAGE, 4 * PAGE));
    assert_eq!(area(5, 1), (58 * PAGE, 0));
    assert_eq!(area(5, 6), (0, 0));
    assert_eq!(area(5, 10), (4 * PAGE, 0));
    assert_eq!(area(0, 62), (61 * PAGE, 0));
}

#[test]
fn driver_area_is_not_waiting_to_be_read() {
    // Pages 3 and 4 wait to be read, so the driver gets what is behind them and, up to the
    // page in front of them, what is before.
    assert_eq!(area(5, 3), (58 * PAGE, 2 * PAGE));
}

#[test]
fn driver_area_is_where_it_says() {
    let mut mem = DmaGspMem::new(0);
    mem.mem.cpuq.tx.header.write_ptr = 60;
    mem.mem.gspq.rx.header.read_ptr = 3;
    {
        let (a, b) = mem.driver_write_area();
        a.fill(1);
        b.fill(2);
    }
    let data = &mem.mem.cpuq.msgq.data;
    assert!(data[..2 * PAGE].iter().all(|x| *x == 2));
    assert!(data[2 * PAGE..60 * PAGE].iter().all(|x| *x == 0));
    assert!(data[60 * PAGE..].iter().all(|x| *x == 1));
}

#[test]
fn checksum_is_an_exclusive_or_of_words() {
    assert_eq!(GspCmdq::calculate_checksum(&[], &[], &[]), 0);
    assert_eq!(GspCmdq::calculate_checksum(&[1, 2, 3, 4], &[], &[]), 0x0403_0201);
    assert_eq!(GspCmdq::calculate_checksum(&[1], &[2, 3], &[4, 0x10]), 0x0403_0211);
    let bytes: Vec<u8> = (0..251u32).map(|i| (i * 7 + 3) as u8).collect();
    assert_eq!(GspCmdq::calculate_checksum(&bytes, &[], &[]), check(&bytes));
    assert_eq!(
        GspCmdq::calculate_checksum(&bytes[..13], &bytes[13..100], &bytes[100..]),
        check(&bytes)
    );
}

#[test]
fn checksum_detects_a_changed_byte() {
    let mut bytes: Vec<u8> = (0..100).collect();
    let before = GspCmdq::calculate_checksum(&bytes, &[], &[]);
    for i in 0..100 {
        bytes[i] ^= 0x80;
        assert_ne!(GspCmdq::calculate_checksum(&bytes, &[], &[]), before);
        bytes[i] ^= 0x80;
    }
}

#[test]
fn zeros_add_nothing_to_the_checksum() {
    assert_eq!(
        GspCmdq::calculate_checksum(&[9, 8, 7], &[0; 5], &[0; 100]),
        GspCmdq::calculate_checksum(&[9, 8, 7], &[], &[])
    );
}

#[test]
fn command_gets_a_header() {
    let mut q = GspCmdq::new(0);
    q.seq = 41;
    {
        let mut cmd = q.alloc_gsp_queue_command(4 + 6).unwrap();
        assert_eq!((cmd.len_1, cmd.len_2), (62 * PAGE, 0));
        let (ping, sbuf) = cmd.try_as::<Ping>();
        ping.copy_from_slice(b"ping");
        let mut sbuf = sbuf.unwrap();
        assert_eq!(sbuf.total_capacity(), 62 * PAGE - 84);
        assert_eq!(sbuf.write(b"abcdef"), Ok(()));
        assert_eq!(cmd.send_to_gsp(), Ok(0));
    }
    assert_eq!(q.seq, 42);
    assert_eq!(q.gsp_mem.mem.cpuq.tx.write_ptr(), 1);
    let mut element = GspMsgElement::new(41, 10, 0x55);
    let mut bytes = element.to_bytes();
    bytes.extend_from_slice(b"pingabcdef");
    element.set_checksum(check(&bytes));
    let mut bytes = element.to_bytes();
    bytes.extend_from_slice(b"pingabcdef");
    assert_eq!(q.gsp_mem.mem.cpuq.msgq.data[..90], bytes);
    assert!(q.gsp_mem.mem.cpuq.msgq.data[90..].iter().all(|x| *x == 0));
}

#[test]
fn command_without_more_arguments_has_no_buffer() {
    let mut q = GspCmdq::new(0);
    let mut cmd = q.alloc_gsp_queue_command(4).unwrap();
    let (ping, sbuf) = cmd.try_as::<Ping>();
    assert_eq!(ping.len(), 4);
    assert!(sbuf.is_none());
}

#[test]
fn command_that_is_not_sent_keeps_the_pointer() {
    let mut q = GspCmdq::new(0);
    assert!(q.alloc_gsp_queue_command(4).is_ok());
    assert_eq!(q.seq, 1);
    assert_eq!(q.gsp_mem.mem.cpuq.tx.write_ptr(), 0);
    assert_eq!(q.gsp_mem.mem.cpuq.msgq.data[60..64], [0; 4]);
}

#[test]
fn command_needs_free_pages() {
    let mut q = GspCmdq::new(0);
    q.gsp_mem.mem.cpuq.tx.header.write_ptr = 60;
    // Two pages are free.
    assert!(q.alloc_gsp_queue_command(2 * PAGE - 80).is_ok());
    assert!(matches!(q.alloc_gsp_queue_command(2 * PAGE - 79), Err(Error::EAGAIN)));
    assert_eq!(q.seq, 1);
    q.gsp_mem.mem.cpuq.tx.header.write_ptr = 62;
    assert!(matches!(q.alloc_gsp_queue_command(0), Err(Error::EAGAIN)));
}

#[test]
fn large_command_takes_its_pages() {
    let mut q = queues_at(61);
    let cmd = q.alloc_gsp_queue_command(3 * PAGE).unwrap();
    assert_eq!((cmd.len_1, cmd.len_2), (2 * PAGE, 60 * PAGE));
    assert_eq!(cmd.msg_element.elem_count(), 4);
    assert_eq!(cmd.send_to_gsp(), Ok(0));
    assert_eq!(q.gsp_mem.mem.cpuq.tx.write_ptr(), 2);
}

/// A reader of the CPU queue of `q`, from page `page` on.
fn reader_of(q: &GspCmdq, page: u32) -> GspCmdq {
    let mut reader = queues_at(page);
    reader.gsp_mem.mem.gspq.msgq.data = q.gsp_mem.mem.cpuq.msgq.data.clone();
    reader.gsp_mem.mem.gspq.tx.header.write_ptr = q.gsp_mem.mem.cpuq.tx.write_ptr();
    reader
}

fn send_ping(q: &mut GspCmdq, rest: &[u8]) {
    let mut cmd = q.alloc_gsp_queue_command(4 + rest.len()).unwrap();
    {
        let (ping, sbuf) = cmd.try_as::<Ping>();
        ping.copy_from_slice(b"ping");
        if let Some(mut sbuf) = sbuf {
            assert_eq!(sbuf.write(rest), Ok(()));
        }
    }
    assert_eq!(cmd.send_to_gsp(), Ok(0));
}

#[test]
fn what_is_sent_is_received() {
    for page in [0, 30, 61, 62] {
        let mut q = queues_at(page);
        let rest: Vec<u8> = (0..9000u32).map(|i| (i * i + 1) as u8).collect();
        send_ping(&mut q, &rest);
        let mut reader = reader_of(&q, page);
        assert!(reader.msg_from_gsp_available());
        assert_eq!(reader.used_rx_pages(), 3);
        assert_eq!(reader.pending_rpc_length(), Some(32 + 9004));
        let msg = reader.receive_msg_from_gsp().unwrap();
        assert_eq!(msg.rpc_header.function(), 0x55);
        let (ping, parts) = msg.try_as::<Ping>().unwrap();
        assert_eq!(ping, b"ping");
        let (first, second) = parts.unwrap();
        let mut got = first.to_vec();
        got.extend_from_slice(second);
        assert_eq!(got, rest);
        assert_eq!(msg.ack(), Ok(()));
        assert_eq!(reader.used_rx_pages(), 0);
    }
}

#[test]
fn bytes_behind_a_message_spoil_its_checksum() {
    let mut q = GspCmdq::new(0);
    q.gsp_mem.mem.cpuq.msgq.data[2000] = 1;
    send_ping(&mut q, b"");
    // The checksum covers the whole area of the driver.
    assert_eq!(check(&q.gsp_mem.mem.cpuq.msgq.data[..62 * PAGE]), 0);
    let mut reader = reader_of(&q, 0);
    assert!(matches!(reader.receive_msg_from_gsp(), Err(Error::EIO)));
    // Two bytes that cancel out do not.
    let mut q = GspCmdq::new(0);
    q.gsp_mem.mem.cpuq.msgq.data[2000] = 1;
    q.gsp_mem.mem.cpuq.msgq.data[2004] = 1;
    send_ping(&mut q, b"");
    assert!(reader_of(&q, 0).receive_msg_from_gsp().is_ok());
}

#[test]
fn sending_leaves_unread_pages() {
    let mut q = GspCmdq::new(0);
    q.gsp_mem.mem.cpuq.msgq.data.fill(0xee);
    q.gsp_mem.mem.cpuq.tx.header.write_ptr = 62;
    q.gsp_mem.mem.gspq.rx.header.read_ptr = 10;
    let rest = vec![1u8; 5 * PAGE];
    send_ping(&mut q, &rest);
    assert_eq!(q.gsp_mem.mem.cpuq.tx.write_ptr(), 5);
    assert!(q.gsp_mem.mem.cpuq.msgq.data[9 * PAGE..62 * PAGE].iter().all(|x| *x == 0xee));
}

#[test]
fn nothing_to_receive() {
    let mut q = GspCmdq::new(0);
    assert!(matches!(q.receive_msg_from_gsp(), Err(Error::EAGAIN)));
}

#[test]
fn message_in_one_piece() {
    let mut q = queues_at(7);
    deliver(&mut q, &message(0x56, b"pong!"));
    let msg = q.receive_msg_from_gsp().unwrap();
    assert_eq!(msg.slice_1(), b"pong!");
    assert_eq!(msg.slice_2(), None);
    assert_eq!(msg.rpc_header.length(), 37);
    assert!(matches!(msg.try_as::<Ping>(), Err(Error::ERANGE)));
    let (pong, parts) = msg.try_as::<Pong>().unwrap();
    assert_eq!(pong, b"pong");
    assert_eq!(parts, Some((&b"!"[..], &b""[..])));
}

#[test]
fn message_without_more_data() {
    let mut q = GspCmdq::new(0);
    deliver(&mut q, &message(0x56, b"pong"));
    let msg = q.receive_msg_from_gsp().unwrap();
    let (pong, parts) = msg.try_as::<Pong>().unwrap();
    assert_eq!(pong, b"pong");
    assert_eq!(parts, None);
}

#[test]
fn message_that_fills_its_pages_has_an_empty_second_slice() {
    let mut q = GspCmdq::new(0);
    let args = vec![5u8; PAGE - 80];
    deliver(&mut q, &message(0x56, &args));
    let msg = q.receive_msg_from_gsp().unwrap();
    assert_eq!(msg.slice_1(), args);
    assert_eq!(msg.slice_2(), Some(&[][..]));
}

#[test]
fn message_that_wraps_has_two_slices() {
    let mut q = queues_at(62);
    let args: Vec<u8> = (0..6000u32).map(|i| i as u8).collect();
    deliver(&mut q, &message(0x56, &args));
    assert_eq!(q.gsp_wptr(), 1);
    let msg = q.receive_msg_from_gsp().unwrap();
    assert_eq!(msg.slice_1(), &args[..PAGE - 80]);
    assert_eq!(msg.slice_2(), Some(&args[PAGE - 80..]));
    let (pong, parts) = msg.try_as::<Pong>().unwrap();
    assert_eq!(pong, &args[..4]);
    assert_eq!(parts, Some((&args[4..PAGE - 80], &args[PAGE - 80..])));
}

#[test]
fn half_written_message_is_not_there_yet() {
    let mut q = GspCmdq::new(0);
    deliver(&mut q, &message(0x56, &vec![5u8; 2 * PAGE]));
    assert!(q.msg_from_gsp_available());
    q.gsp_mem.mem.gspq.tx.header.write_ptr = 2;
    assert!(!q.msg_from_gsp_available());
    assert!(matches!(q.receive_msg_from_gsp(), Err(Error::EAGAIN)));
}

#[test]
fn message_that_just_fits_is_available() {
    let mut q = GspCmdq::new(0);
    // The message takes one page, though its length and the size of both headers together
    // would take more.
    deliver(&mut q, &message(0x56, &vec![5u8; PAGE - 80]));
    assert_eq!(q.used_rx_pages(), 1);
    assert!(q.msg_from_gsp_available());
    assert!(q.receive_msg_from_gsp().is_ok());
}

#[test]
fn message_larger_than_the_queue() {
    let mut q = GspCmdq::new(0);
    let mut bytes = message(0x56, b"pong");
    bytes[56..60].copy_from_slice(&(RING as u32).to_le_bytes());
    deliver(&mut q, &bytes);
    assert!(!q.msg_from_gsp_available());
    assert!(matches!(q.receive_msg_from_gsp(), Err(Error::E2BIG)));
    bytes[56..60].copy_from_slice(&(RING as u32 - 1).to_le_bytes());
    let mut q = GspCmdq::new(0);
    deliver(&mut q, &bytes);
    assert!(matches!(q.receive_msg_from_gsp(), Err(Error::EAGAIN)));
}

#[test]
fn damaged_message() {
    let mut bytes = message(0x56, b"pong");
    for i in [0, 40, 60, 81] {
        let mut q = GspCmdq::new(0);
        bytes[i] ^= 4;
        deliver(&mut q, &bytes);
        bytes[i] ^= 4;
        assert!(q.msg_from_gsp_available());
        assert!(matches!(q.receive_msg_from_gsp(), Err(Error::EIO)));
        assert_eq!(q.cpu_rptr(), 0);
    }
}

#[test]
fn acknowledging_leaves_the_next_message() {
    let mut q = queues_at(61);
    deliver(&mut q, &message(0x56, &vec![1u8; PAGE]));
    deliver(&mut q, &message(0x56, b"next"));
    assert_eq!(q.used_rx_pages(), 3);
    assert_eq!(q.receive_msg_from_gsp().unwrap().ack(), Ok(()));
    assert_eq!(q.used_rx_pages(), 1);
    assert_eq!(q.cpu_rptr(), 0);
    assert_eq!(q.receive_msg_from_gsp().unwrap().slice_1(), b"next");
}

#[test]
fn acknowledging_counts_the_call_header_twice() {
    let mut q = GspCmdq::new(0);
    deliver(&mut q, &message(0x56, &vec![1u8; PAGE - 80 - 32]));
    deliver(&mut q, &message(0x56, b"next"));
    assert_eq!(q.receive_msg_from_gsp().unwrap().ack(), Ok(()));
    assert_eq!(q.cpu_rptr(), 1);
    let mut q = GspCmdq::new(0);
    deliver(&mut q, &message(0x56, &vec![1u8; PAGE - 80 - 31]));
    deliver(&mut q, &message(0x56, b"next"));
    assert_eq!(q.receive_msg_from_gsp().unwrap().ack(), Ok(()));
    assert_eq!(q.cpu_rptr(), 2);
}

#[test]
fn acknowledging_the_last_message_can_pass_the_write_pointer() {
    // The last page has room for one header of a call.
    let mut q = GspCmdq::new(0);
    deliver(&mut q, &message(0x56, &vec![1u8; PAGE - 80 - 32]));
    assert_eq!(q.receive_msg_from_gsp().unwrap().ack(), Ok(()));
    assert_eq!(q.used_rx_pages(), 0);
    // It has less room than that.
    let mut q = GspCmdq::new(0);
    deliver(&mut q, &message(0x56, &vec![1u8; PAGE - 80 - 31]));
    assert_eq!(q.used_rx_pages(), 1);
    assert_eq!(q.receive_msg_from_gsp().unwrap().ack(), Ok(()));
    assert_eq!(q.cpu_rptr(), 2);
    assert_eq!(q.used_rx_pages(), 62);
}

#[test]
fn ack_msg_advances_the_read_pointer() {
    let mut q = queues_at(60);
    assert_eq!(q.ack_msg(4096 - 80), Ok(()));
    assert_eq!(q.cpu_rptr(), 61);
    assert_eq!(q.ack_msg(2 * 4096), Ok(()));
    assert_eq!(q.cpu_rptr(), 1);
}

#[test]
fn waiting_for_a_message() {
    let mut q = GspCmdq::new(0);
    assert!(matches!(q.wait_for_msg_from_gsp(100, 100), WaitStep::Again));
    assert!(matches!(
        q.wait_for_msg_from_gsp(100, 101),
        WaitStep::Done(Err(Error::ETIMEDOUT))
    ));
    deliver(&mut q, &message(0x56, b"pong"));
    assert!(matches!(q.wait_for_msg_from_gsp(100, 101), WaitStep::Done(Ok(()))));
}

#[test]
fn function_names() {
    let names = [
        (0, "NOP"),
        (1, "SET_GUEST_SYSTEM_INFO"),
        (2, "ALLOC_ROOT"),
        (3, "ALLOC_DEVICE"),
        (4, "ALLOC_MEMORY"),
        (5, "ALLOC_CTX_DMA"),
        (6, "ALLOC_CHANNEL_DMA"),
        (7, "MAP_MEMORY"),
        (8, "BIND_CTX_DMA"),
        (9, "ALLOC_OBJECT"),
        (10, "FREE"),
        (11, "LOG"),
        (65, "GET_GSP_STATIC_INFO"),
        (73, "SET_REGISTRY"),
        (72, "GSP_SET_SYSTEM_INFO"),
        (74, "GSP_INIT_POST_OBJGPU"),
        (76, "GSP_RM_CONTROL"),
        (51, "GET_STATIC_INFO"),
        (0x1001, "INIT_DONE"),
        (0x1002, "RUN_CPU_SEQUENCER"),
        (0x1003, "POST_EVENT"),
        (0x1004, "RC_TRIGGERED"),
        (0x1005, "MMU_FAULT_QUEUED"),
        (0x1006, "OS_ERROR_LOG"),
        (0x1020, "NOCAT"),
        (0x101c, "LOCKDOWN_NOTICE"),
        (0x100c, "LIBOS_PRINT"),
        (12, "UNKNOWN"),
        (0x1000, "UNKNOWN"),
        (u32::MAX, "UNKNOWN"),
    ];
    for (code, name) in names {
        assert_eq!(decode_gsp_function(code), name);
    }
}
