use nova_core::error::Error;
use nova_core::gsp::cmdq::GspCmdq;
use nova_core::gsp::rm_control::commands::{
    NV2080_CTRL_CMD_FB_GET_INFO, NV2080_CTRL_CMD_INTERNAL_INTR_GET_KERNEL_TABLE,
};
use nova_core::gsp::rm_control::{
    get_rm_control, parse_response, rm_control_turn, wait_for_rm_control, RmControl,
    RmControlError, RmControlMessage, RmControlParams, RmControlResponse, RmControlRpc,
    RmEmptyResponse, RM_CONTROL_TIMEOUT,
};
use nova_core::gsp::GspInfo;
use nova_core::nvfw::GspMsgElement;
use nova_core::util::WaitStep;

const PAGE: usize = 4096;

struct Bytes(Vec<u8>);

impl RmControlParams for Bytes {
    fn to_bytes(&self) -> Vec<u8> {
        self.0.clone()
    }
}

#[derive(Debug, PartialEq)]
struct Length(usize);

impl RmControlResponse for Length {
    fn from_bytes(data: &[u8]) -> Result<Self, Error> {
        Ok(Length(data.len()))
    }
}

fn rpc(params_size: u32) -> RmControlRpc {
    RmControlRpc { h_client: 1, h_object: 2, cmd: 3, status: 4, params_size, flags: 5 }
}

fn header() -> Vec<u8> {
    rpc(6).to_bytes()
}

fn copy(params: Option<&[u8]>, len_1: usize, len_2: Option<usize>) -> (Vec<u8>, Option<Vec<u8>>) {
    let msg = RmControlMessage { rpc: rpc(6), params };
    let mut slice_1 = vec![0xee; len_1];
    let mut slice_2 = len_2.map(|n| vec![0xee; n]);
    {
        let mut rest = slice_2.as_mut().map(|s| &mut s[..]);
        msg.copy_to_slices(&mut slice_1, &mut rest);
    }
    (slice_1, slice_2)
}

#[test]
fn error_codes() {
    assert_eq!(Error::from(RmControlError::InvalidResponse), Error::EINVAL);
    assert_eq!(Error::from(RmControlError::RmError(0x1f)), Error::EIO);
    assert_eq!(Error::from(RmControlError::NotEnoughData), Error::EINVAL);
    assert_eq!(Error::from(RmControlError::GspError(Error::E2BIG)), Error::E2BIG);
}

#[test]
fn command_numbers() {
    assert_eq!(NV2080_CTRL_CMD_INTERNAL_INTR_GET_KERNEL_TABLE, 0x2080_0a5c);
    assert_eq!(NV2080_CTRL_CMD_FB_GET_INFO, 0x2080_1301);
}

#[test]
fn header_bytes() {
    assert_eq!(
        header(),
        vec![1, 0, 0, 0, 2, 0, 0, 0, 3, 0, 0, 0, 4, 0, 0, 0, 6, 0, 0, 0, 5, 0, 0, 0]
    );
    assert_eq!(RmControlMessage { rpc: rpc(6), params: None }.size(), 30);
}

#[test]
fn message_in_one_slice() {
    let (s1, _) = copy(Some(b"abcdef"), 32, None);
    assert_eq!(s1[..24], header());
    assert_eq!(&s1[24..], b"abcdef\xee\xee");
    let (s1, _) = copy(None, 26, None);
    assert_eq!(s1[..24], header());
    assert_eq!(s1[24..], [0xee; 2]);
}

#[test]
fn message_that_does_not_fit_is_cut_off() {
    let (s1, _) = copy(Some(b"abcdef"), 27, None);
    assert_eq!(s1[..24], header());
    assert_eq!(&s1[24..], b"abc");
    let (s1, _) = copy(Some(b"abcdef"), 10, None);
    assert_eq!(s1, header()[..10]);
}

#[test]
fn params_run_over_into_the_second_slice() {
    let (s1, s2) = copy(Some(b"abcdef"), 26, Some(5));
    assert_eq!(s1[..24], header());
    assert_eq!(&s1[24..], b"ab");
    assert_eq!(s2.unwrap(), b"cdef\xee");
    let (s1, s2) = copy(Some(b"abcdef"), 40, Some(5));
    assert_eq!(&s1[24..30], b"abcdef");
    assert_eq!(s2.unwrap(), vec![0xee; 5]);
}

#[test]
fn header_runs_over_into_the_second_slice() {
    for len_1 in [0, 1, 12] {
        let (s1, s2) = copy(Some(b"abcdef"), len_1, Some(40));
        let s2 = s2.unwrap();
        assert_eq!(s1, header()[..len_1]);
        assert_eq!(s2[..24 - len_1], header()[len_1..]);
        assert_eq!(&s2[24 - len_1..30 - len_1], b"abcdef");
    }
    let (s1, s2) = copy(None, 20, Some(5));
    assert_eq!(s1, header()[..20]);
    assert_eq!(s2.unwrap()[..4], header()[20..]);
}

#[test]
fn params_follow_a_header_that_just_runs_over() {
    let (s1, s2) = copy(Some(b"abcdef"), 20, Some(10));
    assert_eq!(s1, header()[..20]);
    let s2 = s2.unwrap();
    assert_eq!(s2[..4], header()[20..]);
    assert_eq!(&s2[4..], b"abcdef");
    let (s1, s2) = copy(Some(b"abcdef"), 13, Some(20));
    assert_eq!(s1, header()[..13]);
    let s2 = s2.unwrap();
    assert_eq!(s2[..11], header()[13..]);
    assert_eq!(&s2[11..17], b"abcdef");
    assert_eq!(s2[17..], [0xee; 3]);
}

#[test]
fn params_start_the_second_slice_behind_a_full_first_slice() {
    let (s1, s2) = copy(Some(b"abcdef"), 24, Some(6));
    assert_eq!(s1, header());
    assert_eq!(s2.unwrap(), b"abcdef");
    let (s1, s2) = copy(Some(b"abcdef"), 24, Some(8));
    assert_eq!(s1, header());
    assert_eq!(s2.unwrap(), b"abcdef\xee\xee");
}

#[test]
fn message_is_in_order_over_slices_of_any_length() {
    let mut expected = header();
    expected.extend_from_slice(b"abcdef");
    expected.extend_from_slice(&[0xee; 2]);
    for len_1 in 0..=32 {
        let (mut s1, s2) = copy(Some(b"abcdef"), len_1, Some(32 - len_1));
        s1.extend(s2.unwrap());
        assert_eq!(s1, expected);
    }
}

fn word(bytes: &[u8], at: usize) -> u32 {
    let mut w = [0u8; 4];
    w.copy_from_slice(&bytes[at..at + 4]);
    u32::from_le_bytes(w)
}

fn info() -> GspInfo {
    GspInfo { h_internal_client: 0xc1, h_internal_subdevice: 0xc2 }
}

#[test]
fn command_is_sent() {
    let mut q = GspCmdq::new(0);
    let gsp_info = info();
    let mut rm = RmControl::new(&mut q, &gsp_info);
    assert_eq!(rm.send(0x2080_1301, Some(&Bytes(b"params".to_vec()))), Ok(0));
    assert_eq!(q.seq, 1);
    let data = &q.gsp_mem.mem.cpuq.msgq.data;
    assert_eq!(word(data, 56), 32 + 24 + 6);
    assert_eq!(word(data, 60), 76);
    let expected = RmControlRpc {
        h_client: 0xc1,
        h_object: 0xc2,
        cmd: 0x2080_1301,
        status: 0,
        params_size: 6,
        flags: 0,
    };
    assert_eq!(data[80..104], expected.to_bytes());
    assert_eq!(&data[104..110], b"params");
    assert_eq!(GspCmdq::calculate_checksum(&data[..110], &[], &[]), 0);
}

#[test]
fn command_without_params_is_sent() {
    let mut q = GspCmdq::new(0);
    let gsp_info = info();
    let mut rm = RmControl::new(&mut q, &gsp_info);
    assert_eq!(rm.send::<Bytes>(7, None), Ok(0));
    let data = &q.gsp_mem.mem.cpuq.msgq.data;
    assert_eq!(word(data, 56), 32 + 24);
    assert_eq!(word(data, 96), 0);
}

#[test]
fn large_command_wraps() {
    let mut q = GspCmdq::new(0);
    q.gsp_mem.mem.cpuq.tx.header.write_ptr = 62;
    q.gsp_mem.mem.gspq.rx.header.read_ptr = 62;
    let params: Vec<u8> = (0..6000u32).map(|i| (i / 3) as u8).collect();
    let gsp_info = info();
    let mut rm = RmControl::new(&mut q, &gsp_info);
    assert_eq!(rm.send(7, Some(&Bytes(params.clone()))), Ok(0));
    assert_eq!(q.gsp_mem.mem.cpuq.tx.write_ptr(), 1);
    let data = &q.gsp_mem.mem.cpuq.msgq.data;
    let at = 62 * PAGE;
    assert_eq!(data[at + 104..], params[..PAGE - 104]);
    assert_eq!(data[..6000 - (PAGE - 104)], params[PAGE - 104..]);
    assert_eq!(data[6000 - (PAGE - 104)], 0);
}

#[test]
fn rm_control_command_needs_free_pages() {
    let mut q = GspCmdq::new(0);
    let gsp_info = info();
    let mut rm = RmControl::new(&mut q, &gsp_info);
    let too_many = vec![0u8; 62 * PAGE - 103];
    assert_eq!(rm.send(7, Some(&Bytes(too_many))), Err(Error::EAGAIN));
    let enough = vec![0u8; 62 * PAGE - 104];
    assert_eq!(rm.send(7, Some(&Bytes(enough))), Ok(0));
    assert_eq!(q.seq, 1);
}

/// Lets the GSP answer with a call of `function` with the arguments `args`.
fn answer(q: &mut GspCmdq, function: u32, args: &[u8]) {
    let mut element = GspMsgElement::new(0, args.len(), function);
    let mut bytes = element.to_bytes();
    bytes.extend_from_slice(args);
    element.set_checksum(GspCmdq::calculate_checksum(&bytes, &[], &[]));
    let mut bytes = element.to_bytes();
    bytes.extend_from_slice(args);
    let wptr = q.gsp_wptr() as usize;
    for (i, b) in bytes.iter().enumerate() {
        q.gsp_mem.mem.gspq.msgq.data[(wptr * PAGE + i) % (63 * PAGE)] = *b;
    }
    q.gsp_mem.mem.gspq.tx.advance_write_ptr(bytes.len().div_ceil(PAGE) as u32);
}

#[test]
fn response_is_received() {
    let mut q = GspCmdq::new(0);
    let mut args = header();
    args.extend_from_slice(b"answer");
    answer(&mut q, 76, &args);
    let (status, data) = get_rm_control(&mut q).unwrap();
    assert_eq!(status, 4);
    assert_eq!(data, b"answer");
    assert_eq!(q.used_rx_pages(), 0);
    answer(&mut q, 76, &header());
    assert_eq!(get_rm_control(&mut q).unwrap().1, b"");
}

#[test]
fn response_that_wraps_is_received() {
    let mut q = GspCmdq::new(0);
    q.gsp_mem.mem.cpuq.rx.header.read_ptr = 62;
    q.gsp_mem.mem.gspq.tx.header.write_ptr = 62;
    let mut args = header();
    args.extend((0..5000u32).map(|i| i as u8));
    answer(&mut q, 76, &args);
    assert_eq!(get_rm_control(&mut q).unwrap().1, &args[24..]);
}

#[test]
fn other_messages_are_no_response() {
    let mut q = GspCmdq::new(0);
    assert!(matches!(get_rm_control(&mut q), Err(Error::EAGAIN)));
    answer(&mut q, 0x1001, &header());
    assert!(matches!(get_rm_control(&mut q), Err(Error::ERANGE)));
    assert_eq!(q.used_rx_pages(), 1);
}

#[test]
fn short_response_is_invalid() {
    let mut q = GspCmdq::new(0);
    answer(&mut q, 76, &header()[..23]);
    assert!(matches!(get_rm_control(&mut q), Err(Error::EINVAL)));
}

#[test]
fn response_is_waited_for() {
    let mut q = GspCmdq::new(0);
    assert_eq!(RM_CONTROL_TIMEOUT, 5_000_000_000);
    assert!(matches!(wait_for_rm_control(&q, 0), WaitStep::Again));
    assert!(matches!(wait_for_rm_control(&q, 5_000_000_000), WaitStep::Again));
    assert!(matches!(
        wait_for_rm_control(&q, 5_000_000_001),
        WaitStep::Done(Err(Error::ETIMEDOUT))
    ));
    answer(&mut q, 76, &header());
    assert!(matches!(wait_for_rm_control(&q, 5_000_000_001), WaitStep::Done(Ok(()))));
    assert_eq!(q.used_rx_pages(), 1);
}

#[test]
fn response_is_got_once() {
    let mut q = GspCmdq::new(0);
    assert!(matches!(rm_control_turn(Ok(0), &mut q, 1), WaitStep::Again));
    assert!(matches!(
        rm_control_turn(Ok(0), &mut q, 5_000_000_001),
        WaitStep::Done(Err(Error::ETIMEDOUT))
    ));
    let mut args = header();
    args.extend_from_slice(b"answer");
    answer(&mut q, 76, &args);
    answer(&mut q, 76, &args);
    match rm_control_turn(Ok(0), &mut q, 2) {
        WaitStep::Done(response) => assert_eq!(response, Ok((4, b"answer".to_vec()))),
        WaitStep::Again => panic!("the response has arrived"),
    }
    assert_eq!(q.used_rx_pages(), 1);
}

#[test]
fn command_that_was_not_sent_has_no_response() {
    let mut q = GspCmdq::new(0);
    answer(&mut q, 76, &header());
    assert!(matches!(
        rm_control_turn(Err(Error::EAGAIN), &mut q, 0),
        WaitStep::Done(Err(Error::EAGAIN))
    ));
    assert_eq!(q.used_rx_pages(), 1);
}

#[test]
fn other_message_ends_the_wait() {
    let mut q = GspCmdq::new(0);
    answer(&mut q, 0x1001, &header());
    assert!(matches!(
        rm_control_turn(Ok(0), &mut q, 0),
        WaitStep::Done(Err(Error::ERANGE))
    ));
    assert_eq!(q.used_rx_pages(), 1);
}

#[test]
fn response_is_parsed() {
    assert_eq!(parse_response::<Length>(0, b"abc"), Ok(Length(3)));
    assert_eq!(parse_response::<Length>(1, b"abc"), Err(Error::EIO));
    assert_eq!(parse_response::<RmEmptyResponse>(0, b"abc"), Ok(RmEmptyResponse));
}

#[test]
fn expected_sizes() {
    assert_eq!(RmEmptyResponse::expected_size(), Some(0));
    assert_eq!(Length::expected_size(), None);
}
