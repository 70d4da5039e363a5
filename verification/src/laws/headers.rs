//! Laws of the headers of messages.

use vstd::prelude::*;

use crate::bytes::get_le32;
use crate::gsp::cmdq;
use crate::gsp::cmdq::decode_gsp_function;
use crate::nvfw::{pages_of, GspMsgElement, GspRpcHeader, MsgqRxHeader, MsgqTxHeader};

verus! {

/// The header of a new queue describes pages behind a page of headers.
pub proof fn law_new_queue_headers(
    size: u32,
    count: u32,
    offset: u32,
    raw: MsgqTxHeader,
    tx: cmdq::MsgqTxHeader,
    raw_rx: MsgqRxHeader,
    rx: cmdq::MsgqRxHeader,
)
    requires
        call_ensures(MsgqTxHeader::new, (size, count, offset), raw),
        call_ensures(cmdq::MsgqTxHeader::new, (size, offset), tx),
        call_ensures(MsgqRxHeader::new, (), raw_rx),
        call_ensures(cmdq::MsgqRxHeader::new, (), rx),
    ensures
        raw.version == 0 && raw.size == size && raw.msg_size == 4096 && raw.msg_count == count,
        raw.write_ptr == 0 && raw.flags == 1 && raw.rx_hdr_off == offset && raw.entry_off == 4096,
        tx.header.version == 0 && tx.header.size == size && tx.header.msg_size == 4096,
        tx.header.msg_count == 63 && tx.header.write_ptr == 0 && tx.header.flags == 1,
        tx.header.rx_hdr_off == offset && tx.header.entry_off == 4096,
        raw_rx.read_ptr == 0,
        rx.header.read_ptr == 0,
{
}

/// A pointer that is set is the one that is read, and nothing else changes.
pub proof fn law_pointers(
    tx: &mut MsgqTxHeader,
    rx: &mut MsgqRxHeader,
    val: u32,
    w: u32,
    r: u32,
    outer_tx: &cmdq::MsgqTxHeader,
    outer_rx: &cmdq::MsgqRxHeader,
    outer_w: u32,
    outer_r: u32,
)
    requires
        call_ensures(MsgqTxHeader::set_write_ptr, (tx, val), ()),
        call_ensures(MsgqTxHeader::write_ptr, (final(tx),), w),
        call_ensures(MsgqRxHeader::set_read_ptr, (rx, val), ()),
        call_ensures(MsgqRxHeader::read_ptr, (final(rx),), r),
        call_ensures(cmdq::MsgqTxHeader::write_ptr, (outer_tx,), outer_w),
        call_ensures(cmdq::MsgqRxHeader::read_ptr, (outer_rx,), outer_r),
    ensures
        w == val,
        r == val,
        outer_w == outer_tx.header.write_ptr,
        outer_r == outer_rx.header.read_ptr,
        final(tx).version == old(tx).version && final(tx).size == old(tx).size && final(tx).msg_size
            == old(tx).msg_size && final(tx).msg_count == old(tx).msg_count && final(tx).flags
            == old(tx).flags && final(tx).rx_hdr_off == old(tx).rx_hdr_off && final(tx).entry_off
            == old(tx).entry_off,
{
}

/// The header of a new call names the function and counts itself and the arguments.
pub proof fn law_new_call(
    cmd_size: u32,
    function: u32,
    h: GspRpcHeader,
    got: (u32, u32, u32),
)
    requires
        32 + cmd_size <= u32::MAX,
        call_ensures(GspRpcHeader::new, (cmd_size, function), h),
        call_ensures(GspRpcHeader::function, (&h,), got.0),
        call_ensures(GspRpcHeader::length, (&h,), got.1),
        call_ensures(GspRpcHeader::sequence, (&h,), got.2),
    ensures
        h.header_version == 0x0300_0000,
        h.signature == 0x4350_5256,
        h.length == 32 + cmd_size,
        h.function == function,
        h.rpc_result == 0xffff_ffff,
        h.rpc_result_private == 0xffff_ffff,
        h.sequence == 0,
        h.spare == 0,
        got == (function, (32 + cmd_size) as u32, 0u32),
{
}

/// Getters give the fields, and setting the function changes nothing else.
pub proof fn law_call_fields(
    h: &GspRpcHeader,
    got: (u32, u32, u32),
    changed: &mut GspRpcHeader,
    function: u32,
)
    requires
        call_ensures(GspRpcHeader::function, (h,), got.0),
        call_ensures(GspRpcHeader::length, (h,), got.1),
        call_ensures(GspRpcHeader::sequence, (h,), got.2),
        call_ensures(GspRpcHeader::set_function, (changed, function), ()),
    ensures
        got == (h.function, h.length, h.sequence),
        final(changed).function == function,
        final(changed).header_version == old(changed).header_version,
        final(changed).signature == old(changed).signature,
        final(changed).length == old(changed).length,
        final(changed).rpc_result == old(changed).rpc_result,
        final(changed).rpc_result_private == old(changed).rpc_result_private,
        final(changed).sequence == old(changed).sequence,
        final(changed).spare == old(changed).spare,
{
}

/// The header of a new message has the sequence number, the number of pages that it takes and
/// the call.
pub proof fn law_new_message(
    sequence: u32,
    cmd_size: usize,
    function: u32,
    m: GspMsgElement,
    pages: u32,
    length: u64,
)
    requires
        80 + cmd_size <= usize::MAX,
        32 + cmd_size as int % 0x1_0000_0000 <= u32::MAX,
        call_ensures(GspMsgElement::new, (sequence, cmd_size, function), m),
        call_ensures(GspMsgElement::elem_count, (&m,), pages),
        call_ensures(GspMsgElement::length, (&m,), length),
    ensures
        m.auth@.len() == 32,
        forall|i: int| 0 <= i < 32 ==> #[trigger] m.auth@[i] == 0,
        m.checksum == 0,
        m.seq_num == sequence,
        m.elem_count == pages,
        pages == (80 + cmd_size + 4095) / 4096 % 0x1_0000_0000,
        cmd_size <= u32::MAX - 80 ==> (pages - 1) * 4096 < 80 + cmd_size <= pages * 4096,
        m.padding == 0,
        m.rpc.header_version == 0x0300_0000,
        m.rpc.signature == 0x4350_5256,
        m.rpc.length == 32 + cmd_size as int % 0x1_0000_0000,
        m.rpc.function == function,
        m.rpc.rpc_result == 0xffff_ffff,
        m.rpc.rpc_result_private == 0xffff_ffff,
        m.rpc.sequence == 0,
        m.rpc.spare == 0,
        length == 80 + cmd_size as int % 0x1_0000_0000,
{
    assert(pages_of(80 + cmd_size) == (80 + cmd_size + 4095) / 4096);
}

/// The bytes of a header are its fields, each of them at its offset.
pub open spec fn holds_message_header(s: Seq<u8>, m: &GspMsgElement) -> bool {
    &&& s.len() == 80
    &&& s.take(32) == m.auth@
    &&& get_le32(s, 32) == m.checksum
    &&& get_le32(s, 36) == m.seq_num
    &&& get_le32(s, 40) == m.elem_count
    &&& get_le32(s, 44) == m.padding
    &&& get_le32(s, 48) == m.rpc.header_version
    &&& get_le32(s, 52) == m.rpc.signature
    &&& get_le32(s, 56) == m.rpc.length
    &&& get_le32(s, 60) == m.rpc.function
    &&& get_le32(s, 64) == m.rpc.rpc_result
    &&& get_le32(s, 68) == m.rpc.rpc_result_private
    &&& get_le32(s, 72) == m.rpc.sequence
    &&& get_le32(s, 76) == m.rpc.spare
}

/// The fields of the bytes of a header.
pub(crate) proof fn lemma_message_header(m: &GspMsgElement)
    requires
        m.inv(),
    ensures
        holds_message_header(m.image(), m),
{
    let s = m.image();
    m.lemma_fields(s);
    reveal(GspRpcHeader::read);
    assert(s.take(32) =~= m.auth@) by {
        reveal(GspMsgElement::image);
    }
}

/// The bytes of a header are its fields, and a header is read from such bytes and no others.
pub proof fn law_message_bytes(
    m: &GspMsgElement,
    r: Vec<u8>,
    bytes: &[u8],
    read: Option<GspMsgElement>,
    length: u64,
    call: &GspRpcHeader,
)
    requires
        m.auth@.len() == 32,
        call_ensures(GspMsgElement::to_bytes, (m,), r),
        call_ensures(GspMsgElement::from_bytes, (bytes,), read),
        call_ensures(GspMsgElement::length, (m,), length),
        call_ensures(GspMsgElement::rpc_header, (m,), call),
    ensures
        holds_message_header(r@, m),
        bytes@.len() != 80 ==> read is None,
        bytes@.len() == 80 ==> read is Some && holds_message_header(bytes@, &read->0),
        length == 48 + m.rpc.length,
        *call == m.rpc,
{
    lemma_message_header(m);
    if read is Some {
        lemma_message_header(&read->0);
    }
}

/// Setting the checksum changes nothing else, and neither does changing the call.
pub proof fn law_change_message(
    m: &mut GspMsgElement,
    checksum: u32,
    n: &mut GspMsgElement,
    call: &mut GspRpcHeader,
)
    requires
        call_ensures(GspMsgElement::set_checksum, (m, checksum), ()),
        call_ensures(GspMsgElement::rpc_header_mut, (n,), call),
    ensures
        final(m).checksum == checksum,
        final(m).auth == old(m).auth,
        final(m).seq_num == old(m).seq_num,
        final(m).elem_count == old(m).elem_count,
        final(m).padding == old(m).padding,
        final(m).rpc == old(m).rpc,
        *old(call) == old(n).rpc,
        final(n).rpc == *final(call),
        final(n).auth == old(n).auth,
        final(n).checksum == old(n).checksum,
        final(n).seq_num == old(n).seq_num,
        final(n).elem_count == old(n).elem_count,
        final(n).padding == old(n).padding,
{
}

/// The codes that have a name, and their names.
pub proof fn law_function_names(code: u32, r: &'static str)
    requires
        call_ensures(decode_gsp_function, (code,), r),
    ensures
        code == 0 ==> r@ == "NOP"@,
        code == 1 ==> r@ == "SET_GUEST_SYSTEM_INFO"@,
        code == 2 ==> r@ == "ALLOC_ROOT"@,
        code == 3 ==> r@ == "ALLOC_DEVICE"@,
        code == 4 ==> r@ == "ALLOC_MEMORY"@,
        code == 5 ==> r@ == "ALLOC_CTX_DMA"@,
        code == 6 ==> r@ == "ALLOC_CHANNEL_DMA"@,
        code == 7 ==> r@ == "MAP_MEMORY"@,
        code == 8 ==> r@ == "BIND_CTX_DMA"@,
        code == 9 ==> r@ == "ALLOC_OBJECT"@,
        code == 10 ==> r@ == "FREE"@,
        code == 11 ==> r@ == "LOG"@,
        code == 65 ==> r@ == "GET_GSP_STATIC_INFO"@,
        code == 73 ==> r@ == "SET_REGISTRY"@,
        code == 72 ==> r@ == "GSP_SET_SYSTEM_INFO"@,
        code == 74 ==> r@ == "GSP_INIT_POST_OBJGPU"@,
        code == 76 ==> r@ == "GSP_RM_CONTROL"@,
        code == 51 ==> r@ == "GET_STATIC_INFO"@,
        code == 0x1001 ==> r@ == "INIT_DONE"@,
        code == 0x1002 ==> r@ == "RUN_CPU_SEQUENCER"@,
        code == 0x1003 ==> r@ == "POST_EVENT"@,
        code == 0x1004 ==> r@ == "RC_TRIGGERED"@,
        code == 0x1005 ==> r@ == "MMU_FAULT_QUEUED"@,
        code == 0x1006 ==> r@ == "OS_ERROR_LOG"@,
        code == 0x1020 ==> r@ == "NOCAT"@,
        code == 0x101c ==> r@ == "LOCKDOWN_NOTICE"@,
        code == 0x100c ==> r@ == "LIBOS_PRINT"@,
        (code != 0
            && code != 1
            && code != 2
            && code != 3
            && code != 4
            && code != 5
            && code != 6
            && code != 7
            && code != 8
            && code != 9
            && code != 10
            && code != 11
            && code != 65
            && code != 73
            && code != 72
            && code != 74
            && code != 76
            && code != 51
            && code != 0x1001
            && code != 0x1002
            && code != 0x1003
            && code != 0x1004
            && code != 0x1005
            && code != 0x1006
            && code != 0x1020
            && code != 0x101c
            && code != 0x100c) ==> r@ == "UNKNOWN"@,
{
}

} // verus!
