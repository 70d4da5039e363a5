//! Laws of the parts of a command on its way into the queue, and of a message on its way out.

use vstd::prelude::*;

use crate::bytes::{get_le32, le32, splice};
use crate::error::Error;
use crate::gsp::checksum::xor_sum;
use crate::gsp::cmdq::{
    GspCmdq, GspCommandToGsp, GspMessageFromGsp, GspQueueCommand, GspQueueMessage,
};
use crate::gsp::fw::commands::{GspSystemInfo, PackedRegistryTable};
use crate::gsp::ring::{
    circular, filled, lemma_circular_splice, lemma_driver_area_size, lemma_filled,
    lemma_message_parts, lemma_seal,
};
use crate::gsp::rm_control::RmControlRpc;
use crate::laws::bytes::{law_get_le, law_splice};
use crate::laws::headers::{holds_message_header, lemma_message_header};
use crate::laws::queue::{around, free, lemma_around, lemma_counts};
use crate::laws::sbuffer::content;
use crate::nvfw::{pages_of, GspMsgElement};
use crate::sbuffer::SBuffer;

verus! {

/// The functions that commands and messages stand for, and their sizes.
pub proof fn law_functions(codes: (u32, u32, u32), sizes: (usize, usize, usize))
    requires
        call_ensures(<PackedRegistryTable as GspCommandToGsp>::function_code, (), codes.0),
        call_ensures(<GspSystemInfo as GspCommandToGsp>::function_code, (), codes.1),
        call_ensures(<RmControlRpc as GspMessageFromGsp>::function_code, (), codes.2),
        call_ensures(<PackedRegistryTable as GspCommandToGsp>::size_of, (), sizes.0),
        call_ensures(<GspSystemInfo as GspCommandToGsp>::size_of, (), sizes.1),
        call_ensures(<RmControlRpc as GspMessageFromGsp>::size_of, (), sizes.2),
    ensures
        codes == (73u32, 72u32, 76u32),
        sizes == (8usize, 928usize, 24usize),
{
}

/// `new` is `q` but for the pages of the CPU queue, the sequence number and the write pointer.
pub open spec fn same_elsewhere(q: &GspCmdq, new: &GspCmdq) -> bool {
    &&& new.msg_count == q.msg_count
    &&& new.nr_ptes == q.nr_ptes
    &&& new.gsp_mem.dma_handle == q.gsp_mem.dma_handle
    &&& new.gsp_mem.mem.ptes == q.gsp_mem.mem.ptes
    &&& new.gsp_mem.mem.gspq == q.gsp_mem.mem.gspq
    &&& new.gsp_mem.mem.cpuq.rx == q.gsp_mem.mem.cpuq.rx
}

/// A command is made room for if as many pages are free as it needs. Its header is complete but
/// for the function and the checksum, and stands where the driver writes next.
pub proof fn law_alloc(
    q: &mut GspCmdq,
    cmd_size: usize,
    r: Result<GspQueueCommand<'_>, Error>,
    j: int,
)
    requires
        old(q).inv(),
        80 + cmd_size <= usize::MAX,
        (80 + cmd_size + 4095) / 4096 <= free(old(q)) ==> old(q).seq < u32::MAX,
        call_ensures(GspCmdq::alloc_gsp_queue_command, (q, cmd_size), r),
        0 <= j < 63 * 4096,
    ensures
        (80 + cmd_size + 4095) / 4096 > free(old(q)) ==> {
            &&& r is Err && r->Err_0 == Error::EAGAIN
            &&& *final(q) == *old(q)
        },
        (80 + cmd_size + 4095) / 4096 <= free(old(q)) ==> {
            let at = old(q).gsp_mem.mem.cpuq.tx.header.write_ptr * 4096;
            let before = old(q).gsp_mem.mem.cpuq.msgq.data@;
            let ring = old(r->Ok_0.cmdq).gsp_mem.mem.cpuq.msgq.data@;
            let m = r->Ok_0.msg_element;
            &&& r is Ok
            &&& *final(r->Ok_0.cmdq) == *final(q)
            &&& same_elsewhere(old(q), old(r->Ok_0.cmdq))
            &&& old(r->Ok_0.cmdq).gsp_mem.mem.cpuq.tx == old(q).gsp_mem.mem.cpuq.tx
            &&& old(r->Ok_0.cmdq).seq == old(q).seq + 1
            &&& forall|i: int| 0 <= i < 32 ==> #[trigger] m.auth@[i] == 0
            &&& m.checksum == 0
            &&& m.seq_num == old(q).seq
            &&& m.elem_count == (80 + cmd_size + 4095) / 4096
            &&& m.padding == 0
            &&& m.rpc.header_version == 0x0300_0000
            &&& m.rpc.signature == 0x4350_5256
            &&& m.rpc.length == 32 + cmd_size
            &&& m.rpc.rpc_result == 0xffff_ffff
            &&& m.rpc.rpc_result_private == 0xffff_ffff
            &&& m.rpc.sequence == 0
            &&& m.rpc.spare == 0
            &&& holds_message_header(ring.subrange(at, at + 80), &m)
            &&& ring.len() == before.len()
            &&& !(at <= j < at + 80) ==> ring[j] == before[j]
            &&& r->Ok_0.len_1 + r->Ok_0.len_2 == free(old(q)) * 4096
        },
{
    lemma_counts(old(q));
    lemma_driver_area_size(old(q).gsp_mem.tx(), old(q).gsp_mem.rx());
    assert(pages_of(80 + cmd_size) == (80 + cmd_size + 4095) / 4096);
    if r is Ok {
        let m = r->Ok_0.msg_element;
        lemma_message_header(&m);
        let at = old(q).gsp_mem.tx() * 4096;
        law_splice(old(q).outbox(), at, m.image(), j);
        assert(m.auth@.len() == 32);
        assert forall|i: int| 0 <= i < 32 implies #[trigger] m.auth@[i] == 0 by {}
    }
}

/// A command is handed over with a checksum over all that it may use, and with its pages; it is
/// not changed otherwise, and nothing else is.
pub proof fn law_send_command(cmd: GspQueueCommand<'_>, r: Result<u32, Error>, j: int)
    requires
        cmd.inv(),
        cmd.msg_element.checksum == 0,
        cmd.cmdq.gsp_mem.mem.cpuq.tx.header.write_ptr + cmd.msg_element.elem_count <= u32::MAX,
        call_ensures(GspCmdq::send_cmd_to_gsp, (cmd,), r) || call_ensures(
            GspQueueCommand::send_to_gsp,
            (cmd,),
            r,
        ),
        0 <= j < 63 * 4096,
    ensures
        ({
            let q = *old(cmd.cmdq);
            let new = *final(cmd.cmdq);
            let tx = q.gsp_mem.mem.cpuq.tx.header.write_ptr;
            let at = tx * 4096;
            let before = q.gsp_mem.mem.cpuq.msgq.data@;
            let ring = new.gsp_mem.mem.cpuq.msgq.data@;
            &&& r == Ok::<u32, Error>(0)
            &&& same_elsewhere(&q, &new)
            &&& new.seq == q.seq
            &&& new.gsp_mem.mem.cpuq.tx.header.write_ptr == (tx + cmd.msg_element.elem_count) % 63
            &&& ring.len() == before.len()
            &&& !(at + 32 <= j < at + 36) ==> ring[j] == before[j]
            &&& xor_sum(around(ring, at, cmd.len_1 + cmd.len_2)) == 0
        }),
{
    let q = *old(cmd.cmdq);
    let at = cmd.at();
    let n = cmd.len_1 + cmd.len_2;
    let ring = q.outbox();
    cmd.msg_element.lemma_fields(cmd.msg_element.image());
    lemma_message_parts(ring, at, cmd.len_1 - 80, cmd.len_2 as int);
    let whole = circular(ring, at, n);
    let c = xor_sum(whole);
    assert(whole == cmd.msg_element.image() + cmd.bytes_1() + cmd.bytes_2());
    assert(whole.subrange(32, 36) =~= le32(0)) by {
        reveal(GspMsgElement::image);
        assert(cmd.msg_element.image().subrange(32, 36) =~= le32(0));
        assert(whole.subrange(32, 36) =~= cmd.msg_element.image().subrange(32, 36));
    }
    lemma_seal(whole);
    assert(n <= ring.len());
    lemma_circular_splice(ring, at, n, 32, le32(c));
    law_splice(ring, at + 32, le32(c), j);
    lemma_around(splice(ring, at + 32, le32(c)), at, n);
}

/// A command hands out the bytes behind its header in three parts, and what becomes of them
/// stands in the queue. Of the header, the function alone changes.
pub proof fn law_arguments<'a, 'b>(
    cmd: &'b mut GspQueueCommand<'a>,
    function: u32,
    size: usize,
    r: (&'b mut [u8], &'b mut [u8], &'b mut [u8]),
    j: int,
)
    requires
        old(cmd).inv(),
        80 + size <= old(cmd).len_1,
        final(r.0)@.len() == r.0@.len(),
        final(r.1)@.len() == r.1@.len(),
        final(r.2)@.len() == r.2@.len(),
        call_ensures(GspQueueCommand::arguments, (cmd, function, size), r),
        0 <= j < 63 * 4096,
    ensures
        ({
            let at = old(cmd).cmdq.gsp_mem.mem.cpuq.tx.header.write_ptr * 4096;
            let len_1 = old(cmd).len_1 as int;
            let len_2 = old(cmd).len_2 as int;
            let before = old(cmd).cmdq.gsp_mem.mem.cpuq.msgq.data@;
            let ring = final(cmd).cmdq.gsp_mem.mem.cpuq.msgq.data@;
            &&& old(r.0)@.len() == size
            &&& old(r.1)@.len() == len_1 - 80 - size
            &&& old(r.2)@.len() == len_2
            &&& ring.len() == before.len()
            &&& j < len_2 ==> old(r.2)@[j] == before[j] && ring[j] == final(r.2)@[j]
            &&& at + 80 <= j < at + 80 + size ==> old(r.0)@[j - at - 80] == before[j] && ring[j]
                == final(r.0)@[j - at - 80]
            &&& at + 80 + size <= j < at + len_1 ==> old(r.1)@[j - at - 80 - size] == before[j]
                && ring[j] == final(r.1)@[j - at - 80 - size]
            &&& len_2 <= j < at || at + len_1 <= j ==> ring[j] == before[j]
            &&& at <= j < at + 80 && !(at + 60 <= j < at + 64) ==> ring[j] == before[j]
            &&& get_le32(ring, at + 60) == function
        }),
        same_elsewhere(old(cmd).cmdq, final(cmd).cmdq),
        final(cmd).cmdq.gsp_mem.mem.cpuq.tx == old(cmd).cmdq.gsp_mem.mem.cpuq.tx,
        final(cmd).cmdq.seq == old(cmd).cmdq.seq,
        final(cmd).msg_element.rpc.function == function,
        final(cmd).msg_element.rpc.length == old(cmd).msg_element.rpc.length,
        final(cmd).msg_element.checksum == old(cmd).msg_element.checksum,
        final(cmd).msg_element.seq_num == old(cmd).msg_element.seq_num,
        final(cmd).msg_element.elem_count == old(cmd).msg_element.elem_count,
        final(cmd).len_1 == old(cmd).len_1,
        final(cmd).len_2 == old(cmd).len_2,
{
    let c = *old(cmd);
    let at = c.at();
    let len_1 = c.len_1 as int;
    let len_2 = c.len_2 as int;
    let header = c.calling(function).image();
    let before = c.cmdq.outbox();
    c.msg_element.lemma_fields(c.msg_element.image());
    c.calling(function).lemma_fields(header);
    lemma_filled(before, at, len_1, len_2, header, final(r.0)@, final(r.1)@, final(r.2)@);
    let ring = final(cmd).cmdq.outbox();
    lemma_filled_bytes(
        before,
        at,
        len_1,
        len_2,
        header,
        final(r.0)@,
        final(r.1)@,
        final(r.2)@,
        j,
    );
    lemma_message_header(&c.calling(function));
    law_get_le(header, 60);
    law_get_le(ring, at + 60);
    let head = ring.subrange(at, at + 80);
    assert(head[60] == ring[at + 60] && head[61] == ring[at + 61] && head[62] == ring[at + 62]
        && head[63] == ring[at + 63]);
    assert(at <= j < at + 80 && !(at + 60 <= j < at + 64) ==> ring[j] == before[j]) by {
        if at <= j < at + 80 && !(at + 60 <= j < at + 64) {
            reveal(GspMsgElement::image);
            reveal(crate::nvfw::GspRpcHeader::image);
            let old_head = before.subrange(at, at + 80);
            assert(old_head == c.msg_element.image());
            assert(old_head[j - at] == before[j]);
            assert(head[j - at] == ring[j]);
            assert(c.msg_element.image()[j - at] == header[j - at]);
        }
    }
    assert(old(r.0)@ =~= c.bytes_1().take(size as int));
}

/// A filled command, byte by byte.
proof fn lemma_filled_bytes(
    ring: Seq<u8>,
    at: int,
    len_1: int,
    len_2: int,
    header: Seq<u8>,
    msg: Seq<u8>,
    data: Seq<u8>,
    wrapped: Seq<u8>,
    j: int,
)
    requires
        0 <= len_2 <= at,
        at + len_1 <= ring.len(),
        wrapped.len() == len_2,
        header.len() == 80,
        header.len() + msg.len() + data.len() == len_1,
        0 <= j < ring.len(),
    ensures
        ({
            let new = filled(ring, at, len_1, len_2, header, msg, data, wrapped);
            &&& new.len() == ring.len()
            &&& j < len_2 ==> new[j] == wrapped[j]
            &&& len_2 <= j < at || at + len_1 <= j ==> new[j] == ring[j]
            &&& at <= j < at + 80 ==> new[j] == header[j - at]
            &&& at + 80 <= j < at + 80 + msg.len() ==> new[j] == msg[j - at - 80]
            &&& at + 80 + msg.len() <= j < at + len_1 ==> new[j] == data[j - at - 80 - msg.len()]
        }),
{
}

/// A command that is made an `M` calls the function of an `M`, and hands out the bytes of the
/// `M` and a buffer over all that follows them.
pub proof fn law_command_as<'a, 'b, M: GspCommandToGsp>(
    cmd: &'b mut GspQueueCommand<'a>,
    code: u32,
    size: usize,
    r: (&'b mut [u8], Option<SBuffer<'b>>),
)
    requires
        old(cmd).inv(),
        80 + M::size() <= old(cmd).len_1,
        32 + M::size() <= old(cmd).msg_element.rpc.length,
        call_ensures(M::function_code, (), code),
        call_ensures(M::size_of, (), size),
        call_ensures(GspQueueCommand::try_as::<M>, (cmd,), r),
    ensures
        ({
            let at = old(cmd).cmdq.gsp_mem.mem.cpuq.tx.header.write_ptr * 4096;
            let before = old(cmd).cmdq.gsp_mem.mem.cpuq.msgq.data@;
            &&& old(r.0)@ == before.subrange(at + 80, at + 80 + size)
            &&& r.1 is Some <==> old(cmd).msg_element.rpc.length > 32 + size
            &&& r.1 is Some ==> content(&r.1->0) == before.subrange(
                at + 80 + size,
                at + old(cmd).len_1,
            ) + before.take(old(cmd).len_2 as int) && r.1->0.idx == 0 && r.1->0.offset == 0
        }),
        final(cmd).msg_element.rpc.function == code,
        final(cmd).msg_element.rpc.length == old(cmd).msg_element.rpc.length,
        final(cmd).cmdq.seq == old(cmd).cmdq.seq,
        same_elsewhere(old(cmd).cmdq, final(cmd).cmdq),
        final(cmd).cmdq.gsp_mem.mem.cpuq.tx == old(cmd).cmdq.gsp_mem.mem.cpuq.tx,
{
    let at = old(cmd).at();
    let before = old(cmd).cmdq.outbox();
    assert(old(cmd).bytes_1().take(size as int) =~= before.subrange(at + 80, at + 80 + size));
    assert(old(cmd).bytes_1().skip(size as int) =~= before.subrange(
        at + 80 + size,
        at + old(cmd).len_1,
    ));
}

/// A message is an `M` if it has the function of an `M`. Its bytes are the first ones of the
/// payload, and the data are all of the others.
pub proof fn law_message_as<'a, M: GspMessageFromGsp>(
    msg: &'a GspQueueMessage<'a>,
    code: u32,
    size: usize,
    first: &[u8],
    second: Option<&[u8]>,
    r: Result<(&'a [u8], Option<(&'a [u8], &'a [u8])>), Error>,
)
    requires
        msg.inv(),
        msg.rpc_header.function == M::function() ==> M::size() <= msg.len_1,
        call_ensures(M::function_code, (), code),
        call_ensures(M::size_of, (), size),
        call_ensures(GspQueueMessage::slice_1, (msg,), first),
        call_ensures(GspQueueMessage::slice_2, (msg,), second),
        call_ensures(GspQueueMessage::try_as::<M>, (msg,), r),
    ensures
        msg.rpc_header.function != code ==> r is Err && r->Err_0 == Error::ERANGE,
        msg.rpc_header.function == code ==> {
            let rest = match second {
                Some(s) => s@,
                None => Seq::empty(),
            };
            &&& r is Ok
            &&& r->Ok_0.0@.len() == size
            &&& r->Ok_0.0@ + (match r->Ok_0.1 {
                Some((a, b)) => a@ + b@,
                None => Seq::empty(),
            }) == first@ + rest
        },
{
    if msg.rpc_header.function == code {
        let rest = match second {
            Some(s) => s@,
            None => Seq::empty(),
        };
        assert(rest =~= msg.bytes_2());
        let head = first@.take(size as int);
        assert(first@ =~= head + first@.skip(size as int));
        match r->Ok_0.1 {
            Some((a, b)) => {
                assert(r->Ok_0.0@ + (a@ + b@) =~= first@ + rest);
            },
            None => {
                assert(r->Ok_0.0@ + Seq::<u8>::empty() =~= first@ + rest);
            },
        }
    }
}

} // verus!
