//! Laws of RM control commands and their responses.

use vstd::prelude::*;

use crate::bytes::{get_le32, le32, lemma_get_le32};
use crate::error::Error;
use crate::gsp::cmdq::GspCmdq;
use crate::gsp::rm_control::{
    get_rm_control, parse_response, rm_control_args, rm_control_turn, wait_for_rm_control,
    RmControl, RmControlError, RmControlMessage, RmControlParams, RmControlResponse, RmControlRpc,
    RmEmptyResponse,
};
use crate::gsp::GspInfo;
use crate::laws::bytes::law_get_le;
use crate::laws::queue::{
    command_was_sent, free, front, front_bytes, front_word, lemma_counts, lemma_reception,
    lemma_sent, reception, sent_arguments, waiting, was_acked,
};
use crate::nvfw::{pages_of, GspRpcHeader};
use crate::util::WaitStep;

verus! {

/// The error code that each failure of a command becomes.
pub proof fn law_error_codes(e: RmControlError, r: Error)
    requires
        call_ensures(<Error as From<RmControlError>>::from, (e,), r),
    ensures
        e == RmControlError::InvalidResponse ==> r == Error::EINVAL,
        e == RmControlError::NotEnoughData ==> r == Error::EINVAL,
        e is RmError ==> r == Error::EIO,
        e is GspError ==> r == e->GspError_0,
{
}

/// The header of a command is its six fields, each of them all of a word, in this order.
pub open spec fn holds_header(s: Seq<u8>, rpc: RmControlRpc) -> bool {
    &&& get_le32(s, 0) == rpc.h_client
    &&& get_le32(s, 4) == rpc.h_object
    &&& get_le32(s, 8) == rpc.cmd
    &&& get_le32(s, 12) == rpc.status
    &&& get_le32(s, 16) == rpc.params_size
    &&& get_le32(s, 20) == rpc.flags
}

/// Bytes that start with a header hold its fields.
proof fn lemma_header(rpc: RmControlRpc, s: Seq<u8>)
    requires
        s.len() >= 24,
        s.take(24) == rpc.image(),
    ensures
        rpc.image().len() == 24,
        holds_header(s, rpc),
{
    reveal(RmControlRpc::image);
    let t = s.take(24);
    assert(t.subrange(0, 4) =~= le32(rpc.h_client));
    assert(t.subrange(4, 8) =~= le32(rpc.h_object));
    assert(t.subrange(8, 12) =~= le32(rpc.cmd));
    assert(t.subrange(12, 16) =~= le32(rpc.status));
    assert(t.subrange(16, 20) =~= le32(rpc.params_size));
    assert(t.subrange(20, 24) =~= le32(rpc.flags));
    assert(s.subrange(0, 4) =~= t.subrange(0, 4));
    assert(s.subrange(4, 8) =~= t.subrange(4, 8));
    assert(s.subrange(8, 12) =~= t.subrange(8, 12));
    assert(s.subrange(12, 16) =~= t.subrange(12, 16));
    assert(s.subrange(16, 20) =~= t.subrange(16, 20));
    assert(s.subrange(20, 24) =~= t.subrange(20, 24));
    lemma_get_le32(s, 0, rpc.h_client);
    lemma_get_le32(s, 4, rpc.h_object);
    lemma_get_le32(s, 8, rpc.cmd);
    lemma_get_le32(s, 12, rpc.status);
    lemma_get_le32(s, 16, rpc.params_size);
    lemma_get_le32(s, 20, rpc.flags);
}

/// The bytes of a header are its fields.
pub proof fn law_header_bytes(rpc: &RmControlRpc, r: Vec<u8>)
    requires
        call_ensures(RmControlRpc::to_bytes, (rpc,), r),
    ensures
        r@.len() == 24,
        holds_header(r@, *rpc),
{
    rpc.lemma_image();
    assert(r@.take(24) =~= r@);
    lemma_header(*rpc, r@);
}

/// The parameters of a message, empty if it has none.
pub open spec fn parameters(msg: &RmControlMessage<'_>) -> Seq<u8> {
    match msg.params {
        Some(params) => params@,
        None => Seq::empty(),
    }
}

/// The size of a message is that of its header and of the parameters that it announces.
pub proof fn law_message_size(msg: &RmControlMessage<'_>, r: usize)
    requires
        24 + msg.rpc.params_size <= usize::MAX,
        call_ensures(RmControlMessage::size, (msg,), r),
    ensures
        r == 24 + msg.rpc.params_size,
{
}

/// A message that is copied to two slices is the header and behind it every byte of the
/// parameters, over the end of the first slice into the second one, and nothing else changes.
pub proof fn law_copied_to_two(
    msg: &RmControlMessage<'_>,
    one: &mut [u8],
    two: &mut Option<&mut [u8]>,
)
    requires
        *old(two) is Some,
        24 + parameters(msg).len() <= old(one)@.len() + (*old(two)->0)@.len(),
        call_ensures(RmControlMessage::copy_to_slices, (msg, one, two), ()),
    ensures
        *final(two) is Some,
        final(one)@.len() == old(one)@.len(),
        (*final(two)->0)@.len() == (*old(two)->0)@.len(),
        ({
            let before = old(one)@ + (*old(two)->0)@;
            let after = final(one)@ + (*final(two)->0)@;
            let n = 24 + parameters(msg).len();
            &&& holds_header(after, msg.rpc)
            &&& after.subrange(24, n as int) == parameters(msg)
            &&& forall|i: int| n <= i < before.len() ==> #[trigger] after[i] == before[i]
        }),
{
    msg.rpc.lemma_image();
    let before = old(one)@ + (*old(two)->0)@;
    let after = final(one)@ + (*final(two)->0)@;
    let n = (24 + parameters(msg).len()) as int;
    assert(after.take(24) =~= msg.rpc.image());
    lemma_header(msg.rpc, after);
    assert(after.subrange(24, n) =~= parameters(msg));
}

/// A message that is copied to one slice is cut off where the slice ends.
pub proof fn law_copied_to_one(
    msg: &RmControlMessage<'_>,
    header: Vec<u8>,
    one: &mut [u8],
    two: &mut Option<&mut [u8]>,
    i: int,
)
    requires
        *old(two) is None,
        call_ensures(RmControlRpc::to_bytes, (&msg.rpc,), header),
        call_ensures(RmControlMessage::copy_to_slices, (msg, one, two), ()),
        0 <= i < old(one)@.len(),
    ensures
        *final(two) is None,
        final(one)@.len() == old(one)@.len(),
        i < 24 ==> final(one)@[i] == header@[i],
        24 <= i < 24 + parameters(msg).len() ==> final(one)@[i] == parameters(msg)[i - 24],
        24 + parameters(msg).len() <= i ==> final(one)@[i] == old(one)@[i],
{
    msg.rpc.lemma_image();
}

/// A command is sent with all of the handles, the command and every byte of the parameters. It
/// is sent if as many pages are free as it needs, and otherwise nothing changes.
pub proof fn law_send<'a, P: RmControlParams>(
    rm: &mut RmControl<'a>,
    cmd: u32,
    params: Option<&P>,
    bytes: Vec<u8>,
    r: Result<u32, Error>,
)
    requires
        params is Some ==> call_ensures(P::to_bytes, (params->0,), bytes),
        params is None ==> bytes@.len() == 0,
        old(rm).cmdq.inv(),
        bytes@.len() <= u32::MAX,
        104 + bytes@.len() <= usize::MAX,
        (104 + bytes@.len() + 4095) / 4096 <= free(old(rm).cmdq) ==> old(rm).cmdq.seq < u32::MAX,
        call_ensures(RmControl::send::<P>, (rm, cmd, params), r),
    ensures
        (104 + bytes@.len() + 4095) / 4096 > free(old(rm).cmdq) ==> {
            &&& r == Err::<u32, Error>(Error::EAGAIN)
            &&& *final(rm).cmdq == *old(rm).cmdq
        },
        (104 + bytes@.len() + 4095) / 4096 <= free(old(rm).cmdq) ==> {
            let args = sent_arguments(
                old(rm).cmdq,
                final(rm).cmdq,
                (24 + bytes@.len()) as int,
            );
            &&& r == Ok::<u32, Error>(0)
            &&& command_was_sent(
                old(rm).cmdq,
                final(rm).cmdq,
                76,
                (24 + bytes@.len()) as int,
            )
            &&& get_le32(args, 0) == old(rm).gsp_info.h_internal_client
            &&& get_le32(args, 4) == old(rm).gsp_info.h_internal_subdevice
            &&& get_le32(args, 8) == cmd
            &&& get_le32(args, 12) == 0
            &&& get_le32(args, 16) == bytes@.len()
            &&& get_le32(args, 20) == 0
            &&& args.skip(24) == bytes@
        },
        final(rm).gsp_info == old(rm).gsp_info,
{
    lemma_counts(old(rm).cmdq);
    if (104 + bytes@.len() + 4095) / 4096 <= free(old(rm).cmdq) {
        lemma_command_words(old(rm).gsp_info, cmd, bytes@);
        let args = rm_control_args(old(rm).gsp_info, cmd, bytes@);
        assert(pages_of((80 + args.len()) as int) <= old(rm).cmdq.free_pages());
        lemma_sent(old(rm).cmdq, final(rm).cmdq, 76, args);
    }
}

/// The arguments of a command, word by word.
pub(crate) proof fn lemma_command_words(gsp_info: &GspInfo, cmd: u32, params: Seq<u8>)
    requires
        params.len() <= u32::MAX,
    ensures
        ({
            let args = rm_control_args(gsp_info, cmd, params);
            &&& args.len() == 24 + params.len()
            &&& get_le32(args, 0) == gsp_info.h_internal_client
            &&& get_le32(args, 4) == gsp_info.h_internal_subdevice
            &&& get_le32(args, 8) == cmd
            &&& get_le32(args, 12) == 0
            &&& get_le32(args, 16) == params.len()
            &&& get_le32(args, 20) == 0
            &&& args.skip(24) == params
        }),
{
    let args = rm_control_args(gsp_info, cmd, params);
    let rpc = RmControlRpc {
        h_client: gsp_info.h_internal_client,
        h_object: gsp_info.h_internal_subdevice,
        cmd,
        status: 0,
        params_size: params.len() as u32,
        flags: 0,
    };
    rpc.lemma_image();
    assert(args.take(24) =~= rpc.image());
    lemma_header(rpc, args);
    assert(args.skip(24) =~= params);
}

/// What the next message gives as a response: its status and the data behind its header, or
/// why it gives none.
pub open spec fn response(q: &GspCmdq) -> Result<(u32, Seq<u8>), Error> {
    let message = front_bytes(q, 48 + front_word(q, 56));
    if reception(q) is Err {
        Err(reception(q)->Err_0)
    } else if front_word(q, 60) != 76 {
        Err(Error::ERANGE)
    } else if front_word(q, 56) < 32 + 24 {
        Err(Error::EINVAL)
    } else {
        Ok((get_le32(message, 92), message.skip(104)))
    }
}

/// `r` and the queues `new` are what receiving a response from `q` gives: its status and all of
/// its data whatever the status is, and the message is handed back; or an error, and nothing
/// changes.
pub open spec fn gives_response(
    q: &GspCmdq,
    new: &GspCmdq,
    r: Result<(u32, Vec<u8>), Error>,
) -> bool {
    match response(q) {
        Ok(pair) => {
            &&& r is Ok
            &&& r->Ok_0.0 == pair.0
            &&& r->Ok_0.1@ == pair.1
            &&& was_acked(q, new, (80 + front_word(q, 56) + 4095) / 4096)
        },
        Err(e) => r == Err::<(u32, Vec<u8>), Error>(e) && *new == *q,
    }
}

/// What the contracts say of a response, in the terms of its bytes.
proof fn lemma_response(q: &GspCmdq, new: &GspCmdq, r: Result<(u32, Vec<u8>), Error>)
    requires
        q.inv(),
        waiting(q) >= 1 ==> front_word(q, 56) >= 32,
        crate::gsp::rm_control::response_received(q, new, r),
    ensures
        gives_response(q, new, r),
{
    lemma_reception(q);
    if response(q) is Ok {
        let message = front_bytes(q, 48 + front_word(q, 56));
        let args = message.skip(80);
        law_get_le(args, 12);
        law_get_le(message, 92);
        assert(args[12] == message[92] && args[13] == message[93] && args[14] == message[94]
            && args[15] == message[95]);
        assert(args.skip(24) =~= message.skip(104));
        let pages = (80 + front_word(q, 56) + 4095) / 4096;
        assert(pages_of(80 + q.incoming().length) == pages);
    }
}

/// The precondition of a reception, in the terms of the contracts.
proof fn lemma_long_enough(q: &GspCmdq)
    requires
        q.inv(),
        waiting(q) >= 1 ==> front_word(q, 56) >= 32,
    ensures
        q.used() >= 1 ==> q.incoming().length >= 32,
{
    lemma_counts(q);
    GspRpcHeader::lemma_read_length(q.inbox(), q.rptr() * 4096 + 48);
    assert(q.rptr() * 4096 + 48 + 8 == front(q) + 56);
}

/// A response is its status and every byte of the message behind its header.
pub proof fn law_get_rm_control(q: &mut GspCmdq, r: Result<(u32, Vec<u8>), Error>)
    requires
        old(q).inv(),
        waiting(old(q)) >= 1 ==> front_word(old(q), 56) >= 32,
        call_ensures(get_rm_control, (q,), r),
    ensures
        gives_response(old(q), final(q), r),
{
    lemma_long_enough(old(q));
    lemma_response(old(q), final(q), r);
}

/// A response that was put into the queue comes out of it: the status of its header, and the
/// data, whatever they are.
pub proof fn law_response_round_trip(
    q: &mut GspCmdq,
    header: &RmControlRpc,
    bytes: Vec<u8>,
    data: Seq<u8>,
    r: Result<(u32, Vec<u8>), Error>,
)
    requires
        old(q).inv(),
        call_ensures(RmControlRpc::to_bytes, (header,), bytes),
        // An intact message with these arguments is the next one.
        reception(old(q)) is Ok,
        front_word(old(q), 60) == 76,
        front_word(old(q), 56) == 32 + 24 + data.len(),
        front_bytes(old(q), 48 + front_word(old(q), 56)).skip(80) == bytes@ + data,
        call_ensures(get_rm_control, (q,), r),
    ensures
        r is Ok,
        r->Ok_0.0 == header.status,
        r->Ok_0.1@ == data,
{
    law_get_rm_control(q, r);
    law_header_bytes(header, bytes);
    let message = front_bytes(old(q), 48 + front_word(old(q), 56));
    let args = bytes@ + data;
    law_get_le(bytes@, 12);
    law_get_le(message, 92);
    assert(message.skip(80)[12] == args[12] && message.skip(80)[13] == args[13] && message.skip(
        80,
    )[14] == args[14] && message.skip(80)[15] == args[15]);
    assert(message.skip(104) =~= args.skip(24));
    assert(args.skip(24) =~= data);
}

/// A response is waited for five seconds.
pub proof fn law_wait_for_response(q: &GspCmdq, elapsed: i64, available: bool, r: WaitStep<()>)
    requires
        q.inv(),
        call_ensures(GspCmdq::msg_from_gsp_available, (q,), available),
        call_ensures(wait_for_rm_control, (q, elapsed), r),
    ensures
        available ==> r == WaitStep::Done(Ok::<(), Error>(())),
        !available && elapsed > 5_000_000_000 ==> r == WaitStep::Done(
            Err::<(), Error>(Error::ETIMEDOUT),
        ),
        !available && elapsed <= 5_000_000_000 ==> r == WaitStep::<()>::Again,
{
}

/// A command that could not be sent gets no response. Otherwise the response is received as
/// soon as it is there, for five seconds, and until then nothing changes.
pub proof fn law_rm_control_turn(
    sent: Result<u32, Error>,
    q: &mut GspCmdq,
    elapsed: i64,
    available: bool,
    r: WaitStep<(u32, Vec<u8>)>,
)
    requires
        old(q).inv(),
        waiting(old(q)) >= 1 ==> front_word(old(q), 56) >= 32,
        call_ensures(GspCmdq::msg_from_gsp_available, (old(q),), available),
        call_ensures(rm_control_turn, (sent, q, elapsed), r),
    ensures
        sent is Err ==> {
            &&& r == WaitStep::Done(Err::<(u32, Vec<u8>), Error>(sent->Err_0))
            &&& *final(q) == *old(q)
        },
        sent is Ok && available ==> {
            &&& r is Done
            &&& gives_response(old(q), final(q), r->Done_0)
        },
        sent is Ok && !available && elapsed > 5_000_000_000 ==> {
            &&& r == WaitStep::Done(Err::<(u32, Vec<u8>), Error>(Error::ETIMEDOUT))
            &&& *final(q) == *old(q)
        },
        sent is Ok && !available && elapsed <= 5_000_000_000 ==> {
            &&& r is Again
            &&& *final(q) == *old(q)
        },
{
    lemma_long_enough(old(q));
    if sent is Ok && available {
        lemma_response(old(q), final(q), r->Done_0);
    }
}

/// A status other than zero is an error whatever the data are; with the status zero the data
/// decide.
pub proof fn law_parse_response<T: RmControlResponse>(status: u32, data: &[u8], r: Result<T, Error>)
    requires
        call_ensures(parse_response::<T>, (status, data), r),
    ensures
        status != 0 ==> r == Err::<T, Error>(Error::EIO),
        status == 0 ==> T::parses_to(data@, r),
{
}

/// A response without data is always there.
pub proof fn law_empty_response(
    data: &[u8],
    status: u32,
    r: Result<RmEmptyResponse, Error>,
    parsed: Result<RmEmptyResponse, Error>,
    size: Option<usize>,
)
    requires
        call_ensures(parse_response::<RmEmptyResponse>, (status, data), parsed),
        call_ensures(<RmEmptyResponse as RmControlResponse>::from_bytes, (data,), r),
        call_ensures(<RmEmptyResponse as RmControlResponse>::expected_size, (), size),
    ensures
        r is Ok,
        parsed is Ok <==> status == 0,
        parsed is Err ==> parsed->Err_0 == Error::EIO,
        size == Some(0usize),
{
}

/// An instance sends through the queues and for the objects that it was made with.
pub proof fn law_new<'a>(cmdq: &'a mut GspCmdq, gsp_info: &'a GspInfo, r: RmControl<'a>)
    requires
        call_ensures(RmControl::new, (cmdq, gsp_info), r),
    ensures
        *old(r.cmdq) == *old(cmdq),
        *final(r.cmdq) == *final(cmdq),
        r.gsp_info.h_internal_client == gsp_info.h_internal_client,
        r.gsp_info.h_internal_subdevice == gsp_info.h_internal_subdevice,
{
}

} // verus!
