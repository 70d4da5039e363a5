//! RM Control.
//!
//! This module provides the interface for sending RM (Resource Manager) control commands to
//! the GSP firmware. RM control commands are used to query and configure various GPU
//! resources.

use vstd::prelude::*;

use crate::bytes::{append, copy_into, u32_at, u32_to_le};
use crate::bytes::{get_le32, le32, lemma_get_le32, lemma_splice_join, splice};
use crate::error::Error;
use crate::gsp::cmdq::{
    acked, lemma_command_filled, sent, GspCmdq, GspMessageFromGsp, QUEUE_HEAD_ADDRESS,
};
use crate::gsp::GspInfo;
use crate::nvfw::{
    pages_of, MSG_ELEMENT_SIZE, NV_VGPU_MSG_FUNCTION_GSP_RM_CONTROL, RPC_HEADER_SIZE,
};
use crate::util::{wait_turn, WaitStep};

pub mod commands;

verus! {

/// Why an RM control command failed.
#[derive(Clone, Copy, Debug, PartialEq, Eq, Structural)]
pub enum RmControlError {
    /// The response makes no sense.
    InvalidResponse,
    /// GSP-RM reported an error, with its raw status code.
    RmError(u32),
    /// The response is too short.
    NotEnoughData,
    /// The command or its response could not be transferred.
    GspError(Error),
}

/// The error code of a failed command.
pub open spec fn error_code(e: RmControlError) -> Error {
    match e {
        RmControlError::InvalidResponse => Error::EINVAL,
        RmControlError::RmError(_) => Error::EIO,
        RmControlError::NotEnoughData => Error::EINVAL,
        RmControlError::GspError(e) => e,
    }
}

impl From<RmControlError> for Error {
    fn from(e: RmControlError) -> (r: Self) {
        match e {
            RmControlError::InvalidResponse => Error::EINVAL,
            RmControlError::RmError(_) => Error::EIO,
            RmControlError::NotEnoughData => Error::EINVAL,
            RmControlError::GspError(e) => e,
        }
    }
}

impl vstd::std_specs::convert::FromSpecImpl<RmControlError> for Error {
    open spec fn obeys_from_spec() -> bool {
        true
    }

    open spec fn from_spec(e: RmControlError) -> Self {
        error_code(e)
    }
}

/// Size of a [`RmControlRpc`] in a queue.
pub const RM_CONTROL_RPC_SIZE: usize = 24;

/// Header of an RM control command and of its response. The parameters follow it.
#[derive(Clone, Copy, Debug, PartialEq, Eq, Structural)]
pub struct RmControlRpc {
    /// The client.
    pub h_client: u32,
    /// The object that the command is for.
    pub h_object: u32,
    /// The command.
    pub cmd: u32,
    /// Status of the command.
    pub status: u32,
    /// Size of the parameters.
    pub params_size: u32,
    /// Flags of the command.
    pub flags: u32,
}

impl RmControlRpc {
    /// The bytes of the header.
    #[verifier::opaque]
    pub open spec fn image(&self) -> Seq<u8> {
        le32(self.h_client) + le32(self.h_object) + le32(self.cmd) + le32(self.status) + le32(
            self.params_size,
        ) + le32(self.flags)
    }

    /// A header takes [`RM_CONTROL_RPC_SIZE`] bytes, and its status stands at offset 12.
    pub proof fn lemma_image(&self)
        ensures
            self.image().len() == RM_CONTROL_RPC_SIZE,
            get_le32(self.image(), 12) == self.status,
    {
        reveal(RmControlRpc::image);
        assert(self.image().subrange(12, 16) =~= le32(self.status));
        lemma_get_le32(self.image(), 12, self.status);
    }

    /// Returns the bytes of the header.
    pub fn to_bytes(&self) -> (r: Vec<u8>)
        ensures
            r@ == self.image(),
    {
        let mut r: Vec<u8> = Vec::new();
        append(&mut r, u32_to_le(self.h_client).as_slice());
        append(&mut r, u32_to_le(self.h_object).as_slice());
        append(&mut r, u32_to_le(self.cmd).as_slice());
        append(&mut r, u32_to_le(self.status).as_slice());
        append(&mut r, u32_to_le(self.params_size).as_slice());
        append(&mut r, u32_to_le(self.flags).as_slice());
        reveal(RmControlRpc::image);
        assert(r@ =~= self.image());
        r
    }
}

impl GspMessageFromGsp for RmControlRpc {
    open spec fn function() -> u32 {
        NV_VGPU_MSG_FUNCTION_GSP_RM_CONTROL
    }

    open spec fn size() -> nat {
        RM_CONTROL_RPC_SIZE as nat
    }

    fn function_code() -> (r: u32) {
        NV_VGPU_MSG_FUNCTION_GSP_RM_CONTROL
    }

    fn size_of() -> (r: usize) {
        RM_CONTROL_RPC_SIZE
    }
}

/// The smaller one of two numbers.
pub open spec fn min_of(a: int, b: int) -> int {
    if a < b {
        a
    } else {
        b
    }
}

/// Wrapper to send RPC header + params together.
pub struct RmControlMessage<'a> {
    /// The header.
    pub rpc: RmControlRpc,
    /// The parameters.
    pub params: Option<&'a [u8]>,
}

impl<'a> RmControlMessage<'a> {
    /// The bytes of the parameters.
    pub open spec fn params_bytes(&self) -> Seq<u8> {
        match self.params {
            Some(params) => params@,
            None => Seq::empty(),
        }
    }

    /// The bytes of the message: the header, and the parameters behind it.
    pub open spec fn image(&self) -> Seq<u8> {
        self.rpc.image() + self.params_bytes()
    }

    /// Copies the header and the parameters, one behind the other, to a slice and, where there
    /// is one, on to a second slice. Without a second slice, what does not fit is left out.
    pub fn copy_to_slices(&self, msg_slice_1: &mut [u8], msg_slice_2: &mut Option<&mut [u8]>)
        requires
            *old(msg_slice_2) is Some ==> self.image().len() <= old(msg_slice_1)@.len()
                + (*old(msg_slice_2)->0)@.len(),
        ensures
            final(msg_slice_1)@.len() == old(msg_slice_1)@.len(),
            *old(msg_slice_2) is None ==> final(msg_slice_1)@ == splice(
                old(msg_slice_1)@,
                0,
                self.image().take(
                    min_of(old(msg_slice_1)@.len() as int, self.image().len() as int),
                ),
            ),
            *old(msg_slice_2) is Some <==> *final(msg_slice_2) is Some,
            *old(msg_slice_2) is Some ==> {
                &&& (*final(msg_slice_2)->0)@.len() == (*old(msg_slice_2)->0)@.len()
                &&& final(msg_slice_1)@ + (*final(msg_slice_2)->0)@ == splice(
                    old(msg_slice_1)@ + (*old(msg_slice_2)->0)@,
                    0,
                    self.image(),
                )
                &&& final((*final(msg_slice_2))->0)@ == final((*old(msg_slice_2))->0)@
            },
    {
        // First copy the RPC header
        let header_bytes = self.rpc.to_bytes();
        proof {
            self.rpc.lemma_image();
        }
        let header_len: usize = RM_CONTROL_RPC_SIZE;
        let len_1: usize = msg_slice_1.len();
        let copy_len: usize = if len_1 < header_len {
            len_1
        } else {
            header_len
        };
        copy_into(msg_slice_1, 0, header_bytes.as_slice(), 0, copy_len);
        // Copy remaining header to slice_2 if needed
        let mut offset_2: usize = 0;
        if copy_len < header_len {
            if let Some(slice_2) = msg_slice_2.as_mut() {
                offset_2 = header_len - copy_len;
                copy_into(slice_2, 0, header_bytes.as_slice(), copy_len, offset_2);
            }
        }
        // Now copy params if any
        let mut params_copy_1: usize = 0;
        if let Some(params) = self.params {
            // As much as there is still space for in slice_1
            let offset_1: usize = copy_len;
            let remaining_1: usize = len_1 - offset_1;
            params_copy_1 = if remaining_1 < params.len() {
                remaining_1
            } else {
                params.len()
            };
            copy_into(msg_slice_1, offset_1, params, 0, params_copy_1);
            // Copy rest to slice_2 if needed
            if params_copy_1 < params.len() {
                if let Some(slice_2) = msg_slice_2.as_mut() {
                    copy_into(
                        slice_2,
                        offset_2,
                        params,
                        params_copy_1,
                        params.len() - params_copy_1,
                    );
                }
            }
        }
        proof {
            let params = self.params_bytes();
            let slice_1 = old(msg_slice_1)@;
            let n = copy_len as int;
            let m = params_copy_1 as int;
            let head_1 = splice(slice_1, 0, header_bytes@.subrange(0, n));
            assert(splice(head_1, n, params.subrange(0, 0)) =~= head_1);
            assert(msg_slice_1@ == splice(head_1, n, params.subrange(0, m)));
            match *old(msg_slice_2) {
                Some(slice_2) => {
                    let end = params.len() as int;
                    let head_2 = splice(slice_2@, 0, header_bytes@.subrange(n, 24));
                    assert(splice(slice_2@, 0, header_bytes@.subrange(24, 24)) =~= slice_2@);
                    assert(splice(head_2, 24 - n, params.subrange(end, end)) =~= head_2);
                    assert((*msg_slice_2->0)@ == splice(head_2, 24 - n, params.subrange(m, end)));
                    lemma_copied_to_two(header_bytes@, params, slice_1, slice_2@, n, m);
                },
                None => lemma_copied_to_one(header_bytes@, params, slice_1, n, m),
            }
        }
    }

    /// Returns the size of the message.
    pub fn size(&self) -> (r: usize)
        requires
            RM_CONTROL_RPC_SIZE + self.rpc.params_size <= usize::MAX,
        ensures
            r == RM_CONTROL_RPC_SIZE + self.rpc.params_size,
    {
        RM_CONTROL_RPC_SIZE + self.rpc.params_size as usize
    }
}

/// `n` bytes of the header and `m` bytes of the parameters fill a slice as far as they go.
proof fn lemma_copied_to_one(header: Seq<u8>, params: Seq<u8>, slice: Seq<u8>, n: int, m: int)
    requires
        header.len() == 24,
        n == min_of(slice.len() as int, 24),
        m == min_of(slice.len() - n, params.len() as int),
    ensures
        splice(splice(slice, 0, header.subrange(0, n)), n, params.subrange(0, m)) == splice(
            slice,
            0,
            (header + params).take(min_of(slice.len() as int, (header + params).len() as int)),
        ),
{
    lemma_splice_join(slice, 0, header.subrange(0, n), params.subrange(0, m));
    assert(header.subrange(0, n) + params.subrange(0, m) =~= (header + params).take(n + m));
}

/// `n` bytes of the header and `m` bytes of the parameters fill a first slice as far as they
/// go, and the rest of both follows in a second slice.
proof fn lemma_copied_to_two(
    header: Seq<u8>,
    params: Seq<u8>,
    slice_1: Seq<u8>,
    slice_2: Seq<u8>,
    n: int,
    m: int,
)
    requires
        header.len() == 24,
        n == min_of(slice_1.len() as int, 24),
        m == min_of(slice_1.len() - n, params.len() as int),
        24 + params.len() <= slice_1.len() + slice_2.len(),
    ensures
        splice(splice(slice_1, 0, header.subrange(0, n)), n, params.subrange(0, m)) + splice(
            splice(slice_2, 0, header.subrange(n, 24)),
            24 - n,
            params.subrange(m, params.len() as int),
        ) == splice(slice_1 + slice_2, 0, header + params),
{
    let first = header.subrange(0, n) + params.subrange(0, m);
    let rest = header.subrange(n, 24) + params.subrange(m, params.len() as int);
    lemma_splice_join(slice_1, 0, header.subrange(0, n), params.subrange(0, m));
    lemma_splice_join(
        slice_2,
        0,
        header.subrange(n, 24),
        params.subrange(m, params.len() as int),
    );
    assert(first + rest =~= header + params);
    assert(splice(slice_1, 0, first) + splice(slice_2, 0, rest) =~= splice(
        slice_1 + slice_2,
        0,
        first + rest,
    ));
}

/// The header and the parameters stand one behind the other after they were copied to two
/// slices, whatever the lengths of the slices are, and what is behind them is left as it was.
///
/// A first slice that is no longer than the header holds bytes of the header alone. The
/// second slice then holds the rest of the header, if there is one, and all of the
/// parameters.
pub proof fn lemma_copied_in_order(
    msg: &RmControlMessage<'_>,
    slice_1: Seq<u8>,
    slice_2: Seq<u8>,
    copied_1: Seq<u8>,
    copied_2: Seq<u8>,
)
    requires
        msg.image().len() <= slice_1.len() + slice_2.len(),
        copied_1.len() == slice_1.len(),
        copied_2.len() == slice_2.len(),
        copied_1 + copied_2 == splice(slice_1 + slice_2, 0, msg.image()),
    ensures
        (copied_1 + copied_2).take(RM_CONTROL_RPC_SIZE as int) == msg.rpc.image(),
        (copied_1 + copied_2).subrange(
            RM_CONTROL_RPC_SIZE as int,
            RM_CONTROL_RPC_SIZE + msg.params_bytes().len(),
        ) == msg.params_bytes(),
        (copied_1 + copied_2).skip(RM_CONTROL_RPC_SIZE + msg.params_bytes().len()) == (slice_1
            + slice_2).skip(RM_CONTROL_RPC_SIZE + msg.params_bytes().len()),
        slice_1.len() <= RM_CONTROL_RPC_SIZE ==> {
            &&& copied_1 == msg.rpc.image().take(slice_1.len() as int)
            &&& copied_2 == splice(
                slice_2,
                0,
                msg.rpc.image().skip(slice_1.len() as int) + msg.params_bytes(),
            )
        },
{
    msg.rpc.lemma_image();
    let header = msg.rpc.image();
    let params = msg.params_bytes();
    let copied = copied_1 + copied_2;
    let n = RM_CONTROL_RPC_SIZE + params.len();
    assert(copied.take(RM_CONTROL_RPC_SIZE as int) =~= header);
    assert(copied.subrange(RM_CONTROL_RPC_SIZE as int, n) =~= params);
    assert(copied.skip(n) =~= (slice_1 + slice_2).skip(n));
    let len_1 = slice_1.len() as int;
    if len_1 <= RM_CONTROL_RPC_SIZE {
        assert(copied_1 =~= copied.take(len_1));
        assert(copied_2 =~= copied.skip(len_1));
        assert(copied_1 =~= header.take(len_1));
        assert(copied_2 =~= splice(slice_2, 0, header.skip(len_1) + params));
    }
}

/// Parameters of an RM control command.
///
/// What [`Self::image`] is is left open here; a type of parameters states it.
pub trait RmControlParams {
    /// The bytes of the parameters.
    open spec fn image(&self) -> Seq<u8> {
        arbitrary()
    }

    /// Returns the bytes of the parameters.
    fn to_bytes(&self) -> (r: Vec<u8>)
        ensures
            r@ == self.image(),
    ;
}

/// The response to an RM control command.
///
/// What [`Self::parses_to`] says is left open here; a type of responses states it.
pub trait RmControlResponse: Sized {
    /// `r` is what the response with the bytes `data` is parsed to.
    open spec fn parses_to(data: Seq<u8>, r: Result<Self, Error>) -> bool {
        arbitrary()
    }

    /// Parse response from bytes.
    fn from_bytes(data: &[u8]) -> (r: Result<Self, Error>)
        ensures
            Self::parses_to(data@, r),
    ;

    /// Get the expected size (if known at compile time).
    fn expected_size() -> (r: Option<usize>)
        default_ensures
            r is None,
    {
        None
    }
}

/// Sends RM control commands.
pub struct RmControl<'a> {
    /// The queues.
    pub cmdq: &'a mut GspCmdq,
    /// The objects that the commands are for.
    pub gsp_info: &'a GspInfo,
}

/// The arguments of the message that sends the command `cmd` with the parameters `params`.
pub open spec fn rm_control_args(gsp_info: &GspInfo, cmd: u32, params: Seq<u8>) -> Seq<u8> {
    (RmControlRpc {
        h_client: gsp_info.h_internal_client,
        h_object: gsp_info.h_internal_subdevice,
        cmd,
        status: 0,
        params_size: params.len() as u32,
        flags: 0,
    }).image() + params
}

/// The bytes of parameters that need not be there.
pub open spec fn optional_image<P: RmControlParams>(params: Option<&P>) -> Seq<u8> {
    match params {
        Some(params) => params.image(),
        None => Seq::empty(),
    }
}

/// Turns the status and the data of a response into the response.
pub fn parse_response<T: RmControlResponse>(status: u32, data: &[u8]) -> (r: Result<T, Error>)
    ensures
        status != 0 ==> r == Err::<T, Error>(error_code(RmControlError::RmError(status))),
        status == 0 ==> T::parses_to(data@, r),
{
    // Check for RM errors
    if status != 0 {
        return Err(Error::from(RmControlError::RmError(status)));
    }
    // Parse the response data
    T::from_bytes(data)
}

impl<'a> RmControl<'a> {
    /// Create new RM control instance.
    pub fn new(cmdq: &'a mut GspCmdq, gsp_info: &'a GspInfo) -> (r: Self)
        ensures
            *r.cmdq == *old(cmdq),
            *final(r.cmdq) == *final(cmdq),
            *r.gsp_info == *gsp_info,
    {
        RmControl { cmdq, gsp_info }
    }

    /// Send an RM control command. Fails with [`Error::EAGAIN`] if it needs more pages of the
    /// queue than are free.
    ///
    /// Returns the address to write to the queue head register, which makes the GSP look at
    /// the queue. The response is then got with [`rm_control_turn`].
    pub fn send<P: RmControlParams>(&mut self, cmd: u32, params: Option<&P>) -> (r: Result<
        u32,
        Error,
    >)
        requires
            old(self).cmdq.inv(),
            // The sizes of the parameters and of the message fit.
            optional_image(params).len() <= u32::MAX,
            MSG_ELEMENT_SIZE + RM_CONTROL_RPC_SIZE + optional_image(params).len() <= usize::MAX,
            pages_of(
                (MSG_ELEMENT_SIZE + RM_CONTROL_RPC_SIZE + optional_image(params).len()) as int,
            ) <= old(self).cmdq.free_pages() ==> old(self).cmdq.seq < u32::MAX,
        ensures
            r == (if pages_of(
                (MSG_ELEMENT_SIZE + RM_CONTROL_RPC_SIZE + optional_image(params).len()) as int,
            ) <= old(self).cmdq.free_pages() {
                Ok::<u32, Error>(QUEUE_HEAD_ADDRESS)
            } else {
                Err(Error::EAGAIN)
            }),
            r is Ok ==> sent(
                old(self).cmdq,
                final(self).cmdq,
                NV_VGPU_MSG_FUNCTION_GSP_RM_CONTROL,
                rm_control_args(old(self).gsp_info, cmd, optional_image(params)),
            ),
            r is Err ==> *final(self).cmdq == *old(self).cmdq,
            *final(final(self).cmdq) == *final(old(self).cmdq),
            final(self).gsp_info == old(self).gsp_info,
    {
        let bytes: Option<Vec<u8>> = match params {
            Some(params) => Some(params.to_bytes()),
            None => None,
        };
        let params_size: usize = match &bytes {
            Some(bytes) => bytes.len(),
            None => 0,
        };
        // Create the RPC header
        let rpc = RmControlRpc {
            h_client: self.gsp_info.h_internal_client,
            h_object: self.gsp_info.h_internal_subdevice,
            cmd,
            status: 0,
            params_size: params_size as u32,
            flags: 0,
        };
        // Create message wrapper
        let msg = RmControlMessage {
            rpc,
            params: match &bytes {
                Some(bytes) => Some(bytes.as_slice()),
                None => None,
            },
        };
        assert(msg.params_bytes() == optional_image(params));
        // Send the command
        send_message(self.cmdq, &msg)
    }
}

/// Arguments that were copied to the first bytes of `part_1` and, where those are all of it,
/// to `part_2`.
proof fn lemma_copied_parts(
    part_1: Seq<u8>,
    part_2: Seq<u8>,
    copied: Seq<u8>,
    wrapped: Seq<u8>,
    args: Seq<u8>,
)
    requires
        copied.len() <= part_1.len(),
        wrapped.len() == part_2.len(),
        args.len() <= copied.len() + part_2.len(),
        copied.len() == args.len() || copied.len() == part_1.len(),
        copied + wrapped == splice(part_1.take(copied.len() as int) + part_2, 0, args),
    ensures
        copied + part_1.skip(copied.len() as int) + wrapped == splice(part_1 + part_2, 0, args),
{
    let whole = splice(part_1.take(copied.len() as int) + part_2, 0, args);
    assert(copied =~= whole.take(copied.len() as int)) by {
        assert((copied + wrapped).take(copied.len() as int) =~= copied);
    }
    assert(wrapped =~= whole.skip(copied.len() as int)) by {
        assert((copied + wrapped).skip(copied.len() as int) =~= wrapped);
    }
    assert(copied + part_1.skip(copied.len() as int) + wrapped =~= splice(
        part_1 + part_2,
        0,
        args,
    ));
}

/// Copies `msg` to `slice_1` and, where it is longer, to the start of `ring_start`.
fn copy_arguments(msg: &RmControlMessage<'_>, slice_1: &mut [u8], ring_start: &mut [u8])
    requires
        msg.rpc.params_size == msg.params_bytes().len(),
        RM_CONTROL_RPC_SIZE + msg.rpc.params_size <= old(slice_1)@.len() + old(ring_start)@.len(),
        old(slice_1)@.len() <= RM_CONTROL_RPC_SIZE + msg.rpc.params_size,
        RM_CONTROL_RPC_SIZE + msg.rpc.params_size <= usize::MAX,
    ensures
        final(slice_1)@.len() == old(slice_1)@.len(),
        final(ring_start)@.len() == old(ring_start)@.len(),
        final(slice_1)@ + final(ring_start)@ == splice(
            old(slice_1)@ + old(ring_start)@,
            0,
            msg.image(),
        ),
{
    let size: usize = msg.size();
    let len_1: usize = slice_1.len();
    let ghost args = msg.image();
    proof {
        msg.rpc.lemma_image();
    }
    if size == len_1 {
        let mut slice_2: Option<&mut [u8]> = None;
        msg.copy_to_slices(slice_1, &mut slice_2);
        assert(args.take(args.len() as int) =~= args);
        assert(splice(old(slice_1)@, 0, args) =~= args);
        assert(args + ring_start@ =~= splice(old(slice_1)@ + ring_start@, 0, args));
    } else {
        let ghost old_2 = ring_start@;
        let (rest, kept) = ring_start.split_at_mut(size - len_1);
        let ghost first = rest@;
        let ghost tail = kept@;
        let mut slice_2: Option<&mut [u8]> = Some(rest);
        msg.copy_to_slices(slice_1, &mut slice_2);
        proof {
            assert(has_resolved(slice_2));
            let new_2 = (slice_2->0)@;
            assert(slice_1@ + new_2 == splice(old(slice_1)@ + first, 0, args));
            assert(old_2 =~= first + tail);
            assert(slice_1@ + (new_2 + tail) =~= (slice_1@ + new_2) + tail);
            assert(splice(old(slice_1)@ + first, 0, args) + tail =~= splice(
                old(slice_1)@ + old_2,
                0,
                args,
            ));
        }
    }
}

/// Sends `msg` to the GSP.
#[verifier::rlimit(40)]
fn send_message(cmdq: &mut GspCmdq, msg: &RmControlMessage<'_>) -> (r: Result<u32, Error>)
    requires
        old(cmdq).inv(),
        msg.rpc.params_size == msg.params_bytes().len(),
        MSG_ELEMENT_SIZE + RM_CONTROL_RPC_SIZE + msg.rpc.params_size <= usize::MAX,
        pages_of(MSG_ELEMENT_SIZE + RM_CONTROL_RPC_SIZE + msg.rpc.params_size) <= old(
            cmdq
        ).free_pages() ==> old(cmdq).seq < u32::MAX,
    ensures
        r == (if pages_of(MSG_ELEMENT_SIZE + RM_CONTROL_RPC_SIZE + msg.rpc.params_size) <= old(
            cmdq
        ).free_pages() {
            Ok::<u32, Error>(QUEUE_HEAD_ADDRESS)
        } else {
            Err(Error::EAGAIN)
        }),
        r is Ok ==> sent(
            old(cmdq),
            final(cmdq),
            NV_VGPU_MSG_FUNCTION_GSP_RM_CONTROL,
            msg.image(),
        ),
        r is Err ==> *final(cmdq) == *old(cmdq),
{
    let size: usize = msg.size();
    let ghost q = *cmdq;
    let ghost args = msg.image();
    proof {
        msg.rpc.lemma_image();
    }
    let mut cmd = match cmdq.alloc_gsp_queue_command(size) {
        Ok(cmd) => cmd,
        Err(e) => {
            return Err(e);
        },
    };
    let ghost cmd0 = cmd;
    let room_1: usize = cmd.len_1 - MSG_ELEMENT_SIZE;
    let len_1: usize = if size < room_1 {
        size
    } else {
        room_1
    };
    let ghost mut copied: Seq<u8> = Seq::empty();
    let ghost mut wrapped: Seq<u8> = Seq::empty();
    {
        let (slice_1, _, ring_start) = cmd.arguments(NV_VGPU_MSG_FUNCTION_GSP_RM_CONTROL, len_1);
        copy_arguments(msg, slice_1, ring_start);
        proof {
            copied = slice_1@;
            wrapped = ring_start@;
        }
    }
    proof {
        let data = cmd0.bytes_1().skip(len_1 as int);
        lemma_copied_parts(cmd0.bytes_1(), cmd0.bytes_2(), copied, wrapped, args);
        lemma_command_filled(
            &q,
            cmd0,
            NV_VGPU_MSG_FUNCTION_GSP_RM_CONTROL,
            copied,
            data,
            wrapped,
            args,
        );
    }
    cmd.send_to_gsp()
}

/// Whether the next message from the GSP can be received as the response to an RM control
/// command, and the error if not.
pub open spec fn response_outcome(q: &GspCmdq) -> Result<(), Error> {
    if q.receive_outcome() is Err {
        q.receive_outcome()
    } else if q.incoming().function != NV_VGPU_MSG_FUNCTION_GSP_RM_CONTROL {
        Err(Error::ERANGE)
    } else if q.incoming().length < RPC_HEADER_SIZE + RM_CONTROL_RPC_SIZE {
        Err(error_code(RmControlError::NotEnoughData))
    } else {
        Ok(())
    }
}

/// `r` is what receiving the response to an RM control command from the queues `q` gives, and
/// `new` are the queues after that: the response was acknowledged, and a message that is no
/// such response is left where it is.
pub open spec fn response_received(
    q: &GspCmdq,
    new: &GspCmdq,
    r: Result<(u32, Vec<u8>), Error>,
) -> bool {
    &&& r is Ok <==> response_outcome(q) is Ok
    &&& r is Err ==> r->Err_0 == response_outcome(q)->Err_0
    &&& r is Err ==> *new == *q
    &&& r is Ok ==> {
        let args = q.incoming_bytes().skip(MSG_ELEMENT_SIZE as int);
        &&& r->Ok_0.0 == get_le32(args, 12)
        &&& r->Ok_0.1@ == args.skip(RM_CONTROL_RPC_SIZE as int)
        &&& *new == acked(*q, q.incoming().length)
    }
}

/// Receives the response to an RM control command: its status, and the data behind its
/// header. A message that is no such response stays in the queue.
#[verifier::rlimit(40)]
pub fn get_rm_control(cmdq: &mut GspCmdq) -> (r: Result<(u32, Vec<u8>), Error>)
    requires
        old(cmdq).inv(),
        // A call is at least as long as its header.
        old(cmdq).used() >= 1 ==> old(cmdq).incoming().length >= RPC_HEADER_SIZE,
    ensures
        response_received(old(cmdq), final(cmdq), r),
{
    let ghost q = *cmdq;
    let ghost args = q.incoming_bytes().skip(MSG_ELEMENT_SIZE as int);
    let msg = match cmdq.receive_msg_from_gsp() {
        Ok(msg) => msg,
        Err(e) => {
            return Err(e);
        },
    };
    if msg.rpc_header.function() == NV_VGPU_MSG_FUNCTION_GSP_RM_CONTROL && msg.rpc_header.length()
        < (RPC_HEADER_SIZE + RM_CONTROL_RPC_SIZE) as u32 {
        return Err(Error::from(RmControlError::NotEnoughData));
    }
    let (status, data): (u32, Vec<u8>) = match msg.try_as::<RmControlRpc>() {
        Err(e) => {
            return Err(e);
        },
        Ok((header, parts)) => {
            let status: u32 = u32_at(header, 12);
            let mut data: Vec<u8> = Vec::new();
            if let Some((first, rest)) = parts {
                append(&mut data, first);
                append(&mut data, rest);
            }
            assert(header@ =~= args.take(RM_CONTROL_RPC_SIZE as int));
            assert(status == get_le32(args, 12)) by {
                reveal(get_le32);
            }
            assert(data@ =~= args.skip(RM_CONTROL_RPC_SIZE as int));
            (status, data)
        },
    };
    match msg.ack() {
        Ok(_) => Ok((status, data)),
        Err(e) => Err(e),
    }
}

/// Time to wait for the response to an RM control command, in nanoseconds.
pub const RM_CONTROL_TIMEOUT: i64 = 5_000_000_000;

/// One turn of waiting for the response to an RM control command, `elapsed` nanoseconds after
/// the wait began. Fails with [`Error::ETIMEDOUT`] once more than [`RM_CONTROL_TIMEOUT`]
/// nanoseconds have elapsed.
pub fn wait_for_rm_control(cmdq: &GspCmdq, elapsed: i64) -> (r: WaitStep<()>)
    requires
        cmdq.inv(),
    ensures
        r == wait_turn(
            RM_CONTROL_TIMEOUT as int,
            if cmdq.available() {
                Some(())
            } else {
                None
            },
            elapsed as int,
        ),
{
    cmdq.wait_for_msg_from_gsp(RM_CONTROL_TIMEOUT, elapsed)
}

/// One turn of getting the response to an RM control command, `elapsed` nanoseconds after the
/// wait for it began. `sent` is what sending the command returned.
///
/// A command that could not be sent has no response, and its error is the result at once.
/// Otherwise the response is waited for, for up to [`RM_CONTROL_TIMEOUT`] nanoseconds, and
/// received once, when the wait is over.
pub fn rm_control_turn(sent: Result<u32, Error>, cmdq: &mut GspCmdq, elapsed: i64) -> (r: WaitStep<
    (u32, Vec<u8>),
>)
    requires
        old(cmdq).inv(),
        // A call is at least as long as its header.
        sent is Ok && old(cmdq).used() >= 1 ==> old(cmdq).incoming().length >= RPC_HEADER_SIZE,
    ensures
        match sent {
            Err(e) => {
                &&& r == WaitStep::Done(Err::<(u32, Vec<u8>), Error>(e))
                &&& *final(cmdq) == *old(cmdq)
            },
            Ok(_) => match wait_turn(
                RM_CONTROL_TIMEOUT as int,
                if old(cmdq).available() {
                    Some(())
                } else {
                    None
                },
                elapsed as int,
            ) {
                WaitStep::Again => {
                    &&& r == WaitStep::<(u32, Vec<u8>)>::Again
                    &&& *final(cmdq) == *old(cmdq)
                },
                WaitStep::Done(Err(e)) => {
                    &&& r == WaitStep::Done(Err::<(u32, Vec<u8>), Error>(e))
                    &&& *final(cmdq) == *old(cmdq)
                },
                WaitStep::Done(Ok(_)) => {
                    &&& r is Done
                    &&& response_received(old(cmdq), final(cmdq), r->Done_0)
                },
            },
        },
{
    match sent {
        Err(e) => WaitStep::Done(Err(e)),
        Ok(_) => match wait_for_rm_control(cmdq, elapsed) {
            WaitStep::Again => WaitStep::Again,
            WaitStep::Done(Err(e)) => WaitStep::Done(Err(e)),
            WaitStep::Done(Ok(_)) => WaitStep::Done(get_rm_control(cmdq)),
        },
    }
}

/// Generic empty response for commands that just return status.
#[derive(Clone, Copy, Debug, PartialEq, Eq, Structural)]
pub struct RmEmptyResponse;

impl RmControlResponse for RmEmptyResponse {
    open spec fn parses_to(data: Seq<u8>, r: Result<Self, Error>) -> bool {
        r == Ok::<Self, Error>(RmEmptyResponse)
    }

    fn from_bytes(_data: &[u8]) -> (r: Result<Self, Error>) {
        Ok(RmEmptyResponse)
    }

    fn expected_size() -> (r: Option<usize>)
        ensures
            r == Some(0usize),
    {
        Some(0)
    }
}

} // verus!
