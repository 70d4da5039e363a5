//! The command and message queues that are shared with the GSP.
//!
//! Each queue is a ring of pages. The driver writes commands into the ring of the CPU
//! queue, and the GSP writes messages into the ring of the GSP queue. A read or write
//! pointer is the number of a page.

use vstd::prelude::*;

use crate::bytes::{le32, lemma_le32_of_get, lemma_splice, splice, zeros};
use crate::bytes::{put_bytes, u32_at};
use crate::error::Error;
use crate::gsp::checksum::{xor_sum, xor_sum_at, Checksum};
use crate::gsp::ring::{
    advanced_ptr, area_after, area_before, circular, filled, in_driver_area,
    lemma_driver_area_size, lemma_filled, lemma_filled_is_placed, lemma_message_parts,
    lemma_message_tail, lemma_new_header, lemma_parts_of_header, lemma_placed_parts,
    lemma_read_drains, lemma_read_overruns, lemma_sent_bytes, lemma_write_fills, placed,
    unread_pages, MSGQ_DATA_SIZE, MSGQ_NUM_PAGES,
};
use crate::gsp::{create_pte_array, pte_bytes, GSP_PAGE_SIZE};
use crate::nvfw;
use crate::nvfw::{
    pages_of, GspMsgElement, GspRpcHeader, MSG_CHECKSUM_OFFSET, MSG_ELEMENT_SIZE,
    NV_VGPU_MSG_SIGNATURE_VALID, RPC_HEADER_SIZE,
};
use crate::sbuffer::SBuffer;
use crate::util::{wait_on, wait_turn, WaitStep};

verus! {

/// A command that the driver sends to the GSP.
///
/// What [`Self::function`] and [`Self::size`] are is left open here; a command states it.
pub trait GspCommandToGsp: Sized {
    /// The function that the command calls.
    open spec fn function() -> u32 {
        arbitrary()
    }

    /// The size of the command in a queue.
    open spec fn size() -> nat {
        arbitrary()
    }

    /// Returns [`Self::function`].
    fn function_code() -> (r: u32)
        ensures
            r == Self::function(),
    ;

    /// Returns [`Self::size`].
    fn size_of() -> (r: usize)
        ensures
            r == Self::size(),
    ;
}

/// A message that the GSP sends to the driver.
///
/// What [`Self::function`] and [`Self::size`] are is left open here; a message states it.
pub trait GspMessageFromGsp: Sized {
    /// The function that the message answers or the event that it reports.
    open spec fn function() -> u32 {
        arbitrary()
    }

    /// The size of the message in a queue.
    open spec fn size() -> nat {
        arbitrary()
    }

    /// Returns [`Self::function`].
    fn function_code() -> (r: u32)
        ensures
            r == Self::function(),
    ;

    /// Returns [`Self::size`].
    fn size_of() -> (r: usize)
        ensures
            r == Self::size(),
    ;
}

/// Offset of the pages in a [`Msgq`].
pub const MSGQ_DATA_OFFSET: u64 = 0x1000;

/// Offset of the read pointer in a [`Msgq`].
pub const MSGQ_RX_HDR_OFFSET: u32 = 32;

/// Size of a [`Msgq`].
pub const MSGQ_SIZE: u32 = 0x4_0000;

/// Offset of the CPU queue in a [`GspMem`].
pub const CPUQ_OFFSET: u64 = 0x1000;

/// Offset of the GSP queue in a [`GspMem`].
pub const GSPQ_OFFSET: u64 = 0x4_1000;

/// Size of a [`GspMem`].
pub const GSP_MEM_SIZE: usize = 0x8_1000;

/// The address that is written to the queue head register after a command.
pub const QUEUE_HEAD_ADDRESS: u32 = 0;

/// The pages of a queue, one after the other.
pub struct MsgqData {
    /// The bytes of the pages.
    pub data: Vec<u8>,
}

impl MsgqData {
    /// There are [`MSGQ_NUM_PAGES`] pages.
    pub open spec fn inv(&self) -> bool {
        self.data@.len() == MSGQ_DATA_SIZE
    }
}

/// TX header for setting up a command queue with the GSP.
#[derive(Clone, Copy, Debug, PartialEq, Eq, Structural)]
pub struct MsgqTxHeader {
    /// The header.
    pub header: nvfw::MsgqTxHeader,
}

impl MsgqTxHeader {
    /// [`Self::write_ptr`] is guaranteed to return a value in the range `0..NUM_PAGES`.
    pub open spec fn inv(&self) -> bool {
        self.header.write_ptr < MSGQ_NUM_PAGES
    }

    /// Describes an empty queue.
    pub fn new(msgq_size: u32, rx_hdr_offset: u32) -> (r: Self)
        ensures
            r.inv(),
            r.header == (nvfw::MsgqTxHeader {
                version: 0,
                size: msgq_size,
                msg_size: GSP_PAGE_SIZE as u32,
                msg_count: MSGQ_NUM_PAGES,
                write_ptr: 0,
                flags: 1,
                rx_hdr_off: rx_hdr_offset,
                entry_off: GSP_PAGE_SIZE as u32,
            }),
    {
        MsgqTxHeader { header: nvfw::MsgqTxHeader::new(msgq_size, MSGQ_NUM_PAGES, rx_hdr_offset) }
    }

    /// Returns the page that is written next.
    pub fn write_ptr(&self) -> (r: u32)
        ensures
            r == self.header.write_ptr,
    {
        self.header.write_ptr()
    }

    /// Advance the write pointer by `elem_count` units, wrapping around the ring buffer if
    /// necessary.
    pub fn advance_write_ptr(&mut self, elem_count: u32)
        ensures
            final(self).inv(),
            *final(self) == (MsgqTxHeader {
                header: nvfw::MsgqTxHeader {
                    write_ptr: advanced_ptr(old(self).header.write_ptr, elem_count),
                    ..old(self).header
                },
            }),
    {
        let wptr: u32 = self.write_ptr().wrapping_add(elem_count) % MSGQ_NUM_PAGES;
        self.header.set_write_ptr(wptr);
    }
}

/// RX header for setting up a message queue with the GSP.
#[derive(Clone, Copy, Debug, PartialEq, Eq, Structural)]
pub struct MsgqRxHeader {
    /// The header.
    pub header: nvfw::MsgqRxHeader,
}

impl MsgqRxHeader {
    /// [`Self::read_ptr`] is guaranteed to return a value in the range `0..NUM_PAGES`.
    pub open spec fn inv(&self) -> bool {
        self.header.read_ptr < MSGQ_NUM_PAGES
    }

    /// Nothing has been read.
    pub fn new() -> (r: Self)
        ensures
            r.inv(),
            r.header.read_ptr == 0,
    {
        MsgqRxHeader { header: nvfw::MsgqRxHeader::new() }
    }

    /// Returns the page that is read next.
    pub fn read_ptr(&self) -> (r: u32)
        ensures
            r == self.header.read_ptr,
    {
        self.header.read_ptr()
    }

    /// Advance the read pointer by `elem_count` units, wrapping around the ring buffer if
    /// necessary.
    pub fn advance_read_ptr(&mut self, elem_count: u32)
        ensures
            final(self).inv(),
            final(self).header.read_ptr == advanced_ptr(old(self).header.read_ptr, elem_count),
    {
        let rptr: u32 = self.read_ptr().wrapping_add(elem_count) % MSGQ_NUM_PAGES;
        self.header.set_read_ptr(rptr);
    }
}

/// A queue. The side that writes it owns the pages and the write pointer; the read
/// pointer next to them belongs to the other queue.
pub struct Msgq {
    /// How far this queue has been written.
    pub tx: MsgqTxHeader,
    /// How far the owner of this queue has read the other one.
    pub rx: MsgqRxHeader,
    /// The pages of this queue.
    pub msgq: MsgqData,
}

impl Msgq {
    /// The parts of the queue are valid.
    pub open spec fn inv(&self) -> bool {
        &&& self.tx.inv()
        &&& self.rx.inv()
        &&& self.msgq.inv()
    }
}

/// The memory that is shared with the GSP.
pub struct GspMem {
    /// The page table that maps this memory.
    pub ptes: Vec<u8>,
    /// The queue that the driver writes.
    pub cpuq: Msgq,
    /// The queue that the GSP writes.
    pub gspq: Msgq,
}

impl GspMem {
    /// The parts of the memory are valid.
    pub open spec fn inv(&self) -> bool {
        &&& self.ptes@.len() == GSP_PAGE_SIZE
        &&& self.cpuq.inv()
        &&& self.gspq.inv()
    }
}

/// `GspMem` struct that is shared with the GSP.
pub struct DmaGspMem {
    /// The address under which the GSP sees the memory.
    pub dma_handle: u64,
    /// The memory.
    pub mem: GspMem,
}

/// Returns `n` zero bytes.
fn zeroed(n: usize) -> (r: Vec<u8>)
    ensures
        r@ == zeros(n as nat),
{
    let mut r: Vec<u8> = Vec::new();
    while r.len() < n
        invariant
            r@.len() <= n,
            forall|i: int| 0 <= i < r@.len() ==> r@[i] == 0,
        decreases n - r@.len(),
    {
        r.push(0);
    }
    assert(r@ =~= zeros(n as nat));
    r
}

impl DmaGspMem {
    /// The memory is valid.
    pub open spec fn inv(&self) -> bool {
        self.mem.inv()
    }

    /// The memory is as it is after it was set up at the address `dma_handle`: the page table
    /// maps it, the headers of the CPU queue describe an empty queue, and the rest is zero.
    pub open spec fn is_fresh(&self, dma_handle: u64) -> bool {
        &&& self.inv()
        &&& self.dma_handle == dma_handle
        &&& self.mem.ptes@ == splice(
            zeros(GSP_PAGE_SIZE as nat),
            0,
            pte_bytes(dma_handle, 129),
        )
        &&& self.mem.cpuq.tx.header == (nvfw::MsgqTxHeader {
            version: 0,
            size: MSGQ_SIZE,
            msg_size: GSP_PAGE_SIZE as u32,
            msg_count: MSGQ_NUM_PAGES,
            write_ptr: 0,
            flags: 1,
            rx_hdr_off: MSGQ_RX_HDR_OFFSET,
            entry_off: GSP_PAGE_SIZE as u32,
        })
        &&& self.mem.cpuq.rx.header.read_ptr == 0
        &&& self.mem.gspq.tx.header == (nvfw::MsgqTxHeader {
            version: 0,
            size: 0,
            msg_size: 0,
            msg_count: 0,
            write_ptr: 0,
            flags: 0,
            rx_hdr_off: 0,
            entry_off: 0,
        })
        &&& self.mem.gspq.rx.header.read_ptr == 0
        &&& self.mem.cpuq.msgq.data@ == zeros(MSGQ_DATA_SIZE as nat)
        &&& self.mem.gspq.msgq.data@ == zeros(MSGQ_DATA_SIZE as nat)
    }

    /// Sets up the shared memory, which the GSP sees under the address `dma_handle`: the
    /// page table, and the headers of the CPU queue. The rest is zero.
    pub fn new(dma_handle: u64) -> (r: Self)
        requires
            dma_handle + 128 * GSP_PAGE_SIZE <= u64::MAX,
        ensures
            r.is_fresh(dma_handle),
    {
        let mut ptes = zeroed(GSP_PAGE_SIZE);
        assert(pages_of(GSP_MEM_SIZE as int) == 129);
        create_pte_array(ptes.as_mut_slice(), GSP_MEM_SIZE, dma_handle, 0);
        assert(ptes@.len() == GSP_PAGE_SIZE);
        DmaGspMem {
            dma_handle,
            mem: GspMem {
                ptes,
                cpuq: Msgq {
                    tx: MsgqTxHeader::new(MSGQ_SIZE, MSGQ_RX_HDR_OFFSET),
                    rx: MsgqRxHeader::new(),
                    msgq: MsgqData { data: zeroed(MSGQ_DATA_SIZE) },
                },
                gspq: Msgq {
                    tx: MsgqTxHeader {
                        header: nvfw::MsgqTxHeader {
                            version: 0,
                            size: 0,
                            msg_size: 0,
                            msg_count: 0,
                            write_ptr: 0,
                            flags: 0,
                            rx_hdr_off: 0,
                            entry_off: 0,
                        },
                    },
                    rx: MsgqRxHeader::new(),
                    msgq: MsgqData { data: zeroed(MSGQ_DATA_SIZE) },
                },
            },
        }
    }

    /// Returns the address under which the GSP sees the memory.
    pub fn dma_handle(&self) -> (r: u64)
        ensures
            r == self.dma_handle,
    {
        self.dma_handle
    }

    /// Returns the memory.
    pub fn access_mut(&mut self) -> (r: &mut GspMem)
        ensures
            *r == old(self).mem,
            *final(self) == (DmaGspMem { mem: *final(r), ..*old(self) }),
    {
        &mut self.mem
    }

    /// The page that the driver writes next.
    pub open spec fn tx(&self) -> int {
        self.mem.cpuq.tx.header.write_ptr as int
    }

    /// The page of the CPU queue that the GSP reads next.
    pub open spec fn rx(&self) -> int {
        self.mem.gspq.rx.header.read_ptr as int
    }

    /// The number of bytes that belong to the driver from its write pointer on.
    pub open spec fn len_1(&self) -> int {
        area_after(self.tx(), self.rx()) * GSP_PAGE_SIZE
    }

    /// The number of bytes that belong to the driver from the start of the ring on.
    pub open spec fn len_2(&self) -> int {
        area_before(self.tx(), self.rx()) * GSP_PAGE_SIZE
    }

    /// Returns the numbers of pages that belong to the driver, from its write pointer on
    /// and from the start of the ring on.
    pub fn driver_area_pages(&self) -> (r: (usize, usize))
        requires
            self.inv(),
        ensures
            r.0 == area_after(self.tx(), self.rx()),
            r.1 == area_before(self.tx(), self.rx()),
            r.0 + r.1 <= MSGQ_NUM_PAGES,
            self.tx() + r.0 <= MSGQ_NUM_PAGES,
    {
        let tx: usize = self.mem.cpuq.tx.write_ptr() as usize;
        let rx: usize = self.mem.gspq.rx.read_ptr() as usize;
        if rx <= tx {
            // The area from `tx` up to the end of the ring, and from the beginning of the
            // ring up to `rx`, minus one unit, belongs to the driver.
            if rx == 0 {
                (MSGQ_NUM_PAGES as usize - tx - 1, 0)
            } else {
                (MSGQ_NUM_PAGES as usize - tx, rx - 1)
            }
        } else {
            // The area from `tx` to `rx`, minus one unit, belongs to the driver.
            (rx - tx - 1, 0)
        }
    }

    /// Returns the pages of the CPU queue that belong to the driver, from its write pointer
    /// on and from the start of the ring on.
    pub fn driver_write_area(&mut self) -> (r: (&mut [u8], &mut [u8]))
        requires
            old(self).inv(),
        ensures
            r.0@ == old(self).mem.cpuq.msgq.data@.subrange(
                old(self).tx() * GSP_PAGE_SIZE,
                old(self).tx() * GSP_PAGE_SIZE + old(self).len_1(),
            ),
            r.1@ == old(self).mem.cpuq.msgq.data@.take(old(self).len_2()),
            final(self).dma_handle == old(self).dma_handle,
            final(self).mem.ptes == old(self).mem.ptes,
            final(self).mem.gspq == old(self).mem.gspq,
            final(self).mem.cpuq.tx == old(self).mem.cpuq.tx,
            final(self).mem.cpuq.rx == old(self).mem.cpuq.rx,
            final(self).mem.cpuq.msgq.data@ == final(r.1)@
                + old(self).mem.cpuq.msgq.data@.subrange(
                old(self).len_2(),
                old(self).tx() * GSP_PAGE_SIZE,
            ) + final(r.0)@ + old(self).mem.cpuq.msgq.data@.skip(
                old(self).tx() * GSP_PAGE_SIZE + old(self).len_1(),
            ),
    {
        let (n_1, n_2) = self.driver_area_pages();
        let tx: usize = self.mem.cpuq.tx.write_ptr() as usize;
        let gsp_mem = self.access_mut();
        let (before_tx, after_tx) = gsp_mem.cpuq.msgq.data.as_mut_slice().split_at_mut(
            tx * GSP_PAGE_SIZE,
        );
        let (area_1, _) = after_tx.split_at_mut(n_1 * GSP_PAGE_SIZE);
        let (area_2, _) = before_tx.split_at_mut(n_2 * GSP_PAGE_SIZE);
        (area_1, area_2)
    }

    /// Inform the GSP that it can process `elem_count` new pages from the command queue.
    pub fn advance_write_ptr(&mut self, elem_count: u32)
        ensures
            *final(self) == (DmaGspMem {
                mem: GspMem {
                    cpuq: Msgq {
                        tx: MsgqTxHeader {
                            header: nvfw::MsgqTxHeader {
                                write_ptr: advanced_ptr(
                                    old(self).mem.cpuq.tx.header.write_ptr,
                                    elem_count,
                                ),
                                ..old(self).mem.cpuq.tx.header
                            },
                        },
                        ..old(self).mem.cpuq
                    },
                    ..old(self).mem
                },
                ..*old(self)
            }),
    {
        self.access_mut().cpuq.tx.advance_write_ptr(elem_count);
    }

    /// Inform the GSP that it can send `elem_count` new pages into the message queue.
    pub fn advance_read_ptr(&mut self, elem_count: u32)
        ensures
            *final(self) == (DmaGspMem {
                mem: GspMem {
                    cpuq: Msgq {
                        rx: MsgqRxHeader {
                            header: nvfw::MsgqRxHeader {
                                read_ptr: advanced_ptr(
                                    old(self).mem.cpuq.rx.header.read_ptr,
                                    elem_count,
                                ),
                            },
                        },
                        ..old(self).mem.cpuq
                    },
                    ..old(self).mem
                },
                ..*old(self)
            }),
    {
        self.access_mut().cpuq.rx.advance_read_ptr(elem_count);
    }
}

/// Returns the size of `pages` pages.
fn bytes_of_pages(pages: u32) -> (r: u32)
    requires
        pages <= MSGQ_NUM_PAGES,
    ensures
        r == pages * GSP_PAGE_SIZE,
        r == pages * 4096,
{
    pages * 4096
}

/// The queues, and what the driver knows about them.
pub struct GspCmdq {
    /// Number of pages of a queue.
    pub msg_count: u32,
    /// Sequence number of the next command.
    pub seq: u32,
    /// The memory that is shared with the GSP.
    pub gsp_mem: DmaGspMem,
    /// Number of entries of the page table of the shared memory.
    pub nr_ptes: u32,
}

/// The total size of the message with the header `rpc`, including its headers and
/// payload.
pub open spec fn message_size(rpc: GspRpcHeader) -> int {
    MSG_ELEMENT_SIZE - RPC_HEADER_SIZE + rpc.length
}

impl GspCmdq {
    /// The queues are valid, and the numbers match them.
    pub open spec fn inv(&self) -> bool {
        &&& self.msg_count == MSGQ_NUM_PAGES
        &&& self.nr_ptes == 129
        &&& self.gsp_mem.inv()
    }

    /// The page of the GSP queue that the driver reads next.
    pub open spec fn rptr(&self) -> int {
        self.gsp_mem.mem.cpuq.rx.header.read_ptr as int
    }

    /// The number of pages of the GSP queue that the driver has not read.
    pub open spec fn used(&self) -> int {
        unread_pages(self.gsp_mem.mem.gspq.tx.header.write_ptr as int, self.rptr())
    }

    /// The bytes of the GSP queue.
    pub open spec fn inbox(&self) -> Seq<u8> {
        self.gsp_mem.mem.gspq.msgq.data@
    }

    /// The bytes of the CPU queue.
    pub open spec fn outbox(&self) -> Seq<u8> {
        self.gsp_mem.mem.cpuq.msgq.data@
    }

    /// The header of the call of the message that the driver reads next.
    pub open spec fn incoming(&self) -> GspRpcHeader {
        GspRpcHeader::read(self.inbox(), self.rptr() * GSP_PAGE_SIZE + 48)
    }

    /// The bytes of the message that the driver reads next, its headers included.
    pub open spec fn incoming_bytes(&self) -> Seq<u8> {
        circular(self.inbox(), self.rptr() * GSP_PAGE_SIZE, message_size(self.incoming()))
    }

    /// All of the message that the driver reads next has been written.
    pub open spec fn available(&self) -> bool {
        &&& self.used() >= 1
        &&& self.used() * GSP_PAGE_SIZE >= message_size(self.incoming())
    }

    /// Whether the next message can be received, and the error if not: there is none, it
    /// is too large for the queue, not all of it has been written, or it is damaged.
    pub open spec fn receive_outcome(&self) -> Result<(), Error> {
        if self.used() < 1 {
            Err(Error::EAGAIN)
        } else if self.incoming().length >= MSGQ_DATA_SIZE {
            Err(Error::E2BIG)
        } else if self.used() * GSP_PAGE_SIZE < message_size(self.incoming()) {
            Err(Error::EAGAIN)
        } else if xor_sum(self.incoming_bytes()) != 0 {
            Err(Error::EIO)
        } else {
            Ok(())
        }
    }

    /// Nothing but the pages of the CPU queue and the next sequence number differs.
    pub open spec fn same_but_outbox(&self, other: &Self) -> bool {
        &&& self.msg_count == other.msg_count
        &&& self.nr_ptes == other.nr_ptes
        &&& self.gsp_mem.dma_handle == other.gsp_mem.dma_handle
        &&& self.gsp_mem.mem.ptes == other.gsp_mem.mem.ptes
        &&& self.gsp_mem.mem.gspq == other.gsp_mem.mem.gspq
        &&& self.gsp_mem.mem.cpuq.tx == other.gsp_mem.mem.cpuq.tx
        &&& self.gsp_mem.mem.cpuq.rx == other.gsp_mem.mem.cpuq.rx
    }

    /// The queues are as they are after they were set up in memory that the GSP sees under
    /// the address `dma_handle`.
    pub open spec fn is_fresh(&self, dma_handle: u64) -> bool {
        &&& self.inv()
        &&& self.seq == 0
        &&& self.gsp_mem.is_fresh(dma_handle)
    }

    /// Sets up the queues in memory that the GSP sees under the address `dma_handle`.
    pub fn new(dma_handle: u64) -> (r: Self)
        requires
            dma_handle + 128 * GSP_PAGE_SIZE <= u64::MAX,
        ensures
            r.is_fresh(dma_handle),
    {
        let gsp_mem = DmaGspMem::new(dma_handle);
        let nr_ptes: u32 = (GSP_MEM_SIZE / GSP_PAGE_SIZE) as u32;
        let msg_count: u32 = (MSGQ_SIZE - GSP_PAGE_SIZE as u32) / GSP_PAGE_SIZE as u32;
        GspCmdq { msg_count, seq: 0, gsp_mem, nr_ptes }
    }

    /// Returns the page of the GSP queue that the driver reads next.
    pub fn cpu_rptr(&self) -> (r: u32)
        ensures
            r == self.rptr(),
    {
        self.gsp_mem.mem.cpuq.rx.read_ptr()
    }

    /// Returns the page of the GSP queue that the GSP writes next.
    pub fn gsp_wptr(&self) -> (r: u32)
        ensures
            r == self.gsp_mem.mem.gspq.tx.header.write_ptr,
    {
        self.gsp_mem.mem.gspq.tx.write_ptr()
    }

    /// Returns the number of pages the GSP has written to the queue.
    pub fn used_rx_pages(&self) -> (r: u32)
        requires
            self.inv(),
        ensures
            r == self.used(),
            r < MSGQ_NUM_PAGES,
    {
        let rptr: u32 = self.cpu_rptr();
        let wptr: u32 = self.gsp_wptr();
        let mut used: u32 = wptr + self.msg_count - rptr;
        if used >= self.msg_count {
            used = used - self.msg_count;
        }
        used
    }

    /// Returns the checksum of the bytes of three slices, taken one after the other.
    pub fn calculate_checksum(first: &[u8], second: &[u8], third: &[u8]) -> (r: u32)
        ensures
            r == xor_sum(first@ + second@ + third@),
    {
        let mut sum = Checksum::new();
        sum.update(first, Ghost(Seq::empty()));
        assert(Seq::<u8>::empty() + first@ =~= first@);
        sum.update(second, Ghost(first@));
        sum.update(third, Ghost(first@ + second@));
        sum.finish()
    }

    /// Returns the length of the call of the message that the driver reads next, if the
    /// GSP has written a page.
    pub fn pending_rpc_length(&self) -> (r: Option<u32>)
        requires
            self.inv(),
        ensures
            r == (if self.used() >= 1 {
                Some(self.incoming().length)
            } else {
                None
            }),
    {
        if self.used_rx_pages() < 1 {
            return None;
        }
        let rptr: usize = self.cpu_rptr() as usize;
        proof {
            GspRpcHeader::lemma_read_length(self.inbox(), rptr * GSP_PAGE_SIZE + 48);
        }
        Some(u32_at(self.gsp_mem.mem.gspq.msgq.data.as_slice(), rptr * GSP_PAGE_SIZE + 56))
    }

    /// Returns the header of the message that the driver reads next.
    fn front_element(&self) -> (r: Option<GspMsgElement>)
        requires
            self.inv(),
        ensures
            r is Some,
            r->0.inv(),
            r->0.rpc == self.incoming(),
            r->0.image() == self.inbox().subrange(
                self.rptr() * GSP_PAGE_SIZE,
                self.rptr() * GSP_PAGE_SIZE + MSG_ELEMENT_SIZE,
            ),
    {
        let start: usize = self.cpu_rptr() as usize * GSP_PAGE_SIZE;
        let page = self.gsp_mem.mem.gspq.msgq.data.as_slice().split_at(start).1;
        let header = page.split_at(MSG_ELEMENT_SIZE).0;
        proof {
            GspRpcHeader::lemma_read_part(
                self.inbox(),
                start as int,
                start + MSG_ELEMENT_SIZE,
                48,
            );
            assert(header@ =~= self.inbox().subrange(start as int, start + MSG_ELEMENT_SIZE));
        }
        GspMsgElement::from_bytes(header)
    }

    /// Returns whether all of a message from the GSP has arrived.
    pub fn msg_from_gsp_available(&self) -> (r: bool)
        requires
            self.inv(),
        ensures
            r == self.available(),
    {
        // Used pages contains the total number of pages available to consume
        let used_pages: u32 = self.used_rx_pages();
        if used_pages < 1 {
            return false;
        }
        let written: u64 = bytes_of_pages(used_pages) as u64;
        match self.front_element() {
            // Not all pages of the message have made it to the queue so bail and let the
            // caller retry. Note rpc.length includes the rpc header size but not the
            // message header size.
            Some(msg_element) => written >= msg_element.length(),
            None => false,
        }
    }

    /// One turn of waiting for a message from the GSP, `elapsed` nanoseconds after the wait
    /// began.
    pub fn wait_for_msg_from_gsp(&self, timeout: i64, elapsed: i64) -> (r: WaitStep<()>)
        requires
            self.inv(),
        ensures
            r == wait_turn(
                timeout as int,
                if self.available() {
                    Some(())
                } else {
                    None
                },
                elapsed as int,
            ),
    {
        let polled: Option<()> = if self.msg_from_gsp_available() {
            Some(())
        } else {
            None
        };
        wait_on(timeout, polled, elapsed)
    }

    /// Returns the address of the shared memory, and the offsets of the pages of the CPU
    /// and GSP queues from the CPU queue.
    pub fn get_cmdq_offsets(&self) -> (r: (u64, u64, u64))
        ensures
            r.0 == self.gsp_mem.dma_handle,
            r.1 == MSGQ_DATA_OFFSET,
            r.2 == GSPQ_OFFSET - CPUQ_OFFSET + MSGQ_DATA_OFFSET,
    {
        (
            self.gsp_mem.dma_handle(),
            MSGQ_DATA_OFFSET,
            GSPQ_OFFSET - CPUQ_OFFSET + MSGQ_DATA_OFFSET,
        )
    }

    /// Hands the pages of a message back to the GSP. `length` is the length of its call.
    ///
    /// The header of the call is part of `length` and of the header of the message, and is
    /// counted with both. Where the last page of the message has less room left than that
    /// header takes, one page more is handed back than the message has, though the GSP may
    /// not have written that page: see [`lemma_ack_overruns_message`].
    pub fn ack_msg(&mut self, length: u32) -> (r: Result<(), Error>)
        requires
            MSG_ELEMENT_SIZE + length <= u32::MAX,
        ensures
            r == Ok::<(), Error>(()),
            *final(self) == acked(*old(self), length),
    {
        let size: u32 = MSG_ELEMENT_SIZE as u32 + length;
        let num_elems: u32 = if size % GSP_PAGE_SIZE as u32 == 0 {
            size / GSP_PAGE_SIZE as u32
        } else {
            size / GSP_PAGE_SIZE as u32 + 1
        };
        assert(num_elems == pages_of(size as int));
        self.gsp_mem.advance_read_ptr(num_elems);
        Ok(())
    }

    /// Receives the next message from the GSP.
    ///
    /// The message stays in the queue until it is acknowledged.
    #[verifier::rlimit(40)]
    pub fn receive_msg_from_gsp<'a>(&'a mut self) -> (r: Result<GspQueueMessage<'a>, Error>)
        requires
            old(self).inv(),
            // A call is at least as long as its header.
            old(self).used() >= 1 ==> old(self).incoming().length >= RPC_HEADER_SIZE,
        ensures
            r is Ok <==> old(self).receive_outcome() is Ok,
            r is Err ==> r->Err_0 == old(self).receive_outcome()->Err_0,
            r is Err ==> *final(self) == *old(self),
            r is Ok ==> {
                &&& r->Ok_0.inv()
                &&& *r->Ok_0.cmdq == *old(self)
                &&& *final(r->Ok_0.cmdq) == *final(self)
                &&& r->Ok_0.rpc_header == old(self).incoming()
                &&& r->Ok_0.bytes_1() + r->Ok_0.bytes_2() == old(self).incoming_bytes().skip(
                    MSG_ELEMENT_SIZE as int,
                )
                &&& r->Ok_0.len_2 is None <==> message_size(old(self).incoming())
                    < old(self).contiguous()
                &&& r->Ok_0.len_1 == (if r->Ok_0.len_2 is None {
                    message_size(old(self).incoming()) - MSG_ELEMENT_SIZE
                } else {
                    old(self).contiguous() - MSG_ELEMENT_SIZE
                })
            },
    {
        // Used pages contains the total number of pages available to consume
        let used_pages: u32 = self.used_rx_pages();
        if used_pages < 1 {
            return Err(Error::EAGAIN);
        }
        let rptr: u32 = self.cpu_rptr();
        // Remaining number of bytes left before we have to wrap
        let remaining_pages: u32 = if rptr + used_pages > self.msg_count {
            self.msg_count - rptr
        } else {
            used_pages
        };
        let remaining: u32 = bytes_of_pages(remaining_pages);
        let start: usize = rptr as usize * GSP_PAGE_SIZE;
        let msg_element = match self.front_element() {
            Some(msg_element) => msg_element,
            None => {
                return Err(Error::EINVAL);
            },
        };
        let rpc_header: GspRpcHeader = *msg_element.rpc_header();
        if rpc_header.length() >= bytes_of_pages(self.msg_count) {
            return Err(Error::E2BIG);
        }
        // rpc.length includes the size of the GspRpcHeader. Remove it to make the rest of
        // the code a bit easier to follow.
        let rpc_data_length: u32 = rpc_header.length() - RPC_HEADER_SIZE as u32;
        let size: u32 = MSG_ELEMENT_SIZE as u32 + rpc_data_length;
        // Should never happen if the message was waited for but we need to check.
        if bytes_of_pages(used_pages) < size {
            return Err(Error::EAGAIN);
        }
        let (len_1, len_2): (usize, Option<usize>) = if size < remaining {
            (rpc_data_length as usize, None)
        } else {
            let len_1: usize = remaining as usize - MSG_ELEMENT_SIZE;
            (len_1, Some(rpc_data_length as usize - len_1))
        };
        let rest: usize = match len_2 {
            Some(n) => n,
            None => 0,
        };
        proof {
            lemma_message_parts(self.inbox(), start as int, len_1 as int, rest as int);
        }
        let ring = self.gsp_mem.mem.gspq.msgq.data.as_slice();
        let slice_1 = ring.split_at(start + MSG_ELEMENT_SIZE).1.split_at(len_1).0;
        let slice_2 = ring.split_at(rest).0;
        assert(slice_1@ =~= ring@.subrange(
            start + MSG_ELEMENT_SIZE,
            start + MSG_ELEMENT_SIZE + len_1,
        ));
        assert(slice_2@ =~= ring@.take(rest as int));
        let header = msg_element.to_bytes();
        if GspCmdq::calculate_checksum(header.as_slice(), slice_1, slice_2) != 0 {
            return Err(Error::EIO);
        }
        Ok(
            GspQueueMessage {
                cmdq: self,
                rpc_header,
                start: start + MSG_ELEMENT_SIZE,
                len_1,
                len_2,
            },
        )
    }

    /// Makes room for a command with `cmd_size` bytes of arguments, and writes its header.
    ///
    /// Fails with [`Error::EAGAIN`] if the command needs more pages than belong to the
    /// driver.
    #[verifier::rlimit(40)]
    pub fn alloc_gsp_queue_command<'a>(&'a mut self, cmd_size: usize) -> (r: Result<
        GspQueueCommand<'a>,
        Error,
    >)
        requires
            old(self).inv(),
            MSG_ELEMENT_SIZE + cmd_size <= usize::MAX,
            // The sequence number of the next command fits.
            pages_of(MSG_ELEMENT_SIZE + cmd_size) <= old(self).free_pages() ==> old(self).seq
                < u32::MAX,
        ensures
            r is Ok <==> pages_of(MSG_ELEMENT_SIZE + cmd_size) <= old(self).free_pages(),
            r is Err ==> r->Err_0 == Error::EAGAIN,
            r is Err ==> *final(self) == *old(self),
            r is Ok ==> {
                &&& r->Ok_0.inv()
                &&& *final(r->Ok_0.cmdq) == *final(self)
                &&& r->Ok_0.cmdq.same_but_outbox(old(self))
                &&& r->Ok_0.cmdq.seq == old(self).seq + 1
                &&& r->Ok_0.cmdq.outbox() == splice(
                    old(self).outbox(),
                    old(self).gsp_mem.tx() * GSP_PAGE_SIZE,
                    r->Ok_0.msg_element.image(),
                )
                &&& r->Ok_0.msg_element.auth@ == zeros(32)
                &&& r->Ok_0.msg_element.checksum == 0
                &&& r->Ok_0.msg_element.seq_num == old(self).seq
                &&& r->Ok_0.msg_element.elem_count == pages_of(MSG_ELEMENT_SIZE + cmd_size)
                &&& r->Ok_0.msg_element.padding == 0
                &&& r->Ok_0.msg_element.rpc == command_rpc(0, cmd_size as int)
                &&& r->Ok_0.len_1 == old(self).gsp_mem.len_1()
                &&& r->Ok_0.len_2 == old(self).gsp_mem.len_2()
            },
    {
        let msg_size: usize = MSG_ELEMENT_SIZE + cmd_size;
        let (pages_1, pages_2) = self.gsp_mem.driver_area_pages();
        let free_tx_pages: usize = pages_1 + pages_2;
        let needed: usize = if msg_size % GSP_PAGE_SIZE == 0 {
            msg_size / GSP_PAGE_SIZE
        } else {
            msg_size / GSP_PAGE_SIZE + 1
        };
        assert(needed == pages_of(msg_size as int));
        if free_tx_pages < needed {
            return Err(Error::EAGAIN);
        }
        proof {
            lemma_driver_area_size(self.gsp_mem.tx(), self.gsp_mem.rx());
        }
        let msg_element = GspMsgElement::new(self.seq, cmd_size, 0);
        assert(msg_element.auth@ =~= zeros(32));
        self.seq = self.seq + 1;
        let mut cmd = GspQueueCommand {
            cmdq: self,
            msg_element,
            len_1: pages_1 * GSP_PAGE_SIZE,
            len_2: pages_2 * GSP_PAGE_SIZE,
        };
        cmd.store_element();
        Ok(cmd)
    }

    /// The number of pages of the CPU queue that belong to the driver.
    pub open spec fn free_pages(&self) -> int {
        area_after(self.gsp_mem.tx(), self.gsp_mem.rx()) + area_before(
            self.gsp_mem.tx(),
            self.gsp_mem.rx(),
        )
    }

    /// Completes a command and hands its pages to the GSP.
    ///
    /// Returns the address to write to the queue head register, which makes the GSP look at
    /// the queue.
    #[verifier::rlimit(40)]
    pub fn send_cmd_to_gsp(cmd: GspQueueCommand<'_>) -> (r: Result<u32, Error>)
        requires
            cmd.inv(),
        ensures
            r == Ok::<u32, Error>(0),
            handed_over(
                old(cmd.cmdq),
                final(cmd.cmdq),
                &cmd.msg_element,
                cmd.bytes_1(),
                cmd.bytes_2(),
            ),
    {
        let mut cmd = cmd;
        // Calculate checksum over the header and all that the command may use
        let checksum: u32 = {
            let start: usize = cmd.cmdq.gsp_mem.mem.cpuq.tx.write_ptr() as usize * GSP_PAGE_SIZE;
            let ring = cmd.cmdq.gsp_mem.mem.cpuq.msgq.data.as_slice();
            let slice_1 = ring.split_at(start + MSG_ELEMENT_SIZE).1.split_at(
                cmd.len_1 - MSG_ELEMENT_SIZE,
            ).0;
            let slice_2 = ring.split_at(cmd.len_2).0;
            assert(slice_1@ =~= cmd.bytes_1());
            assert(slice_2@ =~= cmd.bytes_2());
            let header = cmd.msg_element.to_bytes();
            GspCmdq::calculate_checksum(header.as_slice(), slice_1, slice_2)
        };
        let ghost before = cmd.cmdq.outbox();
        let ghost at = cmd.cmdq.gsp_mem.tx() * GSP_PAGE_SIZE;
        let ghost element = cmd.msg_element;
        cmd.msg_element.set_checksum(checksum);
        cmd.store_element();
        proof {
            element.lemma_set_checksum(&cmd.msg_element, before, at);
        }
        cmd.cmdq.gsp_mem.advance_write_ptr(cmd.msg_element.elem_count());
        Ok(QUEUE_HEAD_ADDRESS)
    }

    /// The number of bytes from the next message on that can be read without a wrap of the
    /// ring.
    pub open spec fn contiguous(&self) -> int {
        (if self.rptr() + self.used() > MSGQ_NUM_PAGES {
            MSGQ_NUM_PAGES - self.rptr()
        } else {
            self.used()
        }) * GSP_PAGE_SIZE
    }
}

/// `new` are the queues `q` after a command was handed to the GSP. `element` is its header,
/// and `part_1` and `part_2` are the rest of the part of the queue that it may use: the
/// checksum over all of that was filled in, and the write pointer is behind the pages of the
/// command.
pub open spec fn handed_over(
    q: &GspCmdq,
    new: &GspCmdq,
    element: &GspMsgElement,
    part_1: Seq<u8>,
    part_2: Seq<u8>,
) -> bool {
    &&& new.inv()
    &&& new.msg_count == q.msg_count
    &&& new.nr_ptes == q.nr_ptes
    &&& new.seq == q.seq
    &&& new.gsp_mem.dma_handle == q.gsp_mem.dma_handle
    &&& new.gsp_mem.mem.ptes == q.gsp_mem.mem.ptes
    &&& new.gsp_mem.mem.gspq == q.gsp_mem.mem.gspq
    &&& new.gsp_mem.mem.cpuq.rx == q.gsp_mem.mem.cpuq.rx
    &&& new.gsp_mem.mem.cpuq.tx.header == (nvfw::MsgqTxHeader {
        write_ptr: advanced_ptr(q.gsp_mem.mem.cpuq.tx.header.write_ptr, element.elem_count),
        ..q.gsp_mem.mem.cpuq.tx.header
    })
    &&& new.outbox() == splice(
        q.outbox(),
        q.gsp_mem.tx() * GSP_PAGE_SIZE + MSG_CHECKSUM_OFFSET,
        le32(xor_sum(element.image() + part_1 + part_2)),
    )
}

/// The queues `q` after a message whose call has the length `length` was acknowledged.
pub open spec fn acked(q: GspCmdq, length: u32) -> GspCmdq {
    GspCmdq {
        gsp_mem: DmaGspMem {
            mem: GspMem {
                cpuq: Msgq {
                    rx: MsgqRxHeader {
                        header: nvfw::MsgqRxHeader {
                            read_ptr: advanced_ptr(
                                q.gsp_mem.mem.cpuq.rx.header.read_ptr,
                                pages_of(MSG_ELEMENT_SIZE + length) as u32,
                            ),
                        },
                    },
                    ..q.gsp_mem.mem.cpuq
                },
                ..q.gsp_mem.mem
            },
            ..q.gsp_mem
        },
        ..q
    }
}

/// A reference to a message currently sitting in the GSP command queue. May contain two
/// slices as the command queue is a circular buffer which may have wrapped.
///
/// The underlying message data cannot change because the struct holds a reference to the
/// command queue which prevents command queue manipulation until the GspQueueMessage is
/// dropped.
pub struct GspQueueMessage<'a> {
    /// The queues.
    pub cmdq: &'a mut GspCmdq,
    /// The header of the call.
    pub rpc_header: GspRpcHeader,
    /// Where the payload starts in the GSP queue.
    pub start: usize,
    /// The number of bytes of the payload there.
    pub len_1: usize,
    /// The number of bytes of the payload at the start of the GSP queue.
    pub len_2: Option<usize>,
}

impl<'a> GspQueueMessage<'a> {
    /// The payload is inside the queue, and as long as the header says.
    pub open spec fn inv(&self) -> bool {
        &&& self.cmdq.inv()
        &&& self.start + self.len_1 <= MSGQ_DATA_SIZE
        &&& self.len_2 is Some ==> self.len_2->0 <= MSGQ_DATA_SIZE
        &&& self.rpc_header.length == RPC_HEADER_SIZE + self.bytes_1().len() + self.bytes_2().len()
        &&& self.rpc_header.length < MSGQ_DATA_SIZE
    }

    /// The first part of the payload.
    pub open spec fn bytes_1(&self) -> Seq<u8> {
        self.cmdq.inbox().subrange(self.start as int, self.start + self.len_1)
    }

    /// The second part of the payload.
    pub open spec fn bytes_2(&self) -> Seq<u8> {
        match self.len_2 {
            Some(n) => self.cmdq.inbox().take(n as int),
            None => Seq::empty(),
        }
    }

    /// Returns the first part of the payload.
    pub fn slice_1(&self) -> (r: &[u8])
        requires
            self.inv(),
        ensures
            r@ == self.bytes_1(),
    {
        let ring = self.cmdq.gsp_mem.mem.gspq.msgq.data.as_slice();
        let r = ring.split_at(self.start).1.split_at(self.len_1).0;
        assert(r@ =~= self.bytes_1());
        r
    }

    /// Returns the second part of the payload, if there is one.
    pub fn slice_2(&self) -> (r: Option<&[u8]>)
        requires
            self.inv(),
        ensures
            r is Some <==> self.len_2 is Some,
            r is Some ==> r->0@ == self.bytes_2(),
    {
        match self.len_2 {
            Some(n) => {
                let ring = self.cmdq.gsp_mem.mem.gspq.msgq.data.as_slice();
                Some(ring.split_at(n).0)
            },
            None => None,
        }
    }

    /// Returns the message as an `M`, and the two parts of the data that follows it if there
    /// is any, or [`Error::ERANGE`] if it is another message.
    pub fn try_as<M: GspMessageFromGsp>(&self) -> (r: Result<
        (&[u8], Option<(&[u8], &[u8])>),
        Error,
    >)
        requires
            self.inv(),
            self.rpc_header.function == M::function() ==> M::size() <= self.len_1,
        ensures
            r is Ok <==> self.rpc_header.function == M::function(),
            r is Err ==> r->Err_0 == Error::ERANGE,
            r is Ok ==> {
                &&& r->Ok_0.0@ == self.bytes_1().take(M::size() as int)
                &&& match r->Ok_0.1 {
                    Some((data, rest)) => {
                        &&& self.rpc_header.length > RPC_HEADER_SIZE + M::size()
                        &&& data@ == self.bytes_1().skip(M::size() as int)
                        &&& rest@ == self.bytes_2()
                    },
                    None => self.rpc_header.length == RPC_HEADER_SIZE + M::size(),
                }
            },
    {
        if self.rpc_header.function() != M::function_code() {
            return Err(Error::ERANGE);
        }
        let size: usize = M::size_of();
        let slice_1 = self.slice_1();
        let (msg, data) = slice_1.split_at(size);
        assert(data@ =~= self.bytes_1().skip(M::size() as int));
        let data_size: usize = self.rpc_header.length() as usize - RPC_HEADER_SIZE - size;
        if data_size > 0 {
            let rest: &[u8] = match self.slice_2() {
                Some(slice_2) => slice_2,
                None => slice_1.split_at(0).0,
            };
            assert(rest@ =~= self.bytes_2());
            Ok((msg, Some((data, rest))))
        } else {
            Ok((msg, None))
        }
    }

    /// Hands the pages of the message back to the GSP, and one page more where the last one
    /// has less room left than the header of a call takes, as [`GspCmdq::ack_msg`] does.
    pub fn ack(self) -> (r: Result<(), Error>)
        requires
            self.inv(),
        ensures
            r == Ok::<(), Error>(()),
            *final(self.cmdq) == acked(*old(self.cmdq), self.rpc_header.length),
    {
        self.cmdq.ack_msg(self.rpc_header.length())
    }
}

/// The same as [`GspQueueMessage`] except that it can be changed for constructing a
/// message to the GSP.
pub struct GspQueueCommand<'a> {
    /// The queues.
    pub cmdq: &'a mut GspCmdq,
    /// The header of the command.
    pub msg_element: GspMsgElement,
    /// The number of bytes from the write pointer of the CPU queue on that the command may
    /// use.
    pub len_1: usize,
    /// The number of bytes from the start of the CPU queue on that the command may use.
    pub len_2: usize,
}

/// Splits the part of a ring that a command may use: the first `size` bytes after the
/// header at `start`, the bytes after those, and the bytes at the start of the ring.
fn split_command<'b>(
    ring: &'b mut [u8],
    start: usize,
    len_1: usize,
    len_2: usize,
    size: usize,
) -> (r: (&'b mut [u8], &'b mut [u8], &'b mut [u8]))
    requires
        len_2 <= start,
        MSG_ELEMENT_SIZE + size <= len_1,
        start + len_1 <= old(ring)@.len(),
    ensures
        r.0@ == old(ring)@.subrange(start + MSG_ELEMENT_SIZE, start + MSG_ELEMENT_SIZE + size),
        r.1@ == old(ring)@.subrange(start + MSG_ELEMENT_SIZE + size, start + len_1),
        r.2@ == old(ring)@.take(len_2 as int),
        final(ring)@ == filled(
            old(ring)@,
            start as int,
            len_1 as int,
            len_2 as int,
            old(ring)@.subrange(start as int, start + MSG_ELEMENT_SIZE),
            final(r.0)@,
            final(r.1)@,
            final(r.2)@,
        ),
{
    let ghost before = ring@;
    let (before_tx, after_tx) = ring.split_at_mut(start);
    let (_, rest) = after_tx.split_at_mut(MSG_ELEMENT_SIZE);
    let (msg, rest) = rest.split_at_mut(size);
    let (data, _) = rest.split_at_mut(len_1 - MSG_ELEMENT_SIZE - size);
    let (wrapped, _) = before_tx.split_at_mut(len_2);
    (msg, data, wrapped)
}

impl<'a> GspQueueCommand<'a> {
    /// The header stands in the queue, and the command is inside its part of it.
    pub open spec fn inv(&self) -> bool {
        &&& self.shape()
        &&& self.cmdq.outbox().subrange(
            self.at(),
            self.at() + MSG_ELEMENT_SIZE,
        ) == self.msg_element.image()
    }

    /// The command is inside its part of the queue.
    pub open spec fn shape(&self) -> bool {
        &&& self.cmdq.inv()
        &&& self.msg_element.inv()
        &&& self.msg_element.rpc.length >= RPC_HEADER_SIZE
        &&& message_size(self.msg_element.rpc) <= self.len_1 + self.len_2
        &&& MSG_ELEMENT_SIZE <= self.len_1
        &&& self.at() + self.len_1 <= MSGQ_DATA_SIZE
        &&& self.len_2 <= self.at()
        &&& self.len_2 > 0 ==> self.at() + self.len_1 == MSGQ_DATA_SIZE
    }

    /// Where the command starts in the queue.
    pub open spec fn at(&self) -> int {
        self.cmdq.gsp_mem.tx() * GSP_PAGE_SIZE
    }

    /// The part of the queue after the header of the command, up to the end of the ring.
    pub open spec fn bytes_1(&self) -> Seq<u8> {
        self.cmdq.outbox().subrange(self.at() + MSG_ELEMENT_SIZE, self.at() + self.len_1)
    }

    /// The part of the queue from the start of the ring on.
    pub open spec fn bytes_2(&self) -> Seq<u8> {
        self.cmdq.outbox().take(self.len_2 as int)
    }

    /// Writes the header of the command to the queue.
    fn store_element(&mut self)
        requires
            old(self).shape(),
        ensures
            final(self).inv(),
            *final(final(self).cmdq) == *final(old(self).cmdq),
            final(self).cmdq.same_but_outbox(old(self).cmdq),
            final(self).cmdq.seq == old(self).cmdq.seq,
            final(self).msg_element == old(self).msg_element,
            final(self).len_1 == old(self).len_1,
            final(self).len_2 == old(self).len_2,
            final(self).cmdq.outbox() == splice(
                old(self).cmdq.outbox(),
                old(self).at(),
                old(self).msg_element.image(),
            ),
    {
        let start: usize = self.cmdq.gsp_mem.mem.cpuq.tx.write_ptr() as usize * GSP_PAGE_SIZE;
        let header = self.msg_element.to_bytes();
        proof {
            self.msg_element.lemma_fields(self.msg_element.image());
            lemma_splice(self.cmdq.outbox(), start as int, header@);
        }
        put_bytes(self.cmdq.gsp_mem.mem.cpuq.msgq.data.as_mut_slice(), start, header.as_slice());
    }

    /// The header of the command, with the function `function`.
    pub open spec fn calling(&self, function: u32) -> GspMsgElement {
        GspMsgElement {
            rpc: GspRpcHeader { function, ..self.msg_element.rpc },
            ..self.msg_element
        }
    }

    /// Makes the command a call of `function`. Returns the first `size` bytes after the header,
    /// and the rest of the part of the queue that the command may use.
    #[verifier::rlimit(40)]
    pub fn arguments<'b>(&'b mut self, function: u32, size: usize) -> (r: (
        &'b mut [u8],
        &'b mut [u8],
        &'b mut [u8],
    ))
        requires
            old(self).inv(),
            MSG_ELEMENT_SIZE + size <= old(self).len_1,
        ensures
            r.0@ == old(self).bytes_1().take(size as int),
            r.1@ == old(self).bytes_1().skip(size as int),
            r.2@ == old(self).bytes_2(),
            *final(final(self).cmdq) == *final(old(self).cmdq),
            final(self).cmdq.same_but_outbox(old(self).cmdq),
            final(self).cmdq.seq == old(self).cmdq.seq,
            final(self).msg_element == old(self).calling(function),
            final(self).len_1 == old(self).len_1,
            final(self).len_2 == old(self).len_2,
            final(self).cmdq.outbox() == filled(
                old(self).cmdq.outbox(),
                old(self).at(),
                old(self).len_1 as int,
                old(self).len_2 as int,
                old(self).calling(function).image(),
                final(r.0)@,
                final(r.1)@,
                final(r.2)@,
            ),
    {
        self.msg_element.rpc_header_mut().set_function(function);
        let ghost before = self.cmdq.outbox();
        proof {
            self.msg_element.lemma_fields(self.msg_element.image());
        }
        self.store_element();
        let start: usize = self.cmdq.gsp_mem.mem.cpuq.tx.write_ptr() as usize * GSP_PAGE_SIZE;
        proof {
            lemma_new_header(
                before,
                start as int,
                self.len_1 as int,
                self.len_2 as int,
                size as int,
                self.msg_element.image(),
            );
        }
        let ring = self.cmdq.gsp_mem.mem.cpuq.msgq.data.as_mut_slice();
        split_command(ring, start, self.len_1, self.len_2, size)
    }

    /// Makes the command an `M`. Returns where its bytes stand, and a buffer over the rest of
    /// the part of the queue that the command may use, if it has more arguments.
    pub fn try_as<'b, M: GspCommandToGsp>(&'b mut self) -> (r: (
        &'b mut [u8],
        Option<SBuffer<'b>>,
    ))
        requires
            old(self).inv(),
            MSG_ELEMENT_SIZE + M::size() <= old(self).len_1,
            RPC_HEADER_SIZE + M::size() <= old(self).msg_element.rpc.length,
        ensures
            r.0@ == old(self).bytes_1().take(M::size() as int),
            r.1 is Some <==> old(self).msg_element.rpc.length > RPC_HEADER_SIZE + M::size(),
            r.1 is Some ==> {
                &&& r.1->0.inv()
                &&& r.1->0.len == 2
                &&& r.1->0.idx == 0
                &&& r.1->0.offset == 0
                &&& r.1->0.part(0) == old(self).bytes_1().skip(M::size() as int)
                &&& r.1->0.part(1) == old(self).bytes_2()
            },
            *final(final(self).cmdq) == *final(old(self).cmdq),
            final(self).cmdq.same_but_outbox(old(self).cmdq),
            final(self).cmdq.seq == old(self).cmdq.seq,
            final(self).msg_element == old(self).calling(M::function()),
            final(self).len_1 == old(self).len_1,
            final(self).len_2 == old(self).len_2,
            r.1 is None ==> final(self).cmdq.outbox() == filled(
                old(self).cmdq.outbox(),
                old(self).at(),
                old(self).len_1 as int,
                old(self).len_2 as int,
                old(self).calling(M::function()).image(),
                final(r.0)@,
                old(self).bytes_1().skip(M::size() as int),
                old(self).bytes_2(),
            ),
            r.1 is Some ==> final(self).cmdq.outbox() == filled(
                old(self).cmdq.outbox(),
                old(self).at(),
                old(self).len_1 as int,
                old(self).len_2 as int,
                old(self).calling(M::function()).image(),
                final(r.0)@,
                final(r.1->0.slices@[0]->0)@,
                final(r.1->0.slices@[1]->0)@,
            ),
    {
        let size: usize = M::size_of();
        let data_size: usize = self.msg_element.rpc_header().length() as usize - RPC_HEADER_SIZE
            - size;
        let (msg, data, wrapped) = self.arguments(M::function_code(), size);
        if data_size > 0 {
            let mut parts: Vec<&'b mut [u8]> = Vec::new();
            parts.push(data);
            parts.push(wrapped);
            (msg, Some(SBuffer::new(parts)))
        } else {
            (msg, None)
        }
    }

    /// Completes the command and hands its pages to the GSP.
    ///
    /// Returns the address to write to the queue head register, which makes the GSP look at
    /// the queue.
    pub fn send_to_gsp(self) -> (r: Result<u32, Error>)
        requires
            self.inv(),
        ensures
            r == Ok::<u32, Error>(0),
            handed_over(
                old(self.cmdq),
                final(self.cmdq),
                &self.msg_element,
                self.bytes_1(),
                self.bytes_2(),
            ),
    {
        GspCmdq::send_cmd_to_gsp(self)
    }
}

/// The header of a call of `function` with `n` bytes of arguments.
pub open spec fn command_rpc(function: u32, n: int) -> GspRpcHeader {
    GspRpcHeader {
        header_version: 0x0300_0000,
        signature: NV_VGPU_MSG_SIGNATURE_VALID,
        length: (RPC_HEADER_SIZE + n) as u32,
        function,
        rpc_result: 0xffff_ffff,
        rpc_result_private: 0xffff_ffff,
        sequence: 0,
        spare: 0,
    }
}

/// The bytes of the header of a command: the `seq`-th one, a call of `function` with `n`
/// bytes of arguments, without a checksum.
#[verifier::opaque]
pub open spec fn command_header(seq: u32, function: u32, n: int) -> Seq<u8> {
    zeros(32) + le32(0) + le32(seq) + le32(pages_of(MSG_ELEMENT_SIZE + n) as u32) + le32(0)
        + command_rpc(function, n).image()
}

/// Where the parts of the header of a command stand.
pub proof fn lemma_command_header_parts(seq: u32, function: u32, n: int)
    ensures
        command_header(seq, function, n).len() == MSG_ELEMENT_SIZE,
        command_header(seq, function, n).subrange(32, 36) == le32(0),
        command_header(seq, function, n).subrange(36, 40) == le32(seq),
        command_header(seq, function, n).subrange(48, 80) == command_rpc(function, n).image(),
{
    reveal(command_header);
    command_rpc(function, n).lemma_size();
    let header = command_header(seq, function, n);
    assert(header.len() == MSG_ELEMENT_SIZE);
    assert(header.subrange(32, 36) =~= le32(0));
    assert(header.subrange(36, 40) =~= le32(seq));
    assert(header.subrange(48, 80) =~= command_rpc(function, n).image());
}

/// The CPU queue after a command was sent: the header and the arguments `args`, with the
/// checksum over all of the part of the queue that belonged to the driver.
pub open spec fn outbox_after(q: &GspCmdq, function: u32, args: Seq<u8>) -> Seq<u8> {
    let at = q.gsp_mem.tx() * GSP_PAGE_SIZE;
    let ring = placed(
        q.outbox(),
        at,
        command_header(q.seq, function, args.len() as int) + args,
    );
    splice(
        ring,
        at + MSG_CHECKSUM_OFFSET,
        le32(xor_sum(circular(ring, at, q.free_pages() * GSP_PAGE_SIZE))),
    )
}

/// `new` is `q` after a call of `function` with the arguments `args` was sent.
pub open spec fn sent(q: &GspCmdq, new: &GspCmdq, function: u32, args: Seq<u8>) -> bool {
    &&& new.inv()
    &&& new.seq == q.seq + 1
    &&& new.gsp_mem.dma_handle == q.gsp_mem.dma_handle
    &&& new.gsp_mem.mem.ptes == q.gsp_mem.mem.ptes
    &&& new.gsp_mem.mem.gspq == q.gsp_mem.mem.gspq
    &&& new.gsp_mem.mem.cpuq.rx == q.gsp_mem.mem.cpuq.rx
    &&& new.gsp_mem.mem.cpuq.tx.header == (nvfw::MsgqTxHeader {
        write_ptr: advanced_ptr(
            q.gsp_mem.mem.cpuq.tx.header.write_ptr,
            pages_of(MSG_ELEMENT_SIZE + args.len()) as u32,
        ),
        ..q.gsp_mem.mem.cpuq.tx.header
    })
    &&& new.outbox() == outbox_after(q, function, args)
}

/// A command that was sent takes its pages from those that were free, and leaves every page
/// that did not belong to the driver as it was.
#[verifier::rlimit(40)]
pub proof fn lemma_sent_stays_in_area(
    q: &GspCmdq,
    new: &GspCmdq,
    function: u32,
    args: Seq<u8>,
    i: int,
)
    requires
        q.inv(),
        sent(q, new, function, args),
        pages_of((MSG_ELEMENT_SIZE + args.len()) as int) <= q.free_pages(),
        0 <= i < MSGQ_DATA_SIZE,
    ensures
        new.free_pages() == q.free_pages() - pages_of((MSG_ELEMENT_SIZE + args.len()) as int),
        !in_driver_area(q.gsp_mem.tx(), q.gsp_mem.rx(), i / GSP_PAGE_SIZE as int)
            ==> new.outbox()[i] == q.outbox()[i],
{
    let tx = q.gsp_mem.tx();
    let rx = q.gsp_mem.rx();
    let n = MSG_ELEMENT_SIZE + args.len() as int;
    lemma_driver_area_size(tx, rx);
    lemma_write_fills(q.gsp_mem.mem.cpuq.tx.header.write_ptr, rx, pages_of(n) as u32);
    lemma_driver_area_size(new.gsp_mem.tx(), rx);
    if !in_driver_area(tx, rx, i / GSP_PAGE_SIZE as int) {
        let at = tx * GSP_PAGE_SIZE;
        let message = command_header(q.seq, function, args.len() as int) + args;
        let ring = placed(q.outbox(), at, message);
        lemma_command_header_parts(q.seq, function, args.len() as int);
        reveal(placed);
        assert(message.len() == n);
        assert(n <= pages_of(n) * 4096);
        assert(i == i / 4096 * 4096 + i % 4096);
        assert(!(at <= i < at + n));
        assert(!(i + MSGQ_DATA_SIZE < at + n));
        assert(ring[i] == q.outbox()[i]);
    }
}

/// The bytes of the header that a new command gets.
proof fn lemma_command_header(element: GspMsgElement, seq: u32, function: u32, n: int)
    requires
        element.auth@ == zeros(32),
        element.checksum == 0,
        element.seq_num == seq,
        element.elem_count == pages_of(MSG_ELEMENT_SIZE + n),
        element.padding == 0,
        element.rpc == command_rpc(function, n),
    ensures
        element.image() == command_header(seq, function, n),
{
    reveal(GspMsgElement::image);
    reveal(command_header);
}

/// Where the driver fills in a command that was allocated in `q` with `args`, the queue is
/// as it is to be before the checksum is taken.
///
/// `cmd` is the command as it was allocated, and `msg`, `data` and `wrapped` are what the
/// parts that it handed out hold in the end.
#[verifier::rlimit(40)]
pub proof fn lemma_command_filled(
    q: &GspCmdq,
    cmd: GspQueueCommand<'_>,
    function: u32,
    msg: Seq<u8>,
    data: Seq<u8>,
    wrapped: Seq<u8>,
    args: Seq<u8>,
)
    requires
        q.inv(),
        cmd.inv(),
        cmd.cmdq.same_but_outbox(q),
        cmd.cmdq.outbox() == splice(q.outbox(), cmd.at(), cmd.msg_element.image()),
        cmd.msg_element.auth@ == zeros(32),
        cmd.msg_element.checksum == 0,
        cmd.msg_element.seq_num == q.seq,
        cmd.msg_element.elem_count == pages_of(MSG_ELEMENT_SIZE + args.len()),
        cmd.msg_element.padding == 0,
        cmd.msg_element.rpc == command_rpc(0, args.len() as int),
        MSG_ELEMENT_SIZE + args.len() <= cmd.len_1 + cmd.len_2,
        MSG_ELEMENT_SIZE + msg.len() + data.len() == cmd.len_1,
        wrapped.len() == cmd.len_2,
        msg + data + wrapped == splice(cmd.bytes_1() + cmd.bytes_2(), 0, args),
    ensures
        ({
            let header = cmd.calling(function).image();
            let ring = filled(
                old(cmd.cmdq).outbox(),
                cmd.at(),
                cmd.len_1 as int,
                cmd.len_2 as int,
                header,
                msg,
                data,
                wrapped,
            );
            &&& ring.len() == MSGQ_DATA_SIZE
            &&& ring == placed(
                q.outbox(),
                cmd.at(),
                command_header(q.seq, function, args.len() as int) + args,
            )
            &&& ring.subrange(cmd.at(), cmd.at() + MSG_ELEMENT_SIZE) == header
            &&& header + ring.subrange(cmd.at() + MSG_ELEMENT_SIZE, cmd.at() + cmd.len_1)
                + ring.take(cmd.len_2 as int) == circular(
                ring,
                cmd.at(),
                cmd.len_1 + cmd.len_2,
            )
        }),
{
    let at = cmd.at();
    let len_1 = cmd.len_1 as int;
    let len_2 = cmd.len_2 as int;
    let element = cmd.calling(function);
    let header = element.image();
    let ring0 = cmd.cmdq.outbox();
    lemma_command_header(element, q.seq, function, args.len() as int);
    element.lemma_fields(header);
    cmd.msg_element.lemma_fields(cmd.msg_element.image());
    let ring = filled(ring0, at, len_1, len_2, header, msg, data, wrapped);
    lemma_filled_is_placed(ring0, at, len_1, len_2, header, msg, data, wrapped, args);
    assert(placed(ring0, at, header + args) =~= placed(q.outbox(), at, header + args)) by {
        reveal(placed);
    }
    lemma_filled(ring0, at, len_1, len_2, header, msg, data, wrapped);
    lemma_message_parts(ring, at, len_1 - MSG_ELEMENT_SIZE, len_2);
}

/// A message is available exactly if receiving it gives the message, or tells that it is
/// damaged.
pub proof fn lemma_available_is_received(q: &GspCmdq)
    requires
        q.inv(),
    ensures
        q.available() <==> {
            ||| q.receive_outcome() == Ok::<(), Error>(())
            ||| q.receive_outcome() == Err::<(), Error>(Error::EIO)
        },
{
    assert(q.used() <= 62);
}

/// Acknowledging a message hands its pages back and leaves those of the messages behind it
/// waiting, unless the last page of the message has less room left than a header of a call
/// takes: then one page more is handed back.
pub proof fn lemma_ack_consumes_message(q: &GspCmdq)
    requires
        q.inv(),
        q.available(),
        (message_size(q.incoming()) - 1) % GSP_PAGE_SIZE as int + RPC_HEADER_SIZE < GSP_PAGE_SIZE,
    ensures
        acked(*q, q.incoming().length).inv(),
        acked(*q, q.incoming().length).used() == q.used() - pages_of(message_size(q.incoming())),
{
    let size = message_size(q.incoming());
    let pages = pages_of(size);
    let last = (size - 1) % 4096;
    assert(size - 1 == (size - 1) / 4096 * 4096 + last);
    assert(pages_of(size + RPC_HEADER_SIZE) == pages);
    assert(pages <= q.used());
    lemma_read_drains(
        q.gsp_mem.mem.gspq.tx.header.write_ptr as int,
        q.gsp_mem.mem.cpuq.rx.header.read_ptr,
        pages as u32,
    );
}

/// Acknowledging a message whose last page has less room left than a header of a call takes
/// hands back one page more than the message has.
///
/// That page is the first one of the message behind it. Where there is none, the read pointer
/// passes the write pointer of the GSP, and all pages of the queue but one count as written.
pub proof fn lemma_ack_overruns_message(q: &GspCmdq)
    requires
        q.inv(),
        q.available(),
        (message_size(q.incoming()) - 1) % GSP_PAGE_SIZE as int + RPC_HEADER_SIZE >= GSP_PAGE_SIZE,
    ensures
        acked(*q, q.incoming().length).inv(),
        acked(*q, q.incoming().length).used() == (if pages_of(message_size(q.incoming()))
            < q.used() {
            q.used() - pages_of(message_size(q.incoming())) - 1
        } else {
            MSGQ_NUM_PAGES - 1
        }),
{
    let size = message_size(q.incoming());
    let pages = pages_of(size);
    let wptr = q.gsp_mem.mem.gspq.tx.header.write_ptr as int;
    let rptr = q.gsp_mem.mem.cpuq.rx.header.read_ptr;
    let last = (size - 1) % 4096;
    assert(size - 1 == (size - 1) / 4096 * 4096 + last);
    assert(pages_of(size + RPC_HEADER_SIZE) == pages + 1);
    assert(pages <= q.used());
    if pages < q.used() {
        lemma_read_drains(wptr, rptr, (pages + 1) as u32);
    } else {
        lemma_read_overruns(wptr, rptr);
    }
}

/// What the driver sends is what a reader of the CPU queue receives: the header that was
/// written, and the arguments behind it.
///
/// `new` are the queues after the command was sent, and `reader` sees the pages of their CPU
/// queue and reads where the command was written. The checksum that the driver fills in
/// covers all of the part of the queue that the command may use. The reader finds the message
/// intact exactly if what lies behind the message in that part adds nothing to it.
pub proof fn lemma_sent_is_received(
    cmd: GspQueueCommand<'_>,
    new: &GspCmdq,
    reader: &GspCmdq,
)
    requires
        cmd.inv(),
        cmd.msg_element.checksum == 0,
        handed_over(cmd.cmdq, new, &cmd.msg_element, cmd.bytes_1(), cmd.bytes_2()),
        reader.inv(),
        reader.inbox() == new.outbox(),
        reader.rptr() == cmd.cmdq.gsp_mem.tx(),
        reader.used() >= pages_of(message_size(cmd.msg_element.rpc)),
    ensures
        reader.incoming() == cmd.msg_element.rpc,
        reader.incoming_bytes().skip(MSG_ELEMENT_SIZE as int) == (cmd.bytes_1()
            + cmd.bytes_2()).take(message_size(cmd.msg_element.rpc) - MSG_ELEMENT_SIZE),
        reader.receive_outcome() == (if xor_sum_at(
            (cmd.bytes_1() + cmd.bytes_2()).skip(
                message_size(cmd.msg_element.rpc) - MSG_ELEMENT_SIZE,
            ),
            message_size(cmd.msg_element.rpc),
        ) == 0 {
            Ok::<(), Error>(())
        } else {
            Err(Error::EIO)
        }),
{
    let ring = cmd.cmdq.outbox();
    let at = cmd.at();
    let image = cmd.msg_element.image();
    let size = message_size(cmd.msg_element.rpc);
    let c = xor_sum(image + cmd.bytes_1() + cmd.bytes_2());
    lemma_sent_header(cmd.msg_element, ring, at, c);
    cmd.msg_element.lemma_fields(image);
    lemma_le32_of_get(image, 32);
    assert(image.subrange(32, 36) =~= ring.subrange(at + 32, at + 36));
    lemma_sent_bytes(ring, at, cmd.len_1 as int, cmd.len_2 as int, size);
    assert(pages_of(size) * 4096 >= size);
}

/// What the driver sends is what a reader of the CPU queue receives: a call of the
/// function with the arguments.
///
/// `new` are the queues after the command was sent, and `reader` sees the pages of their CPU
/// queue and reads where the command was written. The reader finds the message intact
/// exactly if what lay behind it in the part of the queue that belonged to the driver adds
/// nothing to the checksum, as zeros do.
pub proof fn lemma_sent_arguments_are_received(
    q: &GspCmdq,
    new: &GspCmdq,
    function: u32,
    args: Seq<u8>,
    reader: &GspCmdq,
)
    requires
        q.inv(),
        sent(q, new, function, args),
        pages_of((MSG_ELEMENT_SIZE + args.len()) as int) <= q.free_pages(),
        reader.inv(),
        reader.inbox() == new.outbox(),
        reader.rptr() == q.gsp_mem.tx(),
        reader.used() >= pages_of((MSG_ELEMENT_SIZE + args.len()) as int),
    ensures
        reader.incoming().function == function,
        reader.incoming().length == RPC_HEADER_SIZE + args.len(),
        reader.incoming_bytes().skip(MSG_ELEMENT_SIZE as int) == args,
        reader.receive_outcome() == (if xor_sum_at(
            circular(
                q.outbox(),
                q.gsp_mem.tx() * GSP_PAGE_SIZE,
                q.free_pages() * GSP_PAGE_SIZE,
            ).skip((MSG_ELEMENT_SIZE + args.len()) as int),
            (MSG_ELEMENT_SIZE + args.len()) as int,
        ) == 0 {
            Ok::<(), Error>(())
        } else {
            Err(Error::EIO)
        }),
{
    let tx = q.gsp_mem.tx();
    lemma_driver_area_size(tx, q.gsp_mem.rx());
    let at = tx * GSP_PAGE_SIZE;
    let len_1 = q.gsp_mem.len_1();
    let len_2 = q.gsp_mem.len_2();
    let size = MSG_ELEMENT_SIZE + args.len() as int;
    assert(pages_of(size) * 4096 >= size);
    assert(len_1 + len_2 == q.free_pages() * GSP_PAGE_SIZE);
    lemma_placed_is_received(q.outbox(), at, len_1, len_2, q.seq, function, args);
}

/// What a reader finds in a ring at `at` after a command was placed there and its checksum
/// was filled in.
#[verifier::rlimit(40)]
proof fn lemma_placed_is_received(
    outbox: Seq<u8>,
    at: int,
    len_1: int,
    len_2: int,
    seq: u32,
    function: u32,
    args: Seq<u8>,
)
    requires
        0 <= at,
        0 <= len_2 <= at,
        MSG_ELEMENT_SIZE <= len_1,
        at + len_1 <= outbox.len(),
        len_2 > 0 ==> at + len_1 == outbox.len(),
        MSG_ELEMENT_SIZE + args.len() <= len_1 + len_2,
    ensures
        ({
            let size = MSG_ELEMENT_SIZE + args.len() as int;
            let header = command_header(seq, function, args.len() as int);
            let ring = placed(outbox, at, header + args);
            let n = len_1 + len_2;
            let sent_ring = splice(
                ring,
                at + MSG_CHECKSUM_OFFSET,
                le32(xor_sum(circular(ring, at, n))),
            );
            let received = circular(sent_ring, at, size);
            &&& GspRpcHeader::read(sent_ring, at + 48) == command_rpc(function, args.len() as int)
            &&& received.skip(MSG_ELEMENT_SIZE as int) == args
            &&& xor_sum(received) == 0 <==> xor_sum_at(
                circular(outbox, at, n).skip(size),
                size,
            ) == 0
        }),
{
    let n = len_1 + len_2;
    let size = MSG_ELEMENT_SIZE + args.len() as int;
    let header = command_header(seq, function, args.len() as int);
    let ring = placed(outbox, at, header + args);
    let whole = circular(ring, at, n);
    let checksum = xor_sum(whole);
    let sent_ring = splice(ring, at + MSG_CHECKSUM_OFFSET, le32(checksum));
    lemma_command_header_parts(seq, function, args.len() as int);
    lemma_placed_parts(outbox, at, len_1, len_2, header, args);
    lemma_parts_of_header(ring, at, header, checksum);
    command_rpc(function, args.len() as int).lemma_read_of_image(sent_ring, at + 48);
    lemma_message_parts(ring, at, len_1 - MSG_ELEMENT_SIZE, len_2);
    lemma_sent_bytes(ring, at, len_1, len_2, size);
    lemma_message_tail(whole, header, args);
}

/// The header of a call is the same after the checksum was filled in.
proof fn lemma_sent_header(element: GspMsgElement, ring: Seq<u8>, at: int, checksum: u32)
    requires
        element.inv(),
        0 <= at,
        at + MSG_ELEMENT_SIZE <= ring.len(),
        ring.subrange(at, at + MSG_ELEMENT_SIZE) == element.image(),
    ensures
        GspRpcHeader::read(splice(ring, at + MSG_CHECKSUM_OFFSET, le32(checksum)), at + 48)
            == element.rpc,
{
    let sent = splice(ring, at + MSG_CHECKSUM_OFFSET, le32(checksum));
    let sealed = GspMsgElement { checksum, ..element };
    element.lemma_set_checksum(&sealed, ring, at);
    sealed.lemma_fields(sealed.image());
    lemma_splice(ring, at, sealed.image());
    GspRpcHeader::lemma_read_part(sent, at, at + MSG_ELEMENT_SIZE, 48);
}

/// Returns the name of a function code or event code.
pub fn decode_gsp_function(function: u32) -> (r: &'static str)
    ensures
        function == nvfw::NV_VGPU_MSG_FUNCTION_NOP ==> r@ == "NOP"@,
        function == nvfw::NV_VGPU_MSG_FUNCTION_SET_GUEST_SYSTEM_INFO
            ==> r@ == "SET_GUEST_SYSTEM_INFO"@,
        function == nvfw::NV_VGPU_MSG_FUNCTION_ALLOC_ROOT ==> r@ == "ALLOC_ROOT"@,
        function == nvfw::NV_VGPU_MSG_FUNCTION_ALLOC_DEVICE ==> r@ == "ALLOC_DEVICE"@,
        function == nvfw::NV_VGPU_MSG_FUNCTION_ALLOC_MEMORY ==> r@ == "ALLOC_MEMORY"@,
        function == nvfw::NV_VGPU_MSG_FUNCTION_ALLOC_CTX_DMA ==> r@ == "ALLOC_CTX_DMA"@,
        function == nvfw::NV_VGPU_MSG_FUNCTION_ALLOC_CHANNEL_DMA ==> r@ == "ALLOC_CHANNEL_DMA"@,
        function == nvfw::NV_VGPU_MSG_FUNCTION_MAP_MEMORY ==> r@ == "MAP_MEMORY"@,
        function == nvfw::NV_VGPU_MSG_FUNCTION_BIND_CTX_DMA ==> r@ == "BIND_CTX_DMA"@,
        function == nvfw::NV_VGPU_MSG_FUNCTION_ALLOC_OBJECT ==> r@ == "ALLOC_OBJECT"@,
        function == nvfw::NV_VGPU_MSG_FUNCTION_FREE ==> r@ == "FREE"@,
        function == nvfw::NV_VGPU_MSG_FUNCTION_LOG ==> r@ == "LOG"@,
        function == nvfw::NV_VGPU_MSG_FUNCTION_GET_GSP_STATIC_INFO ==> r@ == "GET_GSP_STATIC_INFO"@,
        function == nvfw::NV_VGPU_MSG_FUNCTION_SET_REGISTRY ==> r@ == "SET_REGISTRY"@,
        function == nvfw::NV_VGPU_MSG_FUNCTION_GSP_SET_SYSTEM_INFO ==> r@ == "GSP_SET_SYSTEM_INFO"@,
        function == nvfw::NV_VGPU_MSG_FUNCTION_GSP_INIT_POST_OBJGPU
            ==> r@ == "GSP_INIT_POST_OBJGPU"@,
        function == nvfw::NV_VGPU_MSG_FUNCTION_GSP_RM_CONTROL ==> r@ == "GSP_RM_CONTROL"@,
        function == nvfw::NV_VGPU_MSG_FUNCTION_GET_STATIC_INFO ==> r@ == "GET_STATIC_INFO"@,
        function == nvfw::NV_VGPU_MSG_EVENT_GSP_INIT_DONE ==> r@ == "INIT_DONE"@,
        function == nvfw::NV_VGPU_MSG_EVENT_GSP_RUN_CPU_SEQUENCER ==> r@ == "RUN_CPU_SEQUENCER"@,
        function == nvfw::NV_VGPU_MSG_EVENT_POST_EVENT ==> r@ == "POST_EVENT"@,
        function == nvfw::NV_VGPU_MSG_EVENT_RC_TRIGGERED ==> r@ == "RC_TRIGGERED"@,
        function == nvfw::NV_VGPU_MSG_EVENT_MMU_FAULT_QUEUED ==> r@ == "MMU_FAULT_QUEUED"@,
        function == nvfw::NV_VGPU_MSG_EVENT_OS_ERROR_LOG ==> r@ == "OS_ERROR_LOG"@,
        function == nvfw::NV_VGPU_MSG_EVENT_GSP_POST_NOCAT_RECORD ==> r@ == "NOCAT"@,
        function == nvfw::NV_VGPU_MSG_EVENT_GSP_LOCKDOWN_NOTICE ==> r@ == "LOCKDOWN_NOTICE"@,
        function == nvfw::NV_VGPU_MSG_EVENT_UCODE_LIBOS_PRINT ==> r@ == "LIBOS_PRINT"@,
        (function != nvfw::NV_VGPU_MSG_FUNCTION_NOP
            && function != nvfw::NV_VGPU_MSG_FUNCTION_SET_GUEST_SYSTEM_INFO
            && function != nvfw::NV_VGPU_MSG_FUNCTION_ALLOC_ROOT
            && function != nvfw::NV_VGPU_MSG_FUNCTION_ALLOC_DEVICE
            && function != nvfw::NV_VGPU_MSG_FUNCTION_ALLOC_MEMORY
            && function != nvfw::NV_VGPU_MSG_FUNCTION_ALLOC_CTX_DMA
            && function != nvfw::NV_VGPU_MSG_FUNCTION_ALLOC_CHANNEL_DMA
            && function != nvfw::NV_VGPU_MSG_FUNCTION_MAP_MEMORY
            && function != nvfw::NV_VGPU_MSG_FUNCTION_BIND_CTX_DMA
            && function != nvfw::NV_VGPU_MSG_FUNCTION_ALLOC_OBJECT
            && function != nvfw::NV_VGPU_MSG_FUNCTION_FREE
            && function != nvfw::NV_VGPU_MSG_FUNCTION_LOG
            && function != nvfw::NV_VGPU_MSG_FUNCTION_GET_GSP_STATIC_INFO
            && function != nvfw::NV_VGPU_MSG_FUNCTION_SET_REGISTRY
            && function != nvfw::NV_VGPU_MSG_FUNCTION_GSP_SET_SYSTEM_INFO
            && function != nvfw::NV_VGPU_MSG_FUNCTION_GSP_INIT_POST_OBJGPU
            && function != nvfw::NV_VGPU_MSG_FUNCTION_GSP_RM_CONTROL
            && function != nvfw::NV_VGPU_MSG_FUNCTION_GET_STATIC_INFO
            && function != nvfw::NV_VGPU_MSG_EVENT_GSP_INIT_DONE
            && function != nvfw::NV_VGPU_MSG_EVENT_GSP_RUN_CPU_SEQUENCER
            && function != nvfw::NV_VGPU_MSG_EVENT_POST_EVENT
            && function != nvfw::NV_VGPU_MSG_EVENT_RC_TRIGGERED
            && function != nvfw::NV_VGPU_MSG_EVENT_MMU_FAULT_QUEUED
            && function != nvfw::NV_VGPU_MSG_EVENT_OS_ERROR_LOG
            && function != nvfw::NV_VGPU_MSG_EVENT_GSP_POST_NOCAT_RECORD
            && function != nvfw::NV_VGPU_MSG_EVENT_GSP_LOCKDOWN_NOTICE
            && function != nvfw::NV_VGPU_MSG_EVENT_UCODE_LIBOS_PRINT) ==> r@ == "UNKNOWN"@,
{
    match function {
        // Common function codes
        nvfw::NV_VGPU_MSG_FUNCTION_NOP => "NOP",
        nvfw::NV_VGPU_MSG_FUNCTION_SET_GUEST_SYSTEM_INFO => "SET_GUEST_SYSTEM_INFO",
        nvfw::NV_VGPU_MSG_FUNCTION_ALLOC_ROOT => "ALLOC_ROOT",
        nvfw::NV_VGPU_MSG_FUNCTION_ALLOC_DEVICE => "ALLOC_DEVICE",
        nvfw::NV_VGPU_MSG_FUNCTION_ALLOC_MEMORY => "ALLOC_MEMORY",
        nvfw::NV_VGPU_MSG_FUNCTION_ALLOC_CTX_DMA => "ALLOC_CTX_DMA",
        nvfw::NV_VGPU_MSG_FUNCTION_ALLOC_CHANNEL_DMA => "ALLOC_CHANNEL_DMA",
        nvfw::NV_VGPU_MSG_FUNCTION_MAP_MEMORY => "MAP_MEMORY",
        nvfw::NV_VGPU_MSG_FUNCTION_BIND_CTX_DMA => "BIND_CTX_DMA",
        nvfw::NV_VGPU_MSG_FUNCTION_ALLOC_OBJECT => "ALLOC_OBJECT",
        nvfw::NV_VGPU_MSG_FUNCTION_FREE => "FREE",
        nvfw::NV_VGPU_MSG_FUNCTION_LOG => "LOG",
        nvfw::NV_VGPU_MSG_FUNCTION_GET_GSP_STATIC_INFO => "GET_GSP_STATIC_INFO",
        nvfw::NV_VGPU_MSG_FUNCTION_SET_REGISTRY => "SET_REGISTRY",
        nvfw::NV_VGPU_MSG_FUNCTION_GSP_SET_SYSTEM_INFO => "GSP_SET_SYSTEM_INFO",
        nvfw::NV_VGPU_MSG_FUNCTION_GSP_INIT_POST_OBJGPU => "GSP_INIT_POST_OBJGPU",
        nvfw::NV_VGPU_MSG_FUNCTION_GSP_RM_CONTROL => "GSP_RM_CONTROL",
        nvfw::NV_VGPU_MSG_FUNCTION_GET_STATIC_INFO => "GET_STATIC_INFO",
        // Event codes
        nvfw::NV_VGPU_MSG_EVENT_GSP_INIT_DONE => "INIT_DONE",
        nvfw::NV_VGPU_MSG_EVENT_GSP_RUN_CPU_SEQUENCER => "RUN_CPU_SEQUENCER",
        nvfw::NV_VGPU_MSG_EVENT_POST_EVENT => "POST_EVENT",
        nvfw::NV_VGPU_MSG_EVENT_RC_TRIGGERED => "RC_TRIGGERED",
        nvfw::NV_VGPU_MSG_EVENT_MMU_FAULT_QUEUED => "MMU_FAULT_QUEUED",
        nvfw::NV_VGPU_MSG_EVENT_OS_ERROR_LOG => "OS_ERROR_LOG",
        nvfw::NV_VGPU_MSG_EVENT_GSP_POST_NOCAT_RECORD => "NOCAT",
        nvfw::NV_VGPU_MSG_EVENT_GSP_LOCKDOWN_NOTICE => "LOCKDOWN_NOTICE",
        nvfw::NV_VGPU_MSG_EVENT_UCODE_LIBOS_PRINT => "LIBOS_PRINT",
        // Default for unknown codes
        _ => "UNKNOWN",
    }
}

} // verus!
