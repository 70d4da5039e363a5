//! The GPU System Processor (GSP).

use vstd::prelude::*;
use vstd::string::StringSliceAdditionalSpecFns;

use crate::bytes::{get_le64, le64, lemma_get_le64, lemma_splice_join, splice, zeros};
use crate::bytes::{put_bytes, u64_to_le};
use crate::dma::{CoherentAllocation, Element};
use crate::error::Error;
use crate::gsp::cmdq::GspCmdq;
use crate::nvfw::{pages_of, GspArgumentsCached, LibosMemoryRegionInitArgument};
use crate::ptr::Alignment;

pub mod checksum;
pub mod cmdq;
pub mod commands;
pub mod fw;
pub mod ring;
pub mod rm_control;

verus! {

/// Size of a GSP page, as a power of two.
pub const GSP_PAGE_SHIFT: usize = 12;

/// Size of a GSP page.
pub const GSP_PAGE_SIZE: usize = 4096;

/// Returns the alignment of the sizes of the parts of the GSP heap.
pub fn gsp_heap_alignment() -> (r: Alignment)
    ensures
        r.inv(),
        r.bytes == 0x10_0000,
{
    proof {
        vstd::arithmetic::power2::lemma2_to64();
    }
    assert(vstd::arithmetic::power2::pow2(20) == 0x10_0000 as nat);
    Alignment::new(0x10_0000)
}

/// The bytes of `n` page table entries that map the pages from `handle` on, one after
/// the other.
pub open spec fn pte_bytes(handle: u64, n: nat) -> Seq<u8> {
    Seq::new(8 * n, |i: int| le64((handle + i / 8 * GSP_PAGE_SIZE) as u64)[i % 8])
}

/// The entry of page `i` of a self-mapping page table holds the address of that page.
pub proof fn lemma_pte(mem: Seq<u8>, handle: u64, n: nat, skip: int, i: int)
    requires
        0 <= skip,
        8 * (skip + n) <= mem.len(),
        0 <= i < n,
        handle + i * GSP_PAGE_SIZE <= u64::MAX,
    ensures
        get_le64(splice(mem, 8 * skip, pte_bytes(handle, n)), 8 * (skip + i)) == handle + i
            * GSP_PAGE_SIZE,
{
    let s = splice(mem, 8 * skip, pte_bytes(handle, n));
    let pte = (handle + i * GSP_PAGE_SIZE) as u64;
    let at = 8 * (skip + i);
    assert forall|k: int| 0 <= k < 8 implies #[trigger] s.subrange(at, at + 8)[k] == le64(
        pte,
    )[k] by {
        assert(s[at + k] == pte_bytes(handle, n)[8 * i + k]);
        assert((8 * i + k) / 8 == i && (8 * i + k) % 8 == k);
    }
    assert(s.subrange(at, at + 8) =~= le64(pte));
    lemma_get_le64(s, at, pte);
}

/// Creates a self-mapping page table for an object at its beginning, after `skip`
/// entries.
///
/// `mem` is the beginning of the object, `size` the size of all of it and `handle` its
/// device address.
pub fn create_pte_array(mem: &mut [u8], size: usize, handle: u64, skip: usize)
    requires
        8 * (skip + pages_of(size as int)) <= old(mem)@.len(),
        handle + (pages_of(size as int) - 1) * GSP_PAGE_SIZE <= u64::MAX,
    ensures
        final(mem)@ == splice(
            old(mem)@,
            8 * skip,
            pte_bytes(handle, pages_of(size as int) as nat),
        ),
{
    let mem_len: usize = mem.len();
    let num_pages: usize = if size % GSP_PAGE_SIZE == 0 {
        size / GSP_PAGE_SIZE
    } else {
        size / GSP_PAGE_SIZE + 1
    };
    assert(num_pages == pages_of(size as int));
    let mut i: usize = 0;
    assert(splice(mem@, 8 * skip, pte_bytes(handle, 0)) =~= mem@);
    while i < num_pages
        invariant
            i <= num_pages,
            mem_len == mem@.len(),
            mem_len == old(mem)@.len(),
            8 * (skip + num_pages) <= mem_len,
            handle + (num_pages - 1) * GSP_PAGE_SIZE <= u64::MAX,
            mem@ == splice(old(mem)@, 8 * skip, pte_bytes(handle, i as nat)),
        decreases num_pages - i,
    {
        assert(i * GSP_PAGE_SIZE <= (num_pages - 1) * GSP_PAGE_SIZE);
        let pte: u64 = handle + i as u64 * GSP_PAGE_SIZE as u64;
        let entry = u64_to_le(pte);
        put_bytes(mem, 8 * (skip + i), entry.as_slice());
        proof {
            lemma_splice_join(old(mem)@, 8 * skip, pte_bytes(handle, i as nat), le64(pte));
            assert(pte_bytes(handle, (i + 1) as nat) =~= pte_bytes(handle, i as nat) + le64(pte));
        }
        i = i + 1;
    }
}

/// Handles of the GSP-RM objects through which the driver sends control commands.
pub struct GspInfo {
    /// The internal client.
    pub h_internal_client: u32,
    /// The internal subdevice.
    pub h_internal_subdevice: u32,
}

/// Device addresses of the memory that the GSP boots with.
pub struct GspMemHandles {
    /// Of the descriptions of the other objects.
    pub libos: u64,
    /// Of the log of the initialization.
    pub loginit: u64,
    /// Of the log of interrupts.
    pub logintr: u64,
    /// Of the log of GSP-RM.
    pub logrm: u64,
    /// Of the queues.
    pub cmdq: u64,
    /// Of the arguments of GSP-RM.
    pub rmargs: u64,
}

impl GspMemHandles {
    /// All of the memory has an address.
    pub open spec fn inv(&self) -> bool {
        &&& self.loginit + 15 * GSP_PAGE_SIZE <= u64::MAX
        &&& self.logintr + 15 * GSP_PAGE_SIZE <= u64::MAX
        &&& self.logrm + 15 * GSP_PAGE_SIZE <= u64::MAX
        &&& self.cmdq + 128 * GSP_PAGE_SIZE <= u64::MAX
    }
}

/// Size of a log.
pub const LOG_SIZE: usize = 0x1_0000;

/// Number of descriptions of memory regions.
pub const LIBOS_ARGS: usize = 128;

/// The bytes of a new log at the device address `handle`: its page table stands behind its
/// first word.
pub open spec fn new_log(handle: u64) -> Seq<u8> {
    splice(zeros(LOG_SIZE as nat), 8, pte_bytes(handle, 16))
}

/// Creates an object of `size` elements with `name` at the device address `handle`, and
/// registers it into the `libos` object at argument position `libos_arg_nr`.
pub fn create_coherent_dma_object<A: Element>(
    handle: u64,
    name: &'static str,
    size: usize,
    libos: &mut CoherentAllocation<LibosMemoryRegionInitArgument>,
    libos_arg_nr: usize,
) -> (r: Result<CoherentAllocation<A>, Error>)
    requires
        size * A::size() <= usize::MAX,
    ensures
        r is Ok <==> libos_arg_nr < old(libos).data@.len(),
        r is Err ==> r->Err_0 == Error::EINVAL && *final(libos) == *old(libos),
        final(libos).dma_handle == old(libos).dma_handle,
        r is Ok ==> {
            &&& r->Ok_0.inv()
            &&& r->Ok_0.dma_handle == handle
            &&& r->Ok_0.data@ == Seq::new(size as nat, |i: int| A::zero())
            &&& final(libos).data@.len() == old(libos).data@.len()
            &&& final(libos).data@[libos_arg_nr as int].describes(
                name.spec_bytes(),
                handle,
                size * A::size(),
            )
            &&& forall|i: int|
                0 <= i < old(libos).data@.len() && i != libos_arg_nr ==> (
                #[trigger] final(libos).data@[i]) == old(libos).data@[i]
        },
{
    let obj = CoherentAllocation::<A>::new(handle, size);
    if libos_arg_nr >= libos.data.len() {
        return Err(Error::EINVAL);
    }
    libos.data.set(libos_arg_nr, LibosMemoryRegionInitArgument::new(name, &obj));
    Ok(obj)
}

/// Creates a log with `name` at the device address `handle`, and registers it into the
/// `libos` object at argument position `libos_arg_nr`.
fn create_log(
    handle: u64,
    name: &'static str,
    libos: &mut CoherentAllocation<LibosMemoryRegionInitArgument>,
    libos_arg_nr: usize,
) -> (r: Result<CoherentAllocation<u8>, Error>)
    requires
        handle + 15 * GSP_PAGE_SIZE <= u64::MAX,
        libos_arg_nr < old(libos).data@.len(),
    ensures
        r is Ok,
        r->Ok_0.inv(),
        r->Ok_0.dma_handle == handle,
        r->Ok_0.data@ == new_log(handle),
        final(libos).dma_handle == old(libos).dma_handle,
        final(libos).data@.len() == old(libos).data@.len(),
        final(libos).data@[libos_arg_nr as int].describes(
            name.spec_bytes(),
            handle,
            LOG_SIZE as int,
        ),
        forall|i: int|
            0 <= i < old(libos).data@.len() && i != libos_arg_nr ==> (
            #[trigger] final(libos).data@[i]) == old(libos).data@[i],
{
    match create_coherent_dma_object::<u8>(handle, name, LOG_SIZE, libos, libos_arg_nr) {
        Ok(log) => {
            let mut log = log;
            assert(log.data@ =~= zeros(LOG_SIZE as nat));
            assert(pages_of(LOG_SIZE as int) == 16);
            create_pte_array(log.data.as_mut_slice(), LOG_SIZE, handle, 1);
            Ok(log)
        },
        Err(e) => Err(e),
    }
}

/// The memory that the GSP boots with.
pub struct GspMemObjects {
    /// Descriptions of the other objects.
    pub libos: CoherentAllocation<LibosMemoryRegionInitArgument>,
    /// Log of the initialization.
    pub loginit: CoherentAllocation<u8>,
    /// Log of interrupts.
    pub logintr: CoherentAllocation<u8>,
    /// Log of GSP-RM.
    pub logrm: CoherentAllocation<u8>,
    /// The queues.
    pub cmdq: GspCmdq,
    /// Arguments of GSP-RM.
    pub rmargs: CoherentAllocation<GspArgumentsCached>,
}

impl GspMemObjects {
    /// Sets up the memory at the device addresses `handles`.
    #[verifier::rlimit(40)]
    pub fn new(handles: &GspMemHandles) -> (r: Result<Self, Error>)
        requires
            handles.inv(),
        ensures
            r is Ok,
            r->Ok_0.libos.dma_handle == handles.libos,
            r->Ok_0.libos.data@.len() == LIBOS_ARGS,
            r->Ok_0.libos.data@[0].describes(
                "LOGINIT".spec_bytes(),
                handles.loginit,
                LOG_SIZE as int,
            ),
            r->Ok_0.libos.data@[1].describes(
                "LOGINTR".spec_bytes(),
                handles.logintr,
                LOG_SIZE as int,
            ),
            r->Ok_0.libos.data@[2].describes(
                "LOGRM".spec_bytes(),
                handles.logrm,
                LOG_SIZE as int,
            ),
            r->Ok_0.libos.data@[3].describes("RMARGS".spec_bytes(), handles.rmargs, 72),
            r->Ok_0.libos.data@[0].pa == handles.loginit,
            r->Ok_0.libos.data@[1].pa == handles.logintr,
            r->Ok_0.libos.data@[2].pa == handles.logrm,
            r->Ok_0.libos.data@[3].pa == handles.rmargs,
            forall|i: int|
                4 <= i < LIBOS_ARGS ==> (#[trigger] r->Ok_0.libos.data@[i])
                    == LibosMemoryRegionInitArgument::zero(),
            r->Ok_0.loginit.dma_handle == handles.loginit,
            r->Ok_0.loginit.data@ == new_log(handles.loginit),
            r->Ok_0.logintr.dma_handle == handles.logintr,
            r->Ok_0.logintr.data@ == new_log(handles.logintr),
            r->Ok_0.logrm.dma_handle == handles.logrm,
            r->Ok_0.logrm.data@ == new_log(handles.logrm),
            r->Ok_0.cmdq.is_fresh(handles.cmdq),
            r->Ok_0.rmargs.dma_handle == handles.rmargs,
            r->Ok_0.rmargs.data@ == seq![
                GspArgumentsCached {
                    shared_mem_phys_addr: handles.cmdq,
                    page_table_entry_count: 129,
                    cmd_queue_offset: 0x1000,
                    stat_queue_offset: 0x4_1000,
                    sr_old_level: 0,
                    sr_flags: 0,
                    sr_in_pm_transition: 0,
                    dmem_stack: 1,
                },
            ],
    {
        let mut libos = CoherentAllocation::<LibosMemoryRegionInitArgument>::new(
            handles.libos,
            GSP_PAGE_SIZE / LibosMemoryRegionInitArgument::size_of(),
        );
        let loginit = match create_log(handles.loginit, "LOGINIT", &mut libos, 0) {
            Ok(log) => log,
            Err(e) => {
                return Err(e);
            },
        };
        let logintr = match create_log(handles.logintr, "LOGINTR", &mut libos, 1) {
            Ok(log) => log,
            Err(e) => {
                return Err(e);
            },
        };
        let logrm = match create_log(handles.logrm, "LOGRM", &mut libos, 2) {
            Ok(log) => log,
            Err(e) => {
                return Err(e);
            },
        };
        // Creates its own PTE array
        let cmdq = GspCmdq::new(handles.cmdq);
        let mut rmargs = match create_coherent_dma_object::<GspArgumentsCached>(
            handles.rmargs,
            "RMARGS",
            1,
            &mut libos,
            3,
        ) {
            Ok(rmargs) => rmargs,
            Err(e) => {
                return Err(e);
            },
        };
        rmargs.data.set(0, GspArgumentsCached::new(&cmdq));
        Ok(GspMemObjects { libos, loginit, logintr, logrm, cmdq, rmargs })
    }

    /// Returns the device address of the descriptions.
    pub fn libos_dma_handle(&self) -> (r: u64)
        ensures
            r == self.libos.dma_handle,
    {
        self.libos.dma_handle()
    }
}

} // verus!
