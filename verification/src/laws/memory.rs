//! Laws of the memory that the GSP boots with.

use vstd::prelude::*;
use vstd::string::StringSliceAdditionalSpecFns;
use vstd::utf8::is_ascii_chars_encode_utf8;

use crate::bytes::{get_le64, splice, zeros};
use crate::dma::{CoherentAllocation, Element};
use crate::error::Error;
use crate::gsp::cmdq::{DmaGspMem, GspCmdq};
use crate::gsp::{
    create_coherent_dma_object, create_pte_array, lemma_pte, new_log, pte_bytes, GspMemHandles,
    GspMemObjects,
};
use crate::laws::bytes::law_splice;
use crate::laws::firmware::lemma_id8;
use crate::nvfw::{id8, LibosMemoryRegionInitArgument};

verus! {

/// New memory is at the address it is to be at, and has its size and nothing but zeros.
pub proof fn law_allocation<A: Element>(
    dma_handle: u64,
    count: usize,
    zero: A,
    element: usize,
    handle: u64,
    size: usize,
    r: CoherentAllocation<A>,
)
    requires
        count * A::size() <= usize::MAX,
        call_ensures(CoherentAllocation::<A>::new, (dma_handle, count), r),
        call_ensures(A::zeroed, (), zero),
        call_ensures(A::size_of, (), element),
        call_ensures(CoherentAllocation::<A>::dma_handle, (&r,), handle),
        call_ensures(CoherentAllocation::<A>::size, (&r,), size),
    ensures
        r.dma_handle == dma_handle,
        handle == dma_handle,
        size == count * element,
        r.data@.len() == count,
        forall|i: int| 0 <= i < count ==> #[trigger] r.data@[i] == zero,
{
}

/// The entry of a page table for each page of an object, begun ones included, is the address
/// of that page, and nothing else is changed.
pub proof fn law_page_table(
    mem: &mut [u8],
    size: usize,
    handle: u64,
    skip: usize,
    pages: int,
    i: int,
)
    requires
        0 <= pages,
        (pages - 1) * 4096 < size <= pages * 4096,
        8 * (skip + pages) <= old(mem)@.len(),
        handle + (pages - 1) * 4096 <= u64::MAX,
        call_ensures(create_pte_array, (mem, size, handle, skip), ()),
    ensures
        final(mem)@.len() == old(mem)@.len(),
        0 <= i < pages ==> get_le64(final(mem)@, 8 * (skip + i)) == handle + i * 4096,
        0 <= i < old(mem)@.len() && !(8 * skip <= i < 8 * (skip + pages)) ==> final(mem)@[i]
            == old(mem)@[i],
{
    assert((size + 4096 - 1) / 4096 == pages);
    if 0 <= i < pages {
        lemma_pte(old(mem)@, handle, pages as nat, skip as int, i);
    }
    if 0 <= i < old(mem)@.len() {
        law_splice(old(mem)@, 8 * skip, pte_bytes(handle, pages as nat), i);
    }
}

/// A new object is registered at its position alone, with all of its address and its size in
/// bytes.
pub proof fn law_registered_object<A: Element>(
    handle: u64,
    name: &'static str,
    size: usize,
    libos: &mut CoherentAllocation<LibosMemoryRegionInitArgument>,
    libos_arg_nr: usize,
    id: u64,
    zero: A,
    r: Result<CoherentAllocation<A>, Error>,
    i: int,
)
    requires
        size * A::size() <= usize::MAX,
        call_ensures(id8, (name,), id),
        call_ensures(A::zeroed, (), zero),
        call_ensures(
            create_coherent_dma_object::<A>,
            (handle, name, size, libos, libos_arg_nr),
            r,
        ),
    ensures
        final(libos).dma_handle == old(libos).dma_handle,
        final(libos).data@.len() == old(libos).data@.len(),
        libos_arg_nr >= old(libos).data@.len() ==> {
            &&& r == Err::<CoherentAllocation<A>, Error>(Error::EINVAL)
            &&& *final(libos) == *old(libos)
        },
        libos_arg_nr < old(libos).data@.len() ==> {
            &&& r is Ok
            &&& r->Ok_0.dma_handle == handle
            &&& r->Ok_0.data@.len() == size
            &&& 0 <= i < size ==> r->Ok_0.data@[i] == zero
            &&& final(libos).data@[libos_arg_nr as int].id8 == id
            &&& final(libos).data@[libos_arg_nr as int].pa == handle
            &&& final(libos).data@[libos_arg_nr as int].size == size * A::size()
            &&& final(libos).data@[libos_arg_nr as int].kind == 1
            &&& final(libos).data@[libos_arg_nr as int].loc == 1
        },
        0 <= i < old(libos).data@.len() && i != libos_arg_nr ==> final(libos).data@[i] == old(
            libos,
        ).data@[i],
{
    if r is Ok {
        lemma_id8(name.spec_bytes(), id);
        lemma_id8(name.spec_bytes(), final(libos).data@[libos_arg_nr as int].id8);
    }
}

/// The bytes of the names of the regions.
proof fn lemma_names()
    ensures
        "LOGINIT".spec_bytes() == seq![0x4cu8, 0x4f, 0x47, 0x49, 0x4e, 0x49, 0x54],
        "LOGINTR".spec_bytes() == seq![0x4cu8, 0x4f, 0x47, 0x49, 0x4e, 0x54, 0x52],
        "LOGRM".spec_bytes() == seq![0x4cu8, 0x4f, 0x47, 0x52, 0x4d],
        "RMARGS".spec_bytes() == seq![0x52u8, 0x4d, 0x41, 0x52, 0x47, 0x53],
{
    reveal_strlit("LOGINIT");
    reveal_strlit("LOGINTR");
    reveal_strlit("LOGRM");
    reveal_strlit("RMARGS");
    is_ascii_chars_encode_utf8("LOGINIT"@);
    is_ascii_chars_encode_utf8("LOGINTR"@);
    is_ascii_chars_encode_utf8("LOGRM"@);
    is_ascii_chars_encode_utf8("RMARGS"@);
    assert("LOGINIT".spec_bytes() =~= seq![0x4cu8, 0x4f, 0x47, 0x49, 0x4e, 0x49, 0x54]);
    assert("LOGINTR".spec_bytes() =~= seq![0x4cu8, 0x4f, 0x47, 0x49, 0x4e, 0x54, 0x52]);
    assert("LOGRM".spec_bytes() =~= seq![0x4cu8, 0x4f, 0x47, 0x52, 0x4d]);
    assert("RMARGS".spec_bytes() =~= seq![0x52u8, 0x4d, 0x41, 0x52, 0x47, 0x53]);
}

/// All of the addresses of the objects, their sizes and their names reach the GSP, and nothing
/// else does.
pub proof fn law_boot_regions(handles: &GspMemHandles, r: Result<GspMemObjects, Error>, i: int)
    requires
        handles.inv(),
        call_ensures(GspMemObjects::new, (handles,), r),
    ensures
        r is Ok,
        r->Ok_0.libos.dma_handle == handles.libos,
        r->Ok_0.libos.data@.len() == 128,
        r->Ok_0.libos.data@[0].pa == handles.loginit,
        r->Ok_0.libos.data@[1].pa == handles.logintr,
        r->Ok_0.libos.data@[2].pa == handles.logrm,
        r->Ok_0.libos.data@[3].pa == handles.rmargs,
        r->Ok_0.libos.data@[0].size == 0x1_0000,
        r->Ok_0.libos.data@[1].size == 0x1_0000,
        r->Ok_0.libos.data@[2].size == 0x1_0000,
        r->Ok_0.libos.data@[3].size == 72,
        r->Ok_0.libos.data@[0].id8 == 0x4c_4f47_494e_4954,
        r->Ok_0.libos.data@[1].id8 == 0x4c_4f47_494e_5452,
        r->Ok_0.libos.data@[2].id8 == 0x4c_4f47_524d,
        r->Ok_0.libos.data@[3].id8 == 0x524d_4152_4753,
        0 <= i < 4 ==> r->Ok_0.libos.data@[i].kind == 1 && r->Ok_0.libos.data@[i].loc == 1,
        4 <= i < 128 ==> {
            let region = r->Ok_0.libos.data@[i];
            &&& region.id8 == 0
            &&& region.pa == 0
            &&& region.size == 0
            &&& region.kind == 0
            &&& region.loc == 0
        },
        r->Ok_0.loginit.dma_handle == handles.loginit,
        r->Ok_0.logintr.dma_handle == handles.logintr,
        r->Ok_0.logrm.dma_handle == handles.logrm,
        r->Ok_0.cmdq.gsp_mem.dma_handle == handles.cmdq,
        r->Ok_0.rmargs.dma_handle == handles.rmargs,
        r->Ok_0.rmargs.data@.len() == 1,
        r->Ok_0.rmargs.data@[0].shared_mem_phys_addr == handles.cmdq,
        r->Ok_0.rmargs.data@[0].page_table_entry_count == 129,
        r->Ok_0.rmargs.data@[0].cmd_queue_offset == 0x1000,
        r->Ok_0.rmargs.data@[0].stat_queue_offset == 0x4_1000,
        r->Ok_0.rmargs.data@[0].dmem_stack == 1,
        r->Ok_0.rmargs.data@[0].sr_old_level == 0,
        r->Ok_0.rmargs.data@[0].sr_flags == 0,
        r->Ok_0.rmargs.data@[0].sr_in_pm_transition == 0,
{
    lemma_names();
    let regions = r->Ok_0.libos.data@;
    lemma_id8("LOGINIT".spec_bytes(), regions[0].id8);
    lemma_id8("LOGINTR".spec_bytes(), regions[1].id8);
    lemma_id8("LOGRM".spec_bytes(), regions[2].id8);
    lemma_id8("RMARGS".spec_bytes(), regions[3].id8);
}

/// A new log is an empty first word, the addresses of its sixteen pages, and zeros.
pub open spec fn maps_itself(log: Seq<u8>, handle: u64) -> bool {
    &&& log.len() == 0x1_0000
    &&& forall|i: int|
        0 <= i < 16 ==> #[trigger] get_le64(log, 8 + 8 * i) == handle + 4096 * i
    &&& forall|i: int| 0 <= i < 0x1_0000 && !(8 <= i < 136) ==> #[trigger] log[i] == 0
}

/// Each log that the GSP writes starts with the addresses of its own pages.
pub proof fn law_boot_logs(handles: &GspMemHandles, r: Result<GspMemObjects, Error>)
    requires
        handles.inv(),
        call_ensures(GspMemObjects::new, (handles,), r),
    ensures
        maps_itself(r->Ok_0.loginit.data@, handles.loginit),
        maps_itself(r->Ok_0.logintr.data@, handles.logintr),
        maps_itself(r->Ok_0.logrm.data@, handles.logrm),
{
    lemma_log(handles.loginit);
    lemma_log(handles.logintr);
    lemma_log(handles.logrm);
}

/// A new log maps itself.
proof fn lemma_log(handle: u64)
    requires
        handle + 15 * 4096 <= u64::MAX,
    ensures
        maps_itself(new_log(handle), handle),
{
    let log = new_log(handle);
    assert forall|i: int| 0 <= i < 16 implies #[trigger] get_le64(log, 8 + 8 * i) == handle + 4096
        * i by {
        lemma_pte(zeros(0x1_0000), handle, 16, 1, i);
        assert(8 * (1 + i) == 8 + 8 * i);
    }
}

/// The queues are new: no command has been sent and no message has been read, every page is
/// zero, and the page table maps all of the shared memory.
pub open spec fn is_new(q: &GspCmdq, handle: u64) -> bool {
    &&& q.seq == 0
    &&& q.msg_count == 63
    &&& q.nr_ptes == 129
    &&& is_new_memory(&q.gsp_mem, handle)
}

/// The shared memory is new.
pub open spec fn is_new_memory(shared: &DmaGspMem, handle: u64) -> bool {
    let mem = shared.mem;
    &&& shared.dma_handle == handle
    &&& mem.ptes@.len() == 4096
    &&& forall|i: int|
        0 <= i < 129 ==> #[trigger] get_le64(mem.ptes@, 8 * i) == handle + 4096 * i
    &&& forall|i: int| 129 * 8 <= i < 4096 ==> #[trigger] mem.ptes@[i] == 0
    &&& mem.cpuq.tx.header.version == 0
    &&& mem.cpuq.tx.header.size == 0x4_0000
    &&& mem.cpuq.tx.header.msg_size == 4096
    &&& mem.cpuq.tx.header.msg_count == 63
    &&& mem.cpuq.tx.header.write_ptr == 0
    &&& mem.cpuq.tx.header.flags == 1
    &&& mem.cpuq.tx.header.rx_hdr_off == 32
    &&& mem.cpuq.tx.header.entry_off == 4096
    &&& mem.cpuq.rx.header.read_ptr == 0
    &&& mem.gspq.tx.header.version == 0
    &&& mem.gspq.tx.header.size == 0
    &&& mem.gspq.tx.header.msg_size == 0
    &&& mem.gspq.tx.header.msg_count == 0
    &&& mem.gspq.tx.header.write_ptr == 0
    &&& mem.gspq.tx.header.flags == 0
    &&& mem.gspq.tx.header.rx_hdr_off == 0
    &&& mem.gspq.tx.header.entry_off == 0
    &&& mem.gspq.rx.header.read_ptr == 0
    &&& mem.cpuq.msgq.data@.len() == 63 * 4096
    &&& mem.gspq.msgq.data@.len() == 63 * 4096
    &&& forall|i: int| 0 <= i < 63 * 4096 ==> #[trigger] mem.cpuq.msgq.data@[i] == 0
    &&& forall|i: int| 0 <= i < 63 * 4096 ==> #[trigger] mem.gspq.msgq.data@[i] == 0
}

/// The queues are new after they were set up, alone or with the rest of the memory.
pub proof fn law_new_queues(
    handle: u64,
    handles: &GspMemHandles,
    memory: DmaGspMem,
    q: GspCmdq,
    r: Result<GspMemObjects, Error>,
)
    requires
        handles.inv(),
        handle + 128 * 4096 <= u64::MAX,
        call_ensures(DmaGspMem::new, (handle,), memory),
        call_ensures(GspCmdq::new, (handle,), q),
        call_ensures(GspMemObjects::new, (handles,), r),
    ensures
        is_new_memory(&memory, handle),
        is_new(&q, handle),
        is_new(&r->Ok_0.cmdq, handles.cmdq),
{
    lemma_shared_table(handle);
    lemma_shared_table(handles.cmdq);
}

/// The page table of the shared memory.
proof fn lemma_shared_table(handle: u64)
    requires
        handle + 128 * 4096 <= u64::MAX,
    ensures
        ({
            let ptes = splice(zeros(4096), 0, pte_bytes(handle, 129));
            &&& forall|i: int|
                0 <= i < 129 ==> #[trigger] get_le64(ptes, 8 * i) == handle + 4096 * i
            &&& forall|i: int| 129 * 8 <= i < 4096 ==> #[trigger] ptes[i] == 0
        }),
{
    let ptes = splice(zeros(4096), 0, pte_bytes(handle, 129));
    assert forall|i: int| 0 <= i < 129 implies #[trigger] get_le64(ptes, 8 * i) == handle + 4096
        * i by {
        lemma_pte(zeros(4096), handle, 129, 0, i);
    }
}

/// The GSP is told where the descriptions are.
pub proof fn law_libos_handle(objects: &GspMemObjects, r: u64)
    requires
        call_ensures(GspMemObjects::libos_dma_handle, (objects,), r),
    ensures
        r == objects.libos.dma_handle,
{
}

} // verus!
