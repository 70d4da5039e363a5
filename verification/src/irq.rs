//! The interrupt table.

use vstd::prelude::*;

use crate::bytes::{append, u16_at, u16_to_le, u32_at, u32_to_le};
use crate::bytes::{
    byte_of, get_le16, get_le32, le16, le32, lemma_get_le16, lemma_get_le32, zeros,
};
use crate::error::Error;
use crate::gsp::cmdq::{sent, QUEUE_HEAD_ADDRESS};
use crate::gsp::rm_control::commands::NV2080_CTRL_CMD_INTERNAL_INTR_GET_KERNEL_TABLE;
use crate::gsp::rm_control::{rm_control_args, RmControl, RmControlParams, RmControlResponse};
use crate::gsp::{GspInfo, GspMemObjects};
use crate::nvfw::NV_VGPU_MSG_FUNCTION_GSP_RM_CONTROL;

verus! {

/// Number of entries that the interrupt table has room for.
pub const NV2080_CTRL_INTERNAL_INTR_MAX_TABLE_SIZE: usize = 128;

/// Number of categories of interrupts.
pub const NV2080_INTR_CATEGORY_ENUM_COUNT: usize = 7;

/// Size of an [`IrqTableEntry`] in a message.
pub const IRQ_TABLE_ENTRY_SIZE: usize = 16;

/// Offset of the entries in an [`IrqTableParams`].
pub const IRQ_TABLE_OFFSET: usize = 4;

/// Offset of the subtree map in an [`IrqTableParams`].
pub const SUBTREE_MAP_OFFSET: usize = 2052;

/// Size of an [`IrqTableParams`] in a message.
pub const IRQ_TABLE_PARAMS_SIZE: usize = 2068;

/// Category subtree map structure.
#[derive(Clone, Copy, Debug, PartialEq, Eq, Structural)]
pub struct SubtreeMap {
    /// First subtree of the category.
    pub subtree_start: u8,
    /// Last subtree of the category.
    pub subtree_end: u8,
}

/// Interrupt table entry.
#[derive(Clone, Copy, Debug, PartialEq, Eq, Structural)]
pub struct IrqTableEntry {
    /// The engine.
    pub engine_idx: u16,
    /// Its bits in the interrupt registers.
    pub pmc_intr_mask: u32,
    /// Its stalling interrupt vector.
    pub vector_stall: u32,
    /// Its non-stalling interrupt vector.
    pub vector_nonstall: u32,
}

impl IrqTableEntry {
    /// The bytes of the entry.
    #[verifier::opaque]
    pub open spec fn image(&self) -> Seq<u8> {
        le16(self.engine_idx) + seq![0u8, 0u8] + le32(self.pmc_intr_mask) + le32(self.vector_stall)
            + le32(self.vector_nonstall)
    }

    /// The entry that the bytes from `at` on hold.
    #[verifier::opaque]
    pub open spec fn read(s: Seq<u8>, at: int) -> Self {
        IrqTableEntry {
            engine_idx: get_le16(s, at),
            pmc_intr_mask: get_le32(s, at + 4),
            vector_stall: get_le32(s, at + 8),
            vector_nonstall: get_le32(s, at + 12),
        }
    }

    /// An entry takes [`IRQ_TABLE_ENTRY_SIZE`] bytes.
    pub proof fn lemma_size(&self)
        ensures
            self.image().len() == IRQ_TABLE_ENTRY_SIZE,
    {
        reveal(IrqTableEntry::image);
    }

    /// An entry is read back from where its bytes stand.
    pub proof fn lemma_read_of_image(&self, s: Seq<u8>, at: int)
        requires
            0 <= at,
            at + IRQ_TABLE_ENTRY_SIZE <= s.len(),
            s.subrange(at, at + IRQ_TABLE_ENTRY_SIZE) == self.image(),
        ensures
            Self::read(s, at) == *self,
    {
        reveal(IrqTableEntry::image);
        reveal(IrqTableEntry::read);
        let t = s.subrange(at, at + IRQ_TABLE_ENTRY_SIZE);
        assert(t.subrange(0, 2) =~= le16(self.engine_idx));
        assert(t.subrange(4, 8) =~= le32(self.pmc_intr_mask));
        assert(t.subrange(8, 12) =~= le32(self.vector_stall));
        assert(t.subrange(12, 16) =~= le32(self.vector_nonstall));
        assert(s.subrange(at, at + 2) =~= t.subrange(0, 2));
        assert(s.subrange(at + 4, at + 8) =~= t.subrange(4, 8));
        assert(s.subrange(at + 8, at + 12) =~= t.subrange(8, 12));
        assert(s.subrange(at + 12, at + 16) =~= t.subrange(12, 16));
        lemma_get_le16(s, at, self.engine_idx);
        lemma_get_le32(s, at + 4, self.pmc_intr_mask);
        lemma_get_le32(s, at + 8, self.vector_stall);
        lemma_get_le32(s, at + 12, self.vector_nonstall);
    }

    /// Returns the bytes of the entry.
    pub fn to_bytes(&self) -> (r: Vec<u8>)
        ensures
            r@ == self.image(),
    {
        let mut r: Vec<u8> = Vec::new();
        append(&mut r, u16_to_le(self.engine_idx).as_slice());
        r.push(0);
        r.push(0);
        append(&mut r, u32_to_le(self.pmc_intr_mask).as_slice());
        append(&mut r, u32_to_le(self.vector_stall).as_slice());
        append(&mut r, u32_to_le(self.vector_nonstall).as_slice());
        reveal(IrqTableEntry::image);
        assert(r@ =~= self.image());
        r
    }

    /// Returns the entry that the bytes from `at` on hold.
    pub fn read_at(data: &[u8], at: usize) -> (r: Self)
        requires
            at + IRQ_TABLE_ENTRY_SIZE <= data@.len(),
        ensures
            r == Self::read(data@, at as int),
    {
        reveal(IrqTableEntry::read);
        let len: usize = data.len();
        IrqTableEntry {
            engine_idx: u16_at(data, at),
            pmc_intr_mask: u32_at(data, at + 4),
            vector_stall: u32_at(data, at + 8),
            vector_nonstall: u32_at(data, at + 12),
        }
    }
}

/// The bytes of `entries`, one after the other.
pub open spec fn entries_image(entries: Seq<IrqTableEntry>) -> Seq<u8>
    decreases entries.len(),
{
    if entries.len() == 0 {
        Seq::empty()
    } else {
        entries_image(entries.drop_last()) + entries.last().image()
    }
}

/// The bytes of `subtrees`, one after the other.
pub open spec fn subtrees_image(subtrees: Seq<SubtreeMap>) -> Seq<u8>
    decreases subtrees.len(),
{
    if subtrees.len() == 0 {
        Seq::empty()
    } else {
        subtrees_image(subtrees.drop_last()) + seq![
            subtrees.last().subtree_start,
            subtrees.last().subtree_end,
        ]
    }
}

/// The bytes of the `i`-th of some entries stand at its place among their bytes.
pub proof fn lemma_entries_image(entries: Seq<IrqTableEntry>, i: int)
    requires
        0 <= i < entries.len(),
    ensures
        entries_image(entries).len() == IRQ_TABLE_ENTRY_SIZE * entries.len(),
        entries_image(entries).subrange(
            IRQ_TABLE_ENTRY_SIZE * i,
            IRQ_TABLE_ENTRY_SIZE * i + IRQ_TABLE_ENTRY_SIZE,
        ) == entries[i].image(),
    decreases entries.len(),
{
    let before = entries.drop_last();
    let last = entries.last();
    last.lemma_size();
    if before.len() > 0 {
        lemma_entries_image(
            before,
            if i < before.len() {
                i
            } else {
                0
            },
        );
    }
    assert(entries_image(before).len() == IRQ_TABLE_ENTRY_SIZE * before.len());
    let all = entries_image(entries);
    let at = IRQ_TABLE_ENTRY_SIZE * i;
    if i < before.len() {
        assert(all.subrange(at, at + IRQ_TABLE_ENTRY_SIZE) =~= entries_image(before).subrange(
            at,
            at + IRQ_TABLE_ENTRY_SIZE,
        ));
    } else {
        assert(all.subrange(at, at + IRQ_TABLE_ENTRY_SIZE) =~= last.image());
    }
}

/// The bytes of the subtrees stand at their places.
proof fn lemma_subtrees_image(subtrees: Seq<SubtreeMap>)
    ensures
        subtrees_image(subtrees).len() == 2 * subtrees.len(),
        forall|i: int|
            0 <= i < subtrees.len() ==> (#[trigger] subtrees[i]) == (SubtreeMap {
                subtree_start: subtrees_image(subtrees)[2 * i],
                subtree_end: subtrees_image(subtrees)[2 * i + 1],
            }),
    decreases subtrees.len(),
{
    if subtrees.len() > 0 {
        let before = subtrees.drop_last();
        lemma_subtrees_image(before);
        assert forall|i: int| 0 <= i < subtrees.len() implies (#[trigger] subtrees[i]) == (
        SubtreeMap {
            subtree_start: subtrees_image(subtrees)[2 * i],
            subtree_end: subtrees_image(subtrees)[2 * i + 1],
        }) by {
            if i < before.len() {
                assert(before[i] == subtrees[i]);
            }
        }
    }
}

/// Parameters structure for the command that asks for the interrupt table.
pub struct IrqTableParams {
    /// Number of entries in use.
    pub table_len: u32,
    /// The entries.
    pub table: [IrqTableEntry; NV2080_CTRL_INTERNAL_INTR_MAX_TABLE_SIZE],
    /// The subtrees of the categories.
    pub subtree_map: [SubtreeMap; NV2080_INTR_CATEGORY_ENUM_COUNT],
}

impl IrqTableParams {
    /// No entries.
    pub fn empty() -> (r: Self)
        ensures
            r.table_len == 0,
            forall|i: int| 0 <= i < 128 ==> (#[trigger] r.table@[i]) == (IrqTableEntry {
                engine_idx: 0,
                pmc_intr_mask: 0,
                vector_stall: 0,
                vector_nonstall: 0,
            }),
            forall|i: int| 0 <= i < 7 ==> (#[trigger] r.subtree_map@[i]) == (SubtreeMap {
                subtree_start: 0,
                subtree_end: 0,
            }),
    {
        IrqTableParams {
            table_len: 0,
            table: [IrqTableEntry {
                engine_idx: 0,
                pmc_intr_mask: 0,
                vector_stall: 0,
                vector_nonstall: 0,
            }; 128],
            subtree_map: [SubtreeMap { subtree_start: 0, subtree_end: 0 }; 7],
        }
    }
}

impl RmControlParams for IrqTableParams {
    open spec fn image(&self) -> Seq<u8> {
        le32(self.table_len) + entries_image(self.table@) + subtrees_image(self.subtree_map@)
            + seq![0u8, 0u8]
    }

    fn to_bytes(&self) -> (r: Vec<u8>) {
        let mut r: Vec<u8> = Vec::new();
        append(&mut r, u32_to_le(self.table_len).as_slice());
        let ghost head = r@;
        let mut i: usize = 0;
        assert(self.table@.take(0) =~= Seq::empty());
        assert(r@ =~= head + entries_image(self.table@.take(0)));
        while i < NV2080_CTRL_INTERNAL_INTR_MAX_TABLE_SIZE
            invariant
                i <= NV2080_CTRL_INTERNAL_INTR_MAX_TABLE_SIZE,
                r@ == head + entries_image(self.table@.take(i as int)),
            decreases NV2080_CTRL_INTERNAL_INTR_MAX_TABLE_SIZE - i,
        {
            append(&mut r, self.table[i].to_bytes().as_slice());
            assert(self.table@.take(i + 1).drop_last() =~= self.table@.take(i as int));
            assert(r@ =~= head + entries_image(self.table@.take(i + 1)));
            i = i + 1;
        }
        assert(self.table@.take(128) =~= self.table@);
        let ghost head = r@;
        let mut k: usize = 0;
        assert(self.subtree_map@.take(0) =~= Seq::empty());
        assert(r@ =~= head + subtrees_image(self.subtree_map@.take(0)));
        while k < NV2080_INTR_CATEGORY_ENUM_COUNT
            invariant
                k <= NV2080_INTR_CATEGORY_ENUM_COUNT,
                r@ == head + subtrees_image(self.subtree_map@.take(k as int)),
            decreases NV2080_INTR_CATEGORY_ENUM_COUNT - k,
        {
            r.push(self.subtree_map[k].subtree_start);
            r.push(self.subtree_map[k].subtree_end);
            assert(self.subtree_map@.take(k + 1).drop_last() =~= self.subtree_map@.take(
                k as int,
            ));
            assert(r@ =~= head + subtrees_image(self.subtree_map@.take(k + 1)));
            k = k + 1;
        }
        assert(self.subtree_map@.take(7) =~= self.subtree_map@);
        r.push(0);
        r.push(0);
        assert(r@ =~= self.image());
        r
    }
}

impl IrqTableParams {
    /// These are the parameters that the bytes `data` hold.
    pub open spec fn read_from(&self, data: Seq<u8>) -> bool {
        &&& self.table_len == get_le32(data, 0)
        &&& forall|i: int|
            0 <= i < NV2080_CTRL_INTERNAL_INTR_MAX_TABLE_SIZE ==> (#[trigger] self.table@[i])
                == IrqTableEntry::read(data, IRQ_TABLE_OFFSET + IRQ_TABLE_ENTRY_SIZE * i)
        &&& forall|i: int|
            0 <= i < NV2080_INTR_CATEGORY_ENUM_COUNT ==> (#[trigger] self.subtree_map@[i]) == (
            SubtreeMap {
                subtree_start: data[SUBTREE_MAP_OFFSET + 2 * i],
                subtree_end: data[SUBTREE_MAP_OFFSET + 2 * i + 1],
            })
    }

    /// Returns the parameters that `data` holds, or [`Error::EINVAL`] if it is too short.
    pub fn from_bytes(data: &[u8]) -> (r: Result<Self, Error>)
        ensures
            r is Ok <==> data@.len() >= IRQ_TABLE_PARAMS_SIZE,
            r is Ok ==> r->Ok_0.read_from(data@),
            r is Err ==> r->Err_0 == Error::EINVAL,
    {
        if data.len() < IRQ_TABLE_PARAMS_SIZE {
            return Err(Error::EINVAL);
        }
        let mut params = IrqTableParams::empty();
        params.table_len = u32_at(data, 0);
        let mut i: usize = 0;
        while i < NV2080_CTRL_INTERNAL_INTR_MAX_TABLE_SIZE
            invariant
                i <= NV2080_CTRL_INTERNAL_INTR_MAX_TABLE_SIZE,
                data@.len() >= IRQ_TABLE_PARAMS_SIZE,
                params.table_len == get_le32(data@, 0),
                forall|j: int|
                    0 <= j < i ==> (#[trigger] params.table@[j]) == IrqTableEntry::read(
                        data@,
                        IRQ_TABLE_OFFSET + IRQ_TABLE_ENTRY_SIZE * j,
                    ),
            decreases NV2080_CTRL_INTERNAL_INTR_MAX_TABLE_SIZE - i,
        {
            params.table[i] = IrqTableEntry::read_at(
                data,
                IRQ_TABLE_OFFSET + IRQ_TABLE_ENTRY_SIZE * i,
            );
            i = i + 1;
        }
        let mut k: usize = 0;
        while k < NV2080_INTR_CATEGORY_ENUM_COUNT
            invariant
                k <= NV2080_INTR_CATEGORY_ENUM_COUNT,
                data@.len() >= IRQ_TABLE_PARAMS_SIZE,
                params.table_len == get_le32(data@, 0),
                forall|j: int|
                    0 <= j < NV2080_CTRL_INTERNAL_INTR_MAX_TABLE_SIZE ==> (
                    #[trigger] params.table@[j]) == IrqTableEntry::read(
                        data@,
                        IRQ_TABLE_OFFSET + IRQ_TABLE_ENTRY_SIZE * j,
                    ),
                forall|j: int|
                    0 <= j < k ==> (#[trigger] params.subtree_map@[j]) == (SubtreeMap {
                        subtree_start: data@[SUBTREE_MAP_OFFSET + 2 * j],
                        subtree_end: data@[SUBTREE_MAP_OFFSET + 2 * j + 1],
                    }),
            decreases NV2080_INTR_CATEGORY_ENUM_COUNT - k,
        {
            params.subtree_map[k] = SubtreeMap {
                subtree_start: data[SUBTREE_MAP_OFFSET + 2 * k],
                subtree_end: data[SUBTREE_MAP_OFFSET + 2 * k + 1],
            };
            k = k + 1;
        }
        Ok(params)
    }
}

/// Parsed representation of interrupt table.
pub struct IrqTable {
    /// Number of entries.
    pub table_len: u32,
    /// The entries.
    pub entries: Vec<IrqTableEntry>,
}

impl RmControlResponse for IrqTable {
    /// The entries in use, or [`Error::EINVAL`] if the data is too short or more entries are
    /// said to be in use than there is room for.
    open spec fn parses_to(data: Seq<u8>, r: Result<Self, Error>) -> bool {
        if data.len() < IRQ_TABLE_PARAMS_SIZE || get_le32(data, 0)
            > NV2080_CTRL_INTERNAL_INTR_MAX_TABLE_SIZE {
            r == Err::<Self, Error>(Error::EINVAL)
        } else {
            &&& r is Ok
            &&& r->Ok_0.table_len == get_le32(data, 0)
            &&& r->Ok_0.entries@ == Seq::new(
                get_le32(data, 0) as nat,
                |i: int| IrqTableEntry::read(data, IRQ_TABLE_OFFSET + IRQ_TABLE_ENTRY_SIZE * i),
            )
        }
    }

    fn from_bytes(data: &[u8]) -> (r: Result<Self, Error>) {
        let params = match IrqTableParams::from_bytes(data) {
            Ok(params) => params,
            Err(e) => {
                return Err(e);
            },
        };
        // Create entries vector from the valid portion of the table
        let mut entries: Vec<IrqTableEntry> = Vec::new();
        let table_len: usize = params.table_len as usize;
        if table_len > NV2080_CTRL_INTERNAL_INTR_MAX_TABLE_SIZE {
            return Err(Error::EINVAL);
        }
        let mut i: usize = 0;
        while i < table_len
            invariant
                i <= table_len,
                table_len <= NV2080_CTRL_INTERNAL_INTR_MAX_TABLE_SIZE,
                params.read_from(data@),
                entries@.len() == i,
                forall|j: int|
                    0 <= j < i ==> (#[trigger] entries@[j]) == IrqTableEntry::read(
                        data@,
                        IRQ_TABLE_OFFSET + IRQ_TABLE_ENTRY_SIZE * j,
                    ),
            decreases table_len - i,
        {
            entries.push(params.table[i]);
            i = i + 1;
        }
        assert(entries@ =~= Seq::new(
            table_len as nat,
            |i: int| IrqTableEntry::read(data@, IRQ_TABLE_OFFSET + IRQ_TABLE_ENTRY_SIZE * i),
        ));
        Ok(IrqTable { table_len: params.table_len, entries })
    }
}

/// Parameters are read back from their bytes.
pub proof fn lemma_params_round_trip(params: &IrqTableParams)
    ensures
        params.read_from(params.image()),
{
    let data = params.image();
    lemma_params_image(params);
    assert forall|i: int| 0 <= i < NV2080_CTRL_INTERNAL_INTR_MAX_TABLE_SIZE implies (
    #[trigger] params.table@[i]) == IrqTableEntry::read(
        data,
        IRQ_TABLE_OFFSET + IRQ_TABLE_ENTRY_SIZE * i,
    ) by {
        lemma_entries_image(params.table@, i);
        let at = IRQ_TABLE_OFFSET + IRQ_TABLE_ENTRY_SIZE * i;
        let entries = entries_image(params.table@);
        assert(data.subrange(at, at + IRQ_TABLE_ENTRY_SIZE) =~= entries.subrange(
            IRQ_TABLE_ENTRY_SIZE * i,
            IRQ_TABLE_ENTRY_SIZE * i + IRQ_TABLE_ENTRY_SIZE,
        ));
        params.table@[i].lemma_read_of_image(data, at);
    }
    lemma_entries_image(params.table@, 0);
    lemma_subtrees_image(params.subtree_map@);
}

/// A table that is sent is parsed to its entries in use.
pub proof fn lemma_table_round_trip(params: &IrqTableParams, r: Result<IrqTable, Error>)
    requires
        params.table_len <= NV2080_CTRL_INTERNAL_INTR_MAX_TABLE_SIZE,
        IrqTable::parses_to(params.image(), r),
    ensures
        r is Ok,
        r->Ok_0.table_len == params.table_len,
        r->Ok_0.entries@ == params.table@.take(params.table_len as int),
{
    lemma_params_image(params);
    lemma_params_round_trip(params);
    assert(r->Ok_0.entries@ =~= params.table@.take(params.table_len as int));
}

/// The size of the parameters, and where the number of entries stands.
pub proof fn lemma_params_image(params: &IrqTableParams)
    ensures
        params.image().len() == IRQ_TABLE_PARAMS_SIZE,
        get_le32(params.image(), 0) == params.table_len,
{
    lemma_entries_image(params.table@, 0);
    lemma_subtrees_image(params.subtree_map@);
    assert(params.image().subrange(0, 4) =~= le32(params.table_len));
    lemma_get_le32(params.image(), 0, params.table_len);
}

/// Asks for the interrupt table. Fails with [`Error::EAGAIN`] if no page of the queue is
/// free.
///
/// Returns the address to write to the queue head register, which makes the GSP look at the
/// queue. The response is an [`IrqTable`].
pub fn dump_table(libos: &mut GspMemObjects, gsp_info: &GspInfo) -> (r: Result<u32, Error>)
    requires
        old(libos).cmdq.inv(),
        old(libos).cmdq.free_pages() >= 1 ==> old(libos).cmdq.seq < u32::MAX,
    ensures
        r == (if old(libos).cmdq.free_pages() >= 1 {
            Ok::<u32, Error>(QUEUE_HEAD_ADDRESS)
        } else {
            Err(Error::EAGAIN)
        }),
        r is Ok ==> sent(
            &old(libos).cmdq,
            &final(libos).cmdq,
            NV_VGPU_MSG_FUNCTION_GSP_RM_CONTROL,
            rm_control_args(
                gsp_info,
                NV2080_CTRL_CMD_INTERNAL_INTR_GET_KERNEL_TABLE,
                zeros(IRQ_TABLE_PARAMS_SIZE as nat),
            ),
        ),
        r is Err ==> final(libos).cmdq == old(libos).cmdq,
        *final(libos) == (GspMemObjects { cmdq: final(libos).cmdq, ..*old(libos) }),
{
    let params = IrqTableParams::empty();
    proof {
        lemma_params_image(&params);
        lemma_empty_image(&params);
    }
    let mut rm_control = RmControl::new(&mut libos.cmdq, gsp_info);
    rm_control.send(NV2080_CTRL_CMD_INTERNAL_INTR_GET_KERNEL_TABLE, Some(&params))
}

/// The bytes of parameters without entries are zero.
proof fn lemma_empty_image(params: &IrqTableParams)
    requires
        params.table_len == 0,
        forall|i: int| 0 <= i < 128 ==> (#[trigger] params.table@[i]) == (IrqTableEntry {
            engine_idx: 0,
            pmc_intr_mask: 0,
            vector_stall: 0,
            vector_nonstall: 0,
        }),
        forall|i: int| 0 <= i < 7 ==> (#[trigger] params.subtree_map@[i]) == (SubtreeMap {
            subtree_start: 0,
            subtree_end: 0,
        }),
    ensures
        params.image() == zeros(IRQ_TABLE_PARAMS_SIZE as nat),
{
    lemma_params_image(params);
    lemma_zero_entries(params.table@);
    lemma_zero_subtrees(params.subtree_map@);
    reveal(byte_of);
    assert(params.image() =~= zeros(IRQ_TABLE_PARAMS_SIZE as nat));
}

/// The bytes of zero entries are zero.
proof fn lemma_zero_entries(entries: Seq<IrqTableEntry>)
    requires
        forall|i: int| 0 <= i < entries.len() ==> (#[trigger] entries[i]) == (IrqTableEntry {
            engine_idx: 0,
            pmc_intr_mask: 0,
            vector_stall: 0,
            vector_nonstall: 0,
        }),
    ensures
        entries_image(entries) == zeros(16 * entries.len()),
    decreases entries.len(),
{
    if entries.len() > 0 {
        lemma_zero_entries(entries.drop_last());
        reveal(IrqTableEntry::image);
        reveal(byte_of);
        assert(entries.last() == entries[entries.len() - 1]);
        assert(entries.last().image() =~= zeros(16));
    }
    assert(entries_image(entries) =~= zeros(16 * entries.len()));
}

/// The bytes of zero subtrees are zero.
proof fn lemma_zero_subtrees(subtrees: Seq<SubtreeMap>)
    requires
        forall|i: int| 0 <= i < subtrees.len() ==> (#[trigger] subtrees[i]) == (SubtreeMap {
            subtree_start: 0,
            subtree_end: 0,
        }),
    ensures
        subtrees_image(subtrees) == zeros(2 * subtrees.len()),
    decreases subtrees.len(),
{
    if subtrees.len() > 0 {
        lemma_zero_subtrees(subtrees.drop_last());
        assert(subtrees.last() == subtrees[subtrees.len() - 1]);
    }
    assert(subtrees_image(subtrees) =~= zeros(2 * subtrees.len()));
}

} // verus!
