//! Commands that the driver sends while the GSP boots.

use vstd::prelude::*;
use vstd::string::StringSliceAdditionalSpecFns;
use vstd::utf8::is_ascii_chars_encode_utf8;

use crate::bytes::{append, lemma_splice_join, put_bytes, splice};
use crate::error::Error;
use crate::gsp::cmdq::{
    command_header, lemma_command_filled, sent, GspCmdq, GspCommandToGsp, QUEUE_HEAD_ADDRESS,
};
use crate::gsp::fw::commands::{
    GspSystemInfo, PackedRegistryEntry, PackedRegistryTable, PciDevice, REGISTRY_ENTRY_SIZE,
    REGISTRY_TABLE_SIZE, SYSTEM_INFO_SIZE,
};
use crate::gsp::ring::placed;
use crate::gsp::GSP_PAGE_SIZE;
use crate::nvfw::{
    pages_of, MSG_ELEMENT_SIZE, NV_VGPU_MSG_FUNCTION_GSP_SET_SYSTEM_INFO,
    NV_VGPU_MSG_FUNCTION_SET_REGISTRY, REGISTRY_TABLE_ENTRY_TYPE_DWORD,
};
use crate::sbuffer::SBuffer;

verus! {

/// Number of entries of the registry.
pub const GSP_REGISTRY_NUM_ENTRIES: usize = 2;

/// An entry of the registry.
pub struct RegistryEntry {
    /// Name of the entry.
    pub key: &'static str,
    /// Value of the entry.
    pub value: u32,
}

/// The registry.
pub struct RegistryTable {
    /// The entries.
    pub entries: [RegistryEntry; GSP_REGISTRY_NUM_ENTRIES],
}

impl GspCommandToGsp for PackedRegistryTable {
    open spec fn function() -> u32 {
        NV_VGPU_MSG_FUNCTION_SET_REGISTRY
    }

    open spec fn size() -> nat {
        REGISTRY_TABLE_SIZE as nat
    }

    fn function_code() -> (r: u32) {
        NV_VGPU_MSG_FUNCTION_SET_REGISTRY
    }

    fn size_of() -> (r: usize) {
        REGISTRY_TABLE_SIZE
    }
}

impl GspCommandToGsp for GspSystemInfo {
    open spec fn function() -> u32 {
        NV_VGPU_MSG_FUNCTION_GSP_SET_SYSTEM_INFO
    }

    open spec fn size() -> nat {
        SYSTEM_INFO_SIZE as nat
    }

    fn function_code() -> (r: u32) {
        NV_VGPU_MSG_FUNCTION_GSP_SET_SYSTEM_INFO
    }

    fn size_of() -> (r: usize) {
        SYSTEM_INFO_SIZE
    }
}

/// The names of `entries`, one after the other, each with a terminating NUL.
pub open spec fn names(entries: Seq<RegistryEntry>) -> Seq<u8>
    decreases entries.len(),
{
    if entries.len() == 0 {
        Seq::empty()
    } else {
        names(entries.drop_last()) + entries.last().key.spec_bytes() + seq![0u8]
    }
}

/// What writes of `pieces`, one after the other, make of `bytes` from `pos` on: the bytes,
/// the position, and whether all of them fit. The first one that does not fit ends it.
pub open spec fn write_each(bytes: Seq<u8>, pos: int, pieces: Seq<Seq<u8>>) -> (
    Seq<u8>,
    int,
    bool,
)
    decreases pieces.len(),
{
    if pieces.len() == 0 {
        (bytes, pos, true)
    } else if pieces[0].len() <= bytes.len() - pos {
        write_each(
            splice(bytes, pos, pieces[0]),
            (pos + pieces[0].len()) as int,
            pieces.drop_first(),
        )
    } else {
        (bytes, pos, false)
    }
}

impl RegistryTable {
    /// Where the names start, counted from the start of the table.
    pub open spec fn names_offset() -> int {
        REGISTRY_TABLE_SIZE + GSP_REGISTRY_NUM_ENTRIES * REGISTRY_ENTRY_SIZE
    }

    /// Where the name of the `i`-th entry starts, counted from the start of the table.
    pub open spec fn name_offset(&self, i: int) -> int {
        Self::names_offset() + names(self.entries@.take(i)).len()
    }

    /// The `i`-th entry, as the firmware reads it.
    pub open spec fn packed_entry(&self, i: int) -> PackedRegistryEntry {
        PackedRegistryEntry {
            name_offset: (self.name_offset(i) % 0x1_0000_0000) as u32,
            kind: REGISTRY_TABLE_ENTRY_TYPE_DWORD,
            data: self.entries@[i].value,
            length: 0,
        }
    }

    /// The pieces that follow the header of the table.
    pub open spec fn pieces(&self) -> Seq<Seq<u8>> {
        seq![
            self.packed_entry(0).image(),
            self.packed_entry(1).image(),
            names(self.entries@),
        ]
    }

    /// What follows the header of the table.
    pub open spec fn payload(&self) -> Seq<u8> {
        self.packed_entry(0).image() + self.packed_entry(1).image() + names(self.entries@)
    }

    /// Writes the entries and their names. Fails with [`Error::ENOSPC`] at the first of them
    /// that does not fit.
    #[verifier::rlimit(40)]
    pub fn write_payload(&self, sbuffer: &mut SBuffer<'_>) -> (r: Result<(), Error>)
        requires
            old(sbuffer).inv(),
            Self::names_offset() + names(self.entries@).len() <= usize::MAX,
        ensures
            0 < old(sbuffer).len ==> final(final(sbuffer).slices@[0]->0)@ == final(
                old(sbuffer).slices@[0]->0
            )@,
            1 < old(sbuffer).len ==> final(final(sbuffer).slices@[1]->0)@ == final(
                old(sbuffer).slices@[1]->0
            )@,
            final(sbuffer).inv(),
            final(sbuffer).same_shape(old(sbuffer)),
            (final(sbuffer).bytes(), final(sbuffer).pos(), r is Ok) == write_each(
                old(sbuffer).bytes(),
                old(sbuffer).pos(),
                self.pieces(),
            ),
            r is Err ==> r->Err_0 == Error::ENOSPC,
    {
        let string_data_start_offset: usize = REGISTRY_TABLE_SIZE + GSP_REGISTRY_NUM_ENTRIES
            * REGISTRY_ENTRY_SIZE;
        let ghost pieces = self.pieces();
        let ghost goal = write_each(sbuffer.bytes(), sbuffer.pos(), pieces);
        // Array for string data.
        let mut string_data: Vec<u8> = Vec::new();
        let mut i: usize = 0;
        assert(self.entries@.take(0) =~= Seq::empty());
        assert(pieces.skip(0) =~= pieces);
        assert(self.entries@.take(GSP_REGISTRY_NUM_ENTRIES as int) =~= self.entries@);
        proof {
            lemma_names_monotonic(self.entries@, 1);
            lemma_names_monotonic(self.entries@, 0);
        }
        while i < GSP_REGISTRY_NUM_ENTRIES
            invariant
                i <= GSP_REGISTRY_NUM_ENTRIES,
                string_data_start_offset == Self::names_offset(),
                Self::names_offset() + names(self.entries@).len() <= usize::MAX,
                names(self.entries@.take(0)).len() <= names(self.entries@).len(),
                names(self.entries@.take(1)).len() <= names(self.entries@).len(),
                self.entries@.take(2) == self.entries@,
                string_data@ == names(self.entries@.take(i as int)),
                pieces == self.pieces(),
                sbuffer.inv(),
                sbuffer.same_shape(old(sbuffer)),
                0 < old(sbuffer).len ==> final(sbuffer.slices@[0]->0)@ == final(
                    old(sbuffer).slices@[0]->0
                )@,
                1 < old(sbuffer).len ==> final(sbuffer.slices@[1]->0)@ == final(
                    old(sbuffer).slices@[1]->0
                )@,
                goal == write_each(old(sbuffer).bytes(), old(sbuffer).pos(), pieces),
                write_each(sbuffer.bytes(), sbuffer.pos(), pieces.skip(i as int)) == goal,
            decreases GSP_REGISTRY_NUM_ENTRIES - i,
        {
            let offset: usize = string_data_start_offset + string_data.len();
            let entry = PackedRegistryEntry::new(
                (offset as u64 % 0x1_0000_0000) as u32,
                self.entries[i].value,
            );
            assert(entry == self.packed_entry(i as int));
            let image = entry.to_bytes();
            assert(pieces.skip(i as int)[0] == image@);
            assert(pieces.skip(i as int).drop_first() =~= pieces.skip(i + 1));
            match sbuffer.write_slice(image.as_slice()) {
                Ok(_) => (),
                Err(e) => {
                    return Err(e);
                },
            }
            let key_bytes = self.entries[i].key.as_bytes();
            append(&mut string_data, key_bytes);
            string_data.push(0);
            assert(self.entries@.take(i + 1).drop_last() =~= self.entries@.take(i as int));
            assert(string_data@ =~= names(self.entries@.take(i + 1)));
            i = i + 1;
        }
        proof {
            assert(pieces.skip(2) =~= seq![string_data@]);
            lemma_write_one(sbuffer.bytes(), sbuffer.pos(), string_data@);
        }
        sbuffer.write_slice(string_data.as_slice())
    }

    /// Returns the size of what follows the header of the table.
    pub fn size(&self) -> (r: usize)
        requires
            Self::names_offset() + names(self.entries@).len() <= usize::MAX,
        ensures
            r == GSP_REGISTRY_NUM_ENTRIES * REGISTRY_ENTRY_SIZE + names(self.entries@).len(),
    {
        let mut key_size: usize = 0;
        let mut i: usize = 0;
        assert(self.entries@.take(0) =~= Seq::empty());
        assert(self.entries@.take(GSP_REGISTRY_NUM_ENTRIES as int) =~= self.entries@);
        proof {
            lemma_names_monotonic(self.entries@, 1);
        }
        while i < GSP_REGISTRY_NUM_ENTRIES
            invariant
                i <= GSP_REGISTRY_NUM_ENTRIES,
                Self::names_offset() + names(self.entries@).len() <= usize::MAX,
                names(self.entries@.take(1)).len() <= names(self.entries@).len(),
                self.entries@.take(2) == self.entries@,
                key_size == names(self.entries@.take(i as int)).len(),
            decreases GSP_REGISTRY_NUM_ENTRIES - i,
        {
            let key_bytes = self.entries[i].key.as_bytes();
            assert(self.entries@.take(i + 1).drop_last() =~= self.entries@.take(i as int));
            // +1 for NULL terminator
            key_size = key_size + (key_bytes.len() + 1);
            i = i + 1;
        }
        GSP_REGISTRY_NUM_ENTRIES * REGISTRY_ENTRY_SIZE + key_size
    }
}

/// A write of one piece.
proof fn lemma_write_one(bytes: Seq<u8>, pos: int, piece: Seq<u8>)
    ensures
        write_each(bytes, pos, seq![piece]) == (if piece.len() <= bytes.len() - pos {
            (splice(bytes, pos, piece), pos + piece.len(), true)
        } else {
            (bytes, pos, false)
        }),
{
    reveal_with_fuel(write_each, 2);
    assert(seq![piece].drop_first() =~= Seq::empty());
}

/// The names of the first entries are not longer than those of all of them.
proof fn lemma_names_monotonic(entries: Seq<RegistryEntry>, i: int)
    requires
        0 <= i <= entries.len(),
    ensures
        names(entries.take(i)).len() <= names(entries).len(),
    decreases entries.len(),
{
    if i < entries.len() {
        assert(entries.drop_last().take(i) =~= entries.take(i));
        lemma_names_monotonic(entries.drop_last(), i);
    } else {
        assert(entries.take(i) =~= entries);
    }
}

/// Where there is room, the payload is written, all of it and in one piece.
pub proof fn lemma_payload_fits(table: &RegistryTable, bytes: Seq<u8>, pos: int)
    requires
        0 <= pos,
        pos + table.payload().len() <= bytes.len(),
    ensures
        write_each(bytes, pos, table.pieces()) == (
            splice(bytes, pos, table.payload()),
            pos + table.payload().len(),
            true,
        ),
{
    let a = table.packed_entry(0).image();
    let b = table.packed_entry(1).image();
    let c = names(table.entries@);
    let pieces = table.pieces();
    let s1 = splice(bytes, pos, a);
    let s2 = splice(s1, pos + a.len(), b);
    assert(pieces.drop_first() =~= seq![b, c]);
    assert(seq![b, c].drop_first() =~= seq![c]);
    assert(write_each(bytes, pos, pieces) == write_each(s1, pos + a.len(), seq![b, c]));
    assert(write_each(s1, pos + a.len(), seq![b, c]) == write_each(
        s2,
        pos + a.len() + b.len(),
        seq![c],
    ));
    lemma_write_one(s2, pos + a.len() + b.len(), c);
    lemma_splice_join(bytes, pos, a, b);
    lemma_splice_join(bytes, pos, a + b, c);
}

/// The size of the registry is the size of what is written for it.
pub proof fn lemma_registry_size(table: &RegistryTable)
    ensures
        table.payload().len() == GSP_REGISTRY_NUM_ENTRIES * REGISTRY_ENTRY_SIZE + names(
            table.entries@,
        ).len(),
{
    table.packed_entry(0).lemma_size();
    table.packed_entry(1).lemma_size();
}

/// The offset that an entry holds is where its name stands in the table, followed by a
/// NUL. `header` are the bytes of the header of the table.
pub proof fn lemma_registry_names(table: &RegistryTable, header: Seq<u8>, i: int)
    requires
        header.len() == REGISTRY_TABLE_SIZE,
        0 <= i < GSP_REGISTRY_NUM_ENTRIES,
        // The offset fits its field.
        table.name_offset(i) <= u32::MAX,
    ensures
        ({
            let at = table.packed_entry(i).name_offset as int;
            let key = table.entries@[i].key.spec_bytes();
            let all = header + table.payload();
            &&& at + key.len() < all.len()
            &&& all.subrange(at, at + key.len()) == key
            &&& all[at + key.len()] == 0
        }),
{
    let entries = table.entries@;
    lemma_two_names(entries);
    table.packed_entry(0).lemma_size();
    table.packed_entry(1).lemma_size();
    lemma_names_at(
        header,
        table.packed_entry(0).image() + table.packed_entry(1).image(),
        entries[0].key.spec_bytes(),
        entries[1].key.spec_bytes(),
    );
}

/// Where two names stand behind a header and entries.
proof fn lemma_names_at(header: Seq<u8>, packed: Seq<u8>, key_0: Seq<u8>, key_1: Seq<u8>)
    ensures
        ({
            let nul = seq![0u8];
            let all = header + (packed + (key_0 + nul + key_1 + nul));
            let at_0 = header.len() + packed.len() as int;
            let at_1 = at_0 + key_0.len() + 1;
            &&& all.len() == at_1 + key_1.len() + 1
            &&& all.subrange(at_0, at_0 + key_0.len()) == key_0
            &&& all[at_0 + key_0.len()] == 0
            &&& all.subrange(at_1, at_1 + key_1.len()) == key_1
            &&& all[at_1 + key_1.len()] == 0
        }),
{
    let nul = seq![0u8];
    let all = header + (packed + (key_0 + nul + key_1 + nul));
    assert(all =~= (header + packed) + key_0 + (nul + key_1 + nul));
    lemma_in_middle(header + packed, key_0, nul + key_1 + nul);
    assert(all =~= (header + packed + key_0 + nul) + key_1 + nul);
    lemma_in_middle(header + packed + key_0 + nul, key_1, nul);
}

/// The names of two entries.
proof fn lemma_two_names(entries: Seq<RegistryEntry>)
    requires
        entries.len() == 2,
    ensures
        names(entries.take(0)) == Seq::<u8>::empty(),
        names(entries.take(1)) == entries[0].key.spec_bytes() + seq![0u8],
        names(entries) == entries[0].key.spec_bytes() + seq![0u8] + entries[1].key.spec_bytes()
            + seq![0u8],
{
    let none = entries.take(0);
    let one = entries.take(1);
    assert(none.len() == 0);
    assert(entries.drop_last() =~= one);
    assert(one.drop_last() =~= none);
    assert(one.last() == entries[0]);
    assert(names(none) =~= Seq::<u8>::empty());
    assert(names(one) == names(none) + one.last().key.spec_bytes() + seq![0u8]);
    assert(names(one) =~= entries[0].key.spec_bytes() + seq![0u8]);
}

/// The middle one of three joined pieces, and what comes after it.
proof fn lemma_in_middle(a: Seq<u8>, b: Seq<u8>, c: Seq<u8>)
    requires
        c.len() > 0,
    ensures
        (a + b + c).subrange(a.len() as int, (a.len() + b.len()) as int) == b,
        (a + b + c)[(a.len() + b.len()) as int] == c[0],
{
    assert((a + b + c).subrange(a.len() as int, (a.len() + b.len()) as int) =~= b);
}

/// The arguments of the command that sets the registry.
pub open spec fn registry_args() -> Seq<u8> {
    (PackedRegistryTable { size: 74, num_entries: 2 }).image() + (PackedRegistryEntry {
        name_offset: 40,
        kind: REGISTRY_TABLE_ENTRY_TYPE_DWORD,
        data: 1,
        length: 0,
    }).image() + (PackedRegistryEntry {
        name_offset: 60,
        kind: REGISTRY_TABLE_ENTRY_TYPE_DWORD,
        data: 1,
        length: 0,
    }).image() + "RMSecBusResetEnable".spec_bytes() + seq![0u8]
        + "RMForcePcieConfigSave".spec_bytes() + seq![0u8]
}

/// The command that sets the registry has 82 bytes of arguments, and takes one page.
pub proof fn lemma_registry_args()
    ensures
        registry_args().len() == 82,
        pages_of((MSG_ELEMENT_SIZE + registry_args().len()) as int) == 1,
{
    reveal_strlit("RMSecBusResetEnable");
    reveal_strlit("RMForcePcieConfigSave");
    is_ascii_chars_encode_utf8("RMSecBusResetEnable"@);
    is_ascii_chars_encode_utf8("RMForcePcieConfigSave"@);
    reveal(PackedRegistryEntry::image);
    assert(registry_args().len() == 82);
}

/// The registry that the driver sets.
fn boot_registry() -> (r: RegistryTable)
    ensures
        names(r.entries@).len() == 42,
        (PackedRegistryTable { size: 74, num_entries: 2 }).image() + r.payload()
            == registry_args(),
{
    let r = RegistryTable {
        entries: [
            RegistryEntry { key: "RMSecBusResetEnable", value: 1 },
            RegistryEntry { key: "RMForcePcieConfigSave", value: 1 },
        ],
    };
    proof {
        reveal_strlit("RMSecBusResetEnable");
        reveal_strlit("RMForcePcieConfigSave");
        is_ascii_chars_encode_utf8("RMSecBusResetEnable"@);
        is_ascii_chars_encode_utf8("RMForcePcieConfigSave"@);
        lemma_two_names(r.entries@);
        assert((PackedRegistryTable { size: 74, num_entries: 2 }).image() + r.payload()
            =~= registry_args());
    }
    r
}

/// Bytes written in two pieces at the start of two joined parts.
proof fn lemma_args_in_pieces(
    part_1: Seq<u8>,
    part_2: Seq<u8>,
    msg: Seq<u8>,
    payload: Seq<u8>,
    data: Seq<u8>,
    wrapped: Seq<u8>,
)
    requires
        msg.len() <= part_1.len(),
        msg.len() + payload.len() <= part_1.len() + part_2.len(),
        data + wrapped == splice(part_1.skip(msg.len() as int) + part_2, 0, payload),
    ensures
        msg + data + wrapped == splice(part_1 + part_2, 0, msg + payload),
{
    let rest = part_1.skip(msg.len() as int) + part_2;
    assert(msg + data + wrapped =~= msg + (data + wrapped));
    assert(msg + splice(rest, 0, payload) =~= splice(part_1 + part_2, 0, msg + payload));
}

/// Sends the registry to the GSP. Fails with [`Error::EAGAIN`] if no page of the queue is
/// free.
#[verifier::rlimit(40)]
pub fn build_registry(cmdq: &mut GspCmdq) -> (r: Result<u32, Error>)
    requires
        old(cmdq).inv(),
        old(cmdq).free_pages() >= 1 ==> old(cmdq).seq < u32::MAX,
    ensures
        r == (if old(cmdq).free_pages() >= 1 {
            Ok::<u32, Error>(QUEUE_HEAD_ADDRESS)
        } else {
            Err(Error::EAGAIN)
        }),
        r is Ok ==> sent(
            old(cmdq),
            final(cmdq),
            NV_VGPU_MSG_FUNCTION_SET_REGISTRY,
            registry_args(),
        ),
        r is Err ==> *final(cmdq) == *old(cmdq),
{
    let registry = boot_registry();
    let size: usize = registry.size();
    let ghost q = *cmdq;
    let mut cmd = match cmdq.alloc_gsp_queue_command(REGISTRY_TABLE_SIZE + size) {
        Ok(cmd) => cmd,
        Err(e) => {
            return Err(e);
        },
    };
    let ghost cmd0 = cmd;
    let header = PackedRegistryTable::new(GSP_REGISTRY_NUM_ENTRIES as u32, size as u32).to_bytes();
    let ghost args = registry_args();
    let ghost mut data: Seq<u8> = Seq::empty();
    let ghost mut wrapped: Seq<u8> = Seq::empty();
    {
        let (table, sbuffer) = cmd.try_as::<PackedRegistryTable>();
        put_bytes(table, 0, header.as_slice());
        assert(table@ =~= header@);
        match sbuffer {
            Some(sbuffer) => {
                let mut sbuffer = sbuffer;
                proof {
                    lemma_registry_size(&registry);
                    lemma_payload_fits(&registry, sbuffer.bytes(), sbuffer.pos());
                }
                match registry.write_payload(&mut sbuffer) {
                    Ok(_) => (),
                    Err(e) => {
                        return Err(e);
                    },
                }
                proof {
                    data = sbuffer.part(0);
                    wrapped = sbuffer.part(1);
                }
                assert(has_resolved(sbuffer));
                assert(has_resolved(sbuffer.slices@[0]));
                assert(has_resolved(sbuffer.slices@[1]));
            },
            None => (),
        }
    }
    proof {
        lemma_args_in_pieces(
            cmd0.bytes_1(),
            cmd0.bytes_2(),
            header@,
            registry.payload(),
            data,
            wrapped,
        );
        lemma_command_filled(
            &q,
            cmd0,
            NV_VGPU_MSG_FUNCTION_SET_REGISTRY,
            header@,
            data,
            wrapped,
            args,
        );
    }
    cmd.send_to_gsp()
}

/// The arguments of the command that describes the system: what stands in the queue, with
/// the description of `dev` filled in.
pub open spec fn system_info_args(q: &GspCmdq, dev: &PciDevice) -> Seq<u8> {
    let at = q.gsp_mem.tx() * GSP_PAGE_SIZE + MSG_ELEMENT_SIZE;
    GspSystemInfo::filled_in(q.outbox().subrange(at, at + SYSTEM_INFO_SIZE), dev)
}

/// Describes the system to the GSP. Fails with [`Error::EAGAIN`] if no page of the queue is
/// free, and sends nothing if a resource of the device is not known.
#[verifier::rlimit(40)]
pub fn set_system_info(cmdq: &mut GspCmdq, dev: &PciDevice) -> (r: Result<u32, Error>)
    requires
        old(cmdq).inv(),
        old(cmdq).free_pages() >= 1 ==> old(cmdq).seq < u32::MAX,
    ensures
        r == (if old(cmdq).free_pages() < 1 {
            Err::<u32, Error>(Error::EAGAIN)
        } else if GspSystemInfo::init_result(dev) is Err {
            Err(GspSystemInfo::init_result(dev)->Err_0)
        } else {
            Ok(QUEUE_HEAD_ADDRESS)
        }),
        r is Ok ==> sent(
            old(cmdq),
            final(cmdq),
            NV_VGPU_MSG_FUNCTION_GSP_SET_SYSTEM_INFO,
            system_info_args(old(cmdq), dev),
        ),
        old(cmdq).free_pages() < 1 ==> *final(cmdq) == *old(cmdq),
        old(cmdq).free_pages() >= 1 && r is Err ==> {
            &&& final(cmdq).same_but_outbox(old(cmdq))
            &&& final(cmdq).seq == old(cmdq).seq + 1
            &&& final(cmdq).outbox() == placed(
                old(cmdq).outbox(),
                old(cmdq).gsp_mem.tx() * GSP_PAGE_SIZE,
                command_header(
                    old(cmdq).seq,
                    NV_VGPU_MSG_FUNCTION_GSP_SET_SYSTEM_INFO,
                    SYSTEM_INFO_SIZE as int,
                ) + system_info_args(old(cmdq), dev),
            )
        },
{
    let ghost q = *cmdq;
    let mut cmd = match cmdq.alloc_gsp_queue_command(SYSTEM_INFO_SIZE) {
        Ok(cmd) => cmd,
        Err(e) => {
            return Err(e);
        },
    };
    let ghost cmd0 = cmd;
    let ghost args = system_info_args(&q, dev);
    let ghost at = q.gsp_mem.tx() * GSP_PAGE_SIZE + MSG_ELEMENT_SIZE;
    let ghost data = cmd0.bytes_1().skip(SYSTEM_INFO_SIZE as int);
    let ghost wrapped = cmd0.bytes_2();
    proof {
        cmd0.msg_element.lemma_fields(cmd0.msg_element.image());
        assert(cmd0.bytes_1().take(SYSTEM_INFO_SIZE as int) =~= q.outbox().subrange(
            at,
            at + SYSTEM_INFO_SIZE,
        ));
    }
    let filled_in: Result<(), Error> = {
        let (info, _) = cmd.try_as::<GspSystemInfo>();
        GspSystemInfo::init(info, dev)
    };
    proof {
        assert(args.len() == SYSTEM_INFO_SIZE);
        assert(args + data + wrapped =~= splice(cmd0.bytes_1() + cmd0.bytes_2(), 0, args));
        lemma_command_filled(
            &q,
            cmd0,
            NV_VGPU_MSG_FUNCTION_GSP_SET_SYSTEM_INFO,
            args,
            data,
            wrapped,
            args,
        );
    }
    match filled_in {
        Ok(_) => cmd.send_to_gsp(),
        Err(e) => Err(e),
    }
}

} // verus!
