//! Laws of the commands that the driver sends while the GSP boots.

use vstd::prelude::*;
use vstd::string::StringSliceAdditionalSpecFns;
use vstd::utf8::is_ascii_chars_encode_utf8;

use crate::bytes::{get_le32, get_le64, le32, le64, lemma_get_le32, lemma_get_le64, splice};
use crate::error::Error;
use crate::gsp::cmdq::GspCmdq;
use crate::gsp::commands::{
    build_registry, lemma_payload_fits, lemma_registry_args, lemma_registry_size, names,
    registry_args, set_system_info, system_info_args, write_each, RegistryTable,
};
use crate::gsp::fw::commands::{
    pci_id, GspSystemInfo, PackedRegistryEntry, PackedRegistryTable, PciDevice,
};
use crate::laws::queue::{command_was_sent, free, lemma_counts, lemma_sent, sent_arguments};
use crate::laws::sbuffer::{content, lemma_same, passed};
use crate::sbuffer::SBuffer;

verus! {

/// `after` is `before` with a description of `dev`: every field has the value that the device
/// has, and the bytes that belong to no field are left alone.
pub open spec fn describes_system(before: Seq<u8>, after: Seq<u8>, dev: &PciDevice) -> bool {
    &&& after.len() == 928
    &&& get_le64(after, 0) == dev.resource_0->Ok_0
    &&& get_le64(after, 8) == dev.resource_1->Ok_0
    &&& get_le64(after, 16) == dev.resource_3->Ok_0
    &&& get_le64(after, 32) == dev.dev_id
    &&& get_le64(after, 72) == 0x7fff_ffff_f000
    &&& get_le32(after, 80) == 0x08_8000
    &&& get_le32(after, 84) == 0x00_1000
    &&& get_le32(after, 88) == dev.device_id * 0x1_0000 + dev.vendor_id
    &&& get_le32(after, 92) == dev.subsystem_device_id * 0x1_0000 + dev.subsystem_vendor_id
    &&& get_le32(after, 96) == dev.revision_id
    &&& after[896] == 0
    &&& after[908] == 0
    &&& forall|i: int|
        0 <= i < 928 && !(i < 24) && !(32 <= i < 40) && !(72 <= i < 100) && i != 896 && i != 908
            ==> #[trigger] after[i] == before[i]
}

/// What is filled in of a device whose resources are known.
#[verifier::rlimit(40)]
proof fn lemma_filled_in(before: Seq<u8>, dev: &PciDevice)
    requires
        before.len() == 928,
        dev.resource_0 is Ok,
        dev.resource_1 is Ok,
        dev.resource_3 is Ok,
    ensures
        describes_system(before, GspSystemInfo::filled_in(before, dev), dev),
{
    let after = GspSystemInfo::filled_in(before, dev);
    let id = pci_id(dev.device_id, dev.vendor_id);
    let sub_id = pci_id(dev.subsystem_device_id, dev.subsystem_vendor_id);
    let fields = GspSystemInfo::pci_fields(dev);
    assert(fields.len() == 28);
    let s0 = splice(before, 0, le64(dev.resource_0->Ok_0));
    let s1 = splice(s0, 8, le64(dev.resource_1->Ok_0));
    let s2 = splice(s1, 16, le64(dev.resource_3->Ok_0));
    let s3 = splice(s2, 32, le64(dev.dev_id as u64));
    let s4 = splice(s3, 72, fields);
    let s5 = splice(s4, 896, seq![0u8]);
    assert(after == splice(s5, 908, seq![0u8]));
    assert(after.len() == 928);
    assert(after.subrange(0, 8) =~= le64(dev.resource_0->Ok_0));
    assert(after.subrange(8, 16) =~= le64(dev.resource_1->Ok_0));
    assert(after.subrange(16, 24) =~= le64(dev.resource_3->Ok_0));
    assert(after.subrange(32, 40) =~= le64(dev.dev_id as u64));
    assert(after.subrange(72, 100) =~= fields);
    let t = after.subrange(72, 100);
    assert(after.subrange(72, 80) =~= t.subrange(0, 8));
    assert(after.subrange(80, 84) =~= t.subrange(8, 12));
    assert(after.subrange(84, 88) =~= t.subrange(12, 16));
    assert(after.subrange(88, 92) =~= t.subrange(16, 20));
    assert(after.subrange(92, 96) =~= t.subrange(20, 24));
    assert(after.subrange(96, 100) =~= t.subrange(24, 28));
    assert(fields.subrange(0, 8) =~= le64(0x7fff_ffff_f000));
    assert(fields.subrange(8, 12) =~= le32(0x08_8000));
    assert(fields.subrange(12, 16) =~= le32(0x00_1000));
    assert(fields.subrange(16, 20) =~= le32(id));
    assert(fields.subrange(20, 24) =~= le32(sub_id));
    assert(fields.subrange(24, 28) =~= le32(dev.revision_id as u32));
    lemma_get_le64(after, 0, dev.resource_0->Ok_0);
    lemma_get_le64(after, 8, dev.resource_1->Ok_0);
    lemma_get_le64(after, 16, dev.resource_3->Ok_0);
    lemma_get_le64(after, 32, dev.dev_id as u64);
    lemma_get_le64(after, 72, 0x7fff_ffff_f000);
    lemma_get_le32(after, 80, 0x08_8000);
    lemma_get_le32(after, 84, 0x00_1000);
    lemma_get_le32(after, 88, id);
    lemma_get_le32(after, 92, sub_id);
    lemma_get_le32(after, 96, dev.revision_id as u32);
}

/// The description of a system has every field of the device. The first resource that is not
/// known is the error, and then the fields behind it are not touched.
pub proof fn law_system_info(info: &mut [u8], dev: &PciDevice, r: Result<(), Error>, i: int)
    requires
        old(info)@.len() == 928,
        call_ensures(GspSystemInfo::init, (info, dev), r),
    ensures
        final(info)@.len() == 928,
        dev.resource_0 is Err ==> r == Err::<(), Error>(dev.resource_0->Err_0) && final(info)@
            == old(info)@,
        dev.resource_0 is Ok && dev.resource_1 is Err ==> {
            &&& r == Err::<(), Error>(dev.resource_1->Err_0)
            &&& get_le64(final(info)@, 0) == dev.resource_0->Ok_0
            &&& 8 <= i < 928 ==> final(info)@[i] == old(info)@[i]
        },
        dev.resource_0 is Ok && dev.resource_1 is Ok && dev.resource_3 is Err ==> {
            &&& r == Err::<(), Error>(dev.resource_3->Err_0)
            &&& get_le64(final(info)@, 0) == dev.resource_0->Ok_0
            &&& get_le64(final(info)@, 8) == dev.resource_1->Ok_0
            &&& 16 <= i < 928 ==> final(info)@[i] == old(info)@[i]
        },
        dev.resource_0 is Ok && dev.resource_1 is Ok && dev.resource_3 is Ok ==> {
            &&& r == Ok::<(), Error>(())
            &&& describes_system(old(info)@, final(info)@, dev)
        },
{
    let before = old(info)@;
    let after = final(info)@;
    if dev.resource_0 is Ok {
        if dev.resource_1 is Ok && dev.resource_3 is Ok {
            lemma_filled_in(before, dev);
        } else {
            assert(after.subrange(0, 8) =~= le64(dev.resource_0->Ok_0));
            lemma_get_le64(after, 0, dev.resource_0->Ok_0);
            if dev.resource_1 is Ok {
                assert(after.subrange(8, 16) =~= le64(dev.resource_1->Ok_0));
                lemma_get_le64(after, 8, dev.resource_1->Ok_0);
            }
        }
    }
}

/// The command that describes the system carries the description of the device. It is sent if
/// a page is free and all resources are known.
pub proof fn law_set_system_info(q: &mut GspCmdq, dev: &PciDevice, r: Result<u32, Error>)
    requires
        old(q).inv(),
        free(old(q)) >= 1 ==> old(q).seq < u32::MAX,
        call_ensures(set_system_info, (q, dev), r),
    ensures
        free(old(q)) == 0 ==> r == Err::<u32, Error>(Error::EAGAIN) && *final(q) == *old(q),
        free(old(q)) >= 1 && dev.resource_0 is Err ==> r == Err::<u32, Error>(
            dev.resource_0->Err_0,
        ),
        free(old(q)) >= 1 && dev.resource_0 is Ok && dev.resource_1 is Err ==> r == Err::<
            u32,
            Error,
        >(dev.resource_1->Err_0),
        free(old(q)) >= 1 && dev.resource_0 is Ok && dev.resource_1 is Ok && dev.resource_3 is Err
            ==> r == Err::<u32, Error>(dev.resource_3->Err_0),
        // A command that is not sent is not handed to the GSP.
        r is Err ==> final(q).gsp_mem.mem.cpuq.tx == old(q).gsp_mem.mem.cpuq.tx,
        r is Err ==> final(q).gsp_mem.mem.gspq == old(q).gsp_mem.mem.gspq,
        r is Err ==> final(q).gsp_mem.mem.cpuq.rx == old(q).gsp_mem.mem.cpuq.rx,
        r is Err && free(old(q)) >= 1 ==> final(q).seq == old(q).seq + 1,
        free(old(q)) >= 1 && dev.resource_0 is Ok && dev.resource_1 is Ok && dev.resource_3 is Ok
            ==> {
            &&& r == Ok::<u32, Error>(0)
            &&& command_was_sent(old(q), final(q), 72, 928)
            &&& describes_system(
                sent_arguments(old(q), old(q), 928),
                sent_arguments(old(q), final(q), 928),
                dev,
            )
        },
{
    let q0 = *old(q);
    lemma_counts(&q0);
    if r is Ok {
        let at = q0.gsp_mem.tx() * 4096 + 80;
        let before = q0.outbox().subrange(at, at + 928);
        lemma_filled_in(before, dev);
        assert((80 + 928 + 4095) / 4096 == 1);
        lemma_sent(old(q), final(q), 72, system_info_args(&q0, dev));
        assert forall|k: int| 0 <= k < 928 implies sent_arguments(old(q), old(q), 928)[k]
            == before[k] by {
            vstd::arithmetic::div_mod::lemma_small_mod((at + k) as nat, 0x3_f000);
        }
        assert(sent_arguments(old(q), old(q), 928) =~= before);
    }
}

/// The bytes of a packed entry and of the header of the table are their fields.
pub proof fn law_packed_registry(
    offset: u32,
    value: u32,
    num_entries: u32,
    size: u32,
    entry: PackedRegistryEntry,
    table: PackedRegistryTable,
    a: Vec<u8>,
    b: Vec<u8>,
)
    requires
        call_ensures(PackedRegistryEntry::new, (offset, value), entry),
        call_ensures(PackedRegistryEntry::to_bytes, (&entry,), a),
        call_ensures(PackedRegistryTable::new, (num_entries, size), table),
        call_ensures(PackedRegistryTable::to_bytes, (&table,), b),
    ensures
        a@.len() == 16,
        get_le32(a@, 0) == offset,
        a@[4] == 1,
        a@[5] == 0 && a@[6] == 0 && a@[7] == 0,
        get_le32(a@, 8) == value,
        get_le32(a@, 12) == 0,
        b@.len() == 8,
        get_le32(b@, 0) == size,
        get_le32(b@, 4) == num_entries,
{
    entry.lemma_size();
    assert(a@.subrange(0, 16) =~= a@);
    lemma_entry(entry, a@, 0);
    assert(b@.subrange(0, 4) =~= le32(size));
    assert(b@.subrange(4, 8) =~= le32(num_entries));
    lemma_get_le32(b@, 0, size);
    lemma_get_le32(b@, 4, num_entries);
}

/// The fields of an entry whose bytes stand at `at`.
proof fn lemma_entry(entry: PackedRegistryEntry, s: Seq<u8>, at: int)
    requires
        0 <= at,
        at + 16 <= s.len(),
        s.subrange(at, at + 16) == entry.image(),
    ensures
        entry.image().len() == 16,
        get_le32(s, at) == entry.name_offset,
        s[at + 4] == entry.kind,
        s[at + 5] == 0 && s[at + 6] == 0 && s[at + 7] == 0,
        get_le32(s, at + 8) == entry.data,
        get_le32(s, at + 12) == entry.length,
{
    reveal(PackedRegistryEntry::image);
    let t = s.subrange(at, at + 16);
    assert(t.subrange(0, 4) =~= le32(entry.name_offset));
    assert(t.subrange(8, 12) =~= le32(entry.data));
    assert(t.subrange(12, 16) =~= le32(entry.length));
    assert(s.subrange(at, at + 4) =~= t.subrange(0, 4));
    assert(s.subrange(at + 8, at + 12) =~= t.subrange(8, 12));
    assert(s.subrange(at + 12, at + 16) =~= t.subrange(12, 16));
    assert(t[4] == s[at + 4] && t[5] == s[at + 5] && t[6] == s[at + 6] && t[7] == s[at + 7]);
    lemma_get_le32(s, at, entry.name_offset);
    lemma_get_le32(s, at + 8, entry.data);
    lemma_get_le32(s, at + 12, entry.length);
}

/// The names of two entries.
proof fn lemma_names(table: &RegistryTable)
    ensures
        names(table.entries@) == table.entries@[0].key.spec_bytes() + seq![0u8]
            + table.entries@[1].key.spec_bytes() + seq![0u8],
        names(table.entries@.take(0)).len() == 0,
        names(table.entries@.take(1)).len() == table.entries@[0].key.spec_bytes().len() + 1,
{
    let entries = table.entries@;
    reveal_with_fuel(names, 3);
    assert(entries.len() == 2);
    assert(entries.drop_last().drop_last() =~= Seq::empty());
    assert(entries.take(1).drop_last() =~= Seq::empty());
    assert(entries.take(0) =~= Seq::empty());
    assert(names(entries) =~= entries[0].key.spec_bytes() + seq![0u8]
        + entries[1].key.spec_bytes() + seq![0u8]);
}

/// The size of the registry counts two entries and the two names, each with its NUL.
pub proof fn law_registry_size(table: &RegistryTable, r: usize)
    requires
        40 + table.entries@[0].key.spec_bytes().len() + table.entries@[1].key.spec_bytes().len()
            + 2 <= usize::MAX,
        call_ensures(RegistryTable::size, (table,), r),
    ensures
        r == 16 + 16 + (table.entries@[0].key.spec_bytes().len() + 1) + (
        table.entries@[1].key.spec_bytes().len() + 1),
{
    lemma_names(table);
}

/// What stands behind the header of a registry: for each entry the offset of its name from the
/// start of the header, its type and its value, and behind the entries the names.
pub open spec fn holds_registry(table: &RegistryTable, s: Seq<u8>, at: int) -> bool {
    let key_0 = table.entries@[0].key.spec_bytes();
    let key_1 = table.entries@[1].key.spec_bytes();
    let name_0 = at + 32;
    let name_1 = name_0 + key_0.len() + 1;
    &&& get_le32(s, at) == 40
    &&& s[at + 4] == 1 && s[at + 5] == 0 && s[at + 6] == 0 && s[at + 7] == 0
    &&& get_le32(s, at + 8) == table.entries@[0].value
    &&& get_le32(s, at + 12) == 0
    &&& get_le32(s, at + 16) == 40 + key_0.len() + 1
    &&& s[at + 20] == 1 && s[at + 21] == 0 && s[at + 22] == 0 && s[at + 23] == 0
    &&& get_le32(s, at + 24) == table.entries@[1].value
    &&& get_le32(s, at + 28) == 0
    &&& s.subrange(name_0, name_0 + key_0.len()) == key_0
    &&& s[name_0 + key_0.len()] == 0
    &&& s.subrange(name_1, name_1 + key_1.len()) == key_1
    &&& s[name_1 + key_1.len()] == 0
}

/// The payload of a registry that stands at `at`.
proof fn lemma_payload(table: &RegistryTable, s: Seq<u8>, at: int)
    requires
        0 <= at,
        at + table.payload().len() <= s.len(),
        s.subrange(at, at + table.payload().len()) == table.payload(),
        40 + table.entries@[0].key.spec_bytes().len() + 1 <= u32::MAX,
    ensures
        table.payload().len() == 32 + table.entries@[0].key.spec_bytes().len() + 1
            + table.entries@[1].key.spec_bytes().len() + 1,
        holds_registry(table, s, at),
{
    lemma_names(table);
    let a = table.packed_entry(0);
    let b = table.packed_entry(1);
    a.lemma_size();
    b.lemma_size();
    let key_0 = table.entries@[0].key.spec_bytes();
    let key_1 = table.entries@[1].key.spec_bytes();
    let p = table.payload();
    let t = s.subrange(at, at + p.len());
    assert(s.subrange(at, at + 16) =~= t.subrange(0, 16));
    assert(t.subrange(0, 16) =~= a.image());
    assert(s.subrange(at + 16, at + 32) =~= t.subrange(16, 32));
    assert(t.subrange(16, 32) =~= b.image());
    lemma_entry(a, s, at);
    lemma_entry(b, s, at + 16);
    let n0 = 32;
    let n1 = 32 + key_0.len() + 1;
    assert(t.subrange(n0, n0 + key_0.len()) =~= key_0);
    assert(t.subrange(n1 as int, (n1 + key_1.len()) as int) =~= key_1);
    assert(s.subrange(at + n0, at + n0 + key_0.len()) =~= t.subrange(n0, n0 + key_0.len()));
    assert(s.subrange(at + n1, at + n1 + key_1.len()) =~= t.subrange(
        n1 as int,
        (n1 + key_1.len()) as int,
    ));
    assert(t[n0 + key_0.len()] == 0);
    assert(t[(n1 + key_1.len()) as int] == 0);
}

/// A registry that fits is written with all of its entries and names at the position; one that
/// does not fit is an error.
pub proof fn law_write_payload(
    table: &RegistryTable,
    sbuffer: &mut SBuffer<'_>,
    r: Result<(), Error>,
)
    requires
        old(sbuffer).inv(),
        40 + table.entries@[0].key.spec_bytes().len() + table.entries@[1].key.spec_bytes().len()
            + 2 <= u32::MAX,
        call_ensures(RegistryTable::write_payload, (table, sbuffer), r),
    ensures
        ({
            let size = 32 + table.entries@[0].key.spec_bytes().len() + 1
                + table.entries@[1].key.spec_bytes().len() + 1;
            let at = passed(old(sbuffer));
            &&& size <= content(old(sbuffer)).len() - at ==> {
                &&& r is Ok
                &&& holds_registry(table, content(final(sbuffer)), at)
                &&& passed(final(sbuffer)) == at + size
                &&& content(final(sbuffer)).len() == content(old(sbuffer)).len()
                &&& content(final(sbuffer)).take(at) == content(old(sbuffer)).take(at)
                &&& content(final(sbuffer)).skip(at + size) == content(old(sbuffer)).skip(at + size)
            }
            &&& size > content(old(sbuffer)).len() - at ==> r == Err::<(), Error>(Error::ENOSPC)
        }),
{
    lemma_names(table);
    lemma_same(old(sbuffer));
    lemma_same(final(sbuffer));
    lemma_registry_size(table);
    let bytes = old(sbuffer).bytes();
    let at = old(sbuffer).pos();
    let p = table.payload();
    assert(p.len() == 32 + table.entries@[0].key.spec_bytes().len() + 1
        + table.entries@[1].key.spec_bytes().len() + 1);
    if p.len() <= old(sbuffer).remaining() {
        lemma_payload_fits(table, bytes, at);
        crate::bytes::lemma_splice(bytes, at, p);
        lemma_payload(table, splice(bytes, at, p), at);
    } else {
        lemma_no_room(table, bytes, at);
    }
}

/// A registry that does not fit is not written to its end.
proof fn lemma_no_room(table: &RegistryTable, bytes: Seq<u8>, at: int)
    requires
        0 <= at <= bytes.len(),
        table.payload().len() > bytes.len() - at,
    ensures
        !write_each(bytes, at, table.pieces()).2,
{
    let a = table.packed_entry(0).image();
    let b = table.packed_entry(1).image();
    let c = names(table.entries@);
    let pieces = table.pieces();
    reveal_with_fuel(write_each, 4);
    assert(pieces.drop_first() =~= seq![b, c]);
    assert(seq![b, c].drop_first() =~= seq![c]);
    let s1 = splice(bytes, at, a);
    if a.len() <= bytes.len() - at {
        assert(s1.len() == bytes.len());
        if b.len() <= bytes.len() - at - a.len() {
            assert(splice(s1, at + a.len(), b).len() == bytes.len());
        }
    }
}

/// The registry that the driver sets has two entries, `RMSecBusResetEnable` and
/// `RMForcePcieConfigSave`, both with the value 1.
pub proof fn law_build_registry(q: &mut GspCmdq, r: Result<u32, Error>)
    requires
        old(q).inv(),
        free(old(q)) >= 1 ==> old(q).seq < u32::MAX,
        call_ensures(build_registry, (q,), r),
    ensures
        free(old(q)) == 0 ==> r == Err::<u32, Error>(Error::EAGAIN) && *final(q) == *old(q),
        free(old(q)) >= 1 ==> {
            let args = sent_arguments(old(q), final(q), 82);
            &&& r == Ok::<u32, Error>(0)
            &&& command_was_sent(old(q), final(q), 73, 82)
            &&& get_le32(args, 0) == 74
            &&& get_le32(args, 4) == 2
            &&& get_le32(args, 8) == 40
            &&& args[12] == 1 && args[13] == 0 && args[14] == 0 && args[15] == 0
            &&& get_le32(args, 16) == 1
            &&& get_le32(args, 20) == 0
            &&& get_le32(args, 24) == 60
            &&& args[28] == 1 && args[29] == 0 && args[30] == 0 && args[31] == 0
            &&& get_le32(args, 32) == 1
            &&& get_le32(args, 36) == 0
            &&& args.subrange(40, 59) == "RMSecBusResetEnable".spec_bytes()
            &&& args[59] == 0
            &&& args.subrange(60, 81) == "RMForcePcieConfigSave".spec_bytes()
            &&& args[81] == 0
        },
{
    lemma_counts(old(q));
    if free(old(q)) >= 1 {
        let args = registry_args();
        lemma_registry_args();
        lemma_sent(old(q), final(q), 73, args);
        reveal_strlit("RMSecBusResetEnable");
        reveal_strlit("RMForcePcieConfigSave");
        is_ascii_chars_encode_utf8("RMSecBusResetEnable"@);
        is_ascii_chars_encode_utf8("RMForcePcieConfigSave"@);
        let a = PackedRegistryEntry { name_offset: 40, kind: 1, data: 1, length: 0 };
        let b = PackedRegistryEntry { name_offset: 60, kind: 1, data: 1, length: 0 };
        a.lemma_size();
        b.lemma_size();
        assert(args.subrange(0, 4) =~= le32(74));
        assert(args.subrange(4, 8) =~= le32(2));
        lemma_get_le32(args, 0, 74);
        lemma_get_le32(args, 4, 2);
        assert(args.subrange(8, 24) =~= a.image());
        assert(args.subrange(24, 40) =~= b.image());
        lemma_entry(a, args, 8);
        lemma_entry(b, args, 24);
        assert(args.subrange(40, 59) =~= "RMSecBusResetEnable".spec_bytes());
        assert(args.subrange(60, 81) =~= "RMForcePcieConfigSave".spec_bytes());
    }
}

} // verus!
