//! Laws of the interrupt table.

use vstd::prelude::*;

use crate::bytes::{get_le16, get_le32, zeros};
use crate::error::Error;
use crate::gsp::rm_control::{parse_response, rm_control_args, RmControlParams, RmControlResponse};
use crate::gsp::{GspInfo, GspMemObjects};
use crate::irq::{
    dump_table, lemma_params_image, lemma_params_round_trip, IrqTable, IrqTableEntry,
    IrqTableParams,
};
use crate::laws::queue::{command_was_sent, free, lemma_counts, lemma_sent, sent_arguments};
use crate::laws::rm_control::lemma_command_words;

verus! {

/// The bytes from `at` on hold the fields of `entry`.
pub open spec fn holds_entry(s: Seq<u8>, at: int, entry: IrqTableEntry) -> bool {
    &&& get_le16(s, at) == entry.engine_idx
    &&& get_le32(s, at + 4) == entry.pmc_intr_mask
    &&& get_le32(s, at + 8) == entry.vector_stall
    &&& get_le32(s, at + 12) == entry.vector_nonstall
}

/// An entry is read from its fields.
proof fn lemma_entry(s: Seq<u8>, at: int)
    ensures
        holds_entry(s, at, IrqTableEntry::read(s, at)),
{
    reveal(IrqTableEntry::read);
}

/// The bytes of an entry are its fields, with two zero bytes behind the first of them.
pub proof fn law_entry_bytes(entry: &IrqTableEntry, r: Vec<u8>)
    requires
        call_ensures(IrqTableEntry::to_bytes, (entry,), r),
    ensures
        r@.len() == 16,
        holds_entry(r@, 0, *entry),
        r@[2] == 0 && r@[3] == 0,
{
    entry.lemma_size();
    assert(r@.subrange(0, 16) =~= r@);
    entry.lemma_read_of_image(r@, 0);
    lemma_entry(r@, 0);
    reveal(IrqTableEntry::image);
}

/// The entry that is read has the fields that stand there.
pub proof fn law_entry_read(data: &[u8], at: usize, r: IrqTableEntry)
    requires
        at + 16 <= data@.len(),
        call_ensures(IrqTableEntry::read_at, (data, at), r),
    ensures
        holds_entry(data@, at as int, r),
{
    lemma_entry(data@, at as int);
}

/// The bytes `data` hold the fields of `params`.
pub open spec fn holds_params(data: Seq<u8>, params: &IrqTableParams) -> bool {
    &&& get_le32(data, 0) == params.table_len
    &&& forall|i: int|
        0 <= i < 128 ==> holds_entry(data, 4 + 16 * i, #[trigger] params.table@[i])
    &&& forall|i: int|
        0 <= i < 7 ==> (#[trigger] params.subtree_map@[i]).subtree_start == data[2052 + 2 * i]
            && params.subtree_map@[i].subtree_end == data[2053 + 2 * i]
}

/// Parameters that were read are the fields of the bytes.
proof fn lemma_params(data: Seq<u8>, params: &IrqTableParams)
    requires
        params.read_from(data),
    ensures
        holds_params(data, params),
{
    assert forall|i: int| 0 <= i < 128 implies holds_entry(
        data,
        4 + 16 * i,
        #[trigger] params.table@[i],
    ) by {
        lemma_entry(data, 4 + 16 * i);
    }
    assert forall|i: int| 0 <= i < 7 implies (
    #[trigger] params.subtree_map@[i]).subtree_start == data[2052 + 2 * i]
        && params.subtree_map@[i].subtree_end == data[2053 + 2 * i] by {
        assert(2052 + 2 * i + 1 == 2053 + 2 * i);
    }
}

/// The bytes of parameters are their fields.
pub proof fn law_params_bytes(params: &IrqTableParams, r: Vec<u8>)
    requires
        call_ensures(<IrqTableParams as RmControlParams>::to_bytes, (params,), r),
    ensures
        r@.len() == 2068,
        holds_params(r@, params),
{
    lemma_params_image(params);
    lemma_params_round_trip(params);
    lemma_params(r@, params);
}

/// Parameters are the fields of the bytes that they are read from, if those are enough.
pub proof fn law_params_read(data: &[u8], r: Result<IrqTableParams, Error>)
    requires
        call_ensures(IrqTableParams::from_bytes, (data,), r),
    ensures
        data@.len() < 2068 ==> r is Err && r->Err_0 == Error::EINVAL,
        data@.len() >= 2068 ==> r is Ok && holds_params(data@, &r->Ok_0),
{
    if r is Ok {
        lemma_params(data@, &r->Ok_0);
    }
}

/// `r` is the table that the bytes `data` hold: as many entries as the first word says, each of
/// them with all of its fields, or an error where that is more than there is room for.
pub open spec fn gives_table(data: Seq<u8>, r: Result<IrqTable, Error>) -> bool {
    &&& data.len() < 2068 || get_le32(data, 0) > 128 ==> r is Err && r->Err_0 == Error::EINVAL
    &&& data.len() >= 2068 && get_le32(data, 0) <= 128 ==> {
        &&& r is Ok
        &&& r->Ok_0.table_len == get_le32(data, 0)
        &&& r->Ok_0.entries@.len() == get_le32(data, 0)
        &&& forall|i: int|
            0 <= i < get_le32(data, 0) ==> holds_entry(
                data,
                4 + 16 * i,
                #[trigger] r->Ok_0.entries@[i],
            )
    }
}

/// What the contracts say of a table, in the terms of its fields.
proof fn lemma_table(data: Seq<u8>, r: Result<IrqTable, Error>)
    requires
        IrqTable::parses_to(data, r),
    ensures
        gives_table(data, r),
{
    if data.len() >= 2068 && get_le32(data, 0) <= 128 {
        assert forall|i: int| 0 <= i < get_le32(data, 0) implies holds_entry(
            data,
            4 + 16 * i,
            #[trigger] r->Ok_0.entries@[i],
        ) by {
            lemma_entry(data, 4 + 16 * i);
        }
    }
}

/// A response is parsed to the entries in use that it holds.
pub proof fn law_table(
    data: &[u8],
    status: u32,
    r: Result<IrqTable, Error>,
    parsed: Result<IrqTable, Error>,
)
    requires
        call_ensures(<IrqTable as RmControlResponse>::from_bytes, (data,), r),
        call_ensures(parse_response::<IrqTable>, (status, data), parsed),
    ensures
        gives_table(data@, r),
        status == 0 ==> gives_table(data@, parsed),
        status != 0 ==> parsed is Err && parsed->Err_0 == Error::EIO,
{
    lemma_table(data@, r);
    if status == 0 {
        lemma_table(data@, parsed);
    }
}

/// The command that asks for the table goes to the internal subdevice, with parameters that are
/// all zero. It is sent if a page is free.
pub proof fn law_dump_table(libos: &mut GspMemObjects, gsp_info: &GspInfo, r: Result<u32, Error>)
    requires
        old(libos).cmdq.inv(),
        free(&old(libos).cmdq) >= 1 ==> old(libos).cmdq.seq < u32::MAX,
        call_ensures(dump_table, (libos, gsp_info), r),
    ensures
        free(&old(libos).cmdq) == 0 ==> {
            &&& r == Err::<u32, Error>(Error::EAGAIN)
            &&& final(libos).cmdq == old(libos).cmdq
        },
        free(&old(libos).cmdq) >= 1 ==> {
            let args = sent_arguments(&old(libos).cmdq, &final(libos).cmdq, 2092);
            &&& r == Ok::<u32, Error>(0)
            &&& command_was_sent(&old(libos).cmdq, &final(libos).cmdq, 76, 2092)
            &&& get_le32(args, 0) == gsp_info.h_internal_client
            &&& get_le32(args, 4) == gsp_info.h_internal_subdevice
            &&& get_le32(args, 8) == 0x2080_0a5c
            &&& get_le32(args, 12) == 0
            &&& get_le32(args, 16) == 2068
            &&& get_le32(args, 20) == 0
            &&& forall|i: int| 24 <= i < 2092 ==> #[trigger] args[i] == 0
        },
        final(libos).libos == old(libos).libos,
        final(libos).loginit == old(libos).loginit,
        final(libos).logintr == old(libos).logintr,
        final(libos).logrm == old(libos).logrm,
        final(libos).rmargs == old(libos).rmargs,
{
    lemma_counts(&old(libos).cmdq);
    if free(&old(libos).cmdq) >= 1 {
        let args = rm_control_args(gsp_info, 0x2080_0a5c, zeros(2068));
        lemma_command_words(gsp_info, 0x2080_0a5c, zeros(2068));
        lemma_sent(&old(libos).cmdq, &final(libos).cmdq, 76, args);
        assert forall|i: int| 24 <= i < 2092 implies #[trigger] args[i] == 0 by {
            assert(args.skip(24)[i - 24] == 0);
        }
    }
}

/// Parameters without entries are zero in every field.
pub proof fn law_empty_params(r: IrqTableParams, i: int)
    requires
        call_ensures(IrqTableParams::empty, (), r),
    ensures
        r.table_len == 0,
        0 <= i < 128 ==> {
            let entry = r.table@[i];
            &&& entry.engine_idx == 0
            &&& entry.pmc_intr_mask == 0
            &&& entry.vector_stall == 0
            &&& entry.vector_nonstall == 0
        },
        0 <= i < 7 ==> r.subtree_map@[i].subtree_start == 0 && r.subtree_map@[i].subtree_end == 0,
{
}

/// Parameters that are turned into bytes and read back are the same parameters.
pub proof fn law_params_round_trip(
    params: &IrqTableParams,
    bytes: Vec<u8>,
    data: &[u8],
    r: Result<IrqTableParams, Error>,
    i: int,
)
    requires
        call_ensures(<IrqTableParams as RmControlParams>::to_bytes, (params,), bytes),
        data@ == bytes@,
        call_ensures(IrqTableParams::from_bytes, (data,), r),
    ensures
        r is Ok,
        r->Ok_0.table_len == params.table_len,
        0 <= i < 128 ==> r->Ok_0.table@[i] == params.table@[i],
        0 <= i < 7 ==> r->Ok_0.subtree_map@[i] == params.subtree_map@[i],
{
    law_params_bytes(params, bytes);
    law_params_read(data, r);
    if 0 <= i < 128 {
        assert(holds_entry(data@, 4 + 16 * i, params.table@[i]));
        assert(holds_entry(data@, 4 + 16 * i, r->Ok_0.table@[i]));
    }
    if 0 <= i < 7 {
        assert(r->Ok_0.subtree_map@[i].subtree_start == params.subtree_map@[i].subtree_start);
        assert(r->Ok_0.subtree_map@[i].subtree_end == params.subtree_map@[i].subtree_end);
    }
}

} // verus!
