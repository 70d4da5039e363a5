//! Laws of the queues that are shared with the GSP.

use vstd::prelude::*;

use crate::bytes::{get_le32, le32, lemma_get_le32, splice};
use crate::error::Error;
use crate::gsp::checksum::{
    lemma_xor_sum_concat, lemma_xor_sum_detects, lemma_xor_sum_word, xor_sum, xor_sum_at, Checksum,
};
use crate::gsp::cmdq;
use crate::gsp::cmdq::{command_header, command_rpc, sent, DmaGspMem, GspCmdq, GspQueueMessage};
use crate::gsp::ring::{
    circular, lemma_circular_splice, lemma_driver_area_is_free, lemma_driver_area_size, lemma_seal,
    placed,
};
use crate::laws::bytes::{law_get_le, law_splice};
use crate::nvfw::{pages_of, GspRpcHeader};
use crate::util::WaitStep;

verus! {

/// The `n` bytes of a ring from `at` on, where the first byte of the ring follows its last one.
pub open spec fn around(ring: Seq<u8>, at: int, n: int) -> Seq<u8> {
    Seq::new(n as nat, |k: int| ring[(at + k) % (ring.len() as int)])
}

/// The number of pages that the GSP has written and the driver has not read.
pub open spec fn waiting(q: &GspCmdq) -> int {
    (q.gsp_mem.mem.gspq.tx.header.write_ptr - q.gsp_mem.mem.cpuq.rx.header.read_ptr) % 63
}

/// Where the next message from the GSP starts in its queue.
pub open spec fn front(q: &GspCmdq) -> int {
    q.gsp_mem.mem.cpuq.rx.header.read_ptr * 4096
}

/// The word at the offset `at` of the next message from the GSP.
pub open spec fn front_word(q: &GspCmdq, at: int) -> u32 {
    get_le32(q.gsp_mem.mem.gspq.msgq.data@, front(q) + at)
}

/// The `n` bytes of the GSP queue from the start of the next message on.
pub open spec fn front_bytes(q: &GspCmdq, n: int) -> Seq<u8> {
    around(q.gsp_mem.mem.gspq.msgq.data@, front(q), n)
}

/// The number of pages of the CPU queue that the GSP is done with and the driver may write.
pub open spec fn free(q: &GspCmdq) -> int {
    (q.gsp_mem.mem.gspq.rx.header.read_ptr - q.gsp_mem.mem.cpuq.tx.header.write_ptr - 1) % 63
}

/// The `n` bytes of arguments of the command that was written to the CPU queue of `new` where
/// `q` would have written next.
pub open spec fn sent_arguments(q: &GspCmdq, new: &GspCmdq, n: int) -> Seq<u8> {
    around(
        new.gsp_mem.mem.cpuq.msgq.data@,
        q.gsp_mem.mem.cpuq.tx.header.write_ptr * 4096 + 80,
        n,
    )
}

/// `new` is `q` with one more command: a call of `function` with `n` bytes of arguments stands
/// where `q` would have written next, its header is complete, and nothing else is different.
pub open spec fn command_was_sent(q: &GspCmdq, new: &GspCmdq, function: u32, n: int) -> bool {
    let tx = q.gsp_mem.mem.cpuq.tx.header.write_ptr as int;
    let at = tx * 4096;
    let pages = (80 + n + 4095) / 4096;
    let before = q.gsp_mem.mem.cpuq.msgq.data@;
    let ring = new.gsp_mem.mem.cpuq.msgq.data@;
    &&& new.seq == q.seq + 1
    &&& new.msg_count == q.msg_count
    &&& new.nr_ptes == q.nr_ptes
    &&& new.gsp_mem.dma_handle == q.gsp_mem.dma_handle
    &&& new.gsp_mem.mem.ptes == q.gsp_mem.mem.ptes
    &&& new.gsp_mem.mem.gspq == q.gsp_mem.mem.gspq
    &&& new.gsp_mem.mem.cpuq.rx == q.gsp_mem.mem.cpuq.rx
    &&& new.gsp_mem.mem.cpuq.tx.header.write_ptr == (tx + pages) % 63
    &&& new.gsp_mem.mem.cpuq.tx.header.version == q.gsp_mem.mem.cpuq.tx.header.version
    &&& new.gsp_mem.mem.cpuq.tx.header.size == q.gsp_mem.mem.cpuq.tx.header.size
    &&& new.gsp_mem.mem.cpuq.tx.header.msg_size == q.gsp_mem.mem.cpuq.tx.header.msg_size
    &&& new.gsp_mem.mem.cpuq.tx.header.msg_count == q.gsp_mem.mem.cpuq.tx.header.msg_count
    &&& new.gsp_mem.mem.cpuq.tx.header.flags == q.gsp_mem.mem.cpuq.tx.header.flags
    &&& new.gsp_mem.mem.cpuq.tx.header.rx_hdr_off == q.gsp_mem.mem.cpuq.tx.header.rx_hdr_off
    &&& new.gsp_mem.mem.cpuq.tx.header.entry_off == q.gsp_mem.mem.cpuq.tx.header.entry_off
    &&& ring.len() == before.len()
    // The header of the message.
    &&& forall|k: int| 0 <= k < 32 ==> #[trigger] ring[at + k] == 0
    &&& get_le32(ring, at + 36) == q.seq
    &&& get_le32(ring, at + 40) == pages
    &&& get_le32(ring, at + 44) == 0
    // The header of the call.
    &&& get_le32(ring, at + 48) == 0x0300_0000
    &&& get_le32(ring, at + 52) == 0x4350_5256
    &&& get_le32(ring, at + 56) == 32 + n
    &&& get_le32(ring, at + 60) == function
    &&& get_le32(ring, at + 64) == 0xffff_ffff
    &&& get_le32(ring, at + 68) == 0xffff_ffff
    &&& get_le32(ring, at + 72) == 0
    &&& get_le32(ring, at + 76) == 0
    // With its checksum, all that the driver might have written adds up to zero.
    &&& xor_sum(around(ring, at, free(q) * 4096)) == 0
    // What is not part of the message is left alone.
    &&& forall|j: int|
        0 <= j < ring.len() && (j - at) % (ring.len() as int) >= 80 + n ==> #[trigger] ring[j]
            == before[j]
}

/// A ring read around its end, in the two ways of saying so.
pub(crate) proof fn lemma_around(ring: Seq<u8>, at: int, n: int)
    requires
        0 <= at < ring.len(),
        0 <= n <= ring.len(),
    ensures
        circular(ring, at, n) == around(ring, at, n),
{
    reveal(circular);
    let len = ring.len() as int;
    assert forall|k: int| 0 <= k < n implies circular(ring, at, n)[k] == around(ring, at, n)[k] by {
        if at + k < len {
            lemma_small(at + k, len);
        } else {
            lemma_once(at + k, len);
        }
    }
    assert(circular(ring, at, n) =~= around(ring, at, n));
}

/// A remainder of a number that is small enough.
proof fn lemma_small(a: int, m: int)
    requires
        0 <= a < m,
    ensures
        a % m == a,
{
    vstd::arithmetic::div_mod::lemma_small_mod(a as nat, m as nat);
}

/// A remainder of a number that is too large by less than the modulus.
proof fn lemma_once(a: int, m: int)
    requires
        0 < m <= a < 2 * m,
    ensures
        a % m == a - m,
{
    vstd::arithmetic::div_mod::lemma_fundamental_div_mod_converse(a, m, 1, a - m);
}

/// The numbers of pages that are free and that wait, in the terms of the contracts.
pub(crate) proof fn lemma_counts(q: &GspCmdq)
    requires
        q.inv(),
    ensures
        q.used() == waiting(q),
        q.free_pages() == free(q),
        0 <= free(q) < 63,
        0 <= waiting(q) < 63,
{
    lemma_driver_area_size(q.gsp_mem.tx(), q.gsp_mem.rx());
}

/// A command that was sent, seen byte by byte.
#[verifier::rlimit(60)]
pub(crate) proof fn lemma_sent(q: &GspCmdq, new: &GspCmdq, function: u32, args: Seq<u8>)
    requires
        q.inv(),
        sent(q, new, function, args),
        pages_of((80 + args.len()) as int) <= q.free_pages(),
    ensures
        command_was_sent(q, new, function, args.len() as int),
        sent_arguments(q, new, args.len() as int) == args,
{
    let tx = q.gsp_mem.tx();
    let at = tx * 4096;
    let n = args.len() as int;
    let pages = (80 + n + 4095) / 4096;
    let before = q.outbox();
    let header = command_header(q.seq, function, n);
    let ring = placed(before, at, header + args);
    let new_ring = new.outbox();
    let total = q.free_pages() * 4096;
    lemma_counts(q);
    lemma_driver_area_size(tx, q.gsp_mem.rx());
    assert(pages * 4096 >= 80 + n);
    assert((tx + pages) % 0x1_0000_0000 == tx + pages);
    lemma_header_words(q.seq, function, n);
    assert(ring.len() == 0x3_f000) by {
        reveal(placed);
    }
    let c = xor_sum(circular(ring, at, total));
    assert(new_ring == splice(ring, at + 32, le32(c)));
    lemma_placed_bytes(before, at, header, args);
    // The header.
    assert forall|k: int| 0 <= k < 80 && !(32 <= k < 36) implies #[trigger] new_ring[at + k]
        == header[k] by {
        law_splice(ring, at + 32, le32(c), at + k);
    }
    lemma_words_moved(header, new_ring, at);
    assert forall|k: int| 0 <= k < 32 implies #[trigger] new_ring[at + k] == 0 by {}
    // The checksum.
    let whole = circular(ring, at, total);
    assert(whole.len() == total && total >= 80) by {
        reveal(circular);
    }
    assert(whole.subrange(32, 36) =~= le32(0)) by {
        reveal(circular);
        assert forall|k: int| 0 <= k < 4 implies whole.subrange(32, 36)[k] == le32(0)[k] by {
            assert(whole[32 + k] == ring[at + (32 + k)]);
            assert(header.subrange(32, 36)[k] == header[32 + k]);
        }
    }
    lemma_seal(whole);
    lemma_circular_splice(ring, at, total, 32, le32(c));
    lemma_around(new_ring, at, total);
    // The arguments, and the rest.
    assert forall|j: int|
        0 <= j < new_ring.len() && (j - at) % (new_ring.len() as int) >= 80
            + n implies #[trigger] new_ring[j] == before[j] by {
        law_splice(ring, at + 32, le32(c), j);
        if j >= at {
            lemma_small(j - at, 0x3_f000);
        } else {
            lemma_small(j - at + 0x3_f000, 0x3_f000);
            assert((j - at) % (0x3_f000) == (j - at + 0x3_f000) % (0x3_f000));
        }
    }
    assert forall|k: int| 0 <= k < n implies sent_arguments(q, new, n)[k] == args[k] by {
        let p = at + 80 + k;
        if p < 0x3_f000 {
            lemma_small(p, 0x3_f000);
            law_splice(ring, at + 32, le32(c), p);
        } else {
            lemma_once(p, 0x3_f000);
            law_splice(ring, at + 32, le32(c), p - 0x3_f000);
        }
    }
    assert(sent_arguments(q, new, n) =~= args);
}

/// Where the bytes of a message stand in a ring.
proof fn lemma_placed_bytes(ring: Seq<u8>, at: int, header: Seq<u8>, args: Seq<u8>)
    requires
        header.len() == 80,
        0 <= at,
        at + 80 <= ring.len(),
        80 + args.len() <= ring.len(),
    ensures
        ({
            let new = placed(ring, at, header + args);
            let n = (80 + args.len()) as int;
            &&& forall|k: int| 0 <= k < 80 ==> #[trigger] new[at + k] == header[k]
            &&& forall|k: int|
                0 <= k < args.len() && at + 80 + k < ring.len() ==> new[at + 80 + k]
                    == #[trigger] args[k]
            &&& forall|k: int|
                0 <= k < args.len() && at + 80 + k >= ring.len() ==> new[at + 80 + k - ring.len()]
                    == #[trigger] args[k]
            &&& forall|j: int|
                0 <= j < ring.len() && (j >= at + n || (j < at && j + ring.len() >= at + n))
                    ==> #[trigger] new[j] == ring[j]
        }),
{
    reveal(placed);
}

/// The words of the header of a command.
proof fn lemma_header_words(seq: u32, function: u32, n: int)
    requires
        0 <= n,
        80 + n <= 62 * 4096,
    ensures
        ({
            let h = command_header(seq, function, n);
            &&& h.len() == 80
            &&& forall|k: int| 0 <= k < 32 ==> #[trigger] h[k] == 0
            &&& h.subrange(32, 36) == le32(0)
            &&& get_le32(h, 36) == seq
            &&& get_le32(h, 40) == (80 + n + 4095) / 4096
            &&& get_le32(h, 44) == 0
            &&& get_le32(h, 48) == 0x0300_0000
            &&& get_le32(h, 52) == 0x4350_5256
            &&& get_le32(h, 56) == 32 + n
            &&& get_le32(h, 60) == function
            &&& get_le32(h, 64) == 0xffff_ffff
            &&& get_le32(h, 68) == 0xffff_ffff
            &&& get_le32(h, 72) == 0
            &&& get_le32(h, 76) == 0
        }),
{
    reveal(command_header);
    reveal(GspRpcHeader::image);
    let h = command_header(seq, function, n);
    let rpc = command_rpc(function, n);
    let pages = pages_of(80 + n) as u32;
    assert(h.subrange(32, 36) =~= le32(0));
    assert(h.subrange(36, 40) =~= le32(seq));
    assert(h.subrange(40, 44) =~= le32(pages));
    assert(h.subrange(44, 48) =~= le32(0));
    assert(h.subrange(48, 52) =~= le32(rpc.header_version));
    assert(h.subrange(52, 56) =~= le32(rpc.signature));
    assert(h.subrange(56, 60) =~= le32(rpc.length));
    assert(h.subrange(60, 64) =~= le32(rpc.function));
    assert(h.subrange(64, 68) =~= le32(rpc.rpc_result));
    assert(h.subrange(68, 72) =~= le32(rpc.rpc_result_private));
    assert(h.subrange(72, 76) =~= le32(rpc.sequence));
    assert(h.subrange(76, 80) =~= le32(rpc.spare));
    lemma_get_le32(h, 36, seq);
    lemma_get_le32(h, 40, pages);
    lemma_get_le32(h, 44, 0);
    lemma_get_le32(h, 48, rpc.header_version);
    lemma_get_le32(h, 52, rpc.signature);
    lemma_get_le32(h, 56, rpc.length);
    lemma_get_le32(h, 60, rpc.function);
    lemma_get_le32(h, 64, rpc.rpc_result);
    lemma_get_le32(h, 68, rpc.rpc_result_private);
    lemma_get_le32(h, 72, rpc.sequence);
    lemma_get_le32(h, 76, rpc.spare);
}

/// The words of a header that stands in a ring.
proof fn lemma_words_moved(h: Seq<u8>, ring: Seq<u8>, at: int)
    requires
        h.len() == 80,
        0 <= at,
        at + 80 <= ring.len(),
        forall|k: int| 0 <= k < 80 && !(32 <= k < 36) ==> #[trigger] ring[at + k] == h[k],
    ensures
        get_le32(ring, at + 36) == get_le32(h, 36),
        get_le32(ring, at + 40) == get_le32(h, 40),
        get_le32(ring, at + 44) == get_le32(h, 44),
        get_le32(ring, at + 48) == get_le32(h, 48),
        get_le32(ring, at + 52) == get_le32(h, 52),
        get_le32(ring, at + 56) == get_le32(h, 56),
        get_le32(ring, at + 60) == get_le32(h, 60),
        get_le32(ring, at + 64) == get_le32(h, 64),
        get_le32(ring, at + 68) == get_le32(h, 68),
        get_le32(ring, at + 72) == get_le32(h, 72),
        get_le32(ring, at + 76) == get_le32(h, 76),
{
    lemma_word_moved(h, ring, at, 36);
    lemma_word_moved(h, ring, at, 40);
    lemma_word_moved(h, ring, at, 44);
    lemma_word_moved(h, ring, at, 48);
    lemma_word_moved(h, ring, at, 52);
    lemma_word_moved(h, ring, at, 56);
    lemma_word_moved(h, ring, at, 60);
    lemma_word_moved(h, ring, at, 64);
    lemma_word_moved(h, ring, at, 68);
    lemma_word_moved(h, ring, at, 72);
    lemma_word_moved(h, ring, at, 76);
}

/// A word whose bytes stand elsewhere too.
pub(crate) proof fn lemma_word_moved(h: Seq<u8>, ring: Seq<u8>, at: int, k: int)
    requires
        0 <= k,
        ring[at + k] == h[k],
        ring[at + (k + 1)] == h[k + 1],
        ring[at + (k + 2)] == h[k + 2],
        ring[at + (k + 3)] == h[k + 3],
    ensures
        get_le32(ring, at + k) == get_le32(h, k),
{
    law_get_le(ring, at + k);
    law_get_le(h, k);
    assert(at + k + 1 == at + (k + 1));
    assert(at + k + 2 == at + (k + 2));
    assert(at + k + 3 == at + (k + 3));
}

/// A ring read around its end, byte by byte.
pub proof fn law_circular(ring: Seq<u8>, at: int, n: int, k: int)
    requires
        0 <= at < ring.len(),
        0 <= k < n <= ring.len(),
    ensures
        circular(ring, at, n).len() == n,
        circular(ring, at, n)[k] == ring[(at + k) % (ring.len() as int)],
{
    lemma_around(ring, at, n);
}

/// The checksum does not depend on how the bytes are split.
pub proof fn law_checksum_of_parts(
    one: (&[u8], &[u8], &[u8]),
    two: (&[u8], &[u8], &[u8]),
    r: u32,
    s: u32,
)
    requires
        one.0@ + one.1@ + one.2@ == two.0@ + two.1@ + two.2@,
        call_ensures(GspCmdq::calculate_checksum, one, r),
        call_ensures(GspCmdq::calculate_checksum, two, s),
    ensures
        r == s,
{
}

/// The checksum of a word is the word, and that of no bytes is zero.
pub proof fn law_checksum_of_word(word: &[u8], rest: (&[u8], &[u8]), r: u32)
    requires
        word@.len() == 4 || word@.len() == 0,
        rest.0@.len() == 0,
        rest.1@.len() == 0,
        call_ensures(GspCmdq::calculate_checksum, (word, rest.0, rest.1), r),
    ensures
        word@.len() == 0 ==> r == 0,
        word@.len() == 4 ==> r == word@[0] + word@[1] * 0x100 + word@[2] * 0x1_0000 + word@[3]
            * 0x100_0000,
{
    assert(word@ + rest.0@ + rest.1@ =~= word@);
    if word@.len() == 4 {
        let c = get_le32(word@, 0);
        law_get_le(word@, 0);
        crate::bytes::lemma_le32_of_get(word@, 0);
        assert(word@.subrange(0, 4) =~= word@);
        lemma_xor_sum_word(c, 0);
    }
}

/// The checksum of bytes that are put behind whole words is the exclusive or of the checksums
/// of both.
pub proof fn law_checksum_adds_up(
    whole: (&[u8], &[u8], &[u8]),
    head: (&[u8], &[u8], &[u8]),
    tail: (&[u8], &[u8], &[u8]),
    r: u32,
    a: u32,
    b: u32,
)
    requires
        (head.0@ + head.1@ + head.2@).len() % 4 == 0,
        whole.0@ + whole.1@ + whole.2@ == (head.0@ + head.1@ + head.2@) + (tail.0@ + tail.1@
            + tail.2@),
        call_ensures(GspCmdq::calculate_checksum, whole, r),
        call_ensures(GspCmdq::calculate_checksum, head, a),
        call_ensures(GspCmdq::calculate_checksum, tail, b),
    ensures
        r == a ^ b,
{
    let h = head.0@ + head.1@ + head.2@;
    let t = tail.0@ + tail.1@ + tail.2@;
    lemma_xor_sum_concat(h, t, 0);
    lemma_lane_shift(t, h.len() as int);
}

/// What bytes add to a checksum is the same wherever whole words stand in front of them.
proof fn lemma_lane_shift(s: Seq<u8>, at: int)
    requires
        at % 4 == 0,
    ensures
        xor_sum_at(s, at) == xor_sum_at(s, 0),
    decreases s.len(),
{
    if s.len() > 0 {
        lemma_lane_shift(s.drop_last(), at);
        assert((at + s.len() - 1) % 4 == (s.len() - 1) % 4);
    }
}

/// A change of any one byte changes the checksum.
pub proof fn law_checksum_detects(
    one: (&[u8], &[u8], &[u8]),
    two: (&[u8], &[u8], &[u8]),
    i: int,
    r: u32,
    s: u32,
)
    requires
        0 <= i < (one.0@ + one.1@ + one.2@).len(),
        (one.0@ + one.1@ + one.2@).len() == (two.0@ + two.1@ + two.2@).len(),
        forall|j: int|
            0 <= j < (one.0@ + one.1@ + one.2@).len() && j != i ==> (one.0@ + one.1@ + one.2@)[j]
                == (two.0@ + two.1@ + two.2@)[j],
        (one.0@ + one.1@ + one.2@)[i] != (two.0@ + two.1@ + two.2@)[i],
        call_ensures(GspCmdq::calculate_checksum, one, r),
        call_ensures(GspCmdq::calculate_checksum, two, s),
    ensures
        r != s,
{
    let a = one.0@ + one.1@ + one.2@;
    let b = two.0@ + two.1@ + two.2@;
    assert(a.update(i, b[i]) =~= b);
    lemma_xor_sum_detects(a, i, b[i]);
}

/// The pages that belong to the driver are those that neither wait for the GSP nor stand right
/// in front of the page that it reads next.
pub proof fn law_driver_area(shared: &DmaGspMem, r: (usize, usize), page: int)
    requires
        shared.inv(),
        0 <= page < 63,
        call_ensures(DmaGspMem::driver_area_pages, (shared,), r),
    ensures
        ({
            let tx = shared.mem.cpuq.tx.header.write_ptr as int;
            let rx = shared.mem.gspq.rx.header.read_ptr as int;
            &&& tx <= page < tx + r.0 || page < r.1 <==> (page - rx) % 63 >= (tx - rx) % 63 && page
                != (rx - 1) % 63
            &&& r.0 + r.1 == (rx - tx - 1) % 63
            &&& tx + r.0 <= 63
            &&& r.1 <= tx
        }),
{
    let tx = shared.tx();
    let rx = shared.rx();
    lemma_driver_area_is_free(tx, rx, page);
    lemma_driver_area_size(tx, rx);
}

/// The driver is handed the pages that belong to it, and can change nothing else.
pub proof fn law_driver_write_area(shared: &mut DmaGspMem, r: (&mut [u8], &mut [u8]), j: int)
    requires
        old(shared).inv(),
        final(r.0)@.len() == r.0@.len(),
        final(r.1)@.len() == r.1@.len(),
        call_ensures(DmaGspMem::driver_write_area, (shared,), r),
        0 <= j < 63 * 4096,
    ensures
        ({
            let before = old(shared).mem.cpuq.msgq.data@;
            let after = final(shared).mem.cpuq.msgq.data@;
            let at = old(shared).mem.cpuq.tx.header.write_ptr * 4096;
            let rx = old(shared).mem.gspq.rx.header.read_ptr as int;
            let tx = old(shared).mem.cpuq.tx.header.write_ptr as int;
            &&& old(r.0)@.len() + old(r.1)@.len() == (rx - tx - 1) % 63 * 4096
            &&& after.len() == 63 * 4096
            &&& at <= j < at + old(r.0)@.len() ==> old(r.0)@[j - at] == before[j] && final(r.0)@[j - at]
                == after[j]
            &&& j < old(r.1)@.len() ==> old(r.1)@[j] == before[j] && final(r.1)@[j] == after[j]
            &&& !(at <= j < at + old(r.0)@.len()) && !(j < old(r.1)@.len()) ==> after[j] == before[j]
        }),
        final(shared).dma_handle == old(shared).dma_handle,
        final(shared).mem.ptes == old(shared).mem.ptes,
        final(shared).mem.gspq == old(shared).mem.gspq,
        final(shared).mem.cpuq.tx == old(shared).mem.cpuq.tx,
        final(shared).mem.cpuq.rx == old(shared).mem.cpuq.rx,
{
    lemma_driver_area_size(old(shared).tx(), old(shared).rx());
}

/// A pointer moves forward by the number of pages, around the end of the ring, and everything
/// else stays.
pub proof fn law_advance_headers(
    tx: &mut cmdq::MsgqTxHeader,
    rx: &mut cmdq::MsgqRxHeader,
    elem_count: u32,
)
    requires
        call_ensures(cmdq::MsgqTxHeader::advance_write_ptr, (tx, elem_count), ()),
        call_ensures(cmdq::MsgqRxHeader::advance_read_ptr, (rx, elem_count), ()),
    ensures
        final(tx).header.write_ptr < 63,
        final(rx).header.read_ptr < 63,
        final(tx).header.write_ptr == (old(tx).header.write_ptr + elem_count) % 0x1_0000_0000 % 63,
        final(rx).header.read_ptr == (old(rx).header.read_ptr + elem_count) % 0x1_0000_0000 % 63,
        final(tx).header.version == old(tx).header.version,
        final(tx).header.size == old(tx).header.size,
        final(tx).header.msg_size == old(tx).header.msg_size,
        final(tx).header.msg_count == old(tx).header.msg_count,
        final(tx).header.flags == old(tx).header.flags,
        final(tx).header.rx_hdr_off == old(tx).header.rx_hdr_off,
        final(tx).header.entry_off == old(tx).header.entry_off,
{
}

/// The write pointer of the driver is that of the CPU queue, and its read pointer stands beside
/// it; moving one of them changes nothing else.
pub proof fn law_advance_pointers(
    writer: &mut DmaGspMem,
    reader: &mut DmaGspMem,
    elem_count: u32,
)
    requires
        old(writer).mem.cpuq.tx.header.write_ptr + elem_count <= u32::MAX,
        old(reader).mem.cpuq.rx.header.read_ptr + elem_count <= u32::MAX,
        call_ensures(DmaGspMem::advance_write_ptr, (writer, elem_count), ()),
        call_ensures(DmaGspMem::advance_read_ptr, (reader, elem_count), ()),
    ensures
        final(writer).mem.cpuq.tx.header.write_ptr == (old(writer).mem.cpuq.tx.header.write_ptr
            + elem_count) % 63,
        final(writer).dma_handle == old(writer).dma_handle,
        final(writer).mem.ptes == old(writer).mem.ptes,
        final(writer).mem.gspq == old(writer).mem.gspq,
        final(writer).mem.cpuq.rx == old(writer).mem.cpuq.rx,
        final(writer).mem.cpuq.msgq == old(writer).mem.cpuq.msgq,
        final(reader).mem.cpuq.rx.header.read_ptr == (old(reader).mem.cpuq.rx.header.read_ptr
            + elem_count) % 63,
        final(reader).dma_handle == old(reader).dma_handle,
        final(reader).mem.ptes == old(reader).mem.ptes,
        final(reader).mem.gspq == old(reader).mem.gspq,
        final(reader).mem.cpuq.tx == old(reader).mem.cpuq.tx,
        final(reader).mem.cpuq.msgq == old(reader).mem.cpuq.msgq,
{
}

/// What the driver sees of the GSP queue: its own read pointer, the write pointer of the GSP,
/// and the pages between them.
pub proof fn law_queue_state(q: &GspCmdq, rptr: u32, wptr: u32, used: u32, length: Option<u32>)
    requires
        q.inv(),
        call_ensures(GspCmdq::cpu_rptr, (q,), rptr),
        call_ensures(GspCmdq::gsp_wptr, (q,), wptr),
        call_ensures(GspCmdq::used_rx_pages, (q,), used),
        call_ensures(GspCmdq::pending_rpc_length, (q,), length),
    ensures
        rptr == q.gsp_mem.mem.cpuq.rx.header.read_ptr,
        wptr == q.gsp_mem.mem.gspq.tx.header.write_ptr,
        used == (wptr - rptr) % 63,
        (rptr + used) % 63 == wptr,
        length == (if used == 0 {
            None
        } else {
            Some(get_le32(q.gsp_mem.mem.gspq.msgq.data@, rptr * 4096 + 56))
        }),
{
    GspRpcHeader::lemma_read_length(q.inbox(), q.rptr() * 4096 + 48);
    lemma_counts(q);
}

/// A message is there if the pages that the GSP has written hold all of it.
pub proof fn law_available(q: &GspCmdq, timeout: i64, elapsed: i64, r: bool, step: WaitStep<()>)
    requires
        q.inv(),
        call_ensures(GspCmdq::msg_from_gsp_available, (q,), r),
        call_ensures(GspCmdq::wait_for_msg_from_gsp, (q, timeout, elapsed), step),
    ensures
        r <==> waiting(q) >= 1 && waiting(q) * 4096 >= 48 + front_word(q, 56),
        r ==> step == WaitStep::Done(Ok::<(), Error>(())),
        !r && elapsed > timeout ==> step == WaitStep::Done(Err::<(), Error>(Error::ETIMEDOUT)),
        !r && elapsed <= timeout ==> step == WaitStep::<()>::Again,
{
    GspRpcHeader::lemma_read_length(q.inbox(), q.rptr() * 4096 + 48);
    lemma_counts(q);
}

/// An acknowledgement moves the read pointer past the pages of a message of that length, and
/// changes nothing else.
pub proof fn law_ack_msg(q: &mut GspCmdq, length: u32, pages: int, r: Result<(), Error>)
    requires
        80 + length <= u32::MAX,
        old(q).gsp_mem.mem.cpuq.rx.header.read_ptr + pages <= u32::MAX,
        (pages - 1) * 4096 < 80 + length <= pages * 4096,
        call_ensures(GspCmdq::ack_msg, (q, length), r),
    ensures
        r == Ok::<(), Error>(()),
        was_acked(old(q), final(q), pages),
{
    assert(pages_of(80 + length) == pages);
}

/// `new` is `q` after `pages` pages of the GSP queue were handed back.
pub open spec fn was_acked(q: &GspCmdq, new: &GspCmdq, pages: int) -> bool {
    &&& new.gsp_mem.mem.cpuq.rx.header.read_ptr == (q.gsp_mem.mem.cpuq.rx.header.read_ptr + pages)
        % 63
    &&& new.seq == q.seq
    &&& new.msg_count == q.msg_count
    &&& new.nr_ptes == q.nr_ptes
    &&& new.gsp_mem.dma_handle == q.gsp_mem.dma_handle
    &&& new.gsp_mem.mem.ptes == q.gsp_mem.mem.ptes
    &&& new.gsp_mem.mem.gspq == q.gsp_mem.mem.gspq
    &&& new.gsp_mem.mem.cpuq.tx == q.gsp_mem.mem.cpuq.tx
    &&& new.gsp_mem.mem.cpuq.msgq == q.gsp_mem.mem.cpuq.msgq
}

/// What becomes of an attempt to receive the next message: there is none, it is longer than the
/// queue, not all of it is there, its checksum is not zero, or it is received.
pub open spec fn reception(q: &GspCmdq) -> Result<(), Error> {
    if waiting(q) == 0 {
        Err(Error::EAGAIN)
    } else if front_word(q, 56) >= 63 * 4096 {
        Err(Error::E2BIG)
    } else if waiting(q) * 4096 < 48 + front_word(q, 56) {
        Err(Error::EAGAIN)
    } else if xor_sum(front_bytes(q, 48 + front_word(q, 56))) != 0 {
        Err(Error::EIO)
    } else {
        Ok(())
    }
}

/// The outcome of a reception, in the terms of the contracts.
pub(crate) proof fn lemma_reception(q: &GspCmdq)
    requires
        q.inv(),
        waiting(q) >= 1 ==> front_word(q, 56) >= 32,
    ensures
        q.receive_outcome() == reception(q),
        q.incoming().length == front_word(q, 56),
        q.incoming().function == front_word(q, 60),
        reception(q) is Ok ==> q.incoming_bytes() == front_bytes(q, 48 + front_word(q, 56)),
{
    reveal(GspRpcHeader::read);
    lemma_counts(q);
    assert(q.rptr() * 4096 + 48 + 8 == front(q) + 56);
    assert(q.rptr() * 4096 + 48 + 12 == front(q) + 60);
    if waiting(q) >= 1 && waiting(q) * 4096 >= 48 + front_word(q, 56) {
        lemma_around(q.inbox(), front(q), 48 + front_word(q, 56));
    }
}

/// A message is received with its header and every byte of its payload, in order, also where
/// it runs over the end of the ring; otherwise nothing changes.
pub proof fn law_receive(
    q: &mut GspCmdq,
    r: Result<GspQueueMessage<'_>, Error>,
    first: &[u8],
    second: Option<&[u8]>,
)
    requires
        old(q).inv(),
        waiting(old(q)) >= 1 ==> front_word(old(q), 56) >= 32,
        call_ensures(GspCmdq::receive_msg_from_gsp, (q,), r),
        r is Ok ==> call_ensures(GspQueueMessage::slice_1, (&r->Ok_0,), first),
        r is Ok ==> call_ensures(GspQueueMessage::slice_2, (&r->Ok_0,), second),
    ensures
        r is Ok <==> reception(old(q)) is Ok,
        r is Err ==> reception(old(q)) == Err::<(), Error>(r->Err_0) && *final(q) == *old(q),
        r is Ok ==> {
            &&& *old(r->Ok_0.cmdq) == *old(q)
            &&& *final(r->Ok_0.cmdq) == *final(q)
            &&& r->Ok_0.rpc_header.header_version == front_word(old(q), 48)
            &&& r->Ok_0.rpc_header.signature == front_word(old(q), 52)
            &&& r->Ok_0.rpc_header.length == front_word(old(q), 56)
            &&& r->Ok_0.rpc_header.function == front_word(old(q), 60)
            &&& r->Ok_0.rpc_header.rpc_result == front_word(old(q), 64)
            &&& r->Ok_0.rpc_header.rpc_result_private == front_word(old(q), 68)
            &&& r->Ok_0.rpc_header.sequence == front_word(old(q), 72)
            &&& r->Ok_0.rpc_header.spare == front_word(old(q), 76)
            &&& first@ + (match second {
                Some(rest) => rest@,
                None => Seq::empty(),
            }) == front_bytes(old(q), 48 + front_word(old(q), 56)).skip(80)
        },
{
    let q0 = *old(q);
    lemma_counts(&q0);
    assert(q0.used() >= 1 ==> q0.incoming().length >= 32) by {
        GspRpcHeader::lemma_read_length(q0.inbox(), q0.rptr() * 4096 + 48);
        assert(q0.rptr() * 4096 + 48 + 8 == front(&q0) + 56);
    }
    lemma_reception(&q0);
    if r is Ok {
        reveal(GspRpcHeader::read);
        let at = front(&q0);
        assert(at + 48 + 4 == at + 52 && at + 48 + 16 == at + 64 && at + 48 + 20 == at + 68 && at
            + 48 + 24 == at + 72 && at + 48 + 28 == at + 76);
        match second {
            Some(rest) => {},
            None => {
                assert(r->Ok_0.bytes_2() =~= Seq::<u8>::empty());
            },
        }
    }
}

/// Acknowledging a message moves the read pointer past its pages.
pub proof fn law_ack(msg: GspQueueMessage<'_>, pages: int, r: Result<(), Error>)
    requires
        msg.inv(),
        (pages - 1) * 4096 < 80 + msg.rpc_header.length <= pages * 4096,
        call_ensures(GspQueueMessage::ack, (msg,), r),
    ensures
        r == Ok::<(), Error>(()),
        was_acked(old(msg.cmdq), final(msg.cmdq), pages),
{
    assert(pages_of(80 + msg.rpc_header.length) == pages);
}

/// The shared memory is handed out, and what becomes of it stays.
pub proof fn law_access_mut(shared: &mut DmaGspMem, r: &mut cmdq::GspMem, handle: u64)
    requires
        call_ensures(DmaGspMem::access_mut, (shared,), r),
        call_ensures(DmaGspMem::dma_handle, (old(shared),), handle),
    ensures
        *old(r) == old(shared).mem,
        final(shared).mem == *final(r),
        final(shared).dma_handle == old(shared).dma_handle,
        handle == old(shared).dma_handle,
{
}

/// A running checksum ends in the checksum of the bytes that went in, the first half of its
/// accumulator folded onto the second one.
pub proof fn law_running_checksum(empty: Checksum, sum: &Checksum, r: u32, s: u32)
    requires
        call_ensures(Checksum::new, (), empty),
        call_ensures(Checksum::finish, (&empty,), r),
        call_ensures(Checksum::finish, (sum,), s),
    ensures
        r == 0,
        s == ((sum.sum64 / 0x1_0000_0000) as u32) ^ ((sum.sum64 % 0x1_0000_0000) as u32),
{
    let x = sum.sum64;
    assert((x >> 32) as u32 == (x / 0x1_0000_0000) as u32) by (bit_vector);
    assert(x as u32 == (x % 0x1_0000_0000) as u32) by (bit_vector);
}

} // verus!
