//! The ring of pages of a queue.

use vstd::prelude::*;

use crate::bytes::{le32, splice};
use crate::gsp::checksum::{lemma_xor_sum_concat, lemma_xor_sum_sealed, xor_sum, xor_sum_at};
use crate::nvfw::{MSG_CHECKSUM_OFFSET, MSG_ELEMENT_SIZE};

verus! {

/// Number of GSP pages making the Msgq.
pub const MSGQ_NUM_PAGES: u32 = 0x3f;

/// Size of the pages of a queue.
pub const MSGQ_DATA_SIZE: usize = 0x3_f000;

/// The pointer `ptr` advanced by `elem_count` pages. The sum is taken modulo 2^32 before
/// it is taken modulo the number of pages.
pub open spec fn advanced_ptr(ptr: u32, elem_count: u32) -> u32 {
    ((ptr + elem_count) % 0x1_0000_0000 % MSGQ_NUM_PAGES as int) as u32
}

/// The number of pages of the CPU queue that the driver may write from page `tx` on.
pub open spec fn area_after(tx: int, rx: int) -> int {
    if rx > tx {
        rx - tx - 1
    } else if rx == 0 {
        MSGQ_NUM_PAGES - tx - 1
    } else {
        MSGQ_NUM_PAGES - tx
    }
}

/// The number of pages of the CPU queue that the driver may write from the start of the
/// ring on.
pub open spec fn area_before(tx: int, rx: int) -> int {
    if 0 < rx <= tx {
        rx - 1
    } else {
        0
    }
}

/// Page `page` belongs to the driver while it writes page `tx` next and the GSP reads
/// page `rx` next.
pub open spec fn in_driver_area(tx: int, rx: int, page: int) -> bool {
    tx <= page < tx + area_after(tx, rx) || 0 <= page < area_before(tx, rx)
}

/// The number of pages that have been written and not yet read, with the write pointer
/// `wptr` and the read pointer `rptr`.
pub open spec fn unread_pages(wptr: int, rptr: int) -> int {
    (wptr - rptr) % MSGQ_NUM_PAGES as int
}

/// All pages but one belong to the driver or are waiting to be read.
pub proof fn lemma_driver_area_size(tx: int, rx: int)
    requires
        0 <= tx < MSGQ_NUM_PAGES,
        0 <= rx < MSGQ_NUM_PAGES,
    ensures
        0 <= area_after(tx, rx),
        tx + area_after(tx, rx) <= MSGQ_NUM_PAGES,
        0 <= area_before(tx, rx) <= tx,
        area_after(tx, rx) + area_before(tx, rx) + unread_pages(tx, rx) == MSGQ_NUM_PAGES - 1,
        area_before(tx, rx) > 0 ==> tx + area_after(tx, rx) == MSGQ_NUM_PAGES,
        area_before(tx, rx) > 0 ==> area_after(tx, rx) > 0,
{
}

/// A page belongs to the driver exactly if it is not waiting to be read and is not the
/// one in front of the read pointer, which keeps a full ring apart from an empty one.
#[verifier::rlimit(40)]
pub proof fn lemma_driver_area_is_free(tx: int, rx: int, page: int)
    requires
        0 <= tx < MSGQ_NUM_PAGES,
        0 <= rx < MSGQ_NUM_PAGES,
        0 <= page < MSGQ_NUM_PAGES,
    ensures
        in_driver_area(tx, rx, page) <==> {
            &&& unread_pages(page, rx) >= unread_pages(tx, rx)
            &&& page != (rx - 1) % MSGQ_NUM_PAGES as int
        },
{
    assert(unread_pages(page, rx) == (if rx <= page {
        page - rx
    } else {
        page - rx + 63
    }));
    assert(unread_pages(tx, rx) == (if rx <= tx {
        tx - rx
    } else {
        tx - rx + 63
    }));
    assert((rx - 1) % 63 == (if rx == 0 {
        62
    } else {
        rx - 1
    }));
}

/// Writing `n` pages of the driver's area makes that many more pages wait to be read.
pub proof fn lemma_write_fills(tx: u32, rx: int, n: u32)
    requires
        tx < MSGQ_NUM_PAGES,
        0 <= rx < MSGQ_NUM_PAGES,
        n <= area_after(tx as int, rx) + area_before(tx as int, rx),
    ensures
        unread_pages(advanced_ptr(tx, n) as int, rx) == unread_pages(tx as int, rx) + n,
{
    let sum = tx + n;
    assert(sum % 0x1_0000_0000 == sum);
    assert(sum % 63 == (if sum < 63 {
        sum
    } else {
        sum - 63
    }));
}

/// Reading `n` of the pages that wait leaves the others waiting.
#[verifier::rlimit(40)]
pub proof fn lemma_read_drains(wptr: int, rptr: u32, n: u32)
    requires
        0 <= wptr < MSGQ_NUM_PAGES,
        rptr < MSGQ_NUM_PAGES,
        n <= unread_pages(wptr, rptr as int),
    ensures
        unread_pages(wptr, advanced_ptr(rptr, n) as int) == unread_pages(wptr, rptr as int) - n,
{
    let sum = rptr + n;
    assert(sum % 0x1_0000_0000 == sum);
    assert(sum % 63 == (if sum < 63 {
        sum
    } else {
        sum - 63
    }));
    let used = unread_pages(wptr, rptr as int);
    assert(used == (if rptr <= wptr {
        wptr - rptr
    } else {
        wptr - rptr + 63
    }));
    let next = advanced_ptr(rptr, n) as int;
    assert(unread_pages(wptr, next) == (if next <= wptr {
        wptr - next
    } else {
        wptr - next + 63
    }));
}

/// Reading one page more than wait makes all pages but one count as waiting.
pub proof fn lemma_read_overruns(wptr: int, rptr: u32)
    requires
        0 <= wptr < MSGQ_NUM_PAGES,
        rptr < MSGQ_NUM_PAGES,
    ensures
        unread_pages(
            wptr,
            advanced_ptr(rptr, (unread_pages(wptr, rptr as int) + 1) as u32) as int,
        ) == MSGQ_NUM_PAGES - 1,
{
    let used = unread_pages(wptr, rptr as int);
    assert(used == (if rptr <= wptr {
        wptr - rptr
    } else {
        wptr - rptr + 63
    }));
    let sum = rptr + used + 1;
    assert(sum % 0x1_0000_0000 == sum);
    let next = advanced_ptr(rptr, (used + 1) as u32) as int;
    assert(next == (if wptr == 62 {
        0
    } else {
        wptr + 1
    }));
    assert((wptr - next) % 63 == 62);
}

/// The `n` bytes of a ring from `at` on. After the last byte of the ring comes its first.
#[verifier::opaque]
pub open spec fn circular(ring: Seq<u8>, at: int, n: int) -> Seq<u8> {
    Seq::new(
        n as nat,
        |i: int|
            if at + i < ring.len() {
                ring[at + i]
            } else {
                ring[at + i - ring.len()]
            },
    )
}

/// A message in a ring is its header, the part of its payload up to the end of the ring,
/// and the rest from the start of the ring on.
pub proof fn lemma_message_parts(ring: Seq<u8>, at: int, len_1: int, len_2: int)
    requires
        0 <= at,
        0 <= len_1,
        0 <= len_2 <= ring.len(),
        at + MSG_ELEMENT_SIZE + len_1 <= ring.len(),
        len_2 > 0 ==> at + MSG_ELEMENT_SIZE + len_1 == ring.len(),
    ensures
        ({
            let whole = circular(ring, at, MSG_ELEMENT_SIZE + len_1 + len_2);
            let head = ring.subrange(at, at + MSG_ELEMENT_SIZE);
            let part_1 = ring.subrange(
                at + MSG_ELEMENT_SIZE,
                at + MSG_ELEMENT_SIZE + len_1,
            );
            &&& head + part_1 + ring.take(len_2) == whole
            &&& part_1 + ring.take(len_2) == whole.skip(MSG_ELEMENT_SIZE as int)
        }),
{
    reveal(circular);
    let whole = circular(ring, at, MSG_ELEMENT_SIZE + len_1 + len_2);
    let head = ring.subrange(at, at + MSG_ELEMENT_SIZE);
    let part_1 = ring.subrange(at + MSG_ELEMENT_SIZE, at + MSG_ELEMENT_SIZE + len_1);
    assert(head + part_1 + ring.take(len_2) =~= whole);
    assert(part_1 + ring.take(len_2) =~= whole.skip(MSG_ELEMENT_SIZE as int));
}

/// The bytes of a queue after a command was filled in. The command may use `len_1` bytes
/// from `at` on, which become `header`, `msg` and `data`, and `len_2` bytes from the start
/// of the ring on, which become `wrapped`.
pub open spec fn filled(
    ring: Seq<u8>,
    at: int,
    len_1: int,
    len_2: int,
    header: Seq<u8>,
    msg: Seq<u8>,
    data: Seq<u8>,
    wrapped: Seq<u8>,
) -> Seq<u8> {
    wrapped + ring.subrange(len_2, at) + header + msg + data + ring.skip(at + len_1)
}

/// The parts of a command stand where they were filled in, and nothing else changes.
pub proof fn lemma_filled(
    ring: Seq<u8>,
    at: int,
    len_1: int,
    len_2: int,
    header: Seq<u8>,
    msg: Seq<u8>,
    data: Seq<u8>,
    wrapped: Seq<u8>,
)
    requires
        0 <= len_2 <= at,
        at + len_1 <= ring.len(),
        wrapped.len() == len_2,
        header.len() + msg.len() + data.len() == len_1,
    ensures
        ({
            let new = filled(ring, at, len_1, len_2, header, msg, data, wrapped);
            &&& new.len() == ring.len()
            &&& new.take(len_2) == wrapped
            &&& new.subrange(len_2, at) == ring.subrange(len_2, at)
            &&& new.subrange(at, at + header.len()) == header
            &&& new.subrange(at + header.len(), at + len_1) == msg + data
            &&& new.skip(at + len_1) == ring.skip(at + len_1)
        }),
{
    let new = filled(ring, at, len_1, len_2, header, msg, data, wrapped);
    assert(new.len() == ring.len());
    assert(new.take(len_2) =~= wrapped);
    assert(new.subrange(len_2, at) =~= ring.subrange(len_2, at));
    assert(new.subrange(at, at + header.len()) =~= header);
    assert(new.subrange(at + header.len(), at + len_1) =~= msg + data);
    assert(new.skip(at + len_1) =~= ring.skip(at + len_1));
}

/// A new header at `at` changes none of the other parts of a command.
pub proof fn lemma_new_header(
    ring: Seq<u8>,
    at: int,
    len_1: int,
    len_2: int,
    size: int,
    header: Seq<u8>,
)
    requires
        0 <= size,
        0 <= len_2 <= at,
        header.len() + size <= len_1,
        at + len_1 <= ring.len(),
    ensures
        ({
            let new = splice(ring, at, header);
            let mid = at + header.len() as int;
            &&& new.len() == ring.len()
            &&& new.take(len_2) == ring.take(len_2)
            &&& new.subrange(len_2, at) == ring.subrange(len_2, at)
            &&& new.subrange(at, mid) == header
            &&& new.subrange(mid, mid + size) == ring.subrange(mid, at + len_1).take(size)
            &&& new.subrange(mid + size, at + len_1) == ring.subrange(mid, at + len_1).skip(size)
            &&& new.skip(at + len_1) == ring.skip(at + len_1)
        }),
{
    let new = splice(ring, at, header);
    let mid = at + header.len() as int;
    assert(new.take(len_2) =~= ring.take(len_2));
    assert(new.subrange(len_2, at) =~= ring.subrange(len_2, at));
    assert(new.subrange(at, mid) =~= header);
    assert(new.subrange(mid, mid + size) =~= ring.subrange(mid, at + len_1).take(size));
    assert(new.subrange(mid + size, at + len_1) =~= ring.subrange(mid, at + len_1).skip(size));
    assert(new.skip(at + len_1) =~= ring.skip(at + len_1));
}

/// A ring with the bytes `b` from `at` on. After the last byte of the ring comes its first.
#[verifier::opaque]
pub open spec fn placed(ring: Seq<u8>, at: int, b: Seq<u8>) -> Seq<u8> {
    Seq::new(
        ring.len(),
        |j: int|
            if at <= j < at + b.len() {
                b[j - at]
            } else if j + ring.len() < at + b.len() {
                b[j + ring.len() - at]
            } else {
                ring[j]
            },
    )
}

/// A command that was filled in with `args` is `args` behind its header in the ring.
#[verifier::rlimit(40)]
pub proof fn lemma_filled_is_placed(
    ring: Seq<u8>,
    at: int,
    len_1: int,
    len_2: int,
    header: Seq<u8>,
    msg: Seq<u8>,
    data: Seq<u8>,
    wrapped: Seq<u8>,
    args: Seq<u8>,
)
    requires
        0 <= len_2 <= at,
        at + len_1 <= ring.len(),
        len_2 > 0 ==> at + len_1 == ring.len(),
        wrapped.len() == len_2,
        header.len() + msg.len() + data.len() == len_1,
        header.len() + args.len() <= len_1 + len_2,
        msg + data + wrapped == splice(
            ring.subrange(at + header.len(), at + len_1) + ring.take(len_2),
            0,
            args,
        ),
    ensures
        filled(ring, at, len_1, len_2, header, msg, data, wrapped) == placed(
            ring,
            at,
            header + args,
        ),
{
    reveal(placed);
    let new = filled(ring, at, len_1, len_2, header, msg, data, wrapped);
    let want = placed(ring, at, header + args);
    let old_payload = ring.subrange(at + header.len(), at + len_1) + ring.take(len_2);
    let payload = msg + data + wrapped;
    lemma_filled(ring, at, len_1, len_2, header, msg, data, wrapped);
    assert forall|j: int| 0 <= j < ring.len() implies new[j] == want[j] by {
        if j < len_2 {
            assert(new[j] == new.take(len_2)[j]);
            assert(wrapped[j] == payload[len_1 - header.len() + j]);
            assert(old_payload[len_1 - header.len() + j] == ring[j]);
        } else if j < at {
            assert(new[j] == new.subrange(len_2, at)[j - len_2]);
            assert(ring[j] == ring.subrange(len_2, at)[j - len_2]);
        } else if j < at + header.len() {
            assert(new[j] == new.subrange(at, at + header.len())[j - at]);
        } else if j < at + len_1 {
            let k = j - at - header.len();
            assert(new[j] == new.subrange(at + header.len(), at + len_1)[k]);
            assert((msg + data)[k] == payload[k]);
            assert(old_payload[k] == ring[j]);
        } else {
            assert(new[j] == new.skip(at + len_1)[j - at - len_1]);
            assert(ring[j] == ring.skip(at + len_1)[j - at - len_1]);
        }
    }
    assert(new =~= want);
}

/// With its checksum filled in, data that had a zero there has the checksum zero.
pub proof fn lemma_seal(w: Seq<u8>)
    requires
        w.len() >= 36,
        w.subrange(32, 36) == le32(0),
    ensures
        xor_sum(splice(w, 32, le32(xor_sum(w)))) == 0,
{
    let head = w.take(32);
    let tail = w.skip(36);
    assert(w =~= head + w.subrange(32, 36) + tail);
    lemma_xor_sum_sealed(head, tail);
    assert(splice(w, 32, le32(xor_sum(w))) =~= head + le32(xor_sum(w)) + tail);
}

/// A change of bytes before the wrap of a ring, seen from `at` on.
pub proof fn lemma_circular_splice(ring: Seq<u8>, at: int, n: int, off: int, b: Seq<u8>)
    requires
        0 <= at,
        0 <= off,
        at + off + b.len() <= ring.len(),
        off + b.len() <= n <= ring.len(),
        at <= ring.len(),
    ensures
        circular(splice(ring, at + off, b), at, n) == splice(circular(ring, at, n), off, b),
{
    reveal(circular);
    assert(circular(splice(ring, at + off, b), at, n) =~= splice(circular(ring, at, n), off, b));
}

/// The parts of a header that stands at `at`, before and after a checksum was filled in.
pub proof fn lemma_parts_of_header(ring: Seq<u8>, at: int, header: Seq<u8>, checksum: u32)
    requires
        0 <= at,
        at + MSG_ELEMENT_SIZE <= ring.len(),
        header.len() == MSG_ELEMENT_SIZE,
        ring.subrange(at, at + MSG_ELEMENT_SIZE) == header,
    ensures
        ring.subrange(at + 32, at + 36) == header.subrange(32, 36),
        splice(ring, at + MSG_CHECKSUM_OFFSET, le32(checksum)).subrange(at + 48, at + 80)
            == header.subrange(48, 80),
{
    let head = ring.subrange(at, at + MSG_ELEMENT_SIZE);
    assert(ring.subrange(at + 32, at + 36) =~= head.subrange(32, 36));
    assert(splice(ring, at + MSG_CHECKSUM_OFFSET, le32(checksum)).subrange(at + 48, at + 80)
        =~= head.subrange(48, 80));
}

/// What follows the header of a message and what follows the message.
pub proof fn lemma_message_tail(whole: Seq<u8>, header: Seq<u8>, args: Seq<u8>)
    requires
        header.len() == MSG_ELEMENT_SIZE,
        header.len() + args.len() <= whole.len(),
        whole.take((header.len() + args.len()) as int) == header + args,
    ensures
        whole.skip(MSG_ELEMENT_SIZE as int).take(args.len() as int) == args,
        whole.skip(MSG_ELEMENT_SIZE as int).skip(args.len() as int) == whole.skip(
            (header.len() + args.len()) as int,
        ),
{
    let message = whole.take((header.len() + args.len()) as int);
    assert(whole.skip(MSG_ELEMENT_SIZE as int).take(args.len() as int) =~= message.skip(
        MSG_ELEMENT_SIZE as int,
    ));
    assert((header + args).skip(MSG_ELEMENT_SIZE as int) =~= args);
    assert(whole.skip(MSG_ELEMENT_SIZE as int).skip(args.len() as int) =~= whole.skip(
        (header.len() + args.len()) as int,
    ));
}

/// The part of a ring from `at` on after bytes were placed there.
pub proof fn lemma_placed_parts(
    ring: Seq<u8>,
    at: int,
    len_1: int,
    len_2: int,
    header: Seq<u8>,
    args: Seq<u8>,
)
    requires
        0 <= at,
        0 <= len_2 <= at,
        header.len() == MSG_ELEMENT_SIZE,
        MSG_ELEMENT_SIZE <= len_1,
        at + len_1 <= ring.len(),
        len_2 > 0 ==> at + len_1 == ring.len(),
        header.len() + args.len() <= len_1 + len_2,
    ensures
        ({
            let new = placed(ring, at, header + args);
            let whole = circular(new, at, len_1 + len_2);
            let size = (header.len() + args.len()) as int;
            &&& new.len() == ring.len()
            &&& new.subrange(at, at + MSG_ELEMENT_SIZE) == header
            &&& whole.take(size) == header + args
            &&& whole.skip(size) == circular(ring, at, len_1 + len_2).skip(size)
        }),
{
    reveal(circular);
    reveal(placed);
    let new = placed(ring, at, header + args);
    let whole = circular(new, at, len_1 + len_2);
    let size = (header.len() + args.len()) as int;
    assert(new.subrange(at, at + MSG_ELEMENT_SIZE) =~= header);
    assert(whole.take(size) =~= header + args);
    assert(whole.skip(size) =~= circular(ring, at, len_1 + len_2).skip(size));
}

/// The first `size` bytes of a command after the checksum over all of its part of the queue
/// was filled in.
#[verifier::rlimit(40)]
pub proof fn lemma_sent_bytes(ring: Seq<u8>, at: int, len_1: int, len_2: int, size: int)
    requires
        0 <= at,
        MSG_ELEMENT_SIZE <= len_1,
        at + len_1 <= ring.len(),
        0 <= len_2 <= at,
        len_2 > 0 ==> at + len_1 == ring.len(),
        MSG_ELEMENT_SIZE <= size <= len_1 + len_2,
        ring.subrange(at + 32, at + 36) == le32(0),
    ensures
        ({
            let payload = ring.subrange(at + MSG_ELEMENT_SIZE, at + len_1) + ring.take(len_2);
            let c = xor_sum(
                ring.subrange(at, at + MSG_ELEMENT_SIZE) + ring.subrange(
                    at + MSG_ELEMENT_SIZE,
                    at + len_1,
                ) + ring.take(len_2),
            );
            let received = circular(
                splice(ring, at + MSG_CHECKSUM_OFFSET, le32(c)),
                at,
                size,
            );
            &&& received.skip(MSG_ELEMENT_SIZE as int) == payload.take(size - MSG_ELEMENT_SIZE)
            &&& xor_sum(received) == 0 <==> xor_sum_at(
                payload.skip(size - MSG_ELEMENT_SIZE),
                size,
            ) == 0
        }),
{
    reveal(circular);
    let total = len_1 + len_2;
    let whole = circular(ring, at, total);
    let payload = ring.subrange(at + MSG_ELEMENT_SIZE, at + len_1) + ring.take(len_2);
    lemma_message_parts(ring, at, len_1 - MSG_ELEMENT_SIZE, len_2);
    let c = xor_sum(whole);
    assert(whole.subrange(32, 36) =~= ring.subrange(at + 32, at + 36));
    lemma_seal(whole);
    lemma_circular_splice(ring, at, total, MSG_CHECKSUM_OFFSET as int, le32(c));
    let sent = splice(ring, at + MSG_CHECKSUM_OFFSET, le32(c));
    let all = circular(sent, at, total);
    let received = circular(sent, at, size);
    assert(received =~= all.take(size));
    assert(all =~= received + all.skip(size));
    lemma_xor_sum_concat(received, all.skip(size), 0);
    assert(all.skip(MSG_ELEMENT_SIZE as int) =~= payload);
    assert(all.skip(size) =~= payload.skip(size - MSG_ELEMENT_SIZE));
    assert(received.skip(MSG_ELEMENT_SIZE as int) =~= payload.take(size - MSG_ELEMENT_SIZE));
    let x = xor_sum(received);
    let y = xor_sum_at(all.skip(size), size);
    assert((x == 0) == (y == 0)) by (bit_vector)
        requires
            x ^ y == 0,
    ;
}

} // verus!
