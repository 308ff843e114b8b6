//! What the operations of a queue promise their callers, told by what goes in and
//! what comes out: the cells, the counters and the links, not how they are come
//! by.
use crate::cell::{seen_u16, seen_u32, DriverCell16, DriverCell32, DriverCell64};
use crate::descriptor::{
    Buffer, Descriptor, DescriptorFlags, DescriptorSlot, FLAG_NEXT, FLAG_WRITE,
};
use crate::model::{
    after_pop, chain_len, hop, last_visit, lemma_last_visit_bounds, recyclable, QueueModel,
};
use crate::queue::{device_says, look_result, pop_result, QueueMemory, VirtQueue};
use crate::VirtIOError;
use vstd::prelude::*;

verus! {

/// Each descriptor of `way` but the last is linked to the one behind it.
pub open spec fn is_way(table: Seq<Descriptor>, way: Seq<u16>) -> bool {
    forall|k: int, i: int|
        0 <= k && i == k + 1 && i < way.len() ==> #[trigger] way[i] == table[(
        #[trigger] way[k]) as int].next
}

/// `way` is a whole chain: its descriptors are of the table and linked, and the
/// lowest bit of the flags is set in all but the last.
pub open spec fn is_whole_chain(table: Seq<Descriptor>, way: Seq<u16>) -> bool {
    &&& way.len() > 0
    &&& is_way(table, way)
    &&& forall|k: int| 0 <= k < way.len() ==> (#[trigger] way[k]) < table.len()
    &&& forall|k: int|
        0 <= k < way.len() ==> (table[(#[trigger] way[k]) as int].flags.bits % 2 == 1 <==> k + 1
            < way.len())
}

/// There is a whole chain from `head` of at most `limit` descriptors.
pub open spec fn has_whole_chain(table: Seq<Descriptor>, head: u16, limit: int) -> bool {
    exists|way: Seq<u16>| #[trigger]
        is_whole_chain(table, way) && way[0] == head && way.len() <= limit
}

pub(crate) proof fn lemma_low_32(x: u64)
    ensures
        x as u32 as int == x as int % 0x1_0000_0000,
{
    assert(x as u32 == x % 0x1_0000_0000u64) by (bit_vector);
}

pub(crate) proof fn lemma_low_16(x: u32)
    ensures
        x as u16 as int == x as int % 0x1_0000,
{
    assert(x as u16 == x % 0x1_0000u32) by (bit_vector);
}

pub(crate) proof fn lemma_lowest_bit(bits: u16)
    ensures
        bits & FLAG_NEXT == FLAG_NEXT <==> bits % 2 == 1,
{
    assert(bits & 1 == 1 <==> bits % 2 == 1) by (bit_vector);
}

pub(crate) proof fn lemma_way_is_hops(table: Seq<Descriptor>, way: Seq<u16>, k: nat)
    requires
        is_way(table, way),
        k < way.len(),
    ensures
        hop(table, way[0], k) == way[k as int],
    decreases k,
{
    if k > 0 {
        lemma_way_is_hops(table, way, (k - 1) as nat);
        assert(way[k as int] == table[way[k - 1] as int].next);
    }
}

proof fn lemma_whole_chain_has_len(table: Seq<Descriptor>, way: Seq<u16>, limit: nat)
    requires
        is_whole_chain(table, way),
        way.len() <= limit,
    ensures
        chain_len(table, way[0], limit) == Some(way.len()),
    decreases limit,
{
    lemma_lowest_bit(table[way[0] as int].flags.bits);
    if way.len() > 1 {
        let rest = way.skip(1);
        assert forall|k: int| 0 <= k < rest.len() implies (#[trigger] rest[k]) < table.len() && (
        table[rest[k] as int].flags.bits % 2 == 1 <==> k + 1 < rest.len()) by {
            assert(rest[k] == way[k + 1]);
        }
        assert forall|k: int, i: int| 0 <= k && i == k + 1 && i < rest.len() implies
            #[trigger] rest[i] == table[(#[trigger] rest[k]) as int].next by {
            assert(rest[i] == way[i + 1] && rest[k] == way[k + 1]);
        }
        assert(way[1] == table[way[0] as int].next);
        lemma_whole_chain_has_len(table, rest, (limit - 1) as nat);
    }
}

pub(crate) proof fn lemma_len_has_whole_chain(table: Seq<Descriptor>, head: u16, limit: nat) -> (way: Seq<u16>)
    requires
        chain_len(table, head, limit) is Some,
    ensures
        is_whole_chain(table, way),
        way[0] == head,
        way.len() == chain_len(table, head, limit)->0,
        way.len() <= limit,
    decreases limit,
{
    lemma_lowest_bit(table[head as int].flags.bits);
    if table[head as int].flags.has(FLAG_NEXT) {
        let rest = lemma_len_has_whole_chain(table, table[head as int].next, (limit - 1) as nat);
        let way = seq![head] + rest;
        assert forall|k: int, i: int| 0 <= k && i == k + 1 && i < way.len() implies
            #[trigger] way[i] == table[(#[trigger] way[k]) as int].next by {
            if k > 0 {
                assert(way[i] == rest[i - 1] && way[k] == rest[k - 1]);
            } else {
                assert(way[i] == rest[0]);
            }
        }
        assert forall|k: int| 0 <= k < way.len() implies (#[trigger] way[k]) < table.len() && (
        table[way[k] as int].flags.bits % 2 == 1 <==> k + 1 < way.len()) by {
            if k > 0 {
                assert(way[k] == rest[k - 1]);
            }
        }
        way
    } else {
        seq![head]
    }
}

pub(crate) proof fn lemma_chain_len_is_whole_chain(table: Seq<Descriptor>, head: u16, limit: nat)
    ensures
        chain_len(table, head, limit) is Some <==> has_whole_chain(table, head, limit as int),
{
    if chain_len(table, head, limit) is Some {
        let way = lemma_len_has_whole_chain(table, head, limit);
    }
    if has_whole_chain(table, head, limit as int) {
        let way = choose|way: Seq<u16>| #[trigger]
            is_whole_chain(table, way) && way[0] == head && way.len() <= limit;
        lemma_whole_chain_has_len(table, way, limit);
    }
}

/// A new queue has every descriptor free and linked in the order of the table;
/// what else the memory holds stays, and nothing is offered or taken yet.
pub proof fn new_queue_is_free_and_linked(
    memory: QueueMemory<'_>,
    index: usize,
    size: u16,
    res: VirtQueue<'_>,
)
    requires
        call_ensures(VirtQueue::new, (memory, index, size), res),
        memory.descriptors@.len() == size,
    ensures
        res@.table.len() == size,
        forall|j: int|
            0 <= j < size ==> {
                &&& (#[trigger] res@.table[j]).paddr == memory.descriptors@[j]@.paddr
                &&& res@.table[j].len == memory.descriptors@[j]@.len
                &&& res@.table[j].flags == memory.descriptors@[j]@.flags
                &&& j + 1 < size ==> res@.table[j].next == j + 1
                &&& j + 1 == size ==> res@.table[j].next == memory.descriptors@[j]@.next
            },
        res@.avail_ring.len() == memory.avail.ring@.len(),
        forall|j: int|
            0 <= j < memory.avail.ring@.len() ==> #[trigger] res@.avail_ring[j]
                == memory.avail.ring@[j]@,
        res@.avail_idx == memory.avail.idx@,
        res@.used.idx == memory.used.idx@,
        res@.used.ring.len() == memory.used.ring@.len(),
        forall|j: int|
            0 <= j < memory.used.ring@.len() ==> (#[trigger] res@.used.ring[j]).id
                == memory.used.ring@[j].id@ && res@.used.ring[j].len == memory.used.ring@[j].len@,
        res@.queue_index as int == index as int % 0x1_0000_0000,
        res@.queue_size == size,
        res@.used_num == 0,
        res@.free_head == 0,
        res@.avail_index == 0,
        res@.last_used == 0,
{
    lemma_low_32(index as u64);
}

/// A request without buffers, or with more buffers than there are descriptors
/// left, is refused and changes nothing; every other one is named by the
/// descriptor at the head of the free list.
pub proof fn add_buf_refuses_what_does_not_fit(
    queue: &mut VirtQueue<'_>,
    inputs: &[Buffer],
    outputs: &[Buffer],
    res: Result<u16, VirtIOError>,
)
    requires
        call_ensures(VirtQueue::add_buf, (queue, inputs, outputs), res),
    ensures
        ({
            let n = inputs@.len() + outputs@.len();
            let free = old(queue)@.queue_size - old(queue)@.used_num;
            &&& n == 0 <==> res == Err::<u16, VirtIOError>(VirtIOError::InvalidParameter)
            &&& n > 0 && n > free <==> res == Err::<u16, VirtIOError>(VirtIOError::Overflow)
            &&& 0 < n <= free <==> res == Ok::<u16, VirtIOError>(old(queue)@.free_head)
            &&& res is Err ==> final(queue)@ == old(queue)@
        }),
{
}

/// The `k`th buffer of a request is described by the `k`th descriptor of the free
/// list: where it starts, its length in 32 bits, that the device writes it if it
/// is an output, and that the chain goes on unless it is the last. No link
/// changes, and no other descriptor does. (A free list that comes by a descriptor
/// twice leaves the later buffer in it.)
pub proof fn add_buf_describes_each_buffer(
    queue: &mut VirtQueue<'_>,
    inputs: &[Buffer],
    outputs: &[Buffer],
    res: Result<u16, VirtIOError>,
    way: Seq<u16>,
)
    requires
        call_ensures(VirtQueue::add_buf, (queue, inputs, outputs), res),
        res is Ok,
        is_way(old(queue)@.table, way),
        way.len() == inputs@.len() + outputs@.len() + 1,
        way[0] == old(queue)@.free_head,
    ensures
        ({
            let n = inputs@.len() + outputs@.len();
            let pre = old(queue)@;
            let post = final(queue)@;
            &&& post.table.len() == pre.table.len()
            &&& forall|j: int|
                0 <= j < pre.table.len() ==> (#[trigger] post.table[j]).next == pre.table[j].next
            &&& forall|j: int|
                0 <= j < pre.table.len() && (forall|k: int| 0 <= k < n ==> #[trigger] way[k] != j)
                    ==> #[trigger] post.table[j] == pre.table[j]
            &&& forall|k: int|
                0 <= k < n && way[k] < pre.table.len() && (forall|i: int|
                    k < i < n ==> way[i] != #[trigger] way[k]) ==> {
                    let d = post.table[(#[trigger] way[k]) as int];
                    let b = if k < inputs@.len() {
                        inputs@[k]
                    } else {
                        outputs@[k - inputs@.len()]
                    };
                    &&& d.paddr == b.paddr
                    &&& d.len as int == b.len as int % 0x1_0000_0000
                    &&& d.flags.bits == (if k + 1 < n {
                        1int
                    } else {
                        0
                    }) + (if k >= inputs@.len() {
                        2int
                    } else {
                        0
                    })
                }
        }),
{
    let n = inputs@.len() + outputs@.len();
    let pre = old(queue)@;
    let post = final(queue)@;
    let head = pre.free_head;
    assert forall|j: int|
        0 <= j < pre.table.len() && (forall|k: int| 0 <= k < n ==> #[trigger] way[k] != j) implies
        #[trigger] post.table[j] == pre.table[j] by {
        lemma_last_visit_bounds(pre.table, head, n, j);
        let at = last_visit(pre.table, head, n, j);
        if at >= 0 {
            lemma_way_is_hops(pre.table, way, at as nat);
        }
    }
    assert forall|k: int|
        0 <= k < n && way[k] < pre.table.len() && (forall|i: int|
            k < i < n ==> way[i] != #[trigger] way[k]) implies {
        let d = post.table[(#[trigger] way[k]) as int];
        let b = if k < inputs@.len() {
            inputs@[k]
        } else {
            outputs@[k - inputs@.len()]
        };
        &&& d.paddr == b.paddr
        &&& d.len as int == b.len as int % 0x1_0000_0000
        &&& d.flags.bits == (if k + 1 < n {
            1int
        } else {
            0
        }) + (if k >= inputs@.len() {
            2int
        } else {
            0
        })
    } by {
        let j = way[k] as int;
        lemma_last_visit_bounds(pre.table, head, n, j);
        lemma_way_is_hops(pre.table, way, k as nat);
        let at = last_visit(pre.table, head, n, j);
        lemma_way_is_hops(pre.table, way, at as nat);
        if k < inputs@.len() {
            lemma_low_32(inputs@[k].len as u64);
        } else {
            lemma_low_32(outputs@[k - inputs@.len()].len as u64);
        }
    }
}

/// A request is offered at the current available position and nowhere else: that
/// entry names the chain's first descriptor, every other entry is as it was, and
/// the position that the device is shown is the next one.
pub proof fn add_buf_offers_at_one_entry(
    queue: &mut VirtQueue<'_>,
    inputs: &[Buffer],
    outputs: &[Buffer],
    res: Result<u16, VirtIOError>,
)
    requires
        call_ensures(VirtQueue::add_buf, (queue, inputs, outputs), res),
        res is Ok,
        old(queue)@.queue_size > 0,
        old(queue)@.avail_index as int % (old(queue)@.queue_size as int) < old(
            queue,
        )@.avail_ring.len(),
    ensures
        ({
            let pre = old(queue)@;
            let post = final(queue)@;
            let at = pre.avail_index as int % pre.queue_size as int;
            &&& post.avail_ring.len() == pre.avail_ring.len()
            &&& Some(post.avail_ring[at]) == res.ok()
            &&& forall|j: int|
                0 <= j < pre.avail_ring.len() && j != at ==> #[trigger] post.avail_ring[j]
                    == pre.avail_ring[j]
            &&& post.avail_idx as int == (pre.avail_index + 1) % 0x1_0000
            &&& post.avail_index == post.avail_idx
        }),
{
    let pre = old(queue)@;
    vstd::arithmetic::div_mod::lemma_mod_bound(pre.avail_index as int, pre.queue_size as int);
}

/// Adding a request takes as many descriptors as it has buffers from the front of
/// the free list, and leaves the device's side and the queue's size alone.
pub proof fn add_buf_takes_from_the_free_list(
    queue: &mut VirtQueue<'_>,
    inputs: &[Buffer],
    outputs: &[Buffer],
    res: Result<u16, VirtIOError>,
    way: Seq<u16>,
)
    requires
        call_ensures(VirtQueue::add_buf, (queue, inputs, outputs), res),
        res is Ok,
        is_way(old(queue)@.table, way),
        way.len() == inputs@.len() + outputs@.len() + 1,
        way[0] == old(queue)@.free_head,
    ensures
        res == Ok::<u16, VirtIOError>(way[0]),
        final(queue)@.free_head == way.last(),
        final(queue)@.used_num == old(queue)@.used_num + inputs@.len() + outputs@.len(),
        final(queue)@.used == old(queue)@.used,
        final(queue)@.queue_index == old(queue)@.queue_index,
        final(queue)@.queue_size == old(queue)@.queue_size,
        final(queue)@.last_used == old(queue)@.last_used,
{
    lemma_way_is_hops(old(queue)@.table, way, (way.len() - 1) as nat);
}

/// Two requests in a row are both there for the device: each at its own entry,
/// the entries one behind the other, and the position moved on by two.
pub proof fn two_requests_are_both_offered(
    first: &mut VirtQueue<'_>,
    second: &mut VirtQueue<'_>,
    inputs: (&[Buffer], &[Buffer]),
    outputs: (&[Buffer], &[Buffer]),
    res: (Result<u16, VirtIOError>, Result<u16, VirtIOError>),
)
    requires
        call_ensures(VirtQueue::add_buf, (first, inputs.0, outputs.0), res.0),
        call_ensures(VirtQueue::add_buf, (second, inputs.1, outputs.1), res.1),
        final(first)@ == old(second)@,
        res.0 is Ok,
        res.1 is Ok,
        0x1_0000int % (old(first)@.queue_size as int) == 0,
        1 < old(first)@.queue_size <= old(first)@.avail_ring.len(),
    ensures
        ({
            let size = old(first)@.queue_size as int;
            let at = old(first)@.avail_index as int % size;
            let ring = final(second)@.avail_ring;
            &&& Some(ring[at]) == res.0.ok()
            &&& Some(ring[(at + 1) % size]) == res.1.ok()
            &&& (at + 1) % size != at
            &&& final(second)@.avail_idx as int == (old(first)@.avail_index + 2) % 0x1_0000
        }),
{
    let size = old(first)@.queue_size;
    let pos = old(first)@.avail_index;
    vstd::arithmetic::div_mod::lemma_mod_bound(pos as int, size as int);
    vstd::arithmetic::div_mod::lemma_mod_bound((pos + 1) % 0x1_0000, size as int);
    add_buf_offers_at_one_entry(first, inputs.0, outputs.0, res.0);
    add_buf_offers_at_one_entry(second, inputs.1, outputs.1, res.1);
    lemma_next_entry(pos, size);
}

/// The entry behind an entry, also where positions wrap.
proof fn lemma_next_entry(pos: u16, size: u16)
    requires
        size > 1,
        0x1_0000int % (size as int) == 0,
    ensures
        ((pos + 1) % 0x1_0000) % size as int == (pos as int % size as int + 1) % size as int,
        (pos as int % size as int + 1) % size as int != pos as int % size as int,
{
    let s = size as int;
    let times = 0x1_0000int / s;
    vstd::arithmetic::div_mod::lemma_fundamental_div_mod(0x1_0000, s);
    vstd::arithmetic::div_mod::lemma_div_pos_is_pos(0x1_0000, s);
    if times == 0 {
        assert(s * times == 0) by (nonlinear_arith)
            requires
                times == 0,
        ;
    }
    assert(s * times == 0x1_0000);
    vstd::arithmetic::div_mod::lemma_mod_mod(pos + 1, s, times);
    vstd::arithmetic::div_mod::lemma_add_mod_noop(pos as int, 1, s);
    vstd::arithmetic::div_mod::lemma_mod_twice(pos as int, s);
    vstd::arithmetic::div_mod::lemma_small_mod(1, s as nat);
    let r = pos as int % s;
    if r + 1 < s {
        vstd::arithmetic::div_mod::lemma_small_mod((r + 1) as nat, s as nat);
    } else {
        vstd::arithmetic::div_mod::lemma_mod_self_0(s);
    }
}

/// Whether there is an entry to take is whether the position that the device
/// shows is another than the one up to which entries were taken.
pub proof fn can_pop_tells_positions_apart(queue: &VirtQueue<'_>, res: bool)
    requires
        call_ensures(VirtQueue::can_pop, (queue,), res),
    ensures
        !res ==> seen_u16(queue@.used.idx, queue@.last_used),
        res ==> exists|shown: u16| #[trigger]
            seen_u16(queue@.used.idx, shown) && shown != queue@.last_used,
{
}

/// The same for a position that was read already.
pub proof fn can_pop_at_tells_positions_apart(queue: &VirtQueue<'_>, shown: u16, res: bool)
    requires
        call_ensures(VirtQueue::can_pop_at, (queue, shown), res),
    ensures
        res <==> shown != queue@.last_used,
{
}

/// What looking at the next entry gives was read from the cells of entry number
/// `last_used` modulo the queue's size, however far the device has got: the
/// identifier in 16 bits and the length. That there is none is said only if the
/// device shows the position up to which entries were taken.
pub proof fn next_used_reads_the_next_entry(
    queue: &VirtQueue<'_>,
    res: Option<Result<(u16, u32), VirtIOError>>,
)
    requires
        call_ensures(VirtQueue::next_used, (queue,), res),
        queue@.queue_size > 0,
    ensures
        ({
            let q = queue@;
            let at = q.last_used as int % q.queue_size as int;
            match res {
                Some(Ok((head, len))) => {
                    &&& at < q.used.ring.len()
                    &&& exists|shown: u16| #[trigger]
                        seen_u16(q.used.idx, shown) && shown != q.last_used
                    &&& exists|id: u32| #[trigger]
                        seen_u32(q.used.ring[at].id, id) && head as int == id as int % 0x1_0000
                    &&& seen_u32(q.used.ring[at].len, len)
                },
                Some(Err(e)) => e == VirtIOError::UsedRingNotReady && seen_u16(
                    q.used.idx,
                    q.last_used,
                ),
                None => at >= q.used.ring.len(),
            }
        }),
{
    let q = queue@;
    let (shown, id, len) = choose|shown: u16, id: u32, len: u32| #[trigger]
        device_says(q, shown, id, len) && res == look_result(q, shown, id, len);
    lemma_low_16(id);
}

/// The same for what the device was seen to say already.
pub proof fn next_used_at_gives_what_is_said(
    queue: &VirtQueue<'_>,
    shown: u16,
    id: u32,
    len: u32,
    res: Result<(u16, u32), VirtIOError>,
)
    requires
        call_ensures(VirtQueue::next_used_at, (queue, shown, id, len), res),
    ensures
        shown == queue@.last_used ==> res == Err::<(u16, u32), VirtIOError>(
            VirtIOError::UsedRingNotReady,
        ),
        shown != queue@.last_used ==> (res matches Ok((head, n)) && head as int == id as int
            % 0x1_0000 && n == len),
{
    lemma_low_16(id);
}

/// `post` is `pre` with the chain `way` put in front of the free list and one
/// entry of the used ring taken: the last descriptor of the chain leads on to the
/// old free list, and nothing else changes but the counters.
pub open spec fn chain_came_back(
    pre: QueueModel,
    post: QueueModel,
    way: Seq<u16>,
) -> bool {
    &&& post.free_head == way[0]
    &&& post.used_num == pre.used_num - way.len()
    &&& post.last_used as int == (pre.last_used + 1) % 0x1_0000
    &&& post.table.len() == pre.table.len()
    &&& post.table[way.last() as int].next == pre.free_head
    &&& forall|j: int|
        0 <= j < pre.table.len() ==> {
            &&& (#[trigger] post.table[j]).paddr == pre.table[j].paddr
            &&& post.table[j].len == pre.table[j].len
            &&& post.table[j].flags == pre.table[j].flags
            &&& j != way.last() ==> post.table[j].next == pre.table[j].next
        }
    &&& post.avail_ring == pre.avail_ring
    &&& post.avail_idx == pre.avail_idx
    &&& post.avail_index == pre.avail_index
    &&& post.used == pre.used
    &&& post.queue_index == pre.queue_index
    &&& post.queue_size == pre.queue_size
}

pub(crate) proof fn lemma_pop_brings_chain_back(q: QueueModel, way: Seq<u16>)
    requires
        is_whole_chain(q.table, way),
        way.len() <= q.used_num,
    ensures
        recyclable(q, way[0]),
        chain_came_back(q, after_pop(q, way[0]), way),
{
    lemma_whole_chain_has_len(q.table, way, q.used_num as nat);
    lemma_way_is_hops(q.table, way, (way.len() - 1) as nat);
}

/// A chain comes back whole: once the device shows an entry that names it, all its
/// descriptors are free again, in their order and in front of those that were,
/// and one entry is taken. Without such an entry nothing changes.
pub proof fn pop_used_at_takes_the_chain_back(
    queue: &mut VirtQueue<'_>,
    shown: u16,
    id: u32,
    len: u32,
    res: Result<(u16, u32), VirtIOError>,
    way: Seq<u16>,
)
    requires
        call_ensures(VirtQueue::pop_used_at, (queue, shown, id, len), res),
        shown != old(queue)@.last_used ==> {
            &&& is_whole_chain(old(queue)@.table, way)
            &&& way[0] as int == id as int % 0x1_0000
            &&& way.len() <= old(queue)@.used_num
        },
    ensures
        shown == old(queue)@.last_used ==> res == Err::<(u16, u32), VirtIOError>(
            VirtIOError::UsedRingNotReady,
        ) && final(queue)@ == old(queue)@,
        shown != old(queue)@.last_used ==> res == Ok::<(u16, u32), VirtIOError>((way[0], len))
            && chain_came_back(old(queue)@, final(queue)@, way),
{
    lemma_low_16(id);
    if shown != old(queue)@.last_used {
        lemma_pop_brings_chain_back(old(queue)@, way);
    }
}

/// Taking the next entry takes entry number `last_used` modulo the queue's size:
/// what is returned was read from its cells, and the chain that it names comes
/// back whole. Where the device shows no entry, or names what is no chain of as
/// many descriptors as are in use, nothing changes.
pub proof fn pop_used_takes_the_next_entry(
    queue: &mut VirtQueue<'_>,
    res: Option<Result<(u16, u32), VirtIOError>>,
)
    requires
        call_ensures(VirtQueue::pop_used, (queue,), res),
        old(queue)@.queue_size > 0,
    ensures
        ({
            let pre = old(queue)@;
            let at = pre.last_used as int % pre.queue_size as int;
            match res {
                Some(Ok((head, len))) => {
                    &&& at < pre.used.ring.len()
                    &&& exists|shown: u16| #[trigger]
                        seen_u16(pre.used.idx, shown) && shown != pre.last_used
                    &&& exists|id: u32| #[trigger]
                        seen_u32(pre.used.ring[at].id, id) && head as int == id as int % 0x1_0000
                    &&& seen_u32(pre.used.ring[at].len, len)
                    &&& exists|way: Seq<u16>| #[trigger]
                        is_whole_chain(pre.table, way) && way[0] == head && way.len()
                            <= pre.used_num && chain_came_back(pre, final(queue)@, way)
                },
                Some(Err(e)) => e == VirtIOError::UsedRingNotReady && seen_u16(
                    pre.used.idx,
                    pre.last_used,
                ) && final(queue)@ == pre,
                None => {
                    &&& final(queue)@ == pre
                    &&& exists|shown: u16| #[trigger]
                        seen_u16(pre.used.idx, shown) && shown != pre.last_used
                    &&& at < pre.used.ring.len() ==> exists|id: u32| #[trigger]
                        seen_u32(pre.used.ring[at].id, id) && !has_whole_chain(
                            pre.table,
                            id as u16,
                            pre.used_num as int,
                        )
                },
            }
        }),
{
    let pre = old(queue)@;
    let post = final(queue)@;
    let (shown, id, len) = choose|shown: u16, id: u32, len: u32| #[trigger]
        device_says(pre, shown, id, len) && (post, res) == pop_result(pre, shown, id, len);
    lemma_low_16(id);
    lemma_chain_len_is_whole_chain(pre.table, id as u16, pre.used_num as nat);
    if res matches Some(Ok(_)) {
        let way = lemma_len_has_whole_chain(pre.table, id as u16, pre.used_num as nat);
        lemma_pop_brings_chain_back(pre, way);
        assert(is_whole_chain(pre.table, way) && chain_came_back(pre, post, way));
    }
}

/// A chain can be taken back if and only if it is whole and has no more
/// descriptors than are in use.
pub proof fn can_recycle_tells_whole_chains(queue: &VirtQueue<'_>, head: u16, res: bool)
    requires
        call_ensures(VirtQueue::can_recycle, (queue, head), res),
    ensures
        res <==> has_whole_chain(queue@.table, head, queue@.used_num as int),
{
    lemma_chain_len_is_whole_chain(queue@.table, head, queue@.used_num as nat);
}

/// A request of `n` buffers is accepted if and only if as many descriptors are
/// free, the free list leads to them within the table, and the ring has an entry.
pub proof fn accepts_tells_what_fits(queue: &VirtQueue<'_>, n: usize, way: Seq<u16>, res: bool)
    requires
        call_ensures(VirtQueue::accepts, (queue, n), res),
        queue@.queue_size > 0,
        is_way(queue@.table, way),
        way.len() == n + 1,
        way[0] == queue@.free_head,
    ensures
        res <==> {
            &&& n <= queue@.queue_size - queue@.used_num
            &&& forall|k: int| 0 <= k < n ==> (#[trigger] way[k]) < queue@.table.len()
            &&& queue@.avail_index as int % (queue@.queue_size as int) < queue@.avail_ring.len()
        },
{
    let q = queue@;
    if res {
        assert forall|k: int| 0 <= k < n implies (#[trigger] way[k]) < q.table.len() by {
            lemma_way_is_hops(q.table, way, k as nat);
            assert(hop(q.table, q.free_head, k as nat) < q.table.len());
        }
    } else if forall|k: int| 0 <= k < n ==> (#[trigger] way[k]) < q.table.len() {
        assert forall|k: nat| k < n implies (#[trigger] hop(q.table, q.free_head, k))
            < q.table.len() by {
            lemma_way_is_hops(q.table, way, k);
            assert(way[k as int] < q.table.len());
        }
    }
}

/// Free descriptors and those in use make up the table.
pub proof fn free_and_used_make_up_the_queue(queue: &VirtQueue<'_>, free: usize, size: u16)
    requires
        call_ensures(VirtQueue::free_desc_num, (queue,), free),
        call_ensures(VirtQueue::size, (queue,), size),
    ensures
        size == queue@.queue_size,
        free + queue@.used_num == size,
{
}

/// Copies show what the queue holds, each at its place.
pub proof fn copies_show_the_queue(
    queue: &VirtQueue<'_>,
    index: usize,
    one: Descriptor,
    table: Vec<Descriptor>,
    avail: Vec<u16>,
    used: Vec<(u32, u32)>,
)
    requires
        call_ensures(VirtQueue::descriptor, (queue, index), one),
        call_ensures(VirtQueue::desc_table, (queue,), table),
        call_ensures(VirtQueue::avail_entries, (queue,), avail),
        call_ensures(VirtQueue::used_entries, (queue,), used),
        index < queue@.table.len(),
    ensures
        one == queue@.table[index as int],
        table@.len() == queue@.table.len(),
        table@[index as int] == one,
        avail@.len() == queue@.avail_ring.len(),
        forall|j: int|
            0 <= j < avail@.len() ==> #[trigger] avail@[j] == queue@.avail_ring[j],
        used@.len() == queue@.used.ring.len(),
        forall|j: int|
            0 <= j < used@.len() ==> seen_u32(queue@.used.ring[j].id, (#[trigger] used@[j]).0)
                && seen_u32(queue@.used.ring[j].len, used@[j].1),
{
}

/// A descriptor is made of its four cells, and a copy of it shows what they hold.
pub proof fn descriptor_is_its_cells(
    paddr: DriverCell64<'_>,
    len: DriverCell32<'_>,
    flags: DriverCell16<'_>,
    next: DriverCell16<'_>,
    slot: DescriptorSlot<'_>,
    copy: Descriptor,
)
    requires
        call_ensures(DescriptorSlot::new, (paddr, len, flags, next), slot),
        call_ensures(DescriptorSlot::read, (&slot,), copy),
    ensures
        copy == slot@,
        copy.paddr == paddr@,
        copy.len == len@,
        copy.flags.bits == flags@,
        copy.next == next@,
{
}

/// Flags are sets of bits: to contain others is to have each of their bits, to
/// remove others is to lose each of theirs and no other. The lowest bit says that
/// the chain goes on, the one above it that the device writes.
pub proof fn flags_are_sets_of_bits(
    flags: &mut DescriptorFlags,
    bits: u16,
    other: u16,
    made: DescriptorFlags,
    all_set: bool,
    done: (),
    i: u16,
)
    requires
        call_ensures(DescriptorFlags::from_bits, (bits,), made),
        call_ensures(DescriptorFlags::contains, (&made, other), all_set),
        call_ensures(DescriptorFlags::remove, (flags, other), done),
        i < 16,
    ensures
        made.bits == bits,
        all_set && (other >> i) & 1 == 1 ==> (bits >> i) & 1 == 1,
        !all_set ==> other & !bits != 0,
        (final(flags).bits >> i) & 1 == 1 <==> (old(flags).bits >> i) & 1 == 1 && !((other >> i) & 1
            == 1),
        FLAG_NEXT == 1,
        FLAG_WRITE == 2,
{
    let before = old(flags).bits;
    assert((bits & other == other && (other >> i) & 1 == 1 ==> (bits >> i) & 1 == 1) && (bits
        & other != other ==> other & !bits != 0) && (((before & !other) >> i) & 1 == 1 <==> (before
        >> i) & 1 == 1 && !((other >> i) & 1 == 1))) by (bit_vector)
        requires
            i < 16,
    ;
}

/// A queue that is in order can always be looked into and taken from, and stays in
/// order whatever the device says.
pub proof fn queue_in_order_stays_usable(
    queue: &mut VirtQueue<'_>,
    still: &VirtQueue<'_>,
    res: Option<Result<(u16, u32), VirtIOError>>,
)
    requires
        old(queue).inv(),
        still.inv(),
        call_ensures(VirtQueue::pop_used, (queue,), res),
    ensures
        call_requires(VirtQueue::pop_used, (queue,)),
        call_requires(VirtQueue::next_used, (still,)),
        call_requires(VirtQueue::can_pop, (still,)),
        call_requires(VirtQueue::free_desc_num, (still,)),
        final(queue).inv(),
{
}

} // verus!
