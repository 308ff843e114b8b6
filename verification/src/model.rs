//! The queue as mathematics: its state, the lists that run through the
//! descriptor table, and what each operation makes of the state.
use crate::config::VIRT_QUEUE_SIZE;
use crate::descriptor::{Buffer, Descriptor, DescriptorFlags, FLAG_NEXT, FLAG_WRITE};
use crate::util::is_pow2;
use volatile::Volatile;
use vstd::prelude::*;

verus! {

/// The two cells of an entry of the used ring.
pub struct UsedCells {
    pub id: Volatile<u32>,
    pub len: Volatile<u32>,
}

/// The cells that the device writes.
pub struct UsedModel {
    pub idx: Volatile<u16>,
    pub ring: Seq<UsedCells>,
}

/// The state of a queue.
#[verifier::ext_equal]
pub struct QueueModel {
    /// The descriptor table.
    pub table: Seq<Descriptor>,
    /// The entries of the available ring.
    pub avail_ring: Seq<u16>,
    /// The position that the available ring shows to the device.
    pub avail_idx: u16,
    /// The device's side.
    pub used: UsedModel,
    /// Which of the device's queues this is.
    pub queue_index: u32,
    /// Descriptors in the table.
    pub queue_size: u16,
    /// Descriptors that are not free.
    pub used_num: u16,
    /// Where the free list starts.
    pub free_head: u16,
    /// The position in the available ring of the next chain.
    pub avail_index: u16,
    /// The position in the used ring up to which chains were taken back.
    pub last_used: u16,
}

/// The sizes of a queue's parts fit each other.
pub open spec fn sound(q: QueueModel) -> bool {
    &&& is_pow2(q.queue_size)
    &&& q.table.len() == q.queue_size
    &&& q.avail_ring.len() == VIRT_QUEUE_SIZE
    &&& q.used.ring.len() == VIRT_QUEUE_SIZE
    &&& q.used_num <= q.queue_size
}

/// The descriptor that `k` links from `head` lead to.
pub open spec fn hop(table: Seq<Descriptor>, head: u16, k: nat) -> u16
    decreases k,
{
    if k == 0 {
        head
    } else {
        table[hop(table, head, (k - 1) as nat) as int].next
    }
}

/// The first `n` descriptors along the links from `head`.
pub open spec fn path(table: Seq<Descriptor>, head: u16, n: nat) -> Seq<u16> {
    Seq::new(n, |k: int| hop(table, head, k as nat))
}

/// The entry of a ring at a position that only ever counts up.
pub open spec fn slot(q: QueueModel, position: u16) -> int {
    (position % q.queue_size) as int
}

/// The position after `position`; positions wrap at sixteen bits.
pub open spec fn next_position(position: u16) -> u16 {
    if position == u16::MAX {
        0
    } else {
        (position + 1) as u16
    }
}

/// A chain of `n` more descriptors fits beside those in use.
pub open spec fn has_room(q: QueueModel, n: int) -> bool {
    q.used_num + n <= q.queue_size
}

/// The links from the head of the free list lead to `n` descriptors of the
/// table, and there is an entry of the available ring for the chain.
pub open spec fn addable(q: QueueModel, n: nat) -> bool {
    &&& forall|k: nat| k < n ==> (#[trigger] hop(q.table, q.free_head, k)) < q.table.len()
    &&& slot(q, q.avail_index) < q.avail_ring.len()
}

/// The `k`th buffer of a request: first those that the device reads, then those
/// that it writes.
pub open spec fn buffer_at(inputs: Seq<Buffer>, outputs: Seq<Buffer>, k: int) -> Buffer {
    if k < inputs.len() {
        inputs[k]
    } else {
        outputs[k - inputs.len()]
    }
}

/// Flags of a descriptor that is continued or not, for a buffer that the device
/// writes or reads.
pub open spec fn flags_of(more: bool, write: bool) -> DescriptorFlags {
    DescriptorFlags {
        bits: if more {
            if write {
                3
            } else {
                1
            }
        } else {
            if write {
                2
            } else {
                0
            }
        },
    }
}

/// The descriptor of the `k`th buffer of a request, continued or not, that
/// keeps the link `next`.
pub open spec fn described(
    inputs: Seq<Buffer>,
    outputs: Seq<Buffer>,
    k: int,
    more: bool,
    next: u16,
) -> Descriptor {
    Descriptor {
        paddr: buffer_at(inputs, outputs, k).paddr,
        len: buffer_at(inputs, outputs, k).len as u32,
        flags: flags_of(more, k >= inputs.len()),
        next,
    }
}

/// The last of the first `n` steps from `head` that is on descriptor `j`; -1 if
/// none is.
pub open spec fn last_visit(table: Seq<Descriptor>, head: u16, n: nat, j: int) -> int
    decreases n,
{
    if n == 0 {
        -1
    } else if hop(table, head, (n - 1) as nat) == j {
        n - 1
    } else {
        last_visit(table, head, (n - 1) as nat, j)
    }
}

/// The table once the first `n` buffers of a request are described along the
/// links from `head`. Each descriptor but that of the last of `total` buffers
/// is continued; no link changes.
pub open spec fn laid_out(
    table: Seq<Descriptor>,
    head: u16,
    inputs: Seq<Buffer>,
    outputs: Seq<Buffer>,
    n: nat,
    total: nat,
) -> Seq<Descriptor> {
    Seq::new(
        table.len(),
        |j: int|
            {
                let k = last_visit(table, head, n, j);
                if k < 0 {
                    table[j]
                } else {
                    described(inputs, outputs, k, k + 1 < total, table[j].next)
                }
            },
    )
}

/// The queue after a request was added: its buffers are described along the
/// free list, its first descriptor is in the available ring, and the ring shows
/// one entry more.
pub open spec fn after_add(
    q: QueueModel,
    inputs: Seq<Buffer>,
    outputs: Seq<Buffer>,
) -> QueueModel {
    let n = inputs.len() + outputs.len();
    QueueModel {
        table: laid_out(q.table, q.free_head, inputs, outputs, n, n),
        avail_ring: q.avail_ring.update(slot(q, q.avail_index), q.free_head),
        avail_idx: next_position(q.avail_index),
        used_num: (q.used_num + n) as u16,
        free_head: hop(q.table, q.free_head, n),
        avail_index: next_position(q.avail_index),
        ..q
    }
}

/// How many descriptors the chain from `head` has, if it ends within `limit`
/// descriptors, all of the table. A chain goes on while the flag for it is set.
pub open spec fn chain_len(table: Seq<Descriptor>, head: u16, limit: nat) -> Option<nat>
    decreases limit,
{
    if limit == 0 || head >= table.len() {
        None
    } else if !table[head as int].flags.has(FLAG_NEXT) {
        Some(1)
    } else {
        match chain_len(table, table[head as int].next, (limit - 1) as nat) {
            Some(m) => Some(m + 1),
            None => None,
        }
    }
}

/// The chain from `head` ends, and has no more descriptors than are in use.
pub open spec fn recyclable(q: QueueModel, head: u16) -> bool {
    chain_len(q.table, head, q.used_num as nat) is Some
}

/// The queue after the chain from `head` was put in front of the free list.
pub open spec fn after_recycle(q: QueueModel, head: u16) -> QueueModel {
    let m = chain_len(q.table, head, q.used_num as nat)->0;
    let last = hop(q.table, head, (m - 1) as nat) as int;
    QueueModel {
        table: q.table.update(last, Descriptor { next: q.free_head, ..q.table[last] }),
        used_num: (q.used_num - m) as u16,
        free_head: head,
        ..q
    }
}

/// The queue after the used entry that names the chain from `head` was taken.
pub open spec fn after_pop(q: QueueModel, head: u16) -> QueueModel {
    QueueModel { last_used: next_position(q.last_used), ..after_recycle(q, head) }
}

/// A freshly linked queue over the given memory: every descriptor but the last
/// is linked to the one behind it, and all of them are free.
pub open spec fn fresh(
    table: Seq<Descriptor>,
    avail_ring: Seq<u16>,
    avail_idx: u16,
    used: UsedModel,
    index: u32,
    size: u16,
) -> QueueModel {
    QueueModel {
        table: Seq::new(
            table.len(),
            |j: int|
                if j < size - 1 {
                    Descriptor { next: (j + 1) as u16, ..table[j] }
                } else {
                    table[j]
                },
        ),
        avail_ring,
        avail_idx,
        used,
        queue_index: index,
        queue_size: size,
        used_num: 0,
        free_head: 0,
        avail_index: 0,
        last_used: 0,
    }
}

/// What a descriptor tells the device of its buffer.
pub struct Segment {
    pub paddr: u64,
    pub len: u32,
    pub write: bool,
}

/// What the device reads in a descriptor.
pub open spec fn segment(d: Descriptor) -> Segment {
    Segment { paddr: d.paddr, len: d.len, write: d.flags.has(FLAG_WRITE) }
}

/// What the device reads in the chain from `head`, if the chain ends within the
/// table's length.
pub open spec fn device_view(table: Seq<Descriptor>, head: u16) -> Option<Seq<Segment>> {
    match chain_len(table, head, table.len()) {
        Some(m) => Some(Seq::new(m, |k: int| segment(table[hop(table, head, k as nat) as int]))),
        None => None,
    }
}

/// What a request is to tell the device: the buffers in order, the first ones
/// to read, the others to write, each length in 32 bits.
pub open spec fn request_view(inputs: Seq<Buffer>, outputs: Seq<Buffer>) -> Seq<Segment> {
    Seq::new(
        inputs.len() + outputs.len(),
        |k: int|
            Segment {
                paddr: buffer_at(inputs, outputs, k).paddr,
                len: buffer_at(inputs, outputs, k).len as u32,
                write: k >= inputs.len(),
            },
    )
}

/// One more buffer laid out is one descriptor replaced.
pub(crate) proof fn lemma_lay_out_step(
    table: Seq<Descriptor>,
    head: u16,
    inputs: Seq<Buffer>,
    outputs: Seq<Buffer>,
    n: nat,
    total: nat,
)
    requires
        hop(table, head, n) < table.len(),
        n + 1 < total,
    ensures
        ({
            let before = laid_out(table, head, inputs, outputs, n, total);
            let at = hop(table, head, n) as int;
            &&& before[at].next == table[at].next
            &&& laid_out(table, head, inputs, outputs, n + 1, total) == before.update(
                at,
                described(inputs, outputs, n as int, true, table[at].next),
            )
        }),
{
    let before = laid_out(table, head, inputs, outputs, n, total);
    let at = hop(table, head, n) as int;
    lemma_last_visit_bounds(table, head, n, at);
    assert forall|j: int| 0 <= j < table.len() implies laid_out(
        table,
        head,
        inputs,
        outputs,
        n + 1,
        total,
    )[j] == before.update(at, described(inputs, outputs, n as int, true, table[at].next))[j] by {
        lemma_last_visit_bounds(table, head, n, j);
    }
    assert(laid_out(table, head, inputs, outputs, n + 1, total) =~= before.update(
        at,
        described(inputs, outputs, n as int, true, table[at].next),
    ));
}

/// With every buffer laid out, the chain is ended by one descriptor replaced.
pub(crate) proof fn lemma_lay_out_end(
    table: Seq<Descriptor>,
    head: u16,
    inputs: Seq<Buffer>,
    outputs: Seq<Buffer>,
    n: nat,
)
    requires
        n > 0,
        hop(table, head, (n - 1) as nat) < table.len(),
    ensures
        ({
            let before = laid_out(table, head, inputs, outputs, n, n + 1);
            let at = hop(table, head, (n - 1) as nat) as int;
            &&& before[at] == described(inputs, outputs, n - 1, true, table[at].next)
            &&& laid_out(table, head, inputs, outputs, n, n) == before.update(
                at,
                described(inputs, outputs, n - 1, false, table[at].next),
            )
        }),
{
    let before = laid_out(table, head, inputs, outputs, n, n + 1);
    let at = hop(table, head, (n - 1) as nat) as int;
    assert forall|j: int| 0 <= j < table.len() implies laid_out(
        table,
        head,
        inputs,
        outputs,
        n,
        n,
    )[j] == before.update(at, described(inputs, outputs, n - 1, false, table[at].next))[j] by {
        lemma_last_visit_bounds(table, head, n, j);
    }
    assert(laid_out(table, head, inputs, outputs, n, n) =~= before.update(
        at,
        described(inputs, outputs, n - 1, false, table[at].next),
    ));
}

/// A visit is one of the steps, and is on the descriptor.
pub(crate) proof fn lemma_last_visit_bounds(
    table: Seq<Descriptor>,
    head: u16,
    n: nat,
    j: int,
)
    ensures
        -1 <= last_visit(table, head, n, j) < n,
        last_visit(table, head, n, j) >= 0 ==> hop(
            table,
            head,
            last_visit(table, head, n, j) as nat,
        ) == j,
        forall|k: nat| k < n && #[trigger] hop(table, head, k) == j ==> k <= last_visit(
            table,
            head,
            n,
            j,
        ),
    decreases n,
{
    if n > 0 {
        lemma_last_visit_bounds(table, head, (n - 1) as nat, j);
    }
}

/// A chain has a descriptor, and no more than the limit.
pub(crate) proof fn lemma_chain_len_bounds(table: Seq<Descriptor>, head: u16, limit: nat)
    ensures
        chain_len(table, head, limit) matches Some(m) ==> 1 <= m <= limit,
    decreases limit,
{
    if limit > 0 && head < table.len() && table[head as int].flags.has(FLAG_NEXT) {
        lemma_chain_len_bounds(table, table[head as int].next, (limit - 1) as nat);
    }
}

/// Steps may be counted from the second descriptor.
pub(crate) proof fn lemma_hop_from_next(table: Seq<Descriptor>, head: u16, k: nat)
    ensures
        hop(table, head, k + 1) == hop(table, table[head as int].next, k),
    decreases k,
{
    if k > 0 {
        lemma_hop_from_next(table, head, (k - 1) as nat);
    } else {
        assert(hop(table, head, 1) == table[hop(table, head, 0) as int].next);
    }
}

} // verus!
