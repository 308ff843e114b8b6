//! Where the parts of a queue lie in its memory.
use crate::config::{DESCRIPTOR_SIZE, PAGE_SIZE, RING_FIELD_SIZE, USED_ELEMENT_SIZE};
use crate::util::align_up_page;
use vstd::prelude::*;

verus! {

/// Bytes of a table of `n` descriptors.
pub open spec fn table_bytes(n: int) -> int {
    DESCRIPTOR_SIZE * n
}

/// Bytes of an available ring of `n` entries: three fields and the entries.
pub open spec fn avail_bytes(n: int) -> int {
    RING_FIELD_SIZE * (3 + n)
}

/// Bytes of a used ring of `n` entries: three fields and the entries.
pub open spec fn used_bytes(n: int) -> int {
    RING_FIELD_SIZE * 3 + USED_ELEMENT_SIZE * n
}

/// The layout of a queue's memory. The descriptor table comes first.
#[derive(Clone, Copy, Debug, PartialEq, Eq, Structural)]
pub struct VirtQueueMemLayout {
    /// Where the available ring starts.
    pub avail_ring_offset: usize,
    /// Where the used ring starts.
    pub used_ring_offset: usize,
    /// Bytes in all.
    pub mem_size: usize,
}

/// The layout for a queue of `n` descriptors: the available ring right behind
/// the table, the used ring on the page after it, whole pages in all.
pub open spec fn layout_of(n: int) -> (int, int, int) {
    let front = crate::util::page_aligned(table_bytes(n) + avail_bytes(n));
    (table_bytes(n), front, front + crate::util::page_aligned(used_bytes(n)))
}

impl VirtQueueMemLayout {
    /// The three numbers of the layout.
    pub open spec fn numbers(self) -> (int, int, int) {
        (self.avail_ring_offset as int, self.used_ring_offset as int, self.mem_size as int)
    }

    /// Lays out a queue of `queue_size` descriptors.
    pub fn new(queue_size: u16) -> (res: Self)
        requires
            crate::util::is_pow2(queue_size),
        ensures
            res.numbers() == layout_of(queue_size as int),
    {
        let q_size = queue_size as usize;
        let descriptors_size = DESCRIPTOR_SIZE * q_size;
        let avail_ring_size = RING_FIELD_SIZE * (3 + q_size);
        let used_ring_size = RING_FIELD_SIZE * 3 + USED_ELEMENT_SIZE * q_size;
        VirtQueueMemLayout {
            avail_ring_offset: descriptors_size,
            used_ring_offset: align_up_page(descriptors_size + avail_ring_size),
            mem_size: align_up_page(descriptors_size + avail_ring_size) + align_up_page(
                used_ring_size,
            ),
        }
    }

    /// Pages that the queue takes.
    pub fn pages(&self) -> (res: usize)
        ensures
            res == self.mem_size / PAGE_SIZE,
    {
        self.mem_size / PAGE_SIZE
    }
}

/// The parts of a queue lie one behind the other without overlap: the table,
/// the available ring, and on a page of its own the used ring. They fit into
/// the memory, which is whole pages, and every part starts where its fields may:
/// the rings at even addresses.
pub proof fn parts_do_not_overlap(n: u16)
    ensures
        ({
            let (avail, used, size) = layout_of(n as int);
            &&& table_bytes(n as int) <= avail
            &&& avail + avail_bytes(n as int) <= used
            &&& used + used_bytes(n as int) <= size
            &&& avail % 2 == 0
            &&& used % (PAGE_SIZE as int) == 0
            &&& size % (PAGE_SIZE as int) == 0
            &&& size / (PAGE_SIZE as int) * PAGE_SIZE == size
        }),
{
    crate::util::page_aligned_is_least_multiple(table_bytes(n as int) + avail_bytes(n as int));
    crate::util::page_aligned_is_least_multiple(used_bytes(n as int));
}

} // verus!
