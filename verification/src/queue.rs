//! The virtual queue: how driver and device hand each other chains of buffers.
use crate::cell::{fence_seq_cst, seen_u16, seen_u32, DeviceCell16, DeviceCell32, DriverCell16};
use crate::config::VIRT_QUEUE_SIZE;
use crate::descriptor::{
    lemma_flag_bits, Buffer, Descriptor, DescriptorFlags, DescriptorSlot, FLAG_NEXT, FLAG_WRITE,
};
use crate::model::{
    addable, after_add, after_pop, after_recycle, chain_len, flags_of, fresh, has_room, hop,
    laid_out, lemma_chain_len_bounds, lemma_lay_out_end, lemma_lay_out_step, recyclable, slot,
    sound, QueueModel, UsedCells, UsedModel,
};
use crate::util::{is_pow2, lemma_mask_is_mod, lemma_pow2_cases};
use crate::VirtIOError;
use vstd::prelude::*;

verus! {

/// The ring in which the driver offers chains to the device.
pub struct AvailableRing<'a> {
    /// One past the last entry that is offered.
    pub idx: DriverCell16<'a>,
    /// First descriptors of the chains.
    pub ring: Vec<DriverCell16<'a>>,
}

/// An entry of the used ring.
pub struct UsedElement<'a> {
    /// First descriptor of the chain.
    pub id: DeviceCell32<'a>,
    /// Bytes that the device wrote.
    pub len: DeviceCell32<'a>,
}

/// The ring in which the device gives chains back.
pub struct UsedRing<'a> {
    /// One past the last entry that is given back.
    pub idx: DeviceCell16<'a>,
    pub ring: Vec<UsedElement<'a>>,
}

/// The memory of a queue, cell by cell.
pub struct QueueMemory<'a> {
    pub descriptors: Vec<DescriptorSlot<'a>>,
    pub avail: AvailableRing<'a>,
    pub used: UsedRing<'a>,
}

/// What the descriptors of a table say.
pub open spec fn table_view(slots: Seq<DescriptorSlot>) -> Seq<Descriptor> {
    Seq::new(slots.len(), |j: int| slots[j]@)
}

/// What the entries of an available ring hold.
pub open spec fn ring_view(cells: Seq<DriverCell16>) -> Seq<u16> {
    Seq::new(cells.len(), |j: int| cells[j]@)
}

/// The cells of a used ring.
pub open spec fn used_view(used: UsedRing) -> UsedModel {
    UsedModel {
        idx: used.idx@,
        ring: Seq::new(
            used.ring@.len(),
            |j: int| UsedCells { id: used.ring@[j].id@, len: used.ring@[j].len@ },
        ),
    }
}

/// A virtual queue.
pub struct VirtQueue<'virtio> {
    /// The descriptor table.
    descriptor_table: Vec<DescriptorSlot<'virtio>>,
    /// The available ring.
    avail_ring: AvailableRing<'virtio>,
    /// The used ring.
    used_ring: UsedRing<'virtio>,
    /// Which of the device's queues this is.
    queue_index: u32,
    /// Descriptors in the table.
    queue_size: u16,
    /// Descriptors that are not free.
    used_num: u16,
    /// Where the free list starts.
    free_desc_head: u16,
    /// The position in the available ring of the next chain.
    avail_index: u16,
    /// The position in the used ring up to which chains were taken back.
    last_used_index: u16,
}

impl<'virtio> View for VirtQueue<'virtio> {
    type V = QueueModel;

    closed spec fn view(&self) -> QueueModel {
        QueueModel {
            table: table_view(self.descriptor_table@),
            avail_ring: ring_view(self.avail_ring.ring@),
            avail_idx: self.avail_ring.idx@,
            used: used_view(self.used_ring),
            queue_index: self.queue_index,
            queue_size: self.queue_size,
            used_num: self.used_num,
            free_head: self.free_desc_head,
            avail_index: self.avail_index,
            last_used: self.last_used_index,
        }
    }
}

/// What looking at the next used entry gives, once the device shows the position
/// `used_idx` and the entry says `id` and `len`. The identifier counts in 16 bits.
pub open spec fn next_result(q: QueueModel, used_idx: u16, id: u32, len: u32) -> Result<
    (u16, u32),
    VirtIOError,
> {
    if q.last_used == used_idx {
        Err(VirtIOError::UsedRingNotReady)
    } else {
        Ok((id as u16, len))
    }
}

/// The device said `id` and `len` in the next used entry of `q`.
pub open spec fn next_entry_says(q: QueueModel, id: u32, len: u32) -> bool {
    let at = slot(q, q.last_used);
    &&& at < q.used.ring.len()
    &&& seen_u32(q.used.ring[at].id, id)
    &&& seen_u32(q.used.ring[at].len, len)
}

/// The device showed the position `used_idx` and, if that makes an entry to be
/// looked at, said `id` and `len` in it.
pub open spec fn device_says(q: QueueModel, used_idx: u16, id: u32, len: u32) -> bool {
    &&& seen_u16(q.used.idx, used_idx)
    &&& q.last_used != used_idx && slot(q, q.last_used) < q.used.ring.len() ==> next_entry_says(
        q,
        id,
        len,
    )
}

/// What looking at the next used entry of `q` comes to, for what the device says:
/// `None` where the entry would lie outside the ring.
pub open spec fn look_result(q: QueueModel, used_idx: u16, id: u32, len: u32) -> Option<
    Result<(u16, u32), VirtIOError>,
> {
    if q.last_used != used_idx && slot(q, q.last_used) >= q.used.ring.len() {
        None
    } else {
        Some(next_result(q, used_idx, id, len))
    }
}

/// What taking the next used entry of `q` comes to, for what the device says: the
/// queue afterwards, and the result. Where the entry would lie outside the ring,
/// or names no chain that can be taken back, that is `None` and the queue as it
/// was.
pub open spec fn pop_result(q: QueueModel, used_idx: u16, id: u32, len: u32) -> (
    QueueModel,
    Option<Result<(u16, u32), VirtIOError>>,
) {
    if q.last_used == used_idx {
        (q, Some(Err(VirtIOError::UsedRingNotReady)))
    } else if slot(q, q.last_used) >= q.used.ring.len() || !recyclable(q, id as u16) {
        (q, None)
    } else {
        (after_pop(q, id as u16), Some(next_result(q, used_idx, id, len)))
    }
}

/// `res` is what looking at the next used entry of `q` came to, for something
/// that the device said.
pub open spec fn next_outcome(
    q: QueueModel,
    res: Option<Result<(u16, u32), VirtIOError>>,
) -> bool {
    exists|used_idx: u16, id: u32, len: u32| #[trigger]
        device_says(q, used_idx, id, len) && res == look_result(q, used_idx, id, len)
}

/// `post` and `res` are what taking the next used entry of `pre` came to, for
/// something that the device said.
pub open spec fn pop_outcome(
    pre: QueueModel,
    post: QueueModel,
    res: Option<Result<(u16, u32), VirtIOError>>,
) -> bool {
    exists|used_idx: u16, id: u32, len: u32| #[trigger]
        device_says(pre, used_idx, id, len) && (post, res) == pop_result(pre, used_idx, id, len)
}

/// `res` is whether the used ring of `q` showed an entry that was not taken yet.
pub open spec fn can_pop_outcome(q: QueueModel, res: bool) -> bool {
    exists|used_idx: u16| #[trigger]
        seen_u16(q.used.idx, used_idx) && res == (q.last_used != used_idx)
}

impl<'virtio> VirtQueue<'virtio> {
    /// What a queue is said to be is what its cells hold: the descriptors, the
    /// entries of the available ring and the position beside them are those that
    /// the device reads, and the device's side is the cells that the device writes.
    proof fn lemma_state_is_in_the_cells(self)
        ensures
            self@.table.len() == self.descriptor_table@.len(),
            forall|j: int|
                0 <= j < self.descriptor_table@.len() ==> #[trigger] self@.table[j]
                    == self.descriptor_table@[j]@,
            self@.avail_ring.len() == self.avail_ring.ring@.len(),
            forall|j: int|
                0 <= j < self.avail_ring.ring@.len() ==> #[trigger] self@.avail_ring[j]
                    == self.avail_ring.ring@[j]@,
            self@.avail_idx == self.avail_ring.idx@,
            self@.used.idx == self.used_ring.idx@,
            self@.used.ring.len() == self.used_ring.ring@.len(),
            forall|j: int|
                0 <= j < self.used_ring.ring@.len() ==> (#[trigger] self@.used.ring[j]).id
                    == self.used_ring.ring@[j].id@ && self@.used.ring[j].len
                    == self.used_ring.ring@[j].len@,
            self@.last_used == self.last_used_index,
            self@.avail_index == self.avail_index,
            self@.free_head == self.free_desc_head,
            self@.used_num == self.used_num,
            self@.queue_size == self.queue_size,
    {
    }

    /// The queue's parts fit each other. Every queue that [`VirtQueue::new`]
    /// made satisfies this at all times.
    pub open spec fn inv(self) -> bool {
        sound(self@)
    }

    /// Takes over the memory of queue `index`, of `size` descriptors, and links
    /// all the descriptors into the free list. The index is kept in 32 bits.
    pub fn new(memory: QueueMemory<'virtio>, index: usize, size: u16) -> (res: Self)
        requires
            is_pow2(size),
            memory.descriptors@.len() == size,
            memory.avail.ring@.len() == VIRT_QUEUE_SIZE,
            memory.used.ring@.len() == VIRT_QUEUE_SIZE,
        ensures
            res.inv(),
            res@ == fresh(
                table_view(memory.descriptors@),
                ring_view(memory.avail.ring@),
                memory.avail.idx@,
                used_view(memory.used),
                index as u32,
                size,
            ),
    {
        proof {
            lemma_pow2_cases(size);
        }
        let ghost before = table_view(memory.descriptors@);
        let mut table = memory.descriptors;
        let mut i: u16 = 0;
        while i < size - 1
            invariant
                size > 0,
                i <= size - 1,
                table@.len() == size,
                before.len() == size,
                forall|j: int| 0 <= j < i ==> (#[trigger] table@[j])@ == (Descriptor {
                    next: (j + 1) as u16,
                    ..before[j]
                }),
                forall|j: int| i <= j < size ==> (#[trigger] table@[j])@ == before[j],
            decreases size - i,
        {
            table[i as usize].set_next(i + 1);
            i = i + 1;
        }
        let res = VirtQueue {
            descriptor_table: table,
            avail_ring: memory.avail,
            used_ring: memory.used,
            queue_index: #[verifier::truncate]
            (index as u32),
            queue_size: size,
            used_num: 0,
            free_desc_head: 0,
            avail_index: 0,
            last_used_index: 0,
        };
        proof {
            assert(res@.table =~= fresh(
                before,
                ring_view(memory.avail.ring@),
                memory.avail.idx@,
                used_view(memory.used),
                index as u32,
                size,
            ).table);
        }
        res
    }

    /// Describes `buf` in the first free descriptor, as continued, and moves the
    /// free list on. Returns the descriptor.
    fn take_free(&mut self, buf: Buffer, write: bool) -> (res: u16)
        requires
            old(self)@.free_head < old(self)@.table.len(),
        ensures
            res == old(self)@.free_head,
            final(self)@ == (QueueModel {
                table: old(self)@.table.update(
                    res as int,
                    Descriptor {
                        paddr: buf.paddr,
                        len: buf.len as u32,
                        flags: flags_of(true, write),
                        next: old(self)@.table[res as int].next,
                    },
                ),
                free_head: old(self)@.table[res as int].next,
                ..old(self)@
            }),
    {
        proof {
            lemma_flag_bits();
        }
        let at = self.free_desc_head;
        let flags = if write {
            DescriptorFlags::from_bits(FLAG_NEXT | FLAG_WRITE)
        } else {
            DescriptorFlags::from_bits(FLAG_NEXT)
        };
        self.descriptor_table[at as usize].set_buf(buf);
        self.descriptor_table[at as usize].set_flags(flags);
        self.free_desc_head = self.descriptor_table[at as usize].next();
        proof {
            assert(self@.table =~= old(self)@.table.update(
                at as int,
                Descriptor {
                    paddr: buf.paddr,
                    len: buf.len as u32,
                    flags: flags_of(true, write),
                    next: old(self)@.table[at as int].next,
                },
            ));
            assert(self@.avail_ring =~= old(self)@.avail_ring);
        }
        at
    }

    /// Offers a request to the device: the buffers that it is to read, and those
    /// that it is to write, as one chain. Returns the chain's first descriptor,
    /// by which the device names the chain when it gives it back.
    ///
    /// A request without buffers is refused with `InvalidParameter`, one with
    /// more buffers than there are free descriptors with `Overflow`; the queue is
    /// then left as it was.
    pub fn add_buf(&mut self, inputs: &[Buffer], outputs: &[Buffer]) -> (res: Result<
        u16,
        VirtIOError,
    >)
        requires
            old(self).inv(),
            inputs@.len() + outputs@.len() > 0 && has_room(
                old(self)@,
                (inputs@.len() + outputs@.len()) as int,
            ) ==> addable(old(self)@, inputs@.len() + outputs@.len()),
        ensures
            final(self).inv(),
            ({
                let n = inputs@.len() + outputs@.len();
                if n == 0 {
                    res == Err::<u16, VirtIOError>(VirtIOError::InvalidParameter) && final(self)@
                        == old(self)@
                } else if !has_room(old(self)@, n as int) {
                    res == Err::<u16, VirtIOError>(VirtIOError::Overflow) && final(self)@ == old(
                        self,
                    )@
                } else {
                    res == Ok::<u16, VirtIOError>(old(self)@.free_head) && final(self)@
                        == after_add(old(self)@, inputs@, outputs@)
                }
            }),
    {
        if inputs.len() == 0 && outputs.len() == 0 {
            return Err(VirtIOError::InvalidParameter);
        }
        let free = self.free_desc_num();
        if inputs.len() > free || outputs.len() > free - inputs.len() {
            return Err(VirtIOError::Overflow);
        }
        let ghost q = self@;
        let ghost n = inputs@.len() + outputs@.len();
        let head = self.free_desc_head;
        let mut tail = self.free_desc_head;
        let mut i: usize = 0;
        while i < inputs.len()
            invariant
                i <= inputs@.len(),
                n == inputs@.len() + outputs@.len(),
                addable(q, n),
                self@ == (QueueModel {
                    table: laid_out(q.table, q.free_head, inputs@, outputs@, i as nat, n + 1),
                    free_head: hop(q.table, q.free_head, i as nat),
                    ..q
                }),
                i > 0 ==> tail == hop(q.table, q.free_head, (i - 1) as nat),
            decreases inputs@.len() - i,
        {
            proof {
                assert(hop(q.table, q.free_head, i as nat) < q.table.len());
                lemma_lay_out_step(q.table, q.free_head, inputs@, outputs@, i as nat, n + 1);
            }
            tail = self.take_free(inputs[i], false);
            i = i + 1;
        }
        let mut o: usize = 0;
        while o < outputs.len()
            invariant
                i == inputs@.len(),
                o <= outputs@.len(),
                n == inputs@.len() + outputs@.len(),
                addable(q, n),
                self@ == (QueueModel {
                    table: laid_out(q.table, q.free_head, inputs@, outputs@, (i + o) as nat, n + 1),
                    free_head: hop(q.table, q.free_head, (i + o) as nat),
                    ..q
                }),
                i + o > 0 ==> tail == hop(q.table, q.free_head, (i + o - 1) as nat),
            decreases outputs@.len() - o,
        {
            proof {
                assert(hop(q.table, q.free_head, (i + o) as nat) < q.table.len());
                lemma_lay_out_step(q.table, q.free_head, inputs@, outputs@, (i + o) as nat, n + 1);
            }
            tail = self.take_free(outputs[o], true);
            o = o + 1;
        }
        proof {
            assert(hop(q.table, q.free_head, (n - 1) as nat) < q.table.len());
            lemma_lay_out_end(q.table, q.free_head, inputs@, outputs@, n);
            lemma_flag_bits();
            lemma_mask_is_mod(q.avail_index, q.queue_size);
            assert(self@.table.len() == q.table.len());
        }
        // The last descriptor ends the chain.
        let mut flags = self.descriptor_table[tail as usize].flags();
        flags.remove(FLAG_NEXT);
        self.descriptor_table[tail as usize].set_flags(flags);
        self.used_num = self.used_num + (inputs.len() + outputs.len()) as u16;

        let avail_slot = self.avail_index & (self.queue_size - 1);
        self.avail_ring.ring[avail_slot as usize].write(head);

        // The device may look at the entry as soon as the index shows it.
        fence_seq_cst();

        self.avail_index = self.avail_index.wrapping_add(1);
        self.avail_ring.idx.write(self.avail_index);
        proof {
            self.lemma_state_is_in_the_cells();
            assert(self@.table =~= after_add(q, inputs@, outputs@).table);
            assert(self@.avail_ring =~= after_add(q, inputs@, outputs@).avail_ring);
        }
        Ok(head)
    }

    /// Descriptors in the table.
    pub fn size(&self) -> (res: u16)
        ensures
            res == self@.queue_size,
    {
        self.queue_size
    }

    /// Free descriptors.
    pub fn free_desc_num(&self) -> (res: usize)
        requires
            self.inv(),
        ensures
            res == self@.queue_size - self@.used_num,
    {
        (self.queue_size - self.used_num) as usize
    }

    /// Whether the free list leads to `n` descriptors, so that a request of `n`
    /// buffers can be added.
    pub fn accepts(&self, n: usize) -> (res: bool)
        requires
            self.inv(),
        ensures
            res == (has_room(self@, n as int) && addable(self@, n as nat)),
    {
        proof {
            lemma_mask_is_mod(self@.avail_index, self@.queue_size);
        }
        if n > self.free_desc_num() {
            return false;
        }
        let avail_slot = self.avail_index & (self.queue_size - 1);
        if avail_slot as usize >= self.avail_ring.ring.len() {
            return false;
        }
        let mut at = self.free_desc_head;
        let mut k: usize = 0;
        while k < n
            invariant
                k <= n,
                self.inv(),
                at == hop(self@.table, self@.free_head, k as nat),
                forall|i: nat|
                    i < k ==> (#[trigger] hop(self@.table, self@.free_head, i)) < self@.table.len(),
            decreases n - k,
        {
            if at as usize >= self.descriptor_table.len() {
                assert(hop(self@.table, self@.free_head, k as nat) >= self@.table.len());
                return false;
            }
            at = self.descriptor_table[at as usize].next();
            k = k + 1;
        }
        true
    }

    /// Whether the chain from `head` ends, within the table and within as many
    /// descriptors as are in use, so that it can be taken back.
    pub fn can_recycle(&self, head: u16) -> (res: bool)
        ensures
            res == recyclable(self@, head),
    {
        let mut at = head;
        let mut left = self.used_num;
        while left > 0
            invariant
                left <= self@.used_num,
                recyclable(self@, head) == (chain_len(self@.table, at, left as nat) is Some),
            decreases left,
        {
            if at as usize >= self.descriptor_table.len() {
                return false;
            }
            if !self.descriptor_table[at as usize].flags().contains(FLAG_NEXT) {
                return true;
            }
            at = self.descriptor_table[at as usize].next();
            left = left - 1;
        }
        false
    }

    /// Puts the chain from `head` in front of the free list.
    fn recycle_descriptors(&mut self, head: u16)
        requires
            old(self).inv(),
            recyclable(old(self)@, head),
        ensures
            final(self).inv(),
            final(self)@ == after_recycle(old(self)@, head),
    {
        let ghost q = self@;
        let ghost m = chain_len(q.table, head, q.used_num as nat)->0;
        proof {
            lemma_chain_len_bounds(q.table, head, q.used_num as nat);
        }
        let origin_desc_head = self.free_desc_head;
        self.free_desc_head = head;
        let mut at = head;
        let ghost mut k: nat = 0;
        loop
            invariant
                q == old(self)@,
                sound(q),
                chain_len(q.table, head, q.used_num as nat) == Some(m),
                self@ == (QueueModel { free_head: head, used_num: (q.used_num - k) as u16, ..q }),
                k <= q.used_num,
                at == hop(q.table, head, k),
                chain_len(q.table, at, (q.used_num - k) as nat) == Some((m - k) as nat),
                k < m <= q.used_num,
                origin_desc_head == q.free_head,
            decreases m - k,
        {
            let flags = self.descriptor_table[at as usize].flags();
            self.used_num = self.used_num - 1;
            if flags.contains(FLAG_NEXT) {
                at = self.descriptor_table[at as usize].next();
                proof {
                    k = k + 1;
                }
            } else {
                self.descriptor_table[at as usize].set_next(origin_desc_head);
                proof {
                    assert(self@.table =~= after_recycle(q, head).table);
                    assert(self@.avail_ring =~= q.avail_ring);
                }
                return ;
            }
        }
    }

    /// Whether the used ring, with the device at position `used_idx`, holds an
    /// entry that was not taken yet.
    pub fn can_pop_at(&self, used_idx: u16) -> (res: bool)
        ensures
            res == (self@.last_used != used_idx),
    {
        self.last_used_index != used_idx
    }

    /// Whether the used ring holds an entry that was not taken yet.
    pub fn can_pop(&self) -> (res: bool)
        ensures
            can_pop_outcome(self@, res),
    {
        let used_idx = self.used_ring.idx.read();
        assert(seen_u16(self@.used.idx, used_idx));
        self.can_pop_at(used_idx)
    }

    /// Takes the next used entry, with the device at position `used_idx` and the
    /// entry saying `id` and `len`: the chain that it names goes back to the free
    /// list. Returns the chain's first descriptor and how many bytes the device
    /// wrote, or `UsedRingNotReady` if there is no entry to take.
    pub fn pop_used_at(&mut self, used_idx: u16, id: u32, len: u32) -> (res: Result<
        (u16, u32),
        VirtIOError,
    >)
        requires
            old(self).inv(),
            old(self)@.last_used != used_idx ==> recyclable(old(self)@, id as u16),
        ensures
            final(self).inv(),
            res == next_result(old(self)@, used_idx, id, len),
            final(self)@ == if old(self)@.last_used == used_idx {
                old(self)@
            } else {
                after_pop(old(self)@, id as u16)
            },
    {
        if !self.can_pop_at(used_idx) {
            return Err(VirtIOError::UsedRingNotReady);
        }
        let index = #[verifier::truncate]
        (id as u16);
        self.recycle_descriptors(index);
        self.last_used_index = self.last_used_index.wrapping_add(1);
        proof {
            assert(self@ =~= after_pop(old(self)@, id as u16));
        }
        Ok((index, len))
    }

    /// Takes the next used entry as the device shows it; see
    /// [`VirtQueue::pop_used_at`]. `None` if the device names a chain that cannot
    /// be taken back.
    pub fn pop_used(&mut self) -> (res: Option<Result<(u16, u32), VirtIOError>>)
        requires
            old(self).inv(),
        ensures
            final(self).inv(),
            pop_outcome(old(self)@, final(self)@, res),
    {
        let used_idx = self.used_ring.idx.read();
        assert(seen_u16(self@.used.idx, used_idx));
        if !self.can_pop_at(used_idx) {
            assert(device_says(self@, used_idx, 0, 0));
            return Some(Err(VirtIOError::UsedRingNotReady));
        }
        // The entry is read after the index that shows it.
        fence_seq_cst();

        proof {
            lemma_mask_is_mod(self@.last_used, self@.queue_size);
        }
        let last_used_slot = self.last_used_index & (self.queue_size - 1);
        if last_used_slot as usize >= self.used_ring.ring.len() {
            assert(device_says(self@, used_idx, 0, 0));
            return None;
        }
        let id = self.used_ring.ring[last_used_slot as usize].id.read();
        let len = self.used_ring.ring[last_used_slot as usize].len.read();
        assert(device_says(self@, used_idx, id, len));
        let index = #[verifier::truncate]
        (id as u16);
        if !self.can_recycle(index) {
            return None;
        }
        Some(self.pop_used_at(used_idx, id, len))
    }

    /// Looks at the next used entry, with the device at position `used_idx` and
    /// the entry saying `id` and `len`, and leaves it in the ring.
    pub fn next_used_at(&self, used_idx: u16, id: u32, len: u32) -> (res: Result<
        (u16, u32),
        VirtIOError,
    >)
        ensures
            res == next_result(self@, used_idx, id, len),
    {
        if !self.can_pop_at(used_idx) {
            return Err(VirtIOError::UsedRingNotReady);
        }
        let index = #[verifier::truncate]
        (id as u16);
        Ok((index, len))
    }

    /// Looks at the next used entry as the device shows it, and leaves it in the
    /// ring. `None` if the entry would lie outside the ring.
    pub fn next_used(&self) -> (res: Option<Result<(u16, u32), VirtIOError>>)
        requires
            self.inv(),
        ensures
            next_outcome(self@, res),
    {
        let used_idx = self.used_ring.idx.read();
        assert(seen_u16(self@.used.idx, used_idx));
        if !self.can_pop_at(used_idx) {
            assert(device_says(self@, used_idx, 0, 0));
            return Some(Err(VirtIOError::UsedRingNotReady));
        }
        // The entry is read after the index that shows it.
        fence_seq_cst();

        proof {
            lemma_mask_is_mod(self@.last_used, self@.queue_size);
        }
        let last_used_slot = self.last_used_index & (self.queue_size - 1);
        if last_used_slot as usize >= self.used_ring.ring.len() {
            assert(device_says(self@, used_idx, 0, 0));
            return None;
        }
        let id = self.used_ring.ring[last_used_slot as usize].id.read();
        let len = self.used_ring.ring[last_used_slot as usize].len.read();
        assert(device_says(self@, used_idx, id, len));
        Some(self.next_used_at(used_idx, id, len))
    }

    /// A copy of a descriptor.
    pub fn descriptor(&self, index: usize) -> (res: Descriptor)
        requires
            index < self@.table.len(),
        ensures
            res == self@.table[index as int],
    {
        self.descriptor_table[index].read()
    }

    /// A copy of the descriptor table.
    pub fn desc_table(&self) -> (res: Vec<Descriptor>)
        ensures
            res@ == self@.table,
    {
        let mut res: Vec<Descriptor> = Vec::new();
        let mut i: usize = 0;
        while i < self.descriptor_table.len()
            invariant
                i <= self@.table.len(),
                res@ == self@.table.take(i as int),
            decreases self@.table.len() - i,
        {
            res.push(self.descriptor_table[i].read());
            i = i + 1;
            assert(res@ =~= self@.table.take(i as int));
        }
        assert(res@ =~= self@.table);
        res
    }

    /// A copy of the entries of the available ring.
    pub fn avail_entries(&self) -> (res: Vec<u16>)
        ensures
            res@ == self@.avail_ring,
    {
        let mut res: Vec<u16> = Vec::new();
        let mut i: usize = 0;
        while i < self.avail_ring.ring.len()
            invariant
                i <= self@.avail_ring.len(),
                res@ == self@.avail_ring.take(i as int),
            decreases self@.avail_ring.len() - i,
        {
            res.push(self.avail_ring.ring[i].read());
            i = i + 1;
            assert(res@ =~= self@.avail_ring.take(i as int));
        }
        assert(res@ =~= self@.avail_ring);
        res
    }

    /// A copy of the entries of the used ring, identifier and length of each, as
    /// the device shows them.
    pub fn used_entries(&self) -> (res: Vec<(u32, u32)>)
        ensures
            res@.len() == self@.used.ring.len(),
            forall|j: int|
                0 <= j < res@.len() ==> seen_u32(
                    self@.used.ring[j].id,
                    (#[trigger] res@[j]).0,
                ) && seen_u32(self@.used.ring[j].len, res@[j].1),
    {
        let mut res: Vec<(u32, u32)> = Vec::new();
        let mut i: usize = 0;
        while i < self.used_ring.ring.len()
            invariant
                i <= self@.used.ring.len(),
                res@.len() == i,
                forall|j: int|
                    0 <= j < i ==> seen_u32(self@.used.ring[j].id, (#[trigger] res@[j]).0)
                        && seen_u32(self@.used.ring[j].len, res@[j].1),
            decreases self@.used.ring.len() - i,
        {
            let id = self.used_ring.ring[i].id.read();
            let len = self.used_ring.ring[i].len.read();
            res.push((id, len));
            i = i + 1;
        }
        res
    }
}

} // verus!
