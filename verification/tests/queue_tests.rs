use async_virtio_driver::cell::{
    DeviceCell16, DeviceCell32, DriverCell16, DriverCell32, DriverCell64,
};
use async_virtio_driver::config::VIRT_QUEUE_SIZE;
use async_virtio_driver::descriptor::{
    Buffer, Descriptor, DescriptorFlags, DescriptorSlot, FLAG_INDIRECT, FLAG_NEXT, FLAG_WRITE,
};
use async_virtio_driver::queue::{AvailableRing, QueueMemory, UsedElement, UsedRing, VirtQueue};
use async_virtio_driver::VirtIOError;
use volatile::Volatile;

fn cell16(value: u16) -> &'static mut Volatile<u16> {
    Box::leak(Box::new(Volatile::new(value)))
}

fn cell32(value: u32) -> &'static mut Volatile<u32> {
    Box::leak(Box::new(Volatile::new(value)))
}

fn cell64(value: u64) -> &'static mut Volatile<u64> {
    Box::leak(Box::new(Volatile::new(value)))
}

/// Memory of a queue in which the device has already answered.
fn memory(size: u16, used_idx: u16, answers: &[(u32, u32)]) -> QueueMemory<'static> {
    let mut descriptors = Vec::new();
    for _ in 0..size {
        descriptors.push(DescriptorSlot::new(
            DriverCell64::new(cell64(0xdead)),
            DriverCell32::new(cell32(0xbeef)),
            DriverCell16::new(cell16(0)),
            DriverCell16::new(cell16(0x7777)),
        ));
    }
    let mut ring = Vec::new();
    for _ in 0..VIRT_QUEUE_SIZE {
        ring.push(DriverCell16::new(cell16(0xffff)));
    }
    let mut used = Vec::new();
    for i in 0..VIRT_QUEUE_SIZE {
        let (id, len) = if i < answers.len() { answers[i] } else { (0, 0) };
        used.push(UsedElement {
            id: DeviceCell32::new(cell32(id)),
            len: DeviceCell32::new(cell32(len)),
        });
    }
    QueueMemory {
        descriptors,
        avail: AvailableRing { idx: DriverCell16::new(cell16(0)), ring },
        used: UsedRing { idx: DeviceCell16::new(cell16(used_idx)), ring: used },
    }
}

fn queue(size: u16, used_idx: u16, answers: &[(u32, u32)]) -> VirtQueue<'static> {
    VirtQueue::new(memory(size, used_idx, answers), 0, size)
}

fn buf(paddr: u64, len: usize) -> Buffer {
    Buffer { paddr, len }
}

fn desc(paddr: u64, len: u32, bits: u16, next: u16) -> Descriptor {
    Descriptor { paddr, len, flags: DescriptorFlags { bits }, next }
}

#[test]
fn fresh_queue_links_every_descriptor() {
    let q = queue(8, 0, &[]);
    assert_eq!(q.size(), 8);
    assert_eq!(q.free_desc_num(), 8);
    let table = q.desc_table();
    assert_eq!(table.len(), 8);
    for i in 0..7 {
        assert_eq!(table[i], desc(0xdead, 0xbeef, 0, i as u16 + 1));
    }
    assert_eq!(table[7].next, 0x7777);
    assert_eq!(q.avail_entries(), vec![0xffff; VIRT_QUEUE_SIZE]);
}

#[test]
fn queue_of_one_descriptor() {
    let mut q = queue(1, 1, &[(0, 5)]);
    assert_eq!(q.add_buf(&[buf(1, 1)], &[]), Ok(0));
    assert_eq!(q.descriptor(0), desc(1, 1, 0, 0x7777));
    assert_eq!(q.add_buf(&[buf(1, 1)], &[]), Err(VirtIOError::Overflow));
    assert_eq!(q.pop_used(), Some(Ok((0, 5))));
    assert_eq!(q.free_desc_num(), 1);
    assert_eq!(q.add_buf(&[], &[buf(2, 3)]), Ok(0));
    assert_eq!(q.descriptor(0), desc(2, 3, 2, 0x7777));
}

#[test]
fn request_without_buffers_is_invalid() {
    let mut q = queue(4, 0, &[]);
    assert_eq!(q.add_buf(&[], &[]), Err(VirtIOError::InvalidParameter));
    assert_eq!(q.free_desc_num(), 4);
    assert_eq!(q.avail_entries()[0], 0xffff);
}

#[test]
fn request_beyond_free_descriptors_overflows() {
    let mut q = queue(4, 0, &[]);
    let b = buf(1, 1);
    assert_eq!(q.add_buf(&[b, b, b], &[b, b]), Err(VirtIOError::Overflow));
    assert_eq!(q.add_buf(&[b, b], &[b]), Ok(0));
    assert_eq!(q.free_desc_num(), 1);
    assert_eq!(q.add_buf(&[b], &[b]), Err(VirtIOError::Overflow));
    assert_eq!(q.free_desc_num(), 1);
    assert_eq!(q.add_buf(&[], &[b]), Ok(3));
    assert_eq!(q.free_desc_num(), 0);
    assert_eq!(q.add_buf(&[b], &[]), Err(VirtIOError::Overflow));
    assert_eq!(q.avail_entries()[..3], [0, 3, 0xffff]);
}

#[test]
fn request_is_described_in_order() {
    let mut q = queue(8, 0, &[]);
    let token = q.add_buf(&[buf(0x100, 16), buf(0x200, 512)], &[buf(0x300, 1), buf(0x400, 2)]);
    assert_eq!(token, Ok(0));
    assert_eq!(
        q.desc_table()[..4],
        [
            desc(0x100, 16, FLAG_NEXT, 1),
            desc(0x200, 512, FLAG_NEXT, 2),
            desc(0x300, 1, FLAG_NEXT | FLAG_WRITE, 3),
            desc(0x400, 2, FLAG_WRITE, 4),
        ]
    );
    assert_eq!(q.descriptor(4), desc(0xdead, 0xbeef, 0, 5));
    assert_eq!(q.avail_entries()[0], 0);
    assert_eq!(q.free_desc_num(), 4);
}

#[test]
fn length_is_kept_in_32_bits() {
    let mut q = queue(2, 0, &[]);
    assert_eq!(q.add_buf(&[buf(u64::MAX, 0x1_0000_0005)], &[]), Ok(0));
    assert_eq!(q.descriptor(0), desc(u64::MAX, 5, 0, 1));
}

#[test]
fn nothing_to_pop() {
    let mut q = queue(4, 0, &[]);
    assert!(!q.can_pop());
    assert_eq!(q.next_used(), Some(Err(VirtIOError::UsedRingNotReady)));
    assert_eq!(q.pop_used(), Some(Err(VirtIOError::UsedRingNotReady)));
}

#[test]
fn looking_leaves_the_entry() {
    let mut q = queue(4, 1, &[(0, 513)]);
    assert_eq!(q.add_buf(&[buf(1, 1)], &[buf(2, 512)]), Ok(0));
    assert!(q.can_pop());
    assert_eq!(q.next_used(), Some(Ok((0, 513))));
    assert_eq!(q.next_used(), Some(Ok((0, 513))));
    assert!(q.can_pop());
    assert_eq!(q.free_desc_num(), 2);
    assert_eq!(q.pop_used(), Some(Ok((0, 513))));
    assert!(!q.can_pop());
    assert_eq!(q.pop_used(), Some(Err(VirtIOError::UsedRingNotReady)));
    assert_eq!(q.free_desc_num(), 4);
}

#[test]
fn chains_come_back_in_any_order() {
    let mut q = queue(8, 2, &[(2, 7), (0, 9)]);
    let b = buf(1, 1);
    assert_eq!(q.add_buf(&[b, b], &[]), Ok(0));
    assert_eq!(q.add_buf(&[b], &[b, b]), Ok(2));
    assert_eq!(q.free_desc_num(), 3);
    assert_eq!(q.pop_used(), Some(Ok((2, 7))));
    assert_eq!(q.free_desc_num(), 6);
    // The chain is in front of the free list: its last descriptor leads on.
    assert_eq!(q.descriptor(4).next, 5);
    assert_eq!(q.pop_used(), Some(Ok((0, 9))));
    assert_eq!(q.free_desc_num(), 8);
    assert_eq!(q.descriptor(1).next, 2);
    // Taken again in the order of the free list: 0, 1, 2.
    assert_eq!(q.add_buf(&[b, b, b], &[]), Ok(0));
    assert_eq!(q.add_buf(&[b], &[]), Ok(3));
    assert_eq!(q.avail_entries()[..5], [0, 2, 0, 3, 0xffff]);
}

#[test]
fn popping_puts_free_list_back() {
    let mut q = queue(8, 0, &[]);
    let b = buf(1, 1);
    assert_eq!(q.add_buf(&[b], &[]), Ok(0));
    assert_eq!(q.add_buf(&[b, b], &[b]), Ok(1));
    assert_eq!(q.pop_used_at(1, 1, 4), Ok((1, 4)));
    let links: Vec<u16> = q.desc_table().iter().map(|d| d.next).collect();
    assert_eq!(links, vec![1, 2, 3, 4, 5, 6, 7, 0x7777]);
    assert_eq!(q.add_buf(&[b], &[]), Ok(1));
}

#[test]
fn popping_a_full_queue_puts_every_link_back() {
    let mut q = queue(8, 0, &[]);
    let before: Vec<u16> = q.desc_table().iter().map(|d| d.next).collect();
    let b = buf(1, 1);
    assert_eq!(q.add_buf(&[b, b, b, b, b, b, b], &[b]), Ok(0));
    assert_eq!(q.free_desc_num(), 0);
    assert_eq!(q.pop_used_at(1, 0, 4), Ok((0, 4)));
    let after: Vec<u16> = q.desc_table().iter().map(|d| d.next).collect();
    assert_eq!(after, before);
    assert_eq!(q.free_desc_num(), 8);
    assert_eq!(q.add_buf(&[b], &[]), Ok(0));
}

#[test]
fn identifier_counts_in_16_bits() {
    let mut q = queue(4, 1, &[(0x5_0000, 3)]);
    assert_eq!(q.add_buf(&[buf(1, 1)], &[]), Ok(0));
    assert_eq!(q.next_used(), Some(Ok((0, 3))));
    assert_eq!(q.pop_used(), Some(Ok((0, 3))));
}

#[test]
fn chain_outside_table_is_not_taken() {
    let mut q = queue(4, 1, &[(9, 3)]);
    assert_eq!(q.add_buf(&[buf(1, 1)], &[]), Ok(0));
    assert!(!q.can_recycle(9));
    assert_eq!(q.next_used(), Some(Ok((9, 3))));
    assert_eq!(q.pop_used(), None);
    assert_eq!(q.free_desc_num(), 3);
    assert!(q.can_pop());
}

#[test]
fn chain_is_not_taken_when_nothing_is_in_use() {
    let mut q = queue(4, 1, &[(0, 3)]);
    assert!(!q.can_recycle(0));
    assert_eq!(q.pop_used(), None);
    assert_eq!(q.free_desc_num(), 4);
}

#[test]
fn chain_longer_than_what_is_in_use_is_not_taken() {
    let mut q = queue(4, 0, &[]);
    let b = buf(1, 1);
    assert_eq!(q.add_buf(&[b, b, b], &[]), Ok(0));
    // The tail of the chain is a chain too; with it gone the whole is too long.
    assert!(q.can_recycle(1));
    assert_eq!(q.pop_used_at(1, 1, 0), Ok((1, 0)));
    assert_eq!(q.free_desc_num(), 3);
    assert!(!q.can_recycle(0));
}

#[test]
fn accepts_counts_free_descriptors() {
    let mut q = queue(4, 0, &[]);
    assert!(q.accepts(0) && q.accepts(4) && !q.accepts(5));
    assert_eq!(q.add_buf(&[buf(1, 1)], &[]), Ok(0));
    assert!(q.accepts(3) && !q.accepts(4));
    assert!(!q.accepts(usize::MAX));
}

#[test]
fn queue_longer_than_rings_stops_at_their_end() {
    let mut q = queue(32, 0, &[]);
    let b = buf(1, 1);
    for i in 0..16 {
        assert!(q.accepts(1));
        assert_eq!(q.add_buf(&[b], &[]), Ok(i));
    }
    assert_eq!(q.free_desc_num(), 16);
    assert!(!q.accepts(1));
}

#[test]
fn entry_beyond_used_ring_is_not_read() {
    let mut q = queue(32, 17, &[]);
    let b = buf(1, 1);
    for i in 0..16u16 {
        assert_eq!(q.add_buf(&[b], &[]), Ok(0));
        assert_eq!(q.pop_used_at(i + 1, 0, 0), Ok((0, 0)));
    }
    assert!(q.can_pop());
    assert_eq!(q.next_used(), None);
    assert_eq!(q.pop_used(), None);
}

#[test]
fn positions_wrap_and_rings_go_round() {
    let mut q = queue(4, 0, &[]);
    let b = buf(1, 1);
    for round in 0..70_000u32 {
        let head = q.add_buf(&[b], &[b]);
        assert_eq!(head, Ok(0));
        let shown = (round + 1) as u16;
        assert!(q.can_pop_at(shown));
        assert_eq!(q.next_used_at(shown, 0, round), Ok((0, round)));
        assert_eq!(q.pop_used_at(shown, 0, round), Ok((0, round)));
        assert!(!q.can_pop_at(shown));
        assert_eq!(q.pop_used_at(shown, 0, 0), Err(VirtIOError::UsedRingNotReady));
    }
    assert_eq!(q.avail_entries()[..5], [0, 0, 0, 0, 0xffff]);
    assert_eq!(q.free_desc_num(), 4);
}

#[test]
fn entries_left_are_taken_one_by_one() {
    let mut q = queue(8, 3, &[(0, 1), (1, 2), (2, 3)]);
    let b = buf(1, 1);
    for i in 0..3 {
        assert_eq!(q.add_buf(&[b], &[]), Ok(i));
    }
    for i in 0..3u16 {
        assert_eq!(q.pop_used(), Some(Ok((i, i as u32 + 1))));
    }
    assert_eq!(q.pop_used(), Some(Err(VirtIOError::UsedRingNotReady)));
    assert_eq!(q.free_desc_num(), 8);
}

#[test]
fn used_entries_are_what_the_device_wrote() {
    let q = queue(4, 2, &[(3, 30), (1, 10)]);
    let entries = q.used_entries();
    assert_eq!(entries.len(), VIRT_QUEUE_SIZE);
    assert_eq!(entries[..3], [(3, 30), (1, 10), (0, 0)]);
}

#[test]
fn descriptor_flags() {
    let mut f = DescriptorFlags::from_bits(FLAG_NEXT | FLAG_INDIRECT);
    assert!(f.contains(FLAG_NEXT));
    assert!(!f.contains(FLAG_NEXT | FLAG_WRITE));
    assert!(f.contains(0));
    f.remove(FLAG_NEXT | FLAG_WRITE);
    assert_eq!(f.bits, FLAG_INDIRECT);
}
