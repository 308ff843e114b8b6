//! Sizes that the driver is built with.
use vstd::prelude::*;

verus! {

/// Bytes in a page of memory.
pub const PAGE_SIZE: usize = 4096;

/// Entries in the available ring and in the used ring, and the length of the
/// block device's queue.
pub const VIRT_QUEUE_SIZE: usize = 16;

/// Bytes in a block.
pub const BLOCK_SIZE: usize = 512;

/// Bytes that a descriptor takes in memory: an address of eight bytes, a length
/// of four, the flags and the link of two each.
pub const DESCRIPTOR_SIZE: usize = 16;

/// Bytes that an entry of the used ring takes: an identifier and a length of
/// four bytes each.
pub const USED_ELEMENT_SIZE: usize = 8;

/// Bytes in a ring's 16-bit fields.
pub const RING_FIELD_SIZE: usize = 2;

} // verus!
