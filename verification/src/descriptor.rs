//! Descriptors: one buffer each, linked into chains.
use crate::cell::{DriverCell16, DriverCell32, DriverCell64};
use vstd::prelude::*;

verus! {

/// A piece of memory that is handed to the device: where it starts, as the
/// device addresses memory, and how many bytes it has.
#[derive(Clone, Copy, Debug, PartialEq, Eq, Structural)]
pub struct Buffer {
    pub paddr: u64,
    pub len: usize,
}

/// The descriptor is continued by the one that its `next` names.
pub const FLAG_NEXT: u16 = 1;

/// The device writes the buffer; without the flag it reads it.
pub const FLAG_WRITE: u16 = 2;

/// The buffer holds a table of descriptors.
pub const FLAG_INDIRECT: u16 = 4;

/// The flags of a descriptor.
#[derive(Clone, Copy, Debug, PartialEq, Eq, Structural)]
pub struct DescriptorFlags {
    pub bits: u16,
}

impl DescriptorFlags {
    /// Every flag of `other` is set.
    pub open spec fn has(self, other: u16) -> bool {
        self.bits & other == other
    }

    /// Flags from their bits.
    pub fn from_bits(bits: u16) -> (res: Self)
        ensures
            res.bits == bits,
    {
        DescriptorFlags { bits }
    }

    /// Whether every flag of `other` is set.
    pub fn contains(&self, other: u16) -> (res: bool)
        ensures
            res == self.has(other),
    {
        self.bits & other == other
    }

    /// Clears the flags of `other`.
    pub fn remove(&mut self, other: u16)
        ensures
            final(self).bits == old(self).bits & !other,
    {
        self.bits = self.bits & !other;
    }
}

/// What a descriptor says.
#[derive(Clone, Copy, Debug, PartialEq, Eq, Structural)]
pub struct Descriptor {
    /// Where the buffer starts, as the device addresses memory.
    pub paddr: u64,
    /// Bytes in the buffer.
    pub len: u32,
    pub flags: DescriptorFlags,
    /// The descriptor that follows, in a chain or on the free list.
    pub next: u16,
}

/// A descriptor of the table, in the memory that the device reads.
pub struct DescriptorSlot<'a> {
    paddr: DriverCell64<'a>,
    len: DriverCell32<'a>,
    flags: DriverCell16<'a>,
    next: DriverCell16<'a>,
}

impl<'a> View for DescriptorSlot<'a> {
    type V = Descriptor;

    closed spec fn view(&self) -> Descriptor {
        Descriptor {
            paddr: self.paddr@,
            len: self.len@,
            flags: DescriptorFlags { bits: self.flags@ },
            next: self.next@,
        }
    }
}

impl<'a> DescriptorSlot<'a> {
    /// A descriptor made of its four cells, with what they hold.
    pub fn new(
        paddr: DriverCell64<'a>,
        len: DriverCell32<'a>,
        flags: DriverCell16<'a>,
        next: DriverCell16<'a>,
    ) -> (res: Self)
        ensures
            res@ == (Descriptor {
                paddr: paddr@,
                len: len@,
                flags: DescriptorFlags { bits: flags@ },
                next: next@,
            }),
    {
        DescriptorSlot { paddr, len, flags, next }
    }

    /// A copy of what the descriptor says.
    pub fn read(&self) -> (res: Descriptor)
        ensures
            res == self@,
    {
        Descriptor {
            paddr: self.paddr.read(),
            len: self.len.read(),
            flags: DescriptorFlags { bits: self.flags.read() },
            next: self.next.read(),
        }
    }

    /// The flags.
    pub(crate) fn flags(&self) -> (res: DescriptorFlags)
        ensures
            res == self@.flags,
    {
        DescriptorFlags { bits: self.flags.read() }
    }

    /// The link.
    pub(crate) fn next(&self) -> (res: u16)
        ensures
            res == self@.next,
    {
        self.next.read()
    }

    /// Describes a buffer: its address, and its length in 32 bits.
    pub(crate) fn set_buf(&mut self, buf: Buffer)
        ensures
            final(self)@ == (Descriptor { paddr: buf.paddr, len: buf.len as u32, ..old(self)@ }),
    {
        self.paddr.write(buf.paddr);
        self.len.write(
            #[verifier::truncate]
            (buf.len as u32),
        );
    }

    /// Replaces the flags.
    pub(crate) fn set_flags(&mut self, flags: DescriptorFlags)
        ensures
            final(self)@ == (Descriptor { flags, ..old(self)@ }),
    {
        self.flags.write(flags.bits);
    }

    /// Replaces the link.
    pub(crate) fn set_next(&mut self, next: u16)
        ensures
            final(self)@ == (Descriptor { next, ..old(self)@ }),
    {
        self.next.write(next);
    }
}

/// What the bits of the two flags in use say: each is read back from any of
/// their four combinations.
pub(crate) proof fn lemma_flag_bits()
    ensures
        1u16 & FLAG_NEXT == FLAG_NEXT,
        3u16 & FLAG_NEXT == FLAG_NEXT,
        0u16 & FLAG_NEXT != FLAG_NEXT,
        2u16 & FLAG_NEXT != FLAG_NEXT,
        2u16 & FLAG_WRITE == FLAG_WRITE,
        3u16 & FLAG_WRITE == FLAG_WRITE,
        0u16 & FLAG_WRITE != FLAG_WRITE,
        1u16 & FLAG_WRITE != FLAG_WRITE,
        1u16 & !FLAG_NEXT == 0,
        3u16 & !FLAG_NEXT == 2,
        FLAG_NEXT | FLAG_WRITE == 3,
{
    assert(1u16 & 1 == 1 && 3u16 & 1 == 1 && 0u16 & 1 == 0 && 2u16 & 1 == 0 && 2u16 & 2 == 2 && 3u16
        & 2 == 2 && 0u16 & 2 == 0 && 1u16 & 2 == 0 && 1u16 & !1u16 == 0 && 3u16 & !1u16 == 2 && 1u16
        | 2 == 3) by (bit_vector);
}

} // verus!
