//! What bringing up a queue and a block device promises, told by the questions,
//! the answers and the numbers that go over to the device.
use crate::feature::{negotiate_features, BlockFeature};
use crate::init::{BlockInit, InitAction, InitEvent, InitStage};
use crate::layout::VirtQueueMemLayout;
use crate::queue_promises::lemma_low_32;
use crate::setup::{QueueSetup, SetupAction, SetupEvent, SetupStage};
use crate::util::{align_up_page, is_power_of_two, lemma_pow2_cases};
use crate::VirtIOError;
use vstd::prelude::*;

verus! {

/// Rounding up to pages gives whole pages of 4096 bytes, as few as hold the size.
pub proof fn rounding_gives_fewest_whole_pages(size: usize, res: usize)
    requires
        call_ensures(align_up_page, (size,), res),
    ensures
        res % 4096 == 0,
        size <= res < size + 4096,
{
}

/// Doubling a number keeps whether it is a power of two.
pub proof fn powers_of_two_come_by_doubling(n: u16, twice: u16, res: bool, res_twice: bool)
    requires
        call_ensures(is_power_of_two, (n,), res),
        call_ensures(is_power_of_two, (twice,), res_twice),
        twice == 2 * n,
    ensures
        res == res_twice,
{
    lemma_pow2_cases(n);
    lemma_pow2_cases(twice);
}

/// Of the odd numbers and zero, only one is a power of two.
pub proof fn one_is_the_only_odd_power_of_two(n: u16, res: bool)
    requires
        call_ensures(is_power_of_two, (n,), res),
        n == 0 || n % 2 == 1,
    ensures
        res <==> n == 1,
{
    lemma_pow2_cases(n);
}

/// The memory of a queue of `n` descriptors: descriptors of 16 bytes, then the
/// available ring of `2 * n + 6` bytes right behind them, then, on the next page,
/// the used ring of `8 * n + 6` bytes; whole pages in all, none to spare.
pub proof fn layout_has_room_for_each_part(n: u16, res: VirtQueueMemLayout, pages: usize)
    requires
        call_ensures(VirtQueueMemLayout::new, (n,), res),
        call_ensures(VirtQueueMemLayout::pages, (&res,), pages),
    ensures
        res.avail_ring_offset == 16 * n,
        res.used_ring_offset % 4096 == 0,
        res.avail_ring_offset + 2 * n + 6 <= res.used_ring_offset,
        res.used_ring_offset < res.avail_ring_offset + 2 * n + 6 + 4096,
        res.mem_size % 4096 == 0,
        res.used_ring_offset + 8 * n + 6 <= res.mem_size,
        res.mem_size < res.used_ring_offset + 8 * n + 6 + 4096,
        pages * 4096 == res.mem_size,
{
}

/// No feature is accepted that was not offered; in fact none is. Features are
/// told apart by their bits.
pub proof fn no_feature_is_accepted(
    offered: u64,
    res: u64,
    a: BlockFeature,
    b: BlockFeature,
    both: BlockFeature,
)
    requires
        call_ensures(negotiate_features, (offered,), res),
        call_ensures(BlockFeature::intersection, (a, b), both),
    ensures
        res == 0,
        forall|i: u64|
            i < 64 ==> (#[trigger] (both.bits >> i) & 1 == 1 <==> (a.bits >> i) & 1 == 1 && (b.bits
                >> i) & 1 == 1),
{
    let (x, y, z) = (a.bits, b.bits, both.bits);
    assert forall|i: u64| i < 64 implies (#[trigger] (z >> i) & 1 == 1 <==> (x >> i) & 1 == 1 && (y
        >> i) & 1 == 1) by {
        assert((((x & y) >> i) & 1 == 1) <==> ((x >> i) & 1 == 1 && (y >> i) & 1 == 1))
            by (bit_vector);
    }
}

/// Of the bits that a device offers, those with a name are kept and the others
/// are not: bits 0 to 2, 4 to 7, 9 to 11, 13, 14, 24, 27 to 30 and 32 to 38.
pub proof fn named_features_are_kept(offered: u64, res: BlockFeature, i: u64)
    requires
        call_ensures(BlockFeature::from_bits_truncate, (offered,), res),
        i < 64,
    ensures
        (res.bits >> i) & 1 == 1 <==> (offered >> i) & 1 == 1 && (i <= 2 || 4 <= i <= 7 || 9 <= i
            <= 11 || i == 13 || i == 14 || i == 24 || 27 <= i <= 30 || 32 <= i <= 38),
{
    assert(crate::feature::ALL_FEATURES == 0x7f_7900_6ef7u64) by {
        assert((1u64 << 0) | (1u64 << 1) | (1u64 << 2) | (1u64 << 4) | (1u64 << 5) | (1u64 << 6) | (
        1u64 << 7) | (1u64 << 9) | (1u64 << 10) | (1u64 << 11) | (1u64 << 13) | (1u64 << 14) | (1u64
            << 24) | (1u64 << 27) | (1u64 << 28) | (1u64 << 29) | (1u64 << 30) | (1u64 << 32) | (1u64
            << 33) | (1u64 << 34) | (1u64 << 35) | (1u64 << 36) | (1u64 << 37) | (1u64 << 38)
            == 0x7f_7900_6ef7u64) by (bit_vector);
    }
    assert((((offered & 0x7f_7900_6ef7u64) >> i) & 1 == 1) <==> ((offered >> i) & 1 == 1 && (i <= 2
        || 4 <= i && i <= 7 || 9 <= i && i <= 11 || i == 13 || i == 14 || i == 24 || 27 <= i && i
        <= 30 || 32 <= i && i <= 38))) by (bit_vector)
        requires
            i < 64,
    ;
}

/// The setup of a queue begins by asking the device for that queue.
pub proof fn setup_begins_with_its_queue(
    index: usize,
    size: u16,
    res: (QueueSetup, SetupAction),
)
    requires
        call_ensures(QueueSetup::start, (index, size), res),
    ensures
        res.0.index == index,
        res.0.size == size,
        res.0.stage is Used,
        res.1 matches SetupAction::QueryUsed(asked) && asked as int == index as int
            % 0x1_0000_0000,
{
    lemma_low_32(index as u64);
}

/// Whatever it is told, a setup stays that of its queue.
pub proof fn setup_keeps_its_queue(setup: &mut QueueSetup, event: SetupEvent, res: SetupAction)
    requires
        call_ensures(QueueSetup::step, (setup, event), res),
    ensures
        final(setup).index == old(setup).index,
        final(setup).size == old(setup).size,
{
}

/// A queue that is in use is not set up; nor is one whose size has more bits set
/// than one, or none.
pub proof fn setup_refuses_queue_in_use(
    setup: &mut QueueSetup,
    used: bool,
    res: SetupAction,
    allowed: bool,
)
    requires
        call_ensures(QueueSetup::step, (setup, SetupEvent::Used(used)), res),
        call_ensures(is_power_of_two, (old(setup).size,), allowed),
    ensures
        used <==> res == SetupAction::Fail(VirtIOError::QueueInUsed(old(setup).index)),
        !used && !allowed <==> res == SetupAction::Fail(VirtIOError::InvalidParameter),
        !used && allowed <==> res == SetupAction::QueryMaxSize,
        final(setup).stage == if !used && allowed {
            SetupStage::MaxSize
        } else {
            SetupStage::Ended
        },
{
}

/// A queue that the device does not allow to be so long is not set up; for every
/// other the pages are asked for that its layout takes, and no others.
pub proof fn setup_asks_for_the_pages_of_its_layout(
    setup: &mut QueueSetup,
    max: u32,
    res: SetupAction,
    layout: VirtQueueMemLayout,
)
    requires
        call_ensures(QueueSetup::step, (setup, SetupEvent::MaxSize(max)), res),
        call_ensures(VirtQueueMemLayout::new, (old(setup).size,), layout),
    ensures
        max < old(setup).size ==> res == SetupAction::Fail(VirtIOError::InvalidParameter)
            && final(setup).stage is Ended,
        max >= old(setup).size ==> (res matches SetupAction::Allocate(pages) && pages * 4096
            == layout.mem_size) && final(setup).stage is Memory,
{
}

/// The device is told of the memory that was allocated: the number of its first
/// page is passed on as it is, in the 32 bits of the register, along with the
/// queue's own index and size and pages of 4096 bytes. Where there is no memory,
/// the setup ends with the allocator's error.
pub proof fn setup_passes_on_what_was_allocated(
    setup: &mut QueueSetup,
    memory: Result<usize, VirtIOError>,
    res: SetupAction,
)
    requires
        call_ensures(QueueSetup::step, (setup, SetupEvent::Allocated(memory)), res),
    ensures
        match memory {
            Ok(ppn) => {
                &&& res matches SetupAction::Program { index, size, align, pfn }
                &&& pfn as int == ppn as int % 0x1_0000_0000
                &&& ppn <= u32::MAX ==> pfn == ppn
                &&& index as int == old(setup).index as int % 0x1_0000_0000
                &&& size == old(setup).size
                &&& align == 4096
                &&& final(setup).stage is Program
            },
            Err(e) => res == SetupAction::Fail(e) && final(setup).stage is Ended,
        },
{
    lemma_low_32(old(setup).index as u64);
    if let Ok(ppn) = memory {
        lemma_low_32(ppn as u64);
    }
}

/// Two different pages below the 32nd bit are told apart by the device.
pub proof fn setup_tells_pages_apart(
    one: &mut QueueSetup,
    other: &mut QueueSetup,
    ppn_one: usize,
    ppn_other: usize,
    res_one: SetupAction,
    res_other: SetupAction,
)
    requires
        call_ensures(QueueSetup::step, (one, SetupEvent::Allocated(Ok(ppn_one))), res_one),
        call_ensures(QueueSetup::step, (other, SetupEvent::Allocated(Ok(ppn_other))), res_other),
        ppn_one <= u32::MAX,
        ppn_other <= u32::MAX,
        *old(one) == *old(other),
    ensures
        res_one == res_other <==> ppn_one == ppn_other,
{
}

/// Once the device knows of the queue, the queue is made: with the index and the
/// size that it was set up with.
pub proof fn setup_links_its_queue(setup: &mut QueueSetup, res: SetupAction)
    requires
        call_ensures(QueueSetup::step, (setup, SetupEvent::Programmed), res),
    ensures
        res matches SetupAction::Link { index, size } && index == old(setup).index && size == old(
            setup,
        ).size,
        final(setup).stage is Ended,
{
}

/// A block device is verified before anything else is done with it; one that is
/// not known is given up, and nothing is asked of it.
pub proof fn unknown_device_is_left_alone(
    begun: (BlockInit, InitAction),
    init: &mut BlockInit,
    known: bool,
    res: InitAction,
)
    requires
        call_ensures(BlockInit::start, (), begun),
        call_ensures(BlockInit::step, (init, InitEvent::HeaderVerified(known)), res),
    ensures
        begun.0.stage is Verify,
        begun.1 is VerifyHeader,
        known ==> res is BeginInit && final(init).stage is Begin,
        !known ==> res == InitAction::Fail(VirtIOError::HeaderVerifyError)
            && final(init).stage is Ended,
{
}

/// The queue of a block device is the first one, of sixteen descriptors.
pub proof fn device_begins_with_its_queue(init: &mut BlockInit, res: InitAction)
    requires
        call_ensures(BlockInit::step, (init, InitEvent::InitBegun), res),
    ensures
        res == InitAction::Queue(SetupAction::QueryUsed(0)),
        final(init).stage matches InitStage::Queue(setup) && setup.index == 0 && setup.size == 16
            && setup.stage is Used,
{
}

/// While the queue of a device is set up, the device's steps are the queue's: an
/// error of the setup ends the initialisation with that error, the end of the
/// setup leads on to the queue, everything else is passed on.
pub proof fn device_follows_its_queues_setup(
    init: &mut BlockInit,
    setup: &mut QueueSetup,
    event: SetupEvent,
    res: InitAction,
    step: SetupAction,
)
    requires
        old(init).stage == InitStage::Queue(*old(setup)),
        call_ensures(BlockInit::step, (init, InitEvent::Queue(event)), res),
        call_ensures(QueueSetup::step, (setup, event), step),
    ensures
        match step {
            SetupAction::Fail(e) => res == InitAction::Fail(e) && final(init).stage is Ended,
            SetupAction::Link { .. } => res == InitAction::Queue(step) && final(init).stage is Link,
            _ => res == InitAction::Queue(step) && final(init).stage == InitStage::Queue(
                *final(setup),
            ),
        },
{
}

/// Once the queue is made, the initialisation is finished, then the capacity is
/// read, and the device is up with that many sectors.
pub proof fn device_is_up_with_its_capacity(
    linked: &mut BlockInit,
    finished: &mut BlockInit,
    read: &mut BlockInit,
    sectors: u64,
    res: (InitAction, InitAction, InitAction),
)
    requires
        call_ensures(BlockInit::step, (linked, InitEvent::QueueLinked), res.0),
        call_ensures(BlockInit::step, (finished, InitEvent::InitFinished), res.1),
        call_ensures(BlockInit::step, (read, InitEvent::Capacity(sectors)), res.2),
    ensures
        res.0 is FinishInit && final(linked).stage is Finish,
        res.1 is ReadCapacity && final(finished).stage is Capacity,
        res.2 matches InitAction::Done(capacity) && (sectors <= usize::MAX ==> capacity
            == sectors) && capacity as int == sectors as int % (usize::MAX + 1),
        final(read).stage is Ended,
{
    if sectors <= usize::MAX {
        vstd::arithmetic::div_mod::lemma_small_mod(sectors as nat, (usize::MAX + 1) as nat);
    } else {
        assert(usize::MAX == 0xffff_ffff);
        lemma_low_32(sectors);
        assert(sectors as usize == sectors as u32);
    }
}

/// Every answer is waited for at the stage that asked for it, and at no other.
pub proof fn answers_are_taken_when_asked_for(
    setup: &mut QueueSetup,
    used: bool,
    max: u32,
    memory: Result<usize, VirtIOError>,
)
    requires
        call_ensures(is_power_of_two, (old(setup).size,), true),
    ensures
        old(setup).stage is Used ==> call_requires(
            QueueSetup::step,
            (setup, SetupEvent::Used(used)),
        ),
        old(setup).stage is MaxSize ==> call_requires(
            QueueSetup::step,
            (setup, SetupEvent::MaxSize(max)),
        ),
        old(setup).stage is Memory ==> call_requires(
            QueueSetup::step,
            (setup, SetupEvent::Allocated(memory)),
        ),
        old(setup).stage is Program ==> call_requires(
            QueueSetup::step,
            (setup, SetupEvent::Programmed),
        ),
{
}

} // verus!
