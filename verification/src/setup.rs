//! Bringing up a queue: what to ask of the device's registers and of the memory,
//! in which order, and what to make of the answers.
use crate::config::PAGE_SIZE;
use crate::layout::{layout_of, VirtQueueMemLayout};
use crate::util::{is_pow2, is_power_of_two};
use crate::VirtIOError;
use vstd::prelude::*;

verus! {

/// What is to be done next to bring up a queue.
#[derive(Clone, Copy, Debug, PartialEq, Eq, Structural)]
pub enum SetupAction {
    /// Ask the device whether the queue of this index is in use.
    QueryUsed(u32),
    /// Ask the device how many descriptors the queue may have.
    QueryMaxSize,
    /// Allocate this many pages that the device can reach.
    Allocate(usize),
    /// Tell the device of the queue: its index, its size, the alignment of its
    /// parts, and the number of its first page.
    Program { index: u32, size: u32, align: u32, pfn: u32 },
    /// Make the queue of this index and size over its memory.
    Link { index: usize, size: u16 },
    /// Give up.
    Fail(VirtIOError),
}

/// The answer to a [`SetupAction`].
#[derive(Clone, Copy, Debug)]
pub enum SetupEvent {
    /// Whether the queue is in use.
    Used(bool),
    /// How many descriptors the queue may have.
    MaxSize(u32),
    /// The number of the first page allocated, or why there is none.
    Allocated(Result<usize, VirtIOError>),
    /// The device knows of the queue.
    Programmed,
}

/// What the setup of a queue waits for.
#[derive(Clone, Copy, Debug, PartialEq, Eq, Structural)]
pub enum SetupStage {
    Used,
    MaxSize,
    Memory,
    Program,
    Ended,
}

/// A queue that is being brought up.
#[derive(Clone, Copy, Debug)]
pub struct QueueSetup {
    pub index: usize,
    pub size: u16,
    pub stage: SetupStage,
}

/// Pages for a queue of `size` descriptors.
pub open spec fn queue_pages(size: u16) -> int {
    layout_of(size as int).2 / PAGE_SIZE as int
}

/// What the device is told of queue `index`, of `size` descriptors, in the memory
/// from page `ppn` on. The registers have 32 bits.
pub open spec fn program_action(index: usize, size: u16, ppn: usize) -> SetupAction {
    SetupAction::Program {
        index: index as u32,
        size: size as u32,
        align: PAGE_SIZE as u32,
        pfn: ppn as u32,
    }
}

/// The setup waits for this event.
pub open spec fn setup_awaits(stage: SetupStage, event: SetupEvent) -> bool {
    match event {
        SetupEvent::Used(_) => stage is Used,
        SetupEvent::MaxSize(_) => stage is MaxSize,
        SetupEvent::Allocated(_) => stage is Memory,
        SetupEvent::Programmed => stage is Program,
    }
}

/// What follows from an event.
pub open spec fn setup_next(s: QueueSetup, event: SetupEvent) -> (SetupStage, SetupAction) {
    match event {
        SetupEvent::Used(used) => if used {
            (SetupStage::Ended, SetupAction::Fail(VirtIOError::QueueInUsed(s.index)))
        } else if !is_pow2(s.size) {
            (SetupStage::Ended, SetupAction::Fail(VirtIOError::InvalidParameter))
        } else {
            (SetupStage::MaxSize, SetupAction::QueryMaxSize)
        },
        SetupEvent::MaxSize(max) => if max < s.size {
            (SetupStage::Ended, SetupAction::Fail(VirtIOError::InvalidParameter))
        } else {
            (SetupStage::Memory, SetupAction::Allocate(queue_pages(s.size) as usize))
        },
        SetupEvent::Allocated(Err(e)) => (SetupStage::Ended, SetupAction::Fail(e)),
        SetupEvent::Allocated(Ok(ppn)) => (
            SetupStage::Program,
            program_action(s.index, s.size, ppn),
        ),
        SetupEvent::Programmed => (
            SetupStage::Ended,
            SetupAction::Link { index: s.index, size: s.size },
        ),
    }
}

impl QueueSetup {
    /// Past the first question the size is a power of two.
    pub open spec fn inv(self) -> bool {
        !(self.stage is Used || self.stage is Ended) ==> is_pow2(self.size)
    }

    /// Starts to bring up queue `index` with `size` descriptors.
    pub fn start(index: usize, size: u16) -> (res: (Self, SetupAction))
        ensures
            res.0 == (QueueSetup { index, size, stage: SetupStage::Used }),
            res.0.inv(),
            res.1 == SetupAction::QueryUsed(index as u32),
    {
        let action = SetupAction::QueryUsed(
            #[verifier::truncate]
            (index as u32),
        );
        (QueueSetup { index, size, stage: SetupStage::Used }, action)
    }

    /// Takes an answer and says what to do next.
    pub fn step(&mut self, event: SetupEvent) -> (res: SetupAction)
        requires
            old(self).inv(),
            setup_awaits(old(self).stage, event),
        ensures
            final(self).inv(),
            *final(self) == (QueueSetup { stage: setup_next(*old(self), event).0, ..*old(self) }),
            res == setup_next(*old(self), event).1,
    {
        match event {
            SetupEvent::Used(used) => {
                if used {
                    self.stage = SetupStage::Ended;
                    SetupAction::Fail(VirtIOError::QueueInUsed(self.index))
                } else if !is_power_of_two(self.size) {
                    self.stage = SetupStage::Ended;
                    SetupAction::Fail(VirtIOError::InvalidParameter)
                } else {
                    self.stage = SetupStage::MaxSize;
                    SetupAction::QueryMaxSize
                }
            },
            SetupEvent::MaxSize(max) => {
                if max < self.size as u32 {
                    self.stage = SetupStage::Ended;
                    SetupAction::Fail(VirtIOError::InvalidParameter)
                } else {
                    self.stage = SetupStage::Memory;
                    SetupAction::Allocate(VirtQueueMemLayout::new(self.size).pages())
                }
            },
            SetupEvent::Allocated(Err(e)) => {
                self.stage = SetupStage::Ended;
                SetupAction::Fail(e)
            },
            SetupEvent::Allocated(Ok(ppn)) => {
                self.stage = SetupStage::Program;
                SetupAction::Program {
                    index: #[verifier::truncate]
                    (self.index as u32),
                    size: self.size as u32,
                    align: PAGE_SIZE as u32,
                    pfn: #[verifier::truncate]
                    (ppn as u32),
                }
            },
            SetupEvent::Programmed => {
                self.stage = SetupStage::Ended;
                SetupAction::Link { index: self.index, size: self.size }
            },
        }
    }
}

/// What the setup of queue `index` with `size` descriptors comes to, given the
/// answers that it would get: the error that it ends with, or the first page of
/// the queue.
pub open spec fn setup_result(
    index: usize,
    size: u16,
    used: bool,
    max: u32,
    memory: Result<usize, VirtIOError>,
) -> Result<usize, VirtIOError> {
    if used {
        Err(VirtIOError::QueueInUsed(index))
    } else if !is_pow2(size) || max < size {
        Err(VirtIOError::InvalidParameter)
    } else {
        memory
    }
}

/// The setup after it took `event`.
pub open spec fn setup_after(s: QueueSetup, event: SetupEvent) -> QueueSetup {
    QueueSetup { stage: setup_next(s, event).0, ..s }
}

/// The setup of a queue ends as [`setup_result`] says, whatever the answers: with
/// the first error, or with the device told of the queue's memory and the queue
/// made over it. Memory is asked for only once the device has the queue free and
/// allows its size, and then just enough pages for its layout.
pub proof fn setup_comes_to_result(
    index: usize,
    size: u16,
    used: bool,
    max: u32,
    memory: Result<usize, VirtIOError>,
)
    ensures
        ({
            let s0 = QueueSetup { index, size, stage: SetupStage::Used };
            let e1 = SetupEvent::Used(used);
            let e2 = SetupEvent::MaxSize(max);
            let e3 = SetupEvent::Allocated(memory);
            let e4 = SetupEvent::Programmed;
            let s1 = setup_after(s0, e1);
            let s2 = setup_after(s1, e2);
            let s3 = setup_after(s2, e3);
            let s4 = setup_after(s3, e4);
            let result = setup_result(index, size, used, max, memory);
            &&& setup_awaits(s0.stage, e1)
            &&& if used || !is_pow2(size) {
                setup_next(s0, e1).1 == SetupAction::Fail(result->Err_0) && result is Err
            } else {
                &&& setup_next(s0, e1).1 == SetupAction::QueryMaxSize
                &&& setup_awaits(s1.stage, e2)
                &&& if max < size {
                    setup_next(s1, e2).1 == SetupAction::Fail(result->Err_0) && result is Err
                } else {
                    &&& setup_next(s1, e2).1 matches SetupAction::Allocate(pages)
                    &&& pages * PAGE_SIZE == layout_of(size as int).2
                    &&& setup_awaits(s2.stage, e3)
                    &&& result == memory
                    &&& match memory {
                        Err(e) => setup_next(s2, e3).1 == SetupAction::Fail(e),
                        Ok(ppn) => {
                            &&& setup_next(s2, e3).1 == program_action(index, size, ppn)
                            &&& setup_awaits(s3.stage, e4)
                            &&& setup_next(s3, e4).1 == (SetupAction::Link { index, size })
                            &&& s4.stage is Ended
                        },
                    }
                }
            }
        }),
{
    crate::layout::parts_do_not_overlap(size);
    crate::util::page_aligned_is_least_multiple(
        crate::layout::table_bytes(size as int) + crate::layout::avail_bytes(size as int),
    );
    crate::util::page_aligned_is_least_multiple(crate::layout::used_bytes(size as int));
}

} // verus!
