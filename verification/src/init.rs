//! Bringing up a block device: the steps that the device's registers ask for, in
//! their order, and what to make of the answers.
use crate::block::BLOCK_QUEUE;
use crate::config::VIRT_QUEUE_SIZE;
use crate::setup::{
    setup_after, setup_awaits, setup_next, setup_result, QueueSetup, SetupAction, SetupEvent,
    SetupStage,
};
use crate::util::lemma_pow2_cases;
use crate::VirtIOError;
use vstd::prelude::*;

verus! {

/// What is to be done next to bring up a block device.
#[derive(Clone, Copy, Debug)]
pub enum InitAction {
    /// Check that the registers show a device that the driver knows.
    VerifyHeader,
    /// Begin the initialisation, with the features that
    /// [`crate::feature::negotiate_features`] accepts.
    BeginInit,
    /// A step of bringing up the queue.
    Queue(SetupAction),
    /// Finish the initialisation.
    FinishInit,
    /// Read the device's capacity.
    ReadCapacity,
    /// The device is up, and has this many sectors.
    Done(usize),
    /// Give up.
    Fail(VirtIOError),
}

/// The answer to an [`InitAction`].
#[derive(Clone, Copy, Debug)]
pub enum InitEvent {
    /// Whether the registers show a device that the driver knows.
    HeaderVerified(bool),
    /// The initialisation has begun.
    InitBegun,
    /// An answer to the setup of the queue.
    Queue(SetupEvent),
    /// The queue was made over its memory.
    QueueLinked,
    /// The initialisation is finished.
    InitFinished,
    /// The device's capacity.
    Capacity(u64),
}

/// What the initialisation waits for.
#[derive(Clone, Copy, Debug)]
pub enum InitStage {
    Verify,
    Begin,
    Queue(QueueSetup),
    Link,
    Finish,
    Capacity,
    Ended,
}

/// A block device that is being brought up.
#[derive(Clone, Copy, Debug)]
pub struct BlockInit {
    pub stage: InitStage,
}

/// The setup of the device's queue at its start.
pub open spec fn block_queue_setup() -> QueueSetup {
    QueueSetup {
        index: BLOCK_QUEUE as usize,
        size: VIRT_QUEUE_SIZE as u16,
        stage: SetupStage::Used,
    }
}

/// The initialisation waits for this event.
pub open spec fn init_awaits(stage: InitStage, event: InitEvent) -> bool {
    match event {
        InitEvent::HeaderVerified(_) => stage is Verify,
        InitEvent::InitBegun => stage is Begin,
        InitEvent::Queue(e) => stage matches InitStage::Queue(setup) && setup_awaits(
            setup.stage,
            e,
        ),
        InitEvent::QueueLinked => stage is Link,
        InitEvent::InitFinished => stage is Finish,
        InitEvent::Capacity(_) => stage is Capacity,
    }
}

/// What follows from an event.
pub open spec fn init_next(stage: InitStage, event: InitEvent) -> (InitStage, InitAction) {
    match event {
        InitEvent::HeaderVerified(known) => if known {
            (InitStage::Begin, InitAction::BeginInit)
        } else {
            (InitStage::Ended, InitAction::Fail(VirtIOError::HeaderVerifyError))
        },
        InitEvent::InitBegun => (
            InitStage::Queue(block_queue_setup()),
            InitAction::Queue(SetupAction::QueryUsed(BLOCK_QUEUE)),
        ),
        InitEvent::Queue(e) => {
            let setup = stage->Queue_0;
            match setup_next(setup, e).1 {
                SetupAction::Fail(error) => (InitStage::Ended, InitAction::Fail(error)),
                SetupAction::Link { index, size } => (
                    InitStage::Link,
                    InitAction::Queue(SetupAction::Link { index, size }),
                ),
                action => (InitStage::Queue(setup_after(setup, e)), InitAction::Queue(action)),
            }
        },
        InitEvent::QueueLinked => (InitStage::Finish, InitAction::FinishInit),
        InitEvent::InitFinished => (InitStage::Capacity, InitAction::ReadCapacity),
        InitEvent::Capacity(sectors) => (InitStage::Ended, InitAction::Done(sectors as usize)),
    }
}

impl BlockInit {
    /// The setup of the queue is in order, and is that of a block device's queue.
    pub open spec fn inv(self) -> bool {
        self.stage matches InitStage::Queue(setup) ==> {
            &&& setup.inv()
            &&& setup.index == BLOCK_QUEUE
            &&& setup.size == VIRT_QUEUE_SIZE
        }
    }

    /// Starts to bring up a block device.
    pub fn start() -> (res: (Self, InitAction))
        ensures
            res.0.inv(),
            res.0.stage == InitStage::Verify,
            res.1 == InitAction::VerifyHeader,
    {
        (BlockInit { stage: InitStage::Verify }, InitAction::VerifyHeader)
    }

    /// Takes an answer and says what to do next. The queue that is made in the end is
    /// the one that [`crate::block::link_block_queue`] makes.
    pub fn step(&mut self, event: InitEvent) -> (res: InitAction)
        requires
            old(self).inv(),
            init_awaits(old(self).stage, event),
        ensures
            final(self).inv(),
            final(self).stage == init_next(old(self).stage, event).0,
            res == init_next(old(self).stage, event).1,
            res matches InitAction::Queue(SetupAction::Link { index, size }) ==> index
                == BLOCK_QUEUE && size == VIRT_QUEUE_SIZE,
    {
        match event {
            InitEvent::HeaderVerified(known) => {
                if known {
                    self.stage = InitStage::Begin;
                    InitAction::BeginInit
                } else {
                    self.stage = InitStage::Ended;
                    InitAction::Fail(VirtIOError::HeaderVerifyError)
                }
            },
            InitEvent::InitBegun => {
                let (setup, action) = QueueSetup::start(
                    BLOCK_QUEUE as usize,
                    VIRT_QUEUE_SIZE as u16,
                );
                self.stage = InitStage::Queue(setup);
                InitAction::Queue(action)
            },
            InitEvent::Queue(e) => {
                match self.stage {
                    InitStage::Queue(setup) => {
                        let mut setup = setup;
                        match setup.step(e) {
                            SetupAction::Fail(error) => {
                                self.stage = InitStage::Ended;
                                InitAction::Fail(error)
                            },
                            SetupAction::Link { index, size } => {
                                self.stage = InitStage::Link;
                                InitAction::Queue(SetupAction::Link { index, size })
                            },
                            action => {
                                self.stage = InitStage::Queue(setup);
                                InitAction::Queue(action)
                            },
                        }
                    },
                    _ => {
                        // No other stage waits for the queue.
                        assert(false);
                        InitAction::Fail(VirtIOError::InvalidParameter)
                    },
                }
            },
            InitEvent::QueueLinked => {
                self.stage = InitStage::Finish;
                InitAction::FinishInit
            },
            InitEvent::InitFinished => {
                self.stage = InitStage::Capacity;
                InitAction::ReadCapacity
            },
            InitEvent::Capacity(sectors) => {
                self.stage = InitStage::Ended;
                InitAction::Done(
                    #[verifier::truncate]
                    (sectors as usize),
                )
            },
        }
    }
}

/// What bringing up a block device comes to, given the answers that it would get:
/// the error that it ends with, or the device's capacity.
pub open spec fn init_result(
    known: bool,
    used: bool,
    max: u32,
    memory: Result<usize, VirtIOError>,
    sectors: u64,
) -> Result<usize, VirtIOError> {
    if !known {
        Err(VirtIOError::HeaderVerifyError)
    } else {
        match setup_result(BLOCK_QUEUE as usize, VIRT_QUEUE_SIZE as u16, used, max, memory) {
            Err(e) => Err(e),
            Ok(_) => Ok(sectors as usize),
        }
    }
}

/// The answers that bringing up a block device may ask for, in the order in which
/// it asks.
pub open spec fn init_answers(
    known: bool,
    used: bool,
    max: u32,
    memory: Result<usize, VirtIOError>,
    sectors: u64,
) -> Seq<InitEvent> {
    seq![
        InitEvent::HeaderVerified(known),
        InitEvent::InitBegun,
        InitEvent::Queue(SetupEvent::Used(used)),
        InitEvent::Queue(SetupEvent::MaxSize(max)),
        InitEvent::Queue(SetupEvent::Allocated(memory)),
        InitEvent::Queue(SetupEvent::Programmed),
        InitEvent::QueueLinked,
        InitEvent::InitFinished,
        InitEvent::Capacity(sectors),
    ]
}

/// The action that answering from a stage ends with: the answers are given one by
/// one as long as they are waited for.
pub open spec fn init_run(
    stage: InitStage,
    action: InitAction,
    answers: Seq<InitEvent>,
) -> InitAction
    decreases answers.len(),
{
    if answers.len() == 0 || !init_awaits(stage, answers[0]) {
        action
    } else {
        let next = init_next(stage, answers[0]);
        init_run(next.0, next.1, answers.skip(1))
    }
}

/// Bringing up a block device ends as [`init_result`] says, whatever the answers:
/// with the first error, and nothing asked of the device after it, or with the
/// device up once every step was taken.
pub proof fn init_comes_to_result(
    known: bool,
    used: bool,
    max: u32,
    memory: Result<usize, VirtIOError>,
    sectors: u64,
)
    ensures
        init_run(
            InitStage::Verify,
            InitAction::VerifyHeader,
            init_answers(known, used, max, memory, sectors),
        ) == match init_result(known, used, max, memory, sectors) {
            Err(e) => InitAction::Fail(e),
            Ok(capacity) => InitAction::Done(capacity),
        },
{
    lemma_pow2_cases(VIRT_QUEUE_SIZE as u16);
    let a0 = init_answers(known, used, max, memory, sectors);
    let r1 = init_next(InitStage::Verify, a0[0]);
    assert(init_run(InitStage::Verify, InitAction::VerifyHeader, a0) == init_run(
        r1.0,
        r1.1,
        a0.skip(1),
    ));
    if known {
        lemma_init_from_begin(a0, used, max, memory, sectors);
    } else {
        assert(a0.skip(1)[0] == a0[1]);
    }
}

/// Giving the answers from the `k`th on.
spec fn run_from(r: (InitStage, InitAction), answers: Seq<InitEvent>, k: int) -> InitAction {
    init_run(r.0, r.1, answers.skip(k))
}

/// Giving one answer more.
proof fn lemma_run_one(r: (InitStage, InitAction), answers: Seq<InitEvent>, k: int)
    requires
        0 <= k < answers.len(),
    ensures
        run_from(r, answers, k) == if init_awaits(r.0, answers[k]) {
            run_from(init_next(r.0, answers[k]), answers, k + 1)
        } else {
            r.1
        },
{
    assert(answers.skip(k)[0] == answers[k]);
    assert(answers.skip(k).skip(1) =~= answers.skip(k + 1));
}

/// Once the registers are known, the rest of the answers lead to the result.
proof fn lemma_init_from_begin(
    answers: Seq<InitEvent>,
    used: bool,
    max: u32,
    memory: Result<usize, VirtIOError>,
    sectors: u64,
)
    requires
        answers == init_answers(true, used, max, memory, sectors),
    ensures
        run_from((InitStage::Begin, InitAction::BeginInit), answers, 1) == match init_result(
            true,
            used,
            max,
            memory,
            sectors,
        ) {
            Err(e) => InitAction::Fail(e),
            Ok(capacity) => InitAction::Done(capacity),
        },
{
    lemma_pow2_cases(VIRT_QUEUE_SIZE as u16);
    let r1 = (InitStage::Begin, InitAction::BeginInit);
    lemma_run_one(r1, answers, 1);
    let r2 = init_next(r1.0, answers[1]);
    lemma_run_one(r2, answers, 2);
    let r3 = init_next(r2.0, answers[2]);
    lemma_run_one(r3, answers, 3);
    if !used {
        let r4 = init_next(r3.0, answers[3]);
        lemma_run_one(r4, answers, 4);
        if max >= VIRT_QUEUE_SIZE as u16 {
            let r5 = init_next(r4.0, answers[4]);
            lemma_run_one(r5, answers, 5);
            if memory is Ok {
                let r6 = init_next(r5.0, answers[5]);
                lemma_run_one(r6, answers, 6);
                let r7 = init_next(r6.0, answers[6]);
                lemma_run_one(r7, answers, 7);
                let r8 = init_next(r7.0, answers[7]);
                lemma_run_one(r8, answers, 8);
                assert(run_from(init_next(r8.0, answers[8]), answers, 9) == init_next(
                    r8.0,
                    answers[8],
                ).1);
            }
        }
    }
}

} // verus!
