use async_virtio_driver::config::{PAGE_SIZE, VIRT_QUEUE_SIZE};
use async_virtio_driver::feature::{
    negotiate_features, BlockFeature, ALL_FEATURES, NOTIFICATION_DATA, RO,
};
use async_virtio_driver::init::{BlockInit, InitAction, InitEvent};
use async_virtio_driver::layout::VirtQueueMemLayout;
use async_virtio_driver::setup::{QueueSetup, SetupAction, SetupEvent, SetupStage};
use async_virtio_driver::util::{align_up_page, is_power_of_two};
use async_virtio_driver::VirtIOError;

#[test]
fn pages_are_rounded_up() {
    assert_eq!(align_up_page(0), 0);
    assert_eq!(align_up_page(1), 4096);
    assert_eq!(align_up_page(4096), 4096);
    assert_eq!(align_up_page(4097), 8192);
}

#[test]
fn powers_of_two() {
    for n in 0..=u16::MAX {
        assert_eq!(is_power_of_two(n), n.is_power_of_two());
    }
}

#[test]
fn layout_of_small_queue() {
    let layout = VirtQueueMemLayout::new(16);
    assert_eq!(layout.avail_ring_offset, 256);
    assert_eq!(layout.used_ring_offset, 4096);
    assert_eq!(layout.mem_size, 8192);
    assert_eq!(layout.pages(), 2);
}

#[test]
fn layout_of_large_queues() {
    let layout = VirtQueueMemLayout::new(256);
    assert_eq!(layout.avail_ring_offset, 4096);
    assert_eq!(layout.used_ring_offset, 8192);
    assert_eq!(layout.mem_size, 12288);
    let layout = VirtQueueMemLayout::new(32768);
    assert_eq!(layout.avail_ring_offset, 524288);
    assert_eq!(layout.used_ring_offset, 593920);
    assert_eq!(layout.mem_size, 593920 + 266240);
}

#[test]
fn layout_parts_do_not_overlap() {
    for k in 0..16 {
        let n = 1usize << k;
        let layout = VirtQueueMemLayout::new(n as u16);
        assert!(16 * n <= layout.avail_ring_offset);
        assert!(layout.avail_ring_offset + 2 * (3 + n) <= layout.used_ring_offset);
        assert!(layout.used_ring_offset + 6 + 8 * n <= layout.mem_size);
        assert_eq!(layout.pages() * PAGE_SIZE, layout.mem_size);
    }
}

#[test]
fn features() {
    assert_eq!(ALL_FEATURES, 0x7f_7900_6ef7);
    assert_eq!(BlockFeature::from_bits_truncate(u64::MAX).bits, ALL_FEATURES);
    assert_eq!(BlockFeature::from_bits_truncate(1 << 3 | RO).bits, RO);
    let both = BlockFeature { bits: RO | NOTIFICATION_DATA };
    assert_eq!(both.intersection(BlockFeature { bits: RO }).bits, RO);
    assert_eq!(negotiate_features(u64::MAX), 0);
    assert_eq!(negotiate_features(0), 0);
}

#[test]
fn queue_setup_goes_through() {
    let (mut setup, action) = QueueSetup::start(3, 8);
    assert_eq!(action, SetupAction::QueryUsed(3));
    assert_eq!(setup.step(SetupEvent::Used(false)), SetupAction::QueryMaxSize);
    assert_eq!(setup.step(SetupEvent::MaxSize(8)), SetupAction::Allocate(2));
    assert_eq!(
        setup.step(SetupEvent::Allocated(Ok(0x80200))),
        SetupAction::Program { index: 3, size: 8, align: 4096, pfn: 0x80200 }
    );
    assert_eq!(setup.step(SetupEvent::Programmed), SetupAction::Link { index: 3, size: 8 });
    assert_eq!(setup.stage, SetupStage::Ended);
}

#[test]
fn queue_setup_registers_have_32_bits() {
    let (mut setup, action) = QueueSetup::start(0x1_0000_0002, 1);
    assert_eq!(action, SetupAction::QueryUsed(2));
    assert_eq!(setup.step(SetupEvent::Used(false)), SetupAction::QueryMaxSize);
    assert_eq!(setup.step(SetupEvent::MaxSize(1)), SetupAction::Allocate(2));
    assert_eq!(
        setup.step(SetupEvent::Allocated(Ok(0x7_0000_0001))),
        SetupAction::Program { index: 2, size: 1, align: 4096, pfn: 1 }
    );
}

#[test]
fn queue_in_use_is_refused() {
    let (mut setup, _) = QueueSetup::start(3, 8);
    assert_eq!(
        setup.step(SetupEvent::Used(true)),
        SetupAction::Fail(VirtIOError::QueueInUsed(3))
    );
    // The queue in use is the error even where the size is wrong too.
    let (mut setup, _) = QueueSetup::start(4, 7);
    assert_eq!(
        setup.step(SetupEvent::Used(true)),
        SetupAction::Fail(VirtIOError::QueueInUsed(4))
    );
}

#[test]
fn queue_size_is_checked() {
    for size in [0, 3, 6, 65535] {
        let (mut setup, _) = QueueSetup::start(0, size);
        assert_eq!(
            setup.step(SetupEvent::Used(false)),
            SetupAction::Fail(VirtIOError::InvalidParameter)
        );
    }
    let (mut setup, _) = QueueSetup::start(0, 16);
    assert_eq!(setup.step(SetupEvent::Used(false)), SetupAction::QueryMaxSize);
    assert_eq!(
        setup.step(SetupEvent::MaxSize(15)),
        SetupAction::Fail(VirtIOError::InvalidParameter)
    );
}

#[test]
fn queue_without_memory_fails() {
    let (mut setup, _) = QueueSetup::start(0, 16);
    setup.step(SetupEvent::Used(false));
    setup.step(SetupEvent::MaxSize(1024));
    assert_eq!(
        setup.step(SetupEvent::Allocated(Err(VirtIOError::DMAAllocError))),
        SetupAction::Fail(VirtIOError::DMAAllocError)
    );
}

/// Answers what the initialisation asks for and returns what it did and how it
/// ended.
fn bring_up(
    known: bool,
    used: bool,
    max: u32,
    memory: Result<usize, VirtIOError>,
    sectors: u64,
) -> (Vec<&'static str>, Result<usize, VirtIOError>) {
    let (mut init, mut action) = BlockInit::start();
    let mut done = Vec::new();
    loop {
        let (name, event) = match action {
            InitAction::VerifyHeader => ("verify", InitEvent::HeaderVerified(known)),
            InitAction::BeginInit => ("begin", InitEvent::InitBegun),
            InitAction::Queue(SetupAction::QueryUsed(index)) => {
                assert_eq!(index, 0);
                ("used", InitEvent::Queue(SetupEvent::Used(used)))
            }
            InitAction::Queue(SetupAction::QueryMaxSize) => {
                ("max", InitEvent::Queue(SetupEvent::MaxSize(max)))
            }
            InitAction::Queue(SetupAction::Allocate(pages)) => {
                assert_eq!(pages, 2);
                ("allocate", InitEvent::Queue(SetupEvent::Allocated(memory)))
            }
            InitAction::Queue(SetupAction::Program { index, size, align, pfn }) => {
                assert_eq!((index, size, align), (0, VIRT_QUEUE_SIZE as u32, 4096));
                assert_eq!(pfn as usize, memory.unwrap());
                ("program", InitEvent::Queue(SetupEvent::Programmed))
            }
            InitAction::Queue(SetupAction::Link { index, size }) => {
                assert_eq!((index, size as usize), (0, VIRT_QUEUE_SIZE));
                ("link", InitEvent::QueueLinked)
            }
            InitAction::Queue(SetupAction::Fail(_)) => panic!("not an action of the device"),
            InitAction::FinishInit => ("finish", InitEvent::InitFinished),
            InitAction::ReadCapacity => ("capacity", InitEvent::Capacity(sectors)),
            InitAction::Done(capacity) => return (done, Ok(capacity)),
            InitAction::Fail(e) => return (done, Err(e)),
        };
        done.push(name);
        action = init.step(event);
    }
}

#[test]
fn block_device_comes_up() {
    let (done, res) = bring_up(true, false, 1024, Ok(0x80400), 40960);
    assert_eq!(res, Ok(40960));
    assert_eq!(
        done,
        vec!["verify", "begin", "used", "max", "allocate", "program", "link", "finish", "capacity"]
    );
}

#[test]
fn block_device_that_does_not_come_up() {
    let (done, res) = bring_up(false, false, 1024, Ok(1), 1);
    assert_eq!(res, Err(VirtIOError::HeaderVerifyError));
    assert_eq!(done, vec!["verify"]);

    let (done, res) = bring_up(true, true, 1024, Ok(1), 1);
    assert_eq!(res, Err(VirtIOError::QueueInUsed(0)));
    assert_eq!(done, vec!["verify", "begin", "used"]);

    let (done, res) = bring_up(true, false, 8, Ok(1), 1);
    assert_eq!(res, Err(VirtIOError::InvalidParameter));
    assert_eq!(done, vec!["verify", "begin", "used", "max"]);

    let (done, res) = bring_up(true, false, 16, Err(VirtIOError::DMAAllocError), 1);
    assert_eq!(res, Err(VirtIOError::DMAAllocError));
    assert_eq!(done, vec!["verify", "begin", "used", "max", "allocate"]);
}
