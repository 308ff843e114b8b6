use async_virtio_driver::block::{
    link_block_queue, BlockFuture, BlockWait, InterruptHandler, InterruptStep, PollStep, Polled,
    VirtIOBlock, WaitStage, WaitStep,
};
use async_virtio_driver::cell::{
    DeviceCell16, DeviceCell32, DriverCell16, DriverCell32, DriverCell64,
};
use async_virtio_driver::config::VIRT_QUEUE_SIZE;
use async_virtio_driver::descriptor::{Buffer, Descriptor, DescriptorFlags, DescriptorSlot};
use async_virtio_driver::queue::{AvailableRing, QueueMemory, UsedElement, UsedRing};
use async_virtio_driver::request::{
    check_status, interrupt_ret, BlockReq, BlockReqType, BlockResp, BlockRespStatus, InterruptRet,
    RequestSlot,
};
use async_virtio_driver::VirtIOError;
use volatile::Volatile;

fn cell16(value: u16) -> &'static mut Volatile<u16> {
    Box::leak(Box::new(Volatile::new(value)))
}

fn cell32(value: u32) -> &'static mut Volatile<u32> {
    Box::leak(Box::new(Volatile::new(value)))
}

fn cell64(value: u64) -> &'static mut Volatile<u64> {
    Box::leak(Box::new(Volatile::new(value)))
}

/// A block device that has already answered. Its registers are a counter.
fn device(used_idx: u16, answers: &[(u32, u32)]) -> VirtIOBlock<'static, u32> {
    let mut descriptors = Vec::new();
    for _ in 0..VIRT_QUEUE_SIZE {
        descriptors.push(DescriptorSlot::new(
            DriverCell64::new(cell64(0)),
            DriverCell32::new(cell32(0)),
            DriverCell16::new(cell16(0)),
            DriverCell16::new(cell16(0)),
        ));
    }
    let mut ring = Vec::new();
    let mut used = Vec::new();
    for i in 0..VIRT_QUEUE_SIZE {
        let (id, len) = if i < answers.len() { answers[i] } else { (0, 0) };
        ring.push(DriverCell16::new(cell16(0xffff)));
        used.push(UsedElement {
            id: DeviceCell32::new(cell32(id)),
            len: DeviceCell32::new(cell32(len)),
        });
    }
    let memory = QueueMemory {
        descriptors,
        avail: AvailableRing { idx: DriverCell16::new(cell16(0)), ring },
        used: UsedRing { idx: DeviceCell16::new(cell16(used_idx)), ring: used },
    };
    VirtIOBlock::new(7, link_block_queue(memory), 2048)
}

struct Memory {
    type_: u32,
    reserved: u32,
    sector: u64,
    status: u8,
}

impl Memory {
    fn new() -> Self {
        Memory { type_: 99, reserved: 99, sector: 99, status: 99 }
    }

    fn slot(&mut self) -> RequestSlot<'_> {
        RequestSlot {
            type_: &mut self.type_,
            reserved: &mut self.reserved,
            sector: &mut self.sector,
            status: &mut self.status,
            req_paddr: 0x1000,
            resp_paddr: 0x3000,
        }
    }

    fn fields(&self) -> (u32, u32, u64, u8) {
        (self.type_, self.reserved, self.sector, self.status)
    }
}

const BLOCK: Buffer = Buffer { paddr: 0x2000, len: 512 };

fn desc(paddr: u64, len: u32, bits: u16, next: u16) -> Descriptor {
    Descriptor { paddr, len, flags: DescriptorFlags { bits }, next }
}

fn chain(block: &VirtIOBlock<'static, u32>) -> Vec<Descriptor> {
    block.inner().header_and_queue().1.desc_table()[..3].to_vec()
}

#[test]
fn read_asks_for_the_block() {
    let mut block = device(0, &[]);
    let mut memory = Memory::new();
    assert!(block.accepts_request());
    let submitted = block.async_read(5, BLOCK, memory.slot());
    assert_eq!(submitted.notify, 0);
    assert_eq!(submitted.future.req_type, 0);
    assert_eq!(submitted.future.token, 0);
    assert_eq!(memory.fields(), (0, 0, 5, 3));
    assert_eq!(
        chain(&block),
        vec![desc(0x1000, 16, 1, 1), desc(0x2000, 512, 3, 2), desc(0x3000, 1, 2, 3)]
    );
    assert_eq!(block.inner().queue.avail_entries()[0], 0);
    assert_eq!(block.capacity(), 2048);
}

#[test]
fn write_hands_over_the_block() {
    let mut block = device(0, &[]);
    let mut memory = Memory::new();
    let submitted = block.async_write(usize::MAX, BLOCK, memory.slot());
    assert_eq!(submitted.notify, 0);
    assert_eq!(submitted.future.req_type, 1);
    assert_eq!(memory.fields(), (1, 0, u64::MAX, 3));
    assert_eq!(
        chain(&block),
        vec![desc(0x1000, 16, 1, 1), desc(0x2000, 512, 1, 2), desc(0x3000, 1, 2, 3)]
    );
}

#[test]
fn device_takes_five_requests() {
    let mut block = device(0, &[]);
    for i in 0..5 {
        assert!(block.accepts_request());
        block.async_read(i, BLOCK, Memory::new().slot());
    }
    assert!(!block.accepts_request());
    assert_eq!(block.inner().queue.free_desc_num(), 1);
}

#[test]
fn future_is_pending_without_an_answer() {
    let mut block = device(0, &[]);
    let mut memory = Memory::new();
    let future = block.async_read(5, BLOCK, memory.slot()).future;
    assert!(matches!(future.poll(&mut block), PollStep::Pending));
    assert_eq!(block.inner().queue.free_desc_num(), 13);
}

#[test]
fn future_is_ready_with_an_answer() {
    let mut block = device(1, &[(0, 513)]);
    let mut memory = Memory::new();
    let future = block.async_write(5, BLOCK, memory.slot()).future;
    assert!(matches!(future.poll(&mut block), PollStep::ReadStatus));
    assert_eq!(future.finish(0), Ok(()));
    assert_eq!(block.inner().queue.free_desc_num(), 16);
    assert!(matches!(future.poll(&mut block), PollStep::Pending));
}

#[test]
fn future_of_a_request_that_failed() {
    for status in 1..=255 {
        let mut block = device(1, &[(0, 1)]);
        let mut memory = Memory::new();
        let future = block.async_read(5, BLOCK, memory.slot()).future;
        assert!(matches!(future.poll(&mut block), PollStep::ReadStatus));
        assert_eq!(future.finish(status), Err(VirtIOError::IOError));
    }
}

#[test]
fn future_is_ended_by_another_answer() {
    let mut block = device(1, &[(3, 513)]);
    let first = block.async_read(5, BLOCK, Memory::new().slot()).future;
    let second = block.async_write(6, BLOCK, Memory::new().slot()).future;
    assert_eq!((first.token, second.token), (0, 3));
    assert!(matches!(first.poll(&mut block), PollStep::Ready(Ok(()))));
    assert_eq!(block.inner().queue.free_desc_num(), 13);
    assert!(matches!(second.poll(&mut block), PollStep::Pending));
}

#[test]
fn unused_queue_of_a_device_is_free() {
    let block = device(0, &[]);
    let queue = &block.inner().queue;
    assert_eq!(queue.size() as usize, VIRT_QUEUE_SIZE);
    assert_eq!(queue.free_desc_num() as usize, VIRT_QUEUE_SIZE);
    let links: Vec<u16> = queue.desc_table().iter().map(|d| d.next).collect();
    assert_eq!(links, [1, 2, 3, 4, 5, 6, 7, 8, 9, 10, 11, 12, 13, 14, 15, 0]);
}

#[test]
fn future_meets_a_bad_chain() {
    let mut block = device(1, &[(40, 0)]);
    let mut memory = Memory::new();
    let future = block.async_read(5, BLOCK, memory.slot()).future;
    assert!(matches!(future.poll(&mut block), PollStep::BadChain));
    assert_eq!(block.inner().queue.free_desc_num(), 13);
}

#[test]
fn pop_that_fails_ends_the_request() {
    let failed = Polled::Popped(Some(Err(VirtIOError::UsedRingNotReady)));
    let future = BlockFuture { req_type: 0, token: 0 };
    assert!(matches!(
        future.step(failed),
        PollStep::Ready(Err(VirtIOError::UsedRingNotReady))
    ));
    let mut wait = BlockWait { stage: WaitStage::Waiting };
    assert!(matches!(
        wait.step(failed),
        WaitStep::Done(Err(VirtIOError::UsedRingNotReady))
    ));
    assert_eq!(wait.stage, WaitStage::Ended);
}

#[test]
fn waiting_for_a_read() {
    let mut block = device(1, &[(0, 513)]);
    let mut memory = Memory::new();
    let submitted = block.read_block(9, BLOCK, memory.slot());
    assert_eq!(submitted.notify, 0);
    assert_eq!(memory.fields(), (0, 0, 9, 3));
    let mut wait = submitted.future;
    assert!(matches!(wait.look(&mut block), WaitStep::ReadStatus));
    assert_eq!(wait.finish(0), Ok(()));
    assert_eq!(wait.stage, WaitStage::Ended);
    assert_eq!(block.inner().queue.free_desc_num(), 16);
}

#[test]
fn waiting_for_a_write_that_fails() {
    for status in 1..=255 {
        let mut block = device(1, &[(0, 1)]);
        let mut memory = Memory::new();
        let mut wait = block.write_block(9, BLOCK, memory.slot()).future;
        assert_eq!(memory.fields(), (1, 0, 9, 3));
        assert!(matches!(wait.look(&mut block), WaitStep::ReadStatus));
        assert_eq!(wait.finish(status), Err(VirtIOError::IOError));
    }
}

#[test]
fn waiting_goes_on_without_an_answer() {
    let mut block = device(0, &[]);
    let mut memory = Memory::new();
    let mut wait = block.read_block(9, BLOCK, memory.slot()).future;
    for _ in 0..3 {
        assert!(matches!(wait.look(&mut block), WaitStep::Again));
        assert_eq!(wait.stage, WaitStage::Waiting);
    }
}

#[test]
fn waiting_meets_a_bad_chain() {
    let mut block = device(1, &[(16, 0)]);
    let mut memory = Memory::new();
    let mut wait = block.read_block(9, BLOCK, memory.slot()).future;
    assert!(matches!(wait.look(&mut block), WaitStep::BadChain));
}

#[test]
fn interrupt_names_the_block_that_was_read() {
    let mut block = device(1, &[(0, 513)]);
    let mut memory = Memory::new();
    block.async_read(5, BLOCK, memory.slot());
    let (mut handler, step) = block.handle_interrupt();
    assert!(matches!(step, InterruptStep::Acknowledge));
    assert!(matches!(handler.acknowledged(&block), InterruptStep::ReadRequest(0x1000)));
    assert_eq!(handler.request(memory.type_, memory.sector), InterruptRet::Read(5));
    // The entry is still there for the future to take.
    assert_eq!(block.inner().queue.free_desc_num(), 13);
    assert!(block.inner().queue.can_pop());
}

#[test]
fn interrupt_names_the_block_that_was_written() {
    let mut block = device(2, &[(0, 1), (3, 1)]);
    let mut first = Memory::new();
    let mut second = Memory::new();
    let future = block.async_read(5, BLOCK, first.slot()).future;
    block.async_write(6, BLOCK, second.slot());
    assert!(matches!(future.poll(&mut block), PollStep::ReadStatus));
    let (mut handler, step) = block.handle_interrupt();
    assert!(matches!(step, InterruptStep::Acknowledge));
    assert!(matches!(handler.acknowledged(&block), InterruptStep::ReadRequest(0x1000)));
    assert_eq!(handler.request(second.type_, second.sector), InterruptRet::Write(6));
}

#[test]
fn interrupt_without_an_answer_is_an_error() {
    let block = device(0, &[]);
    let (_, step) = block.handle_interrupt();
    assert!(matches!(step, InterruptStep::Fail(VirtIOError::IOError)));
}

#[test]
fn interrupt_meets_a_bad_chain() {
    let block = device(1, &[(16, 0)]);
    let (mut handler, _) = block.handle_interrupt();
    assert!(matches!(handler.acknowledged(&block), InterruptStep::BadChain));
}

#[test]
fn interrupt_whose_answer_went_away() {
    let block = device(0, &[]);
    let (mut handler, step) = InterruptHandler::enter(true);
    assert!(matches!(step, InterruptStep::Acknowledge));
    assert!(matches!(
        handler.acknowledged(&block),
        InterruptStep::Fail(VirtIOError::UsedRingNotReady)
    ));
}

#[test]
fn interrupt_for_other_requests() {
    assert_eq!(interrupt_ret(4, 8), InterruptRet::Other);
    assert_eq!(interrupt_ret(11, 8), InterruptRet::Other);
    assert_eq!(interrupt_ret(13, 8), InterruptRet::Other);
    assert_eq!(interrupt_ret(2, 8), InterruptRet::Other);
    assert_eq!(interrupt_ret(0, u64::MAX), InterruptRet::Read(usize::MAX));
}

#[test]
fn request_types_have_their_numbers() {
    let types = [
        (BlockReqType::In, 0),
        (BlockReqType::Out, 1),
        (BlockReqType::Flush, 4),
        (BlockReqType::Discard, 11),
        (BlockReqType::WriteZeroes, 13),
    ];
    for (t, code) in types {
        assert_eq!(t.code(), code);
        assert_eq!(BlockReqType::from_code(code), Some(t));
    }
    for code in [2, 3, 5, 10, 12, 14, u32::MAX] {
        assert_eq!(BlockReqType::from_code(code), None);
    }
    assert_eq!(
        BlockReq::new(BlockReqType::Out, 3),
        BlockReq { type_: BlockReqType::Out, reserved: 0, sector: 3 }
    );
}

#[test]
fn response_starts_out_not_ready() {
    assert_eq!(BlockResp::default().status, BlockRespStatus::NotReady);
    assert_eq!(BlockRespStatus::NotReady.code(), 3);
    assert_eq!(check_status(BlockRespStatus::Success.code()), Ok(()));
    assert_eq!(check_status(BlockRespStatus::IoErr.code()), Err(VirtIOError::IOError));
    assert_eq!(check_status(BlockRespStatus::Unsupported.code()), Err(VirtIOError::IOError));
    assert_eq!(check_status(BlockRespStatus::NotReady.code()), Err(VirtIOError::IOError));
}

#[test]
fn registers_and_queue_come_together() {
    let mut block = device(0, &[]);
    {
        let (header, queue) = block.inner_mut().header_and_queue_mut();
        *header += 1;
        assert_eq!(queue.add_buf(&[BLOCK], &[]), Ok(0));
    }
    let (header, queue) = block.inner().header_and_queue();
    assert_eq!(*header, 8);
    assert_eq!(queue.free_desc_num(), 15);
}
