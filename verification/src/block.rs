//! The block device: requests for blocks go out through the queue and come back
//! through it.
use crate::config::{BLOCK_SIZE, VIRT_QUEUE_SIZE};
use crate::descriptor::Buffer;
use crate::laws::{fresh_queue_is_linked, linked};
use crate::model::{addable, after_add, fresh, has_room, QueueModel};
use crate::queue::{
    can_pop_outcome, next_outcome, pop_outcome, ring_view, table_view, used_view, QueueMemory,
    VirtQueue,
};
use crate::request::{
    check_status, interrupt_ret, ret_of, status_result, BlockReq, BlockReqType, BlockResp,
    BlockRespStatus, InterruptRet, RequestSlot,
};
use crate::util::lemma_pow2_cases;
use crate::VirtIOError;
use vstd::prelude::*;

verus! {

/// The queue that block requests go through.
pub const BLOCK_QUEUE: u32 = 0;

/// Descriptors that a request takes: the request, the block, the response.
pub const REQUEST_DESCRIPTORS: usize = 3;

/// A block device's queue before its first request: the queue of index
/// [`BLOCK_QUEUE`], as long as the rings, with every descriptor free.
pub open spec fn is_unused_block_queue(q: QueueModel) -> bool {
    &&& q.queue_index == BLOCK_QUEUE
    &&& q.queue_size == VIRT_QUEUE_SIZE
    &&& q.used_num == 0
    &&& linked(q, Set::empty())
}

/// Makes a block device's queue over its memory.
pub fn link_block_queue<'virtio>(memory: QueueMemory<'virtio>) -> (res: VirtQueue<'virtio>)
    requires
        memory.descriptors@.len() == VIRT_QUEUE_SIZE,
        memory.avail.ring@.len() == VIRT_QUEUE_SIZE,
        memory.used.ring@.len() == VIRT_QUEUE_SIZE,
    ensures
        res.inv(),
        res@ == fresh(
            table_view(memory.descriptors@),
            ring_view(memory.avail.ring@),
            memory.avail.idx@,
            used_view(memory.used),
            BLOCK_QUEUE,
            VIRT_QUEUE_SIZE as u16,
        ),
        is_unused_block_queue(res@),
{
    proof {
        lemma_pow2_cases(VIRT_QUEUE_SIZE as u16);
        fresh_queue_is_linked(
            table_view(memory.descriptors@),
            ring_view(memory.avail.ring@),
            memory.avail.idx@,
            used_view(memory.used),
            BLOCK_QUEUE,
            VIRT_QUEUE_SIZE as u16,
        );
    }
    VirtQueue::new(memory, BLOCK_QUEUE as usize, VIRT_QUEUE_SIZE as u16)
}

/// The registers of a block device and its queue. The two are used together.
pub struct VirtIOBlockInner<'virtio, H> {
    /// The registers.
    pub header: H,
    /// The queue.
    pub queue: VirtQueue<'virtio>,
}

impl<'virtio, H> VirtIOBlockInner<'virtio, H> {
    /// The registers and the queue.
    pub fn header_and_queue(&self) -> (res: (&H, &VirtQueue<'virtio>))
        ensures
            *res.0 == self.header,
            *res.1 == self.queue,
    {
        (&self.header, &self.queue)
    }

    /// The registers and the queue, to be changed.
    pub fn header_and_queue_mut(&mut self) -> (res: (&mut H, &mut VirtQueue<'virtio>))
        ensures
            *res.0 == old(self).header,
            *res.1 == old(self).queue,
            *final(self) == (VirtIOBlockInner { header: *final(res.0), queue: *final(res.1) }),
    {
        (&mut self.header, &mut self.queue)
    }
}

/// A request that was handed to the device: its future, and the queue that the
/// device is to be notified of.
pub struct Submitted<F> {
    pub future: F,
    pub notify: u32,
}

/// What came of looking into the queue for the end of a request.
#[derive(Clone, Copy, Debug)]
pub enum Polled {
    /// The used ring shows no entry that was not taken yet.
    Nothing,
    /// It showed one, and taking the next one came to this.
    Popped(Option<Result<(u16, u32), VirtIOError>>),
}

/// `polled` and `post` are what looking into the queue `pre` came to, for some
/// answers of the device: it first shows whether there is an entry, and only then
/// the next one is taken.
pub open spec fn poll_outcome(pre: QueueModel, post: QueueModel, polled: Polled) -> bool {
    match polled {
        Polled::Nothing => can_pop_outcome(pre, false) && post == pre,
        Polled::Popped(popped) => can_pop_outcome(pre, true) && pop_outcome(pre, post, popped),
    }
}

/// Looks into the queue for the end of a request.
fn poll_queue(queue: &mut VirtQueue) -> (res: Polled)
    requires
        old(queue).inv(),
    ensures
        final(queue).inv(),
        poll_outcome(old(queue)@, final(queue)@, res),
{
    if !queue.can_pop() {
        return Polled::Nothing;
    }
    Polled::Popped(queue.pop_used())
}

/// What is to be done next for a request that its caller comes back for.
#[derive(Clone, Copy, Debug)]
pub enum PollStep {
    /// The device has not answered yet.
    Pending,
    /// The device has answered the request: read the status that it wrote.
    ReadStatus,
    /// The request is over.
    Ready(Result<(), VirtIOError>),
    /// The device gave back a chain that cannot be taken back.
    BadChain,
}

/// What came of looking into the queue means to the request whose chain starts
/// with descriptor `token`. Its own answer is decided by the status; a chain of
/// another request ends it too.
pub open spec fn step_of(token: u16, polled: Polled) -> PollStep {
    match polled {
        Polled::Nothing => PollStep::Pending,
        Polled::Popped(None) => PollStep::BadChain,
        Polled::Popped(Some(Err(e))) => PollStep::Ready(Err(e)),
        Polled::Popped(Some(Ok((head, _)))) => if head == token {
            PollStep::ReadStatus
        } else {
            PollStep::Ready(Ok(()))
        },
    }
}

/// A request that its caller comes back for.
#[derive(Clone, Copy, Debug)]
pub struct BlockFuture {
    /// 0 for a read, 1 for a write.
    pub req_type: u8,
    /// The first descriptor of the request's chain.
    pub token: u16,
}

impl BlockFuture {
    /// What came of looking into the queue means to the request.
    pub fn step(&self, polled: Polled) -> (res: PollStep)
        ensures
            res == step_of(self.token, polled),
    {
        match polled {
            Polled::Nothing => PollStep::Pending,
            Polled::Popped(None) => PollStep::BadChain,
            Polled::Popped(Some(Err(e))) => PollStep::Ready(Err(e)),
            Polled::Popped(Some(Ok((head, _)))) => {
                if head == self.token {
                    PollStep::ReadStatus
                } else {
                    PollStep::Ready(Ok(()))
                }
            },
        }
    }

    /// Looks for the end of the request. Nobody is woken up while it is pending:
    /// that is for the interrupt to do. The status is read by the caller, from the
    /// request's memory, and goes to [`BlockFuture::finish`].
    pub fn poll<H>(&self, block: &mut VirtIOBlock<'_, H>) -> (res: PollStep)
        requires
            old(block).inv(),
        ensures
            final(block).inv(),
            final(block).same_but_queue(*old(block)),
            exists|polled: Polled| #[trigger]
                poll_outcome(old(block).queue(), final(block).queue(), polled) && res == step_of(
                    self.token,
                    polled,
                ),
    {
        let polled = poll_queue(&mut block.inner.queue);
        assert(poll_outcome(old(block).queue(), block.queue(), polled));
        self.step(polled)
    }

    /// Ends the request by the status that the device wrote.
    pub fn finish(&self, status: u8) -> (res: Result<(), VirtIOError>)
        ensures
            res == status_result(status),
    {
        check_status(status)
    }
}

/// What is to be done next for a request that its caller waits for.
#[derive(Clone, Copy, Debug)]
pub enum WaitStep {
    /// Look again.
    Again,
    /// Read the status that the device wrote.
    ReadStatus,
    /// The request is over.
    Done(Result<(), VirtIOError>),
    /// The device gave back a chain that cannot be taken back.
    BadChain,
}

/// What came of looking into the queue means to a caller that waits.
pub open spec fn wait_step_of(polled: Polled) -> WaitStep {
    match polled {
        Polled::Nothing => WaitStep::Again,
        Polled::Popped(None) => WaitStep::BadChain,
        Polled::Popped(Some(Err(e))) => WaitStep::Done(Err(e)),
        Polled::Popped(Some(Ok(_))) => WaitStep::ReadStatus,
    }
}

/// How far a request is that its caller waits for.
#[derive(Clone, Copy, Debug, PartialEq, Eq, Structural)]
pub enum WaitStage {
    Waiting,
    Answered,
    Ended,
}

/// The stage that a step leads to.
pub open spec fn wait_stage_of(step: WaitStep) -> WaitStage {
    match step {
        WaitStep::Again => WaitStage::Waiting,
        WaitStep::ReadStatus => WaitStage::Answered,
        _ => WaitStage::Ended,
    }
}

/// A request that its caller waits for.
#[derive(Clone, Copy, Debug)]
pub struct BlockWait {
    pub stage: WaitStage,
}

impl BlockWait {
    /// What came of looking into the queue means, and what is to be done next.
    pub fn step(&mut self, polled: Polled) -> (res: WaitStep)
        requires
            old(self).stage is Waiting,
        ensures
            res == wait_step_of(polled),
            final(self).stage == wait_stage_of(res),
    {
        match polled {
            Polled::Nothing => WaitStep::Again,
            Polled::Popped(None) => {
                self.stage = WaitStage::Ended;
                WaitStep::BadChain
            },
            Polled::Popped(Some(Err(e))) => {
                self.stage = WaitStage::Ended;
                WaitStep::Done(Err(e))
            },
            Polled::Popped(Some(Ok(_))) => {
                self.stage = WaitStage::Answered;
                WaitStep::ReadStatus
            },
        }
    }

    /// Looks for the end of the request.
    pub fn look<H>(&mut self, block: &mut VirtIOBlock<'_, H>) -> (res: WaitStep)
        requires
            old(self).stage is Waiting,
            old(block).inv(),
        ensures
            final(block).inv(),
            final(block).same_but_queue(*old(block)),
            final(self).stage == wait_stage_of(res),
            exists|polled: Polled| #[trigger]
                poll_outcome(old(block).queue(), final(block).queue(), polled) && res
                    == wait_step_of(polled),
    {
        let polled = poll_queue(&mut block.inner.queue);
        assert(poll_outcome(old(block).queue(), block.queue(), polled));
        self.step(polled)
    }

    /// Ends the request by the status that the device wrote.
    pub fn finish(&mut self, status: u8) -> (res: Result<(), VirtIOError>)
        requires
            old(self).stage is Answered,
        ensures
            final(self).stage is Ended,
            res == status_result(status),
    {
        self.stage = WaitStage::Ended;
        check_status(status)
    }
}

/// The buffers that the device reads for a request.
pub open spec fn request_inputs(type_: BlockReqType, req: Buffer, buf: Buffer) -> Seq<Buffer> {
    if type_ is Out {
        seq![req, buf]
    } else {
        seq![req]
    }
}

/// The buffers that the device writes for a request.
pub open spec fn request_outputs(type_: BlockReqType, buf: Buffer, resp: Buffer) -> Seq<Buffer> {
    if type_ is Out {
        seq![resp]
    } else {
        seq![buf, resp]
    }
}

/// The queue after a request for a block was submitted.
pub open spec fn after_submit(
    q: QueueModel,
    type_: BlockReqType,
    req: Buffer,
    buf: Buffer,
    resp: Buffer,
) -> QueueModel {
    after_add(q, request_inputs(type_, req, buf), request_outputs(type_, buf, resp))
}

/// A block device.
pub struct VirtIOBlock<'virtio, H> {
    inner: VirtIOBlockInner<'virtio, H>,
    /// Sectors of the device.
    capacity: usize,
}

impl<'virtio, H> VirtIOBlock<'virtio, H> {
    /// The queue.
    pub closed spec fn queue(self) -> QueueModel {
        self.inner.queue@
    }

    /// The registers.
    pub closed spec fn registers(self) -> H {
        self.inner.header
    }

    /// Sectors of the device.
    pub closed spec fn sectors(self) -> usize {
        self.capacity
    }

    /// The queue's parts fit each other. Every device that [`VirtIOBlock::new`]
    /// made satisfies this at all times.
    pub closed spec fn inv(self) -> bool {
        self.inner.queue.inv()
    }

    /// Only the queue may differ.
    pub open spec fn same_but_queue(self, other: Self) -> bool {
        &&& self.registers() == other.registers()
        &&& self.sectors() == other.sectors()
    }

    /// There is room in the queue for one more request.
    pub open spec fn has_request_room(self) -> bool {
        &&& has_room(self.queue(), REQUEST_DESCRIPTORS as int)
        &&& addable(self.queue(), REQUEST_DESCRIPTORS as nat)
    }

    /// A block device over its registers and its queue, as
    /// [`link_block_queue`] makes it.
    pub fn new(header: H, queue: VirtQueue<'virtio>, capacity: usize) -> (res: Self)
        requires
            queue.inv(),
            is_unused_block_queue(queue@),
        ensures
            res.inv(),
            res.registers() == header,
            res.queue() == queue@,
            is_unused_block_queue(res.queue()),
            res.sectors() == capacity,
    {
        VirtIOBlock { inner: VirtIOBlockInner { header, queue }, capacity }
    }

    /// The registers and the queue.
    pub fn inner(&self) -> (res: &VirtIOBlockInner<'virtio, H>)
        requires
            self.inv(),
        ensures
            res.header == self.registers(),
            res.queue@ == self.queue(),
            res.queue.inv(),
    {
        &self.inner
    }

    /// The registers and the queue, to be changed.
    pub fn inner_mut(&mut self) -> (res: &mut VirtIOBlockInner<'virtio, H>)
        ensures
            res.header == old(self).registers(),
            res.queue@ == old(self).queue(),
            res.queue.inv() == old(self).inv(),
            final(self).registers() == final(res).header,
            final(self).queue() == final(res).queue@,
            final(self).inv() == final(res).queue.inv(),
            final(self).sectors() == old(self).sectors(),
    {
        &mut self.inner
    }

    /// Sectors of the device.
    pub fn capacity(&self) -> (res: usize)
        ensures
            res == self.sectors(),
    {
        self.capacity
    }

    /// Whether there is room in the queue for one more request.
    pub fn accepts_request(&self) -> (res: bool)
        requires
            self.inv(),
        ensures
            res == self.has_request_room(),
    {
        self.inner.queue.accepts(REQUEST_DESCRIPTORS)
    }

    /// Writes a request for a block to its memory, with a response that the
    /// device is still to give, and hands it to the device. Returns the first
    /// descriptor of the request's chain.
    fn submit(
        &mut self,
        type_: BlockReqType,
        block_id: usize,
        buf: Buffer,
        slot: RequestSlot<'_>,
    ) -> (res: u16)
        requires
            old(self).inv(),
            old(self).has_request_room(),
        ensures
            res == old(self).queue().free_head,
            final(self).inv(),
            final(self).same_but_queue(*old(self)),
            final(self).queue() == after_submit(
                old(self).queue(),
                type_,
                slot.req_buffer(),
                buf,
                slot.resp_buffer(),
            ),
            *final(slot.type_) == type_.number(),
            *final(slot.reserved) == 0,
            *final(slot.sector) == block_id as u64,
            *final(slot.status) == BlockRespStatus::NotReady.number(),
    {
        let (req, resp) = slot.place(BlockReq::new(type_, block_id), BlockResp::default());
        match type_ {
            BlockReqType::Out => {
                let inputs = [req, buf];
                let outputs = [resp];
                assert(inputs@ =~= request_inputs(type_, req, buf));
                assert(outputs@ =~= request_outputs(type_, buf, resp));
                self.inner.queue.add_buf(&inputs, &outputs).unwrap()
            },
            _ => {
                let inputs = [req];
                let outputs = [buf, resp];
                assert(inputs@ =~= request_inputs(type_, req, buf));
                assert(outputs@ =~= request_outputs(type_, buf, resp));
                self.inner.queue.add_buf(&inputs, &outputs).unwrap()
            },
        }
    }

    /// Hands the device a request to read block `block_id` into `buf`, for the
    /// caller to come back for.
    pub fn async_read(&mut self, block_id: usize, buf: Buffer, slot: RequestSlot<'_>) -> (res:
        Submitted<BlockFuture>)
        requires
            old(self).inv(),
            buf.len == BLOCK_SIZE,
            old(self).has_request_room(),
        ensures
            final(self).inv(),
            final(self).same_but_queue(*old(self)),
            final(self).queue() == after_submit(
                old(self).queue(),
                BlockReqType::In,
                slot.req_buffer(),
                buf,
                slot.resp_buffer(),
            ),
            *final(slot.type_) == BlockReqType::In.number(),
            *final(slot.reserved) == 0,
            *final(slot.sector) == block_id as u64,
            *final(slot.status) == BlockRespStatus::NotReady.number(),
            res.future.req_type == 0,
            res.future.token == old(self).queue().free_head,
            res.notify == BLOCK_QUEUE,
    {
        let token = self.submit(BlockReqType::In, block_id, buf, slot);
        Submitted { future: BlockFuture { req_type: 0, token }, notify: BLOCK_QUEUE }
    }

    /// Hands the device a request to write `buf` to block `block_id`, for the
    /// caller to come back for.
    pub fn async_write(&mut self, block_id: usize, buf: Buffer, slot: RequestSlot<'_>) -> (res:
        Submitted<BlockFuture>)
        requires
            old(self).inv(),
            buf.len == BLOCK_SIZE,
            old(self).has_request_room(),
        ensures
            final(self).inv(),
            final(self).same_but_queue(*old(self)),
            final(self).queue() == after_submit(
                old(self).queue(),
                BlockReqType::Out,
                slot.req_buffer(),
                buf,
                slot.resp_buffer(),
            ),
            *final(slot.type_) == BlockReqType::Out.number(),
            *final(slot.reserved) == 0,
            *final(slot.sector) == block_id as u64,
            *final(slot.status) == BlockRespStatus::NotReady.number(),
            res.future.req_type == 1,
            res.future.token == old(self).queue().free_head,
            res.notify == BLOCK_QUEUE,
    {
        let token = self.submit(BlockReqType::Out, block_id, buf, slot);
        Submitted { future: BlockFuture { req_type: 1, token }, notify: BLOCK_QUEUE }
    }

    /// Hands the device a request to read block `block_id` into `buf`, for the
    /// caller to wait for: notify the device, look until the request has its
    /// answer, and finish by the status.
    pub fn read_block(&mut self, block_id: usize, buf: Buffer, slot: RequestSlot<'_>) -> (res:
        Submitted<BlockWait>)
        requires
            old(self).inv(),
            buf.len == BLOCK_SIZE,
            old(self).has_request_room(),
        ensures
            final(self).inv(),
            final(self).same_but_queue(*old(self)),
            final(self).queue() == after_submit(
                old(self).queue(),
                BlockReqType::In,
                slot.req_buffer(),
                buf,
                slot.resp_buffer(),
            ),
            *final(slot.type_) == BlockReqType::In.number(),
            *final(slot.reserved) == 0,
            *final(slot.sector) == block_id as u64,
            *final(slot.status) == BlockRespStatus::NotReady.number(),
            res.future.stage is Waiting,
            res.notify == BLOCK_QUEUE,
    {
        self.submit(BlockReqType::In, block_id, buf, slot);
        Submitted { future: BlockWait { stage: WaitStage::Waiting }, notify: BLOCK_QUEUE }
    }

    /// Hands the device a request to write `buf` to block `block_id`, for the
    /// caller to wait for: notify the device, look until the request has its
    /// answer, and finish by the status.
    pub fn write_block(&mut self, block_id: usize, buf: Buffer, slot: RequestSlot<'_>) -> (res:
        Submitted<BlockWait>)
        requires
            old(self).inv(),
            buf.len == BLOCK_SIZE,
            old(self).has_request_room(),
        ensures
            final(self).inv(),
            final(self).same_but_queue(*old(self)),
            final(self).queue() == after_submit(
                old(self).queue(),
                BlockReqType::Out,
                slot.req_buffer(),
                buf,
                slot.resp_buffer(),
            ),
            *final(slot.type_) == BlockReqType::Out.number(),
            *final(slot.reserved) == 0,
            *final(slot.sector) == block_id as u64,
            *final(slot.status) == BlockRespStatus::NotReady.number(),
            res.future.stage is Waiting,
            res.notify == BLOCK_QUEUE,
    {
        self.submit(BlockReqType::Out, block_id, buf, slot);
        Submitted { future: BlockWait { stage: WaitStage::Waiting }, notify: BLOCK_QUEUE }
    }

    /// Begins to handle an interrupt of the device: without an answer in the used
    /// ring it is an error, else the interrupt is to be acknowledged.
    pub fn handle_interrupt(&self) -> (res: (InterruptHandler, InterruptStep))
        ensures
            can_pop_outcome(self.queue(), res.1 is Acknowledge),
            res.1 == entry_step_of(res.1 is Acknowledge),
            res.0.stage == if res.1 is Acknowledge {
                InterruptStage::Entered
            } else {
                InterruptStage::Ended
            },
    {
        let answered = self.inner.queue.can_pop();
        InterruptHandler::enter(answered)
    }
}

/// What is to be done next for an interrupt.
#[derive(Clone, Copy, Debug)]
pub enum InterruptStep {
    /// Tell the device that its interrupt is being handled.
    Acknowledge,
    /// Read the type and the sector of the request at this address, which is one
    /// of the device's.
    ReadRequest(u64),
    /// The interrupt cannot be handled.
    Fail(VirtIOError),
    /// The device gave back a chain that does not start in the table.
    BadChain,
}

/// What an interrupt calls for, with or without an answer in the used ring.
pub open spec fn entry_step_of(answered: bool) -> InterruptStep {
    if answered {
        InterruptStep::Acknowledge
    } else {
        InterruptStep::Fail(VirtIOError::IOError)
    }
}

/// What the next used entry of `q` calls for: to read the request that its first
/// descriptor points to.
pub open spec fn locate_step_of(
    q: QueueModel,
    next: Option<Result<(u16, u32), VirtIOError>>,
) -> InterruptStep {
    match next {
        None => InterruptStep::BadChain,
        Some(Err(e)) => InterruptStep::Fail(e),
        Some(Ok((index, _))) => if index < q.table.len() {
            InterruptStep::ReadRequest(q.table[index as int].paddr)
        } else {
            InterruptStep::BadChain
        },
    }
}

/// How far the handling of an interrupt is.
#[derive(Clone, Copy, Debug, PartialEq, Eq, Structural)]
pub enum InterruptStage {
    Entered,
    Located,
    Ended,
}

/// The stage that looking for the request leads to.
pub open spec fn locate_stage_of(step: InterruptStep) -> InterruptStage {
    if step is ReadRequest {
        InterruptStage::Located
    } else {
        InterruptStage::Ended
    }
}

/// An interrupt that is being handled.
#[derive(Clone, Copy, Debug)]
pub struct InterruptHandler {
    pub stage: InterruptStage,
}

impl InterruptHandler {
    /// What an interrupt calls for, with or without an answer in the used ring.
    pub fn enter(answered: bool) -> (res: (Self, InterruptStep))
        ensures
            res.1 == entry_step_of(answered),
            res.0.stage == if answered {
                InterruptStage::Entered
            } else {
                InterruptStage::Ended
            },
    {
        if answered {
            (InterruptHandler { stage: InterruptStage::Entered }, InterruptStep::Acknowledge)
        } else {
            (
                InterruptHandler { stage: InterruptStage::Ended },
                InterruptStep::Fail(VirtIOError::IOError),
            )
        }
    }

    /// What the next used entry of the queue calls for.
    pub fn locate(
        &mut self,
        queue: &VirtQueue,
        next: Option<Result<(u16, u32), VirtIOError>>,
    ) -> (res: InterruptStep)
        requires
            old(self).stage is Entered,
            queue.inv(),
        ensures
            res == locate_step_of(queue@, next),
            final(self).stage == locate_stage_of(res),
    {
        self.stage = InterruptStage::Ended;
        match next {
            None => InterruptStep::BadChain,
            Some(Err(e)) => InterruptStep::Fail(e),
            Some(Ok((index, _))) => {
                if index < queue.size() {
                    self.stage = InterruptStage::Located;
                    InterruptStep::ReadRequest(queue.descriptor(index as usize).paddr)
                } else {
                    InterruptStep::BadChain
                }
            },
        }
    }

    /// Goes on once the interrupt is acknowledged: looks at the next used entry,
    /// which stays in the ring.
    pub fn acknowledged<H>(&mut self, block: &VirtIOBlock<'_, H>) -> (res: InterruptStep)
        requires
            old(self).stage is Entered,
            block.inv(),
        ensures
            final(self).stage == locate_stage_of(res),
            exists|next: Option<Result<(u16, u32), VirtIOError>>| #[trigger]
                next_outcome(block.queue(), next) && res == locate_step_of(block.queue(), next),
    {
        let next = block.inner.queue.next_used();
        assert(next_outcome(block.queue(), next));
        self.locate(&block.inner.queue, next)
    }

    /// Ends the handling with the request that was read.
    pub fn request(&mut self, type_: u32, sector: u64) -> (res: InterruptRet)
        requires
            old(self).stage is Located,
        ensures
            final(self).stage is Ended,
            res == ret_of(type_, sector),
    {
        self.stage = InterruptStage::Ended;
        interrupt_ret(type_, sector)
    }
}

} // verus!
