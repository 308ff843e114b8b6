//! What the block device promises its callers: what the device is asked, and what
//! the caller is told for each thing that the device may do.
use crate::block::{
    after_submit, link_block_queue, locate_step_of, poll_outcome, step_of, wait_step_of,
    BlockFuture, BlockWait, InterruptHandler, InterruptStep, PollStep, Polled, Submitted,
    VirtIOBlock, VirtIOBlockInner, WaitStep,
};
use crate::cell::{seen_u16, seen_u32};
use crate::descriptor::Buffer;
use crate::model::{hop, last_visit, QueueModel};
use crate::queue::{
    device_says, look_result, next_outcome, pop_outcome, pop_result, QueueMemory, VirtQueue,
};
use crate::queue_promises::{
    chain_came_back, has_whole_chain, is_way, is_whole_chain, lemma_chain_len_is_whole_chain,
    lemma_len_has_whole_chain, lemma_low_16, lemma_pop_brings_chain_back, lemma_way_is_hops,
};
use crate::request::{
    check_status, interrupt_ret, BlockReq, BlockReqType, BlockResp, BlockRespStatus, InterruptRet,
    RequestSlot,
};
use crate::VirtIOError;
use vstd::prelude::*;

verus! {

/// The numbers that stand for the types of requests: 0 to read, 1 to write, 4 to
/// flush, 11 to discard, 13 to write zeroes. Each type is found again by its
/// number, and no other number stands for any.
pub proof fn request_types_go_by_their_numbers(
    type_: BlockReqType,
    code: u32,
    any: u32,
    back: Option<BlockReqType>,
)
    requires
        call_ensures(BlockReqType::code, (type_,), code),
        call_ensures(BlockReqType::from_code, (any,), back),
    ensures
        type_ is In <==> code == 0,
        type_ is Out <==> code == 1,
        type_ is Flush <==> code == 4,
        type_ is Discard <==> code == 11,
        type_ is WriteZeroes <==> code == 13,
        any == code ==> back == Some(type_),
        back is None <==> any != 0 && any != 1 && any != 4 && any != 11 && any != 13,
{
    assert(BlockReqType::In.number() == 0 && BlockReqType::Out.number() == 1
        && BlockReqType::Flush.number() == 4 && BlockReqType::Discard.number() == 11
        && BlockReqType::WriteZeroes.number() == 13);
}

/// The request for a block names that block as its sector.
pub proof fn request_names_its_block(type_: BlockReqType, block_id: usize, res: BlockReq)
    requires
        call_ensures(BlockReq::new, (type_, block_id), res),
    ensures
        res.type_ == type_,
        res.reserved == 0,
        res.sector == block_id,
{
}

/// A status is a success if and only if it is 0; every other is an error. The
/// statuses have the numbers 0 to 3 in the order success, error, unsupported, not
/// ready, and a response starts out as not ready.
pub proof fn only_status_zero_is_success(
    status: u8,
    res: Result<(), VirtIOError>,
    known: BlockRespStatus,
    code: u8,
    fresh: BlockResp,
)
    requires
        call_ensures(check_status, (status,), res),
        call_ensures(BlockRespStatus::code, (known,), code),
        call_ensures(<BlockResp as Default>::default, (), fresh),
    ensures
        fresh.status is NotReady,
        status == 0 ==> res == Ok::<(), VirtIOError>(()),
        status != 0 ==> res == Err::<(), VirtIOError>(VirtIOError::IOError),
        known is Success <==> code == 0,
        known is IoErr <==> code == 1,
        known is Unsupported <==> code == 2,
        known is NotReady <==> code == 3,
{
}

/// A request and its response are written where they are to be found, and the
/// device is given their addresses and their sizes of 16 bytes and 1 byte.
pub proof fn placed_request_is_in_its_memory(
    slot: RequestSlot<'_>,
    req: BlockReq,
    resp: BlockResp,
    res: (Buffer, Buffer),
    type_code: u32,
    status_code: u8,
)
    requires
        call_ensures(RequestSlot::place, (slot, req, resp), res),
        call_ensures(BlockReqType::code, (req.type_,), type_code),
        call_ensures(BlockRespStatus::code, (resp.status,), status_code),
    ensures
        *final(slot.type_) == type_code,
        *final(slot.reserved) == req.reserved,
        *final(slot.sector) == req.sector,
        *final(slot.status) == status_code,
        res.0.paddr == slot.req_paddr,
        res.0.len == 16,
        res.1.paddr == slot.resp_paddr,
        res.1.len == 1,
{
}

/// A finished request is told by its type and its sector: type 0 read that block,
/// type 1 wrote it, any other did something else.
pub proof fn finished_request_is_told_by_type_and_sector(
    type_: u32,
    sector: u64,
    res: InterruptRet,
    handler: &mut InterruptHandler,
    res_handler: InterruptRet,
)
    requires
        call_ensures(interrupt_ret, (type_, sector), res),
        call_ensures(InterruptHandler::request, (handler, type_, sector), res_handler),
    ensures
        res_handler == res,
        final(handler).stage is Ended,
        type_ == 0 <==> res is Read,
        type_ == 1 <==> res is Write,
        type_ > 1 <==> res is Other,
        sector <= usize::MAX ==> (res matches InterruptRet::Read(block) ==> block == sector) && (
        res matches InterruptRet::Write(block) ==> block == sector),
{
}

/// A block device's queue is the device's first, has sixteen descriptors, and all
/// of them are free and linked in the order of the table.
pub proof fn new_device_has_all_descriptors_free<H>(
    memory: QueueMemory<'_>,
    queue: VirtQueue<'_>,
    header: H,
    capacity: usize,
    res: VirtIOBlock<'_, H>,
    sectors: usize,
)
    requires
        call_ensures(link_block_queue, (memory,), queue),
        call_ensures(VirtIOBlock::<H>::new, (header, queue, capacity), res),
        call_ensures(VirtIOBlock::<H>::capacity, (&res,), sectors),
        memory.descriptors@.len() == 16,
    ensures
        res.queue().queue_index == 0,
        res.queue().queue_size == 16,
        res.queue().used_num == 0,
        res.queue().free_head == 0,
        res.queue().avail_index == 0,
        res.queue().last_used == 0,
        res.queue().table.len() == 16,
        forall|j: int| 0 <= j < 15 ==> (#[trigger] res.queue().table[j]).next == j + 1,
        res.queue().used.idx == memory.used.idx@,
        res.registers() == header,
        sectors == capacity,
{
}

/// A device takes a request if and only if three descriptors are free, the free
/// list leads to them within the table, and the ring has an entry.
pub proof fn device_takes_what_fits<H>(block: &VirtIOBlock<'_, H>, way: Seq<u16>, res: bool)
    requires
        call_ensures(VirtIOBlock::<H>::accepts_request, (block,), res),
        block.queue().queue_size > 0,
        is_way(block.queue().table, way),
        way.len() == 4,
        way[0] == block.queue().free_head,
    ensures
        res <==> {
            &&& block.queue().used_num + 3 <= block.queue().queue_size
            &&& way[0] < block.queue().table.len()
            &&& way[1] < block.queue().table.len()
            &&& way[2] < block.queue().table.len()
            &&& block.queue().avail_index as int % (block.queue().queue_size as int)
                < block.queue().avail_ring.len()
        },
{
    let q = block.queue();
    lemma_way_is_hops(q.table, way, 0);
    lemma_way_is_hops(q.table, way, 1);
    lemma_way_is_hops(q.table, way, 2);
    assert forall|k: nat| k < 3 && way[0] < q.table.len() && way[1] < q.table.len() && way[2]
        < q.table.len() implies (#[trigger] hop(q.table, q.free_head, k))
        < q.table.len() by {
        assert(k == 0 || k == 1 || k == 2);
    }
    if res {
        assert(hop(q.table, q.free_head, 0) < q.table.len());
        assert(hop(q.table, q.free_head, 1) < q.table.len());
        assert(hop(q.table, q.free_head, 2) < q.table.len());
    }
}

/// `post` is `pre` with one request offered along `way`, the front of the free
/// list: 16 bytes at `req` for the device to read, the block, which the device
/// writes or reads, and one byte at `resp` for it to write. The request is named
/// at the current available position, and all else is as it was.
pub open spec fn block_request_offered(
    pre: QueueModel,
    post: QueueModel,
    way: Seq<u16>,
    req: u64,
    block: Buffer,
    resp: u64,
    device_writes: bool,
) -> bool {
    let at = pre.avail_index as int % pre.queue_size as int;
    let d0 = post.table[way[0] as int];
    let d1 = post.table[way[1] as int];
    let d2 = post.table[way[2] as int];
    &&& d0.paddr == req && d0.len == 16 && d0.flags.bits == 1
    &&& d1.paddr == block.paddr && d1.len == block.len && d1.flags.bits == if device_writes {
        3int
    } else {
        1
    }
    &&& d2.paddr == resp && d2.len == 1 && d2.flags.bits == 2
    &&& post.table.len() == pre.table.len()
    &&& forall|j: int|
        0 <= j < pre.table.len() ==> (#[trigger] post.table[j]).next == pre.table[j].next
    &&& forall|j: int|
        0 <= j < pre.table.len() && j != way[0] && j != way[1] && j != way[2]
            ==> #[trigger] post.table[j] == pre.table[j]
    &&& post.free_head == way[3]
    &&& post.used_num == pre.used_num + 3
    &&& post.avail_ring.len() == pre.avail_ring.len()
    &&& post.avail_ring[at] == way[0]
    &&& forall|j: int|
        0 <= j < pre.avail_ring.len() && j != at ==> #[trigger] post.avail_ring[j]
            == pre.avail_ring[j]
    &&& post.avail_idx as int == (pre.avail_index + 1) % 0x1_0000
    &&& post.avail_index == post.avail_idx
    &&& post.used == pre.used
    &&& post.last_used == pre.last_used
    &&& post.queue_index == pre.queue_index
    &&& post.queue_size == pre.queue_size
}

/// `way` leads along the front of the free list of `q` to three different
/// descriptors of the table and on, there is room for them, and the available ring
/// has an entry for their chain.
pub open spec fn leads_to_three_free(q: QueueModel, way: Seq<u16>) -> bool {
    &&& is_way(q.table, way)
    &&& way.len() == 4
    &&& way[0] == q.free_head
    &&& way[0] != way[1] && way[1] != way[2] && way[0] != way[2]
    &&& way[0] < q.table.len() && way[1] < q.table.len() && way[2] < q.table.len()
    &&& q.used_num + 3 <= q.queue_size
    &&& q.avail_index as int % (q.queue_size as int) < q.avail_ring.len()
}

proof fn lemma_submitted_is_offered(
    q: QueueModel,
    way: Seq<u16>,
    type_: BlockReqType,
    req: Buffer,
    block: Buffer,
    resp: Buffer,
)
    requires
        leads_to_three_free(q, way),
        req.len == 16,
        block.len == 512,
        resp.len == 1,
    ensures
        block_request_offered(
            q,
            after_submit(q, type_, req, block, resp),
            way,
            req.paddr,
            block,
            resp.paddr,
            !(type_ is Out),
        ),
{
    let post = after_submit(q, type_, req, block, resp);
    vstd::arithmetic::div_mod::lemma_mod_bound(q.avail_index as int, q.queue_size as int);
    lemma_way_is_hops(q.table, way, 0);
    lemma_way_is_hops(q.table, way, 1);
    lemma_way_is_hops(q.table, way, 2);
    lemma_way_is_hops(q.table, way, 3);
    reveal_with_fuel(last_visit, 4);
    assert forall|j: int| 0 <= j < q.table.len() implies last_visit(q.table, q.free_head, 3, j) == (
    if j == way[2] {
        2int
    } else if j == way[1] {
        1
    } else if j == way[0] {
        0
    } else {
        -1
    }) by {}
}

/// Reading a block asks the device for that block, and for one only: the request
/// of type 0 names it, its response is not ready, and the device is handed the
/// request, the buffer to fill, and the response. The first queue is to be
/// notified, and the request goes by the first descriptor of its chain.
pub proof fn async_read_asks_for_its_block<H>(
    block: &mut VirtIOBlock<'_, H>,
    block_id: usize,
    buf: Buffer,
    slot: RequestSlot<'_>,
    res: Submitted<BlockFuture>,
    way: Seq<u16>,
)
    requires
        call_ensures(VirtIOBlock::<H>::async_read, (block, block_id, buf, slot), res),
        buf.len == 512,
        leads_to_three_free(old(block).queue(), way),
    ensures
        block_request_offered(
            old(block).queue(),
            final(block).queue(),
            way,
            slot.req_paddr,
            buf,
            slot.resp_paddr,
            true,
        ),
        *final(slot.type_) == 0,
        *final(slot.reserved) == 0,
        *final(slot.sector) == block_id,
        *final(slot.status) == 3,
        res.future.req_type == 0,
        res.future.token == way[0],
        res.notify == 0,
        final(block).registers() == old(block).registers(),
        final(block).sectors() == old(block).sectors(),
{
    lemma_submitted_is_offered(
        old(block).queue(),
        way,
        BlockReqType::In,
        slot.req_buffer(),
        buf,
        slot.resp_buffer(),
    );
}

/// Writing a block asks the device for that block, and for one only: the request
/// of type 1 names it, its response is not ready, and the device is handed the
/// request, the buffer to read, and the response. The first queue is to be
/// notified, and the request goes by the first descriptor of its chain.
pub proof fn async_write_asks_for_its_block<H>(
    block: &mut VirtIOBlock<'_, H>,
    block_id: usize,
    buf: Buffer,
    slot: RequestSlot<'_>,
    res: Submitted<BlockFuture>,
    way: Seq<u16>,
)
    requires
        call_ensures(VirtIOBlock::<H>::async_write, (block, block_id, buf, slot), res),
        buf.len == 512,
        leads_to_three_free(old(block).queue(), way),
    ensures
        block_request_offered(
            old(block).queue(),
            final(block).queue(),
            way,
            slot.req_paddr,
            buf,
            slot.resp_paddr,
            false,
        ),
        *final(slot.type_) == 1,
        *final(slot.reserved) == 0,
        *final(slot.sector) == block_id,
        *final(slot.status) == 3,
        res.future.req_type == 1,
        res.future.token == way[0],
        res.notify == 0,
        final(block).registers() == old(block).registers(),
        final(block).sectors() == old(block).sectors(),
{
    lemma_submitted_is_offered(
        old(block).queue(),
        way,
        BlockReqType::Out,
        slot.req_buffer(),
        buf,
        slot.resp_buffer(),
    );
}

/// Reading a block and waiting for it asks the device for the same as reading it
/// does.
pub proof fn read_block_asks_for_its_block<H>(
    block: &mut VirtIOBlock<'_, H>,
    block_id: usize,
    buf: Buffer,
    slot: RequestSlot<'_>,
    res: Submitted<BlockWait>,
    way: Seq<u16>,
)
    requires
        call_ensures(VirtIOBlock::<H>::read_block, (block, block_id, buf, slot), res),
        buf.len == 512,
        leads_to_three_free(old(block).queue(), way),
    ensures
        block_request_offered(
            old(block).queue(),
            final(block).queue(),
            way,
            slot.req_paddr,
            buf,
            slot.resp_paddr,
            true,
        ),
        *final(slot.type_) == 0,
        *final(slot.reserved) == 0,
        *final(slot.sector) == block_id,
        *final(slot.status) == 3,
        res.future.stage is Waiting,
        res.notify == 0,
        final(block).registers() == old(block).registers(),
        final(block).sectors() == old(block).sectors(),
{
    lemma_submitted_is_offered(
        old(block).queue(),
        way,
        BlockReqType::In,
        slot.req_buffer(),
        buf,
        slot.resp_buffer(),
    );
}

/// Writing a block and waiting for it asks the device for the same as writing it
/// does.
pub proof fn write_block_asks_for_its_block<H>(
    block: &mut VirtIOBlock<'_, H>,
    block_id: usize,
    buf: Buffer,
    slot: RequestSlot<'_>,
    res: Submitted<BlockWait>,
    way: Seq<u16>,
)
    requires
        call_ensures(VirtIOBlock::<H>::write_block, (block, block_id, buf, slot), res),
        buf.len == 512,
        leads_to_three_free(old(block).queue(), way),
    ensures
        block_request_offered(
            old(block).queue(),
            final(block).queue(),
            way,
            slot.req_paddr,
            buf,
            slot.resp_paddr,
            false,
        ),
        *final(slot.type_) == 1,
        *final(slot.reserved) == 0,
        *final(slot.sector) == block_id,
        *final(slot.status) == 3,
        res.future.stage is Waiting,
        res.notify == 0,
        final(block).registers() == old(block).registers(),
        final(block).sectors() == old(block).sectors(),
{
    lemma_submitted_is_offered(
        old(block).queue(),
        way,
        BlockReqType::Out,
        slot.req_buffer(),
        buf,
        slot.resp_buffer(),
    );
}

/// A block is 512 bytes: with a buffer of as many, and room for the request, each
/// of the four ways to ask for a block can be taken.
pub proof fn buffer_of_one_block_can_be_handed_over<H>(
    block: &mut VirtIOBlock<'_, H>,
    block_id: usize,
    buf: Buffer,
    slot: RequestSlot<'_>,
)
    requires
        old(block).inv(),
        call_ensures(VirtIOBlock::<H>::accepts_request, (&*old(block),), true),
        buf.len == 512,
    ensures
        call_requires(VirtIOBlock::<H>::async_read, (block, block_id, buf, slot)),
        call_requires(VirtIOBlock::<H>::async_write, (block, block_id, buf, slot)),
        call_requires(VirtIOBlock::<H>::read_block, (block, block_id, buf, slot)),
        call_requires(VirtIOBlock::<H>::write_block, (block, block_id, buf, slot)),
{
}

/// The device showed an entry that was not taken yet.
pub open spec fn entry_was_shown(q: QueueModel) -> bool {
    exists|shown: u16| #[trigger] seen_u16(q.used.idx, shown) && shown != q.last_used
}

/// The device showed an entry, the next one said `head` in its lower 16 bits, and
/// the chain from there came back whole.
pub open spec fn entry_was_taken(pre: QueueModel, post: QueueModel, head: u16) -> bool {
    let at = pre.last_used as int % pre.queue_size as int;
    &&& entry_was_shown(pre)
    &&& at < pre.used.ring.len()
    &&& exists|id: u32| #[trigger]
        seen_u32(pre.used.ring[at].id, id) && head as int == id as int % 0x1_0000
    &&& exists|way: Seq<u16>| #[trigger]
        is_whole_chain(pre.table, way) && way[0] == head && way.len() <= pre.used_num
            && chain_came_back(pre, post, way)
}

/// The device showed an entry, and the next one lies outside the ring or names
/// what is no whole chain of as many descriptors as are in use.
pub open spec fn entry_was_bad(q: QueueModel) -> bool {
    let at = q.last_used as int % q.queue_size as int;
    &&& entry_was_shown(q)
    &&& at < q.used.ring.len() ==> exists|id: u32| #[trigger]
        seen_u32(q.used.ring[at].id, id) && !has_whole_chain(
            q.table,
            id as u16,
            q.used_num as int,
        )
}

proof fn lemma_pop_outcome_is_told(
    pre: QueueModel,
    post: QueueModel,
    popped: Option<Result<(u16, u32), VirtIOError>>,
)
    requires
        pop_outcome(pre, post, popped),
        pre.queue_size > 0,
    ensures
        popped matches Some(Ok((head, _))) ==> entry_was_taken(pre, post, head),
        popped matches Some(Err(e)) ==> e == VirtIOError::UsedRingNotReady && seen_u16(
            pre.used.idx,
            pre.last_used,
        ) && post == pre,
        popped is None ==> entry_was_bad(pre) && post == pre,
{
    let (shown, id, len) = choose|shown: u16, id: u32, len: u32| #[trigger]
        device_says(pre, shown, id, len) && (post, popped) == pop_result(pre, shown, id, len);
    lemma_low_16(id);
    lemma_chain_len_is_whole_chain(pre.table, id as u16, pre.used_num as nat);
    if popped matches Some(Ok(_)) {
        let way = lemma_len_has_whole_chain(pre.table, id as u16, pre.used_num as nat);
        lemma_pop_brings_chain_back(pre, way);
        assert(is_whole_chain(pre.table, way) && chain_came_back(pre, post, way));
    }
}

/// What polling says, the device has shown. It is pending only if the device
/// shows the position up to which entries were taken, and then nothing changes.
/// The status is to be read only once the request's own chain came back, and the
/// request is over with success only once another chain did.
pub proof fn poll_says_what_the_device_shows<H>(
    future: &BlockFuture,
    block: &mut VirtIOBlock<'_, H>,
    res: PollStep,
)
    requires
        call_ensures(BlockFuture::poll::<H>, (future, block), res),
        old(block).queue().queue_size > 0,
    ensures
        ({
            let pre = old(block).queue();
            let post = final(block).queue();
            match res {
                PollStep::Pending => seen_u16(pre.used.idx, pre.last_used) && post == pre,
                PollStep::ReadStatus => entry_was_taken(pre, post, future.token),
                PollStep::Ready(Ok(())) => exists|head: u16|
                    head != future.token && #[trigger] entry_was_taken(pre, post, head),
                PollStep::Ready(Err(e)) => e == VirtIOError::UsedRingNotReady && seen_u16(
                    pre.used.idx,
                    pre.last_used,
                ) && entry_was_shown(pre) && post == pre,
                PollStep::BadChain => entry_was_bad(pre) && post == pre,
            }
        }),
        final(block).registers() == old(block).registers(),
        final(block).sectors() == old(block).sectors(),
{
    let pre = old(block).queue();
    let post = final(block).queue();
    let polled = choose|polled: Polled| #[trigger]
        poll_outcome(pre, post, polled) && res == step_of(future.token, polled);
    if let Polled::Popped(popped) = polled {
        lemma_pop_outcome_is_told(pre, post, popped);
    }
}

/// A device that has answered is heard: if it shows another position than the one
/// up to which entries were taken, whatever that is, polling is not pending. And
/// one that has not answered is waited for: polling is pending, and nothing
/// changes.
pub proof fn poll_hears_the_device<H>(
    future: &BlockFuture,
    block: &mut VirtIOBlock<'_, H>,
    res: PollStep,
)
    requires
        call_ensures(BlockFuture::poll::<H>, (future, block), res),
        old(block).queue().queue_size > 0,
    ensures
        !seen_u16(old(block).queue().used.idx, old(block).queue().last_used) ==> res is ReadStatus
            || res is BadChain || res == PollStep::Ready(Ok(())),
        !entry_was_shown(old(block).queue()) ==> res is Pending && final(block).queue() == old(
            block,
        ).queue(),
{
    poll_says_what_the_device_shows(future, block, res);
}

/// For every request: nothing in the used ring is pending, its own chain calls for
/// the status, and no success comes of anything but a chain that came back.
pub proof fn step_is_ready_only_for_a_chain(future: &BlockFuture, polled: Polled, res: PollStep)
    requires
        call_ensures(BlockFuture::step, (future, polled), res),
    ensures
        polled is Nothing <==> res is Pending,
        polled == Polled::Popped(None) <==> res is BadChain,
        polled matches Polled::Popped(Some(Err(e))) ==> res == PollStep::Ready(Err(e)),
        res matches PollStep::Ready(Err(e)) ==> polled == Polled::Popped(Some(Err(e))),
        polled matches Polled::Popped(Some(Ok((head, _)))) ==> (head == future.token
            <==> res is ReadStatus) && (head != future.token <==> res == PollStep::Ready(Ok(()))),
        res is ReadStatus || res == PollStep::Ready(Ok(())) ==> polled matches Polled::Popped(
            Some(Ok(_)),
        ),
{
}

/// A request succeeds if and only if the device wrote the status 0.
pub proof fn finish_succeeds_for_status_zero(
    future: &BlockFuture,
    wait: &mut BlockWait,
    status: u8,
    res: Result<(), VirtIOError>,
    waited: Result<(), VirtIOError>,
)
    requires
        call_ensures(BlockFuture::finish, (future, status), res),
        call_ensures(BlockWait::finish, (wait, status), waited),
    ensures
        status == 0 ==> res == Ok::<(), VirtIOError>(()),
        status != 0 ==> res == Err::<(), VirtIOError>(VirtIOError::IOError),
        waited == res,
        final(wait).stage is Ended,
{
}

/// What looking says to a caller that waits, the device has shown: it is to look
/// again only if the device shows the position up to which entries were taken, the
/// status is to be read only once a chain came back, and looking alone is never a
/// success.
pub proof fn look_says_what_the_device_shows<H>(
    wait: &mut BlockWait,
    block: &mut VirtIOBlock<'_, H>,
    res: WaitStep,
)
    requires
        call_ensures(BlockWait::look::<H>, (wait, block), res),
        old(block).queue().queue_size > 0,
    ensures
        ({
            let pre = old(block).queue();
            let post = final(block).queue();
            match res {
                WaitStep::Again => {
                    &&& seen_u16(pre.used.idx, pre.last_used)
                    &&& post == pre
                    &&& final(wait).stage is Waiting
                },
                WaitStep::ReadStatus => {
                    &&& exists|head: u16| #[trigger] entry_was_taken(pre, post, head)
                    &&& final(wait).stage is Answered
                },
                WaitStep::Done(done) => {
                    &&& done == Err::<(), VirtIOError>(VirtIOError::UsedRingNotReady)
                    &&& seen_u16(pre.used.idx, pre.last_used)
                    &&& entry_was_shown(pre)
                    &&& post == pre
                    &&& final(wait).stage is Ended
                },
                WaitStep::BadChain => {
                    &&& entry_was_bad(pre)
                    &&& post == pre
                    &&& final(wait).stage is Ended
                },
            }
        }),
        final(block).registers() == old(block).registers(),
        final(block).sectors() == old(block).sectors(),
{
    let pre = old(block).queue();
    let post = final(block).queue();
    let polled = choose|polled: Polled| #[trigger]
        poll_outcome(pre, post, polled) && res == wait_step_of(polled);
    if let Polled::Popped(popped) = polled {
        lemma_pop_outcome_is_told(pre, post, popped);
    }
}

/// A caller that waits does not wait for ever: if the device shows another
/// position than the one up to which entries were taken, whatever that is, the
/// next look ends the waiting. And as long as it shows no entry, the caller looks
/// again.
pub proof fn look_hears_the_device<H>(
    wait: &mut BlockWait,
    block: &mut VirtIOBlock<'_, H>,
    res: WaitStep,
)
    requires
        call_ensures(BlockWait::look::<H>, (wait, block), res),
        old(block).queue().queue_size > 0,
    ensures
        !seen_u16(old(block).queue().used.idx, old(block).queue().last_used) ==> res is ReadStatus
            || res is BadChain,
        !entry_was_shown(old(block).queue()) ==> res is Again && final(block).queue() == old(
            block,
        ).queue(),
{
    look_says_what_the_device_shows(wait, block, res);
}

/// A caller that waits is told for each thing that looking comes to: look again
/// for nothing, read the status for a chain, whichever it is, and stop otherwise.
pub proof fn waiting_ends_only_for_an_entry(wait: &mut BlockWait, polled: Polled, res: WaitStep)
    requires
        call_ensures(BlockWait::step, (wait, polled), res),
    ensures
        match polled {
            Polled::Nothing => res is Again && final(wait).stage is Waiting,
            Polled::Popped(None) => res is BadChain && final(wait).stage is Ended,
            Polled::Popped(Some(Err(e))) => res == WaitStep::Done(Err(e))
                && final(wait).stage is Ended,
            Polled::Popped(Some(Ok(_))) => res is ReadStatus && final(wait).stage is Answered,
        },
{
}

/// An interrupt is acknowledged only if the device shows an entry that was not
/// taken yet, and is an error only if it shows none.
pub proof fn interrupt_is_taken_up_for_an_entry<H>(
    block: &VirtIOBlock<'_, H>,
    res: (InterruptHandler, InterruptStep),
    answered: bool,
    entered: (InterruptHandler, InterruptStep),
)
    requires
        call_ensures(VirtIOBlock::<H>::handle_interrupt, (block,), res),
        call_ensures(InterruptHandler::enter, (answered,), entered),
    ensures
        match res.1 {
            InterruptStep::Acknowledge => entry_was_shown(block.queue())
                && res.0.stage is Entered,
            InterruptStep::Fail(e) => e == VirtIOError::IOError && seen_u16(
                block.queue().used.idx,
                block.queue().last_used,
            ) && res.0.stage is Ended,
            _ => false,
        },
        answered ==> entered.1 is Acknowledge && entered.0.stage is Entered,
        !answered ==> entered.1 == InterruptStep::Fail(VirtIOError::IOError)
            && entered.0.stage is Ended,
{
}

/// The interrupt is about the oldest entry that was not taken yet, the one that
/// will be taken next: the request that is read is where the descriptor points
/// that the identifier cell of entry number `last_used` modulo the queue's size
/// names, however many entries the device shows.
pub proof fn interrupt_is_about_the_next_entry<H>(
    handler: &mut InterruptHandler,
    block: &VirtIOBlock<'_, H>,
    res: InterruptStep,
)
    requires
        call_ensures(InterruptHandler::acknowledged::<H>, (handler, block), res),
        block.queue().queue_size > 0,
    ensures
        ({
            let q = block.queue();
            let at = q.last_used as int % q.queue_size as int;
            match res {
                InterruptStep::Acknowledge => false,
                InterruptStep::ReadRequest(paddr) => {
                    &&& entry_was_shown(q)
                    &&& at < q.used.ring.len()
                    &&& exists|id: u32| #[trigger]
                        seen_u32(q.used.ring[at].id, id) && id as int % 0x1_0000 < q.table.len()
                            && paddr == q.table[id as int % 0x1_0000].paddr
                    &&& final(handler).stage is Located
                },
                InterruptStep::Fail(e) => {
                    &&& e == VirtIOError::UsedRingNotReady
                    &&& seen_u16(q.used.idx, q.last_used)
                    &&& final(handler).stage is Ended
                },
                InterruptStep::BadChain => {
                    &&& entry_was_shown(q)
                    &&& at < q.used.ring.len() ==> exists|id: u32| #[trigger]
                        seen_u32(q.used.ring[at].id, id) && id as int % 0x1_0000 >= q.table.len()
                    &&& final(handler).stage is Ended
                },
            }
        }),
{
    let q = block.queue();
    let next = choose|next: Option<Result<(u16, u32), VirtIOError>>| #[trigger]
        next_outcome(q, next) && res == locate_step_of(q, next);
    let (shown, id, len) = choose|shown: u16, id: u32, len: u32| #[trigger]
        device_says(q, shown, id, len) && next == look_result(q, shown, id, len);
    lemma_low_16(id);
}

/// The request of an entry is where the descriptor points that the entry names.
pub proof fn located_request_is_where_its_descriptor_points(
    handler: &mut InterruptHandler,
    queue: &VirtQueue<'_>,
    next: Option<Result<(u16, u32), VirtIOError>>,
    res: InterruptStep,
)
    requires
        call_ensures(InterruptHandler::locate, (handler, queue, next), res),
    ensures
        match next {
            Some(Ok((head, _))) => if head < queue@.table.len() {
                res == InterruptStep::ReadRequest(queue@.table[head as int].paddr)
                    && final(handler).stage is Located
            } else {
                res is BadChain && final(handler).stage is Ended
            },
            Some(Err(e)) => res == InterruptStep::Fail(e) && final(handler).stage is Ended,
            None => res is BadChain && final(handler).stage is Ended,
        },
{
}

/// An interrupt for a block that was read finds the request for that block: once
/// the next entry names the chain that the read was given, and until it is taken,
/// the request is read where it was placed, and what is read there tells the
/// block.
pub proof fn interrupt_finds_the_block_that_was_read<H>(
    block: &mut VirtIOBlock<'_, H>,
    block_id: usize,
    buf: Buffer,
    slot: RequestSlot<'_>,
    submitted: Submitted<BlockFuture>,
    way: Seq<u16>,
    handler: &mut InterruptHandler,
    later: &VirtIOBlock<'_, H>,
    step: InterruptStep,
    ending: &mut InterruptHandler,
    ret: InterruptRet,
)
    requires
        call_ensures(VirtIOBlock::<H>::async_read, (block, block_id, buf, slot), submitted),
        buf.len == 512,
        leads_to_three_free(old(block).queue(), way),
        later.queue() == final(block).queue(),
        later.queue().queue_size > 0,
        call_ensures(InterruptHandler::acknowledged::<H>, (handler, later), step),
        ({
            let q = later.queue();
            let at = q.last_used as int % q.queue_size as int;
            &&& !seen_u16(q.used.idx, q.last_used)
            &&& at < q.used.ring.len()
            &&& forall|id: u32| #[trigger]
                seen_u32(q.used.ring[at].id, id) ==> id == submitted.future.token
        }),
        call_ensures(
            InterruptHandler::request,
            (ending, *final(slot.type_), *final(slot.sector)),
            ret,
        ),
    ensures
        step == InterruptStep::ReadRequest(slot.req_paddr),
        ret == InterruptRet::Read(block_id),
{
    async_read_asks_for_its_block(block, block_id, buf, slot, submitted, way);
    interrupt_is_about_the_next_entry(handler, later, step);
}

/// The registers and the queue that a device is made of are handed out together,
/// and what becomes of them becomes of the device.
pub proof fn parts_of_a_device_are_its_own<'virtio, H>(
    block: &VirtIOBlock<'virtio, H>,
    shown: &VirtIOBlockInner<'virtio, H>,
    both: (&H, &VirtQueue<'virtio>),
    changed: &mut VirtIOBlock<'virtio, H>,
    parts: &mut VirtIOBlockInner<'virtio, H>,
    pair: (&mut H, &mut VirtQueue<'virtio>),
)
    requires
        call_ensures(VirtIOBlock::<'virtio, H>::inner, (block,), shown),
        call_ensures(VirtIOBlockInner::<'virtio, H>::header_and_queue, (shown,), both),
        call_ensures(VirtIOBlock::<'virtio, H>::inner_mut, (changed,), parts),
        call_ensures(VirtIOBlockInner::<'virtio, H>::header_and_queue_mut, (parts,), pair),
    ensures
        *both.0 == block.registers(),
        both.1@ == block.queue(),
        old(parts).header == old(changed).registers(),
        old(parts).queue@ == old(changed).queue(),
        final(changed).registers() == final(parts).header,
        final(changed).queue() == final(parts).queue@,
        *old(pair.0) == old(changed).registers(),
        old(pair.1)@ == old(changed).queue(),
        final(changed).registers() == *final(pair.0),
        final(changed).queue() == final(pair.1)@,
        final(changed).sectors() == old(changed).sectors(),
{
}

} // verus!
