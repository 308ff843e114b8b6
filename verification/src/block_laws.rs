//! What holds of block requests: the device is asked for the right block, the
//! interrupt names it, and its descriptors come back.
use crate::block::{
    after_submit, is_unused_block_queue, locate_step_of, request_inputs, request_outputs, step_of,
    wait_step_of, InterruptStep, PollStep, Polled, WaitStep, REQUEST_DESCRIPTORS,
};
use crate::config::VIRT_QUEUE_SIZE;
use crate::descriptor::Buffer;
use crate::laws::{
    adding_keeps_queue_linked, device_sees_request, free_list, honest_device_is_served, linked,
    popping_undoes_adding, request_is_described, short_queue_stays_in_rings,
};
use crate::model::{
    addable, after_pop, device_view, has_room, recyclable, QueueModel, Segment,
};
use crate::queue::{next_result, pop_result};
use crate::request::{ret_of, status_result, BlockReqType, BlockRespStatus, InterruptRet};
use crate::VirtIOError;
use vstd::prelude::*;

verus! {

/// A linked queue with three free descriptors, no longer than the rings, has room
/// for a block request: submitting it cannot fail.
pub proof fn free_descriptors_are_room(q: QueueModel, live: Set<u16>)
    requires
        linked(q, live),
        q.queue_size <= VIRT_QUEUE_SIZE,
        has_room(q, REQUEST_DESCRIPTORS as int),
    ensures
        addable(q, REQUEST_DESCRIPTORS as nat),
{
    short_queue_stays_in_rings(q, q.avail_index);
    let buffers = Seq::new(
        REQUEST_DESCRIPTORS as nat,
        |k: int| Buffer { paddr: 0, len: 0 },
    );
    adding_keeps_queue_linked(q, live, buffers, Seq::empty());
}

/// The device is asked for exactly one block: it reads the request, then reads
/// the block (to write it to the disk) or writes it (as read from the disk), and
/// writes the response.
pub proof fn device_sees_block_request(
    q: QueueModel,
    live: Set<u16>,
    type_: BlockReqType,
    req: Buffer,
    buf: Buffer,
    resp: Buffer,
)
    requires
        linked(q, live),
        q.queue_size <= VIRT_QUEUE_SIZE,
        has_room(q, REQUEST_DESCRIPTORS as int),
    ensures
        device_view(after_submit(q, type_, req, buf, resp).table, q.free_head) == Some(
            seq![
                Segment { paddr: req.paddr, len: req.len as u32, write: false },
                Segment { paddr: buf.paddr, len: buf.len as u32, write: !(type_ is Out) },
                Segment { paddr: resp.paddr, len: resp.len as u32, write: true },
            ],
        ),
{
    short_queue_stays_in_rings(q, q.avail_index);
    let inputs = request_inputs(type_, req, buf);
    let outputs = request_outputs(type_, buf, resp);
    device_sees_request(q, live, inputs, outputs);
    assert(crate::model::request_view(inputs, outputs) =~= seq![
        Segment { paddr: req.paddr, len: req.len as u32, write: false },
        Segment { paddr: buf.paddr, len: buf.len as u32, write: !(type_ is Out) },
        Segment { paddr: resp.paddr, len: resp.len as u32, write: true },
    ]);
}

/// The interrupt handler finds the request of the chain that the device gives
/// back: where the chain is that of a request just submitted, it reads the
/// request at the address at which it was placed.
pub proof fn interrupt_finds_request(
    q: QueueModel,
    live: Set<u16>,
    type_: BlockReqType,
    req: Buffer,
    buf: Buffer,
    resp: Buffer,
    used_idx: u16,
    len: u32,
)
    requires
        linked(q, live),
        has_room(q, REQUEST_DESCRIPTORS as int),
        q.last_used != used_idx,
    ensures
        ({
            let post = after_submit(q, type_, req, buf, resp);
            locate_step_of(post, Some(next_result(post, used_idx, q.free_head as u32, len)))
                == InterruptStep::ReadRequest(req.paddr)
        }),
{
    let inputs = request_inputs(type_, req, buf);
    let outputs = request_outputs(type_, buf, resp);
    request_is_described(q, live, inputs, outputs);
    let head = q.free_head;
    assert(free_list(q)[0] == head);
    assert((head as u32) as u16 == head);
}

/// For any chain that the device may give back, the interrupt handler reads the
/// request where the device was told that it is: at the chain's first buffer. A
/// chain in flight tells the device the same as long as it is in flight, so this
/// holds however many requests come and go meanwhile.
pub proof fn interrupt_reads_first_buffer(q: QueueModel, head: u16, len: u32)
    requires
        device_view(q.table, head) is Some,
    ensures
        locate_step_of(q, Some(Ok((head, len)))) == InterruptStep::ReadRequest(
            (device_view(q.table, head)->0)[0].paddr,
        ),
{
    crate::model::lemma_chain_len_bounds(q.table, head, q.table.len());
    assert(crate::model::hop(q.table, head, 0) == head);
}

/// What the interrupt handler makes of a request to read or write a block is
/// that block, in full: the block's number survives its way through the request.
pub proof fn interrupt_names_block(block_id: usize)
    ensures
        ret_of(BlockReqType::In.number(), block_id as u64) == InterruptRet::Read(block_id),
        ret_of(BlockReqType::Out.number(), block_id as u64) == InterruptRet::Write(block_id),
{
}

/// A block request that comes back leaves the queue as free as it was before: its
/// three descriptors can be taken again, and the free list is the same.
pub proof fn finished_request_frees_descriptors(
    q: QueueModel,
    live: Set<u16>,
    type_: BlockReqType,
    req: Buffer,
    buf: Buffer,
    resp: Buffer,
)
    requires
        linked(q, live),
        q.queue_size <= VIRT_QUEUE_SIZE,
        has_room(q, REQUEST_DESCRIPTORS as int),
    ensures
        ({
            let asked = after_submit(q, type_, req, buf, resp);
            let post = after_pop(asked, q.free_head);
            &&& asked.used_num == q.used_num + REQUEST_DESCRIPTORS
            &&& recyclable(asked, q.free_head)
            &&& linked(post, live)
            &&& free_list(post) == free_list(q)
            &&& post.used_num == q.used_num
        }),
{
    short_queue_stays_in_rings(q, q.avail_index);
    let inputs = request_inputs(type_, req, buf);
    let outputs = request_outputs(type_, buf, resp);
    popping_undoes_adding(q, live, inputs, outputs);
    adding_keeps_queue_linked(q, live, inputs, outputs);
    assert(live.insert(q.free_head).contains(q.free_head));
    crate::laws::popping_keeps_queue_linked(
        after_submit(q, type_, req, buf, resp),
        live.insert(q.free_head),
        q.free_head,
    );
}

/// A device that keeps to the protocol, and gives back a chain in flight, ends the
/// request that looks for its end. Where the chain is the request's own, the
/// status that the device wrote decides: the request succeeds for the number of
/// success and fails with `IOError` for every other. The queue stays linked
/// without the chain.
pub proof fn honest_device_ends_request(
    q: QueueModel,
    live: Set<u16>,
    token: u16,
    used_idx: u16,
    id: u32,
    len: u32,
    status: u8,
)
    requires
        linked(q, live),
        q.queue_size <= VIRT_QUEUE_SIZE,
        q.last_used != used_idx,
        live.contains(id as u16),
    ensures
        ({
            let (post, popped) = pop_result(q, used_idx, id, len);
            &&& step_of(token, Polled::Popped(popped)) == if id as u16 == token {
                PollStep::ReadStatus
            } else {
                PollStep::Ready(Ok(()))
            }
            &&& wait_step_of(Polled::Popped(popped)) == WaitStep::ReadStatus
            &&& linked(post, live.remove(id as u16))
        }),
        status_result(status) is Ok <==> status == BlockRespStatus::Success.number(),
        status_result(status) is Err ==> status_result(status)->Err_0 == VirtIOError::IOError,
{
    honest_device_is_served(q, live, used_idx, id, len);
}

/// The token of a request is its own for as long as it is in flight: no request
/// that is in flight beside it has the same one.
pub proof fn token_is_its_requests_own(
    q: QueueModel,
    live: Set<u16>,
    type_: BlockReqType,
    req: Buffer,
    buf: Buffer,
    resp: Buffer,
)
    requires
        linked(q, live),
        q.queue_size <= VIRT_QUEUE_SIZE,
        has_room(q, REQUEST_DESCRIPTORS as int),
    ensures
        !live.contains(q.free_head),
        linked(after_submit(q, type_, req, buf, resp), live.insert(q.free_head)),
{
    short_queue_stays_in_rings(q, q.avail_index);
    adding_keeps_queue_linked(
        q,
        live,
        request_inputs(type_, req, buf),
        request_outputs(type_, buf, resp),
    );
}

/// A device that was just brought up takes a request.
pub proof fn unused_device_takes_request(q: QueueModel)
    requires
        is_unused_block_queue(q),
    ensures
        has_room(q, REQUEST_DESCRIPTORS as int),
        addable(q, REQUEST_DESCRIPTORS as nat),
{
    free_descriptors_are_room(q, Set::empty());
}

} // verus!
