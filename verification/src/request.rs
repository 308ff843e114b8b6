//! Block requests: what the driver asks of the device, and what it answers.
use crate::descriptor::Buffer;
use crate::VirtIOError;
use vstd::prelude::*;

verus! {

/// Bytes that a request takes in memory: its type and a reserved field of four
/// bytes each, and the sector of eight.
pub const BLOCK_REQ_SIZE: usize = 16;

/// Bytes that a response takes in memory: the status.
pub const BLOCK_RESP_SIZE: usize = 1;

/// What is asked of a block device.
#[derive(Clone, Copy, Debug, PartialEq, Eq, Structural)]
pub enum BlockReqType {
    In,
    Out,
    Flush,
    Discard,
    WriteZeroes,
}

impl BlockReqType {
    /// The number that stands for the type.
    pub open spec fn number(self) -> u32 {
        match self {
            BlockReqType::In => 0,
            BlockReqType::Out => 1,
            BlockReqType::Flush => 4,
            BlockReqType::Discard => 11,
            BlockReqType::WriteZeroes => 13,
        }
    }

    /// The number that stands for the type.
    pub fn code(self) -> (res: u32)
        ensures
            res == self.number(),
    {
        match self {
            BlockReqType::In => 0,
            BlockReqType::Out => 1,
            BlockReqType::Flush => 4,
            BlockReqType::Discard => 11,
            BlockReqType::WriteZeroes => 13,
        }
    }

    /// The type that a number stands for, if any.
    pub fn from_code(code: u32) -> (res: Option<Self>)
        ensures
            res matches Some(t) ==> t.number() == code,
            res is None ==> forall|t: Self| #![trigger t.number()] t.number() != code,
    {
        match code {
            0 => Some(BlockReqType::In),
            1 => Some(BlockReqType::Out),
            4 => Some(BlockReqType::Flush),
            11 => Some(BlockReqType::Discard),
            13 => Some(BlockReqType::WriteZeroes),
            _ => None,
        }
    }
}

/// A request to a block device.
#[derive(Clone, Copy, Debug, PartialEq, Eq, Structural)]
pub struct BlockReq {
    pub type_: BlockReqType,
    pub reserved: u32,
    pub sector: u64,
}

impl BlockReq {
    /// The request for block `block_id`.
    pub fn new(type_: BlockReqType, block_id: usize) -> (res: Self)
        ensures
            res == (BlockReq { type_, reserved: 0, sector: block_id as u64 }),
    {
        BlockReq { type_, reserved: 0, sector: block_id as u64 }
    }
}

/// How a request went.
#[derive(Clone, Copy, Debug, PartialEq, Eq, Structural)]
pub enum BlockRespStatus {
    Success,
    IoErr,
    Unsupported,
    NotReady,
}

impl BlockRespStatus {
    /// The number that stands for the status.
    pub open spec fn number(self) -> u8 {
        match self {
            BlockRespStatus::Success => 0,
            BlockRespStatus::IoErr => 1,
            BlockRespStatus::Unsupported => 2,
            BlockRespStatus::NotReady => 3,
        }
    }

    /// The number that stands for the status.
    pub fn code(self) -> (res: u8)
        ensures
            res == self.number(),
    {
        match self {
            BlockRespStatus::Success => 0,
            BlockRespStatus::IoErr => 1,
            BlockRespStatus::Unsupported => 2,
            BlockRespStatus::NotReady => 3,
        }
    }
}

/// The response to a request.
#[derive(Clone, Copy, Debug, PartialEq, Eq, Structural)]
pub struct BlockResp {
    pub status: BlockRespStatus,
}

impl Default for BlockResp {
    /// The response before the device has answered.
    fn default() -> (res: Self)
        ensures
            res == (BlockResp { status: BlockRespStatus::NotReady }),
    {
        BlockResp { status: BlockRespStatus::NotReady }
    }
}

/// What a status says of its request: success has the number of
/// [`BlockRespStatus::Success`], all else is an error.
pub open spec fn status_result(status: u8) -> Result<(), VirtIOError> {
    if status == BlockRespStatus::Success.number() {
        Ok(())
    } else {
        Err(VirtIOError::IOError)
    }
}

/// What a status says of its request.
pub fn check_status(status: u8) -> (res: Result<(), VirtIOError>)
    ensures
        res == status_result(status),
{
    if status == BlockRespStatus::Success.code() {
        Ok(())
    } else {
        Err(VirtIOError::IOError)
    }
}

/// The memory of a request and of its response, field by field, and where the
/// device finds the two.
pub struct RequestSlot<'a> {
    pub type_: &'a mut u32,
    pub reserved: &'a mut u32,
    pub sector: &'a mut u64,
    pub status: &'a mut u8,
    pub req_paddr: u64,
    pub resp_paddr: u64,
}

impl<'a> RequestSlot<'a> {
    /// The request as a buffer.
    pub open spec fn req_buffer(self) -> Buffer {
        Buffer { paddr: self.req_paddr, len: BLOCK_REQ_SIZE }
    }

    /// The response as a buffer.
    pub open spec fn resp_buffer(self) -> Buffer {
        Buffer { paddr: self.resp_paddr, len: BLOCK_RESP_SIZE }
    }

    /// Writes a request and a response to their memory. Returns the two as
    /// buffers.
    pub fn place(self, req: BlockReq, resp: BlockResp) -> (res: (Buffer, Buffer))
        ensures
            *final(self.type_) == req.type_.number(),
            *final(self.reserved) == req.reserved,
            *final(self.sector) == req.sector,
            *final(self.status) == resp.status.number(),
            res == (self.req_buffer(), self.resp_buffer()),
    {
        *self.type_ = req.type_.code();
        *self.reserved = req.reserved;
        *self.sector = req.sector;
        *self.status = resp.status.code();
        (
            Buffer { paddr: self.req_paddr, len: BLOCK_REQ_SIZE },
            Buffer { paddr: self.resp_paddr, len: BLOCK_RESP_SIZE },
        )
    }
}

/// What a finished request was about.
#[derive(Clone, Copy, Debug, PartialEq, Eq, Structural)]
pub enum InterruptRet {
    /// The block that was read.
    Read(usize),
    /// The block that was written.
    Write(usize),
    /// Something else.
    Other,
}

/// What a request of this type for this sector was about.
pub open spec fn ret_of(type_: u32, sector: u64) -> InterruptRet {
    if type_ == BlockReqType::In.number() {
        InterruptRet::Read(sector as usize)
    } else if type_ == BlockReqType::Out.number() {
        InterruptRet::Write(sector as usize)
    } else {
        InterruptRet::Other
    }
}

/// What a request of this type for this sector was about.
pub fn interrupt_ret(type_: u32, sector: u64) -> (res: InterruptRet)
    ensures
        res == ret_of(type_, sector),
{
    match BlockReqType::from_code(type_) {
        Some(BlockReqType::In) => InterruptRet::Read(
            #[verifier::truncate]
            (sector as usize),
        ),
        Some(BlockReqType::Out) => InterruptRet::Write(
            #[verifier::truncate]
            (sector as usize),
        ),
        _ => {
            assert(type_ != BlockReqType::In.number() && type_ != BlockReqType::Out.number());
            InterruptRet::Other
        },
    }
}

} // verus!
